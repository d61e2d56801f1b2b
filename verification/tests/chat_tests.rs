use chat_relay::chat::ChatCore;
use chat_relay::chat::RenameOutcome;
use chat_relay::models::EventKind;
use chat_relay::models::RenameRequest;

fn s(x: &str) -> String {
    x.to_string()
}

#[test]
fn connect_publishes_join_then_roster() {
    let mut core = ChatCore::new(16);
    let (uid, sid) = core.connect_with(7).unwrap();
    assert_eq!(uid, "user_7");

    let join = core.bus.recv(sid).unwrap();
    assert_eq!(join.kind, EventKind::Join);
    assert_eq!(join.origin, "user_7");
    assert_eq!(join.content, "guest_7 joined the chat");
    assert_eq!(join.display_name, Some(s("guest_7")));

    let roster = core.bus.recv(sid).unwrap();
    assert_eq!(roster.kind, EventKind::Roster);
    assert_eq!(roster.origin, "system");
    assert_eq!(roster.content, "[\"guest_7\"]");
    assert_eq!(roster.display_name, None);

    assert!(core.bus.recv(sid).is_none());
}

#[test]
fn connect_refuses_token_collision() {
    let mut core = ChatCore::new(16);
    assert!(core.connect_with(7).is_some());
    assert!(core.connect_with(7).is_none());
    assert_eq!(core.registry.snapshot(), vec![s("guest_7")]);
}

#[test]
fn chat_carries_current_name() {
    let mut core = ChatCore::new(16);
    let (uid, sid) = core.connect_with(1).unwrap();
    core.bus.recv(sid);
    core.bus.recv(sid);

    core.chat(&uid, s("hello"));
    let ev = core.bus.recv(sid).unwrap();
    assert_eq!(ev.kind, EventKind::Chat);
    assert_eq!(ev.origin, "user_1");
    assert_eq!(ev.content, "hello");
    assert_eq!(ev.display_name, Some(s("guest_1")));

    assert!(matches!(
        core.attempt_rename(&uid, &s("neo")),
        RenameOutcome::Renamed(_)
    ));
    core.bus.recv(sid);
    core.bus.recv(sid);

    core.chat(&uid, s("again"));
    let ev = core.bus.recv(sid).unwrap();
    assert_eq!(ev.display_name, Some(s("neo")));
}

#[test]
fn chat_from_unknown_identity() {
    let mut core = ChatCore::new(16);
    let sid = core.bus.subscribe().unwrap();
    core.chat(&s("user_404"), s("ghost message"));
    let ev = core.bus.recv(sid).unwrap();
    assert_eq!(ev.kind, EventKind::Chat);
    assert_eq!(ev.display_name, Some(s("unknown")));
}

#[test]
fn rename_outcomes() {
    let mut core = ChatCore::new(16);
    let (uid_a, _) = core.connect_with(1).unwrap();
    let (uid_b, _) = core.connect_with(2).unwrap();

    assert!(matches!(
        core.attempt_rename(&uid_a, &s("   ")),
        RenameOutcome::InvalidLength
    ));
    assert!(matches!(
        core.attempt_rename(&uid_a, &"x".repeat(21)),
        RenameOutcome::InvalidLength
    ));
    assert!(matches!(
        core.attempt_rename(&uid_a, &s("abc def")),
        RenameOutcome::InvalidCharacters
    ));
    assert!(matches!(
        core.attempt_rename(&s("user_404"), &s("fine")),
        RenameOutcome::NotFound
    ));
    assert!(matches!(
        core.attempt_rename(&uid_a, &s("guest_2")),
        RenameOutcome::NameTaken
    ));
    match core.attempt_rename(&uid_a, &s(" abc_123 ")) {
        RenameOutcome::Renamed(applied) => assert_eq!(applied, "abc_123"),
        _ => panic!("expected the rename to be applied"),
    }
    assert_eq!(core.registry.snapshot(), vec![s("abc_123"), s("guest_2")]);

    // Renaming to one's own current name is accepted.
    assert!(matches!(
        core.attempt_rename(&uid_b, &s("guest_2")),
        RenameOutcome::Renamed(_)
    ));
}

#[test]
fn rename_publishes_pair_with_fresh_roster() {
    let mut core = ChatCore::new(16);
    let (uid, sid) = core.connect_with(3).unwrap();
    core.bus.recv(sid);
    core.bus.recv(sid);

    assert!(matches!(
        core.attempt_rename(&uid, &s("neo")),
        RenameOutcome::Renamed(_)
    ));
    let rename = core.bus.recv(sid).unwrap();
    assert_eq!(rename.kind, EventKind::Rename);
    assert_eq!(rename.origin, "user_3");
    assert_eq!(rename.content, "guest_3 is now known as neo");
    assert_eq!(rename.display_name, Some(s("neo")));

    let roster = core.bus.recv(sid).unwrap();
    assert_eq!(roster.kind, EventKind::Roster);
    assert_eq!(
        roster.content,
        serde_json::to_string(&core.registry.snapshot()).unwrap()
    );
}

#[test]
fn rejected_rename_publishes_nothing() {
    let mut core = ChatCore::new(16);
    let (uid, sid) = core.connect_with(3).unwrap();
    core.bus.recv(sid);
    core.bus.recv(sid);
    assert!(matches!(
        core.attempt_rename(&uid, &s("bad name")),
        RenameOutcome::InvalidCharacters
    ));
    assert!(core.bus.recv(sid).is_none());
    assert_eq!(core.registry.snapshot(), vec![s("guest_3")]);
}

#[test]
fn rename_race_single_winner() {
    let mut core = ChatCore::new(16);
    let (uid_a, _) = core.connect_with(1).unwrap();
    let (uid_b, _) = core.connect_with(2).unwrap();

    assert!(matches!(
        core.attempt_rename(&uid_a, &s("target")),
        RenameOutcome::Renamed(_)
    ));
    assert!(matches!(
        core.attempt_rename(&uid_b, &s("target")),
        RenameOutcome::NameTaken
    ));
    let holders = core
        .registry
        .snapshot()
        .into_iter()
        .filter(|n| n == "target")
        .count();
    assert_eq!(holders, 1);
}

#[test]
fn handle_rename_reports_inline() {
    let mut core = ChatCore::new(16);
    let (uid, _) = core.connect_with(1).unwrap();

    let resp = core.handle_rename(&RenameRequest { user_id: uid.clone(), new_name: s("neo") });
    assert!(resp.success);
    assert_eq!(resp.message, "name changed to neo");

    let resp = core.handle_rename(&RenameRequest { user_id: uid.clone(), new_name: s("") });
    assert!(!resp.success);
    assert_eq!(resp.message, "name must be 1 to 20 characters long");

    let resp = core.handle_rename(&RenameRequest { user_id: uid.clone(), new_name: s("a b") });
    assert!(!resp.success);
    assert_eq!(resp.message, "name may only contain letters, digits and underscores");

    let resp = core.handle_rename(&RenameRequest { user_id: s("user_404"), new_name: s("ok") });
    assert!(!resp.success);
    assert_eq!(resp.message, "user not found");

    let (uid_b, _) = core.connect_with(2).unwrap();
    let resp = core.handle_rename(&RenameRequest { user_id: uid_b, new_name: s("neo") });
    assert!(!resp.success);
    assert_eq!(resp.message, "name already taken");
}

#[test]
fn roster_follows_every_mutation() {
    let mut core = ChatCore::new(64);
    let observer = core.bus.subscribe().unwrap();
    let (uid_a, _) = core.connect_with(1).unwrap();
    let (uid_b, _) = core.connect_with(2).unwrap();
    assert!(matches!(
        core.attempt_rename(&uid_a, &s("renamed")),
        RenameOutcome::Renamed(_)
    ));
    assert_eq!(core.disconnect(&uid_b), Some(s("guest_2")));
    assert_eq!(core.disconnect(&uid_b), None);

    let mut rosters = Vec::new();
    while let Some(ev) = core.bus.recv(observer) {
        if ev.kind == EventKind::Roster {
            rosters.push(ev.content);
        }
    }
    assert_eq!(
        rosters,
        vec![
            s("[\"guest_1\"]"),
            s("[\"guest_1\",\"guest_2\"]"),
            s("[\"renamed\",\"guest_2\"]"),
            s("[\"renamed\"]"),
        ]
    );
    assert_eq!(
        rosters.last().unwrap(),
        &serde_json::to_string(&core.registry.snapshot()).unwrap()
    );
}
