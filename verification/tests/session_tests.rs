use chat_relay::chat::ChatCore;
use chat_relay::chat::RenameOutcome;
use chat_relay::models::EventKind;
use chat_relay::session::Session;
use chat_relay::session::SessionState;

fn s(x: &str) -> String {
    x.to_string()
}

#[test]
fn lifecycle_cleans_up_on_close() {
    let mut core = ChatCore::new(16);
    let observer = core.bus.subscribe().unwrap();

    let mut session = Session::connect(&mut core).unwrap();
    assert_eq!(session.state, SessionState::Active);
    assert_eq!(core.registry.snapshot().len(), 1);

    session.on_inbound(&mut core, s("hello there"));

    session.close(&mut core);
    assert_eq!(session.state, SessionState::Closed);
    assert_eq!(core.registry.get_name(&session.user_id), None);
    assert_eq!(core.registry.snapshot().len(), 0);

    let kinds: Vec<EventKind> = {
        let mut kinds = Vec::new();
        while let Some(ev) = core.bus.recv(observer) {
            kinds.push(ev.kind);
        }
        kinds
    };
    assert_eq!(
        kinds,
        vec![
            EventKind::Join,
            EventKind::Roster,
            EventKind::Chat,
            EventKind::Leave,
            EventKind::Roster,
        ]
    );
    let leaves = kinds.iter().filter(|k| **k == EventKind::Leave).count();
    assert_eq!(leaves, 1);
}

#[test]
fn session_receives_its_own_join() {
    let mut core = ChatCore::new(16);
    let session = Session::connect(&mut core).unwrap();
    let join = core.bus.recv(session.sub_id).unwrap();
    assert_eq!(join.kind, EventKind::Join);
    assert_eq!(join.origin, session.user_id);
    let roster = core.bus.recv(session.sub_id).unwrap();
    assert_eq!(roster.kind, EventKind::Roster);
}

#[test]
fn three_clients_end_to_end() {
    let mut core = ChatCore::new(64);
    let (uid_a, sid_a) = core.connect_with(1).unwrap();
    let (uid_b, sid_b) = core.connect_with(2).unwrap();
    let (uid_c, sid_c) = core.connect_with(3).unwrap();
    let _ = uid_a;
    let _ = uid_c;

    // Each connect published its join+roster pair, observed by client A.
    let mut kinds = Vec::new();
    while let Some(ev) = core.bus.recv(sid_a) {
        kinds.push(ev.kind);
    }
    assert_eq!(
        kinds,
        vec![
            EventKind::Join,
            EventKind::Roster,
            EventKind::Join,
            EventKind::Roster,
            EventKind::Join,
            EventKind::Roster,
        ]
    );

    // B renames to a name already held by C: rejected, registry unchanged.
    assert!(matches!(
        core.attempt_rename(&uid_b, &s("guest_3")),
        RenameOutcome::NameTaken
    ));
    assert_eq!(
        core.registry.snapshot(),
        vec![s("guest_1"), s("guest_2"), s("guest_3")]
    );
    assert!(core.bus.recv(sid_b).is_some()); // B's own pending join
    while core.bus.recv(sid_b).is_some() {}

    // B renames to a free name: accepted, rename+roster reach all three.
    assert!(matches!(
        core.attempt_rename(&uid_b, &s("neo")),
        RenameOutcome::Renamed(_)
    ));
    for sid in [sid_a, sid_b, sid_c] {
        while {
            let ev = core.bus.recv(sid).unwrap();
            ev.kind != EventKind::Rename
        } {}
        let roster = core.bus.recv(sid).unwrap();
        assert_eq!(roster.kind, EventKind::Roster);
        assert_eq!(roster.content, "[\"guest_1\",\"neo\",\"guest_3\"]");
    }

    // B disconnects: leave+roster, roster now shows A and C only.
    assert_eq!(core.disconnect(&uid_b), Some(s("neo")));
    core.bus.unsubscribe(sid_b);
    for sid in [sid_a, sid_c] {
        let leave = core.bus.recv(sid).unwrap();
        assert_eq!(leave.kind, EventKind::Leave);
        assert_eq!(leave.display_name, Some(s("neo")));
        let roster = core.bus.recv(sid).unwrap();
        assert_eq!(roster.kind, EventKind::Roster);
        assert_eq!(roster.content, "[\"guest_1\",\"guest_3\"]");
    }
    assert_eq!(core.registry.snapshot(), vec![s("guest_1"), s("guest_3")]);
}
