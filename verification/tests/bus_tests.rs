use chat_relay::bus::Bus;
use chat_relay::models::Event;
use chat_relay::models::EventKind;

fn chat_event(text: &str) -> Event {
    Event {
        origin: "user_1".to_string(),
        content: text.to_string(),
        kind: EventKind::Chat,
        display_name: Some("alice".to_string()),
    }
}

#[test]
fn delivers_in_publish_order() {
    let mut bus = Bus::new(8);
    let sid = bus.subscribe().unwrap();
    bus.publish(chat_event("one"));
    bus.publish(chat_event("two"));
    bus.publish(chat_event("three"));
    assert_eq!(bus.recv(sid).unwrap().content, "one");
    assert_eq!(bus.recv(sid).unwrap().content, "two");
    assert_eq!(bus.recv(sid).unwrap().content, "three");
    assert!(bus.recv(sid).is_none());
}

#[test]
fn no_replay_before_subscription() {
    let mut bus = Bus::new(8);
    bus.publish(chat_event("early"));
    let sid = bus.subscribe().unwrap();
    assert!(bus.recv(sid).is_none());
    bus.publish(chat_event("late"));
    assert_eq!(bus.recv(sid).unwrap().content, "late");
}

#[test]
fn full_queue_drops_oldest() {
    let mut bus = Bus::new(2);
    let sid = bus.subscribe().unwrap();
    bus.publish(chat_event("one"));
    bus.publish(chat_event("two"));
    bus.publish(chat_event("three"));
    assert_eq!(bus.recv(sid).unwrap().content, "two");
    assert_eq!(bus.recv(sid).unwrap().content, "three");
    assert!(bus.recv(sid).is_none());
}

#[test]
fn subscribers_see_the_same_order() {
    let mut bus = Bus::new(8);
    let a = bus.subscribe().unwrap();
    let b = bus.subscribe().unwrap();
    bus.publish(chat_event("x"));
    bus.publish(chat_event("y"));
    for sid in [a, b] {
        assert_eq!(bus.recv(sid).unwrap().content, "x");
        assert_eq!(bus.recv(sid).unwrap().content, "y");
        assert!(bus.recv(sid).is_none());
    }
}

#[test]
fn unsubscribed_receiver_gets_nothing() {
    let mut bus = Bus::new(8);
    let sid = bus.subscribe().unwrap();
    bus.publish(chat_event("x"));
    assert!(bus.unsubscribe(sid));
    assert!(!bus.unsubscribe(sid));
    assert!(bus.recv(sid).is_none());
    bus.publish(chat_event("y"));
    assert!(bus.recv(sid).is_none());
}

#[test]
fn lagging_subscriber_does_not_stall_others() {
    let mut bus = Bus::new(2);
    let lagging = bus.subscribe().unwrap();
    let keen = bus.subscribe().unwrap();
    for text in ["a", "b", "c", "d"] {
        bus.publish(chat_event(text));
        assert_eq!(bus.recv(keen).unwrap().content, text);
    }
    assert_eq!(bus.recv(lagging).unwrap().content, "c");
    assert_eq!(bus.recv(lagging).unwrap().content, "d");
    assert!(bus.recv(lagging).is_none());
}
