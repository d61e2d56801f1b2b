use chat_relay::models::Event;
use chat_relay::models::EventKind;
use chat_relay::models::RequestData;
use chat_relay::models::echo_response;
use chat_relay::text::u64_to_string;

#[test]
fn echo_acknowledges_message() {
    let resp = echo_response(&RequestData { message: "hi there".to_string() });
    assert_eq!(resp.message, "received: hi there");
    assert_eq!(resp.status, "success");
}

#[test]
fn event_flattens_to_wire_shape() {
    let ev = Event {
        origin: "system".to_string(),
        content: "[\"alice\"]".to_string(),
        kind: EventKind::Roster,
        display_name: None,
    };
    let m = ev.to_ws_message();
    assert_eq!(m.user_id, "system");
    assert_eq!(m.content, "[\"alice\"]");
    assert_eq!(m.message_type, "roster");
    assert_eq!(m.username, None);

    let ev = Event {
        origin: "user_1".to_string(),
        content: "hey".to_string(),
        kind: EventKind::Chat,
        display_name: Some("alice".to_string()),
    };
    let m = ev.to_ws_message();
    assert_eq!(m.message_type, "chat");
    assert_eq!(m.username, Some("alice".to_string()));
}

#[test]
fn formats_decimals() {
    assert_eq!(u64_to_string(0), "0");
    assert_eq!(u64_to_string(7), "7");
    assert_eq!(u64_to_string(40021234), "40021234");
    assert_eq!(u64_to_string(u64::MAX), u64::MAX.to_string());
}
