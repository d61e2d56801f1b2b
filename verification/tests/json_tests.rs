use chat_relay::json::encode_names;

fn serde_reference(names: &Vec<String>) -> String {
    serde_json::to_string(names).unwrap()
}

#[test]
fn encodes_empty_list() {
    assert_eq!(encode_names(&vec![]), "[]");
}

#[test]
fn encodes_plain_names() {
    let names = vec!["alice".to_string(), "bob".to_string()];
    assert_eq!(encode_names(&names), "[\"alice\",\"bob\"]");
    assert_eq!(encode_names(&names), serde_reference(&names));
}

#[test]
fn encodes_escapes_like_serde() {
    let names = vec![
        "a\"b".to_string(),
        "back\\slash".to_string(),
        "line\nbreak".to_string(),
        "tab\there".to_string(),
        "bell\u{7}ring".to_string(),
        "mixed\r\u{1f}end".to_string(),
    ];
    assert_eq!(encode_names(&names), serde_reference(&names));
}

#[test]
fn encodes_unicode_names() {
    let names = vec!["用户42".to_string(), "Grüße".to_string()];
    assert_eq!(encode_names(&names), serde_reference(&names));
}
