use chat_relay::registry::Registry;
use chat_relay::registry::RenameError;

fn s(x: &str) -> String {
    x.to_string()
}

#[test]
fn register_and_snapshot() {
    let mut reg = Registry::new();
    assert!(reg.register(s("user_1"), s("alice")));
    assert!(reg.register(s("user_2"), s("bob")));
    assert_eq!(reg.snapshot(), vec![s("alice"), s("bob")]);
}

#[test]
fn register_rejects_duplicate_name() {
    let mut reg = Registry::new();
    assert!(reg.register(s("user_1"), s("alice")));
    assert!(!reg.register(s("user_2"), s("alice")));
    assert_eq!(reg.snapshot(), vec![s("alice")]);
}

#[test]
fn deregister_returns_name_once() {
    let mut reg = Registry::new();
    assert!(reg.register(s("user_1"), s("alice")));
    assert_eq!(reg.deregister(&s("user_1")), Some(s("alice")));
    assert_eq!(reg.deregister(&s("user_1")), None);
    assert_eq!(reg.snapshot(), Vec::<String>::new());
}

#[test]
fn rename_not_found() {
    let mut reg = Registry::new();
    assert_eq!(reg.rename(&s("user_9"), s("bob")), Err(RenameError::NotFound));
}

#[test]
fn rename_name_taken_by_other() {
    let mut reg = Registry::new();
    assert!(reg.register(s("user_1"), s("alice")));
    assert!(reg.register(s("user_2"), s("bob")));
    assert_eq!(reg.rename(&s("user_1"), s("bob")), Err(RenameError::NameTaken));
    assert_eq!(reg.snapshot(), vec![s("alice"), s("bob")]);
}

#[test]
fn rename_to_own_name_succeeds() {
    let mut reg = Registry::new();
    assert!(reg.register(s("user_1"), s("alice")));
    assert_eq!(reg.rename(&s("user_1"), s("alice")), Ok(s("alice")));
    assert_eq!(reg.snapshot(), vec![s("alice")]);
}

#[test]
fn rename_replaces_in_place() {
    let mut reg = Registry::new();
    assert!(reg.register(s("user_1"), s("alice")));
    assert!(reg.register(s("user_2"), s("bob")));
    assert_eq!(reg.rename(&s("user_1"), s("carol")), Ok(s("carol")));
    assert_eq!(reg.snapshot(), vec![s("carol"), s("bob")]);
}

#[test]
fn get_name_and_has_name() {
    let mut reg = Registry::new();
    assert!(reg.register(s("user_1"), s("alice")));
    assert_eq!(reg.get_name(&s("user_1")), Some(s("alice")));
    assert_eq!(reg.get_name(&s("user_2")), None);
    assert!(reg.has_name(&s("alice")));
    assert!(!reg.has_name(&s("bob")));
}
