use secubot::framework::{event_handler, register_globally, Event};

#[test]
fn deleted_messages_are_told() {
    assert_eq!(event_handler(Event::MessageDelete), Some(String::from("<deleted>")));
    assert_eq!(event_handler(Event::MessageDeleteBulk(3)), Some(String::from("<3x deleted>")));
    assert_eq!(event_handler(Event::MessageDeleteBulk(0)), Some(String::from("<0x deleted>")));
    assert_eq!(event_handler(Event::Other), None);
}

#[test]
fn global_registration_is_asked_for_by_one_or_true() {
    assert!(register_globally(Some("1")));
    assert!(register_globally(Some("true")));
    assert!(register_globally(Some("TRUE")));
    assert!(register_globally(Some("TrUe")));
    assert!(!register_globally(Some("0")));
    assert!(!register_globally(Some("")));
    assert!(!register_globally(Some("yes")));
    assert!(!register_globally(Some("true ")));
    assert!(!register_globally(Some("11")));
    assert!(!register_globally(Some("trüe")));
    assert!(!register_globally(Some("t\u{212A}ue")));
    assert!(!register_globally(None));
}

#[test]
fn nick_is_shown_where_there_is_one() {
    assert_eq!(secubot::utils::get_nick_from_member(Some("nick"), "name"), "nick");
    assert_eq!(secubot::utils::get_nick_from_member(None, "name"), "name");
}
