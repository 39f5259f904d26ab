use dnote::directory::Notes;
use dnote::hints::{decode_hints, HintValue};

fn pair(k: &str, v: HintValue) -> (String, HintValue) {
    (String::from(k), v)
}

#[test]
fn known_keys_decode_into_their_fields() {
    let pairs = vec![
        pair("action-icons", HintValue::Bool(true)),
        pair("category", HintValue::Text(String::from("email"))),
        pair("desktop-entry", HintValue::Text(String::from("org.example"))),
        pair("image-path", HintValue::Text(String::from("/p.png"))),
        pair("resident", HintValue::Bool(false)),
        pair("transient", HintValue::Bool(true)),
        pair("urgency", HintValue::Byte(2)),
    ];
    let h = decode_hints(&pairs).expect("all pairs are well typed");
    assert_eq!(h.action_icons, Some(true));
    assert_eq!(h.category, Some(String::from("email")));
    assert_eq!(h.desktop_entry, Some(String::from("org.example")));
    assert_eq!(h.image_path, Some(String::from("/p.png")));
    assert_eq!(h.resident, Some(false));
    assert_eq!(h.transient, Some(true));
    assert_eq!(h.urgency, Some(2));
}

#[test]
fn unknown_keys_are_ignored() {
    let pairs = vec![
        pair("sound-file", HintValue::Text(String::from("/s.ogg"))),
        pair("x", HintValue::Other),
        pair("urgency", HintValue::Byte(1)),
    ];
    let h = decode_hints(&pairs).expect("unknown keys never fail");
    assert_eq!(h.urgency, Some(1));
    assert_eq!(h.category, None);
}

#[test]
fn a_wrong_typed_known_key_rejects_the_whole_dictionary() {
    let pairs = vec![
        pair("category", HintValue::Text(String::from("email"))),
        pair("urgency", HintValue::Text(String::from("high"))),
    ];
    assert!(decode_hints(&pairs).is_err());
    let pairs2 = vec![pair("resident", HintValue::Other)];
    assert!(decode_hints(&pairs2).is_err());
}

#[test]
fn of_repeated_keys_the_last_one_wins() {
    let pairs = vec![
        pair("urgency", HintValue::Byte(0)),
        pair("urgency", HintValue::Byte(2)),
    ];
    let h = decode_hints(&pairs).expect("both pairs are well typed");
    assert_eq!(h.urgency, Some(2));
}

#[test]
fn a_failed_decode_leaves_the_directory_untouched() {
    let mut notes = Notes::new();
    let bad = vec![pair("urgency", HintValue::Other)];
    let r = notes.notify_with_hints(
        String::from("app"),
        0,
        String::from(""),
        String::from("s"),
        String::from("b"),
        Vec::new(),
        bad,
        0,
    );
    assert!(r.is_err());
    assert_eq!(notes.notifications.len(), 0);
    assert_eq!(notes.last_id, 1);
    let good = vec![pair("urgency", HintValue::Byte(1))];
    let id = notes
        .notify_with_hints(
            String::from("app"),
            0,
            String::from(""),
            String::from("s"),
            String::from("b"),
            Vec::new(),
            good,
            0,
        )
        .expect("well-typed hints go through");
    assert_eq!(id, 2);
    assert_eq!(notes.notifications[0].1.hints.urgency, Some(1));
}
