use dnote::directory::{Hints, Notes};

fn no_hints() -> Hints {
    Hints {
        action_icons: None,
        category: None,
        desktop_entry: None,
        image_path: None,
        resident: None,
        transient: None,
        urgency: None,
    }
}

fn hints_with_urgency(u: u8) -> Hints {
    Hints {
        action_icons: None,
        category: None,
        desktop_entry: None,
        image_path: None,
        resident: None,
        transient: None,
        urgency: Some(u),
    }
}

fn note(notes: &mut Notes, replaces_id: u32, summary: &str, urgency: Option<u8>) -> u32 {
    let hints = match urgency {
        Some(u) => hints_with_urgency(u),
        None => no_hints(),
    };
    notes.notify(
        String::from("app"),
        replaces_id,
        String::from("icon"),
        String::from(summary),
        String::from("body"),
        Vec::new(),
        hints,
        5000,
    )
}

#[test]
fn fresh_ids_are_strictly_increasing_and_nonzero() {
    let mut notes = Notes::new();
    let mut last: u32 = 0;
    for _ in 0..20 {
        let id = note(&mut notes, 0, "s", Some(1));
        assert_ne!(id, 0);
        assert!(id > last);
        last = id;
    }
}

#[test]
fn first_fresh_id_is_two_and_the_next_is_three() {
    let mut notes = Notes::new();
    assert_eq!(notes.last_id, 1);
    let first = note(&mut notes, 0, "a", Some(1));
    let second = note(&mut notes, 0, "b", Some(1));
    assert_eq!(first, 2);
    assert_eq!(second, first + 1);
}

#[test]
fn notify_with_existing_id_fully_replaces_the_entry() {
    let mut notes = Notes::new();
    let a = note(&mut notes, 0, "old summary", Some(2));
    let b = note(&mut notes, 0, "other", Some(1));
    // Replace entry `a` with new fields and the lowest urgency.
    let replaced = notes.notify(
        String::from("app2"),
        a,
        String::from("icon2"),
        String::from("new summary"),
        String::from("body2"),
        vec![String::from("default")],
        hints_with_urgency(0),
        0,
    );
    assert_eq!(replaced, a);
    assert_eq!(notes.notifications.len(), 2);
    let entry = notes
        .notifications
        .iter()
        .find(|e| e.0 == a)
        .expect("replaced entry is still present");
    assert_eq!(entry.1.app_name, "app2");
    assert_eq!(entry.1.summary, "new summary");
    assert_eq!(entry.1.actions, vec![String::from("default")]);
    assert_eq!(entry.1.hints.urgency, Some(0));
    // The priority order reflects only the new urgency: `b` (urgency 1)
    // now comes before `a` (urgency 0).
    assert_eq!(notes.priority, vec![b, a]);
}

#[test]
fn closing_an_absent_id_changes_nothing() {
    let mut notes = Notes::new();
    let a = note(&mut notes, 0, "one", Some(1));
    let before_priority = notes.priority.clone();
    let before_len = notes.notifications.len();
    let before_last = notes.last_id;
    notes.close_notification(a + 100);
    assert_eq!(notes.priority, before_priority);
    assert_eq!(notes.notifications.len(), before_len);
    assert_eq!(notes.last_id, before_last);
}

#[test]
fn remove_reports_presence_and_is_idempotent() {
    let mut notes = Notes::new();
    let a = note(&mut notes, 0, "one", Some(1));
    assert!(notes.remove(a));
    assert!(!notes.remove(a));
    assert_eq!(notes.notifications.len(), 0);
    assert_eq!(notes.priority.len(), 0);
}

#[test]
fn closing_five_from_two_and_five_leaves_only_two() {
    let mut notes = Notes::new();
    let two = note(&mut notes, 2, "two", Some(1));
    let five = note(&mut notes, 5, "five", Some(1));
    assert_eq!(two, 2);
    assert_eq!(five, 5);
    notes.close_notification(5);
    let ids: Vec<u32> = notes.notifications.iter().map(|e| e.0).collect();
    assert_eq!(ids, vec![2]);
    let snap = notes.snapshot();
    assert_eq!(snap.priority, vec![2]);
}

#[test]
fn urgency_orders_before_id_regardless_of_insertion_order() {
    // Urgency 2 before urgency 0, inserted low-urgency first.
    let mut notes = Notes::new();
    let low = note(&mut notes, 0, "low", Some(0));
    let critical = note(&mut notes, 0, "critical", Some(2));
    assert_eq!(notes.priority, vec![critical, low]);
    // And the same pair inserted the other way round.
    let mut other = Notes::new();
    let critical2 = note(&mut other, 0, "critical", Some(2));
    let low2 = note(&mut other, 0, "low", Some(0));
    assert_eq!(other.priority, vec![critical2, low2]);
    // Equal urgency: ascending id.
    let mut ties = Notes::new();
    let first = note(&mut ties, 0, "a", Some(1));
    let second = note(&mut ties, 0, "b", Some(1));
    assert_eq!(ties.priority, vec![first, second]);
}

#[test]
fn missing_urgency_sorts_lowest() {
    let mut notes = Notes::new();
    let none = note(&mut notes, 0, "none", None);
    let low = note(&mut notes, 0, "low", Some(1));
    assert_eq!(notes.priority, vec![low, none]);
}

#[test]
fn notification_closed_event_removes_like_a_close_call() {
    let mut notes = Notes::new();
    let a = note(&mut notes, 0, "one", Some(1));
    let b = note(&mut notes, 0, "two", Some(1));
    notes.notification_closed(a, 3);
    let ids: Vec<u32> = notes.notifications.iter().map(|e| e.0).collect();
    assert_eq!(ids, vec![b]);
}

#[test]
fn capabilities_advertise_body_only() {
    let notes = Notes::new();
    assert_eq!(notes.get_capabilities(), vec![String::from("body")]);
}

#[test]
fn server_information_is_the_fixed_identity() {
    let notes = Notes::new();
    let info = notes.get_server_information();
    assert_eq!(info, ("dnote", "kgb33", "v0.0.0", "1.2"));
}

#[test]
fn snapshot_is_a_faithful_copy() {
    let mut notes = Notes::new();
    let _ = note(&mut notes, 0, "one", Some(2));
    let _ = note(&mut notes, 0, "two", None);
    let snap = notes.snapshot();
    assert_eq!(snap.last_id, notes.last_id);
    assert_eq!(snap.priority, notes.priority);
    assert_eq!(snap.notifications.len(), notes.notifications.len());
    for (a, b) in snap.notifications.iter().zip(notes.notifications.iter()) {
        assert_eq!(a.0, b.0);
        assert_eq!(a.1.summary, b.1.summary);
        assert_eq!(a.1.hints.urgency, b.1.hints.urgency);
    }
}

#[test]
fn replaced_entry_keeps_the_allocator_still() {
    let mut notes = Notes::new();
    let a = note(&mut notes, 0, "one", Some(1));
    let before = notes.last_id;
    let replaced = note(&mut notes, a, "one again", Some(1));
    assert_eq!(replaced, a);
    assert_eq!(notes.last_id, before);
}

#[test]
fn largest_id_value_is_accepted_as_a_fixed_id() {
    let mut notes = Notes::new();
    let id = note(&mut notes, u32::MAX, "edge", Some(1));
    assert_eq!(id, u32::MAX);
    let present: Vec<u32> = notes.notifications.iter().map(|e| e.0).collect();
    assert_eq!(present, vec![u32::MAX]);
}
