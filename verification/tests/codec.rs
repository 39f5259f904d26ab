use dnote::codec::{parse_snapshot, render_snapshot};
use dnote::directory::{Hints, Notes};

fn full_hints() -> Hints {
    Hints {
        action_icons: Some(true),
        category: Some(String::from("im.received")),
        desktop_entry: Some(String::from("org.example.Chat")),
        image_path: Some(String::from("/tmp/pic.png")),
        resident: Some(false),
        transient: Some(true),
        urgency: Some(2),
    }
}

fn no_hints() -> Hints {
    Hints {
        action_icons: None,
        category: None,
        desktop_entry: None,
        image_path: None,
        resident: None,
        transient: None,
        urgency: None,
    }
}

#[test]
fn empty_directory_renders_the_fixed_line() {
    let notes = Notes::new();
    let line = render_snapshot(&notes);
    assert_eq!(line, "{\"notifications\":{},\"priority\":[],\"last_id\":1}");
}

#[test]
fn one_note_renders_every_field_in_order() {
    let mut notes = Notes::new();
    let id = notes.notify(
        String::from("mailer"),
        0,
        String::from("mail-icon"),
        String::from("hi"),
        String::from("text"),
        vec![String::from("open"), String::from("dismiss")],
        no_hints(),
        0,
    );
    assert_eq!(id, 2);
    let line = render_snapshot(&notes);
    assert_eq!(
        line,
        "{\"notifications\":{\"2\":{\"app_name\":\"mailer\",\"app_icon\":\"mail-icon\",\
         \"summary\":\"hi\",\"body\":\"text\",\"actions\":[\"open\",\"dismiss\"],\
         \"hints\":{\"action_icons\":null,\"category\":null,\"desktop_entry\":null,\
         \"image_path\":null,\"resident\":null,\"transient\":null,\"urgency\":null}}},\
         \"priority\":[2],\"last_id\":2}"
    );
}

#[test]
fn round_trip_preserves_ids_fields_and_priority() {
    let mut notes = Notes::new();
    let _a = notes.notify(
        String::from("app one"),
        0,
        String::from(""),
        String::from("has \"quotes\" and \\slashes\\"),
        String::from("line\nbreak and tab\t"),
        vec![String::from("yes"), String::from("no")],
        full_hints(),
        100,
    );
    let _b = notes.notify(
        String::from("äpp two"),
        0,
        String::from("icon"),
        String::from("plain"),
        String::from(""),
        Vec::new(),
        no_hints(),
        -1,
    );
    let line = render_snapshot(&notes);
    let back = parse_snapshot(line.as_str()).expect("the rendered line parses");
    assert_eq!(back.last_id, notes.last_id);
    assert_eq!(back.priority, notes.priority);
    assert_eq!(back.notifications.len(), notes.notifications.len());
    for (x, y) in back.notifications.iter().zip(notes.notifications.iter()) {
        assert_eq!(x.0, y.0);
        assert_eq!(x.1.app_name, y.1.app_name);
        assert_eq!(x.1.app_icon, y.1.app_icon);
        assert_eq!(x.1.summary, y.1.summary);
        assert_eq!(x.1.body, y.1.body);
        assert_eq!(x.1.actions, y.1.actions);
        assert_eq!(x.1.hints.action_icons, y.1.hints.action_icons);
        assert_eq!(x.1.hints.category, y.1.hints.category);
        assert_eq!(x.1.hints.desktop_entry, y.1.hints.desktop_entry);
        assert_eq!(x.1.hints.image_path, y.1.hints.image_path);
        assert_eq!(x.1.hints.resident, y.1.hints.resident);
        assert_eq!(x.1.hints.transient, y.1.hints.transient);
        assert_eq!(x.1.hints.urgency, y.1.hints.urgency);
    }
    // Rendering the parsed state gives the identical line again.
    assert_eq!(render_snapshot(&back), line);
}

#[test]
fn round_trip_keeps_the_largest_id() {
    let mut notes = Notes::new();
    let id = notes.notify(
        String::from("edge"),
        u32::MAX,
        String::from(""),
        String::from("s"),
        String::from("b"),
        Vec::new(),
        no_hints(),
        0,
    );
    assert_eq!(id, u32::MAX);
    let line = render_snapshot(&notes);
    let back = parse_snapshot(line.as_str()).expect("parses");
    assert_eq!(back.notifications[0].0, u32::MAX);
}

#[test]
fn malformed_lines_do_not_parse() {
    assert!(parse_snapshot("").is_none());
    assert!(parse_snapshot("{}").is_none());
    assert!(parse_snapshot("{\"notifications\":{},\"priority\":[],\"last_id\":1} ").is_none());
    assert!(parse_snapshot("{\"notifications\":{},\"priority\":[],\"last_id\":01}").is_none());
    assert!(parse_snapshot("{\"notifications\":{},\"priority\":[]}").is_none());
}

#[test]
fn on_change_reorders_and_reports_the_current_line() {
    let mut notes = Notes::new();
    let low = notes.notify(
        String::from("a"),
        0,
        String::from(""),
        String::from("low"),
        String::from(""),
        Vec::new(),
        Hints {
            action_icons: None,
            category: None,
            desktop_entry: None,
            image_path: None,
            resident: None,
            transient: None,
            urgency: Some(0),
        },
        0,
    );
    let high = notes.notify(
        String::from("b"),
        0,
        String::from(""),
        String::from("high"),
        String::from(""),
        Vec::new(),
        Hints {
            action_icons: None,
            category: None,
            desktop_entry: None,
            image_path: None,
            resident: None,
            transient: None,
            urgency: Some(2),
        },
        0,
    );
    let line = notes.on_change();
    assert_eq!(notes.priority, vec![high, low]);
    assert_eq!(line, render_snapshot(&notes));
}
