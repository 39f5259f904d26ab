//! The snapshot codec: a directory state as one self-contained line of
//! structured text, and the reader that rebuilds the state from such a
//! line, with a proof that reading undoes writing.
//!
//! The line is one object without any whitespace:
//! `{"notifications":{"<id>":{...},...},"priority":[...],"last_id":N}`.

use vstd::prelude::*;

use crate::chars::chars_to_string;
use crate::chars::str_to_chars;
use crate::decimal::dec_digits;
use crate::decimal::is_digit;
use crate::decimal::parse_u32_at;
use crate::decimal::push_dec;
use crate::decimal::lemma_dec_all_digits;
use crate::decimal::lemma_parse_dec;
use crate::decimal::sp_parse_u32;
use crate::directory::entries_view;
use crate::directory::opt_string_view;
use crate::directory::unique_ids;
use crate::directory::Hints;
use crate::directory::HintsView;
use crate::directory::Notes;
use crate::directory::NotesView;
use crate::directory::NoteView;
use crate::directory::Notification;
use crate::jsontext::expect;
use crate::jsontext::parse_string_at;
use crate::jsontext::push_ser_string;
use crate::jsontext::at;
use crate::jsontext::lemma_at_char;
use crate::jsontext::lemma_at_concat;
use crate::jsontext::lemma_at_first;
use crate::jsontext::lemma_parse_string_of_ser;
use crate::jsontext::sp_parse_string;
use crate::jsontext::sp_ser_string;

verus! {

/// `{"notifications":`
pub open spec fn tk_notifications() -> Seq<char> {
    seq!['{', '"', 'n', 'o', 't', 'i', 'f', 'i', 'c', 'a', 't', 'i', 'o', 'n', 's', '"', ':']
}

/// `,"priority":`
pub open spec fn tk_priority() -> Seq<char> {
    seq![',', '"', 'p', 'r', 'i', 'o', 'r', 'i', 't', 'y', '"', ':']
}

/// `,"last_id":`
pub open spec fn tk_last_id() -> Seq<char> {
    seq![',', '"', 'l', 'a', 's', 't', '_', 'i', 'd', '"', ':']
}

/// `{"app_name":`
pub open spec fn tk_app_name() -> Seq<char> {
    seq!['{', '"', 'a', 'p', 'p', '_', 'n', 'a', 'm', 'e', '"', ':']
}

/// `,"app_icon":`
pub open spec fn tk_app_icon() -> Seq<char> {
    seq![',', '"', 'a', 'p', 'p', '_', 'i', 'c', 'o', 'n', '"', ':']
}

/// `,"summary":`
pub open spec fn tk_summary() -> Seq<char> {
    seq![',', '"', 's', 'u', 'm', 'm', 'a', 'r', 'y', '"', ':']
}

/// `,"body":`
pub open spec fn tk_body() -> Seq<char> {
    seq![',', '"', 'b', 'o', 'd', 'y', '"', ':']
}

/// `,"actions":`
pub open spec fn tk_actions() -> Seq<char> {
    seq![',', '"', 'a', 'c', 't', 'i', 'o', 'n', 's', '"', ':']
}

/// `,"hints":`
pub open spec fn tk_hints() -> Seq<char> {
    seq![',', '"', 'h', 'i', 'n', 't', 's', '"', ':']
}

/// `{"action_icons":`
pub open spec fn tk_action_icons() -> Seq<char> {
    seq!['{', '"', 'a', 'c', 't', 'i', 'o', 'n', '_', 'i', 'c', 'o', 'n', 's', '"', ':']
}

/// `,"category":`
pub open spec fn tk_category() -> Seq<char> {
    seq![',', '"', 'c', 'a', 't', 'e', 'g', 'o', 'r', 'y', '"', ':']
}

/// `,"desktop_entry":`
pub open spec fn tk_desktop_entry() -> Seq<char> {
    seq![',', '"', 'd', 'e', 's', 'k', 't', 'o', 'p', '_', 'e', 'n', 't', 'r', 'y', '"', ':']
}

/// `,"image_path":`
pub open spec fn tk_image_path() -> Seq<char> {
    seq![',', '"', 'i', 'm', 'a', 'g', 'e', '_', 'p', 'a', 't', 'h', '"', ':']
}

/// `,"resident":`
pub open spec fn tk_resident() -> Seq<char> {
    seq![',', '"', 'r', 'e', 's', 'i', 'd', 'e', 'n', 't', '"', ':']
}

/// `,"transient":`
pub open spec fn tk_transient() -> Seq<char> {
    seq![',', '"', 't', 'r', 'a', 'n', 's', 'i', 'e', 'n', 't', '"', ':']
}

/// `,"urgency":`
pub open spec fn tk_urgency() -> Seq<char> {
    seq![',', '"', 'u', 'r', 'g', 'e', 'n', 'c', 'y', '"', ':']
}

/// `null`
pub open spec fn tk_null() -> Seq<char> {
    seq!['n', 'u', 'l', 'l']
}

/// `true`
pub open spec fn tk_true() -> Seq<char> {
    seq!['t', 'r', 'u', 'e']
}

/// `false`
pub open spec fn tk_false() -> Seq<char> {
    seq!['f', 'a', 'l', 's', 'e']
}

/// The serialized form of a boolean.
pub open spec fn sp_ser_bool(b: bool) -> Seq<char> {
    if b {
        tk_true()
    } else {
        tk_false()
    }
}

/// The serialized form of an optional boolean hint.
pub open spec fn sp_ser_opt_bool(o: Option<bool>) -> Seq<char> {
    match o {
        None => tk_null(),
        Some(b) => sp_ser_bool(b),
    }
}

/// The serialized form of an optional string hint.
pub open spec fn sp_ser_opt_string(o: Option<Seq<char>>) -> Seq<char> {
    match o {
        None => tk_null(),
        Some(t) => sp_ser_string(t),
    }
}

/// The serialized form of an optional urgency level.
pub open spec fn sp_ser_opt_u8(o: Option<u8>) -> Seq<char> {
    match o {
        None => tk_null(),
        Some(u) => dec_digits(u as nat),
    }
}

/// The serialized form of a hint record: all seven fields, always, in a
/// fixed order, absent hints as `null`.
pub open spec fn sp_ser_hints(h: HintsView) -> Seq<char> {
    tk_action_icons() + (sp_ser_opt_bool(h.action_icons) + (tk_category() + (sp_ser_opt_string(
        h.category,
    ) + (tk_desktop_entry() + (sp_ser_opt_string(h.desktop_entry) + (tk_image_path() + (
    sp_ser_opt_string(h.image_path) + (tk_resident() + (sp_ser_opt_bool(h.resident) + (
    tk_transient() + (sp_ser_opt_bool(h.transient) + (tk_urgency() + (sp_ser_opt_u8(h.urgency)
        + seq!['}'])))))))))))))
}

/// The serialized items of a nonempty string list, separated by commas.
pub open spec fn sp_ser_strings_items(xs: Seq<Seq<char>>) -> Seq<char>
    decreases xs.len(),
{
    if xs.len() == 0 {
        Seq::empty()
    } else if xs.len() == 1 {
        sp_ser_string(xs[0])
    } else {
        sp_ser_string(xs[0]) + (seq![','] + sp_ser_strings_items(xs.drop_first()))
    }
}

/// The serialized form of an action list.
pub open spec fn sp_ser_actions(xs: Seq<Seq<char>>) -> Seq<char> {
    if xs.len() == 0 {
        seq!['['] + seq![']']
    } else {
        seq!['['] + (sp_ser_strings_items(xs) + seq![']'])
    }
}

/// The serialized form of one notification record.
pub open spec fn sp_ser_note(n: NoteView) -> Seq<char> {
    tk_app_name() + (sp_ser_string(n.app_name) + (tk_app_icon() + (sp_ser_string(n.app_icon) + (
    tk_summary() + (sp_ser_string(n.summary) + (tk_body() + (sp_ser_string(n.body) + (tk_actions()
        + (sp_ser_actions(n.actions) + (tk_hints() + (sp_ser_hints(n.hints)
        + seq!['}'])))))))))))
}

/// The serialized form of one directory entry: the id as an object key,
/// then the record.
pub open spec fn sp_ser_entry(e: (u32, NoteView)) -> Seq<char> {
    seq!['"'] + (dec_digits(e.0 as nat) + (seq!['"', ':'] + sp_ser_note(e.1)))
}

/// The serialized items of a nonempty entry list, separated by commas.
pub open spec fn sp_ser_entries_items(es: Seq<(u32, NoteView)>) -> Seq<char>
    decreases es.len(),
{
    if es.len() == 0 {
        Seq::empty()
    } else if es.len() == 1 {
        sp_ser_entry(es[0])
    } else {
        sp_ser_entry(es[0]) + (seq![','] + sp_ser_entries_items(es.drop_first()))
    }
}

/// The serialized form of the entry mapping.
pub open spec fn sp_ser_entries(es: Seq<(u32, NoteView)>) -> Seq<char> {
    if es.len() == 0 {
        seq!['{'] + seq!['}']
    } else {
        seq!['{'] + (sp_ser_entries_items(es) + seq!['}'])
    }
}

/// The serialized items of a nonempty id list, separated by commas.
pub open spec fn sp_ser_ids_items(xs: Seq<u32>) -> Seq<char>
    decreases xs.len(),
{
    if xs.len() == 0 {
        Seq::empty()
    } else if xs.len() == 1 {
        dec_digits(xs[0] as nat)
    } else {
        dec_digits(xs[0] as nat) + (seq![','] + sp_ser_ids_items(xs.drop_first()))
    }
}

/// The serialized form of the priority sequence.
pub open spec fn sp_ser_ids(xs: Seq<u32>) -> Seq<char> {
    if xs.len() == 0 {
        seq!['['] + seq![']']
    } else {
        seq!['['] + (sp_ser_ids_items(xs) + seq![']'])
    }
}

/// The serialized form of a whole directory snapshot.
pub open spec fn sp_ser_snapshot(v: NotesView) -> Seq<char> {
    tk_notifications() + (sp_ser_entries(v.notifications) + (tk_priority() + (sp_ser_ids(
        v.priority,
    ) + (tk_last_id() + (dec_digits(v.last_id as nat) + seq!['}'])))))
}

/// Locate the literal token `t` at position `i`.
pub open spec fn sp_expect(s: Seq<char>, i: int, t: Seq<char>) -> Option<int> {
    if at(s, i, t) {
        Some(i + t.len() as int)
    } else {
        None
    }
}

/// Parse a boolean.
pub open spec fn sp_parse_bool(s: Seq<char>, i: int) -> Option<(bool, int)> {
    match sp_expect(s, i, tk_true()) {
        Some(j) => Some((true, j)),
        None => match sp_expect(s, i, tk_false()) {
            Some(j) => Some((false, j)),
            None => None,
        },
    }
}

/// Parse an optional boolean: `null` or a boolean.
pub open spec fn sp_parse_opt_bool(s: Seq<char>, i: int) -> Option<(Option<bool>, int)> {
    match sp_expect(s, i, tk_null()) {
        Some(j) => Some((None, j)),
        None => match sp_parse_bool(s, i) {
            Some(p) => Some((Some(p.0), p.1)),
            None => None,
        },
    }
}

/// Parse an optional string: `null` or a quoted string.
pub open spec fn sp_parse_opt_string(s: Seq<char>, i: int) -> Option<(Option<Seq<char>>, int)> {
    match sp_expect(s, i, tk_null()) {
        Some(j) => Some((None, j)),
        None => match sp_parse_string(s, i) {
            Some(p) => Some((Some(p.0), p.1)),
            None => None,
        },
    }
}

/// Parse an optional urgency level: `null` or a number below 256.
pub open spec fn sp_parse_opt_u8(s: Seq<char>, i: int) -> Option<(Option<u8>, int)> {
    match sp_expect(s, i, tk_null()) {
        Some(j) => Some((None, j)),
        None => match sp_parse_u32(s, i) {
            Some(p) => if p.0 <= 255 {
                Some((Some(p.0 as u8), p.1))
            } else {
                None
            },
            None => None,
        },
    }
}

/// Parse a hint record: the seven fixed fields between braces.
pub open spec fn sp_parse_hints(s: Seq<char>, i: int) -> Option<(HintsView, int)> {
    match sp_expect(s, i, tk_action_icons()) {
        None => None,
        Some(j1) => match sp_parse_opt_bool(s, j1) {
            None => None,
            Some((action_icons, j2)) => match sp_expect(s, j2, tk_category()) {
                None => None,
                Some(j3) => match sp_parse_opt_string(s, j3) {
                    None => None,
                    Some((category, j4)) => match sp_expect(s, j4, tk_desktop_entry()) {
                        None => None,
                        Some(j5) => match sp_parse_opt_string(s, j5) {
                            None => None,
                            Some((desktop_entry, j6)) => match sp_expect(s, j6, tk_image_path()) {
                                None => None,
                                Some(j7) => match sp_parse_opt_string(s, j7) {
                                    None => None,
                                    Some((image_path, j8)) => match sp_expect(
                                        s,
                                        j8,
                                        tk_resident(),
                                    ) {
                                        None => None,
                                        Some(j9) => match sp_parse_opt_bool(s, j9) {
                                            None => None,
                                            Some((resident, j10)) => match sp_expect(
                                                s,
                                                j10,
                                                tk_transient(),
                                            ) {
                                                None => None,
                                                Some(j11) => match sp_parse_opt_bool(s, j11) {
                                                    None => None,
                                                    Some((transient, j12)) => match sp_expect(
                                                        s,
                                                        j12,
                                                        tk_urgency(),
                                                    ) {
                                                        None => None,
                                                        Some(j13) => match sp_parse_opt_u8(
                                                            s,
                                                            j13,
                                                        ) {
                                                            None => None,
                                                            Some((urgency, j14)) => match sp_expect(
                                                                s,
                                                                j14,
                                                                seq!['}'],
                                                            ) {
                                                                None => None,
                                                                Some(j15) => Some(
                                                                    (
                                                                        HintsView {
                                                                            action_icons,
                                                                            category,
                                                                            desktop_entry,
                                                                            image_path,
                                                                            resident,
                                                                            transient,
                                                                            urgency,
                                                                        },
                                                                        j15,
                                                                    ),
                                                                ),
                                                            },
                                                        },
                                                    },
                                                },
                                            },
                                        },
                                    },
                                },
                            },
                        },
                    },
                },
            },
        },
    }
}

/// Parse the comma-separated items of a string list.
pub open spec fn sp_parse_strings_items(s: Seq<char>, i: int) -> Option<(Seq<Seq<char>>, int)>
    decreases s.len() - i,
    when 0 <= i <= s.len()
{
    match sp_parse_string(s, i) {
        None => None,
        Some(p) => if !(i < p.1 <= s.len()) {
            None
        } else {
            match sp_expect(s, p.1, seq![',']) {
                Some(j2) => match sp_parse_strings_items(s, j2) {
                    Some(q) => Some((seq![p.0] + q.0, q.1)),
                    None => None,
                },
                None => Some((seq![p.0], p.1)),
            }
        },
    }
}

/// Parse an action list.
pub open spec fn sp_parse_actions(s: Seq<char>, i: int) -> Option<(Seq<Seq<char>>, int)> {
    match sp_expect(s, i, seq!['[']) {
        None => None,
        Some(j) => match sp_expect(s, j, seq![']']) {
            Some(j2) => Some((Seq::empty(), j2)),
            None => match sp_parse_strings_items(s, j) {
                Some(p) => match sp_expect(s, p.1, seq![']']) {
                    Some(j3) => Some((p.0, j3)),
                    None => None,
                },
                None => None,
            },
        },
    }
}

/// Parse one notification record: the six fixed fields between braces.
pub open spec fn sp_parse_note(s: Seq<char>, i: int) -> Option<(NoteView, int)> {
    match sp_expect(s, i, tk_app_name()) {
        None => None,
        Some(j1) => match sp_parse_string(s, j1) {
            None => None,
            Some((app_name, j2)) => match sp_expect(s, j2, tk_app_icon()) {
                None => None,
                Some(j3) => match sp_parse_string(s, j3) {
                    None => None,
                    Some((app_icon, j4)) => match sp_expect(s, j4, tk_summary()) {
                        None => None,
                        Some(j5) => match sp_parse_string(s, j5) {
                            None => None,
                            Some((summary, j6)) => match sp_expect(s, j6, tk_body()) {
                                None => None,
                                Some(j7) => match sp_parse_string(s, j7) {
                                    None => None,
                                    Some((body, j8)) => match sp_expect(s, j8, tk_actions()) {
                                        None => None,
                                        Some(j9) => match sp_parse_actions(s, j9) {
                                            None => None,
                                            Some((actions, j10)) => match sp_expect(
                                                s,
                                                j10,
                                                tk_hints(),
                                            ) {
                                                None => None,
                                                Some(j11) => match sp_parse_hints(s, j11) {
                                                    None => None,
                                                    Some((hints, j12)) => match sp_expect(
                                                        s,
                                                        j12,
                                                        seq!['}'],
                                                    ) {
                                                        None => None,
                                                        Some(j13) => Some(
                                                            (
                                                                NoteView {
                                                                    app_name,
                                                                    app_icon,
                                                                    summary,
                                                                    body,
                                                                    actions,
                                                                    hints,
                                                                },
                                                                j13,
                                                            ),
                                                        ),
                                                    },
                                                },
                                            },
                                        },
                                    },
                                },
                            },
                        },
                    },
                },
            },
        },
    }
}

/// Parse one directory entry: a quoted id key, a colon, a record.
pub open spec fn sp_parse_entry(s: Seq<char>, i: int) -> Option<((u32, NoteView), int)> {
    match sp_expect(s, i, seq!['"']) {
        None => None,
        Some(j1) => match sp_parse_u32(s, j1) {
            None => None,
            Some((id, j2)) => match sp_expect(s, j2, seq!['"', ':']) {
                None => None,
                Some(j3) => match sp_parse_note(s, j3) {
                    None => None,
                    Some((n, j4)) => Some(((id, n), j4)),
                },
            },
        },
    }
}

/// Parse the comma-separated items of the entry mapping.
pub open spec fn sp_parse_entries_items(s: Seq<char>, i: int) -> Option<
    (Seq<(u32, NoteView)>, int),
>
    decreases s.len() - i,
    when 0 <= i <= s.len()
{
    match sp_parse_entry(s, i) {
        None => None,
        Some(p) => if !(i < p.1 <= s.len()) {
            None
        } else {
            match sp_expect(s, p.1, seq![',']) {
                Some(j2) => match sp_parse_entries_items(s, j2) {
                    Some(q) => Some((seq![p.0] + q.0, q.1)),
                    None => None,
                },
                None => Some((seq![p.0], p.1)),
            }
        },
    }
}

/// Parse the entry mapping.
pub open spec fn sp_parse_entries(s: Seq<char>, i: int) -> Option<(Seq<(u32, NoteView)>, int)> {
    match sp_expect(s, i, seq!['{']) {
        None => None,
        Some(j) => match sp_expect(s, j, seq!['}']) {
            Some(j2) => Some((Seq::empty(), j2)),
            None => match sp_parse_entries_items(s, j) {
                Some(p) => match sp_expect(s, p.1, seq!['}']) {
                    Some(j3) => Some((p.0, j3)),
                    None => None,
                },
                None => None,
            },
        },
    }
}

/// Parse the comma-separated items of the id list.
pub open spec fn sp_parse_ids_items(s: Seq<char>, i: int) -> Option<(Seq<u32>, int)>
    decreases s.len() - i,
    when 0 <= i <= s.len()
{
    match sp_parse_u32(s, i) {
        None => None,
        Some(p) => if !(i < p.1 <= s.len()) {
            None
        } else {
            match sp_expect(s, p.1, seq![',']) {
                Some(j2) => match sp_parse_ids_items(s, j2) {
                    Some(q) => Some((seq![p.0] + q.0, q.1)),
                    None => None,
                },
                None => Some((seq![p.0], p.1)),
            }
        },
    }
}

/// Parse the priority sequence.
pub open spec fn sp_parse_ids(s: Seq<char>, i: int) -> Option<(Seq<u32>, int)> {
    match sp_expect(s, i, seq!['[']) {
        None => None,
        Some(j) => match sp_expect(s, j, seq![']']) {
            Some(j2) => Some((Seq::empty(), j2)),
            None => match sp_parse_ids_items(s, j) {
                Some(p) => match sp_expect(s, p.1, seq![']']) {
                    Some(j3) => Some((p.0, j3)),
                    None => None,
                },
                None => None,
            },
        },
    }
}

/// Parse a whole snapshot line. The line must be consumed exactly.
pub open spec fn sp_parse_snapshot(s: Seq<char>) -> Option<NotesView> {
    match sp_expect(s, 0, tk_notifications()) {
        None => None,
        Some(j1) => match sp_parse_entries(s, j1) {
            None => None,
            Some((notifications, j2)) => match sp_expect(s, j2, tk_priority()) {
                None => None,
                Some(j3) => match sp_parse_ids(s, j3) {
                    None => None,
                    Some((priority, j4)) => match sp_expect(s, j4, tk_last_id()) {
                        None => None,
                        Some(j5) => match sp_parse_u32(s, j5) {
                            None => None,
                            Some((last_id, j6)) => match sp_expect(s, j6, seq!['}']) {
                                None => None,
                                Some(j7) => if j7 == s.len() {
                                    Some(NotesView { notifications, priority, last_id })
                                } else {
                                    None
                                },
                            },
                        },
                    },
                },
            },
        },
    }
}

/// Reading a serialized boolean yields it back.
proof fn lemma_parse_bool_of_ser(b: bool, s: Seq<char>, i: int)
    requires
        at(s, i, sp_ser_bool(b)),
    ensures
        sp_parse_bool(s, i) == Some((b, i + sp_ser_bool(b).len() as int)),
{
    if !b {
        lemma_at_first(s, i, tk_false());
        if at(s, i, tk_true()) {
            lemma_at_first(s, i, tk_true());
        }
    }
}

/// Reading a serialized optional boolean yields it back.
proof fn lemma_parse_opt_bool_of_ser(o: Option<bool>, s: Seq<char>, i: int)
    requires
        at(s, i, sp_ser_opt_bool(o)),
    ensures
        sp_parse_opt_bool(s, i) == Some((o, i + sp_ser_opt_bool(o).len() as int)),
{
    match o {
        None => {},
        Some(b) => {
            lemma_at_first(s, i, sp_ser_bool(b));
            if at(s, i, tk_null()) {
                lemma_at_first(s, i, tk_null());
            }
            lemma_parse_bool_of_ser(b, s, i);
        },
    }
}

/// Reading a serialized optional string yields it back.
proof fn lemma_parse_opt_string_of_ser(o: Option<Seq<char>>, s: Seq<char>, i: int)
    requires
        at(s, i, sp_ser_opt_string(o)),
    ensures
        sp_parse_opt_string(s, i) == Some((o, i + sp_ser_opt_string(o).len() as int)),
{
    match o {
        None => {},
        Some(t) => {
            assert(sp_ser_string(t)[0] == '"');
            lemma_at_first(s, i, sp_ser_string(t));
            if at(s, i, tk_null()) {
                lemma_at_first(s, i, tk_null());
            }
            lemma_parse_string_of_ser(t, s, i);
        },
    }
}

/// Reading a serialized optional urgency level yields it back, provided
/// no digit follows it directly.
proof fn lemma_parse_opt_u8_of_ser(o: Option<u8>, s: Seq<char>, i: int)
    requires
        at(s, i, sp_ser_opt_u8(o)),
        i + sp_ser_opt_u8(o).len() < s.len(),
        !is_digit(s[i + sp_ser_opt_u8(o).len() as int]),
    ensures
        sp_parse_opt_u8(s, i) == Some((o, i + sp_ser_opt_u8(o).len() as int)),
{
    match o {
        None => {},
        Some(u) => {
            lemma_dec_all_digits(u as nat);
            lemma_at_first(s, i, dec_digits(u as nat));
            assert(is_digit(s[i]));
            if at(s, i, tk_null()) {
                lemma_at_first(s, i, tk_null());
            }
            lemma_parse_dec(s, i, u as u32);
        },
    }
}

/// Reading a serialized hint record yields it back.
#[verifier::rlimit(80)]
proof fn lemma_parse_hints_of_ser(h: HintsView, s: Seq<char>, i: int)
    requires
        at(s, i, sp_ser_hints(h)),
    ensures
        sp_parse_hints(s, i) == Some((h, i + sp_ser_hints(h).len() as int)),
{
    let f1 = sp_ser_opt_bool(h.action_icons);
    let f2 = sp_ser_opt_string(h.category);
    let f3 = sp_ser_opt_string(h.desktop_entry);
    let f4 = sp_ser_opt_string(h.image_path);
    let f5 = sp_ser_opt_bool(h.resident);
    let f6 = sp_ser_opt_bool(h.transient);
    let f7 = sp_ser_opt_u8(h.urgency);
    let t7 = tk_urgency() + (f7 + seq!['}']);
    let t6 = tk_transient() + (f6 + t7);
    let t5 = tk_resident() + (f5 + t6);
    let t4 = tk_image_path() + (f4 + t5);
    let t3 = tk_desktop_entry() + (f3 + t4);
    let t2 = tk_category() + (f2 + t3);
    lemma_at_concat(s, i, tk_action_icons(), f1 + t2);
    let i1 = i + tk_action_icons().len();
    lemma_at_concat(s, i1, f1, t2);
    lemma_parse_opt_bool_of_ser(h.action_icons, s, i1);
    let i2 = i1 + f1.len();
    lemma_at_concat(s, i2, tk_category(), f2 + t3);
    let i3 = i2 + tk_category().len();
    lemma_at_concat(s, i3, f2, t3);
    lemma_parse_opt_string_of_ser(h.category, s, i3);
    let i4 = i3 + f2.len();
    lemma_at_concat(s, i4, tk_desktop_entry(), f3 + t4);
    let i5 = i4 + tk_desktop_entry().len();
    lemma_at_concat(s, i5, f3, t4);
    lemma_parse_opt_string_of_ser(h.desktop_entry, s, i5);
    let i6 = i5 + f3.len();
    lemma_at_concat(s, i6, tk_image_path(), f4 + t5);
    let i7 = i6 + tk_image_path().len();
    lemma_at_concat(s, i7, f4, t5);
    lemma_parse_opt_string_of_ser(h.image_path, s, i7);
    let i8 = i7 + f4.len();
    lemma_at_concat(s, i8, tk_resident(), f5 + t6);
    let i9 = i8 + tk_resident().len();
    lemma_at_concat(s, i9, f5, t6);
    lemma_parse_opt_bool_of_ser(h.resident, s, i9);
    let i10 = i9 + f5.len();
    lemma_at_concat(s, i10, tk_transient(), f6 + t7);
    let i11 = i10 + tk_transient().len();
    lemma_at_concat(s, i11, f6, t7);
    lemma_parse_opt_bool_of_ser(h.transient, s, i11);
    let i12 = i11 + f6.len();
    lemma_at_concat(s, i12, tk_urgency(), f7 + seq!['}']);
    let i13 = i12 + tk_urgency().len();
    lemma_at_concat(s, i13, f7, seq!['}']);
    let i14 = i13 + f7.len();
    lemma_at_char(s, i14, '}');
    lemma_parse_opt_u8_of_ser(h.urgency, s, i13);
}

/// Reading serialized string-list items yields them back, provided no
/// comma follows them directly.
proof fn lemma_parse_strings_items_of_ser(xs: Seq<Seq<char>>, s: Seq<char>, i: int)
    requires
        xs.len() >= 1,
        at(s, i, sp_ser_strings_items(xs)),
        i + sp_ser_strings_items(xs).len() < s.len(),
        s[i + sp_ser_strings_items(xs).len() as int] != ',',
    ensures
        sp_parse_strings_items(s, i) == Some((xs, i + sp_ser_strings_items(xs).len() as int)),
    decreases xs.len(),
{
    let x0 = xs[0];
    if xs.len() == 1 {
        lemma_parse_string_of_ser(x0, s, i);
        let j = i + sp_ser_string(x0).len();
        if at(s, j, seq![',']) {
            lemma_at_char(s, j, ',');
        }
        assert(seq![x0] =~= xs);
    } else {
        let rest = xs.drop_first();
        let tail = seq![','] + sp_ser_strings_items(rest);
        lemma_at_concat(s, i, sp_ser_string(x0), tail);
        let j = i + sp_ser_string(x0).len();
        lemma_at_concat(s, j, seq![','], sp_ser_strings_items(rest));
        lemma_parse_string_of_ser(x0, s, i);
        lemma_parse_strings_items_of_ser(rest, s, j + 1);
        assert(seq![x0] + rest =~= xs);
    }
}

/// Reading a serialized action list yields it back.
proof fn lemma_parse_actions_of_ser(xs: Seq<Seq<char>>, s: Seq<char>, i: int)
    requires
        at(s, i, sp_ser_actions(xs)),
    ensures
        sp_parse_actions(s, i) == Some((xs, i + sp_ser_actions(xs).len() as int)),
{
    if xs.len() == 0 {
        lemma_at_concat(s, i, seq!['['], seq![']']);
        assert(Seq::<Seq<char>>::empty() =~= xs);
    } else {
        let items = sp_ser_strings_items(xs);
        lemma_at_concat(s, i, seq!['['], items + seq![']']);
        let j = i + 1;
        lemma_at_concat(s, j, items, seq![']']);
        let e = j + items.len();
        lemma_at_char(s, e, ']');
        assert(items[0] == '"') by {
            assert(sp_ser_string(xs[0])[0] == '"');
        }
        lemma_at_first(s, j, items);
        if at(s, j, seq![']']) {
            lemma_at_char(s, j, ']');
        }
        lemma_parse_strings_items_of_ser(xs, s, j);
    }
}

/// Reading a serialized notification record yields it back.
#[verifier::rlimit(80)]
proof fn lemma_parse_note_of_ser(n: NoteView, s: Seq<char>, i: int)
    requires
        at(s, i, sp_ser_note(n)),
    ensures
        sp_parse_note(s, i) == Some((n, i + sp_ser_note(n).len() as int)),
{
    let f1 = sp_ser_string(n.app_name);
    let f2 = sp_ser_string(n.app_icon);
    let f3 = sp_ser_string(n.summary);
    let f4 = sp_ser_string(n.body);
    let f5 = sp_ser_actions(n.actions);
    let f6 = sp_ser_hints(n.hints);
    let t6 = tk_hints() + (f6 + seq!['}']);
    let t5 = tk_actions() + (f5 + t6);
    let t4 = tk_body() + (f4 + t5);
    let t3 = tk_summary() + (f3 + t4);
    let t2 = tk_app_icon() + (f2 + t3);
    lemma_at_concat(s, i, tk_app_name(), f1 + t2);
    let i1 = i + tk_app_name().len();
    lemma_at_concat(s, i1, f1, t2);
    lemma_parse_string_of_ser(n.app_name, s, i1);
    let i2 = i1 + f1.len();
    lemma_at_concat(s, i2, tk_app_icon(), f2 + t3);
    let i3 = i2 + tk_app_icon().len();
    lemma_at_concat(s, i3, f2, t3);
    lemma_parse_string_of_ser(n.app_icon, s, i3);
    let i4 = i3 + f2.len();
    lemma_at_concat(s, i4, tk_summary(), f3 + t4);
    let i5 = i4 + tk_summary().len();
    lemma_at_concat(s, i5, f3, t4);
    lemma_parse_string_of_ser(n.summary, s, i5);
    let i6 = i5 + f3.len();
    lemma_at_concat(s, i6, tk_body(), f4 + t5);
    let i7 = i6 + tk_body().len();
    lemma_at_concat(s, i7, f4, t5);
    lemma_parse_string_of_ser(n.body, s, i7);
    let i8 = i7 + f4.len();
    lemma_at_concat(s, i8, tk_actions(), f5 + t6);
    let i9 = i8 + tk_actions().len();
    lemma_at_concat(s, i9, f5, t6);
    lemma_parse_actions_of_ser(n.actions, s, i9);
    let i10 = i9 + f5.len();
    lemma_at_concat(s, i10, tk_hints(), f6 + seq!['}']);
    let i11 = i10 + tk_hints().len();
    lemma_at_concat(s, i11, f6, seq!['}']);
    lemma_parse_hints_of_ser(n.hints, s, i11);
    let i12 = i11 + f6.len();
    lemma_at_char(s, i12, '}');
}

/// Reading a serialized entry yields it back.
#[verifier::rlimit(50)]
proof fn lemma_parse_entry_of_ser(e: (u32, NoteView), s: Seq<char>, i: int)
    requires
        at(s, i, sp_ser_entry(e)),
    ensures
        sp_parse_entry(s, i) == Some((e, i + sp_ser_entry(e).len() as int)),
{
    let d = dec_digits(e.0 as nat);
    let r1 = d + (seq!['"', ':'] + sp_ser_note(e.1));
    lemma_at_concat(s, i, seq!['"'], r1);
    let i1 = i + 1;
    let r2 = seq!['"', ':'] + sp_ser_note(e.1);
    lemma_at_concat(s, i1, d, r2);
    let i2 = i1 + d.len();
    lemma_at_concat(s, i2, seq!['"', ':'], sp_ser_note(e.1));
    lemma_at_first(s, i2, seq!['"', ':']);
    lemma_parse_dec(s, i1, e.0);
    let i3 = i2 + 2;
    lemma_parse_note_of_ser(e.1, s, i3);
}

/// Reading serialized entry items yields them back, provided no comma
/// follows them directly.
#[verifier::rlimit(50)]
proof fn lemma_parse_entries_items_of_ser(es: Seq<(u32, NoteView)>, s: Seq<char>, i: int)
    requires
        es.len() >= 1,
        at(s, i, sp_ser_entries_items(es)),
        i + sp_ser_entries_items(es).len() < s.len(),
        s[i + sp_ser_entries_items(es).len() as int] != ',',
    ensures
        sp_parse_entries_items(s, i) == Some((es, i + sp_ser_entries_items(es).len() as int)),
    decreases es.len(),
{
    let e0 = es[0];
    if es.len() == 1 {
        lemma_parse_entry_of_ser(e0, s, i);
        let j = i + sp_ser_entry(e0).len();
        if at(s, j, seq![',']) {
            lemma_at_char(s, j, ',');
        }
        assert(seq![e0] =~= es);
    } else {
        let rest = es.drop_first();
        let tail = seq![','] + sp_ser_entries_items(rest);
        lemma_at_concat(s, i, sp_ser_entry(e0), tail);
        let j = i + sp_ser_entry(e0).len();
        lemma_at_concat(s, j, seq![','], sp_ser_entries_items(rest));
        lemma_parse_entry_of_ser(e0, s, i);
        lemma_parse_entries_items_of_ser(rest, s, j + 1);
        assert(seq![e0] + rest =~= es);
    }
}

/// Reading a serialized entry mapping yields it back.
proof fn lemma_parse_entries_of_ser(es: Seq<(u32, NoteView)>, s: Seq<char>, i: int)
    requires
        at(s, i, sp_ser_entries(es)),
    ensures
        sp_parse_entries(s, i) == Some((es, i + sp_ser_entries(es).len() as int)),
{
    if es.len() == 0 {
        lemma_at_concat(s, i, seq!['{'], seq!['}']);
        assert(Seq::<(u32, NoteView)>::empty() =~= es);
    } else {
        let items = sp_ser_entries_items(es);
        lemma_at_concat(s, i, seq!['{'], items + seq!['}']);
        let j = i + 1;
        lemma_at_concat(s, j, items, seq!['}']);
        let e = j + items.len();
        lemma_at_char(s, e, '}');
        assert(items[0] == '"') by {
            assert(sp_ser_entry(es[0])[0] == '"');
        }
        lemma_at_first(s, j, items);
        if at(s, j, seq!['}']) {
            lemma_at_char(s, j, '}');
        }
        lemma_parse_entries_items_of_ser(es, s, j);
    }
}

/// Reading serialized id items yields them back, provided neither a comma
/// nor a digit follows them directly.
proof fn lemma_parse_ids_items_of_ser(xs: Seq<u32>, s: Seq<char>, i: int)
    requires
        xs.len() >= 1,
        at(s, i, sp_ser_ids_items(xs)),
        i + sp_ser_ids_items(xs).len() < s.len(),
        s[i + sp_ser_ids_items(xs).len() as int] != ',',
        !is_digit(s[i + sp_ser_ids_items(xs).len() as int]),
    ensures
        sp_parse_ids_items(s, i) == Some((xs, i + sp_ser_ids_items(xs).len() as int)),
    decreases xs.len(),
{
    let x0 = xs[0];
    if xs.len() == 1 {
        lemma_parse_dec(s, i, x0);
        let j = i + dec_digits(x0 as nat).len();
        if at(s, j, seq![',']) {
            lemma_at_char(s, j, ',');
        }
        assert(seq![x0] =~= xs);
    } else {
        let rest = xs.drop_first();
        let tail = seq![','] + sp_ser_ids_items(rest);
        lemma_at_concat(s, i, dec_digits(x0 as nat), tail);
        let j = i + dec_digits(x0 as nat).len();
        lemma_at_concat(s, j, seq![','], sp_ser_ids_items(rest));
        lemma_at_char(s, j, ',');
        lemma_parse_dec(s, i, x0);
        lemma_parse_ids_items_of_ser(rest, s, j + 1);
        assert(seq![x0] + rest =~= xs);
    }
}

/// Reading a serialized priority sequence yields it back.
proof fn lemma_parse_ids_of_ser(xs: Seq<u32>, s: Seq<char>, i: int)
    requires
        at(s, i, sp_ser_ids(xs)),
    ensures
        sp_parse_ids(s, i) == Some((xs, i + sp_ser_ids(xs).len() as int)),
{
    if xs.len() == 0 {
        lemma_at_concat(s, i, seq!['['], seq![']']);
        assert(Seq::<u32>::empty() =~= xs);
    } else {
        let items = sp_ser_ids_items(xs);
        lemma_at_concat(s, i, seq!['['], items + seq![']']);
        let j = i + 1;
        lemma_at_concat(s, j, items, seq![']']);
        let e = j + items.len();
        lemma_at_char(s, e, ']');
        assert(is_digit(items[0])) by {
            lemma_dec_all_digits(xs[0] as nat);
            assert(items[0] == dec_digits(xs[0] as nat)[0]);
        }
        lemma_at_first(s, j, items);
        if at(s, j, seq![']']) {
            lemma_at_char(s, j, ']');
        }
        lemma_parse_ids_items_of_ser(xs, s, j);
    }
}

/// Reading undoes writing: a snapshot line parses back to exactly the
/// directory state it was written from — the same entries with the same
/// field values, the same priority order, and the same allocator value.
#[verifier::rlimit(80)]
pub proof fn lemma_snapshot_roundtrip(v: NotesView)
    ensures
        sp_parse_snapshot(sp_ser_snapshot(v)) == Some(v),
{
    let s = sp_ser_snapshot(v);
    assert(at(s, 0, s)) by {
        assert(s.subrange(0, s.len() as int) =~= s);
    }
    let f1 = sp_ser_entries(v.notifications);
    let f2 = sp_ser_ids(v.priority);
    let f3 = dec_digits(v.last_id as nat);
    let r1 = f1 + (tk_priority() + (f2 + (tk_last_id() + (f3 + seq!['}']))));
    lemma_at_concat(s, 0, tk_notifications(), r1);
    let i1: int = tk_notifications().len() as int;
    let r2 = tk_priority() + (f2 + (tk_last_id() + (f3 + seq!['}'])));
    lemma_at_concat(s, i1, f1, r2);
    lemma_parse_entries_of_ser(v.notifications, s, i1);
    let i2 = i1 + f1.len();
    let r3 = f2 + (tk_last_id() + (f3 + seq!['}']));
    lemma_at_concat(s, i2, tk_priority(), r3);
    let i3 = i2 + tk_priority().len();
    let r4 = tk_last_id() + (f3 + seq!['}']);
    lemma_at_concat(s, i3, f2, r4);
    lemma_parse_ids_of_ser(v.priority, s, i3);
    let i4 = i3 + f2.len();
    let r5 = f3 + seq!['}'];
    lemma_at_concat(s, i4, tk_last_id(), r5);
    let i5 = i4 + tk_last_id().len();
    lemma_at_concat(s, i5, f3, seq!['}']);
    let i6 = i5 + f3.len();
    lemma_at_char(s, i6, '}');
    lemma_parse_dec(s, i5, v.last_id);
}

/// `{"notifications":` as a character vector.
fn tok_notifications_v() -> (t: Vec<char>)
    ensures
        t@ == tk_notifications(),
{
    let t = vec!['{', '"', 'n', 'o', 't', 'i', 'f', 'i', 'c', 'a', 't', 'i', 'o', 'n', 's', '"', ':'];
    proof {
        assert(t@ =~= tk_notifications());
    }
    t
}

/// `,"priority":` as a character vector.
fn tok_priority_v() -> (t: Vec<char>)
    ensures
        t@ == tk_priority(),
{
    let t = vec![',', '"', 'p', 'r', 'i', 'o', 'r', 'i', 't', 'y', '"', ':'];
    proof {
        assert(t@ =~= tk_priority());
    }
    t
}

/// `,"last_id":` as a character vector.
fn tok_last_id_v() -> (t: Vec<char>)
    ensures
        t@ == tk_last_id(),
{
    let t = vec![',', '"', 'l', 'a', 's', 't', '_', 'i', 'd', '"', ':'];
    proof {
        assert(t@ =~= tk_last_id());
    }
    t
}

/// `{"app_name":` as a character vector.
fn tok_app_name_v() -> (t: Vec<char>)
    ensures
        t@ == tk_app_name(),
{
    let t = vec!['{', '"', 'a', 'p', 'p', '_', 'n', 'a', 'm', 'e', '"', ':'];
    proof {
        assert(t@ =~= tk_app_name());
    }
    t
}

/// `,"app_icon":` as a character vector.
fn tok_app_icon_v() -> (t: Vec<char>)
    ensures
        t@ == tk_app_icon(),
{
    let t = vec![',', '"', 'a', 'p', 'p', '_', 'i', 'c', 'o', 'n', '"', ':'];
    proof {
        assert(t@ =~= tk_app_icon());
    }
    t
}

/// `,"summary":` as a character vector.
fn tok_summary_v() -> (t: Vec<char>)
    ensures
        t@ == tk_summary(),
{
    let t = vec![',', '"', 's', 'u', 'm', 'm', 'a', 'r', 'y', '"', ':'];
    proof {
        assert(t@ =~= tk_summary());
    }
    t
}

/// `,"body":` as a character vector.
fn tok_body_v() -> (t: Vec<char>)
    ensures
        t@ == tk_body(),
{
    let t = vec![',', '"', 'b', 'o', 'd', 'y', '"', ':'];
    proof {
        assert(t@ =~= tk_body());
    }
    t
}

/// `,"actions":` as a character vector.
fn tok_actions_v() -> (t: Vec<char>)
    ensures
        t@ == tk_actions(),
{
    let t = vec![',', '"', 'a', 'c', 't', 'i', 'o', 'n', 's', '"', ':'];
    proof {
        assert(t@ =~= tk_actions());
    }
    t
}

/// `,"hints":` as a character vector.
fn tok_hints_v() -> (t: Vec<char>)
    ensures
        t@ == tk_hints(),
{
    let t = vec![',', '"', 'h', 'i', 'n', 't', 's', '"', ':'];
    proof {
        assert(t@ =~= tk_hints());
    }
    t
}

/// `{"action_icons":` as a character vector.
fn tok_action_icons_v() -> (t: Vec<char>)
    ensures
        t@ == tk_action_icons(),
{
    let t = vec!['{', '"', 'a', 'c', 't', 'i', 'o', 'n', '_', 'i', 'c', 'o', 'n', 's', '"', ':'];
    proof {
        assert(t@ =~= tk_action_icons());
    }
    t
}

/// `,"category":` as a character vector.
fn tok_category_v() -> (t: Vec<char>)
    ensures
        t@ == tk_category(),
{
    let t = vec![',', '"', 'c', 'a', 't', 'e', 'g', 'o', 'r', 'y', '"', ':'];
    proof {
        assert(t@ =~= tk_category());
    }
    t
}

/// `,"desktop_entry":` as a character vector.
fn tok_desktop_entry_v() -> (t: Vec<char>)
    ensures
        t@ == tk_desktop_entry(),
{
    let t = vec![',', '"', 'd', 'e', 's', 'k', 't', 'o', 'p', '_', 'e', 'n', 't', 'r', 'y', '"', ':'];
    proof {
        assert(t@ =~= tk_desktop_entry());
    }
    t
}

/// `,"image_path":` as a character vector.
fn tok_image_path_v() -> (t: Vec<char>)
    ensures
        t@ == tk_image_path(),
{
    let t = vec![',', '"', 'i', 'm', 'a', 'g', 'e', '_', 'p', 'a', 't', 'h', '"', ':'];
    proof {
        assert(t@ =~= tk_image_path());
    }
    t
}

/// `,"resident":` as a character vector.
fn tok_resident_v() -> (t: Vec<char>)
    ensures
        t@ == tk_resident(),
{
    let t = vec![',', '"', 'r', 'e', 's', 'i', 'd', 'e', 'n', 't', '"', ':'];
    proof {
        assert(t@ =~= tk_resident());
    }
    t
}

/// `,"transient":` as a character vector.
fn tok_transient_v() -> (t: Vec<char>)
    ensures
        t@ == tk_transient(),
{
    let t = vec![',', '"', 't', 'r', 'a', 'n', 's', 'i', 'e', 'n', 't', '"', ':'];
    proof {
        assert(t@ =~= tk_transient());
    }
    t
}

/// `,"urgency":` as a character vector.
fn tok_urgency_v() -> (t: Vec<char>)
    ensures
        t@ == tk_urgency(),
{
    let t = vec![',', '"', 'u', 'r', 'g', 'e', 'n', 'c', 'y', '"', ':'];
    proof {
        assert(t@ =~= tk_urgency());
    }
    t
}

/// `null` as a character vector.
fn tok_null_v() -> (t: Vec<char>)
    ensures
        t@ == tk_null(),
{
    let t = vec!['n', 'u', 'l', 'l'];
    proof {
        assert(t@ =~= tk_null());
    }
    t
}

/// `true` as a character vector.
fn tok_true_v() -> (t: Vec<char>)
    ensures
        t@ == tk_true(),
{
    let t = vec!['t', 'r', 'u', 'e'];
    proof {
        assert(t@ =~= tk_true());
    }
    t
}

/// `false` as a character vector.
fn tok_false_v() -> (t: Vec<char>)
    ensures
        t@ == tk_false(),
{
    let t = vec!['f', 'a', 'l', 's', 'e'];
    proof {
        assert(t@ =~= tk_false());
    }
    t
}

/// Append a whole character vector to `out`.
fn push_vec(out: &mut Vec<char>, t: Vec<char>)
    ensures
        final(out)@ == old(out)@ + t@,
{
    let mut tt = t;
    out.append(&mut tt);
}

/// Write an optional boolean hint.
fn ser_opt_bool(out: &mut Vec<char>, o: &Option<bool>)
    ensures
        final(out)@ == old(out)@ + sp_ser_opt_bool(*o),
{
    match o {
        None => push_vec(out, tok_null_v()),
        Some(b) => if *b {
            push_vec(out, tok_true_v())
        } else {
            push_vec(out, tok_false_v())
        },
    }
}

/// Write an optional string hint.
fn ser_opt_string(out: &mut Vec<char>, o: &Option<String>)
    ensures
        final(out)@ == old(out)@ + sp_ser_opt_string(opt_string_view(*o)),
{
    match o {
        None => push_vec(out, tok_null_v()),
        Some(s) => {
            let cs = str_to_chars(s.as_str());
            push_ser_string(out, &cs);
        },
    }
}

/// Write an optional urgency level.
fn ser_opt_u8(out: &mut Vec<char>, o: &Option<u8>)
    ensures
        final(out)@ == old(out)@ + sp_ser_opt_u8(*o),
{
    match o {
        None => push_vec(out, tok_null_v()),
        Some(u) => push_dec(out, *u as u32),
    }
}

/// Write a hint record.
#[verifier::rlimit(100)]
fn ser_hints(out: &mut Vec<char>, h: &Hints)
    ensures
        final(out)@ == old(out)@ + sp_ser_hints(h@),
{
    push_vec(out, tok_action_icons_v());
    ser_opt_bool(out, &h.action_icons);
    push_vec(out, tok_category_v());
    ser_opt_string(out, &h.category);
    push_vec(out, tok_desktop_entry_v());
    ser_opt_string(out, &h.desktop_entry);
    push_vec(out, tok_image_path_v());
    ser_opt_string(out, &h.image_path);
    push_vec(out, tok_resident_v());
    ser_opt_bool(out, &h.resident);
    push_vec(out, tok_transient_v());
    ser_opt_bool(out, &h.transient);
    push_vec(out, tok_urgency_v());
    ser_opt_u8(out, &h.urgency);
    out.push('}');
    proof {
        let o = old(out)@;
        let f1 = sp_ser_opt_bool(h@.action_icons);
        let f2 = sp_ser_opt_string(h@.category);
        let f3 = sp_ser_opt_string(h@.desktop_entry);
        let f4 = sp_ser_opt_string(h@.image_path);
        let f5 = sp_ser_opt_bool(h@.resident);
        let f6 = sp_ser_opt_bool(h@.transient);
        let f7 = sp_ser_opt_u8(h@.urgency);
        let t7 = tk_urgency() + (f7 + seq!['}']);
        let t6 = tk_transient() + (f6 + t7);
        let t5 = tk_resident() + (f5 + t6);
        let t4 = tk_image_path() + (f4 + t5);
        let t3 = tk_desktop_entry() + (f3 + t4);
        let t2 = tk_category() + (f2 + t3);
        let p1 = o + tk_action_icons();
        let p2 = p1 + f1;
        let p3 = p2 + tk_category();
        let p4 = p3 + f2;
        let p5 = p4 + tk_desktop_entry();
        let p6 = p5 + f3;
        let p7 = p6 + tk_image_path();
        let p8 = p7 + f4;
        let p9 = p8 + tk_resident();
        let p10 = p9 + f5;
        let p11 = p10 + tk_transient();
        let p12 = p11 + f6;
        let p13 = p12 + tk_urgency();
        let p14 = p13 + f7;
        assert(o + sp_ser_hints(h@) =~= p1 + (f1 + t2));
        assert(p1 + (f1 + t2) =~= p2 + t2);
        assert(p2 + t2 =~= p3 + (f2 + t3));
        assert(p3 + (f2 + t3) =~= p4 + t3);
        assert(p4 + t3 =~= p5 + (f3 + t4));
        assert(p5 + (f3 + t4) =~= p6 + t4);
        assert(p6 + t4 =~= p7 + (f4 + t5));
        assert(p7 + (f4 + t5) =~= p8 + t5);
        assert(p8 + t5 =~= p9 + (f5 + t6));
        assert(p9 + (f5 + t6) =~= p10 + t6);
        assert(p10 + t6 =~= p11 + (f6 + t7));
        assert(p11 + (f6 + t7) =~= p12 + t7);
        assert(p12 + t7 =~= p13 + (f7 + seq!['}']));
        assert(p13 + (f7 + seq!['}']) =~= p14 + seq!['}']);
        assert(p14.push('}') =~= p14 + seq!['}']);
    }
}

/// Write the items of a nonempty action list, from index `k` on.
fn ser_strings_items(out: &mut Vec<char>, xs: &Vec<String>, k: usize)
    requires
        k < xs@.len(),
    ensures
        final(out)@ == old(out)@ + sp_ser_strings_items(xs.deep_view().skip(k as int)),
    decreases xs@.len() - k,
{
    let cs = str_to_chars(xs[k].as_str());
    push_ser_string(out, &cs);
    if k < xs.len() - 1 {
        out.push(',');
        ser_strings_items(out, xs, k + 1);
        proof {
            assert(xs.deep_view().skip(k as int).drop_first() =~= xs.deep_view().skip(k + 1));
            assert(xs.deep_view().skip(k as int)[0] == xs.deep_view()[k as int]);
            assert(final(out)@ =~= old(out)@ + sp_ser_strings_items(xs.deep_view().skip(k as int)));
        }
    } else {
        proof {
            assert(xs.deep_view().skip(k as int).len() == 1);
            assert(xs.deep_view().skip(k as int)[0] == xs.deep_view()[k as int]);
            assert(final(out)@ =~= old(out)@ + sp_ser_strings_items(xs.deep_view().skip(k as int)));
        }
    }
}

/// Write an action list.
fn ser_actions(out: &mut Vec<char>, xs: &Vec<String>)
    ensures
        final(out)@ == old(out)@ + sp_ser_actions(xs.deep_view()),
{
    out.push('[');
    if xs.len() > 0 {
        ser_strings_items(out, xs, 0);
        proof {
            assert(xs.deep_view().skip(0) =~= xs.deep_view());
        }
    }
    out.push(']');
    proof {
        assert(final(out)@ =~= old(out)@ + sp_ser_actions(xs.deep_view()));
    }
}

/// Write one notification record.
#[verifier::rlimit(100)]
fn ser_note(out: &mut Vec<char>, n: &Notification)
    ensures
        final(out)@ == old(out)@ + sp_ser_note(n@),
{
    push_vec(out, tok_app_name_v());
    let cs1 = str_to_chars(n.app_name.as_str());
    push_ser_string(out, &cs1);
    push_vec(out, tok_app_icon_v());
    let cs2 = str_to_chars(n.app_icon.as_str());
    push_ser_string(out, &cs2);
    push_vec(out, tok_summary_v());
    let cs3 = str_to_chars(n.summary.as_str());
    push_ser_string(out, &cs3);
    push_vec(out, tok_body_v());
    let cs4 = str_to_chars(n.body.as_str());
    push_ser_string(out, &cs4);
    push_vec(out, tok_actions_v());
    ser_actions(out, &n.actions);
    push_vec(out, tok_hints_v());
    ser_hints(out, &n.hints);
    out.push('}');
    proof {
        let o = old(out)@;
        let f1 = sp_ser_string(n@.app_name);
        let f2 = sp_ser_string(n@.app_icon);
        let f3 = sp_ser_string(n@.summary);
        let f4 = sp_ser_string(n@.body);
        let f5 = sp_ser_actions(n@.actions);
        let f6 = sp_ser_hints(n@.hints);
        let t6 = tk_hints() + (f6 + seq!['}']);
        let t5 = tk_actions() + (f5 + t6);
        let t4 = tk_body() + (f4 + t5);
        let t3 = tk_summary() + (f3 + t4);
        let t2 = tk_app_icon() + (f2 + t3);
        let p1 = o + tk_app_name();
        let p2 = p1 + f1;
        let p3 = p2 + tk_app_icon();
        let p4 = p3 + f2;
        let p5 = p4 + tk_summary();
        let p6 = p5 + f3;
        let p7 = p6 + tk_body();
        let p8 = p7 + f4;
        let p9 = p8 + tk_actions();
        let p10 = p9 + f5;
        let p11 = p10 + tk_hints();
        let p12 = p11 + f6;
        assert(o + sp_ser_note(n@) =~= p1 + (f1 + t2));
        assert(p1 + (f1 + t2) =~= p2 + t2);
        assert(p2 + t2 =~= p3 + (f2 + t3));
        assert(p3 + (f2 + t3) =~= p4 + t3);
        assert(p4 + t3 =~= p5 + (f3 + t4));
        assert(p5 + (f3 + t4) =~= p6 + t4);
        assert(p6 + t4 =~= p7 + (f4 + t5));
        assert(p7 + (f4 + t5) =~= p8 + t5);
        assert(p8 + t5 =~= p9 + (f5 + t6));
        assert(p9 + (f5 + t6) =~= p10 + t6);
        assert(p10 + t6 =~= p11 + (f6 + seq!['}']));
        assert(p11 + (f6 + seq!['}']) =~= p12 + seq!['}']);
        assert(p12.push('}') =~= p12 + seq!['}']);
    }
}

/// Write one directory entry.
fn ser_entry(out: &mut Vec<char>, id: u32, n: &Notification)
    ensures
        final(out)@ == old(out)@ + sp_ser_entry((id, n@)),
{
    out.push('"');
    push_dec(out, id);
    out.push('"');
    out.push(':');
    ser_note(out, n);
    proof {
        assert(final(out)@ =~= old(out)@ + sp_ser_entry((id, n@)));
    }
}

/// Write the items of a nonempty entry mapping, from index `k` on.
#[verifier::rlimit(80)]
fn ser_entries_items(out: &mut Vec<char>, es: &Vec<(u32, Notification)>, k: usize)
    requires
        k < es@.len(),
    ensures
        final(out)@ == old(out)@ + sp_ser_entries_items(entries_view(es@).skip(k as int)),
    decreases es@.len() - k,
{
    let e = &es[k];
    ser_entry(out, e.0, &e.1);
    if k < es.len() - 1 {
        out.push(',');
        ser_entries_items(out, es, k + 1);
        proof {
            assert(entries_view(es@).skip(k as int).drop_first() =~= entries_view(es@).skip(k + 1));
            assert(entries_view(es@).skip(k as int)[0] == entries_view(es@)[k as int]);
            assert(final(out)@ =~= old(out)@ + sp_ser_entries_items(
                entries_view(es@).skip(k as int),
            ));
        }
    } else {
        proof {
            assert(entries_view(es@).skip(k as int).len() == 1);
            assert(entries_view(es@).skip(k as int)[0] == entries_view(es@)[k as int]);
            assert(final(out)@ =~= old(out)@ + sp_ser_entries_items(
                entries_view(es@).skip(k as int),
            ));
        }
    }
}

/// Write the entry mapping.
fn ser_entries(out: &mut Vec<char>, es: &Vec<(u32, Notification)>)
    ensures
        final(out)@ == old(out)@ + sp_ser_entries(entries_view(es@)),
{
    out.push('{');
    if es.len() > 0 {
        ser_entries_items(out, es, 0);
        proof {
            assert(entries_view(es@).skip(0) =~= entries_view(es@));
        }
    }
    out.push('}');
    proof {
        assert(final(out)@ =~= old(out)@ + sp_ser_entries(entries_view(es@)));
    }
}

/// Write the items of a nonempty id list, from index `k` on.
fn ser_ids_items(out: &mut Vec<char>, xs: &Vec<u32>, k: usize)
    requires
        k < xs@.len(),
    ensures
        final(out)@ == old(out)@ + sp_ser_ids_items(xs@.skip(k as int)),
    decreases xs@.len() - k,
{
    push_dec(out, xs[k]);
    if k < xs.len() - 1 {
        out.push(',');
        ser_ids_items(out, xs, k + 1);
        proof {
            assert(xs@.skip(k as int).drop_first() =~= xs@.skip(k + 1));
            assert(final(out)@ =~= old(out)@ + sp_ser_ids_items(xs@.skip(k as int)));
        }
    } else {
        proof {
            assert(xs@.skip(k as int).len() == 1);
            assert(final(out)@ =~= old(out)@ + sp_ser_ids_items(xs@.skip(k as int)));
        }
    }
}

/// Write the priority sequence.
fn ser_ids(out: &mut Vec<char>, xs: &Vec<u32>)
    ensures
        final(out)@ == old(out)@ + sp_ser_ids(xs@),
{
    out.push('[');
    if xs.len() > 0 {
        ser_ids_items(out, xs, 0);
        proof {
            assert(xs@.skip(0) =~= xs@);
        }
    }
    out.push(']');
    proof {
        assert(final(out)@ =~= old(out)@ + sp_ser_ids(xs@));
    }
}

/// Serialize a whole directory state as one snapshot line.
#[verifier::rlimit(80)]
pub fn render_snapshot(n: &Notes) -> (line: String)
    ensures
        line@ == sp_ser_snapshot(n@),
{
    let mut out: Vec<char> = Vec::new();
    push_vec(&mut out, tok_notifications_v());
    ser_entries(&mut out, &n.notifications);
    push_vec(&mut out, tok_priority_v());
    ser_ids(&mut out, &n.priority);
    push_vec(&mut out, tok_last_id_v());
    push_dec(&mut out, n.last_id);
    out.push('}');
    proof {
        let f1 = sp_ser_entries(n@.notifications);
        let f2 = sp_ser_ids(n@.priority);
        let f3 = dec_digits(n@.last_id as nat);
        let t3 = tk_last_id() + (f3 + seq!['}']);
        let t2 = tk_priority() + (f2 + t3);
        let o = Seq::<char>::empty();
        let p1 = o + tk_notifications();
        let p2 = p1 + f1;
        let p3 = p2 + tk_priority();
        let p4 = p3 + f2;
        let p5 = p4 + tk_last_id();
        let p6 = p5 + f3;
        assert(o + sp_ser_snapshot(n@) =~= p1 + (f1 + t2));
        assert(p1 + (f1 + t2) =~= p2 + t2);
        assert(p2 + t2 =~= p3 + (f2 + t3));
        assert(p3 + (f2 + t3) =~= p4 + t3);
        assert(p4 + t3 =~= p5 + (f3 + seq!['}']));
        assert(p5 + (f3 + seq!['}']) =~= p6 + seq!['}']);
        assert(p6.push('}') =~= p6 + seq!['}']);
        assert(o + sp_ser_snapshot(n@) =~= sp_ser_snapshot(n@));
        assert(o + tk_notifications() =~= tk_notifications());
    }
    chars_to_string(&out)
}

/// Locate a single-character token at position `i`.
fn expect_char(s: &Vec<char>, i: usize, c: char) -> (r: Option<usize>)
    requires
        i <= s@.len(),
    ensures
        match r {
            Some(j) => at(s@, i as int, seq![c]) && j == i + 1,
            None => !at(s@, i as int, seq![c]),
        },
{
    if i < s.len() && s[i] == c {
        proof {
            assert(s@.subrange(i as int, i + 1 as int) =~= seq![c]);
        }
        Some(i + 1)
    } else {
        proof {
            if at(s@, i as int, seq![c]) {
                lemma_at_char(s@, i as int, c);
            }
        }
        None
    }
}

/// Read an optional boolean.
fn parse_opt_bool_at(s: &Vec<char>, i: usize) -> (r: Option<(Option<bool>, usize)>)
    requires
        i <= s@.len(),
    ensures
        match r {
            Some(p) => sp_parse_opt_bool(s@, i as int) == Some((p.0, p.1 as int)) && i < p.1
                <= s@.len(),
            None => sp_parse_opt_bool(s@, i as int) is None,
        },
{
    let nl = tok_null_v();
    match expect(s, i, &nl) {
        Some(j) => Some((None, j)),
        None => {
            let tt = tok_true_v();
            match expect(s, i, &tt) {
                Some(j) => Some((Some(true), j)),
                None => {
                    let ff = tok_false_v();
                    match expect(s, i, &ff) {
                        Some(j) => Some((Some(false), j)),
                        None => None,
                    }
                },
            }
        },
    }
}

/// Read an optional string.
fn parse_opt_string_at(s: &Vec<char>, i: usize) -> (r: Option<(Option<String>, usize)>)
    requires
        i <= s@.len(),
    ensures
        match r {
            Some(p) => sp_parse_opt_string(s@, i as int) == Some((opt_string_view(p.0), p.1 as int))
                && i < p.1 <= s@.len(),
            None => sp_parse_opt_string(s@, i as int) is None,
        },
{
    let nl = tok_null_v();
    match expect(s, i, &nl) {
        Some(j) => Some((None, j)),
        None => match parse_string_at(s, i) {
            Some(p) => {
                let txt = chars_to_string(&p.0);
                Some((Some(txt), p.1))
            },
            None => None,
        },
    }
}

/// Read an optional urgency level.
fn parse_opt_u8_at(s: &Vec<char>, i: usize) -> (r: Option<(Option<u8>, usize)>)
    requires
        i <= s@.len(),
    ensures
        match r {
            Some(p) => sp_parse_opt_u8(s@, i as int) == Some((p.0, p.1 as int)) && i < p.1
                <= s@.len(),
            None => sp_parse_opt_u8(s@, i as int) is None,
        },
{
    let nl = tok_null_v();
    match expect(s, i, &nl) {
        Some(j) => Some((None, j)),
        None => match parse_u32_at(s, i) {
            Some(p) => if p.0 <= 255 {
                Some((Some(p.0 as u8), p.1))
            } else {
                None
            },
            None => None,
        },
    }
}

/// Read a hint record.
#[verifier::rlimit(80)]
fn parse_hints_at(s: &Vec<char>, i: usize) -> (r: Option<(Hints, usize)>)
    requires
        i <= s@.len(),
    ensures
        match r {
            Some(p) => sp_parse_hints(s@, i as int) == Some((p.0@, p.1 as int)) && i < p.1
                <= s@.len(),
            None => sp_parse_hints(s@, i as int) is None,
        },
{
    let t1 = tok_action_icons_v();
    let j1 = match expect(s, i, &t1) {
        Some(j) => j,
        None => {
            return None;
        },
    };
    let (action_icons, j2) = match parse_opt_bool_at(s, j1) {
        Some(p) => p,
        None => {
            return None;
        },
    };
    let t2 = tok_category_v();
    let j3 = match expect(s, j2, &t2) {
        Some(j) => j,
        None => {
            return None;
        },
    };
    let (category, j4) = match parse_opt_string_at(s, j3) {
        Some(p) => p,
        None => {
            return None;
        },
    };
    let t3 = tok_desktop_entry_v();
    let j5 = match expect(s, j4, &t3) {
        Some(j) => j,
        None => {
            return None;
        },
    };
    let (desktop_entry, j6) = match parse_opt_string_at(s, j5) {
        Some(p) => p,
        None => {
            return None;
        },
    };
    let t4 = tok_image_path_v();
    let j7 = match expect(s, j6, &t4) {
        Some(j) => j,
        None => {
            return None;
        },
    };
    let (image_path, j8) = match parse_opt_string_at(s, j7) {
        Some(p) => p,
        None => {
            return None;
        },
    };
    let t5 = tok_resident_v();
    let j9 = match expect(s, j8, &t5) {
        Some(j) => j,
        None => {
            return None;
        },
    };
    let (resident, j10) = match parse_opt_bool_at(s, j9) {
        Some(p) => p,
        None => {
            return None;
        },
    };
    let t6 = tok_transient_v();
    let j11 = match expect(s, j10, &t6) {
        Some(j) => j,
        None => {
            return None;
        },
    };
    let (transient, j12) = match parse_opt_bool_at(s, j11) {
        Some(p) => p,
        None => {
            return None;
        },
    };
    let t7 = tok_urgency_v();
    let j13 = match expect(s, j12, &t7) {
        Some(j) => j,
        None => {
            return None;
        },
    };
    let (urgency, j14) = match parse_opt_u8_at(s, j13) {
        Some(p) => p,
        None => {
            return None;
        },
    };
    let j15 = match expect_char(s, j14, '}') {
        Some(j) => j,
        None => {
            return None;
        },
    };
    Some(
        (
            Hints {
                action_icons,
                category,
                desktop_entry,
                image_path,
                resident,
                transient,
                urgency,
            },
            j15,
        ),
    )
}

/// Read the comma-separated items of a string list.
fn parse_strings_items_at(s: &Vec<char>, i: usize) -> (r: Option<(Vec<String>, usize)>)
    requires
        i <= s@.len(),
    ensures
        match r {
            Some(p) => sp_parse_strings_items(s@, i as int) == Some((p.0.deep_view(), p.1 as int))
                && i < p.1 <= s@.len(),
            None => sp_parse_strings_items(s@, i as int) is None,
        },
    decreases s@.len() - i,
{
    let (cs, j) = match parse_string_at(s, i) {
        Some(p) => p,
        None => {
            return None;
        },
    };
    let item = chars_to_string(&cs);
    match expect_char(s, j, ',') {
        Some(j2) => match parse_strings_items_at(s, j2) {
            Some(q) => {
                let mut v = q.0;
                let ghost oldv = v.deep_view();
                v.insert(0, item);
                proof {
                    assert(v.deep_view() =~= seq![cs@] + oldv);
                }
                Some((v, q.1))
            },
            None => None,
        },
        None => {
            let mut v: Vec<String> = Vec::new();
            v.push(item);
            proof {
                assert(v.deep_view() =~= seq![cs@]);
            }
            Some((v, j))
        },
    }
}

/// Read an action list.
fn parse_actions_at(s: &Vec<char>, i: usize) -> (r: Option<(Vec<String>, usize)>)
    requires
        i <= s@.len(),
    ensures
        match r {
            Some(p) => sp_parse_actions(s@, i as int) == Some((p.0.deep_view(), p.1 as int)) && i
                < p.1 <= s@.len(),
            None => sp_parse_actions(s@, i as int) is None,
        },
{
    let j = match expect_char(s, i, '[') {
        Some(j) => j,
        None => {
            return None;
        },
    };
    match expect_char(s, j, ']') {
        Some(j2) => {
            let v: Vec<String> = Vec::new();
            proof {
                assert(v.deep_view() =~= Seq::<Seq<char>>::empty());
            }
            Some((v, j2))
        },
        None => {
            let (v, j2) = match parse_strings_items_at(s, j) {
                Some(p) => p,
                None => {
                    return None;
                },
            };
            match expect_char(s, j2, ']') {
                Some(j3) => Some((v, j3)),
                None => None,
            }
        },
    }
}

/// Read one notification record.
#[verifier::rlimit(100)]
fn parse_note_at(s: &Vec<char>, i: usize) -> (r: Option<(Notification, usize)>)
    requires
        i <= s@.len(),
    ensures
        match r {
            Some(p) => sp_parse_note(s@, i as int) == Some((p.0@, p.1 as int)) && i < p.1
                <= s@.len(),
            None => sp_parse_note(s@, i as int) is None,
        },
{
    let t1 = tok_app_name_v();
    let j1 = match expect(s, i, &t1) {
        Some(j) => j,
        None => {
            return None;
        },
    };
    let (cs1, j2) = match parse_string_at(s, j1) {
        Some(p) => p,
        None => {
            return None;
        },
    };
    let t2 = tok_app_icon_v();
    let j3 = match expect(s, j2, &t2) {
        Some(j) => j,
        None => {
            return None;
        },
    };
    let (cs2, j4) = match parse_string_at(s, j3) {
        Some(p) => p,
        None => {
            return None;
        },
    };
    let t3 = tok_summary_v();
    let j5 = match expect(s, j4, &t3) {
        Some(j) => j,
        None => {
            return None;
        },
    };
    let (cs3, j6) = match parse_string_at(s, j5) {
        Some(p) => p,
        None => {
            return None;
        },
    };
    let t4 = tok_body_v();
    let j7 = match expect(s, j6, &t4) {
        Some(j) => j,
        None => {
            return None;
        },
    };
    let (cs4, j8) = match parse_string_at(s, j7) {
        Some(p) => p,
        None => {
            return None;
        },
    };
    let t5 = tok_actions_v();
    let j9 = match expect(s, j8, &t5) {
        Some(j) => j,
        None => {
            return None;
        },
    };
    let (actions, j10) = match parse_actions_at(s, j9) {
        Some(p) => p,
        None => {
            return None;
        },
    };
    let t6 = tok_hints_v();
    let j11 = match expect(s, j10, &t6) {
        Some(j) => j,
        None => {
            return None;
        },
    };
    let (hints, j12) = match parse_hints_at(s, j11) {
        Some(p) => p,
        None => {
            return None;
        },
    };
    let j13 = match expect_char(s, j12, '}') {
        Some(j) => j,
        None => {
            return None;
        },
    };
    Some(
        (
            Notification {
                app_name: chars_to_string(&cs1),
                app_icon: chars_to_string(&cs2),
                summary: chars_to_string(&cs3),
                body: chars_to_string(&cs4),
                actions,
                hints,
            },
            j13,
        ),
    )
}

/// Read one directory entry.
#[verifier::rlimit(80)]
fn parse_entry_at(s: &Vec<char>, i: usize) -> (r: Option<((u32, Notification), usize)>)
    requires
        i <= s@.len(),
    ensures
        match r {
            Some(p) => sp_parse_entry(s@, i as int) == Some(((p.0.0, p.0.1@), p.1 as int)) && i
                < p.1 <= s@.len(),
            None => sp_parse_entry(s@, i as int) is None,
        },
{
    let j1 = match expect_char(s, i, '"') {
        Some(j) => j,
        None => {
            return None;
        },
    };
    let (id, j2) = match parse_u32_at(s, j1) {
        Some(p) => p,
        None => {
            return None;
        },
    };
    let mut quot_colon: Vec<char> = Vec::new();
    quot_colon.push('"');
    quot_colon.push(':');
    proof {
        assert(quot_colon@ =~= seq!['"', ':']);
    }
    let j3 = match expect(s, j2, &quot_colon) {
        Some(j) => j,
        None => {
            return None;
        },
    };
    let (n, j4) = match parse_note_at(s, j3) {
        Some(p) => p,
        None => {
            return None;
        },
    };
    Some(((id, n), j4))
}

/// Read the comma-separated items of the entry mapping.
#[verifier::rlimit(100)]
fn parse_entries_items_at(s: &Vec<char>, i: usize) -> (r: Option<(Vec<(u32, Notification)>, usize)>)
    requires
        i <= s@.len(),
    ensures
        match r {
            Some(p) => sp_parse_entries_items(s@, i as int) == Some(
                (entries_view(p.0@), p.1 as int),
            ) && i < p.1 <= s@.len(),
            None => sp_parse_entries_items(s@, i as int) is None,
        },
    decreases s@.len() - i,
{
    let (e, j) = match parse_entry_at(s, i) {
        Some(p) => p,
        None => {
            return None;
        },
    };
    let ghost ev = (e.0, e.1@);
    match expect_char(s, j, ',') {
        Some(j2) => match parse_entries_items_at(s, j2) {
            Some(q) => {
                let mut v = q.0;
                let ghost oldv = entries_view(v@);
                v.insert(0, e);
                proof {
                    assert(entries_view(v@) =~= seq![ev] + oldv);
                }
                Some((v, q.1))
            },
            None => None,
        },
        None => {
            let mut v: Vec<(u32, Notification)> = Vec::new();
            v.push(e);
            proof {
                assert(entries_view(v@) =~= seq![ev]);
            }
            Some((v, j))
        },
    }
}

/// Read the entry mapping.
fn parse_entries_at(s: &Vec<char>, i: usize) -> (r: Option<(Vec<(u32, Notification)>, usize)>)
    requires
        i <= s@.len(),
    ensures
        match r {
            Some(p) => sp_parse_entries(s@, i as int) == Some((entries_view(p.0@), p.1 as int))
                && i < p.1 <= s@.len(),
            None => sp_parse_entries(s@, i as int) is None,
        },
{
    let j = match expect_char(s, i, '{') {
        Some(j) => j,
        None => {
            return None;
        },
    };
    match expect_char(s, j, '}') {
        Some(j2) => {
            let v: Vec<(u32, Notification)> = Vec::new();
            proof {
                assert(entries_view(v@) =~= Seq::<(u32, NoteView)>::empty());
            }
            Some((v, j2))
        },
        None => {
            let (v, j2) = match parse_entries_items_at(s, j) {
                Some(p) => p,
                None => {
                    return None;
                },
            };
            match expect_char(s, j2, '}') {
                Some(j3) => Some((v, j3)),
                None => None,
            }
        },
    }
}

/// Read the comma-separated items of the id list.
fn parse_ids_items_at(s: &Vec<char>, i: usize) -> (r: Option<(Vec<u32>, usize)>)
    requires
        i <= s@.len(),
    ensures
        match r {
            Some(p) => sp_parse_ids_items(s@, i as int) == Some((p.0@, p.1 as int)) && i < p.1
                <= s@.len(),
            None => sp_parse_ids_items(s@, i as int) is None,
        },
    decreases s@.len() - i,
{
    let (x, j) = match parse_u32_at(s, i) {
        Some(p) => p,
        None => {
            return None;
        },
    };
    match expect_char(s, j, ',') {
        Some(j2) => match parse_ids_items_at(s, j2) {
            Some(q) => {
                let mut v = q.0;
                let ghost oldv = v@;
                v.insert(0, x);
                proof {
                    assert(v@ =~= seq![x] + oldv);
                }
                Some((v, q.1))
            },
            None => None,
        },
        None => {
            let mut v: Vec<u32> = Vec::new();
            v.push(x);
            proof {
                assert(v@ =~= seq![x]);
            }
            Some((v, j))
        },
    }
}

/// Read the priority sequence.
fn parse_ids_at(s: &Vec<char>, i: usize) -> (r: Option<(Vec<u32>, usize)>)
    requires
        i <= s@.len(),
    ensures
        match r {
            Some(p) => sp_parse_ids(s@, i as int) == Some((p.0@, p.1 as int)) && i < p.1
                <= s@.len(),
            None => sp_parse_ids(s@, i as int) is None,
        },
{
    let j = match expect_char(s, i, '[') {
        Some(j) => j,
        None => {
            return None;
        },
    };
    match expect_char(s, j, ']') {
        Some(j2) => {
            let v: Vec<u32> = Vec::new();
            proof {
                assert(v@ =~= Seq::<u32>::empty());
            }
            Some((v, j2))
        },
        None => {
            let (v, j2) = match parse_ids_items_at(s, j) {
                Some(p) => p,
                None => {
                    return None;
                },
            };
            match expect_char(s, j2, ']') {
                Some(j3) => Some((v, j3)),
                None => None,
            }
        },
    }
}

/// Rebuild a directory state from one snapshot line. Returns nothing when
/// the line does not have exactly the written shape.
pub fn parse_snapshot(line: &str) -> (r: Option<Notes>)
    ensures
        match r {
            Some(n) => sp_parse_snapshot(line@) == Some(n@),
            None => sp_parse_snapshot(line@) is None,
        },
{
    let s = str_to_chars(line);
    let t1 = tok_notifications_v();
    let j1 = match expect(&s, 0, &t1) {
        Some(j) => j,
        None => {
            return None;
        },
    };
    let (notifications, j2) = match parse_entries_at(&s, j1) {
        Some(p) => p,
        None => {
            return None;
        },
    };
    let t2 = tok_priority_v();
    let j3 = match expect(&s, j2, &t2) {
        Some(j) => j,
        None => {
            return None;
        },
    };
    let (priority, j4) = match parse_ids_at(&s, j3) {
        Some(p) => p,
        None => {
            return None;
        },
    };
    let t3 = tok_last_id_v();
    let j5 = match expect(&s, j4, &t3) {
        Some(j) => j,
        None => {
            return None;
        },
    };
    let (last_id, j6) = match parse_u32_at(&s, j5) {
        Some(p) => p,
        None => {
            return None;
        },
    };
    let j7 = match expect_char(&s, j6, '}') {
        Some(j) => j,
        None => {
            return None;
        },
    };
    if j7 == s.len() {
        Some(Notes { notifications, priority, last_id })
    } else {
        None
    }
}

impl Notes {
    /// The mutate-then-publish tail of every mutating method: recompute
    /// the priority sequence, then render the snapshot line that the
    /// publisher hands to its output sink.
    pub fn on_change(&mut self) -> (line: String)
        requires
            unique_ids(old(self)@.notifications),
            old(self)@.last_id >= 1,
        ensures
            final(self)@.wf(),
            final(self)@.notifications == old(self)@.notifications,
            final(self)@.last_id == old(self)@.last_id,
            line@ == sp_ser_snapshot(final(self)@),
    {
        self.update_urgency();
        render_snapshot(self)
    }
}

} // verus!
