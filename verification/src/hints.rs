//! Decoding of the untyped hint dictionary of a `Notify` call into the
//! typed hint record: known keys become typed fields, unknown keys are
//! dropped for forward compatibility, and a known key carrying a value of
//! the wrong underlying type rejects the whole call before any mutation.

use vstd::prelude::*;

use crate::chars::eq_chars;
use crate::chars::str_to_chars;
use crate::directory::opt_string_view;
use crate::directory::Hints;
use crate::directory::HintsView;
use crate::directory::Notes;
use crate::directory::NoteView;

verus! {

/// One value of the untyped hint dictionary, as handed over by the
/// transport: the underlying types a recognized hint can carry, and
/// `Other` for every value of any further type.
pub enum HintValue {
    Bool(bool),
    Text(String),
    Byte(u8),
    Other,
}

/// Mathematical model of `HintValue`.
pub enum HintValueView {
    Bool(bool),
    Text(Seq<char>),
    Byte(u8),
    Other,
}

/// The model of one dictionary value.
pub open spec fn hint_value_view(v: HintValue) -> HintValueView {
    match v {
        HintValue::Bool(b) => HintValueView::Bool(b),
        HintValue::Text(s) => HintValueView::Text(s@),
        HintValue::Byte(u) => HintValueView::Byte(u),
        HintValue::Other => HintValueView::Other,
    }
}

/// The model of the dictionary: key-value pairs in the order handed over.
pub open spec fn pairs_view(ps: Seq<(String, HintValue)>) -> Seq<(Seq<char>, HintValueView)> {
    ps.map_values(|p: (String, HintValue)| (p.0@, hint_value_view(p.1)))
}

/// The wire key `action-icons`.
pub open spec fn key_action_icons() -> Seq<char> {
    seq!['a', 'c', 't', 'i', 'o', 'n', '-', 'i', 'c', 'o', 'n', 's']
}

/// The wire key `category`.
pub open spec fn key_category() -> Seq<char> {
    seq!['c', 'a', 't', 'e', 'g', 'o', 'r', 'y']
}

/// The wire key `desktop-entry`.
pub open spec fn key_desktop_entry() -> Seq<char> {
    seq!['d', 'e', 's', 'k', 't', 'o', 'p', '-', 'e', 'n', 't', 'r', 'y']
}

/// The wire key `image-path`.
pub open spec fn key_image_path() -> Seq<char> {
    seq!['i', 'm', 'a', 'g', 'e', '-', 'p', 'a', 't', 'h']
}

/// The wire key `resident`.
pub open spec fn key_resident() -> Seq<char> {
    seq!['r', 'e', 's', 'i', 'd', 'e', 'n', 't']
}

/// The wire key `transient`.
pub open spec fn key_transient() -> Seq<char> {
    seq!['t', 'r', 'a', 'n', 's', 'i', 'e', 'n', 't']
}

/// The wire key `urgency`.
pub open spec fn key_urgency() -> Seq<char> {
    seq!['u', 'r', 'g', 'e', 'n', 'c', 'y']
}

/// A hint record with every field absent.
pub open spec fn empty_hints() -> HintsView {
    HintsView {
        action_icons: None,
        category: None,
        desktop_entry: None,
        image_path: None,
        resident: None,
        transient: None,
        urgency: None,
    }
}

/// Apply one dictionary pair to a hint record: a known key with the right
/// value type sets its field, a known key with any other value type fails,
/// an unknown key changes nothing.
pub open spec fn sp_apply_hint(h: HintsView, k: Seq<char>, v: HintValueView) -> Option<HintsView> {
    if k == key_action_icons() {
        match v {
            HintValueView::Bool(b) => Some(HintsView { action_icons: Some(b), ..h }),
            _ => None,
        }
    } else if k == key_category() {
        match v {
            HintValueView::Text(t) => Some(HintsView { category: Some(t), ..h }),
            _ => None,
        }
    } else if k == key_desktop_entry() {
        match v {
            HintValueView::Text(t) => Some(HintsView { desktop_entry: Some(t), ..h }),
            _ => None,
        }
    } else if k == key_image_path() {
        match v {
            HintValueView::Text(t) => Some(HintsView { image_path: Some(t), ..h }),
            _ => None,
        }
    } else if k == key_resident() {
        match v {
            HintValueView::Bool(b) => Some(HintsView { resident: Some(b), ..h }),
            _ => None,
        }
    } else if k == key_transient() {
        match v {
            HintValueView::Bool(b) => Some(HintsView { transient: Some(b), ..h }),
            _ => None,
        }
    } else if k == key_urgency() {
        match v {
            HintValueView::Byte(u) => Some(HintsView { urgency: Some(u), ..h }),
            _ => None,
        }
    } else {
        Some(h)
    }
}

/// Decode a whole dictionary, first pair first; a later pair under the
/// same key wins. Fails exactly when some known key carries a value of
/// the wrong type.
pub open spec fn sp_decode_hints(ps: Seq<(Seq<char>, HintValueView)>) -> Option<HintsView>
    decreases ps.len(),
{
    if ps.len() == 0 {
        Some(empty_hints())
    } else {
        match sp_decode_hints(ps.drop_last()) {
            None => None,
            Some(h) => sp_apply_hint(h, ps.last().0, ps.last().1),
        }
    }
}

/// The one way hint decoding fails.
#[derive(Debug)]
pub enum HintError {
    WrongType,
}

/// Once a prefix fails to decode, the whole dictionary fails.
proof fn lemma_decode_none_extends(ps: Seq<(Seq<char>, HintValueView)>, m: int)
    requires
        0 <= m <= ps.len(),
        sp_decode_hints(ps.take(m)) is None,
    ensures
        sp_decode_hints(ps) is None,
    decreases ps.len() - m,
{
    if m < ps.len() {
        assert(ps.take(m + 1).drop_last() =~= ps.take(m));
        lemma_decode_none_extends(ps, m + 1);
    } else {
        assert(ps.take(m) =~= ps);
    }
}

/// The wire key `action-icons` as a character vector.
fn key_action_icons_v() -> (t: Vec<char>)
    ensures
        t@ == key_action_icons(),
{
    let t = vec!['a', 'c', 't', 'i', 'o', 'n', '-', 'i', 'c', 'o', 'n', 's'];
    proof {
        assert(t@ =~= key_action_icons());
    }
    t
}

/// The wire key `category` as a character vector.
fn key_category_v() -> (t: Vec<char>)
    ensures
        t@ == key_category(),
{
    let t = vec!['c', 'a', 't', 'e', 'g', 'o', 'r', 'y'];
    proof {
        assert(t@ =~= key_category());
    }
    t
}

/// The wire key `desktop-entry` as a character vector.
fn key_desktop_entry_v() -> (t: Vec<char>)
    ensures
        t@ == key_desktop_entry(),
{
    let t = vec!['d', 'e', 's', 'k', 't', 'o', 'p', '-', 'e', 'n', 't', 'r', 'y'];
    proof {
        assert(t@ =~= key_desktop_entry());
    }
    t
}

/// The wire key `image-path` as a character vector.
fn key_image_path_v() -> (t: Vec<char>)
    ensures
        t@ == key_image_path(),
{
    let t = vec!['i', 'm', 'a', 'g', 'e', '-', 'p', 'a', 't', 'h'];
    proof {
        assert(t@ =~= key_image_path());
    }
    t
}

/// The wire key `resident` as a character vector.
fn key_resident_v() -> (t: Vec<char>)
    ensures
        t@ == key_resident(),
{
    let t = vec!['r', 'e', 's', 'i', 'd', 'e', 'n', 't'];
    proof {
        assert(t@ =~= key_resident());
    }
    t
}

/// The wire key `transient` as a character vector.
fn key_transient_v() -> (t: Vec<char>)
    ensures
        t@ == key_transient(),
{
    let t = vec!['t', 'r', 'a', 'n', 's', 'i', 'e', 'n', 't'];
    proof {
        assert(t@ =~= key_transient());
    }
    t
}

/// The wire key `urgency` as a character vector.
fn key_urgency_v() -> (t: Vec<char>)
    ensures
        t@ == key_urgency(),
{
    let t = vec!['u', 'r', 'g', 'e', 'n', 'c', 'y'];
    proof {
        assert(t@ =~= key_urgency());
    }
    t
}

/// Apply one dictionary pair to the record under construction. On a
/// wrong-typed known key nothing is changed and `false` comes back.
fn apply_hint(h: &mut Hints, key: &String, v: &HintValue) -> (ok: bool)
    ensures
        match sp_apply_hint(old(h)@, key@, hint_value_view(*v)) {
            Some(h2) => ok && final(h)@ == h2,
            None => !ok && *final(h) == *old(h),
        },
{
    let kc = str_to_chars(key.as_str());
    let k1 = key_action_icons_v();
    if eq_chars(&kc, &k1) {
        return match v {
            HintValue::Bool(b) => {
                h.action_icons = Some(*b);
                true
            },
            _ => false,
        };
    }
    let k2 = key_category_v();
    if eq_chars(&kc, &k2) {
        return match v {
            HintValue::Text(t) => {
                h.category = Some(t.clone());
                true
            },
            _ => false,
        };
    }
    let k3 = key_desktop_entry_v();
    if eq_chars(&kc, &k3) {
        return match v {
            HintValue::Text(t) => {
                h.desktop_entry = Some(t.clone());
                true
            },
            _ => false,
        };
    }
    let k4 = key_image_path_v();
    if eq_chars(&kc, &k4) {
        return match v {
            HintValue::Text(t) => {
                h.image_path = Some(t.clone());
                true
            },
            _ => false,
        };
    }
    let k5 = key_resident_v();
    if eq_chars(&kc, &k5) {
        return match v {
            HintValue::Bool(b) => {
                h.resident = Some(*b);
                true
            },
            _ => false,
        };
    }
    let k6 = key_transient_v();
    if eq_chars(&kc, &k6) {
        return match v {
            HintValue::Bool(b) => {
                h.transient = Some(*b);
                true
            },
            _ => false,
        };
    }
    let k7 = key_urgency_v();
    if eq_chars(&kc, &k7) {
        return match v {
            HintValue::Byte(u) => {
                h.urgency = Some(*u);
                true
            },
            _ => false,
        };
    }
    true
}

/// Decode the untyped hint dictionary. Unknown keys are ignored; a known
/// key with a wrong-typed value fails the whole dictionary; of repeated
/// keys the last one wins.
pub fn decode_hints(pairs: &Vec<(String, HintValue)>) -> (r: Result<Hints, HintError>)
    ensures
        match r {
            Ok(h) => sp_decode_hints(pairs_view(pairs@)) == Some(h@),
            Err(_) => sp_decode_hints(pairs_view(pairs@)) is None,
        },
{
    let ghost pv = pairs_view(pairs@);
    let mut h = Hints {
        action_icons: None,
        category: None,
        desktop_entry: None,
        image_path: None,
        resident: None,
        transient: None,
        urgency: None,
    };
    let mut k: usize = 0;
    proof {
        assert(pv.take(0) =~= Seq::<(Seq<char>, HintValueView)>::empty());
    }
    while k < pairs.len()
        invariant
            k <= pairs@.len(),
            pv == pairs_view(pairs@),
            sp_decode_hints(pv.take(k as int)) == Some(h@),
        decreases pairs@.len() - k,
    {
        let pair = &pairs[k];
        let ok = apply_hint(&mut h, &pair.0, &pair.1);
        proof {
            assert(pv.take(k + 1).drop_last() =~= pv.take(k as int));
            assert(pv.take(k + 1).last() == pv[k as int]);
            assert(pv[k as int] == (pairs@[k as int].0@, hint_value_view(pairs@[k as int].1)));
        }
        if !ok {
            proof {
                assert(sp_decode_hints(pv.take(k + 1)) is None);
                lemma_decode_none_extends(pv, k + 1);
            }
            return Err(HintError::WrongType);
        }
        k = k + 1;
    }
    proof {
        assert(pv.take(pairs@.len() as int) =~= pv);
    }
    Ok(h)
}

impl Notes {
    /// Handle `Notify` with the hint dictionary still undecoded: decode
    /// first, and only on success touch the directory. A failed decode
    /// rejects the one call and leaves the directory exactly as it was.
    pub fn notify_with_hints(
        &mut self,
        app_name: String,
        replaces_id: u32,
        app_icon: String,
        summary: String,
        body: String,
        actions: Vec<String>,
        hint_pairs: Vec<(String, HintValue)>,
        _expire_timeout: i32,
    ) -> (r: Result<u32, HintError>)
        requires
            old(self)@.wf(),
            replaces_id == 0 ==> old(self)@.last_id < u32::MAX,
        ensures
            match r {
                Err(_) => *final(self) == *old(self) && sp_decode_hints(pairs_view(hint_pairs@))
                    is None,
                Ok(id) => {
                    &&& sp_decode_hints(pairs_view(hint_pairs@)) matches Some(hv)
                    &&& final(self)@.wf()
                    &&& id != 0
                    &&& (replaces_id == 0 ==> id == old(self)@.last_id + 1)
                    &&& (replaces_id != 0 ==> id == replaces_id)
                    &&& final(self)@.last_id == if replaces_id == 0 {
                        old(self)@.last_id + 1
                    } else {
                        old(self)@.last_id as int
                    }
                    &&& (sp_decode_hints(pairs_view(hint_pairs@)) matches Some(hv)
                        ==> final(self)@.note_map() == old(self)@.note_map().insert(
                        id,
                        NoteView {
                            app_name: app_name@,
                            app_icon: app_icon@,
                            summary: summary@,
                            body: body@,
                            actions: actions.deep_view(),
                            hints: hv,
                        },
                    ))
                },
            },
    {
        match decode_hints(&hint_pairs) {
            Err(e) => Err(e),
            Ok(hints) => Ok(
                self.notify(
                    app_name,
                    replaces_id,
                    app_icon,
                    summary,
                    body,
                    actions,
                    hints,
                    _expire_timeout,
                ),
            ),
        }
    }
}

} // verus!
