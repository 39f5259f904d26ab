//! The notification directory: a mapping from notification id to record,
//! a priority sequence derived from it, and a monotonic id allocator.

use vstd::prelude::*;

verus! {

/// Typed optional hints of a notification. Raw image data is unsupported by
/// design, so no field carries it.
pub struct Hints {
    pub action_icons: Option<bool>,
    pub category: Option<String>,
    pub desktop_entry: Option<String>,
    pub image_path: Option<String>,
    pub resident: Option<bool>,
    pub transient: Option<bool>,
    pub urgency: Option<u8>,
}

/// Mathematical model of `Hints`: the same record over sequences of
/// characters.
pub struct HintsView {
    pub action_icons: Option<bool>,
    pub category: Option<Seq<char>>,
    pub desktop_entry: Option<Seq<char>>,
    pub image_path: Option<Seq<char>>,
    pub resident: Option<bool>,
    pub transient: Option<bool>,
    pub urgency: Option<u8>,
}

/// The model of an optional string.
pub open spec fn opt_string_view(o: Option<String>) -> Option<Seq<char>> {
    match o {
        Some(s) => Some(s@),
        None => None,
    }
}

impl View for Hints {
    type V = HintsView;

    open spec fn view(&self) -> HintsView {
        HintsView {
            action_icons: self.action_icons,
            category: opt_string_view(self.category),
            desktop_entry: opt_string_view(self.desktop_entry),
            image_path: opt_string_view(self.image_path),
            resident: self.resident,
            transient: self.transient,
            urgency: self.urgency,
        }
    }
}

/// One notification record, as handed over by a `Notify` call.
pub struct Notification {
    pub app_name: String,
    pub app_icon: String,
    pub summary: String,
    pub body: String,
    pub actions: Vec<String>,
    pub hints: Hints,
}

/// Mathematical model of `Notification`.
pub struct NoteView {
    pub app_name: Seq<char>,
    pub app_icon: Seq<char>,
    pub summary: Seq<char>,
    pub body: Seq<char>,
    pub actions: Seq<Seq<char>>,
    pub hints: HintsView,
}

impl View for Notification {
    type V = NoteView;

    open spec fn view(&self) -> NoteView {
        NoteView {
            app_name: self.app_name@,
            app_icon: self.app_icon@,
            summary: self.summary@,
            body: self.body@,
            actions: self.actions.deep_view(),
            hints: self.hints@,
        }
    }
}

/// The directory itself: the id-to-record mapping (an association vector
/// with unique keys), the derived priority sequence, and the id allocator.
pub struct Notes {
    pub notifications: Vec<(u32, Notification)>,
    pub priority: Vec<u32>,
    pub last_id: u32,
}

/// Mathematical model of `Notes`.
pub struct NotesView {
    pub notifications: Seq<(u32, NoteView)>,
    pub priority: Seq<u32>,
    pub last_id: u32,
}

/// The model of one stored entry.
pub open spec fn entry_view(e: (u32, Notification)) -> (u32, NoteView) {
    (e.0, e.1@)
}

/// The model of the stored entry vector.
pub open spec fn entries_view(s: Seq<(u32, Notification)>) -> Seq<(u32, NoteView)> {
    s.map_values(|e: (u32, Notification)| entry_view(e))
}

impl View for Notes {
    type V = NotesView;

    open spec fn view(&self) -> NotesView {
        NotesView {
            notifications: entries_view(self.notifications@),
            priority: self.priority@,
            last_id: self.last_id,
        }
    }
}

/// The ids of an entry sequence, in entry order.
pub open spec fn ids_of(entries: Seq<(u32, NoteView)>) -> Seq<u32> {
    entries.map_values(|e: (u32, NoteView)| e.0)
}

/// No two entries share an id.
pub open spec fn unique_ids(entries: Seq<(u32, NoteView)>) -> bool {
    forall|i: int, j: int| 0 <= i < j < entries.len() ==> entries[i].0 != entries[j].0
}

/// The record stored under `id`, if any.
pub open spec fn lookup(entries: Seq<(u32, NoteView)>, id: u32) -> Option<NoteView>
    decreases entries.len(),
{
    if entries.len() == 0 {
        None
    } else if entries[0].0 == id {
        Some(entries[0].1)
    } else {
        lookup(entries.drop_first(), id)
    }
}

/// The entry sequence as a finite map.
pub open spec fn map_of(entries: Seq<(u32, NoteView)>) -> Map<u32, NoteView>
    decreases entries.len(),
{
    if entries.len() == 0 {
        Map::empty()
    } else {
        map_of(entries.drop_last()).insert(entries.last().0, entries.last().1)
    }
}

/// The urgency used for ordering: a missing urgency hint counts as the
/// lowest level rather than being an error.
pub open spec fn urgency_rank(h: HintsView) -> u8 {
    match h.urgency {
        Some(u) => u,
        None => 0,
    }
}

/// The ordering rank of the record stored under `id` (meaningful only for
/// present ids).
pub open spec fn rank_of(entries: Seq<(u32, NoteView)>, id: u32) -> u8 {
    match lookup(entries, id) {
        Some(n) => urgency_rank(n.hints),
        None => 0,
    }
}

/// The priority order: urgency descending, ties broken by id ascending.
/// A strict total order on distinct present ids.
pub open spec fn prio_before(entries: Seq<(u32, NoteView)>, a: u32, b: u32) -> bool {
    rank_of(entries, a) > rank_of(entries, b) || (rank_of(entries, a) == rank_of(entries, b) && a
        < b)
}

impl NotesView {
    /// The key set of the mapping.
    pub open spec fn id_set(self) -> Set<u32> {
        ids_of(self.notifications).to_set()
    }

    /// The mapping itself.
    pub open spec fn note_map(self) -> Map<u32, NoteView> {
        map_of(self.notifications)
    }

    /// The priority sequence holds exactly the keys of the mapping, sorted
    /// by urgency descending with ties broken by id ascending.
    pub open spec fn priority_consistent(self) -> bool {
        &&& self.priority.to_set() == self.id_set()
        &&& self.priority.no_duplicates()
        &&& forall|i: int, j: int|
            0 <= i < j < self.priority.len() ==> prio_before(
                self.notifications,
                self.priority[i],
                self.priority[j],
            )
    }

    /// Directory invariant: unique keys, a consistent priority sequence,
    /// and an allocator that has moved past the reserved id 0.
    pub open spec fn wf(self) -> bool {
        &&& unique_ids(self.notifications)
        &&& self.last_id >= 1
        &&& self.priority_consistent()
    }
}

/// Taking the model commutes with removing an entry.
proof fn lemma_entries_view_remove(s: Seq<(u32, Notification)>, i: int)
    requires
        0 <= i < s.len(),
    ensures
        entries_view(s.remove(i)) =~= entries_view(s).remove(i),
{
    s.remove_ensures(i);
    entries_view(s).remove_ensures(i);
}

/// Taking the model commutes with appending an entry.
proof fn lemma_entries_view_push(s: Seq<(u32, Notification)>, e: (u32, Notification))
    ensures
        entries_view(s.push(e)) =~= entries_view(s).push(entry_view(e)),
{
}

/// `lookup` finds the first occurrence of an id.
proof fn lemma_lookup_first(entries: Seq<(u32, NoteView)>, id: u32, i: int)
    requires
        0 <= i < entries.len(),
        entries[i].0 == id,
        forall|m: int| 0 <= m < i ==> entries[m].0 != id,
    ensures
        lookup(entries, id) == Some(entries[i].1),
    decreases i,
{
    if i > 0 {
        lemma_lookup_first(entries.drop_first(), id, i - 1);
    }
}

/// An id that occurs nowhere is not found.
proof fn lemma_lookup_none(entries: Seq<(u32, NoteView)>, id: u32)
    requires
        forall|m: int| 0 <= m < entries.len() ==> entries[m].0 != id,
    ensures
        lookup(entries, id) is None,
    decreases entries.len(),
{
    if entries.len() > 0 {
        lemma_lookup_none(entries.drop_first(), id);
    }
}

/// `lookup` succeeds exactly on the ids that occur in the sequence.
proof fn lemma_lookup_some_iff(entries: Seq<(u32, NoteView)>, id: u32)
    ensures
        lookup(entries, id) is Some <==> exists|i: int| 0 <= i < entries.len() && entries[i].0 == id,
    decreases entries.len(),
{
    if entries.len() == 0 {
    } else if entries[0].0 == id {
        assert(entries[0].0 == id);
    } else {
        lemma_lookup_some_iff(entries.drop_first(), id);
        if lookup(entries, id) is Some {
            let i = choose|i: int|
                0 <= i < entries.drop_first().len() && entries.drop_first()[i].0 == id;
            assert(entries[i + 1].0 == id);
        }
        if exists|i: int| 0 <= i < entries.len() && entries[i].0 == id {
            let i = choose|i: int| 0 <= i < entries.len() && entries[i].0 == id;
            assert(entries.drop_first()[i - 1].0 == id);
        }
    }
}

/// The domain of the derived map is the set of ids that occur.
proof fn lemma_map_of_dom(entries: Seq<(u32, NoteView)>, id: u32)
    ensures
        map_of(entries).contains_key(id) <==> exists|i: int|
            0 <= i < entries.len() && entries[i].0 == id,
    decreases entries.len(),
{
    if entries.len() > 0 {
        lemma_map_of_dom(entries.drop_last(), id);
        if entries.last().0 == id {
            assert(entries[entries.len() - 1].0 == id);
        } else if map_of(entries).contains_key(id) {
            let i = choose|i: int|
                0 <= i < entries.drop_last().len() && entries.drop_last()[i].0 == id;
            assert(entries[i].0 == id);
        } else if exists|i: int| 0 <= i < entries.len() && entries[i].0 == id {
            let i = choose|i: int| 0 <= i < entries.len() && entries[i].0 == id;
            assert(entries.drop_last()[i].0 == id);
        }
    }
}

/// With unique ids, the derived map stores at `entries[i].0` exactly
/// `entries[i].1`.
proof fn lemma_map_of_at(entries: Seq<(u32, NoteView)>, i: int)
    requires
        unique_ids(entries),
        0 <= i < entries.len(),
    ensures
        map_of(entries).contains_key(entries[i].0),
        map_of(entries)[entries[i].0] == entries[i].1,
    decreases entries.len(),
{
    if i < entries.len() - 1 {
        assert(unique_ids(entries.drop_last()));
        assert(entries.drop_last()[i] == entries[i]);
        lemma_map_of_at(entries.drop_last(), i);
        assert(entries.last().0 != entries[i].0);
    }
}

/// Appending a fresh entry inserts it into the derived map.
proof fn lemma_map_of_push(entries: Seq<(u32, NoteView)>, id: u32, nv: NoteView)
    ensures
        map_of(entries.push((id, nv))) == map_of(entries).insert(id, nv),
{
    assert(entries.push((id, nv)).drop_last() =~= entries);
    assert(entries.push((id, nv)).last() == (id, nv));
}

/// Removing the entry at index `i` removes its id from the derived map.
proof fn lemma_map_of_remove_at(entries: Seq<(u32, NoteView)>, i: int)
    requires
        unique_ids(entries),
        0 <= i < entries.len(),
    ensures
        map_of(entries.remove(i)) == map_of(entries).remove(entries[i].0),
    decreases entries.len(),
{
    let id = entries[i].0;
    let rest = entries.remove(i);
    entries.remove_ensures(i);
    if i == entries.len() - 1 {
        assert(rest =~= entries.drop_last());
        assert(forall|m: int| 0 <= m < rest.len() ==> rest[m].0 != id);
        assert forall|x: u32| map_of(rest).contains_key(x) implies x != id by {
            lemma_map_of_dom(rest, x);
        }
        lemma_map_of_dom(rest, id);
        assert(map_of(entries) == map_of(rest).insert(id, entries.last().1));
        assert(map_of(entries).remove(id) =~= map_of(rest));
    } else {
        let dl = entries.drop_last();
        assert(unique_ids(dl));
        assert(rest.drop_last() =~= dl.remove(i));
        assert(rest.last() == entries.last());
        lemma_map_of_remove_at(dl, i);
        assert(dl[i] == entries[i]);
        assert(map_of(rest) == map_of(dl).remove(id).insert(entries.last().0, entries.last().1));
        assert(entries.last().0 != id);
        assert(map_of(dl).remove(id).insert(entries.last().0, entries.last().1) =~= map_of(
            dl,
        ).insert(entries.last().0, entries.last().1).remove(id));
    }
}

/// Removing an entry keeps the remaining ids unique, and with unique ids
/// the removed id is gone entirely.
proof fn lemma_unique_remove(entries: Seq<(u32, NoteView)>, i: int)
    requires
        unique_ids(entries),
        0 <= i < entries.len(),
    ensures
        unique_ids(entries.remove(i)),
        forall|m: int| 0 <= m < entries.remove(i).len() ==> entries.remove(i)[m].0 != entries[i].0,
{
    entries.remove_ensures(i);
}

/// The priority order is a strict total order on the ids of a directory,
/// so a sorted duplicate-free sequence over a given key set is unique:
/// two sequences that both hold exactly the ids of `entries` in priority
/// order are the same sequence.
pub proof fn lemma_sorted_ids_unique(entries: Seq<(u32, NoteView)>, p1: Seq<u32>, p2: Seq<u32>)
    requires
        p1.to_set() == p2.to_set(),
        p1.no_duplicates(),
        p2.no_duplicates(),
        forall|i: int, j: int| 0 <= i < j < p1.len() ==> prio_before(entries, p1[i], p1[j]),
        forall|i: int, j: int| 0 <= i < j < p2.len() ==> prio_before(entries, p2[i], p2[j]),
    ensures
        p1 == p2,
    decreases p1.len(),
{
    if p1.len() == 0 {
        if p2.len() > 0 {
            assert(p2.to_set().contains(p2[0]));
            assert(p1.contains(p2[0]));
        }
        assert(p1 =~= p2);
    } else {
        assert(p1.to_set().contains(p1[0]));
        assert(p2.contains(p1[0]));
        let m = choose|m: int| 0 <= m < p2.len() && p2[m] == p1[0];
        assert(p2.to_set().contains(p2[0]));
        assert(p1.contains(p2[0]));
        let m1 = choose|m1: int| 0 <= m1 < p1.len() && p1[m1] == p2[0];
        if p1[0] != p2[0] {
            assert(m > 0 && m1 > 0);
            assert(prio_before(entries, p2[0], p2[m]));
            assert(prio_before(entries, p1[0], p1[m1]));
            assert(false);
        }
        let d1 = p1.drop_first();
        let d2 = p2.drop_first();
        assert(d1.to_set() =~= p1.to_set().remove(p1[0])) by {
            assert forall|x: u32| d1.contains(x) implies p1.contains(x) && x != p1[0] by {
                let i = choose|i: int| 0 <= i < d1.len() && d1[i] == x;
                assert(p1[i + 1] == x);
            }
            assert forall|x: u32| p1.contains(x) && x != p1[0] implies d1.contains(x) by {
                let i = choose|i: int| 0 <= i < p1.len() && p1[i] == x;
                assert(d1[i - 1] == x);
            }
        }
        assert(d2.to_set() =~= p2.to_set().remove(p2[0])) by {
            assert forall|x: u32| d2.contains(x) implies p2.contains(x) && x != p2[0] by {
                let i = choose|i: int| 0 <= i < d2.len() && d2[i] == x;
                assert(p2[i + 1] == x);
            }
            assert forall|x: u32| p2.contains(x) && x != p2[0] implies d2.contains(x) by {
                let i = choose|i: int| 0 <= i < p2.len() && p2[i] == x;
                assert(d2[i - 1] == x);
            }
        }
        lemma_sorted_ids_unique(entries, d1, d2);
        assert forall|i: int| 0 <= i < p1.len() implies p1[i] == p2[i] by {
            if i > 0 {
                assert(p1[i] == d1[i - 1]);
                assert(p2[i] == d2[i - 1]);
            }
        }
        assert(p1.len() == d1.len() + 1);
        assert(p2.len() == d2.len() + 1);
        assert(p1 =~= p2);
    }
}

/// For any well-formed directory state, the priority sequence is *the*
/// key set sorted by urgency descending with ties broken by id ascending:
/// whatever sequence also holds exactly the keys in that order is the
/// stored one.
pub proof fn lemma_priority_is_sorted_keys(v: NotesView, q: Seq<u32>)
    requires
        v.priority_consistent(),
        q.to_set() == v.id_set(),
        q.no_duplicates(),
        forall|i: int, j: int| 0 <= i < j < q.len() ==> prio_before(v.notifications, q[i], q[j]),
    ensures
        q == v.priority,
{
    lemma_sorted_ids_unique(v.notifications, q, v.priority);
}

/// Copy an optional string.
fn clone_opt_string(o: &Option<String>) -> (r: Option<String>)
    ensures
        opt_string_view(r) == opt_string_view(*o),
{
    match o {
        None => None,
        Some(s) => Some(s.clone()),
    }
}

/// Copy a string vector.
fn clone_strings(v: &Vec<String>) -> (r: Vec<String>)
    ensures
        r.deep_view() == v.deep_view(),
{
    let mut r: Vec<String> = Vec::new();
    let mut k: usize = 0;
    while k < v.len()
        invariant
            k <= v@.len(),
            r@.len() == k,
            r.deep_view() =~= v.deep_view().take(k as int),
        decreases v@.len() - k,
    {
        let ghost pv = r@;
        let c = v[k].clone();
        r.push(c);
        proof {
            assert(pv.len() == k);
            assert(r@ == pv.push(c));
            assert forall|i: int| 0 <= i < k + 1 implies r.deep_view()[i] == v.deep_view().take(
                k + 1 as int,
            )[i] by {
                if i < k {
                    assert(r@[i] == pv[i]);
                } else {
                    assert(r@[i] == v@[k as int]);
                }
            }
            assert(r.deep_view() =~= v.deep_view().take(k + 1 as int));
        }
        k = k + 1;
    }
    proof {
        assert(v.deep_view().take(v@.len() as int) =~= v.deep_view());
    }
    r
}

/// Copy a hint record.
fn clone_hints(h: &Hints) -> (r: Hints)
    ensures
        r@ == h@,
{
    Hints {
        action_icons: h.action_icons,
        category: clone_opt_string(&h.category),
        desktop_entry: clone_opt_string(&h.desktop_entry),
        image_path: clone_opt_string(&h.image_path),
        resident: h.resident,
        transient: h.transient,
        urgency: h.urgency,
    }
}

/// Copy a notification record.
fn clone_notification(n: &Notification) -> (r: Notification)
    ensures
        r@ == n@,
{
    Notification {
        app_name: n.app_name.clone(),
        app_icon: n.app_icon.clone(),
        summary: n.summary.clone(),
        body: n.body.clone(),
        actions: clone_strings(&n.actions),
        hints: clone_hints(&n.hints),
    }
}

impl Notes {
    /// A fresh, empty directory. The allocator starts at 1; the first id it
    /// issues is 2, which is part of the observable wire behaviour (the
    /// published `last_id` starts at 1).
    pub fn new() -> (r: Notes)
        ensures
            r@.notifications.len() == 0,
            r@.priority.len() == 0,
            r@.last_id == 1,
            r@.wf(),
    {
        let r = Notes { notifications: Vec::new(), priority: Vec::new(), last_id: 1 };
        proof {
            assert(r@.priority.to_set() =~= r@.id_set());
        }
        r
    }

    /// Advance the allocator and hand out the new value. The result is
    /// never 0, and the allocator only ever increases.
    pub fn next_id(&mut self) -> (id: u32)
        requires
            old(self)@.last_id < u32::MAX,
            old(self)@.wf(),
        ensures
            final(self)@.last_id == old(self)@.last_id + 1,
            id == final(self)@.last_id,
            id != 0,
            final(self)@.notifications == old(self)@.notifications,
            final(self)@.priority == old(self)@.priority,
            final(self)@.wf(),
    {
        self.last_id = self.last_id + 1;
        self.last_id
    }

    /// The ordering rank of the record stored under `id`: its urgency hint,
    /// or the lowest level when the hint is absent or the id unknown.
    fn rank_of_id(&self, id: u32) -> (r: u8)
        ensures
            r == rank_of(self@.notifications, id),
    {
        let mut k: usize = 0;
        while k < self.notifications.len()
            invariant
                k <= self@.notifications.len(),
                forall|m: int| 0 <= m < k ==> self@.notifications[m].0 != id,
            decreases self@.notifications.len() - k,
        {
            if self.notifications[k].0 == id {
                proof {
                    lemma_lookup_first(self@.notifications, id, k as int);
                }
                return match self.notifications[k].1.hints.urgency {
                    Some(u) => u,
                    None => 0,
                };
            }
            k = k + 1;
        }
        proof {
            lemma_lookup_none(self@.notifications, id);
        }
        0
    }

    /// Does `a` come before `b` in the priority order?
    fn prio_lt(&self, a: u32, b: u32) -> (r: bool)
        ensures
            r == prio_before(self@.notifications, a, b),
    {
        let ra = self.rank_of_id(a);
        let rb = self.rank_of_id(b);
        ra > rb || (ra == rb && a < b)
    }

    /// The position at which `id` belongs in the sorted sequence `p`.
    fn insert_pos(&self, p: &Vec<u32>, id: u32) -> (j: usize)
        ensures
            j <= p@.len(),
            forall|m: int| 0 <= m < j ==> prio_before(self@.notifications, p@[m], id),
            j < p@.len() ==> !prio_before(self@.notifications, p@[j as int], id),
    {
        let mut j: usize = 0;
        while j < p.len()
            invariant
                j <= p@.len(),
                forall|m: int| 0 <= m < j ==> prio_before(self@.notifications, p@[m], id),
            decreases p@.len() - j,
        {
            if !self.prio_lt(p[j], id) {
                return j;
            }
            j = j + 1;
        }
        j
    }

    /// Recompute the priority sequence from the mapping: all present ids,
    /// sorted by urgency descending, ties broken by id ascending.
    pub fn update_urgency(&mut self)
        requires
            unique_ids(old(self)@.notifications),
        ensures
            final(self)@.notifications == old(self)@.notifications,
            final(self)@.last_id == old(self)@.last_id,
            final(self)@.priority_consistent(),
    {
        let ghost entries = self@.notifications;
        let mut p: Vec<u32> = Vec::new();
        let mut k: usize = 0;
        while k < self.notifications.len()
            invariant
                self@.notifications == entries,
                self@.last_id == old(self)@.last_id,
                self@.priority == old(self)@.priority,
                self == old(self),
                unique_ids(entries),
                k <= entries.len(),
                forall|m: int|
                    0 <= m < k ==> p@.contains(#[trigger] entries[m].0),
                forall|mi: int|
                    0 <= mi < p@.len() ==> exists|m: int|
                        0 <= m < k && entries[m].0 == #[trigger] p@[mi],
                p@.no_duplicates(),
                forall|i: int, j: int|
                    0 <= i < j < p@.len() ==> prio_before(entries, p@[i], p@[j]),
            decreases entries.len() - k,
        {
            let id = self.notifications[k].0;
            let j = self.insert_pos(&p, id);
            let ghost oldp = p@;
            proof {
                // `id` is not yet in `p`: its entry index `k` is past every
                // processed index, and ids are unique.
                assert forall|m: int| 0 <= m < oldp.len() implies oldp[m] != id by {
                    if oldp[m] == id {
                        let m2 = choose|m2: int| 0 <= m2 < k && entries[m2].0 == oldp[m];
                        assert(entries[m2].0 == entries[k as int].0);
                    }
                }
                oldp.insert_ensures(j as int, id);
            }
            p.insert(j, id);
            proof {
                let newp = p@;
                if (j as int) < oldp.len() {
                    assert(!prio_before(entries, oldp[j as int], id));
                    assert(oldp[j as int] != id);
                    assert(prio_before(entries, id, oldp[j as int]));
                }
                assert forall|i: int, jj: int|
                    0 <= i < jj < newp.len() implies prio_before(entries, newp[i], newp[jj]) by {
                    if jj < j {
                        assert(newp[i] == oldp[i] && newp[jj] == oldp[jj]);
                    } else if i < j && jj == j {
                        assert(newp[i] == oldp[i]);
                    } else if i < j && jj > j {
                        assert(newp[i] == oldp[i] && newp[jj] == oldp[jj - 1]);
                        if jj - 1 > i {
                        }
                    } else if i == j {
                        assert(newp[jj] == oldp[jj - 1]);
                        assert(jj - 1 >= j);
                        if jj - 1 == j {
                            assert(prio_before(entries, id, oldp[j as int]));
                        } else {
                            assert(prio_before(entries, oldp[j as int], oldp[jj - 1]));
                            assert(prio_before(entries, id, oldp[jj - 1]));
                        }
                    } else {
                        assert(i > j);
                        assert(newp[i] == oldp[i - 1] && newp[jj] == oldp[jj - 1]);
                    }
                }
                assert(newp.no_duplicates()) by {
                    assert forall|i: int, jj: int|
                        0 <= i < newp.len() && 0 <= jj < newp.len() && i != jj implies newp[i]
                        != newp[jj] by {
                        let a = if i < j {
                            oldp[i]
                        } else if i == j {
                            id
                        } else {
                            oldp[i - 1]
                        };
                        assert(newp[i] == a);
                        let b = if jj < j {
                            oldp[jj]
                        } else if jj == j {
                            id
                        } else {
                            oldp[jj - 1]
                        };
                        assert(newp[jj] == b);
                    }
                }
                assert forall|m: int| 0 <= m < k + 1 implies newp.contains(
                    #[trigger] entries[m].0,
                ) by {
                    if m < k {
                        let mi = choose|mi: int| 0 <= mi < oldp.len() && oldp[mi] == entries[m].0;
                        if mi < j {
                            assert(newp[mi] == entries[m].0);
                        } else {
                            assert(newp[mi + 1] == entries[m].0);
                        }
                    } else {
                        assert(newp[j as int] == entries[m].0);
                    }
                }
                assert forall|mi: int| 0 <= mi < newp.len() implies exists|m: int|
                    0 <= m < k + 1 && entries[m].0 == #[trigger] newp[mi] by {
                    if mi < j {
                        assert(oldp.contains(newp[mi]));
                    } else if mi == j {
                        assert(entries[k as int].0 == newp[mi]);
                    } else {
                        assert(oldp.contains(newp[mi]));
                    }
                }
            }
            k = k + 1;
        }
        self.priority = p;
        proof {
            assert(self@.priority.to_set() =~= self@.id_set()) by {
                assert forall|id: u32| p@.to_set().contains(id) implies self@.id_set().contains(
                    id,
                ) by {
                    let mi = choose|mi: int| 0 <= mi < p@.len() && p@[mi] == id;
                    let m = choose|m: int| 0 <= m < entries.len() && entries[m].0 == p@[mi];
                    assert(ids_of(entries)[m] == id);
                }
                assert forall|id: u32| self@.id_set().contains(id) implies p@.to_set().contains(
                    id,
                ) by {
                    let m = choose|m: int| 0 <= m < ids_of(entries).len() && ids_of(entries)[m]
                        == id;
                    assert(entries[m].0 == id);
                }
            }
        }
    }

    /// The index of the entry stored under `id`, if any; always the first
    /// (and, with unique ids, the only) occurrence.
    fn find_index(&self, id: u32) -> (r: Option<usize>)
        ensures
            match r {
                Some(i) => i < self@.notifications.len() && self@.notifications[i as int].0 == id
                    && lookup(self@.notifications, id) == Some(self@.notifications[i as int].1),
                None => lookup(self@.notifications, id) is None,
            },
    {
        let mut k: usize = 0;
        while k < self.notifications.len()
            invariant
                k <= self@.notifications.len(),
                forall|m: int| 0 <= m < k ==> self@.notifications[m].0 != id,
            decreases self@.notifications.len() - k,
        {
            if self.notifications[k].0 == id {
                proof {
                    lemma_lookup_first(self@.notifications, id, k as int);
                }
                return Some(k);
            }
            k = k + 1;
        }
        proof {
            lemma_lookup_none(self@.notifications, id);
        }
        None
    }

    /// Remove the record stored under `id`, if any. Removing an absent id
    /// is a successful no-op that leaves the directory untouched; the
    /// priority sequence is recomputed only when a removal occurred.
    pub fn remove(&mut self, id: u32) -> (removed: bool)
        requires
            old(self)@.wf(),
        ensures
            final(self)@.wf(),
            removed == old(self)@.note_map().contains_key(id),
            final(self)@.note_map() == old(self)@.note_map().remove(id),
            final(self)@.last_id == old(self)@.last_id,
            !removed ==> *final(self) == *old(self),
    {
        let ghost vec0 = self.notifications@;
        let ghost entries = self@.notifications;
        match self.find_index(id) {
            Some(i) => {
                proof {
                    lemma_map_of_dom(entries, id);
                    lemma_map_of_remove_at(entries, i as int);
                    lemma_unique_remove(entries, i as int);
                }
                self.notifications.remove(i);
                proof {
                    lemma_entries_view_remove(vec0, i as int);
                    assert(self@.notifications == entries.remove(i as int));
                }
                self.update_urgency();
                true
            },
            None => {
                proof {
                    lemma_map_of_dom(entries, id);
                    lemma_lookup_some_iff(entries, id);
                    assert(old(self)@.note_map().remove(id) =~= old(self)@.note_map());
                }
                false
            },
        }
    }

    /// Handle `CloseNotification`: drop the record under `id`. An unknown
    /// id is not an error; the directory is then left unchanged.
    pub fn close_notification(&mut self, id: u32)
        requires
            old(self)@.wf(),
        ensures
            final(self)@.wf(),
            final(self)@.note_map() == old(self)@.note_map().remove(id),
            final(self)@.last_id == old(self)@.last_id,
            !old(self)@.note_map().contains_key(id) ==> *final(self) == *old(self),
    {
        let _ = self.remove(id);
    }

    /// Handle the `NotificationClosed` event: a peer-initiated close. The
    /// reason code does not influence the directory.
    pub fn notification_closed(&mut self, id: u32, _reason: u32)
        requires
            old(self)@.wf(),
        ensures
            final(self)@.wf(),
            final(self)@.note_map() == old(self)@.note_map().remove(id),
            final(self)@.last_id == old(self)@.last_id,
            !old(self)@.note_map().contains_key(id) ==> *final(self) == *old(self),
    {
        let _ = self.remove(id);
    }

    /// Handle `Notify`: insert or fully replace a record. A `replaces_id`
    /// of 0 asks for a fresh id from the allocator; any nonzero value is
    /// used as given, whether or not it is already present. Returns the
    /// effective id. The expiry timeout is accepted but has no effect:
    /// this directory does not expire notifications.
    pub fn notify(
        &mut self,
        app_name: String,
        replaces_id: u32,
        app_icon: String,
        summary: String,
        body: String,
        actions: Vec<String>,
        hints: Hints,
        _expire_timeout: i32,
    ) -> (id: u32)
        requires
            old(self)@.wf(),
            replaces_id == 0 ==> old(self)@.last_id < u32::MAX,
        ensures
            final(self)@.wf(),
            id != 0,
            replaces_id == 0 ==> id == old(self)@.last_id + 1,
            replaces_id != 0 ==> id == replaces_id,
            final(self)@.last_id == if replaces_id == 0 {
                old(self)@.last_id + 1
            } else {
                old(self)@.last_id as int
            },
            final(self)@.note_map() == old(self)@.note_map().insert(
                id,
                NoteView {
                    app_name: app_name@,
                    app_icon: app_icon@,
                    summary: summary@,
                    body: body@,
                    actions: actions.deep_view(),
                    hints: hints@,
                },
            ),
    {
        let mut id = replaces_id;
        if id == 0 {
            id = self.next_id();
        }
        let ghost nv = NoteView {
            app_name: app_name@,
            app_icon: app_icon@,
            summary: summary@,
            body: body@,
            actions: actions.deep_view(),
            hints: hints@,
        };
        let ghost vec0 = self.notifications@;
        let ghost entries = self@.notifications;
        match self.find_index(id) {
            Some(i) => {
                proof {
                    lemma_map_of_remove_at(entries, i as int);
                    lemma_unique_remove(entries, i as int);
                }
                self.notifications.remove(i);
                proof {
                    lemma_entries_view_remove(vec0, i as int);
                    assert(self@.notifications == entries.remove(i as int));
                    assert(map_of(self@.notifications) == map_of(entries).remove(id));
                }
            },
            None => {
                proof {
                    lemma_lookup_some_iff(entries, id);
                    lemma_map_of_dom(entries, id);
                }
            },
        }
        let ghost vec2 = self.notifications@;
        let ghost entries2 = self@.notifications;
        proof {
            assert forall|m: int| 0 <= m < entries2.len() implies entries2[m].0 != id by {
                if lookup(entries, id) is None && entries2[m].0 == id {
                    assert(exists|i: int| 0 <= i < entries.len() && entries[i].0 == id);
                }
            }
            lemma_map_of_push(entries2, id, nv);
            if lookup(entries, id) is Some {
                assert(map_of(entries).remove(id).insert(id, nv) =~= map_of(entries).insert(
                    id,
                    nv,
                ));
            } else {
                assert(map_of(entries2) == map_of(entries));
            }
        }
        let note = Notification { app_name, app_icon, summary, body, actions, hints };
        self.notifications.push((id, note));
        proof {
            lemma_entries_view_push(vec2, (id, note));
            assert(self@.notifications == entries2.push((id, nv)));
            assert(unique_ids(self@.notifications)) by {
                assert(forall|m: int|
                    0 <= m < entries2.len() ==> #[trigger] entries2.push((id, nv))[m]
                        == entries2[m]);
            }
        }
        self.update_urgency();
        id
    }

    /// An immutable, consistent copy of the whole directory state,
    /// suitable for serialization: the mapping, the priority sequence and
    /// the allocator value as they stand at one moment.
    pub fn snapshot(&self) -> (r: Notes)
        ensures
            r@ == self@,
    {
        let mut notifications: Vec<(u32, Notification)> = Vec::new();
        let mut k: usize = 0;
        while k < self.notifications.len()
            invariant
                k <= self@.notifications.len(),
                notifications@.len() == k,
                entries_view(notifications@) =~= self@.notifications.take(k as int),
            decreases self@.notifications.len() - k,
        {
            let ghost pv = notifications@;
            let e = &self.notifications[k];
            let copy = (e.0, clone_notification(&e.1));
            let ghost cv = entry_view(copy);
            notifications.push(copy);
            proof {
                assert(cv == self@.notifications[k as int]);
                assert forall|i: int| 0 <= i < k + 1 implies entries_view(notifications@)[i]
                    == self@.notifications.take(k + 1 as int)[i] by {
                    if i < k {
                        assert(notifications@[i] == pv[i]);
                    } else {
                        assert(notifications@[i] == copy);
                    }
                }
                assert(entries_view(notifications@) =~= self@.notifications.take(k + 1 as int));
            }
            k = k + 1;
        }
        let mut priority: Vec<u32> = Vec::new();
        let mut m: usize = 0;
        while m < self.priority.len()
            invariant
                m <= self@.priority.len(),
                priority@ =~= self@.priority.take(m as int),
            decreases self@.priority.len() - m,
        {
            priority.push(self.priority[m]);
            proof {
                assert(priority@ =~= self@.priority.take(m + 1 as int));
            }
            m = m + 1;
        }
        let r = Notes { notifications, priority, last_id: self.last_id };
        proof {
            assert(self@.notifications.take(self@.notifications.len() as int)
                =~= self@.notifications);
            assert(self@.priority.take(self@.priority.len() as int) =~= self@.priority);
        }
        r
    }

    /// Handle `GetCapabilities`: the fixed capability set. Only body text
    /// display is advertised; other optional capabilities are deliberately
    /// left out until they are implemented.
    pub fn get_capabilities(&self) -> (caps: Vec<String>)
        ensures
            caps@.len() == 1,
            caps@[0]@ == "body"@,
    {
        let mut caps: Vec<String> = Vec::new();
        caps.push("body".to_owned());
        caps
    }

    /// Handle `GetServerInformation`: the fixed identity tuple of this
    /// server, as (name, vendor, version, specification version).
    pub fn get_server_information(&self) -> (info: (&'static str, &'static str, &'static str, &'static str))
        ensures
            info.0@ == "dnote"@,
            info.1@ == "kgb33"@,
            info.2@ == "v0.0.0"@,
            info.3@ == "1.2"@,
    {
        ("dnote", "kgb33", "v0.0.0", "1.2")
    }
}

} // verus!
