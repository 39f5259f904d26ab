//! An internal, standardized representation of a window manager's
//! workspaces: the set of existing workspace ids and the focused one,
//! driven by create, destroy and focus events.

use vstd::prelude::*;

use crate::chars::eq_chars;
use crate::chars::str_to_chars;

verus! {

/// The workspace tracker: the focused workspace and the sorted set of
/// existing workspace ids.
pub struct WorkspaceState {
    pub active_workspace: i64,
    pub workspaces: Vec<i64>,
}

/// One standardized window-manager event.
pub enum WorkspaceChange {
    Destroy(i64),
    Create(i64),
    Focus(i64),
}

impl WorkspaceState {
    /// The set of existing workspace ids.
    pub open spec fn ws_set(self) -> Set<i64> {
        self.workspaces@.to_set()
    }

    /// Invariant: the id vector is strictly ascending, so each id occurs
    /// once.
    pub open spec fn wf(self) -> bool {
        forall|i: int, j: int|
            0 <= i < j < self.workspaces@.len() ==> self.workspaces@[i] < self.workspaces@[j]
    }

    /// A fresh tracker: no workspaces, workspace 0 marked active.
    pub fn new() -> (r: WorkspaceState)
        ensures
            r.active_workspace == 0,
            r.ws_set() == Set::<i64>::empty(),
            r.workspaces@.len() == 0,
            r.wf(),
    {
        let r = WorkspaceState { active_workspace: 0, workspaces: Vec::new() };
        proof {
            assert(r.ws_set() =~= Set::<i64>::empty());
        }
        r
    }

    /// The position at which `id` stands or belongs in the sorted vector.
    fn position_of(&self, id: i64) -> (j: usize)
        ensures
            j <= self.workspaces@.len(),
            forall|m: int| 0 <= m < j ==> self.workspaces@[m] < id,
            j < self.workspaces@.len() ==> self.workspaces@[j as int] >= id,
    {
        let mut j: usize = 0;
        while j < self.workspaces.len()
            invariant
                j <= self.workspaces@.len(),
                forall|m: int| 0 <= m < j ==> self.workspaces@[m] < id,
            decreases self.workspaces@.len() - j,
        {
            if self.workspaces[j] >= id {
                return j;
            }
            j = j + 1;
        }
        j
    }

    /// Add `id` to the set; yields whether it was new.
    fn insert_ws(&mut self, id: i64) -> (added: bool)
        requires
            old(self).wf(),
        ensures
            final(self).wf(),
            final(self).ws_set() == old(self).ws_set().insert(id),
            added == !old(self).ws_set().contains(id),
            final(self).active_workspace == old(self).active_workspace,
    {
        let ghost w = self.workspaces@;
        let j = self.position_of(id);
        if j < self.workspaces.len() && self.workspaces[j] == id {
            proof {
                assert(old(self).ws_set().contains(id));
                assert(old(self).ws_set().insert(id) =~= old(self).ws_set());
            }
            false
        } else {
            proof {
                assert forall|m: int| 0 <= m < w.len() implies w[m] != id by {
                    if m < j {
                    } else if m == j {
                    } else {
                        assert(w[j as int] < w[m]);
                    }
                }
                assert(!old(self).ws_set().contains(id));
                w.insert_ensures(j as int, id);
            }
            self.workspaces.insert(j, id);
            proof {
                let nw = self.workspaces@;
                assert forall|i: int, jj: int|
                    0 <= i < jj < nw.len() implies nw[i] < nw[jj] by {
                    let a = if i < j {
                        w[i]
                    } else if i == j {
                        id
                    } else {
                        w[i - 1]
                    };
                    assert(nw[i] == a);
                    let b = if jj < j {
                        w[jj]
                    } else if jj == j {
                        id
                    } else {
                        w[jj - 1]
                    };
                    assert(nw[jj] == b);
                    if i < j && jj == j {
                    } else if i == j && jj > j {
                        assert(w[jj - 1] >= id && w[jj - 1] != id);
                    } else if i < j && jj > j {
                        assert(w[i] < id);
                        assert(w[jj - 1] >= id && w[jj - 1] != id);
                    }
                }
                assert(self.ws_set() =~= old(self).ws_set().insert(id)) by {
                    assert forall|x: i64| self.ws_set().contains(x) implies old(
                        self,
                    ).ws_set().insert(id).contains(x) by {
                        let i = choose|i: int| 0 <= i < nw.len() && nw[i] == x;
                        if i < j {
                            assert(w[i] == x);
                        } else if i > j {
                            assert(w[i - 1] == x);
                        }
                    }
                    assert forall|x: i64| old(self).ws_set().insert(id).contains(x) implies self
                        .ws_set().contains(x) by {
                        if x == id {
                            assert(nw[j as int] == id);
                        } else {
                            let i = choose|i: int| 0 <= i < w.len() && w[i] == x;
                            if i < j {
                                assert(nw[i] == x);
                            } else {
                                assert(nw[i + 1] == x);
                            }
                        }
                    }
                }
            }
            true
        }
    }

    /// Drop `id` from the set; yields whether it was there.
    fn remove_ws(&mut self, id: i64) -> (removed: bool)
        requires
            old(self).wf(),
        ensures
            final(self).wf(),
            final(self).ws_set() == old(self).ws_set().remove(id),
            removed == old(self).ws_set().contains(id),
            final(self).active_workspace == old(self).active_workspace,
    {
        let ghost w = self.workspaces@;
        let j = self.position_of(id);
        if j < self.workspaces.len() && self.workspaces[j] == id {
            proof {
                assert(old(self).ws_set().contains(id));
                w.remove_ensures(j as int);
            }
            self.workspaces.remove(j);
            proof {
                let nw = self.workspaces@;
                assert(self.ws_set() =~= old(self).ws_set().remove(id)) by {
                    assert forall|x: i64| self.ws_set().contains(x) implies old(
                        self,
                    ).ws_set().remove(id).contains(x) by {
                        let i = choose|i: int| 0 <= i < nw.len() && nw[i] == x;
                        if i < j {
                            assert(w[i] == x);
                            assert(w[i] < w[j as int]);
                        } else {
                            assert(w[i + 1] == x);
                            assert(w[j as int] < w[i + 1]);
                        }
                    }
                    assert forall|x: i64| old(self).ws_set().remove(id).contains(x) implies self
                        .ws_set().contains(x) by {
                        let i = choose|i: int| 0 <= i < w.len() && w[i] == x;
                        if i < j {
                            assert(nw[i] == x);
                        } else {
                            assert(i != j);
                            assert(nw[i - 1] == x);
                        }
                    }
                }
            }
            true
        } else {
            proof {
                assert forall|m: int| 0 <= m < w.len() implies w[m] != id by {
                    if m > j {
                        assert(w[j as int] < w[m]);
                    }
                }
                assert(!old(self).ws_set().contains(id));
                assert(old(self).ws_set().remove(id) =~= old(self).ws_set());
            }
            false
        }
    }

    /// Apply one event. `Create` adds the id and reports whether it was
    /// new; `Destroy` drops it and reports whether it was there; `Focus`
    /// marks it active, adds it if the tracker started after the
    /// workspace existed, and reports whether it was already known.
    pub fn update(&mut self, optcode: WorkspaceChange) -> (changed: bool)
        requires
            old(self).wf(),
        ensures
            final(self).wf(),
            match optcode {
                WorkspaceChange::Create(id) => {
                    &&& final(self).ws_set() == old(self).ws_set().insert(id)
                    &&& changed == !old(self).ws_set().contains(id)
                    &&& final(self).active_workspace == old(self).active_workspace
                },
                WorkspaceChange::Destroy(id) => {
                    &&& final(self).ws_set() == old(self).ws_set().remove(id)
                    &&& changed == old(self).ws_set().contains(id)
                    &&& final(self).active_workspace == old(self).active_workspace
                },
                WorkspaceChange::Focus(id) => {
                    &&& final(self).ws_set() == old(self).ws_set().insert(id)
                    &&& changed == old(self).ws_set().contains(id)
                    &&& final(self).active_workspace == id
                },
            },
    {
        match optcode {
            WorkspaceChange::Create(id) => self.insert_ws(id),
            WorkspaceChange::Destroy(id) => self.remove_ws(id),
            WorkspaceChange::Focus(id) => {
                self.active_workspace = id;
                !self.insert_ws(id)
            },
        }
    }
}

impl Default for WorkspaceState {
    /// The default tracker is the fresh one.
    fn default() -> (r: WorkspaceState)
        ensures
            r.active_workspace == 0,
            r.ws_set() == Set::<i64>::empty(),
            r.wf(),
    {
        WorkspaceState::new()
    }
}

/// The event name `workspace` (a focus change).
pub open spec fn op_focus() -> Seq<char> {
    seq!['w', 'o', 'r', 'k', 's', 'p', 'a', 'c', 'e']
}

/// The event name `createworkspace`.
pub open spec fn op_create() -> Seq<char> {
    seq!['c', 'r', 'e', 'a', 't', 'e', 'w', 'o', 'r', 'k', 's', 'p', 'a', 'c', 'e']
}

/// The event name `destroyworkspace`.
pub open spec fn op_destroy() -> Seq<char> {
    seq!['d', 'e', 's', 't', 'r', 'o', 'y', 'w', 'o', 'r', 'k', 's', 'p', 'a', 'c', 'e']
}

/// Map an event name and its workspace id to the standardized change.
/// Unrecognized event names carry no change.
pub fn parse_change(opcode: &str, id: i64) -> (r: Option<WorkspaceChange>)
    ensures
        r == (if opcode@ == op_focus() {
            Some(WorkspaceChange::Focus(id))
        } else if opcode@ == op_create() {
            Some(WorkspaceChange::Create(id))
        } else if opcode@ == op_destroy() {
            Some(WorkspaceChange::Destroy(id))
        } else {
            None::<WorkspaceChange>
        }),
{
    let oc = str_to_chars(opcode);
    let f = focus_name_v();
    if eq_chars(&oc, &f) {
        return Some(WorkspaceChange::Focus(id));
    }
    let c = create_name_v();
    if eq_chars(&oc, &c) {
        return Some(WorkspaceChange::Create(id));
    }
    let d = destroy_name_v();
    if eq_chars(&oc, &d) {
        return Some(WorkspaceChange::Destroy(id));
    }
    None
}

/// The event name `workspace` as a character vector.
fn focus_name_v() -> (t: Vec<char>)
    ensures
        t@ == op_focus(),
{
    let t = vec!['w', 'o', 'r', 'k', 's', 'p', 'a', 'c', 'e'];
    proof {
        assert(t@ =~= op_focus());
    }
    t
}

/// The event name `createworkspace` as a character vector.
fn create_name_v() -> (t: Vec<char>)
    ensures
        t@ == op_create(),
{
    let t = vec!['c', 'r', 'e', 'a', 't', 'e', 'w', 'o', 'r', 'k', 's', 'p', 'a', 'c', 'e'];
    proof {
        assert(t@ =~= op_create());
    }
    t
}

/// The event name `destroyworkspace` as a character vector.
fn destroy_name_v() -> (t: Vec<char>)
    ensures
        t@ == op_destroy(),
{
    let t = vec!['d', 'e', 's', 't', 'r', 'o', 'y', 'w', 'o', 'r', 'k', 's', 'p', 'a', 'c', 'e'];
    proof {
        assert(t@ =~= op_destroy());
    }
    t
}

} // verus!
