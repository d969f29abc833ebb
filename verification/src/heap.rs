//! The state of a pool of managers and diagram handles, as mathematics.
//!
//! Every manager and every handle lives in a numbered slot; a slot is never
//! used twice, so a handle that has been released names nothing. The
//! operations of the lifecycle protocol are functions from one state to the
//! next, and `wf` is the invariant that all of them keep.

use vstd::prelude::*;
use crate::diagram::{is_diagram, width, Node, MAX_VARS};

verus! {

/// What a manager holds: the size of its universe, its reference count, the
/// nodes charged to it and its budget.
#[verifier::ext_equal]
pub struct ManagerState {
    pub num_vars: u16,
    pub rc: nat,
    pub nodes_total: nat,
    pub max_nodes_total: nat,
}

/// What a handle holds: its diagram, its reference count and the slot of the
/// manager that it was made from.
#[verifier::ext_equal]
pub struct HandleState {
    pub nodes: Seq<Node>,
    pub rc: nat,
    pub manager: int,
}

/// The slots of all managers and handles; `None` marks a slot whose object
/// has been destroyed.
#[verifier::ext_equal]
pub struct Heap {
    pub managers: Seq<Option<ManagerState>>,
    pub handles: Seq<Option<HandleState>>,
}

/// The nodes that one handle slot charges to manager `m`.
pub open spec fn charge(slot: Option<HandleState>, m: int) -> nat {
    match slot {
        Some(h) => if h.manager == m {
            h.nodes.len()
        } else {
            0
        },
        None => 0,
    }
}

/// 1 if the slot holds a handle of manager `m`, else 0.
pub open spec fn presence(slot: Option<HandleState>, m: int) -> nat {
    match slot {
        Some(h) => if h.manager == m {
            1
        } else {
            0
        },
        None => 0,
    }
}

/// The sum of the node counts of the live handles of manager `m`.
pub open spec fn charged_in(handles: Seq<Option<HandleState>>, m: int) -> nat
    decreases handles.len(),
{
    if handles.len() == 0 {
        0
    } else {
        charged_in(handles.drop_last(), m) + charge(handles.last(), m)
    }
}

/// The number of live handles of manager `m`.
pub open spec fn count_in(handles: Seq<Option<HandleState>>, m: int) -> nat
    decreases handles.len(),
{
    if handles.len() == 0 {
        0
    } else {
        count_in(handles.drop_last(), m) + presence(handles.last(), m)
    }
}

impl Heap {
    /// The state with no manager and no handle.
    pub open spec fn empty() -> Heap {
        Heap { managers: Seq::empty(), handles: Seq::empty() }
    }

    /// Slot `m` holds a manager.
    pub open spec fn live_manager(self, m: int) -> bool {
        0 <= m < self.managers.len() && self.managers[m] is Some
    }

    /// Slot `h` holds a handle.
    pub open spec fn live_handle(self, h: int) -> bool {
        0 <= h < self.handles.len() && self.handles[h] is Some
    }

    /// The manager in slot `m`.
    pub open spec fn manager(self, m: int) -> ManagerState
        recommends
            self.live_manager(m),
    {
        self.managers[m]->0
    }

    /// The handle in slot `h`.
    pub open spec fn handle(self, h: int) -> HandleState
        recommends
            self.live_handle(h),
    {
        self.handles[h]->0
    }

    /// The sum of the node counts of the live handles of manager `m`.
    pub open spec fn charged(self, m: int) -> nat {
        charged_in(self.handles, m)
    }

    /// The number of live handles of manager `m`.
    pub open spec fn handle_count(self, m: int) -> nat {
        count_in(self.handles, m)
    }

    /// The references to manager `m` that its handles do not account for:
    /// those that callers hold.
    pub open spec fn outside_refs(self, m: int) -> int {
        self.manager(m).rc - self.handle_count(m)
    }

    /// Manager `m` is consistent: it counts at least one reference and one
    /// for each of its handles, and it is charged exactly the nodes of its
    /// live handles, within its budget.
    pub open spec fn manager_ok(self, m: int) -> bool {
        let s = self.manager(m);
        &&& s.num_vars <= MAX_VARS
        &&& s.rc >= 1
        &&& s.rc >= self.handle_count(m)
        &&& s.nodes_total == self.charged(m)
        &&& s.nodes_total <= s.max_nodes_total
    }

    /// Handle `h` is consistent: it counts at least one reference, its
    /// manager is alive, and it holds a diagram of its manager's universe.
    pub open spec fn handle_ok(self, h: int) -> bool {
        let x = self.handle(h);
        &&& x.rc >= 1
        &&& self.live_manager(x.manager)
        &&& is_diagram(x.nodes)
        &&& width(x.nodes) == self.manager(x.manager).num_vars
    }

    /// The invariant of the pool.
    pub open spec fn wf(self) -> bool {
        &&& forall|m: int| self.live_manager(m) ==> #[trigger] self.manager_ok(m)
        &&& forall|h: int| self.live_handle(h) ==> #[trigger] self.handle_ok(h)
    }

    /// The slot that the next manager gets.
    pub open spec fn next_manager(self) -> int {
        self.managers.len() as int
    }

    /// The slot that the next handle gets.
    pub open spec fn next_handle(self) -> int {
        self.handles.len() as int
    }

    /// A new manager: one reference, nothing charged.
    pub open spec fn with_manager(self, num_vars: u16, max_nodes_total: nat) -> Heap {
        Heap {
            managers: self.managers.push(
                Some(ManagerState { num_vars, rc: 1, nodes_total: 0, max_nodes_total }),
            ),
            handles: self.handles,
        }
    }

    /// One more reference to manager `m`.
    pub open spec fn ref_manager(self, m: int) -> Heap {
        let s = self.manager(m);
        Heap {
            managers: self.managers.update(m, Some(ManagerState { rc: s.rc + 1, ..s })),
            handles: self.handles,
        }
    }

    /// One reference to manager `m` fewer; the manager is destroyed with its
    /// last reference.
    pub open spec fn unref_manager(self, m: int) -> Heap {
        let s = self.manager(m);
        Heap {
            managers: self.managers.update(
                m,
                if s.rc == 1 {
                    None
                } else {
                    Some(ManagerState { rc: (s.rc - 1) as nat, ..s })
                },
            ),
            handles: self.handles,
        }
    }

    /// A new handle for `nodes`, made from manager `m`: the manager gains a
    /// reference and is charged the diagram's node count.
    pub open spec fn register(self, nodes: Seq<Node>, m: int) -> Heap {
        let s = self.manager(m);
        Heap {
            managers: self.managers.update(
                m,
                Some(ManagerState { rc: s.rc + 1, nodes_total: s.nodes_total + nodes.len(), ..s }),
            ),
            handles: self.handles.push(Some(HandleState { nodes, rc: 1, manager: m })),
        }
    }

    /// One more reference to handle `h`.
    pub open spec fn ref_handle(self, h: int) -> Heap {
        let x = self.handle(h);
        Heap {
            managers: self.managers,
            handles: self.handles.update(h, Some(HandleState { rc: x.rc + 1, ..x })),
        }
    }

    /// Handle `h` destroyed: its nodes are no longer charged to its manager.
    /// The reference that it held on the manager is still counted.
    pub open spec fn discharge(self, h: int) -> Heap {
        let x = self.handle(h);
        let s = self.manager(x.manager);
        Heap {
            managers: self.managers.update(
                x.manager,
                Some(ManagerState { nodes_total: (s.nodes_total - x.nodes.len()) as nat, ..s }),
            ),
            handles: self.handles.update(h, None),
        }
    }

    /// One reference to handle `h` fewer. With its last reference the handle
    /// is destroyed, its nodes are no longer charged, and the reference that
    /// it held on its manager is released.
    pub open spec fn unref_handle(self, h: int) -> Heap {
        let x = self.handle(h);
        if x.rc == 1 {
            self.discharge(h).unref_manager(x.manager)
        } else {
            Heap {
                managers: self.managers,
                handles: self.handles.update(h, Some(HandleState { rc: (x.rc - 1) as nat, ..x })),
            }
        }
    }
}

/// Appending a slot adds what that slot charges and counts.
pub proof fn lemma_sums_push(handles: Seq<Option<HandleState>>, slot: Option<HandleState>, m: int)
    ensures
        charged_in(handles.push(slot), m) == charged_in(handles, m) + charge(slot, m),
        count_in(handles.push(slot), m) == count_in(handles, m) + presence(slot, m),
{
    assert(handles.push(slot).drop_last() =~= handles);
}

/// Replacing a slot exchanges what the old content charged and counted for
/// what the new content does.
pub proof fn lemma_sums_update(
    handles: Seq<Option<HandleState>>,
    i: int,
    slot: Option<HandleState>,
    m: int,
)
    requires
        0 <= i < handles.len(),
    ensures
        charged_in(handles.update(i, slot), m) + charge(handles[i], m) == charged_in(handles, m)
            + charge(slot, m),
        count_in(handles.update(i, slot), m) + presence(handles[i], m) == count_in(handles, m)
            + presence(slot, m),
    decreases handles.len(),
{
    let updated = handles.update(i, slot);
    if i == handles.len() - 1 {
        assert(updated.drop_last() =~= handles.drop_last());
    } else {
        assert(updated.drop_last() =~= handles.drop_last().update(i, slot));
        lemma_sums_update(handles.drop_last(), i, slot, m);
    }
}

/// A manager has no live handle exactly when its handle count is 0, and then
/// nothing is charged to it.
pub proof fn lemma_no_handles(handles: Seq<Option<HandleState>>, m: int)
    ensures
        count_in(handles, m) == 0 <==> (forall|h: int|
            0 <= h < handles.len() && handles[h] is Some ==> (#[trigger] handles[h])->0.manager
                != m),
        count_in(handles, m) == 0 ==> charged_in(handles, m) == 0,
    decreases handles.len(),
{
    if handles.len() > 0 {
        let front = handles.drop_last();
        lemma_no_handles(front, m);
        if count_in(handles, m) == 0 {
            assert forall|h: int| 0 <= h < handles.len() && handles[h] is Some implies (
            #[trigger] handles[h])->0.manager != m by {
                if h < front.len() {
                    assert(front[h] == handles[h]);
                }
            }
        }
        if forall|h: int|
            0 <= h < handles.len() && handles[h] is Some ==> (#[trigger] handles[h])->0.manager
                != m {
            assert forall|h: int| 0 <= h < front.len() && front[h] is Some implies (
            #[trigger] front[h])->0.manager != m by {}
        }
    }
}

impl Heap {
    /// The empty pool is consistent.
    pub proof fn lemma_empty_wf()
        ensures
            Heap::empty().wf(),
    {
    }

    /// A new manager keeps the pool consistent; it has no handles yet.
    pub proof fn lemma_with_manager_wf(self, num_vars: u16, max_nodes_total: nat)
        requires
            self.wf(),
            num_vars <= MAX_VARS,
        ensures
            self.with_manager(num_vars, max_nodes_total).wf(),
            self.with_manager(num_vars, max_nodes_total).handle_count(self.next_manager()) == 0,
    {
        let next = self.with_manager(num_vars, max_nodes_total);
        let m = self.next_manager();
        assert forall|h: int| next.live_handle(h) implies #[trigger] next.handle_ok(h) by {
            assert(self.handle_ok(h));
        }
        assert forall|h: int|
            0 <= h < self.handles.len() && self.handles[h] is Some implies (
        #[trigger] self.handles[h])->0.manager != m by {
            assert(self.handle_ok(h));
        }
        lemma_no_handles(self.handles, m);
        assert forall|m2: int| next.live_manager(m2) implies #[trigger] next.manager_ok(m2) by {
            if m2 != m {
                assert(self.manager_ok(m2));
            }
        }
    }

    /// One more reference to a live manager keeps the pool consistent.
    pub proof fn lemma_ref_manager_wf(self, m: int)
        requires
            self.wf(),
            self.live_manager(m),
        ensures
            self.ref_manager(m).wf(),
    {
        let next = self.ref_manager(m);
        assert forall|h: int| next.live_handle(h) implies #[trigger] next.handle_ok(h) by {
            assert(self.handle_ok(h));
        }
        assert forall|m2: int| next.live_manager(m2) implies #[trigger] next.manager_ok(m2) by {
            assert(self.manager_ok(m2));
        }
    }

    /// Releasing a reference that a caller holds keeps the pool consistent:
    /// if the manager is destroyed, no handle of it is left.
    pub proof fn lemma_unref_manager_wf(self, m: int)
        requires
            self.wf(),
            self.live_manager(m),
            self.outside_refs(m) >= 1,
        ensures
            self.unref_manager(m).wf(),
    {
        let next = self.unref_manager(m);
        lemma_no_handles(self.handles, m);
        assert forall|h: int| next.live_handle(h) implies #[trigger] next.handle_ok(h) by {
            assert(self.handle_ok(h));
        }
        assert forall|m2: int| next.live_manager(m2) implies #[trigger] next.manager_ok(m2) by {
            assert(self.manager_ok(m2));
        }
    }

    /// Registering a diagram of the manager's universe that fits its budget
    /// keeps the pool consistent.
    pub proof fn lemma_register_wf(self, nodes: Seq<Node>, m: int)
        requires
            self.wf(),
            self.live_manager(m),
            is_diagram(nodes),
            width(nodes) == self.manager(m).num_vars,
            self.manager(m).nodes_total + nodes.len() <= self.manager(m).max_nodes_total,
        ensures
            self.register(nodes, m).wf(),
    {
        let next = self.register(nodes, m);
        let slot = Some(HandleState { nodes, rc: 1, manager: m });
        assert forall|h: int| next.live_handle(h) implies #[trigger] next.handle_ok(h) by {
            if h < self.handles.len() {
                assert(self.handle_ok(h));
            }
        }
        assert forall|m2: int| next.live_manager(m2) implies #[trigger] next.manager_ok(m2) by {
            assert(self.manager_ok(m2));
            lemma_sums_push(self.handles, slot, m2);
        }
    }

    /// One more reference to a live handle keeps the pool consistent.
    pub proof fn lemma_ref_handle_wf(self, h: int)
        requires
            self.wf(),
            self.live_handle(h),
        ensures
            self.ref_handle(h).wf(),
    {
        let next = self.ref_handle(h);
        let x = self.handle(h);
        let slot = Some(HandleState { rc: x.rc + 1, ..x });
        assert forall|h2: int| next.live_handle(h2) implies #[trigger] next.handle_ok(h2) by {
            assert(self.handle_ok(h2));
        }
        assert forall|m2: int| next.live_manager(m2) implies #[trigger] next.manager_ok(m2) by {
            assert(self.manager_ok(m2));
            lemma_sums_update(self.handles, h, slot, m2);
        }
    }

    /// Destroying a handle keeps the pool consistent, and leaves the reference
    /// that the handle held on its manager to be released.
    pub proof fn lemma_discharge_wf(self, h: int)
        requires
            self.wf(),
            self.live_handle(h),
        ensures
            self.discharge(h).wf(),
            self.discharge(h).live_manager(self.handle(h).manager),
            self.discharge(h).outside_refs(self.handle(h).manager) >= 1,
            self.handle(h).nodes.len() <= self.manager(self.handle(h).manager).nodes_total,
    {
        let next = self.discharge(h);
        let x = self.handle(h);
        assert(self.handle_ok(h));
        assert(self.manager_ok(x.manager));
        lemma_sums_update(self.handles, h, None, x.manager);
        assert forall|h2: int| next.live_handle(h2) implies #[trigger] next.handle_ok(h2) by {
            assert(self.handle_ok(h2));
        }
        assert forall|m2: int| next.live_manager(m2) implies #[trigger] next.manager_ok(m2) by {
            assert(self.manager_ok(m2));
            lemma_sums_update(self.handles, h, None, m2);
        }
    }

    /// Releasing a reference to a live handle keeps the pool consistent.
    pub proof fn lemma_unref_handle_wf(self, h: int)
        requires
            self.wf(),
            self.live_handle(h),
        ensures
            self.unref_handle(h).wf(),
    {
        let x = self.handle(h);
        if x.rc == 1 {
            self.lemma_discharge_wf(h);
            self.discharge(h).lemma_unref_manager_wf(x.manager);
        } else {
            let next = self.unref_handle(h);
            let slot = Some(HandleState { rc: (x.rc - 1) as nat, ..x });
            assert forall|h2: int| next.live_handle(h2) implies #[trigger] next.handle_ok(h2) by {
                assert(self.handle_ok(h2));
            }
            assert forall|m2: int| next.live_manager(m2) implies #[trigger] next.manager_ok(m2) by {
                assert(self.manager_ok(m2));
                lemma_sums_update(self.handles, h, slot, m2);
            }
        }
    }
}

} // verus!
