//! The pool itself: managers and diagram handles in numbered slots, and the
//! operations of the lifecycle protocol on them.
//!
//! A `manager_t` or `bdd_t` is the number of a slot. The pool's state is its
//! view, a [`Heap`]; each operation is specified as one of the transitions
//! defined there.

use vstd::prelude::*;
use biodivine_lib_bdd::Bdd;
use biodivine_lib_bdd::BddVariableSet;
use crate::diagram::{is_diagram, width, MAX_VARS};
use crate::engine;
use crate::engine::{nodes_of, universe_size};
use crate::heap::{count_in, HandleState, Heap, ManagerState};

verus! {

/// A variable universe with its node budget, shared by the diagrams made from
/// it.
struct Manager {
    var_set: BddVariableSet,
    rc: usize,
    nodes_total: usize,
    max_nodes_total: usize,
}

impl Manager {
    spec fn state(&self) -> ManagerState {
        ManagerState {
            num_vars: universe_size(self.var_set),
            rc: self.rc as nat,
            nodes_total: self.nodes_total as nat,
            max_nodes_total: self.max_nodes_total as nat,
        }
    }

    fn new(var_set: BddVariableSet, max_nodes_total: usize) -> (manager: Manager)
        ensures
            manager.state() == (ManagerState {
                num_vars: universe_size(var_set),
                rc: 1,
                nodes_total: 0,
                max_nodes_total: max_nodes_total as nat,
            }),
    {
        Manager { var_set, rc: 1, nodes_total: 0, max_nodes_total }
    }
}

/// A diagram with its reference count and the slot of its manager.
struct RcBdd {
    bdd: Bdd,
    rc: usize,
    manager: usize,
}

impl RcBdd {
    spec fn state(&self) -> HandleState {
        HandleState { nodes: nodes_of(self.bdd), rc: self.rc as nat, manager: self.manager as int }
    }

    fn new(bdd: Bdd, manager: usize) -> (handle: RcBdd)
        ensures
            handle.state() == (HandleState {
                nodes: nodes_of(bdd),
                rc: 1,
                manager: manager as int,
            }),
    {
        RcBdd { bdd, rc: 1, manager }
    }
}

/// A handle to a manager.
#[derive(Clone, Copy, PartialEq, Eq, Structural, Debug)]
pub struct manager_t {
    slot: usize,
}

impl View for manager_t {
    type V = int;

    closed spec fn view(&self) -> int {
        self.slot as int
    }
}

impl manager_t {
    /// The handle that names slot `slot`.
    pub fn from_slot(slot: usize) -> (manager: manager_t)
        ensures
            manager@ == slot,
    {
        manager_t { slot }
    }

    /// The slot that the handle names.
    pub fn slot(self) -> (slot: usize)
        ensures
            slot == self@,
    {
        self.slot
    }
}

/// A handle to a diagram.
#[derive(Clone, Copy, PartialEq, Eq, Structural, Debug)]
pub struct bdd_t {
    slot: usize,
}

impl View for bdd_t {
    type V = int;

    closed spec fn view(&self) -> int {
        self.slot as int
    }
}

impl bdd_t {
    /// The handle that names slot `slot`.
    pub fn from_slot(slot: usize) -> (f: bdd_t)
        ensures
            f@ == slot,
    {
        bdd_t { slot }
    }

    /// The slot that the handle names.
    pub fn slot(self) -> (slot: usize)
        ensures
            slot == self@,
    {
        self.slot
    }
}

/// Why no diagram was handed out.
#[derive(Clone, Copy, PartialEq, Eq, Structural, Debug)]
pub enum BddError {
    /// The manager's budget does not hold the new diagram: `nodes_total`
    /// nodes were charged already and `added` more would come.
    TooManyNodes { nodes_total: usize, added: usize, max_nodes_total: usize },
    /// The operands were made from different managers.
    ManagerMismatch,
    /// The renaming would not leave the nodes in the order of their
    /// variables, or names something that is no variable of the universe.
    InvalidRename,
}

/// The pool of managers and diagram handles.
pub struct Store {
    managers: Vec<Option<Manager>>,
    bdds: Vec<Option<RcBdd>>,
}

spec fn manager_slot(slot: Option<Manager>) -> Option<ManagerState> {
    match slot {
        Some(m) => Some(m.state()),
        None => None,
    }
}

spec fn handle_slot(slot: Option<RcBdd>) -> Option<HandleState> {
    match slot {
        Some(b) => Some(b.state()),
        None => None,
    }
}

impl View for Store {
    type V = Heap;

    closed spec fn view(&self) -> Heap {
        Heap {
            managers: Seq::new(self.managers@.len(), |i: int| manager_slot(self.managers@[i])),
            handles: Seq::new(self.bdds@.len(), |i: int| handle_slot(self.bdds@[i])),
        }
    }
}

impl Store {
    /// A pool with no manager and no handle.
    pub fn new() -> (store: Store)
        ensures
            store@ == Heap::empty(),
            store@.wf(),
    {
        let store = Store { managers: Vec::new(), bdds: Vec::new() };
        store
    }
}

/// Creates a manager for a universe of `num_vars` variables with a budget of
/// `max_nodes_total` nodes. It starts with one reference and nothing charged.
pub fn manager_new(store: &mut Store, num_vars: u16, max_nodes_total: usize) -> (manager: manager_t)
    requires
        old(store)@.wf(),
        num_vars <= MAX_VARS,
    ensures
        manager@ == old(store)@.next_manager(),
        final(store)@ == old(store)@.with_manager(num_vars, max_nodes_total as nat),
        final(store)@.manager(manager@).nodes_total == 0,
        final(store)@.outside_refs(manager@) == 1,
        final(store)@.wf(),
{
    let var_set = engine::new_universe(num_vars);
    let slot: usize = store.managers.len();
    store.managers.push(Some(Manager::new(var_set, max_nodes_total)));
    proof {
        old(store)@.lemma_with_manager_wf(num_vars, max_nodes_total as nat);
        assert(store@ =~~= old(store)@.with_manager(num_vars, max_nodes_total as nat));
    }
    manager_t { slot }
}

/// Takes one more reference to a manager and returns the same handle.
pub fn manager_ref(store: &mut Store, manager: manager_t) -> (same: manager_t)
    requires
        old(store)@.wf(),
        old(store)@.live_manager(manager@),
        old(store)@.manager(manager@).rc < usize::MAX,
    ensures
        same == manager,
        final(store)@ == old(store)@.ref_manager(manager@),
        final(store)@.wf(),
{
    match &mut store.managers[manager.slot] {
        Some(m) => {
            m.rc = m.rc + 1;
        },
        None => {},
    }
    proof {
        old(store)@.lemma_ref_manager_wf(manager@);
        assert(store@ =~~= old(store)@.ref_manager(manager@));
    }
    manager
}

/// Releases a reference that the caller holds on a manager. The manager is
/// destroyed with its last reference.
pub fn manager_unref(store: &mut Store, manager: manager_t)
    requires
        old(store)@.wf(),
        old(store)@.live_manager(manager@),
        old(store)@.outside_refs(manager@) >= 1,
    ensures
        final(store)@ == old(store)@.unref_manager(manager@),
        final(store)@.wf(),
{
    let mut destroy: bool = false;
    match &mut store.managers[manager.slot] {
        Some(m) => {
            if m.rc == 1 {
                destroy = true;
            } else {
                m.rc = m.rc - 1;
            }
        },
        None => {},
    }
    if destroy {
        store.managers[manager.slot] = None;
    }
    proof {
        old(store)@.lemma_unref_manager_wf(manager@);
        assert(store@ =~~= old(store)@.unref_manager(manager@));
    }
}

/// The number of nodes charged to a manager.
pub fn manager_node_count(store: &Store, manager: manager_t) -> (n: usize)
    requires
        store@.live_manager(manager@),
    ensures
        n == store@.manager(manager@).nodes_total,
{
    match &store.managers[manager.slot] {
        Some(m) => m.nodes_total,
        None => 0,
    }
}

impl Heap {
    /// The diagram `nodes` fits what is left of the budget of manager `m`.
    pub open spec fn fits(self, nodes: Seq<crate::diagram::Node>, m: int) -> bool {
        self.manager(m).nodes_total + nodes.len() <= self.manager(m).max_nodes_total
    }

    /// What comes of handing out a diagram made from manager `m`: a new
    /// handle where the diagram fits the budget, else the error that says by
    /// how much it does not.
    pub open spec fn admit_diagram(self, nodes: Seq<crate::diagram::Node>, m: int) -> Result<
        int,
        BddError,
    > {
        if self.fits(nodes, m) {
            Ok(self.next_handle())
        } else {
            Err(
                BddError::TooManyNodes {
                    nodes_total: self.manager(m).nodes_total as usize,
                    added: nodes.len() as usize,
                    max_nodes_total: self.manager(m).max_nodes_total as usize,
                },
            )
        }
    }

    /// Handles `f` and `g` were made from the same manager.
    pub open spec fn same_manager(self, f: int, g: int) -> bool {
        self.handle(f).manager == self.handle(g).manager
    }

    /// Handle `f` is alive and its manager can count one more reference.
    pub open spec fn can_derive(self, f: int) -> bool {
        self.live_handle(f) && self.manager(self.handle(f).manager).rc < usize::MAX
    }

    /// The pool after a diagram made from manager `m` was handed out or
    /// refused: refused, the pool is as before.
    pub open spec fn after_admit(self, nodes: Seq<crate::diagram::Node>, m: int) -> Heap {
        if self.fits(nodes, m) {
            self.register(nodes, m)
        } else {
            self
        }
    }
}

/// The handle in a result, as a slot number.
pub open spec fn slot_of(r: Result<bdd_t, BddError>) -> Result<int, BddError> {
    match r {
        Ok(h) => Ok(h@),
        Err(e) => Err(e),
    }
}

impl bdd_t {
    /// Wraps a diagram made from `manager` in a new handle with one
    /// reference. The manager gains a reference and is charged the diagram's
    /// node count; where that would exceed the budget the diagram is refused
    /// and the pool stays as it was.
    pub(crate) fn from_bdd(store: &mut Store, bdd: Bdd, manager: manager_t) -> (r: Result<
        bdd_t,
        BddError,
    >)
        requires
            old(store)@.wf(),
            old(store)@.live_manager(manager@),
            old(store)@.manager(manager@).rc < usize::MAX,
            is_diagram(nodes_of(bdd)),
            width(nodes_of(bdd)) == old(store)@.manager(manager@).num_vars,
        ensures
            slot_of(r) == old(store)@.admit_diagram(nodes_of(bdd), manager@),
            final(store)@ == old(store)@.after_admit(nodes_of(bdd), manager@),
            final(store)@.wf(),
    {
        proof {
            assert(old(store)@.manager_ok(manager@));
        }
        let size: usize = engine::size(&bdd);
        let mut refused: Option<BddError> = None;
        match &mut store.managers[manager.slot] {
            Some(m) => {
                if size > m.max_nodes_total - m.nodes_total {
                    refused =
                    Some(
                        BddError::TooManyNodes {
                            nodes_total: m.nodes_total,
                            added: size,
                            max_nodes_total: m.max_nodes_total,
                        },
                    );
                } else {
                    m.rc = m.rc + 1;
                    m.nodes_total = m.nodes_total + size;
                }
            },
            None => {},
        }
        match refused {
            Some(e) => {
                Err(e)
            },
            None => {
                let slot: usize = store.bdds.len();
                store.bdds.push(Some(RcBdd::new(bdd, manager.slot)));
                proof {
                    old(store)@.lemma_register_wf(nodes_of(bdd), manager@);
                }
                Ok(bdd_t { slot })
            },
        }
    }
}

/// Takes one more reference to a diagram handle and returns the same handle.
pub fn bdd_ref(store: &mut Store, f: bdd_t) -> (same: bdd_t)
    requires
        old(store)@.wf(),
        old(store)@.live_handle(f@),
        old(store)@.handle(f@).rc < usize::MAX,
    ensures
        same == f,
        final(store)@ == old(store)@.ref_handle(f@),
        final(store)@.wf(),
{
    match &mut store.bdds[f.slot] {
        Some(b) => {
            b.rc = b.rc + 1;
        },
        None => {},
    }
    proof {
        old(store)@.lemma_ref_handle_wf(f@);
    }
    f
}

/// Releases a reference to a diagram handle. With the last reference the
/// handle is destroyed: its manager is charged the diagram's node count less,
/// and the reference that the handle held on the manager is released, which
/// may destroy the manager in turn.
pub fn bdd_unref(store: &mut Store, f: bdd_t)
    requires
        old(store)@.wf(),
        old(store)@.live_handle(f@),
    ensures
        final(store)@ == old(store)@.unref_handle(f@),
        final(store)@.wf(),
{
    proof {
        assert(old(store)@.handle_ok(f@));
        old(store)@.lemma_unref_handle_wf(f@);
    }
    let mut last: bool = false;
    match &mut store.bdds[f.slot] {
        Some(b) => {
            if b.rc == 1 {
                last = true;
            } else {
                b.rc = b.rc - 1;
            }
        },
        None => {},
    }
    if last {
        let released: Option<RcBdd> = store.bdds[f.slot].take();
        match released {
            Some(b) => {
                let size: usize = engine::size(&b.bdd);
                proof {
                    old(store)@.lemma_discharge_wf(f@);
                }
                match &mut store.managers[b.manager] {
                    Some(m) => {
                        m.nodes_total = m.nodes_total - size;
                    },
                    None => {},
                }
                assert(store@ =~~= old(store)@.discharge(f@));
                manager_unref(store, manager_t { slot: b.manager });
            },
            None => {},
        }
    }
}

/// The number of nodes of a diagram.
pub fn bdd_nodecount(store: &Store, f: bdd_t) -> (n: usize)
    requires
        store@.live_handle(f@),
    ensures
        n == store@.handle(f@).nodes.len(),
{
    match &store.bdds[f.slot] {
        Some(b) => engine::size(&b.bdd),
        None => 0,
    }
}

/// The diagram behind a handle.
pub fn bdd_diagram(store: &Store, f: bdd_t) -> (bdd: &Bdd)
    requires
        store@.live_handle(f@),
    ensures
        nodes_of(*bdd) == store@.handle(f@).nodes,
{
    &store.bdds[f.slot].as_ref().unwrap().bdd
}

/// The manager that a diagram was made from.
pub fn bdd_manager(store: &Store, f: bdd_t) -> (manager: manager_t)
    requires
        store@.live_handle(f@),
    ensures
        manager@ == store@.handle(f@).manager,
{
    manager_t { slot: store.bdds[f.slot].as_ref().unwrap().manager }
}

/// The universe of a manager.
pub(crate) fn manager_universe(store: &Store, manager: manager_t) -> (universe: &BddVariableSet)
    requires
        store@.live_manager(manager@),
    ensures
        universe_size(*universe) == store@.manager(manager@).num_vars,
{
    &store.managers[manager.slot].as_ref().unwrap().var_set
}

/// Whether two diagrams were made from the same manager.
pub fn bdd_same_manager(store: &Store, f: bdd_t, g: bdd_t) -> (b: bool)
    requires
        store@.live_handle(f@),
        store@.live_handle(g@),
    ensures
        b == store@.same_manager(f@, g@),
{
    store.bdds[f.slot].as_ref().unwrap().manager == store.bdds[g.slot].as_ref().unwrap().manager
}

/// Whether the handle names a manager that has not been destroyed.
pub fn manager_is_live(store: &Store, manager: manager_t) -> (b: bool)
    ensures
        b == store@.live_manager(manager@),
{
    manager.slot < store.managers.len() && store.managers[manager.slot].is_some()
}

/// Whether the handle names a diagram that has not been destroyed.
pub fn bdd_is_live(store: &Store, f: bdd_t) -> (b: bool)
    ensures
        b == store@.live_handle(f@),
{
    f.slot < store.bdds.len() && store.bdds[f.slot].is_some()
}

/// The number of variables of a manager's universe.
pub fn manager_num_vars(store: &Store, manager: manager_t) -> (n: u16)
    requires
        store@.live_manager(manager@),
    ensures
        n == store@.manager(manager@).num_vars,
{
    engine::universe_num_vars(manager_universe(store, manager))
}

/// The reference count of a manager.
pub fn manager_refs(store: &Store, manager: manager_t) -> (n: usize)
    requires
        store@.live_manager(manager@),
    ensures
        n == store@.manager(manager@).rc,
{
    store.managers[manager.slot].as_ref().unwrap().rc
}

/// The reference count of a diagram handle.
pub fn bdd_refs(store: &Store, f: bdd_t) -> (n: usize)
    requires
        store@.live_handle(f@),
    ensures
        n == store@.handle(f@).rc,
{
    store.bdds[f.slot].as_ref().unwrap().rc
}

/// The number of live diagram handles that were made from a manager.
pub fn manager_handles(store: &Store, manager: manager_t) -> (n: usize)
    ensures
        n == store@.handle_count(manager@),
{
    let mut n: usize = 0;
    let mut i: usize = 0;
    while i < store.bdds.len()
        invariant
            i <= store.bdds@.len(),
            n <= i,
            n == count_in(store@.handles.take(i as int), manager@),
        decreases store.bdds@.len() - i,
    {
        proof {
            let next = store@.handles.take(i + 1);
            assert(next.drop_last() =~= store@.handles.take(i as int));
        }
        match &store.bdds[i] {
            Some(b) => {
                if b.manager == manager.slot {
                    n = n + 1;
                }
            },
            None => {},
        }
        i = i + 1;
    }
    assert(store@.handles.take(i as int) =~= store@.handles);
    n
}

} // verus!
