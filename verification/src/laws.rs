//! What holds of the lifecycle protocol as a whole.

use vstd::prelude::*;
use crate::diagram::{is_diagram, width, Node};
use crate::heap::{lemma_no_handles, Heap};

verus! {

/// The sum of the node counts of a list of diagrams.
pub open spec fn total_len(diagrams: Seq<Seq<Node>>) -> nat
    decreases diagrams.len(),
{
    if diagrams.len() == 0 {
        0
    } else {
        total_len(diagrams.drop_last()) + diagrams.last().len()
    }
}

impl Heap {
    /// The pool after the diagrams were offered to manager `m` one after the
    /// other.
    pub open spec fn admit_all(self, diagrams: Seq<Seq<Node>>, m: int) -> Heap
        decreases diagrams.len(),
    {
        if diagrams.len() == 0 {
            self
        } else {
            self.admit_all(diagrams.drop_last(), m).after_admit(diagrams.last(), m)
        }
    }

    /// Manager `m` after `n` more references were taken.
    pub open spec fn ref_manager_times(self, m: int, n: nat) -> Heap
        decreases n,
    {
        if n == 0 {
            self
        } else {
            self.ref_manager_times(m, (n - 1) as nat).ref_manager(m)
        }
    }

    /// Manager `m` after `n` references were released.
    pub open spec fn unref_manager_times(self, m: int, n: nat) -> Heap
        decreases n,
    {
        if n == 0 {
            self
        } else {
            self.unref_manager(m).unref_manager_times(m, (n - 1) as nat)
        }
    }

    /// Handle `h` after `n` more references were taken.
    pub open spec fn ref_handle_times(self, h: int, n: nat) -> Heap
        decreases n,
    {
        if n == 0 {
            self
        } else {
            self.ref_handle_times(h, (n - 1) as nat).ref_handle(h)
        }
    }

    /// Handle `h` after `n` references were released.
    pub open spec fn unref_handle_times(self, h: int, n: nat) -> Heap
        decreases n,
    {
        if n == 0 {
            self
        } else {
            self.unref_handle(h).unref_handle_times(h, (n - 1) as nat)
        }
    }

    /// In a consistent pool the nodes charged to a manager are exactly the
    /// sum of the node counts of its live handles, and within its budget.
    pub proof fn lemma_node_count_is_sum(self, m: int)
        requires
            self.wf(),
            self.live_manager(m),
        ensures
            self.manager(m).nodes_total == self.charged(m),
            self.manager(m).nodes_total <= self.manager(m).max_nodes_total,
    {
        assert(self.manager_ok(m));
    }

    /// A diagram is handed out exactly where the nodes charged so far and its
    /// own together do not exceed the budget: a budget that is met exactly is
    /// enough, one node more is refused.
    pub proof fn lemma_budget_is_exact(self, nodes: Seq<Node>, m: int)
        ensures
            self.admit_diagram(nodes, m) is Ok <==> self.manager(m).nodes_total + nodes.len()
                <= self.manager(m).max_nodes_total,
            self.admit_diagram(nodes, m) is Err ==> self.after_admit(nodes, m) == self,
    {
    }

    /// Diagrams whose node counts together stay within what is left of the
    /// budget are all handed out, each with a handle of its own, and the
    /// manager is then charged their sum on top of what it was charged
    /// before.
    pub proof fn lemma_admit_all(self, diagrams: Seq<Seq<Node>>, m: int)
        requires
            self.wf(),
            self.live_manager(m),
            forall|i: int|
                0 <= i < diagrams.len() ==> is_diagram(#[trigger] diagrams[i]) && width(
                    diagrams[i],
                ) == self.manager(m).num_vars,
            self.manager(m).nodes_total + total_len(diagrams) <= self.manager(m).max_nodes_total,
        ensures
            self.admit_all(diagrams, m).wf(),
            self.admit_all(diagrams, m).live_manager(m),
            self.admit_all(diagrams, m).handles.len() == self.handles.len() + diagrams.len(),
            self.admit_all(diagrams, m).manager(m).nodes_total == self.manager(m).nodes_total
                + total_len(diagrams),
            self.admit_all(diagrams, m).manager(m).nodes_total == self.admit_all(
                diagrams,
                m,
            ).charged(m),
            self.admit_all(diagrams, m).manager(m).num_vars == self.manager(m).num_vars,
            self.admit_all(diagrams, m).manager(m).max_nodes_total == self.manager(
                m,
            ).max_nodes_total,
        decreases diagrams.len(),
    {
        if diagrams.len() > 0 {
            let front = diagrams.drop_last();
            assert forall|i: int| 0 <= i < front.len() implies is_diagram(#[trigger] front[i])
                && width(front[i]) == self.manager(m).num_vars by {}
            self.lemma_admit_all(front, m);
            let before = self.admit_all(front, m);
            before.lemma_register_wf(diagrams.last(), m);
        }
        assert(self.admit_all(diagrams, m).manager_ok(m));
    }

    /// The last release of a handle takes exactly the handle's node count off
    /// what its manager is charged, unless the manager goes with it; an
    /// earlier release changes neither the charge nor the handle's diagram.
    pub proof fn lemma_release_discharges(self, h: int)
        requires
            self.wf(),
            self.live_handle(h),
        ensures
            ({
                let m = self.handle(h).manager;
                let next = self.unref_handle(h);
                if self.handle(h).rc == 1 {
                    &&& !next.live_handle(h)
                    &&& next.live_manager(m) <==> self.manager(m).rc > 1
                    &&& next.live_manager(m) ==> next.manager(m).nodes_total + self.handle(
                        h,
                    ).nodes.len() == self.manager(m).nodes_total
                } else {
                    &&& next.live_handle(h)
                    &&& next.handle(h).nodes == self.handle(h).nodes
                    &&& next.managers == self.managers
                }
            }),
    {
        assert(self.handle_ok(h));
        self.lemma_discharge_wf(h);
    }

    /// A manager all of whose handles have been released is charged nothing.
    pub proof fn lemma_all_released(self, m: int)
        requires
            self.wf(),
            self.live_manager(m),
            self.handle_count(m) == 0,
        ensures
            self.manager(m).nodes_total == 0,
    {
        assert(self.manager_ok(m));
        lemma_no_handles(self.handles, m);
    }

    /// Taking `n` references to a manager and releasing `n` leaves the pool
    /// as it was; releasing one fewer leaves the manager alive, with one
    /// reference more than before.
    pub proof fn lemma_manager_round_trip(self, m: int, n: nat)
        requires
            self.wf(),
            self.live_manager(m),
        ensures
            self.ref_manager_times(m, n).live_manager(m),
            self.ref_manager_times(m, n).manager(m).rc == self.manager(m).rc + n,
            self.ref_manager_times(m, n).unref_manager_times(m, n) == self,
            n >= 1 ==> self.ref_manager_times(m, n).unref_manager_times(m, (n - 1) as nat)
                == self.ref_manager(m),
        decreases n,
    {
        assert(self.manager_ok(m));
        if n > 0 {
            let k = (n - 1) as nat;
            self.lemma_manager_round_trip(m, k);
            let up = self.ref_manager_times(m, n);
            assert(up.unref_manager(m) =~~= self.ref_manager_times(m, k));
        }
    }

    /// Taking `n` references to a handle and releasing `n` leaves the pool as
    /// it was; releasing one fewer leaves the handle alive, with one
    /// reference more than before.
    pub proof fn lemma_handle_round_trip(self, h: int, n: nat)
        requires
            self.wf(),
            self.live_handle(h),
        ensures
            self.ref_handle_times(h, n).live_handle(h),
            self.ref_handle_times(h, n).handle(h).rc == self.handle(h).rc + n,
            self.ref_handle_times(h, n).unref_handle_times(h, n) == self,
            n >= 1 ==> self.ref_handle_times(h, n).unref_handle_times(h, (n - 1) as nat)
                == self.ref_handle(h),
        decreases n,
    {
        assert(self.handle_ok(h));
        if n > 0 {
            let k = (n - 1) as nat;
            self.lemma_handle_round_trip(h, k);
            let up = self.ref_handle_times(h, n);
            assert(up.unref_handle(h) =~~= self.ref_handle_times(h, k));
        }
    }

    /// A new manager has the one reference that its creator holds; the
    /// references that callers hold on other managers stay as they are.
    pub proof fn lemma_outside_refs_with_manager(
        self,
        num_vars: u16,
        max_nodes_total: nat,
        other: int,
    )
        requires
            self.wf(),
            num_vars <= crate::diagram::MAX_VARS,
            self.live_manager(other),
        ensures
            self.with_manager(num_vars, max_nodes_total).outside_refs(self.next_manager()) == 1,
            self.with_manager(num_vars, max_nodes_total).outside_refs(other) == self.outside_refs(
                other,
            ),
    {
        self.lemma_with_manager_wf(num_vars, max_nodes_total);
    }

    /// `manager_ref` adds one to the references that callers hold on the
    /// manager, `manager_unref` takes one off, and neither touches another
    /// manager.
    pub proof fn lemma_outside_refs_of_manager(self, m: int, other: int)
        requires
            self.wf(),
            self.live_manager(m),
            self.live_manager(other),
        ensures
            self.ref_manager(m).outside_refs(m) == self.outside_refs(m) + 1,
            self.manager(m).rc > 1 ==> self.unref_manager(m).outside_refs(m) == self.outside_refs(
                m,
            ) - 1,
            other != m ==> self.ref_manager(m).outside_refs(other) == self.outside_refs(other),
            other != m ==> self.unref_manager(m).outside_refs(other) == self.outside_refs(other),
    {
    }

    /// Handing out a diagram changes the references that callers hold on no
    /// manager: the reference that the manager gains is the new handle's.
    pub proof fn lemma_outside_refs_after_admit(self, nodes: Seq<Node>, m: int, other: int)
        requires
            self.wf(),
            self.live_manager(m),
            self.live_manager(other),
        ensures
            self.after_admit(nodes, m).live_manager(other),
            self.after_admit(nodes, m).outside_refs(other) == self.outside_refs(other),
    {
        if self.fits(nodes, m) {
            crate::heap::lemma_sums_push(
                self.handles,
                Some(crate::heap::HandleState { nodes, rc: 1, manager: m }),
                other,
            );
        }
    }

    /// Taking and releasing references to a handle changes the references
    /// that callers hold on no manager that is still alive: the reference
    /// that a manager loses with a handle's last release was that handle's.
    pub proof fn lemma_outside_refs_of_handle(self, h: int, other: int)
        requires
            self.wf(),
            self.live_handle(h),
            self.live_manager(other),
        ensures
            self.ref_handle(h).live_manager(other),
            self.ref_handle(h).outside_refs(other) == self.outside_refs(other),
            self.unref_handle(h).live_manager(other) ==> self.unref_handle(h).outside_refs(other)
                == self.outside_refs(other),
            self.unref_handle(h).live_manager(other) <==> other != self.handle(h).manager
                || self.handle(h).rc > 1 || self.manager(other).rc > 1,
    {
        let x = self.handle(h);
        assert(self.handle_ok(h));
        crate::heap::lemma_sums_update(
            self.handles,
            h,
            Some(crate::heap::HandleState { rc: x.rc + 1, ..x }),
            other,
        );
        if x.rc == 1 {
            crate::heap::lemma_sums_update(self.handles, h, None, other);
            assert(self.manager_ok(x.manager));
        } else {
            crate::heap::lemma_sums_update(
                self.handles,
                h,
                Some(crate::heap::HandleState { rc: (x.rc - 1) as nat, ..x }),
                other,
            );
        }
    }

    /// `next` has every handle of `self` that is still alive with the diagram
    /// and the manager that it had.
    pub open spec fn keeps_diagrams(self, next: Heap) -> bool {
        forall|h: int|
            self.live_handle(h) && #[trigger] next.live_handle(h) ==> next.handle(h).nodes
                == self.handle(h).nodes && next.handle(h).manager == self.handle(h).manager
    }

    /// `next` has every manager of `self` that is still alive with the
    /// universe and the budget that it had.
    pub open spec fn keeps_universes(self, next: Heap) -> bool {
        forall|m: int|
            self.live_manager(m) && #[trigger] next.live_manager(m) ==> next.manager(m).num_vars
                == self.manager(m).num_vars && next.manager(m).max_nodes_total == self.manager(
                m,
            ).max_nodes_total
    }

    /// No operation changes the diagram of a handle, nor the manager that it
    /// belongs to: whatever is made is made anew.
    pub proof fn lemma_diagrams_are_immutable(
        self,
        m: int,
        h: int,
        nodes: Seq<Node>,
        num_vars: u16,
        max_nodes_total: nat,
    )
        requires
            self.wf(),
            self.live_manager(m),
            self.live_handle(h),
        ensures
            self.keeps_diagrams(self.with_manager(num_vars, max_nodes_total)),
            self.keeps_diagrams(self.ref_manager(m)),
            self.keeps_diagrams(self.unref_manager(m)),
            self.keeps_diagrams(self.after_admit(nodes, m)),
            self.keeps_diagrams(self.ref_handle(h)),
            self.keeps_diagrams(self.unref_handle(h)),
    {
    }

    /// No operation changes the universe or the budget of a manager.
    pub proof fn lemma_universes_are_fixed(
        self,
        m: int,
        h: int,
        nodes: Seq<Node>,
        num_vars: u16,
        max_nodes_total: nat,
    )
        requires
            self.wf(),
            self.live_manager(m),
            self.live_handle(h),
        ensures
            self.keeps_universes(self.with_manager(num_vars, max_nodes_total)),
            self.keeps_universes(self.ref_manager(m)),
            self.keeps_universes(self.unref_manager(m)),
            self.keeps_universes(self.after_admit(nodes, m)),
            self.keeps_universes(self.ref_handle(h)),
            self.keeps_universes(self.unref_handle(h)),
    {
        assert(self.handle_ok(h));
    }

    /// A manager is alive as long as one of its handles is, and counts at
    /// least as many references as it has handles.
    pub proof fn lemma_manager_outlives_handles(self, h: int)
        requires
            self.wf(),
            self.live_handle(h),
        ensures
            self.live_manager(self.handle(h).manager),
            self.manager(self.handle(h).manager).rc >= self.handle_count(self.handle(h).manager),
            self.handle_count(self.handle(h).manager) >= 1,
    {
        let m = self.handle(h).manager;
        assert(self.handle_ok(h));
        assert(self.manager_ok(m));
        lemma_no_handles(self.handles, m);
    }
}

} // verus!
