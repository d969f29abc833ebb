//! The operations that hand out diagrams: constants, literals, and the
//! engine's operators on diagrams that the pool holds.
//!
//! Each of them has the engine build a diagram and then hands it to the
//! budget guard, `bdd_t::from_bdd`, with the manager of its first operand.
//! Operands of one call must come from one manager; a call that mixes
//! managers is refused and changes nothing.

use vstd::prelude::*;
use biodivine_lib_bdd::Bdd;
use crate::algebra;
use crate::algebra::{
    and_exists_nodes, and_for_all_nodes, and_nodes, and_not_nodes, exists_nodes, for_all_nodes,
    iff_nodes, imp_nodes, ite_nodes, or_exists_nodes, or_for_all_nodes, or_nodes,
    var_exists_nodes, var_for_all_nodes, xor_nodes,
};
use crate::cube::{
    bdd_assignment_t, cube_of, is_satisfied_by, is_unsatisfiable, lemma_cube_is_right, pick_cube,
};
use crate::diagram::{
    false_nodes, lemma_constants_are_diagrams, lemma_literal_is_diagram, lemma_not_is_diagram,
    literal_nodes, not_nodes, true_nodes, Node,
};
use crate::engine;
use crate::engine::diagram_bytes;
use crate::heap::Heap;
use crate::meaning::{
    is_choice, is_conjunction, is_difference, is_disjunction, is_equivalence, is_exclusive,
    is_generalisation, is_generalised_conjunction, is_generalised_disjunction, is_implication,
    is_negation, is_projected_conjunction, is_projected_disjunction, is_projection,
    lemma_not_negates,
};
use crate::store::{
    bdd_diagram, bdd_manager, bdd_same_manager, bdd_t, manager_t, manager_universe, slot_of,
    BddError, Store,
};

verus! {

impl Heap {
    /// What comes of handing out a diagram derived from handle `f`.
    pub open spec fn outcome1(self, f: int, nodes: Seq<Node>) -> Result<int, BddError> {
        self.admit_diagram(nodes, self.handle(f).manager)
    }

    /// The pool after a diagram derived from handle `f` was handed out or
    /// refused.
    pub open spec fn after1(self, f: int, nodes: Seq<Node>) -> Heap {
        self.after_admit(nodes, self.handle(f).manager)
    }

    /// What comes of handing out a diagram derived from handles `f` and `g`:
    /// refused where they come from different managers.
    pub open spec fn outcome2(self, f: int, g: int, nodes: Seq<Node>) -> Result<int, BddError> {
        if self.same_manager(f, g) {
            self.outcome1(f, nodes)
        } else {
            Err(BddError::ManagerMismatch)
        }
    }

    /// The pool after a diagram derived from handles `f` and `g` was handed
    /// out or refused.
    pub open spec fn after2(self, f: int, g: int, nodes: Seq<Node>) -> Heap {
        if self.same_manager(f, g) {
            self.after1(f, nodes)
        } else {
            self
        }
    }

    /// What comes of handing out a diagram derived from handles `f`, `g` and
    /// `h`.
    pub open spec fn outcome3(self, f: int, g: int, h: int, nodes: Seq<Node>) -> Result<
        int,
        BddError,
    > {
        if self.same_manager(f, g) && self.same_manager(f, h) {
            self.outcome1(f, nodes)
        } else {
            Err(BddError::ManagerMismatch)
        }
    }

    /// The pool after a diagram derived from handles `f`, `g` and `h` was
    /// handed out or refused.
    pub open spec fn after3(self, f: int, g: int, h: int, nodes: Seq<Node>) -> Heap {
        if self.same_manager(f, g) && self.same_manager(f, h) {
            self.after1(f, nodes)
        } else {
            self
        }
    }
}

/// Hands out the diagram of the literal `x_i`: a new handle with one
/// reference, charged to `manager`. Where the budget does not hold it, it is
/// refused and the pool stays as it was.
pub fn manager_ithvar(store: &mut Store, manager: manager_t, i: u16) -> (r: Result<bdd_t, BddError>)
    requires
        old(store)@.wf(),
        old(store)@.live_manager(manager@),
        old(store)@.manager(manager@).rc < usize::MAX,
        i < old(store)@.manager(manager@).num_vars,
    ensures
        slot_of(r) == old(store)@.admit_diagram(
            literal_nodes(old(store)@.manager(manager@).num_vars, i, true),
            manager@,
        ),
        final(store)@ == old(store)@.after_admit(
            literal_nodes(old(store)@.manager(manager@).num_vars, i, true),
            manager@,
        ),
        final(store)@.wf(),
{
    let bdd: Bdd = engine::mk_var(manager_universe(store, manager), i);
    proof {
        lemma_literal_is_diagram(store@.manager(manager@).num_vars, i, true);
    }
    bdd_t::from_bdd(store, bdd, manager)
}

/// Hands out the diagram of the literal `!x_i`, as `manager_ithvar` does that
/// of `x_i`.
pub fn manager_nithvar(store: &mut Store, manager: manager_t, i: u16) -> (r: Result<bdd_t, BddError>)
    requires
        old(store)@.wf(),
        old(store)@.live_manager(manager@),
        old(store)@.manager(manager@).rc < usize::MAX,
        i < old(store)@.manager(manager@).num_vars,
    ensures
        slot_of(r) == old(store)@.admit_diagram(
            literal_nodes(old(store)@.manager(manager@).num_vars, i, false),
            manager@,
        ),
        final(store)@ == old(store)@.after_admit(
            literal_nodes(old(store)@.manager(manager@).num_vars, i, false),
            manager@,
        ),
        final(store)@.wf(),
{
    let bdd: Bdd = engine::mk_not_var(manager_universe(store, manager), i);
    proof {
        lemma_literal_is_diagram(store@.manager(manager@).num_vars, i, false);
    }
    bdd_t::from_bdd(store, bdd, manager)
}

/// Hands out the diagram of the constant `true` of the manager's universe.
pub fn manager_true(store: &mut Store, manager: manager_t) -> (r: Result<bdd_t, BddError>)
    requires
        old(store)@.wf(),
        old(store)@.live_manager(manager@),
        old(store)@.manager(manager@).rc < usize::MAX,
    ensures
        slot_of(r) == old(store)@.admit_diagram(
            true_nodes(old(store)@.manager(manager@).num_vars),
            manager@,
        ),
        final(store)@ == old(store)@.after_admit(
            true_nodes(old(store)@.manager(manager@).num_vars),
            manager@,
        ),
        final(store)@.wf(),
{
    let bdd: Bdd = engine::mk_true(manager_universe(store, manager));
    proof {
        lemma_constants_are_diagrams(store@.manager(manager@).num_vars);
    }
    bdd_t::from_bdd(store, bdd, manager)
}

/// Hands out the diagram of the constant `false` of the manager's universe.
pub fn manager_false(store: &mut Store, manager: manager_t) -> (r: Result<bdd_t, BddError>)
    requires
        old(store)@.wf(),
        old(store)@.live_manager(manager@),
        old(store)@.manager(manager@).rc < usize::MAX,
    ensures
        slot_of(r) == old(store)@.admit_diagram(
            false_nodes(old(store)@.manager(manager@).num_vars),
            manager@,
        ),
        final(store)@ == old(store)@.after_admit(
            false_nodes(old(store)@.manager(manager@).num_vars),
            manager@,
        ),
        final(store)@.wf(),
{
    let bdd: Bdd = engine::mk_false(manager_universe(store, manager));
    proof {
        lemma_constants_are_diagrams(store@.manager(manager@).num_vars);
    }
    bdd_t::from_bdd(store, bdd, manager)
}

/// Hands out the negation of a diagram, charged to the diagram's manager.
pub fn bdd_not(store: &mut Store, f: bdd_t) -> (r: Result<bdd_t, BddError>)
    requires
        old(store)@.wf(),
        old(store)@.can_derive(f@),
    ensures
        slot_of(r) == old(store)@.outcome1(f@, not_nodes(old(store)@.handle(f@).nodes)),
        final(store)@ == old(store)@.after1(f@, not_nodes(old(store)@.handle(f@).nodes)),
        final(store)@.wf(),
        r matches Ok(h) ==> is_negation(
            final(store)@.handle(h@).nodes,
            old(store)@.handle(f@).nodes,
        ),
{
    proof {
        assert(store@.handle_ok(f@));
        lemma_not_is_diagram(store@.handle(f@).nodes);
        lemma_not_negates(store@.handle(f@).nodes);
    }
    let bdd: Bdd = engine::not(bdd_diagram(store, f));
    let manager = bdd_manager(store, f);
    bdd_t::from_bdd(store, bdd, manager)
}

/// The engine's operators on two diagrams.
enum BinaryOp {
    And,
    Or,
    Xor,
    Imp,
    Iff,
    AndNot,
}

spec fn binary_means(op: BinaryOp, r: Seq<Node>, f: Seq<Node>, g: Seq<Node>) -> bool {
    match op {
        BinaryOp::And => is_conjunction(r, f, g),
        BinaryOp::Or => is_disjunction(r, f, g),
        BinaryOp::Xor => is_exclusive(r, f, g),
        BinaryOp::Imp => is_implication(r, f, g),
        BinaryOp::Iff => is_equivalence(r, f, g),
        BinaryOp::AndNot => is_difference(r, f, g),
    }
}

spec fn binary_nodes(op: BinaryOp, f: Seq<Node>, g: Seq<Node>) -> Seq<Node> {
    match op {
        BinaryOp::And => and_nodes(f, g),
        BinaryOp::Or => or_nodes(f, g),
        BinaryOp::Xor => xor_nodes(f, g),
        BinaryOp::Imp => imp_nodes(f, g),
        BinaryOp::Iff => iff_nodes(f, g),
        BinaryOp::AndNot => and_not_nodes(f, g),
    }
}

/// Has the engine combine two diagrams of one manager and hands the result
/// to the budget guard.
fn binary(store: &mut Store, f: bdd_t, g: bdd_t, op: BinaryOp) -> (r: Result<bdd_t, BddError>)
    requires
        old(store)@.wf(),
        old(store)@.can_derive(f@),
        old(store)@.live_handle(g@),
    ensures
        slot_of(r) == old(store)@.outcome2(
            f@,
            g@,
            binary_nodes(op, old(store)@.handle(f@).nodes, old(store)@.handle(g@).nodes),
        ),
        final(store)@ == old(store)@.after2(
            f@,
            g@,
            binary_nodes(op, old(store)@.handle(f@).nodes, old(store)@.handle(g@).nodes),
        ),
        final(store)@.wf(),
        r matches Ok(h) ==> binary_means(
            op,
            final(store)@.handle(h@).nodes,
            old(store)@.handle(f@).nodes,
            old(store)@.handle(g@).nodes,
        ),
{
    if !bdd_same_manager(store, f, g) {
        return Err(BddError::ManagerMismatch);
    }
    proof {
        assert(store@.handle_ok(f@));
        assert(store@.handle_ok(g@));
    }
    let left: &Bdd = bdd_diagram(store, f);
    let right: &Bdd = bdd_diagram(store, g);
    let bdd: Bdd = match op {
        BinaryOp::And => algebra::and(left, right),
        BinaryOp::Or => algebra::or(left, right),
        BinaryOp::Xor => algebra::xor(left, right),
        BinaryOp::Imp => algebra::imp(left, right),
        BinaryOp::Iff => algebra::iff(left, right),
        BinaryOp::AndNot => algebra::and_not(left, right),
    };
    let manager = bdd_manager(store, f);
    bdd_t::from_bdd(store, bdd, manager)
}

/// The conjunction of two diagrams.
pub fn bdd_and(store: &mut Store, f: bdd_t, g: bdd_t) -> (r: Result<bdd_t, BddError>)
    requires
        old(store)@.wf(),
        old(store)@.can_derive(f@),
        old(store)@.live_handle(g@),
    ensures
        slot_of(r) == old(store)@.outcome2(
            f@,
            g@,
            and_nodes(old(store)@.handle(f@).nodes, old(store)@.handle(g@).nodes),
        ),
        final(store)@ == old(store)@.after2(
            f@,
            g@,
            and_nodes(old(store)@.handle(f@).nodes, old(store)@.handle(g@).nodes),
        ),
        final(store)@.wf(),
        r matches Ok(h) ==> is_conjunction(
            final(store)@.handle(h@).nodes,
            old(store)@.handle(f@).nodes,
            old(store)@.handle(g@).nodes,
        ),
{
    binary(store, f, g, BinaryOp::And)
}

/// The disjunction of two diagrams.
pub fn bdd_or(store: &mut Store, f: bdd_t, g: bdd_t) -> (r: Result<bdd_t, BddError>)
    requires
        old(store)@.wf(),
        old(store)@.can_derive(f@),
        old(store)@.live_handle(g@),
    ensures
        slot_of(r) == old(store)@.outcome2(
            f@,
            g@,
            or_nodes(old(store)@.handle(f@).nodes, old(store)@.handle(g@).nodes),
        ),
        final(store)@ == old(store)@.after2(
            f@,
            g@,
            or_nodes(old(store)@.handle(f@).nodes, old(store)@.handle(g@).nodes),
        ),
        final(store)@.wf(),
        r matches Ok(h) ==> is_disjunction(
            final(store)@.handle(h@).nodes,
            old(store)@.handle(f@).nodes,
            old(store)@.handle(g@).nodes,
        ),
{
    binary(store, f, g, BinaryOp::Or)
}

/// The exclusive disjunction of two diagrams.
pub fn bdd_xor(store: &mut Store, f: bdd_t, g: bdd_t) -> (r: Result<bdd_t, BddError>)
    requires
        old(store)@.wf(),
        old(store)@.can_derive(f@),
        old(store)@.live_handle(g@),
    ensures
        slot_of(r) == old(store)@.outcome2(
            f@,
            g@,
            xor_nodes(old(store)@.handle(f@).nodes, old(store)@.handle(g@).nodes),
        ),
        final(store)@ == old(store)@.after2(
            f@,
            g@,
            xor_nodes(old(store)@.handle(f@).nodes, old(store)@.handle(g@).nodes),
        ),
        final(store)@.wf(),
        r matches Ok(h) ==> is_exclusive(
            final(store)@.handle(h@).nodes,
            old(store)@.handle(f@).nodes,
            old(store)@.handle(g@).nodes,
        ),
{
    binary(store, f, g, BinaryOp::Xor)
}

/// The implication from the first diagram to the second.
pub fn bdd_imp(store: &mut Store, f: bdd_t, g: bdd_t) -> (r: Result<bdd_t, BddError>)
    requires
        old(store)@.wf(),
        old(store)@.can_derive(f@),
        old(store)@.live_handle(g@),
    ensures
        slot_of(r) == old(store)@.outcome2(
            f@,
            g@,
            imp_nodes(old(store)@.handle(f@).nodes, old(store)@.handle(g@).nodes),
        ),
        final(store)@ == old(store)@.after2(
            f@,
            g@,
            imp_nodes(old(store)@.handle(f@).nodes, old(store)@.handle(g@).nodes),
        ),
        final(store)@.wf(),
        r matches Ok(h) ==> is_implication(
            final(store)@.handle(h@).nodes,
            old(store)@.handle(f@).nodes,
            old(store)@.handle(g@).nodes,
        ),
{
    binary(store, f, g, BinaryOp::Imp)
}

/// The equivalence of two diagrams.
pub fn bdd_iff(store: &mut Store, f: bdd_t, g: bdd_t) -> (r: Result<bdd_t, BddError>)
    requires
        old(store)@.wf(),
        old(store)@.can_derive(f@),
        old(store)@.live_handle(g@),
    ensures
        slot_of(r) == old(store)@.outcome2(
            f@,
            g@,
            iff_nodes(old(store)@.handle(f@).nodes, old(store)@.handle(g@).nodes),
        ),
        final(store)@ == old(store)@.after2(
            f@,
            g@,
            iff_nodes(old(store)@.handle(f@).nodes, old(store)@.handle(g@).nodes),
        ),
        final(store)@.wf(),
        r matches Ok(h) ==> is_equivalence(
            final(store)@.handle(h@).nodes,
            old(store)@.handle(f@).nodes,
            old(store)@.handle(g@).nodes,
        ),
{
    binary(store, f, g, BinaryOp::Iff)
}

/// The conjunction of the first diagram with the negation of the second.
pub fn bdd_and_not(store: &mut Store, f: bdd_t, g: bdd_t) -> (r: Result<bdd_t, BddError>)
    requires
        old(store)@.wf(),
        old(store)@.can_derive(f@),
        old(store)@.live_handle(g@),
    ensures
        slot_of(r) == old(store)@.outcome2(
            f@,
            g@,
            and_not_nodes(old(store)@.handle(f@).nodes, old(store)@.handle(g@).nodes),
        ),
        final(store)@ == old(store)@.after2(
            f@,
            g@,
            and_not_nodes(old(store)@.handle(f@).nodes, old(store)@.handle(g@).nodes),
        ),
        final(store)@.wf(),
        r matches Ok(h) ==> is_difference(
            final(store)@.handle(h@).nodes,
            old(store)@.handle(f@).nodes,
            old(store)@.handle(g@).nodes,
        ),
{
    binary(store, f, g, BinaryOp::AndNot)
}

/// The diagram that agrees with `g` where `f` holds and with `h` elsewhere.
pub fn bdd_ite(store: &mut Store, f: bdd_t, g: bdd_t, h: bdd_t) -> (r: Result<bdd_t, BddError>)
    requires
        old(store)@.wf(),
        old(store)@.can_derive(f@),
        old(store)@.live_handle(g@),
        old(store)@.live_handle(h@),
    ensures
        slot_of(r) == old(store)@.outcome3(
            f@,
            g@,
            h@,
            ite_nodes(
                old(store)@.handle(f@).nodes,
                old(store)@.handle(g@).nodes,
                old(store)@.handle(h@).nodes,
            ),
        ),
        final(store)@ == old(store)@.after3(
            f@,
            g@,
            h@,
            ite_nodes(
                old(store)@.handle(f@).nodes,
                old(store)@.handle(g@).nodes,
                old(store)@.handle(h@).nodes,
            ),
        ),
        final(store)@.wf(),
        r matches Ok(k) ==> is_choice(
            final(store)@.handle(k@).nodes,
            old(store)@.handle(f@).nodes,
            old(store)@.handle(g@).nodes,
            old(store)@.handle(h@).nodes,
        ),
{
    if !bdd_same_manager(store, f, g) || !bdd_same_manager(store, f, h) {
        return Err(BddError::ManagerMismatch);
    }
    proof {
        assert(store@.handle_ok(f@));
        assert(store@.handle_ok(g@));
        assert(store@.handle_ok(h@));
    }
    let bdd: Bdd = algebra::ite(bdd_diagram(store, f), bdd_diagram(store, g), bdd_diagram(store, h));
    let manager = bdd_manager(store, f);
    bdd_t::from_bdd(store, bdd, manager)
}

/// The diagram with variable `var` eliminated existentially.
pub fn bdd_var_exists(store: &mut Store, f: bdd_t, var: u16) -> (r: Result<bdd_t, BddError>)
    requires
        old(store)@.wf(),
        old(store)@.can_derive(f@),
        var < old(store)@.manager(old(store)@.handle(f@).manager).num_vars,
    ensures
        slot_of(r) == old(store)@.outcome1(
            f@,
            var_exists_nodes(old(store)@.handle(f@).nodes, var),
        ),
        final(store)@ == old(store)@.after1(
            f@,
            var_exists_nodes(old(store)@.handle(f@).nodes, var),
        ),
        final(store)@.wf(),
        r matches Ok(h) ==> is_projection(
            final(store)@.handle(h@).nodes,
            old(store)@.handle(f@).nodes,
            seq![var],
        ),
{
    proof {
        assert(store@.handle_ok(f@));
    }
    let bdd: Bdd = algebra::var_exists(bdd_diagram(store, f), var);
    let manager = bdd_manager(store, f);
    bdd_t::from_bdd(store, bdd, manager)
}

/// The diagram with variable `var` eliminated universally.
pub fn bdd_var_forall(store: &mut Store, f: bdd_t, var: u16) -> (r: Result<bdd_t, BddError>)
    requires
        old(store)@.wf(),
        old(store)@.can_derive(f@),
        var < old(store)@.manager(old(store)@.handle(f@).manager).num_vars,
    ensures
        slot_of(r) == old(store)@.outcome1(
            f@,
            var_for_all_nodes(old(store)@.handle(f@).nodes, var),
        ),
        final(store)@ == old(store)@.after1(
            f@,
            var_for_all_nodes(old(store)@.handle(f@).nodes, var),
        ),
        final(store)@.wf(),
        r matches Ok(h) ==> is_generalisation(
            final(store)@.handle(h@).nodes,
            old(store)@.handle(f@).nodes,
            seq![var],
        ),
{
    proof {
        assert(store@.handle_ok(f@));
    }
    let bdd: Bdd = algebra::var_for_all(bdd_diagram(store, f), var);
    let manager = bdd_manager(store, f);
    bdd_t::from_bdd(store, bdd, manager)
}

/// The diagram with the variables `vars` eliminated existentially.
pub fn bdd_exists(store: &mut Store, f: bdd_t, vars: &[u16]) -> (r: Result<bdd_t, BddError>)
    requires
        old(store)@.wf(),
        old(store)@.can_derive(f@),
    ensures
        slot_of(r) == old(store)@.outcome1(
            f@,
            exists_nodes(old(store)@.handle(f@).nodes, vars@),
        ),
        final(store)@ == old(store)@.after1(
            f@,
            exists_nodes(old(store)@.handle(f@).nodes, vars@),
        ),
        final(store)@.wf(),
        r matches Ok(h) ==> is_projection(
            final(store)@.handle(h@).nodes,
            old(store)@.handle(f@).nodes,
            vars@,
        ),
{
    proof {
        assert(store@.handle_ok(f@));
    }
    let bdd: Bdd = algebra::exists_vars(bdd_diagram(store, f), vars);
    let manager = bdd_manager(store, f);
    bdd_t::from_bdd(store, bdd, manager)
}

/// The diagram with the variables `vars` eliminated universally.
pub fn bdd_forall(store: &mut Store, f: bdd_t, vars: &[u16]) -> (r: Result<bdd_t, BddError>)
    requires
        old(store)@.wf(),
        old(store)@.can_derive(f@),
    ensures
        slot_of(r) == old(store)@.outcome1(
            f@,
            for_all_nodes(old(store)@.handle(f@).nodes, vars@),
        ),
        final(store)@ == old(store)@.after1(
            f@,
            for_all_nodes(old(store)@.handle(f@).nodes, vars@),
        ),
        final(store)@.wf(),
        r matches Ok(h) ==> is_generalisation(
            final(store)@.handle(h@).nodes,
            old(store)@.handle(f@).nodes,
            vars@,
        ),
{
    proof {
        assert(store@.handle_ok(f@));
    }
    let bdd: Bdd = algebra::for_all_vars(bdd_diagram(store, f), vars);
    let manager = bdd_manager(store, f);
    bdd_t::from_bdd(store, bdd, manager)
}

/// The engine's operators that combine two diagrams and eliminate variables
/// in one pass.
enum FusedOp {
    AndExists,
    OrExists,
    AndForAll,
    OrForAll,
}

spec fn fused_means(op: FusedOp, r: Seq<Node>, f: Seq<Node>, g: Seq<Node>, vars: Seq<u16>) -> bool {
    match op {
        FusedOp::AndExists => is_projected_conjunction(r, f, g, vars),
        FusedOp::OrExists => is_projected_disjunction(r, f, g, vars),
        FusedOp::AndForAll => is_generalised_conjunction(r, f, g, vars),
        FusedOp::OrForAll => is_generalised_disjunction(r, f, g, vars),
    }
}

spec fn fused_nodes(op: FusedOp, f: Seq<Node>, g: Seq<Node>, vars: Seq<u16>) -> Seq<Node> {
    match op {
        FusedOp::AndExists => and_exists_nodes(f, g, vars),
        FusedOp::OrExists => or_exists_nodes(f, g, vars),
        FusedOp::AndForAll => and_for_all_nodes(f, g, vars),
        FusedOp::OrForAll => or_for_all_nodes(f, g, vars),
    }
}

/// Has the engine combine two diagrams of one manager while eliminating
/// `vars`, and hands the result to the budget guard.
fn fused(store: &mut Store, f: bdd_t, g: bdd_t, vars: &[u16], op: FusedOp) -> (r: Result<
    bdd_t,
    BddError,
>)
    requires
        old(store)@.wf(),
        old(store)@.can_derive(f@),
        old(store)@.live_handle(g@),
    ensures
        slot_of(r) == old(store)@.outcome2(
            f@,
            g@,
            fused_nodes(op, old(store)@.handle(f@).nodes, old(store)@.handle(g@).nodes, vars@),
        ),
        final(store)@ == old(store)@.after2(
            f@,
            g@,
            fused_nodes(op, old(store)@.handle(f@).nodes, old(store)@.handle(g@).nodes, vars@),
        ),
        final(store)@.wf(),
        r matches Ok(h) ==> fused_means(
            op,
            final(store)@.handle(h@).nodes,
            old(store)@.handle(f@).nodes,
            old(store)@.handle(g@).nodes,
            vars@,
        ),
{
    if !bdd_same_manager(store, f, g) {
        return Err(BddError::ManagerMismatch);
    }
    proof {
        assert(store@.handle_ok(f@));
        assert(store@.handle_ok(g@));
    }
    let left: &Bdd = bdd_diagram(store, f);
    let right: &Bdd = bdd_diagram(store, g);
    let bdd: Bdd = match op {
        FusedOp::AndExists => algebra::and_exists(left, right, vars),
        FusedOp::OrExists => algebra::or_exists(left, right, vars),
        FusedOp::AndForAll => algebra::and_for_all(left, right, vars),
        FusedOp::OrForAll => algebra::or_for_all(left, right, vars),
    };
    let manager = bdd_manager(store, f);
    bdd_t::from_bdd(store, bdd, manager)
}

/// The conjunction of two diagrams with the variables `vars` eliminated
/// existentially.
pub fn bdd_and_exists(store: &mut Store, f: bdd_t, g: bdd_t, vars: &[u16]) -> (r: Result<
    bdd_t,
    BddError,
>)
    requires
        old(store)@.wf(),
        old(store)@.can_derive(f@),
        old(store)@.live_handle(g@),
    ensures
        slot_of(r) == old(store)@.outcome2(
            f@,
            g@,
            and_exists_nodes(old(store)@.handle(f@).nodes, old(store)@.handle(g@).nodes, vars@),
        ),
        final(store)@ == old(store)@.after2(
            f@,
            g@,
            and_exists_nodes(old(store)@.handle(f@).nodes, old(store)@.handle(g@).nodes, vars@),
        ),
        final(store)@.wf(),
        r matches Ok(h) ==> is_projected_conjunction(
            final(store)@.handle(h@).nodes,
            old(store)@.handle(f@).nodes,
            old(store)@.handle(g@).nodes,
            vars@,
        ),
{
    fused(store, f, g, vars, FusedOp::AndExists)
}

/// The disjunction of two diagrams with the variables `vars` eliminated
/// existentially.
pub fn bdd_or_exists(store: &mut Store, f: bdd_t, g: bdd_t, vars: &[u16]) -> (r: Result<
    bdd_t,
    BddError,
>)
    requires
        old(store)@.wf(),
        old(store)@.can_derive(f@),
        old(store)@.live_handle(g@),
    ensures
        slot_of(r) == old(store)@.outcome2(
            f@,
            g@,
            or_exists_nodes(old(store)@.handle(f@).nodes, old(store)@.handle(g@).nodes, vars@),
        ),
        final(store)@ == old(store)@.after2(
            f@,
            g@,
            or_exists_nodes(old(store)@.handle(f@).nodes, old(store)@.handle(g@).nodes, vars@),
        ),
        final(store)@.wf(),
        r matches Ok(h) ==> is_projected_disjunction(
            final(store)@.handle(h@).nodes,
            old(store)@.handle(f@).nodes,
            old(store)@.handle(g@).nodes,
            vars@,
        ),
{
    fused(store, f, g, vars, FusedOp::OrExists)
}

/// The conjunction of two diagrams with the variables `vars` eliminated
/// universally.
pub fn bdd_and_forall(store: &mut Store, f: bdd_t, g: bdd_t, vars: &[u16]) -> (r: Result<
    bdd_t,
    BddError,
>)
    requires
        old(store)@.wf(),
        old(store)@.can_derive(f@),
        old(store)@.live_handle(g@),
    ensures
        slot_of(r) == old(store)@.outcome2(
            f@,
            g@,
            and_for_all_nodes(old(store)@.handle(f@).nodes, old(store)@.handle(g@).nodes, vars@),
        ),
        final(store)@ == old(store)@.after2(
            f@,
            g@,
            and_for_all_nodes(old(store)@.handle(f@).nodes, old(store)@.handle(g@).nodes, vars@),
        ),
        final(store)@.wf(),
        r matches Ok(h) ==> is_generalised_conjunction(
            final(store)@.handle(h@).nodes,
            old(store)@.handle(f@).nodes,
            old(store)@.handle(g@).nodes,
            vars@,
        ),
{
    fused(store, f, g, vars, FusedOp::AndForAll)
}

/// The disjunction of two diagrams with the variables `vars` eliminated
/// universally.
pub fn bdd_or_forall(store: &mut Store, f: bdd_t, g: bdd_t, vars: &[u16]) -> (r: Result<
    bdd_t,
    BddError,
>)
    requires
        old(store)@.wf(),
        old(store)@.can_derive(f@),
        old(store)@.live_handle(g@),
    ensures
        slot_of(r) == old(store)@.outcome2(
            f@,
            g@,
            or_for_all_nodes(old(store)@.handle(f@).nodes, old(store)@.handle(g@).nodes, vars@),
        ),
        final(store)@ == old(store)@.after2(
            f@,
            g@,
            or_for_all_nodes(old(store)@.handle(f@).nodes, old(store)@.handle(g@).nodes, vars@),
        ),
        final(store)@.wf(),
        r matches Ok(h) ==> is_generalised_disjunction(
            final(store)@.handle(h@).nodes,
            old(store)@.handle(f@).nodes,
            old(store)@.handle(g@).nodes,
            vars@,
        ),
{
    fused(store, f, g, vars, FusedOp::OrForAll)
}

/// Whether two handles hold the same diagram, node for node.
pub fn bdd_eq(store: &Store, f: bdd_t, g: bdd_t) -> (b: bool)
    requires
        store@.live_handle(f@),
        store@.live_handle(g@),
    ensures
        b == (store@.handle(f@).nodes == store@.handle(g@).nodes),
{
    engine::same_nodes(bdd_diagram(store, f), bdd_diagram(store, g))
}

/// One cube that satisfies the diagram, or the empty result for the constant
/// `false`.
pub fn bdd_pickcube(store: &Store, f: bdd_t) -> (cube: bdd_assignment_t)
    requires
        store@.wf(),
        store@.live_handle(f@),
    ensures
        cube@ == cube_of(store@.handle(f@).nodes),
        cube.wf(),
        match cube@ {
            Some(values) => values.len() == store@.manager(store@.handle(f@).manager).num_vars
                && is_satisfied_by(store@.handle(f@).nodes, values),
            None => is_unsatisfiable(store@.handle(f@).nodes),
        },
{
    proof {
        assert(store@.handle_ok(f@));
        lemma_cube_is_right(store@.handle(f@).nodes);
    }
    pick_cube(bdd_diagram(store, f))
}

/// The diagram in the engine's byte format: ten bytes for each node, in the
/// order of the node array.
pub fn bdd_to_bytes(store: &Store, f: bdd_t) -> (bytes: Vec<u8>)
    requires
        store@.live_handle(f@),
    ensures
        bytes@ == diagram_bytes(store@.handle(f@).nodes),
{
    engine::to_bytes(bdd_diagram(store, f))
}

} // verus!
