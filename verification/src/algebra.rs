//! The engine's algorithms on diagrams.
//!
//! Nothing in this file is proved. What an algorithm returns is a function of
//! the node arrays of its operands and of the variables named, too long to
//! write down here; this file gives each such result a name. Of each result
//! it states two things. The engine documents that every diagram it builds
//! is ordered and reduced, with the terminals in the first two slots, the
//! root in the last, and every node after its successors: `is_diagram` says
//! so. And the engine documents which Boolean function the result stands
//! for: the predicates of `meaning` say so. The engine stops on operands of
//! different universes, so every call is made on operands of one width. It
//! keeps slots in 32 bits and expects no diagram to outgrow them; the bound
//! on the length in `is_diagram` repeats that.

use vstd::prelude::*;
use biodivine_lib_bdd::Bdd;
use biodivine_lib_bdd::BddVariable;
use crate::diagram::{is_diagram, width, Node};
use crate::engine::nodes_of;
use crate::meaning::{
    is_choice, is_conjunction, is_difference, is_disjunction, is_equivalence, is_exclusive,
    is_generalisation, is_generalised_conjunction, is_generalised_disjunction, is_implication,
    is_projected_conjunction, is_projected_disjunction, is_projection,
};

verus! {

/// The node array of the conjunction of two diagrams, as `Bdd::and` builds it.
pub uninterp spec fn and_nodes(f: Seq<Node>, g: Seq<Node>) -> Seq<Node>;

/// `Bdd::and`: the conjunction of two diagrams.
/// Claimed of the engine: it returns for the same node arrays the same node
/// array, that array is an ordered, reduced diagram of the operands'
/// universe, and it stands for the Boolean function that the engine's
/// documentation names.
#[verifier::external_body]
pub(crate) fn and(f: &Bdd, g: &Bdd) -> (r: Bdd)
    requires
        is_diagram(nodes_of(*f)),
        is_diagram(nodes_of(*g)),
        width(nodes_of(*f)) == width(nodes_of(*g)),
    ensures
        nodes_of(r) == and_nodes(nodes_of(*f), nodes_of(*g)),
        is_diagram(nodes_of(r)),
        width(nodes_of(r)) == width(nodes_of(*f)),
        is_conjunction(nodes_of(r), nodes_of(*f), nodes_of(*g)),
{
    f.and(g)
}

/// The node array of the disjunction of two diagrams, as `Bdd::or` builds it.
pub uninterp spec fn or_nodes(f: Seq<Node>, g: Seq<Node>) -> Seq<Node>;

/// `Bdd::or`: the disjunction of two diagrams.
/// Claimed of the engine: it returns for the same node arrays the same node
/// array, that array is an ordered, reduced diagram of the operands'
/// universe, and it stands for the Boolean function that the engine's
/// documentation names.
#[verifier::external_body]
pub(crate) fn or(f: &Bdd, g: &Bdd) -> (r: Bdd)
    requires
        is_diagram(nodes_of(*f)),
        is_diagram(nodes_of(*g)),
        width(nodes_of(*f)) == width(nodes_of(*g)),
    ensures
        nodes_of(r) == or_nodes(nodes_of(*f), nodes_of(*g)),
        is_diagram(nodes_of(r)),
        width(nodes_of(r)) == width(nodes_of(*f)),
        is_disjunction(nodes_of(r), nodes_of(*f), nodes_of(*g)),
{
    f.or(g)
}

/// The node array of the exclusive disjunction of two diagrams, as `Bdd::xor` builds it.
pub uninterp spec fn xor_nodes(f: Seq<Node>, g: Seq<Node>) -> Seq<Node>;

/// `Bdd::xor`: the exclusive disjunction of two diagrams.
/// Claimed of the engine: it returns for the same node arrays the same node
/// array, that array is an ordered, reduced diagram of the operands'
/// universe, and it stands for the Boolean function that the engine's
/// documentation names.
#[verifier::external_body]
pub(crate) fn xor(f: &Bdd, g: &Bdd) -> (r: Bdd)
    requires
        is_diagram(nodes_of(*f)),
        is_diagram(nodes_of(*g)),
        width(nodes_of(*f)) == width(nodes_of(*g)),
    ensures
        nodes_of(r) == xor_nodes(nodes_of(*f), nodes_of(*g)),
        is_diagram(nodes_of(r)),
        width(nodes_of(r)) == width(nodes_of(*f)),
        is_exclusive(nodes_of(r), nodes_of(*f), nodes_of(*g)),
{
    f.xor(g)
}

/// The node array of the implication from the first diagram to the second, as `Bdd::imp` builds it.
pub uninterp spec fn imp_nodes(f: Seq<Node>, g: Seq<Node>) -> Seq<Node>;

/// `Bdd::imp`: the implication from the first diagram to the second.
/// Claimed of the engine: it returns for the same node arrays the same node
/// array, that array is an ordered, reduced diagram of the operands'
/// universe, and it stands for the Boolean function that the engine's
/// documentation names.
#[verifier::external_body]
pub(crate) fn imp(f: &Bdd, g: &Bdd) -> (r: Bdd)
    requires
        is_diagram(nodes_of(*f)),
        is_diagram(nodes_of(*g)),
        width(nodes_of(*f)) == width(nodes_of(*g)),
    ensures
        nodes_of(r) == imp_nodes(nodes_of(*f), nodes_of(*g)),
        is_diagram(nodes_of(r)),
        width(nodes_of(r)) == width(nodes_of(*f)),
        is_implication(nodes_of(r), nodes_of(*f), nodes_of(*g)),
{
    f.imp(g)
}

/// The node array of the equivalence of two diagrams, as `Bdd::iff` builds it.
pub uninterp spec fn iff_nodes(f: Seq<Node>, g: Seq<Node>) -> Seq<Node>;

/// `Bdd::iff`: the equivalence of two diagrams.
/// Claimed of the engine: it returns for the same node arrays the same node
/// array, that array is an ordered, reduced diagram of the operands'
/// universe, and it stands for the Boolean function that the engine's
/// documentation names.
#[verifier::external_body]
pub(crate) fn iff(f: &Bdd, g: &Bdd) -> (r: Bdd)
    requires
        is_diagram(nodes_of(*f)),
        is_diagram(nodes_of(*g)),
        width(nodes_of(*f)) == width(nodes_of(*g)),
    ensures
        nodes_of(r) == iff_nodes(nodes_of(*f), nodes_of(*g)),
        is_diagram(nodes_of(r)),
        width(nodes_of(r)) == width(nodes_of(*f)),
        is_equivalence(nodes_of(r), nodes_of(*f), nodes_of(*g)),
{
    f.iff(g)
}

/// The node array of the conjunction of the first diagram with the negation of the second, as `Bdd::and_not` builds it.
pub uninterp spec fn and_not_nodes(f: Seq<Node>, g: Seq<Node>) -> Seq<Node>;

/// `Bdd::and_not`: the conjunction of the first diagram with the negation of the second.
/// Claimed of the engine: it returns for the same node arrays the same node
/// array, that array is an ordered, reduced diagram of the operands'
/// universe, and it stands for the Boolean function that the engine's
/// documentation names.
#[verifier::external_body]
pub(crate) fn and_not(f: &Bdd, g: &Bdd) -> (r: Bdd)
    requires
        is_diagram(nodes_of(*f)),
        is_diagram(nodes_of(*g)),
        width(nodes_of(*f)) == width(nodes_of(*g)),
    ensures
        nodes_of(r) == and_not_nodes(nodes_of(*f), nodes_of(*g)),
        is_diagram(nodes_of(r)),
        width(nodes_of(r)) == width(nodes_of(*f)),
        is_difference(nodes_of(r), nodes_of(*f), nodes_of(*g)),
{
    f.and_not(g)
}

/// The node array of "if `f` then `g` else `h`", as `Bdd::if_then_else`
/// builds it.
pub uninterp spec fn ite_nodes(f: Seq<Node>, g: Seq<Node>, h: Seq<Node>) -> Seq<Node>;

/// `Bdd::if_then_else`: the diagram that agrees with `g` where `f` holds and
/// with `h` elsewhere.
/// Claimed of the engine: it returns for the same node arrays the same node
/// array, that array is an ordered, reduced diagram of the operands'
/// universe, and it stands for the Boolean function that the engine's
/// documentation names.
#[verifier::external_body]
pub(crate) fn ite(f: &Bdd, g: &Bdd, h: &Bdd) -> (r: Bdd)
    requires
        is_diagram(nodes_of(*f)),
        is_diagram(nodes_of(*g)),
        is_diagram(nodes_of(*h)),
        width(nodes_of(*f)) == width(nodes_of(*g)),
        width(nodes_of(*f)) == width(nodes_of(*h)),
    ensures
        nodes_of(r) == ite_nodes(nodes_of(*f), nodes_of(*g), nodes_of(*h)),
        is_diagram(nodes_of(r)),
        width(nodes_of(r)) == width(nodes_of(*f)),
        is_choice(nodes_of(r), nodes_of(*f), nodes_of(*g), nodes_of(*h)),
{
    Bdd::if_then_else(f, g, h)
}

/// The node array of `f` with variable `var` eliminated existentially, as
/// `Bdd::var_exists` builds it.
pub uninterp spec fn var_exists_nodes(f: Seq<Node>, var: u16) -> Seq<Node>;

/// `Bdd::var_exists`: one variable eliminated existentially. The engine stops on a
/// variable outside the universe.
/// Claimed of the engine: it returns for the same node arrays the same node
/// array, that array is an ordered, reduced diagram of the operands'
/// universe, and it stands for the Boolean function that the engine's
/// documentation names.
#[verifier::external_body]
pub(crate) fn var_exists(f: &Bdd, var: u16) -> (r: Bdd)
    requires
        is_diagram(nodes_of(*f)),
        var < width(nodes_of(*f)),
    ensures
        nodes_of(r) == var_exists_nodes(nodes_of(*f), var),
        is_diagram(nodes_of(r)),
        width(nodes_of(r)) == width(nodes_of(*f)),
        is_projection(nodes_of(r), nodes_of(*f), seq![var]),
{
    f.var_exists(BddVariable::from_index(var as usize))
}

/// The node array of `f` with variable `var` eliminated universally, as
/// `Bdd::var_for_all` builds it.
pub uninterp spec fn var_for_all_nodes(f: Seq<Node>, var: u16) -> Seq<Node>;

/// `Bdd::var_for_all`: one variable eliminated universally. The engine stops on a
/// variable outside the universe.
/// Claimed of the engine: it returns for the same node arrays the same node
/// array, that array is an ordered, reduced diagram of the operands'
/// universe, and it stands for the Boolean function that the engine's
/// documentation names.
#[verifier::external_body]
pub(crate) fn var_for_all(f: &Bdd, var: u16) -> (r: Bdd)
    requires
        is_diagram(nodes_of(*f)),
        var < width(nodes_of(*f)),
    ensures
        nodes_of(r) == var_for_all_nodes(nodes_of(*f), var),
        is_diagram(nodes_of(r)),
        width(nodes_of(r)) == width(nodes_of(*f)),
        is_generalisation(nodes_of(r), nodes_of(*f), seq![var]),
{
    f.var_for_all(BddVariable::from_index(var as usize))
}

/// The node array of `f` with the variables `vars` eliminated existentially, as
/// `Bdd::exists` builds it.
pub uninterp spec fn exists_nodes(f: Seq<Node>, vars: Seq<u16>) -> Seq<Node>;

/// `Bdd::exists`: the listed variables eliminated existentially. A listed number
/// that is no variable of the universe has no effect.
/// Claimed of the engine: it returns for the same node arrays the same node
/// array, that array is an ordered, reduced diagram of the operands'
/// universe, and it stands for the Boolean function that the engine's
/// documentation names.
#[verifier::external_body]
pub(crate) fn exists_vars(f: &Bdd, vars: &[u16]) -> (r: Bdd)
    requires
        is_diagram(nodes_of(*f)),
    ensures
        nodes_of(r) == exists_nodes(nodes_of(*f), vars@),
        is_diagram(nodes_of(r)),
        width(nodes_of(r)) == width(nodes_of(*f)),
        is_projection(nodes_of(r), nodes_of(*f), vars@),
{
    let vars: Vec<BddVariable> = vars.iter().map(|&v| BddVariable::from_index(v as usize)).collect();
    f.exists(&vars)
}

/// The node array of `f` with the variables `vars` eliminated universally, as
/// `Bdd::for_all` builds it.
pub uninterp spec fn for_all_nodes(f: Seq<Node>, vars: Seq<u16>) -> Seq<Node>;

/// `Bdd::for_all`: the listed variables eliminated universally. A listed number
/// that is no variable of the universe has no effect.
/// Claimed of the engine: it returns for the same node arrays the same node
/// array, that array is an ordered, reduced diagram of the operands'
/// universe, and it stands for the Boolean function that the engine's
/// documentation names.
#[verifier::external_body]
pub(crate) fn for_all_vars(f: &Bdd, vars: &[u16]) -> (r: Bdd)
    requires
        is_diagram(nodes_of(*f)),
    ensures
        nodes_of(r) == for_all_nodes(nodes_of(*f), vars@),
        is_diagram(nodes_of(r)),
        width(nodes_of(r)) == width(nodes_of(*f)),
        is_generalisation(nodes_of(r), nodes_of(*f), vars@),
{
    let vars: Vec<BddVariable> = vars.iter().map(|&v| BddVariable::from_index(v as usize)).collect();
    f.for_all(&vars)
}

/// The node array of the conjunction of `f` and `g` with the variables `vars`
/// eliminated existentially, as `Bdd::binary_op_with_exists` builds it with the operator
/// `op_function::and`.
pub uninterp spec fn and_exists_nodes(f: Seq<Node>, g: Seq<Node>, vars: Seq<u16>) -> Seq<Node>;

/// `Bdd::binary_op_with_exists` with `op_function::and`: the conjunction
/// of two diagrams and the elimination of the listed variables in one pass.
/// Claimed of the engine: it returns for the same node arrays the same node
/// array, that array is an ordered, reduced diagram of the operands'
/// universe, and it stands for the Boolean function that the engine's
/// documentation names.
#[verifier::external_body]
pub(crate) fn and_exists(f: &Bdd, g: &Bdd, vars: &[u16]) -> (r: Bdd)
    requires
        is_diagram(nodes_of(*f)),
        is_diagram(nodes_of(*g)),
        width(nodes_of(*f)) == width(nodes_of(*g)),
    ensures
        nodes_of(r) == and_exists_nodes(nodes_of(*f), nodes_of(*g), vars@),
        is_diagram(nodes_of(r)),
        width(nodes_of(r)) == width(nodes_of(*f)),
        is_projected_conjunction(nodes_of(r), nodes_of(*f), nodes_of(*g), vars@),
{
    let vars: Vec<BddVariable> = vars.iter().map(|&v| BddVariable::from_index(v as usize)).collect();
    Bdd::binary_op_with_exists(f, g, biodivine_lib_bdd::op_function::and, &vars)
}

/// The node array of the disjunction of `f` and `g` with the variables `vars`
/// eliminated existentially, as `Bdd::binary_op_with_exists` builds it with the operator
/// `op_function::or`.
pub uninterp spec fn or_exists_nodes(f: Seq<Node>, g: Seq<Node>, vars: Seq<u16>) -> Seq<Node>;

/// `Bdd::binary_op_with_exists` with `op_function::or`: the disjunction
/// of two diagrams and the elimination of the listed variables in one pass.
/// Claimed of the engine: it returns for the same node arrays the same node
/// array, that array is an ordered, reduced diagram of the operands'
/// universe, and it stands for the Boolean function that the engine's
/// documentation names.
#[verifier::external_body]
pub(crate) fn or_exists(f: &Bdd, g: &Bdd, vars: &[u16]) -> (r: Bdd)
    requires
        is_diagram(nodes_of(*f)),
        is_diagram(nodes_of(*g)),
        width(nodes_of(*f)) == width(nodes_of(*g)),
    ensures
        nodes_of(r) == or_exists_nodes(nodes_of(*f), nodes_of(*g), vars@),
        is_diagram(nodes_of(r)),
        width(nodes_of(r)) == width(nodes_of(*f)),
        is_projected_disjunction(nodes_of(r), nodes_of(*f), nodes_of(*g), vars@),
{
    let vars: Vec<BddVariable> = vars.iter().map(|&v| BddVariable::from_index(v as usize)).collect();
    Bdd::binary_op_with_exists(f, g, biodivine_lib_bdd::op_function::or, &vars)
}

/// The node array of the conjunction of `f` and `g` with the variables `vars`
/// eliminated universally, as `Bdd::binary_op_with_for_all` builds it with the operator
/// `op_function::and`.
pub uninterp spec fn and_for_all_nodes(f: Seq<Node>, g: Seq<Node>, vars: Seq<u16>) -> Seq<Node>;

/// `Bdd::binary_op_with_for_all` with `op_function::and`: the conjunction
/// of two diagrams and the elimination of the listed variables in one pass.
/// Claimed of the engine: it returns for the same node arrays the same node
/// array, that array is an ordered, reduced diagram of the operands'
/// universe, and it stands for the Boolean function that the engine's
/// documentation names.
#[verifier::external_body]
pub(crate) fn and_for_all(f: &Bdd, g: &Bdd, vars: &[u16]) -> (r: Bdd)
    requires
        is_diagram(nodes_of(*f)),
        is_diagram(nodes_of(*g)),
        width(nodes_of(*f)) == width(nodes_of(*g)),
    ensures
        nodes_of(r) == and_for_all_nodes(nodes_of(*f), nodes_of(*g), vars@),
        is_diagram(nodes_of(r)),
        width(nodes_of(r)) == width(nodes_of(*f)),
        is_generalised_conjunction(nodes_of(r), nodes_of(*f), nodes_of(*g), vars@),
{
    let vars: Vec<BddVariable> = vars.iter().map(|&v| BddVariable::from_index(v as usize)).collect();
    Bdd::binary_op_with_for_all(f, g, biodivine_lib_bdd::op_function::and, &vars)
}

/// The node array of the disjunction of `f` and `g` with the variables `vars`
/// eliminated universally, as `Bdd::binary_op_with_for_all` builds it with the operator
/// `op_function::or`.
pub uninterp spec fn or_for_all_nodes(f: Seq<Node>, g: Seq<Node>, vars: Seq<u16>) -> Seq<Node>;

/// `Bdd::binary_op_with_for_all` with `op_function::or`: the disjunction
/// of two diagrams and the elimination of the listed variables in one pass.
/// Claimed of the engine: it returns for the same node arrays the same node
/// array, that array is an ordered, reduced diagram of the operands'
/// universe, and it stands for the Boolean function that the engine's
/// documentation names.
#[verifier::external_body]
pub(crate) fn or_for_all(f: &Bdd, g: &Bdd, vars: &[u16]) -> (r: Bdd)
    requires
        is_diagram(nodes_of(*f)),
        is_diagram(nodes_of(*g)),
        width(nodes_of(*f)) == width(nodes_of(*g)),
    ensures
        nodes_of(r) == or_for_all_nodes(nodes_of(*f), nodes_of(*g), vars@),
        is_diagram(nodes_of(r)),
        width(nodes_of(r)) == width(nodes_of(*f)),
        is_generalised_disjunction(nodes_of(r), nodes_of(*f), nodes_of(*g), vars@),
{
    let vars: Vec<BddVariable> = vars.iter().map(|&v| BddVariable::from_index(v as usize)).collect();
    Bdd::binary_op_with_for_all(f, g, biodivine_lib_bdd::op_function::or, &vars)
}

} // verus!
