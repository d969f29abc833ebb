//! What diagrams mean as Boolean functions, and what the operators do to
//! that meaning.
//!
//! A valuation gives each variable of the universe a truth value; a diagram
//! holds under it if the path that the valuation picks from the root ends in
//! the `true` terminal.

use vstd::prelude::*;
use crate::cube::{
    agrees, cube_of, is_unsatisfiable, lemma_cube_satisfies, lemma_cube_shape, OptBool,
};
use crate::diagram::{
    decision_at, eval, false_nodes, holds, is_diagram, literal_nodes, not_nodes, true_nodes, width,
    Node,
};

verus! {

/// `r` holds exactly where `f` does not.
pub open spec fn is_negation(r: Seq<Node>, f: Seq<Node>) -> bool {
    forall|v: Seq<bool>| v.len() == width(f) ==> #[trigger] holds(r, v) == !holds(f, v)
}

/// `r` holds exactly where `f` and `g` both hold.
pub open spec fn is_conjunction(r: Seq<Node>, f: Seq<Node>, g: Seq<Node>) -> bool {
    forall|v: Seq<bool>|
        v.len() == width(f) ==> #[trigger] holds(r, v) == (holds(f, v) && holds(g, v))
}

/// `r` holds exactly where `f` or `g` holds.
pub open spec fn is_disjunction(r: Seq<Node>, f: Seq<Node>, g: Seq<Node>) -> bool {
    forall|v: Seq<bool>|
        v.len() == width(f) ==> #[trigger] holds(r, v) == (holds(f, v) || holds(g, v))
}

/// `r` holds exactly where one of `f` and `g` holds and the other does not.
pub open spec fn is_exclusive(r: Seq<Node>, f: Seq<Node>, g: Seq<Node>) -> bool {
    forall|v: Seq<bool>|
        v.len() == width(f) ==> #[trigger] holds(r, v) == (holds(f, v) != holds(g, v))
}

/// `r` holds exactly where `g` holds or `f` does not.
pub open spec fn is_implication(r: Seq<Node>, f: Seq<Node>, g: Seq<Node>) -> bool {
    forall|v: Seq<bool>|
        v.len() == width(f) ==> #[trigger] holds(r, v) == (holds(f, v) ==> holds(g, v))
}

/// `r` holds exactly where `f` and `g` both hold or both do not.
pub open spec fn is_equivalence(r: Seq<Node>, f: Seq<Node>, g: Seq<Node>) -> bool {
    forall|v: Seq<bool>|
        v.len() == width(f) ==> #[trigger] holds(r, v) == (holds(f, v) == holds(g, v))
}

/// `r` holds exactly where `f` holds and `g` does not.
pub open spec fn is_difference(r: Seq<Node>, f: Seq<Node>, g: Seq<Node>) -> bool {
    forall|v: Seq<bool>|
        v.len() == width(f) ==> #[trigger] holds(r, v) == (holds(f, v) && !holds(g, v))
}

/// `r` agrees with `g` where `f` holds and with `h` elsewhere.
pub open spec fn is_choice(r: Seq<Node>, f: Seq<Node>, g: Seq<Node>, h: Seq<Node>) -> bool {
    forall|v: Seq<bool>|
        v.len() == width(f) ==> #[trigger] holds(r, v) == if holds(f, v) {
            holds(g, v)
        } else {
            holds(h, v)
        }
}

/// The valuations `v` and `w` differ at most in the variables listed.
pub open spec fn same_outside(v: Seq<bool>, w: Seq<bool>, vars: Seq<u16>) -> bool {
    &&& v.len() == w.len()
    &&& forall|i: int| 0 <= i < v.len() && !vars.contains(i as u16) ==> v[i] == w[i]
}

/// `r` holds under `v` exactly where `f` holds under some valuation that
/// differs from `v` at most in the variables listed.
pub open spec fn is_projection(r: Seq<Node>, f: Seq<Node>, vars: Seq<u16>) -> bool {
    forall|v: Seq<bool>|
        v.len() == width(f) ==> #[trigger] holds(r, v) == exists|w: Seq<bool>|
            same_outside(v, w, vars) && #[trigger] holds(f, w)
}

/// `r` holds under `v` exactly where `f` holds under every valuation that
/// differs from `v` at most in the variables listed.
pub open spec fn is_generalisation(r: Seq<Node>, f: Seq<Node>, vars: Seq<u16>) -> bool {
    forall|v: Seq<bool>|
        v.len() == width(f) ==> #[trigger] holds(r, v) == forall|w: Seq<bool>|
            same_outside(v, w, vars) ==> #[trigger] holds(f, w)
}

/// `r` holds under `v` exactly where `f` and `g` both hold under some
/// valuation that differs from `v` at most in the variables listed.
pub open spec fn is_projected_conjunction(
    r: Seq<Node>,
    f: Seq<Node>,
    g: Seq<Node>,
    vars: Seq<u16>,
) -> bool {
    forall|v: Seq<bool>|
        v.len() == width(f) ==> #[trigger] holds(r, v) == exists|w: Seq<bool>|
            same_outside(v, w, vars) && #[trigger] holds(f, w) && holds(g, w)
}

/// `r` holds under `v` exactly where `f` or `g` holds under some valuation
/// that differs from `v` at most in the variables listed.
pub open spec fn is_projected_disjunction(
    r: Seq<Node>,
    f: Seq<Node>,
    g: Seq<Node>,
    vars: Seq<u16>,
) -> bool {
    forall|v: Seq<bool>|
        v.len() == width(f) ==> #[trigger] holds(r, v) == exists|w: Seq<bool>|
            same_outside(v, w, vars) && (#[trigger] holds(f, w) || holds(g, w))
}

/// `r` holds under `v` exactly where `f` and `g` both hold under every
/// valuation that differs from `v` at most in the variables listed.
pub open spec fn is_generalised_conjunction(
    r: Seq<Node>,
    f: Seq<Node>,
    g: Seq<Node>,
    vars: Seq<u16>,
) -> bool {
    forall|v: Seq<bool>|
        v.len() == width(f) ==> #[trigger] holds(r, v) == forall|w: Seq<bool>|
            same_outside(v, w, vars) ==> #[trigger] holds(f, w) && holds(g, w)
}

/// `r` holds under `v` exactly where `f` or `g` holds under every valuation
/// that differs from `v` at most in the variables listed.
pub open spec fn is_generalised_disjunction(
    r: Seq<Node>,
    f: Seq<Node>,
    g: Seq<Node>,
    vars: Seq<u16>,
) -> bool {
    forall|v: Seq<bool>|
        v.len() == width(f) ==> #[trigger] holds(r, v) == forall|w: Seq<bool>|
            same_outside(v, w, vars) ==> #[trigger] holds(f, w) || holds(g, w)
}

/// The constants and literals mean what they are called.
pub proof fn lemma_leaves_mean(num_vars: u16, i: u16, v: Seq<bool>)
    requires
        i < num_vars,
    ensures
        !holds(false_nodes(num_vars), v),
        holds(true_nodes(num_vars), v),
        holds(literal_nodes(num_vars, i, true), v) == v[i as int],
        holds(literal_nodes(num_vars, i, false), v) == !v[i as int],
{
    reveal_with_fuel(eval, 2);
}

/// Below every decision node, the negated diagram holds exactly where the
/// diagram does not.
proof fn lemma_not_flips(nodes: Seq<Node>, p: int, v: Seq<bool>)
    requires
        is_diagram(nodes),
        nodes.len() > 2,
        2 <= p < nodes.len(),
    ensures
        eval(not_nodes(nodes), p, v) == !eval(nodes, p, v),
    decreases p,
{
    assert(decision_at(nodes, p));
    let n = nodes[p];
    let flipped = not_nodes(nodes);
    let m = flipped[p];
    if n.low >= 2 {
        lemma_not_flips(nodes, n.low as int, v);
    } else {
        assert(eval(flipped, m.low as int, v) == (m.low == 1));
        assert(eval(nodes, n.low as int, v) == (n.low == 1));
    }
    if n.high >= 2 {
        lemma_not_flips(nodes, n.high as int, v);
    } else {
        assert(eval(flipped, m.high as int, v) == (m.high == 1));
        assert(eval(nodes, n.high as int, v) == (n.high == 1));
    }
}

/// The negation of a diagram holds exactly where the diagram does not.
pub proof fn lemma_not_negates(nodes: Seq<Node>)
    requires
        is_diagram(nodes),
    ensures
        is_negation(not_nodes(nodes), nodes),
{
    assert forall|v: Seq<bool>| v.len() == width(nodes) implies #[trigger] holds(
        not_nodes(nodes),
        v,
    ) == !holds(nodes, v) by {
        if nodes.len() > 2 {
            lemma_not_flips(nodes, nodes.len() - 1, v);
        }
    }
}

/// The valuation that makes true exactly the variables that the cube wants
/// true.
pub open spec fn valuation_of(cube: Seq<OptBool>) -> Seq<bool> {
    Seq::new(cube.len(), |i: int| cube[i] == OptBool::True)
}

/// A diagram that holds under no valuation is the constant `false`.
pub proof fn lemma_unsatisfiable_is_false(nodes: Seq<Node>)
    requires
        is_diagram(nodes),
        is_unsatisfiable(nodes),
    ensures
        nodes == false_nodes(width(nodes)),
{
    lemma_cube_shape(nodes);
    if cube_of(nodes) is Some {
        let cube = cube_of(nodes)->0;
        let v = valuation_of(cube);
        lemma_cube_satisfies(nodes, v);
    }
}

/// The conjunction of a diagram with its negation is the constant `false`,
/// whatever the diagram.
pub proof fn lemma_contradiction_is_false(r: Seq<Node>, f: Seq<Node>, g: Seq<Node>)
    requires
        is_diagram(r),
        width(r) == width(f),
        is_negation(g, f),
        is_conjunction(r, f, g),
    ensures
        r == false_nodes(width(f)),
{
    assert forall|v: Seq<bool>| v.len() == width(r) implies !#[trigger] holds(r, v) by {}
    lemma_unsatisfiable_is_false(r);
}

} // verus!
