//! A decision diagram as a sequence of nodes: its shape and its value.
//!
//! A diagram is an array of nodes. Slot 0 is the `false` terminal, slot 1 (if
//! present) the `true` terminal, every later slot is a decision node whose two
//! successors stand before it. The root is the last slot. A valuation picks
//! at each decision node the high successor if the node's variable is true
//! and the low one if not; the diagram's value is the terminal it ends in.

use vstd::prelude::*;

verus! {

/// One node of a diagram: the variable it decides on and the slots of its two
/// successors. A terminal carries the number of variables of its universe in
/// `var` and points at itself.
#[derive(Clone, Copy, PartialEq, Eq, Structural, Debug)]
pub struct Node {
    pub var: u16,
    pub low: u32,
    pub high: u32,
}

/// The largest number of variables a universe may have.
pub const MAX_VARS: u16 = 65533;

/// The `false` terminal of a universe of `num_vars` variables.
pub open spec fn zero_node(num_vars: u16) -> Node {
    Node { var: num_vars, low: 0, high: 0 }
}

/// The `true` terminal of a universe of `num_vars` variables.
pub open spec fn one_node(num_vars: u16) -> Node {
    Node { var: num_vars, low: 1, high: 1 }
}

/// The number of variables of the universe a diagram belongs to.
pub open spec fn width(nodes: Seq<Node>) -> u16 {
    nodes[0].var
}

/// Slot `i` holds a proper decision node: its variable is one of the universe,
/// both successors stand before it and differ, and each successor decides on a
/// later variable (terminals count as later than every variable).
pub open spec fn decision_at(nodes: Seq<Node>, i: int) -> bool {
    let n = nodes[i];
    &&& n.var < width(nodes)
    &&& n.low < i
    &&& n.high < i
    &&& n.low != n.high
    &&& n.var < nodes[n.low as int].var
    &&& n.var < nodes[n.high as int].var
}

/// `nodes` is a reduced, ordered decision diagram.
pub open spec fn is_diagram(nodes: Seq<Node>) -> bool {
    &&& 1 <= nodes.len() <= 0x1_0000_0000
    &&& nodes[0] == zero_node(width(nodes))
    &&& nodes.len() >= 2 ==> nodes[1] == one_node(width(nodes))
    &&& forall|i: int| 2 <= i < nodes.len() ==> #[trigger] decision_at(nodes, i)
}

/// The value of the diagram below slot `p` under the valuation `v`, which
/// gives each variable a truth value.
pub open spec fn eval(nodes: Seq<Node>, p: int, v: Seq<bool>) -> bool
    decreases p,
{
    if 2 <= p < nodes.len() && nodes[p].low < p && nodes[p].high < p {
        if v[nodes[p].var as int] {
            eval(nodes, nodes[p].high as int, v)
        } else {
            eval(nodes, nodes[p].low as int, v)
        }
    } else {
        p == 1
    }
}

/// The diagram is true under the valuation `v`.
pub open spec fn holds(nodes: Seq<Node>, v: Seq<bool>) -> bool {
    eval(nodes, nodes.len() - 1, v)
}

/// The diagram of the constant `false`.
pub open spec fn false_nodes(num_vars: u16) -> Seq<Node> {
    seq![zero_node(num_vars)]
}

/// The diagram of the constant `true`.
pub open spec fn true_nodes(num_vars: u16) -> Seq<Node> {
    seq![zero_node(num_vars), one_node(num_vars)]
}

/// The diagram of the literal `x_i` (`positive`) or `!x_i`.
pub open spec fn literal_nodes(num_vars: u16, i: u16, positive: bool) -> Seq<Node> {
    seq![
        zero_node(num_vars),
        one_node(num_vars),
        if positive {
            Node { var: i, low: 0, high: 1 }
        } else {
            Node { var: i, low: 1, high: 0 }
        },
    ]
}

/// A successor slot as negation leaves it: the two terminals swap, a decision
/// node stays.
pub open spec fn flipped(link: u32) -> u32 {
    if link == 0 {
        1
    } else if link == 1 {
        0
    } else {
        link
    }
}

/// The diagram of the negation of `nodes`.
pub open spec fn not_nodes(nodes: Seq<Node>) -> Seq<Node> {
    if nodes.len() == 1 {
        true_nodes(width(nodes))
    } else if nodes.len() == 2 {
        false_nodes(width(nodes))
    } else {
        Seq::new(
            nodes.len(),
            |i: int|
                if i < 2 {
                    nodes[i]
                } else {
                    Node { var: nodes[i].var, low: flipped(nodes[i].low), high: flipped(nodes[i].high) }
                },
        )
    }
}

/// The two constants are diagrams of their universe.
pub proof fn lemma_constants_are_diagrams(num_vars: u16)
    ensures
        is_diagram(false_nodes(num_vars)),
        is_diagram(true_nodes(num_vars)),
        width(false_nodes(num_vars)) == num_vars,
        width(true_nodes(num_vars)) == num_vars,
{
}

/// A literal of a variable of the universe is a diagram of that universe.
pub proof fn lemma_literal_is_diagram(num_vars: u16, i: u16, positive: bool)
    requires
        i < num_vars,
    ensures
        is_diagram(literal_nodes(num_vars, i, positive)),
        width(literal_nodes(num_vars, i, positive)) == num_vars,
{
}

/// Negation keeps a diagram a diagram of the same universe.
pub proof fn lemma_not_is_diagram(nodes: Seq<Node>)
    requires
        is_diagram(nodes),
    ensures
        is_diagram(not_nodes(nodes)),
        width(not_nodes(nodes)) == width(nodes),
{
    let r = not_nodes(nodes);
    if nodes.len() > 2 {
        assert forall|i: int| 2 <= i < r.len() implies #[trigger] decision_at(r, i) by {
            assert(decision_at(nodes, i));
        }
    }
}

/// Negating twice gives the diagram back.
pub proof fn lemma_not_involution(nodes: Seq<Node>)
    requires
        is_diagram(nodes),
    ensures
        not_nodes(not_nodes(nodes)) == nodes,
{
}

/// Only the constant `false` has a single node.
pub proof fn lemma_single_node_is_false(nodes: Seq<Node>)
    requires
        is_diagram(nodes),
    ensures
        nodes.len() == false_nodes(width(nodes)).len() <==> nodes == false_nodes(width(nodes)),
{
    if nodes.len() == 1 {
        assert(nodes =~= false_nodes(width(nodes)));
    }
}

} // verus!
