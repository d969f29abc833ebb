//! The decision-diagram engine, `biodivine_lib_bdd`, as this library sees it.
//!
//! Nothing in this file is proved. Each function here makes one call into the
//! engine, and its contract states what the engine's source shows of that
//! call. The node array of a diagram is named by [`nodes_of`]. The engine's
//! algorithms on diagrams stand in `algebra`.

use vstd::prelude::*;
use biodivine_lib_bdd::Bdd;
use biodivine_lib_bdd::BddNode;
use biodivine_lib_bdd::BddPointer;
use biodivine_lib_bdd::BddVariable;
use biodivine_lib_bdd::BddVariableSet;
use crate::diagram::{false_nodes, literal_nodes, not_nodes, true_nodes, width, Node, MAX_VARS};

verus! {

/// The engine's diagram type.
#[verifier::external_type_specification]
#[verifier::external_body]
pub struct ExBdd(Bdd);

/// The engine's variable universe.
#[verifier::external_type_specification]
#[verifier::external_body]
pub struct ExBddVariableSet(BddVariableSet);

/// The node array that a diagram holds, terminals first, root last.
pub uninterp spec fn nodes_of(bdd: Bdd) -> Seq<Node>;

/// The number of variables that a universe was made with.
pub uninterp spec fn universe_size(universe: BddVariableSet) -> u16;

/// `BddVariableSet::new_anonymous`: a universe of `num_vars` unnamed
/// variables. The engine refuses more than `MAX_VARS`.
#[verifier::external_body]
pub(crate) fn new_universe(num_vars: u16) -> (universe: BddVariableSet)
    requires
        num_vars <= MAX_VARS,
    ensures
        universe_size(universe) == num_vars,
{
    BddVariableSet::new_anonymous(num_vars)
}

/// `BddVariableSet::num_vars`: the number of variables of the universe.
#[verifier::external_body]
pub(crate) fn universe_num_vars(universe: &BddVariableSet) -> (n: u16)
    ensures
        n == universe_size(*universe),
{
    universe.num_vars()
}

/// `BddVariableSet::mk_true`: the two terminals of the universe.
#[verifier::external_body]
pub(crate) fn mk_true(universe: &BddVariableSet) -> (bdd: Bdd)
    ensures
        nodes_of(bdd) == true_nodes(universe_size(*universe)),
{
    universe.mk_true()
}

/// `BddVariableSet::mk_false`: the `false` terminal of the universe alone.
#[verifier::external_body]
pub(crate) fn mk_false(universe: &BddVariableSet) -> (bdd: Bdd)
    ensures
        nodes_of(bdd) == false_nodes(universe_size(*universe)),
{
    universe.mk_false()
}

/// `BddVariableSet::mk_var`: the terminals and one node that decides on
/// variable `i`, low to `false`, high to `true`. The engine asserts that `i`
/// is a variable of the universe.
#[verifier::external_body]
pub(crate) fn mk_var(universe: &BddVariableSet, i: u16) -> (bdd: Bdd)
    requires
        i < universe_size(*universe),
    ensures
        nodes_of(bdd) == literal_nodes(universe_size(*universe), i, true),
{
    universe.mk_var(BddVariable::from_index(i as usize))
}

/// `BddVariableSet::mk_not_var`: as `mk_var`, with the two successors
/// exchanged.
#[verifier::external_body]
pub(crate) fn mk_not_var(universe: &BddVariableSet, i: u16) -> (bdd: Bdd)
    requires
        i < universe_size(*universe),
    ensures
        nodes_of(bdd) == literal_nodes(universe_size(*universe), i, false),
{
    universe.mk_not_var(BddVariable::from_index(i as usize))
}

/// `Bdd::size`: the length of the node array.
#[verifier::external_body]
pub(crate) fn size(bdd: &Bdd) -> (n: usize)
    ensures
        n == nodes_of(*bdd).len(),
{
    bdd.size()
}

/// `Bdd::is_false`: whether the node array has exactly one node.
#[verifier::external_body]
pub(crate) fn is_false(bdd: &Bdd) -> (b: bool)
    ensures
        b == (nodes_of(*bdd).len() == 1),
{
    bdd.is_false()
}

/// `Bdd::num_vars`: the variable field of the first node. The engine indexes
/// the array without a check, so it must not be empty.
#[verifier::external_body]
pub(crate) fn num_vars(bdd: &Bdd) -> (n: u16)
    requires
        nodes_of(*bdd).len() >= 1,
    ensures
        n == width(nodes_of(*bdd)),
{
    bdd.num_vars()
}

/// `Bdd::root_pointer`: the last slot of the node array. The engine keeps
/// slots in 32 bits, so the array must be non-empty and no longer than that
/// reaches.
#[verifier::external_body]
pub(crate) fn root(bdd: &Bdd) -> (p: usize)
    requires
        1 <= nodes_of(*bdd).len() <= 0x1_0000_0000,
    ensures
        p == nodes_of(*bdd).len() - 1,
{
    bdd.root_pointer().to_index()
}

/// `Bdd::low_link_of`: the low successor of the node in slot `p`. The engine
/// indexes the array without a check.
#[verifier::external_body]
pub(crate) fn low_link(bdd: &Bdd, p: usize) -> (c: usize)
    requires
        p < nodes_of(*bdd).len(),
        p <= u32::MAX,
    ensures
        c == nodes_of(*bdd)[p as int].low,
{
    bdd.low_link_of(BddPointer::from_index(p)).to_index()
}

/// `Bdd::high_link_of`: the high successor of the node in slot `p`.
#[verifier::external_body]
pub(crate) fn high_link(bdd: &Bdd, p: usize) -> (c: usize)
    requires
        p < nodes_of(*bdd).len(),
        p <= u32::MAX,
    ensures
        c == nodes_of(*bdd)[p as int].high,
{
    bdd.high_link_of(BddPointer::from_index(p)).to_index()
}

/// `Bdd::var_of`: the variable field of the node in slot `p`.
#[verifier::external_body]
pub(crate) fn var_of(bdd: &Bdd, p: usize) -> (v: u16)
    requires
        p < nodes_of(*bdd).len(),
        p <= u32::MAX,
    ensures
        v == nodes_of(*bdd)[p as int].var,
{
    bdd.var_of(BddPointer::from_index(p)).to_index() as u16
}

/// `Bdd`'s derived `==`: two diagrams are equal when their node arrays are.
#[verifier::external_body]
pub(crate) fn same_nodes(f: &Bdd, g: &Bdd) -> (b: bool)
    ensures
        b == (nodes_of(*f) == nodes_of(*g)),
{
    f == g
}

/// `Bdd::not`: `true` and `false` are exchanged; in any other diagram every
/// successor that is a terminal is replaced by the other terminal.
#[verifier::external_body]
pub(crate) fn not(f: &Bdd) -> (r: Bdd)
    ensures
        nodes_of(r) == not_nodes(nodes_of(*f)),
{
    f.not()
}

/// What `Bdd::from_nodes` checks of slot `i` of a node array: the variable
/// is one of the universe, both successors are slots of the array, and
/// neither decides on an earlier variable.
pub open spec fn accepted_at(nodes: Seq<Node>, i: int) -> bool {
    let n = nodes[i];
    &&& n.var < width(nodes)
    &&& n.low < nodes.len()
    &&& n.high < nodes.len()
    &&& n.var <= nodes[n.low as int].var
    &&& n.var <= nodes[n.high as int].var
}

/// What `Bdd::from_nodes` checks of a node array before it makes a diagram of
/// it.
pub open spec fn accepted(nodes: Seq<Node>) -> bool {
    &&& nodes.len() >= 1
    &&& nodes[0].low == 0 && nodes[0].high == 0
    &&& nodes.len() >= 2 ==> nodes[1].low == 1 && nodes[1].high == 1
    &&& forall|i: int| 2 <= i < nodes.len() ==> #[trigger] accepted_at(nodes, i)
}

/// `Bdd::from_nodes`: the diagram with exactly the given node array, where
/// the array passes the engine's checks; nothing where it does not.
#[verifier::external_body]
pub(crate) fn from_nodes(nodes: &Vec<Node>) -> (r: Option<Bdd>)
    ensures
        r is Some <==> accepted(nodes@),
        r matches Some(bdd) ==> nodes_of(bdd) == nodes@,
{
    let raw: Vec<BddNode> = nodes.iter().map(
        |n| BddNode::mk_node(
            BddVariable::from_index(n.var as usize),
            BddPointer::from_index(n.low as usize),
            BddPointer::from_index(n.high as usize),
        ),
    ).collect();
    Bdd::from_nodes(&raw).ok()
}

/// The two bytes of `x`, low byte first.
pub open spec fn le_bytes2(x: u16) -> Seq<u8> {
    seq![(x % 256) as u8, (x / 256) as u8]
}

/// The four bytes of `x`, low byte first.
pub open spec fn le_bytes4(x: u32) -> Seq<u8> {
    seq![
        (x % 256) as u8,
        (x / 256 % 256) as u8,
        (x / 65536 % 256) as u8,
        (x / 16777216) as u8,
    ]
}

/// The ten bytes that the engine writes for one node: variable, low and high
/// successor, each with its low byte first.
pub open spec fn node_bytes(n: Node) -> Seq<u8> {
    le_bytes2(n.var) + le_bytes4(n.low) + le_bytes4(n.high)
}

/// The bytes that the engine writes for a node array: those of its nodes, in
/// order.
pub open spec fn diagram_bytes(nodes: Seq<Node>) -> Seq<u8>
    decreases nodes.len(),
{
    if nodes.len() == 0 {
        Seq::empty()
    } else {
        diagram_bytes(nodes.drop_last()) + node_bytes(nodes.last())
    }
}

/// `Bdd::to_bytes`: the engine's byte format of the diagram.
#[verifier::external_body]
pub(crate) fn to_bytes(bdd: &Bdd) -> (bytes: Vec<u8>)
    ensures
        bytes@ == diagram_bytes(nodes_of(*bdd)),
{
    bdd.to_bytes()
}

} // verus!
