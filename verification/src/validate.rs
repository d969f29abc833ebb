//! Telling at run time whether a diagram of the engine has the shape that the
//! pool relies on.

use vstd::prelude::*;
use biodivine_lib_bdd::Bdd;
use crate::diagram::{decision_at, is_diagram, width, Node};
use crate::engine;
use crate::engine::nodes_of;

verus! {

/// Whether slot `i` of the diagram holds a proper decision node.
fn is_decision_at(bdd: &Bdd, i: usize, num_vars: u16) -> (ok: bool)
    requires
        2 <= i < nodes_of(*bdd).len(),
        nodes_of(*bdd).len() <= 0x1_0000_0000,
        num_vars == width(nodes_of(*bdd)),
    ensures
        ok == decision_at(nodes_of(*bdd), i as int),
{
    let var: u16 = engine::var_of(bdd, i);
    let low: usize = engine::low_link(bdd, i);
    let high: usize = engine::high_link(bdd, i);
    var < num_vars && low < i && high < i && low != high && var < engine::var_of(bdd, low) && var
        < engine::var_of(bdd, high)
}

/// Whether slot `i` of the diagram holds the terminal for `value`.
fn is_terminal_at(bdd: &Bdd, i: usize, num_vars: u16) -> (ok: bool)
    requires
        i < 2,
        i < nodes_of(*bdd).len(),
    ensures
        ok == (nodes_of(*bdd)[i as int] == Node { var: num_vars, low: i as u32, high: i as u32 }),
{
    engine::var_of(bdd, i) == num_vars && engine::low_link(bdd, i) == i && engine::high_link(
        bdd,
        i,
    ) == i
}

/// Whether the diagram is a reduced, ordered decision diagram: terminals
/// first, every decision node after its successors and before the nodes that
/// decide on earlier variables.
pub fn is_valid_diagram(bdd: &Bdd) -> (ok: bool)
    ensures
        ok == is_diagram(nodes_of(*bdd)),
{
    let n: usize = engine::size(bdd);
    if n == 0 || n as u64 > 0x1_0000_0000 {
        return false;
    }
    let num_vars: u16 = engine::num_vars(bdd);
    if !is_terminal_at(bdd, 0, num_vars) {
        return false;
    }
    if n >= 2 && !is_terminal_at(bdd, 1, num_vars) {
        return false;
    }
    let ghost nodes = nodes_of(*bdd);
    let mut i: usize = 2;
    while i < n
        invariant
            nodes == nodes_of(*bdd),
            n == nodes.len(),
            n <= 0x1_0000_0000,
            num_vars == width(nodes),
            2 <= i,
            forall|j: int| 2 <= j < i && j < n ==> #[trigger] decision_at(nodes, j),
        decreases n - i,
    {
        if !is_decision_at(bdd, i, num_vars) {
            return false;
        }
        i = i + 1;
    }
    true
}

} // verus!
