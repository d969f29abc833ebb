//! Picking one satisfying cube out of a diagram.
//!
//! A cube gives each variable of the universe one of three values. The walk
//! starts at the root and goes down to the `true` terminal: at each node it
//! takes the low successor unless that is the `false` terminal, and records
//! the branch it took. Variables it never meets stay "don't care".

use vstd::prelude::*;
use biodivine_lib_bdd::Bdd;
use crate::diagram::{decision_at, eval, holds, is_diagram, width, Node};
use crate::engine;
use crate::engine::nodes_of;

verus! {

/// The value of one variable in a cube.
#[derive(Clone, Copy, PartialEq, Eq, Structural, Debug)]
pub enum OptBool {
    /// The variable is not constrained.
    DontCare,
    False,
    True,
}

impl OptBool {
    /// The byte that stands for this value in a foreign buffer.
    pub open spec fn spec_code(self) -> i8 {
        match self {
            OptBool::DontCare => -1i8,
            OptBool::False => 0i8,
            OptBool::True => 1i8,
        }
    }

    /// The value that a byte of a foreign buffer stands for, if any.
    pub open spec fn spec_from_code(code: i8) -> Option<OptBool> {
        if code == -1 {
            Some(OptBool::DontCare)
        } else if code == 0 {
            Some(OptBool::False)
        } else if code == 1 {
            Some(OptBool::True)
        } else {
            None
        }
    }

    /// The byte that stands for this value in a foreign buffer: -1 for "don't
    /// care", 0 for false, 1 for true.
    pub fn code(self) -> (c: i8)
        ensures
            c == self.spec_code(),
    {
        match self {
            OptBool::DontCare => -1,
            OptBool::False => 0,
            OptBool::True => 1,
        }
    }

    /// Reads a byte of a foreign buffer back; `None` for a byte that stands
    /// for no value.
    pub fn from_code(code: i8) -> (v: Option<OptBool>)
        ensures
            v == OptBool::spec_from_code(code),
    {
        if code == -1 {
            Some(OptBool::DontCare)
        } else if code == 0 {
            Some(OptBool::False)
        } else if code == 1 {
            Some(OptBool::True)
        } else {
            None
        }
    }
}

/// An assignment as it is handed out: the values, one per variable, and their
/// number. `data` is `None` for the empty result that stands for "no cube".
pub struct bdd_assignment_t {
    pub data: Option<Vec<OptBool>>,
    pub len: usize,
}

impl View for bdd_assignment_t {
    type V = Option<Seq<OptBool>>;

    open spec fn view(&self) -> Option<Seq<OptBool>> {
        match self.data {
            Some(values) => Some(values@),
            None => None,
        }
    }
}

/// The bytes that stand for a sequence of values in a foreign buffer.
pub open spec fn codes_of(values: Seq<OptBool>) -> Seq<i8> {
    Seq::new(values.len(), |i: int| values[i].spec_code())
}

/// Every byte of the buffer stands for a value.
pub open spec fn valid_codes(codes: Seq<i8>) -> bool {
    forall|i: int| 0 <= i < codes.len() ==> OptBool::spec_from_code(#[trigger] codes[i]) is Some
}

/// The values that the bytes of a foreign buffer stand for.
pub open spec fn values_of(codes: Seq<i8>) -> Seq<OptBool> {
    Seq::new(codes.len(), |i: int| OptBool::spec_from_code(codes[i])->0)
}

impl bdd_assignment_t {
    /// `len` is the number of values held, 0 where there are none.
    pub open spec fn wf(&self) -> bool {
        match self.data {
            Some(values) => self.len == values@.len(),
            None => self.len == 0,
        }
    }

    /// The values as the bytes of a foreign buffer, one byte for each value;
    /// no bytes for the empty result.
    pub fn codes(&self) -> (codes: Vec<i8>)
        ensures
            codes@ == match self@ {
                Some(values) => codes_of(values),
                None => Seq::<i8>::empty(),
            },
    {
        let mut codes: Vec<i8> = Vec::new();
        match &self.data {
            Some(values) => {
                let mut i: usize = 0;
                while i < values.len()
                    invariant
                        i <= values@.len(),
                        codes@ == codes_of(values@.take(i as int)),
                    decreases values@.len() - i,
                {
                    codes.push(values[i].code());
                    i = i + 1;
                }
            },
            None => {},
        }
        codes
    }

    /// Reads the bytes of a foreign buffer back into an assignment. A byte
    /// that stands for no value makes the whole buffer unreadable.
    pub fn from_codes(codes: &[i8]) -> (r: Option<bdd_assignment_t>)
        ensures
            r is Some <==> valid_codes(codes@),
            r matches Some(assignment) ==> assignment.wf() && assignment@ == Some(
                values_of(codes@),
            ),
    {
        let mut values: Vec<OptBool> = Vec::new();
        let mut i: usize = 0;
        while i < codes.len()
            invariant
                i <= codes@.len(),
                valid_codes(codes@.take(i as int)),
                values@ == values_of(codes@.take(i as int)),
            decreases codes@.len() - i,
        {
            match OptBool::from_code(codes[i]) {
                Some(v) => {
                    values.push(v);
                },
                None => {
                    return None;
                },
            }
            i = i + 1;
        }
        assert(codes@.take(i as int) =~= codes@);
        let len: usize = values.len();
        Some(bdd_assignment_t { data: Some(values), len })
    }
}

/// Writing values as bytes and reading the bytes back gives the values.
pub proof fn lemma_codes_round_trip(values: Seq<OptBool>)
    ensures
        valid_codes(codes_of(values)),
        values_of(codes_of(values)) == values,
{
}

/// The cube with no variable constrained.
pub open spec fn free_cube(num_vars: u16) -> Seq<OptBool> {
    Seq::new(num_vars as nat, |i: int| OptBool::DontCare)
}

/// The cube that the walk from slot `p` leaves, given what it has recorded so
/// far. The walk ends at a terminal.
pub open spec fn walk(nodes: Seq<Node>, p: int, cube: Seq<OptBool>) -> Seq<OptBool>
    decreases p,
{
    if 2 <= p < nodes.len() && nodes[p].low < p && nodes[p].high < p {
        if nodes[p].low != 0 {
            walk(nodes, nodes[p].low as int, cube.update(nodes[p].var as int, OptBool::False))
        } else {
            walk(nodes, nodes[p].high as int, cube.update(nodes[p].var as int, OptBool::True))
        }
    } else {
        cube
    }
}

/// The cube picked from a diagram: none from the constant `false`, else what
/// the walk from the root records.
pub open spec fn cube_of(nodes: Seq<Node>) -> Option<Seq<OptBool>> {
    if nodes.len() == 1 {
        None
    } else {
        Some(walk(nodes, nodes.len() - 1, free_cube(width(nodes))))
    }
}

/// Walks the diagram from its root to the `true` terminal and returns the
/// branches taken, or the empty result for the constant `false`.
pub(crate) fn pick_cube(bdd: &Bdd) -> (cube: bdd_assignment_t)
    requires
        is_diagram(nodes_of(*bdd)),
    ensures
        cube@ == cube_of(nodes_of(*bdd)),
        cube.wf(),
{
    if engine::is_false(bdd) {
        return bdd_assignment_t { data: None, len: 0 };
    }
    let ghost nodes = nodes_of(*bdd);
    let num_vars: u16 = engine::num_vars(bdd);
    let mut assignment: Vec<OptBool> = vec![OptBool::DontCare; num_vars as usize];
    assert(assignment@ =~= free_cube(num_vars));
    let mut p: usize = engine::root(bdd);
    while p != 1
        invariant
            nodes == nodes_of(*bdd),
            is_diagram(nodes),
            1 <= p < nodes.len(),
            assignment@.len() == width(nodes),
            walk(nodes, p as int, assignment@) == walk(
                nodes,
                nodes.len() - 1,
                free_cube(width(nodes)),
            ),
        decreases p,
    {
        assert(decision_at(nodes, p as int));
        let c: usize = engine::low_link(bdd, p);
        let var: u16 = engine::var_of(bdd, p);
        if c != 0 {
            assignment[var as usize] = OptBool::False;
            p = c;
        } else {
            let c: usize = engine::high_link(bdd, p);
            assignment[var as usize] = OptBool::True;
            p = c;
        }
    }
    let len: usize = assignment.len();
    bdd_assignment_t { data: Some(assignment), len }
}

/// The valuation `v` gives every variable that `cube` constrains the value
/// that `cube` asks for.
pub open spec fn agrees(v: Seq<bool>, cube: Seq<OptBool>) -> bool {
    &&& v.len() == cube.len()
    &&& forall|i: int|
        0 <= i < cube.len() ==> (cube[i] == OptBool::True ==> v[i]) && (cube[i] == OptBool::False
            ==> !v[i])
}

/// The diagram is true under every valuation that agrees with the cube.
pub open spec fn is_satisfied_by(nodes: Seq<Node>, cube: Seq<OptBool>) -> bool {
    forall|v: Seq<bool>| agrees(v, cube) ==> #[trigger] holds(nodes, v)
}

/// The diagram is true under no valuation of its universe.
pub open spec fn is_unsatisfiable(nodes: Seq<Node>) -> bool {
    forall|v: Seq<bool>| v.len() == width(nodes) ==> !#[trigger] holds(nodes, v)
}

/// The walk from slot `p` records nothing for a variable that comes before
/// the one decided at `p`, and keeps the cube's length.
proof fn lemma_walk_keeps_earlier(nodes: Seq<Node>, p: int, cube: Seq<OptBool>)
    requires
        is_diagram(nodes),
        0 <= p < nodes.len(),
        cube.len() == width(nodes),
    ensures
        walk(nodes, p, cube).len() == cube.len(),
        forall|j: int| 0 <= j < nodes[p].var ==> walk(nodes, p, cube)[j] == cube[j],
    decreases p,
{
    if p >= 2 {
        assert(decision_at(nodes, p));
        let n = nodes[p];
        let (child, next) = if n.low != 0 {
            (n.low as int, cube.update(n.var as int, OptBool::False))
        } else {
            (n.high as int, cube.update(n.var as int, OptBool::True))
        };
        lemma_walk_keeps_earlier(nodes, child, next);
        assert forall|j: int| 0 <= j < n.var implies walk(nodes, p, cube)[j] == cube[j] by {
            assert(walk(nodes, child, next)[j] == next[j]);
        }
    }
}

/// Every valuation that agrees with what the walk from slot `p` leaves makes
/// the diagram below `p` true.
proof fn lemma_walk_satisfies(nodes: Seq<Node>, p: int, cube: Seq<OptBool>, v: Seq<bool>)
    requires
        is_diagram(nodes),
        1 <= p < nodes.len(),
        cube.len() == width(nodes),
        agrees(v, walk(nodes, p, cube)),
    ensures
        eval(nodes, p, v),
    decreases p,
{
    if p >= 2 {
        assert(decision_at(nodes, p));
        let n = nodes[p];
        let (child, next) = if n.low != 0 {
            (n.low as int, cube.update(n.var as int, OptBool::False))
        } else {
            (n.high as int, cube.update(n.var as int, OptBool::True))
        };
        lemma_walk_keeps_earlier(nodes, child, next);
        assert(walk(nodes, child, next)[n.var as int] == next[n.var as int]);
        lemma_walk_satisfies(nodes, child, next, v);
    }
}

/// A cube is picked from every diagram but the constant `false`, and it has
/// one value for each variable of the universe.
pub proof fn lemma_cube_shape(nodes: Seq<Node>)
    requires
        is_diagram(nodes),
    ensures
        cube_of(nodes) is None <==> nodes == crate::diagram::false_nodes(width(nodes)),
        cube_of(nodes) matches Some(cube) ==> cube.len() == width(nodes),
{
    crate::diagram::lemma_single_node_is_false(nodes);
    if nodes.len() > 1 {
        lemma_walk_keeps_earlier(nodes, nodes.len() - 1, free_cube(width(nodes)));
    }
}

/// The cube picked from a diagram satisfies it: the diagram is true under
/// every valuation that agrees with the cube.
pub proof fn lemma_cube_satisfies(nodes: Seq<Node>, v: Seq<bool>)
    requires
        is_diagram(nodes),
        cube_of(nodes) matches Some(cube) && agrees(v, cube),
    ensures
        holds(nodes, v),
{
    lemma_walk_satisfies(nodes, nodes.len() - 1, free_cube(width(nodes)), v);
}

/// What is picked from a diagram is right: the cube has one value for each
/// variable and satisfies the diagram, and none is picked only where the
/// diagram is true under no valuation.
pub proof fn lemma_cube_is_right(nodes: Seq<Node>)
    requires
        is_diagram(nodes),
    ensures
        match cube_of(nodes) {
            Some(cube) => cube.len() == width(nodes) && is_satisfied_by(nodes, cube),
            None => is_unsatisfiable(nodes),
        },
{
    lemma_cube_shape(nodes);
    match cube_of(nodes) {
        Some(cube) => {
            assert forall|v: Seq<bool>| agrees(v, cube) implies #[trigger] holds(nodes, v) by {
                lemma_cube_satisfies(nodes, v);
            }
        },
        None => {},
    }
}

/// The constant `false` is true under no valuation.
pub proof fn lemma_false_never_holds(num_vars: u16, v: Seq<bool>)
    ensures
        !holds(crate::diagram::false_nodes(num_vars), v),
        cube_of(crate::diagram::false_nodes(num_vars)) is None,
{
}

} // verus!
