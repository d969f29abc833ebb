//! Renaming the variables of a diagram.
//!
//! A renaming changes the variable that nodes decide on and nothing else, so
//! it is admissible only where the nodes stay in the order of their
//! variables. The renamed node array is built here and handed to the engine,
//! which makes a diagram of it.

use vstd::prelude::*;
use biodivine_lib_bdd::Bdd;
use crate::diagram::{decision_at, eval, holds, is_diagram, width, Node};
use crate::engine;
use crate::engine::{accepted, accepted_at, nodes_of};
use crate::heap::Heap;
use crate::store::{bdd_diagram, bdd_manager, bdd_t, slot_of, BddError, Store};

verus! {

/// Variable `x` may be renamed to `y`: both are variables of the universe,
/// and unless they are the same, the diagram decides neither on `y` nor on a
/// variable strictly between the two.
pub open spec fn can_rename(nodes: Seq<Node>, x: u16, y: u16) -> bool {
    &&& x < width(nodes)
    &&& y < width(nodes)
    &&& x != y ==> forall|i: int|
        2 <= i < nodes.len() ==> !blocks(#[trigger] nodes[i].var, x, y)
}

/// A node that decides on `v` stands in the way of renaming `x` to `y`.
pub open spec fn blocks(v: u16, x: u16, y: u16) -> bool {
    v == y || (x < v < y) || (y < v < x)
}

/// The node array with every node that decides on `x` made to decide on `y`.
pub open spec fn renamed(nodes: Seq<Node>, x: u16, y: u16) -> Seq<Node> {
    Seq::new(
        nodes.len(),
        |i: int|
            if nodes[i].var == x {
                Node { var: y, low: nodes[i].low, high: nodes[i].high }
            } else {
                nodes[i]
            },
    )
}

/// An admissible renaming of one variable turns a diagram into a diagram of
/// the same universe.
pub proof fn lemma_renamed_is_diagram(nodes: Seq<Node>, x: u16, y: u16)
    requires
        is_diagram(nodes),
        can_rename(nodes, x, y),
    ensures
        is_diagram(renamed(nodes, x, y)),
        width(renamed(nodes, x, y)) == width(nodes),
{
    let r = renamed(nodes, x, y);
    assert forall|i: int| 2 <= i < r.len() implies #[trigger] decision_at(r, i) by {
        assert(decision_at(nodes, i));
    }
}

/// Every diagram passes the checks that the engine makes of a node array.
pub proof fn lemma_diagram_is_accepted(nodes: Seq<Node>)
    requires
        is_diagram(nodes),
    ensures
        accepted(nodes),
{
    assert forall|i: int| 2 <= i < nodes.len() implies #[trigger] accepted_at(nodes, i) by {
        assert(decision_at(nodes, i));
    }
}

/// Renaming `x` to `y` and then `y` back to `x` gives the diagram back, and
/// the way back is admissible, wherever the way there is.
pub proof fn lemma_rename_round_trip(nodes: Seq<Node>, x: u16, y: u16)
    requires
        is_diagram(nodes),
        can_rename(nodes, x, y),
    ensures
        can_rename(renamed(nodes, x, y), y, x),
        renamed(renamed(nodes, x, y), y, x) == nodes,
{
    let there = renamed(nodes, x, y);
    if x != y {
        assert forall|i: int| 2 <= i < there.len() implies !blocks(
            #[trigger] there[i].var,
            y,
            x,
        ) by {}
        assert forall|i: int| 0 <= i < nodes.len() implies renamed(there, y, x)[i] == nodes[i] by {}
    }
}

/// Copies the node array out of a diagram.
fn read_nodes(bdd: &Bdd) -> (nodes: Vec<Node>)
    requires
        nodes_of(*bdd).len() <= 0x1_0000_0000,
    ensures
        nodes@ == nodes_of(*bdd),
{
    let n: usize = engine::size(bdd);
    let mut nodes: Vec<Node> = Vec::new();
    let mut i: usize = 0;
    while i < n
        invariant
            n == nodes_of(*bdd).len(),
            n <= 0x1_0000_0000,
            i <= n,
            nodes@ == nodes_of(*bdd).take(i as int),
        decreases n - i,
    {
        let var: u16 = engine::var_of(bdd, i);
        let low: usize = engine::low_link(bdd, i);
        let high: usize = engine::high_link(bdd, i);
        nodes.push(Node { var, low: low as u32, high: high as u32 });
        i = i + 1;
    }
    nodes
}

impl Heap {
    /// What comes of renaming `x` to `y` in the diagram of handle `f`: the
    /// renamed diagram is handed out where the renaming is admissible.
    pub open spec fn rename_outcome(self, f: int, x: u16, y: u16) -> Result<int, BddError> {
        if can_rename(self.handle(f).nodes, x, y) {
            self.outcome1(f, renamed(self.handle(f).nodes, x, y))
        } else {
            Err(BddError::InvalidRename)
        }
    }

    /// The pool after renaming `x` to `y` in the diagram of handle `f`.
    pub open spec fn after_rename(self, f: int, x: u16, y: u16) -> Heap {
        if can_rename(self.handle(f).nodes, x, y) {
            self.after1(f, renamed(self.handle(f).nodes, x, y))
        } else {
            self
        }
    }
}

/// Whether a node that decides on `v` stands in the way of renaming `x` to
/// `y`.
fn is_blocking(v: u16, x: u16, y: u16) -> (b: bool)
    ensures
        b == blocks(v, x, y),
{
    v == y || (x < v && v < y) || (y < v && v < x)
}

/// The diagram of `f` with variable `x` renamed to `y`, as a new handle; the
/// diagram of `f` stays as it is. An inadmissible renaming is refused and
/// changes nothing.
pub fn bdd_rename_variable(store: &mut Store, f: bdd_t, x: u16, y: u16) -> (r: Result<
    bdd_t,
    BddError,
>)
    requires
        old(store)@.wf(),
        old(store)@.can_derive(f@),
    ensures
        slot_of(r) == old(store)@.rename_outcome(f@, x, y),
        final(store)@ == old(store)@.after_rename(f@, x, y),
        final(store)@.wf(),
{
    proof {
        assert(store@.handle_ok(f@));
    }
    let ghost before = store@.handle(f@).nodes;
    let bdd: &Bdd = bdd_diagram(store, f);
    let num_vars: u16 = engine::num_vars(bdd);
    if x >= num_vars || y >= num_vars {
        return Err(BddError::InvalidRename);
    }
    let mut nodes: Vec<Node> = read_nodes(bdd);
    if x != y {
        let n: usize = nodes.len();
        let mut i: usize = 2;
        while i < n
            invariant
                store@ == old(store)@,
                store@.wf(),
                store@.live_handle(f@),
                before == store@.handle(f@).nodes,
                is_diagram(before),
                x < width(before),
                y < width(before),
                x != y,
                n == before.len(),
                nodes@.len() == n,
                2 <= i,
                forall|j: int| 2 <= j < i && j < n ==> !blocks(#[trigger] before[j].var, x, y),
                forall|j: int|
                    0 <= j < n ==> #[trigger] nodes@[j] == if 2 <= j < i {
                        renamed(before, x, y)[j]
                    } else {
                        before[j]
                    },
            decreases n - i,
        {
            let node: Node = nodes[i];
            if is_blocking(node.var, x, y) {
                return Err(BddError::InvalidRename);
            }
            if node.var == x {
                nodes[i] = Node { var: y, low: node.low, high: node.high };
            }
            i = i + 1;
        }
    }
    proof {
        assert(nodes@ =~= renamed(before, x, y));
        lemma_renamed_is_diagram(before, x, y);
        lemma_diagram_is_accepted(nodes@);
    }
    let renamed_bdd: Bdd = engine::from_nodes(&nodes).unwrap();
    let manager = bdd_manager(store, f);
    bdd_t::from_bdd(store, renamed_bdd, manager)
}

/// One entry of a renaming: the variable `first` becomes `second`.
#[derive(Clone, Copy, PartialEq, Eq, Structural, Debug)]
pub struct VarPair {
    pub first: u16,
    pub second: u16,
}

/// The renaming that a list of pairs describes. Where a variable is named as
/// `first` more than once, the last such pair counts.
pub open spec fn pair_map(pairs: Seq<VarPair>) -> Map<u16, u16>
    decreases pairs.len(),
{
    if pairs.len() == 0 {
        Map::empty()
    } else {
        pair_map(pairs.drop_last()).insert(pairs.last().first, pairs.last().second)
    }
}

/// What variable `v` becomes under a renaming: itself where the renaming does
/// not name it.
pub open spec fn image(map: Map<u16, u16>, v: u16) -> u16 {
    if map.contains_key(v) {
        map[v]
    } else {
        v
    }
}

/// Some decision node among the first `upto` slots decides on variable `v`.
pub open spec fn decided_before(nodes: Seq<Node>, v: u16, upto: int) -> bool {
    exists|i: int| 2 <= i < upto && i < nodes.len() && (#[trigger] nodes[i]).var == v
}

/// Some decision node of the diagram decides on variable `v`.
pub open spec fn in_support(nodes: Seq<Node>, v: u16) -> bool {
    decided_before(nodes, v, nodes.len() as int)
}

/// The renaming sends the variables that the diagram decides on to variables
/// of the universe, and keeps them in their order.
pub open spec fn keeps_order(nodes: Seq<Node>, map: Map<u16, u16>) -> bool {
    &&& forall|a: u16| #[trigger] in_support(nodes, a) ==> image(map, a) < width(nodes)
    &&& forall|a: u16, b: u16|
        #[trigger] in_support(nodes, a) && #[trigger] in_support(nodes, b) && a < b ==> image(
            map,
            a,
        ) < image(map, b)
}

/// The variables of the diagram may be renamed all at once: a constant takes
/// any renaming; in another diagram the renaming keeps the order of the
/// variables decided on, and does not name the number of variables, which
/// the terminals carry, as a source.
pub open spec fn can_rename_all(nodes: Seq<Node>, map: Map<u16, u16>) -> bool {
    nodes.len() > 2 ==> !map.contains_key(width(nodes)) && keeps_order(nodes, map)
}

/// The node array with the variable of every node replaced by its image, all
/// at once. A constant stays as it is.
pub open spec fn renamed_all(nodes: Seq<Node>, map: Map<u16, u16>) -> Seq<Node> {
    if nodes.len() <= 2 {
        nodes
    } else {
        Seq::new(
            nodes.len(),
            |i: int| Node { var: image(map, nodes[i].var), low: nodes[i].low, high: nodes[i].high },
        )
    }
}

/// An admissible renaming of all variables turns a diagram into a diagram of
/// the same universe.
pub proof fn lemma_renamed_all_is_diagram(nodes: Seq<Node>, map: Map<u16, u16>)
    requires
        is_diagram(nodes),
        can_rename_all(nodes, map),
    ensures
        is_diagram(renamed_all(nodes, map)),
        width(renamed_all(nodes, map)) == width(nodes),
{
    let r = renamed_all(nodes, map);
    if nodes.len() > 2 {
        assert forall|i: int| 2 <= i < r.len() implies #[trigger] decision_at(r, i) by {
            assert(decision_at(nodes, i));
            let n = nodes[i];
            assert(in_support(nodes, n.var));
            if n.low >= 2 {
                assert(in_support(nodes, nodes[n.low as int].var));
            }
            if n.high >= 2 {
                assert(in_support(nodes, nodes[n.high as int].var));
            }
        }
    }
}

/// Tabulates a renaming for the variables of a universe: entry `v` is the
/// image of variable `v`. Also tells whether the renaming names the number of
/// variables itself as a source.
fn image_table(pairs: &[VarPair], num_vars: u16) -> (r: (Vec<u16>, bool))
    ensures
        r.0@.len() == num_vars,
        forall|v: u16| v < num_vars ==> r.0@[v as int] == image(pair_map(pairs@), v),
        r.1 == pair_map(pairs@).contains_key(num_vars),
{
    let mut table: Vec<u16> = Vec::new();
    let mut v: u16 = 0;
    while v < num_vars
        invariant
            v <= num_vars,
            table@.len() == v,
            forall|u: u16| u < v ==> table@[u as int] == u,
        decreases num_vars - v,
    {
        table.push(v);
        v = v + 1;
    }
    let mut names_width: bool = false;
    let mut k: usize = 0;
    while k < pairs.len()
        invariant
            k <= pairs@.len(),
            table@.len() == num_vars,
            forall|u: u16|
                u < num_vars ==> table@[u as int] == image(pair_map(pairs@.take(k as int)), u),
            names_width == pair_map(pairs@.take(k as int)).contains_key(num_vars),
        decreases pairs@.len() - k,
    {
        let pair: VarPair = pairs[k];
        proof {
            let next = pairs@.take(k + 1);
            assert(next.drop_last() =~= pairs@.take(k as int));
        }
        if pair.first < num_vars {
            table[pair.first as usize] = pair.second;
        } else if pair.first == num_vars {
            names_width = true;
        }
        k = k + 1;
    }
    assert(pairs@.take(k as int) =~= pairs@);
    (table, names_width)
}

/// Marks the variables that the diagram decides on.
fn support_table(nodes: &Vec<Node>, num_vars: u16) -> (present: Vec<bool>)
    requires
        is_diagram(nodes@),
        width(nodes@) == num_vars,
    ensures
        present@.len() == num_vars,
        forall|v: u16| v < num_vars ==> present@[v as int] == in_support(nodes@, v),
        forall|v: u16| in_support(nodes@, v) ==> v < num_vars,
{
    let mut present: Vec<bool> = vec![false; num_vars as usize];
    let n: usize = nodes.len();
    let mut i: usize = 2;
    while i < n
        invariant
            is_diagram(nodes@),
            width(nodes@) == num_vars,
            n == nodes@.len(),
            2 <= i,
            present@.len() == num_vars,
            forall|v: u16| v < num_vars ==> present@[v as int] == decided_before(nodes@, v, i as int),
        decreases n - i,
    {
        assert(decision_at(nodes@, i as int));
        let var: u16 = nodes[i].var;
        present[var as usize] = true;
        proof {
            assert forall|v: u16| v < num_vars implies present@[v as int] == decided_before(
                nodes@,
                v,
                i + 1,
            ) by {}
        }
        i = i + 1;
    }
    proof {
        assert forall|v: u16| v < num_vars implies present@[v as int] == in_support(nodes@, v) by {}
        assert forall|v: u16| in_support(nodes@, v) implies v < num_vars by {
            let j = choose|j: int|
                2 <= j < nodes@.len() && j < nodes@.len() && (#[trigger] nodes@[j]).var == v;
            assert(decision_at(nodes@, j));
        }
    }
    present
}

/// Among the first `upto` variables, the tabulated images of the marked ones
/// are variables of the universe and stand in the order of their sources.
spec fn ordered_upto(table: Seq<u16>, present: Seq<bool>, upto: int, num_vars: u16) -> bool {
    &&& forall|a: int| 0 <= a < upto && #[trigger] present[a] ==> table[a] < num_vars
    &&& forall|a: int, b: int|
        0 <= a < b < upto && #[trigger] present[a] && #[trigger] present[b] ==> table[a]
            < table[b]
}

/// Whether the tabulated images of the marked variables are variables of the
/// universe and stand in the order of their sources.
fn table_keeps_order(table: &Vec<u16>, present: &Vec<bool>, num_vars: u16) -> (b: bool)
    requires
        table@.len() == num_vars,
        present@.len() == num_vars,
    ensures
        b == ordered_upto(table@, present@, num_vars as int, num_vars),
{
    let mut last: Option<u16> = None;
    let mut v: usize = 0;
    while v < num_vars as usize
        invariant
            table@.len() == num_vars,
            present@.len() == num_vars,
            v <= num_vars,
            ordered_upto(table@, present@, v as int, num_vars),
            last is None ==> forall|a: int| 0 <= a < v ==> !#[trigger] present@[a],
            last matches Some(l) ==> (exists|a: int|
                0 <= a < v && #[trigger] present@[a] && table@[a] == l) && (forall|a: int|
                0 <= a < v && #[trigger] present@[a] ==> table@[a] <= l),
        decreases num_vars - v,
    {
        if present[v] {
            let img: u16 = table[v];
            if img >= num_vars {
                assert(!ordered_upto(table@, present@, num_vars as int, num_vars));
                return false;
            }
            match last {
                Some(l) => {
                    if img <= l {
                        assert(!ordered_upto(table@, present@, num_vars as int, num_vars)) by {
                            let a = choose|a: int|
                                0 <= a < v && #[trigger] present@[a] && table@[a] == l;
                            assert(present@[a] && present@[v as int] && table@[a] >= table@[v as int]);
                        }
                        return false;
                    }
                },
                None => {},
            }
            last = Some(img);
        }
        v = v + 1;
    }
    true
}

impl Heap {
    /// What comes of renaming the variables of the diagram of handle `f` all
    /// at once: the renamed diagram is handed out where the renaming is
    /// admissible.
    pub open spec fn rename_all_outcome(self, f: int, map: Map<u16, u16>) -> Result<int, BddError> {
        if can_rename_all(self.handle(f).nodes, map) {
            self.outcome1(f, renamed_all(self.handle(f).nodes, map))
        } else {
            Err(BddError::InvalidRename)
        }
    }

    /// The pool after renaming the variables of the diagram of handle `f`.
    pub open spec fn after_rename_all(self, f: int, map: Map<u16, u16>) -> Heap {
        if can_rename_all(self.handle(f).nodes, map) {
            self.after1(f, renamed_all(self.handle(f).nodes, map))
        } else {
            self
        }
    }
}

/// The tables say of the renaming what `keeps_order` asks.
proof fn lemma_tables_decide(
    nodes: Seq<Node>,
    map: Map<u16, u16>,
    table: Seq<u16>,
    present: Seq<bool>,
)
    requires
        table.len() == width(nodes),
        present.len() == width(nodes),
        forall|v: u16| v < width(nodes) ==> table[v as int] == image(map, v),
        forall|v: u16| v < width(nodes) ==> present[v as int] == in_support(nodes, v),
        forall|v: u16| in_support(nodes, v) ==> v < width(nodes),
    ensures
        ordered_upto(table, present, width(nodes) as int, width(nodes)) == keeps_order(nodes, map),
{
    let w = width(nodes);
    if ordered_upto(table, present, w as int, w) {
        assert forall|a: u16| #[trigger] in_support(nodes, a) implies image(map, a) < w by {}
        assert forall|a: u16, b: u16|
            #[trigger] in_support(nodes, a) && #[trigger] in_support(nodes, b) && a < b implies image(
            map,
            a,
        ) < image(map, b) by {}
    }
    if keeps_order(nodes, map) {
        assert forall|a: int| 0 <= a < w && #[trigger] present[a] implies table[a] < w by {}
        assert forall|a: int, b: int|
            0 <= a < b < w && #[trigger] present[a] && #[trigger] present[b] implies table[a]
            < table[b] by {}
    }
}

/// The diagram of `f` with its variables renamed as the pairs say, all at
/// once, as a new handle; the diagram of `f` stays as it is. Where a variable
/// is named as `first` more than once, the last such pair counts. An
/// inadmissible renaming is refused and changes nothing.
pub fn bdd_rename_variables(store: &mut Store, f: bdd_t, var_pairs: &[VarPair]) -> (r: Result<
    bdd_t,
    BddError,
>)
    requires
        old(store)@.wf(),
        old(store)@.can_derive(f@),
    ensures
        slot_of(r) == old(store)@.rename_all_outcome(f@, pair_map(var_pairs@)),
        final(store)@ == old(store)@.after_rename_all(f@, pair_map(var_pairs@)),
        final(store)@.wf(),
{
    proof {
        assert(store@.handle_ok(f@));
    }
    let ghost before = store@.handle(f@).nodes;
    let ghost map = pair_map(var_pairs@);
    let mut nodes: Vec<Node> = read_nodes(bdd_diagram(store, f));
    let n: usize = nodes.len();
    if n > 2 {
        let num_vars: u16 = nodes[0].var;
        let (table, names_width) = image_table(var_pairs, num_vars);
        if names_width {
            return Err(BddError::InvalidRename);
        }
        let present: Vec<bool> = support_table(&nodes, num_vars);
        proof {
            lemma_tables_decide(before, map, table@, present@);
        }
        if !table_keeps_order(&table, &present, num_vars) {
            return Err(BddError::InvalidRename);
        }
        let mut i: usize = 2;
        while i < n
            invariant
                is_diagram(before),
                n == before.len(),
                nodes@.len() == n,
                2 <= i,
                num_vars == width(before),
                table@.len() == num_vars,
                forall|v: u16| v < num_vars ==> table@[v as int] == image(map, v),
                forall|j: int|
                    0 <= j < n ==> #[trigger] nodes@[j] == if 2 <= j < i {
                        renamed_all(before, map)[j]
                    } else {
                        before[j]
                    },
            decreases n - i,
        {
            assert(decision_at(before, i as int));
            let node: Node = nodes[i];
            nodes[i] = Node { var: table[node.var as usize], low: node.low, high: node.high };
            i = i + 1;
        }
        assert(nodes@ =~= renamed_all(before, map));
    }
    proof {
        lemma_renamed_all_is_diagram(before, map);
        lemma_diagram_is_accepted(nodes@);
    }
    let renamed_bdd: Bdd = engine::from_nodes(&nodes).unwrap();
    let manager = bdd_manager(store, f);
    bdd_t::from_bdd(store, renamed_bdd, manager)
}

/// The valuation that gives each variable the value that `v` gives its
/// image under the renaming.
pub open spec fn pulled_back(v: Seq<bool>, map: Map<u16, u16>) -> Seq<bool> {
    Seq::new(v.len(), |i: int| v[image(map, i as u16) as int])
}

/// Below every slot, the diagram renamed holds under `v` exactly where the
/// diagram holds under `v` with `x` given the value of `y`.
proof fn lemma_renamed_evaluates(nodes: Seq<Node>, x: u16, y: u16, p: int, v: Seq<bool>)
    requires
        is_diagram(nodes),
        v.len() == width(nodes),
        x < width(nodes),
        y < width(nodes),
        0 <= p < nodes.len(),
    ensures
        eval(renamed(nodes, x, y), p, v) == eval(nodes, p, v.update(x as int, v[y as int])),
    decreases p,
{
    if p >= 2 {
        assert(decision_at(nodes, p));
        let n = nodes[p];
        lemma_renamed_evaluates(nodes, x, y, n.low as int, v);
        lemma_renamed_evaluates(nodes, x, y, n.high as int, v);
    }
}

/// Renaming `x` to `y` substitutes `y` for `x`: the renamed diagram holds
/// under a valuation exactly where the diagram holds under the valuation
/// that gives `x` the value of `y` and is the same elsewhere.
pub proof fn lemma_renamed_means(nodes: Seq<Node>, x: u16, y: u16, v: Seq<bool>)
    requires
        is_diagram(nodes),
        v.len() == width(nodes),
        x < width(nodes),
        y < width(nodes),
    ensures
        holds(renamed(nodes, x, y), v) == holds(nodes, v.update(x as int, v[y as int])),
{
    lemma_renamed_evaluates(nodes, x, y, nodes.len() - 1, v);
}

/// Below every decision node, the diagram with all variables renamed holds
/// under `v` exactly where the diagram holds under `v` pulled back.
proof fn lemma_renamed_all_evaluates(nodes: Seq<Node>, map: Map<u16, u16>, p: int, v: Seq<bool>)
    requires
        is_diagram(nodes),
        nodes.len() > 2,
        v.len() == width(nodes),
        0 <= p < nodes.len(),
    ensures
        eval(renamed_all(nodes, map), p, v) == eval(nodes, p, pulled_back(v, map)),
    decreases p,
{
    if p >= 2 {
        assert(decision_at(nodes, p));
        let n = nodes[p];
        lemma_renamed_all_evaluates(nodes, map, n.low as int, v);
        lemma_renamed_all_evaluates(nodes, map, n.high as int, v);
    }
}

/// Renaming all variables at once substitutes for each variable its image:
/// the renamed diagram holds under a valuation exactly where the diagram
/// holds under the valuation pulled back.
pub proof fn lemma_renamed_all_means(nodes: Seq<Node>, map: Map<u16, u16>, v: Seq<bool>)
    requires
        is_diagram(nodes),
        v.len() == width(nodes),
    ensures
        holds(renamed_all(nodes, map), v) == holds(nodes, pulled_back(v, map)),
{
    if nodes.len() > 2 {
        lemma_renamed_all_evaluates(nodes, map, nodes.len() - 1, v);
    }
}

} // verus!
