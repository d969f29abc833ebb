use bdd_handles::{
    bdd_and, bdd_eq, bdd_nodecount, bdd_or, bdd_rename_variable, bdd_rename_variables, bdd_t,
    manager_false, manager_ithvar, manager_new, manager_node_count, manager_t, manager_true,
    BddError, Store, VarPair,
};

fn setup() -> (Store, manager_t, bdd_t, bdd_t, bdd_t) {
    let mut store = Store::new();
    let m = manager_new(&mut store, 3, 10_000);
    let x0 = manager_ithvar(&mut store, m, 0).unwrap();
    let x1 = manager_ithvar(&mut store, m, 1).unwrap();
    let x2 = manager_ithvar(&mut store, m, 2).unwrap();
    (store, m, x0, x1, x2)
}

fn pair(first: u16, second: u16) -> VarPair {
    VarPair { first, second }
}

#[test]
fn rename_of_a_literal() {
    let (mut store, m, x0, _, x2) = setup();
    let r = bdd_rename_variable(&mut store, x0, 0, 2).unwrap();
    assert!(bdd_eq(&store, r, x2));
    assert!(!bdd_eq(&store, r, x0));
    assert_ne!(r, x0);
    assert_eq!(manager_node_count(&store, m), 12);
}

#[test]
fn rename_leaves_the_operand_as_it_was() {
    let (mut store, _, x0, x1, x2) = setup();
    let f = bdd_and(&mut store, x0, x1).unwrap();
    let expected = bdd_and(&mut store, x0, x2).unwrap();
    let r = bdd_rename_variable(&mut store, f, 1, 2).unwrap();
    assert!(bdd_eq(&store, r, expected));
    let again = bdd_and(&mut store, x0, x1).unwrap();
    assert!(bdd_eq(&store, f, again));
}

#[test]
fn rename_there_and_back() {
    let (mut store, _, x0, x1, _) = setup();
    let f = bdd_or(&mut store, x0, x1).unwrap();
    let there = bdd_rename_variable(&mut store, f, 1, 2).unwrap();
    assert!(!bdd_eq(&store, there, f));
    let back = bdd_rename_variable(&mut store, there, 2, 1).unwrap();
    assert!(bdd_eq(&store, back, f));
    let there = bdd_rename_variable(&mut store, x0, 0, 2).unwrap();
    let back = bdd_rename_variable(&mut store, there, 2, 0).unwrap();
    assert!(bdd_eq(&store, back, x0));
}

#[test]
fn rename_to_the_same_variable_copies() {
    let (mut store, m, x0, x1, _) = setup();
    let f = bdd_and(&mut store, x0, x1).unwrap();
    let before = manager_node_count(&store, m);
    let r = bdd_rename_variable(&mut store, f, 1, 1).unwrap();
    assert_ne!(r, f);
    assert!(bdd_eq(&store, r, f));
    assert_eq!(manager_node_count(&store, m), before + 4);
}

#[test]
fn rename_of_a_variable_not_decided_on_copies() {
    let (mut store, _, x0, _, _) = setup();
    let r = bdd_rename_variable(&mut store, x0, 1, 2).unwrap();
    assert!(bdd_eq(&store, r, x0));
}

#[test]
fn rename_across_a_decided_variable_is_refused() {
    let (mut store, m, x0, x1, x2) = setup();
    let f = bdd_and(&mut store, x0, x1).unwrap();
    let before = manager_node_count(&store, m);
    assert_eq!(bdd_rename_variable(&mut store, f, 0, 2), Err(BddError::InvalidRename));
    let g = bdd_and(&mut store, x1, x2).unwrap();
    assert_eq!(bdd_rename_variable(&mut store, g, 2, 0), Err(BddError::InvalidRename));
    assert_eq!(manager_node_count(&store, m), before + 4);
}

#[test]
fn rename_onto_a_decided_variable_is_refused() {
    let (mut store, m, x0, x1, _) = setup();
    let f = bdd_and(&mut store, x0, x1).unwrap();
    let before = manager_node_count(&store, m);
    assert_eq!(bdd_rename_variable(&mut store, f, 0, 1), Err(BddError::InvalidRename));
    assert_eq!(bdd_rename_variable(&mut store, f, 1, 0), Err(BddError::InvalidRename));
    assert_eq!(bdd_rename_variable(&mut store, f, 2, 1), Err(BddError::InvalidRename));
    assert_eq!(manager_node_count(&store, m), before);
}

#[test]
fn rename_outside_the_universe_is_refused() {
    let (mut store, _, x0, _, _) = setup();
    assert_eq!(bdd_rename_variable(&mut store, x0, 0, 3), Err(BddError::InvalidRename));
    assert_eq!(bdd_rename_variable(&mut store, x0, 3, 0), Err(BddError::InvalidRename));
    assert_eq!(bdd_rename_variable(&mut store, x0, 3, 3), Err(BddError::InvalidRename));
    assert_eq!(bdd_rename_variable(&mut store, x0, 0, u16::MAX), Err(BddError::InvalidRename));
}

#[test]
fn rename_over_budget_is_refused() {
    let mut store = Store::new();
    let m = manager_new(&mut store, 3, 5);
    let x0 = manager_ithvar(&mut store, m, 0).unwrap();
    assert_eq!(
        bdd_rename_variable(&mut store, x0, 0, 1),
        Err(BddError::TooManyNodes { nodes_total: 3, added: 3, max_nodes_total: 5 })
    );
}

#[test]
fn renames_happen_all_at_once() {
    let (mut store, _, x0, x1, x2) = setup();
    let f = bdd_and(&mut store, x0, x1).unwrap();
    let expected = bdd_and(&mut store, x1, x2).unwrap();
    let r = bdd_rename_variables(&mut store, f, &[pair(0, 1), pair(1, 2)]).unwrap();
    assert!(bdd_eq(&store, r, expected));
    let r = bdd_rename_variables(&mut store, f, &[pair(1, 2), pair(0, 1)]).unwrap();
    assert!(bdd_eq(&store, r, expected));
    let again = bdd_and(&mut store, x0, x1).unwrap();
    assert!(bdd_eq(&store, f, again));
}

#[test]
fn last_pair_of_a_variable_counts() {
    let (mut store, _, x0, x1, x2) = setup();
    let r = bdd_rename_variables(&mut store, x0, &[pair(0, 2), pair(0, 1)]).unwrap();
    assert!(bdd_eq(&store, r, x1));
    let r = bdd_rename_variables(&mut store, x0, &[pair(0, 1), pair(0, 2)]).unwrap();
    assert!(bdd_eq(&store, r, x2));
}

#[test]
fn no_pairs_copy_the_diagram() {
    let (mut store, m, x0, x1, _) = setup();
    let f = bdd_or(&mut store, x0, x1).unwrap();
    let before = manager_node_count(&store, m);
    let r = bdd_rename_variables(&mut store, f, &[]).unwrap();
    assert_ne!(r, f);
    assert!(bdd_eq(&store, r, f));
    assert_eq!(manager_node_count(&store, m), before + bdd_nodecount(&store, f));
}

#[test]
fn pairs_of_other_variables_change_nothing() {
    let (mut store, _, x0, _, _) = setup();
    let r = bdd_rename_variables(&mut store, x0, &[pair(1, 0), pair(2, 1), pair(7, 0)]).unwrap();
    assert!(bdd_eq(&store, r, x0));
}

#[test]
fn exchange_of_two_decided_variables_is_refused() {
    let (mut store, m, x0, x1, _) = setup();
    let f = bdd_and(&mut store, x0, x1).unwrap();
    let before = manager_node_count(&store, m);
    assert_eq!(
        bdd_rename_variables(&mut store, f, &[pair(0, 1), pair(1, 0)]),
        Err(BddError::InvalidRename)
    );
    assert_eq!(
        bdd_rename_variables(&mut store, f, &[pair(0, 1)]),
        Err(BddError::InvalidRename)
    );
    assert_eq!(
        bdd_rename_variables(&mut store, f, &[pair(0, 2)]),
        Err(BddError::InvalidRename)
    );
    assert_eq!(manager_node_count(&store, m), before);
}

#[test]
fn exchange_is_admissible_where_one_is_not_decided_on() {
    let (mut store, _, x0, x1, _) = setup();
    let r = bdd_rename_variables(&mut store, x0, &[pair(0, 1), pair(1, 0)]).unwrap();
    assert!(bdd_eq(&store, r, x1));
}

#[test]
fn image_outside_the_universe_is_refused() {
    let (mut store, _, x0, _, _) = setup();
    assert_eq!(
        bdd_rename_variables(&mut store, x0, &[pair(0, 3)]),
        Err(BddError::InvalidRename)
    );
    assert_eq!(
        bdd_rename_variables(&mut store, x0, &[pair(0, u16::MAX)]),
        Err(BddError::InvalidRename)
    );
}

#[test]
fn number_of_variables_is_no_source() {
    let (mut store, _, x0, _, _) = setup();
    assert_eq!(
        bdd_rename_variables(&mut store, x0, &[pair(3, 0)]),
        Err(BddError::InvalidRename)
    );
    assert_eq!(
        bdd_rename_variables(&mut store, x0, &[pair(0, 1), pair(3, 3)]),
        Err(BddError::InvalidRename)
    );
}

#[test]
fn constants_take_any_renaming() {
    let (mut store, m, _, _, _) = setup();
    let t = manager_true(&mut store, m).unwrap();
    let f = manager_false(&mut store, m).unwrap();
    let r = bdd_rename_variables(&mut store, t, &[pair(0, 9), pair(3, 0), pair(1, 0)]).unwrap();
    assert!(bdd_eq(&store, r, t));
    let r = bdd_rename_variables(&mut store, f, &[pair(3, 1)]).unwrap();
    assert!(bdd_eq(&store, r, f));
    let r = bdd_rename_variable(&mut store, t, 0, 2).unwrap();
    assert!(bdd_eq(&store, r, t));
}

#[test]
fn renaming_follows_the_order_of_variables_not_of_nodes() {
    let mut store = Store::new();
    let m = manager_new(&mut store, 6, 10_000);
    let x0 = manager_ithvar(&mut store, m, 0).unwrap();
    let x2 = manager_ithvar(&mut store, m, 2).unwrap();
    let x4 = manager_ithvar(&mut store, m, 4).unwrap();
    let x1 = manager_ithvar(&mut store, m, 1).unwrap();
    let x3 = manager_ithvar(&mut store, m, 3).unwrap();
    let x5 = manager_ithvar(&mut store, m, 5).unwrap();
    let a = bdd_and(&mut store, x0, x2).unwrap();
    let f = bdd_or(&mut store, a, x4).unwrap();
    let b = bdd_and(&mut store, x1, x3).unwrap();
    let expected = bdd_or(&mut store, b, x5).unwrap();
    let r = bdd_rename_variables(&mut store, f, &[pair(4, 5), pair(0, 1), pair(2, 3)]).unwrap();
    assert!(bdd_eq(&store, r, expected));
    assert_eq!(
        bdd_rename_variables(&mut store, f, &[pair(0, 3)]),
        Err(BddError::InvalidRename)
    );
    assert_eq!(
        bdd_rename_variables(&mut store, f, &[pair(0, 2), pair(2, 3)]).map(|_| ()),
        Ok(())
    );
}

#[test]
fn renaming_substitutes_variables() {
    let (mut store, _, x0, x1, _) = setup();
    let f = bdd_or(&mut store, x0, x1).unwrap();
    let r = bdd_rename_variable(&mut store, f, 1, 2).unwrap();
    let all = bdd_rename_variables(&mut store, f, &[pair(0, 1), pair(1, 2)]).unwrap();
    for bits in 0..8u32 {
        let v: Vec<bool> = (0..3).map(|i| bits >> i & 1 == 1).collect();
        let holds = |h: bdd_t, v: &[bool]| {
            bdd_handles::bdd_diagram(&store, h)
                .eval_in(&biodivine_lib_bdd::BddValuation::new(v.to_vec()))
        };
        assert_eq!(holds(r, &v), holds(f, &[v[0], v[2], v[2]]));
        assert_eq!(holds(all, &v), holds(f, &[v[1], v[2], v[2]]));
    }
}
