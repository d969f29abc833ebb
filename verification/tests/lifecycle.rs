use bdd_handles::{
    bdd_and, bdd_is_live, bdd_manager, bdd_nodecount, bdd_not, bdd_ref, bdd_refs,
    bdd_same_manager, bdd_unref, manager_false, manager_handles, manager_is_live, manager_ithvar,
    manager_new, manager_nithvar, manager_node_count, manager_num_vars, manager_ref, manager_refs,
    manager_true, manager_unref, BddError, Store,
};

#[test]
fn new_manager_is_charged_nothing() {
    let mut store = Store::new();
    let small = manager_new(&mut store, 0, 0);
    let large = manager_new(&mut store, 65533, usize::MAX);
    assert_eq!(manager_node_count(&store, small), 0);
    assert_eq!(manager_node_count(&store, large), 0);
    assert_eq!(manager_refs(&store, small), 1);
    assert_eq!(manager_num_vars(&store, small), 0);
    assert_eq!(manager_num_vars(&store, large), 65533);
    assert_eq!(manager_handles(&store, large), 0);
    assert_ne!(small, large);
}

#[test]
fn node_count_is_the_sum_of_live_diagrams() {
    let mut store = Store::new();
    let m = manager_new(&mut store, 3, 100);
    let t = manager_true(&mut store, m).unwrap();
    let f = manager_false(&mut store, m).unwrap();
    let x0 = manager_ithvar(&mut store, m, 0).unwrap();
    let n1 = manager_nithvar(&mut store, m, 1).unwrap();
    let both = bdd_and(&mut store, x0, n1).unwrap();
    assert_eq!(bdd_nodecount(&store, t), 2);
    assert_eq!(bdd_nodecount(&store, f), 1);
    assert_eq!(bdd_nodecount(&store, x0), 3);
    assert_eq!(bdd_nodecount(&store, n1), 3);
    assert_eq!(bdd_nodecount(&store, both), 4);
    assert_eq!(manager_node_count(&store, m), 2 + 1 + 3 + 3 + 4);
    assert_eq!(manager_handles(&store, m), 5);
    assert_eq!(manager_refs(&store, m), 6);
}

#[test]
fn equal_diagrams_are_charged_each_on_its_own() {
    let mut store = Store::new();
    let m = manager_new(&mut store, 2, 100);
    let a = manager_ithvar(&mut store, m, 0).unwrap();
    let b = manager_ithvar(&mut store, m, 0).unwrap();
    assert_ne!(a, b);
    assert_eq!(manager_node_count(&store, m), 6);
}

#[test]
fn release_takes_the_node_count_off() {
    let mut store = Store::new();
    let m = manager_new(&mut store, 3, 100);
    let x0 = manager_ithvar(&mut store, m, 0).unwrap();
    let x1 = manager_ithvar(&mut store, m, 1).unwrap();
    let both = bdd_and(&mut store, x0, x1).unwrap();
    assert_eq!(manager_node_count(&store, m), 10);
    bdd_unref(&mut store, both);
    assert_eq!(manager_node_count(&store, m), 6);
    assert!(!bdd_is_live(&store, both));
    bdd_unref(&mut store, x0);
    assert_eq!(manager_node_count(&store, m), 3);
    bdd_unref(&mut store, x1);
    assert_eq!(manager_node_count(&store, m), 0);
    assert_eq!(manager_handles(&store, m), 0);
    assert_eq!(manager_refs(&store, m), 1);
    assert!(manager_is_live(&store, m));
}

#[test]
fn handles_are_released_in_any_order() {
    let mut store = Store::new();
    let m = manager_new(&mut store, 3, 100);
    let x0 = manager_ithvar(&mut store, m, 0).unwrap();
    let x1 = manager_ithvar(&mut store, m, 1).unwrap();
    let both = bdd_and(&mut store, x0, x1).unwrap();
    bdd_unref(&mut store, x0);
    assert_eq!(manager_node_count(&store, m), 7);
    assert!(bdd_is_live(&store, both));
    assert_eq!(bdd_nodecount(&store, both), 4);
    bdd_unref(&mut store, both);
    bdd_unref(&mut store, x1);
    assert_eq!(manager_node_count(&store, m), 0);
}

#[test]
fn manager_ref_and_unref_round_trip() {
    let mut store = Store::new();
    let m = manager_new(&mut store, 3, 100);
    let same = manager_ref(&mut store, m);
    assert_eq!(same, m);
    manager_ref(&mut store, m);
    manager_ref(&mut store, m);
    assert_eq!(manager_refs(&store, m), 4);
    manager_unref(&mut store, m);
    manager_unref(&mut store, m);
    assert_eq!(manager_refs(&store, m), 2);
    assert!(manager_is_live(&store, m));
    manager_unref(&mut store, m);
    assert_eq!(manager_refs(&store, m), 1);
    assert_eq!(manager_node_count(&store, m), 0);
    assert!(manager_is_live(&store, m));
    manager_unref(&mut store, m);
    assert!(!manager_is_live(&store, m));
}

#[test]
fn handle_ref_and_unref_round_trip() {
    let mut store = Store::new();
    let m = manager_new(&mut store, 3, 100);
    let x = manager_ithvar(&mut store, m, 2).unwrap();
    assert_eq!(bdd_refs(&store, x), 1);
    let same = bdd_ref(&mut store, x);
    assert_eq!(same, x);
    bdd_ref(&mut store, x);
    assert_eq!(bdd_refs(&store, x), 3);
    assert_eq!(manager_node_count(&store, m), 3);
    bdd_unref(&mut store, x);
    assert_eq!(bdd_refs(&store, x), 2);
    assert!(bdd_is_live(&store, x));
    bdd_unref(&mut store, x);
    assert_eq!(bdd_refs(&store, x), 1);
    assert_eq!(bdd_nodecount(&store, x), 3);
    assert_eq!(manager_node_count(&store, m), 3);
    assert_eq!(manager_refs(&store, m), 2);
    bdd_unref(&mut store, x);
    assert!(!bdd_is_live(&store, x));
    assert_eq!(manager_node_count(&store, m), 0);
    assert_eq!(manager_refs(&store, m), 1);
}

#[test]
fn manager_lives_as_long_as_a_handle_does() {
    let mut store = Store::new();
    let m = manager_new(&mut store, 3, 100);
    let x = manager_ithvar(&mut store, m, 0).unwrap();
    let y = bdd_not(&mut store, x).unwrap();
    manager_unref(&mut store, m);
    assert!(manager_is_live(&store, m));
    assert_eq!(manager_refs(&store, m), 2);
    assert_eq!(manager_handles(&store, m), 2);
    bdd_unref(&mut store, x);
    assert!(manager_is_live(&store, m));
    assert_eq!(manager_node_count(&store, m), 3);
    bdd_unref(&mut store, y);
    assert!(!manager_is_live(&store, m));
    assert!(!bdd_is_live(&store, y));
}

#[test]
fn slots_are_not_used_twice() {
    let mut store = Store::new();
    let m = manager_new(&mut store, 1, 100);
    let a = manager_true(&mut store, m).unwrap();
    bdd_unref(&mut store, a);
    let b = manager_true(&mut store, m).unwrap();
    assert_ne!(a, b);
    assert!(!bdd_is_live(&store, a));
    assert!(bdd_is_live(&store, b));
    let m2 = manager_new(&mut store, 1, 100);
    manager_unref(&mut store, m2);
    let m3 = manager_new(&mut store, 1, 100);
    assert_ne!(m2, m3);
    assert!(!manager_is_live(&store, m2));
}

#[test]
fn exact_budget_is_enough() {
    let mut store = Store::new();
    let m = manager_new(&mut store, 3, 10);
    let x0 = manager_ithvar(&mut store, m, 0).unwrap();
    let x1 = manager_ithvar(&mut store, m, 1).unwrap();
    let both = bdd_and(&mut store, x0, x1);
    assert!(both.is_ok());
    assert_eq!(manager_node_count(&store, m), 10);
}

#[test]
fn one_node_over_budget_is_refused() {
    let mut store = Store::new();
    let m = manager_new(&mut store, 3, 9);
    let x0 = manager_ithvar(&mut store, m, 0).unwrap();
    let x1 = manager_ithvar(&mut store, m, 1).unwrap();
    let both = bdd_and(&mut store, x0, x1);
    assert_eq!(
        both,
        Err(BddError::TooManyNodes { nodes_total: 6, added: 4, max_nodes_total: 9 })
    );
    assert_eq!(manager_node_count(&store, m), 6);
    assert_eq!(manager_refs(&store, m), 3);
    assert_eq!(manager_handles(&store, m), 2);
}

#[test]
fn empty_budget_refuses_the_first_diagram() {
    let mut store = Store::new();
    let m = manager_new(&mut store, 3, 0);
    assert_eq!(
        manager_false(&mut store, m),
        Err(BddError::TooManyNodes { nodes_total: 0, added: 1, max_nodes_total: 0 })
    );
    assert_eq!(
        manager_true(&mut store, m),
        Err(BddError::TooManyNodes { nodes_total: 0, added: 2, max_nodes_total: 0 })
    );
    assert_eq!(manager_node_count(&store, m), 0);
}

#[test]
fn released_nodes_are_free_for_new_diagrams() {
    let mut store = Store::new();
    let m = manager_new(&mut store, 2, 3);
    let x0 = manager_ithvar(&mut store, m, 0).unwrap();
    assert!(manager_ithvar(&mut store, m, 1).is_err());
    bdd_unref(&mut store, x0);
    assert!(manager_ithvar(&mut store, m, 1).is_ok());
}

#[test]
fn budget_near_the_largest_count_does_not_wrap() {
    let mut store = Store::new();
    let m = manager_new(&mut store, 2, usize::MAX);
    let x0 = manager_ithvar(&mut store, m, 0).unwrap();
    assert_eq!(bdd_nodecount(&store, x0), 3);
    assert_eq!(manager_node_count(&store, m), 3);
}

#[test]
fn operands_of_two_managers_are_refused() {
    let mut store = Store::new();
    let m1 = manager_new(&mut store, 3, 100);
    let m2 = manager_new(&mut store, 3, 100);
    let a = manager_ithvar(&mut store, m1, 0).unwrap();
    let b = manager_ithvar(&mut store, m2, 1).unwrap();
    assert!(!bdd_same_manager(&store, a, b));
    assert_eq!(bdd_manager(&store, a), m1);
    assert_eq!(bdd_manager(&store, b), m2);
    assert_eq!(bdd_and(&mut store, a, b), Err(BddError::ManagerMismatch));
    assert_eq!(manager_node_count(&store, m1), 3);
    assert_eq!(manager_node_count(&store, m2), 3);
    assert_eq!(manager_refs(&store, m1), 2);
}

#[test]
fn budgets_of_two_managers_are_apart() {
    let mut store = Store::new();
    let m1 = manager_new(&mut store, 3, 3);
    let m2 = manager_new(&mut store, 3, 100);
    let a = manager_ithvar(&mut store, m1, 0).unwrap();
    let b = manager_ithvar(&mut store, m2, 0).unwrap();
    let c = bdd_not(&mut store, b).unwrap();
    assert!(bdd_not(&mut store, a).is_err());
    assert_eq!(manager_node_count(&store, m1), 3);
    assert_eq!(manager_node_count(&store, m2), 6);
    assert_eq!(manager_handles(&store, m1), 1);
    assert_eq!(manager_handles(&store, m2), 2);
    assert!(bdd_same_manager(&store, b, c));
}

#[test]
fn handle_as_a_slot_number_and_back() {
    let mut store = Store::new();
    let m = manager_new(&mut store, 2, 100);
    let x = manager_ithvar(&mut store, m, 1).unwrap();
    assert_eq!(bdd_handles::manager_t::from_slot(m.slot()), m);
    assert_eq!(bdd_handles::bdd_t::from_slot(x.slot()), x);
    assert_eq!(m.slot(), 0);
    assert_eq!(x.slot(), 0);
    let y = manager_true(&mut store, m).unwrap();
    assert_eq!(y.slot(), 1);
    assert!(!bdd_is_live(&store, bdd_handles::bdd_t::from_slot(2)));
    assert!(!manager_is_live(&store, bdd_handles::manager_t::from_slot(1)));
    assert!(!manager_is_live(&store, bdd_handles::manager_t::from_slot(usize::MAX)));
}
