use bdd_handles::{
    bdd_and, bdd_and_exists, bdd_and_forall, bdd_and_not, bdd_diagram, bdd_eq, bdd_exists,
    bdd_forall, bdd_iff, bdd_imp, bdd_ite, bdd_nodecount, bdd_not, bdd_or, bdd_or_exists,
    bdd_or_forall, bdd_t, bdd_to_bytes, bdd_var_exists, bdd_var_forall, bdd_xor, manager_false,
    manager_ithvar, manager_new, manager_nithvar, manager_node_count, manager_t, manager_true,
    BddError, Store,
};
use biodivine_lib_bdd::{Bdd, BddVariable, BddVariableSet};

fn setup() -> (Store, manager_t, bdd_t, bdd_t, bdd_t) {
    let mut store = Store::new();
    let m = manager_new(&mut store, 3, 10_000);
    let x0 = manager_ithvar(&mut store, m, 0).unwrap();
    let x1 = manager_ithvar(&mut store, m, 1).unwrap();
    let x2 = manager_ithvar(&mut store, m, 2).unwrap();
    (store, m, x0, x1, x2)
}

fn engine_literals() -> (Bdd, Bdd, Bdd) {
    let vars = BddVariableSet::new_anonymous(3);
    (
        vars.mk_var(BddVariable::from_index(0)),
        vars.mk_var(BddVariable::from_index(1)),
        vars.mk_var(BddVariable::from_index(2)),
    )
}

fn var(i: usize) -> BddVariable {
    BddVariable::from_index(i)
}

#[test]
fn leaves_are_the_engines() {
    let mut store = Store::new();
    let m = manager_new(&mut store, 3, 100);
    let vars = BddVariableSet::new_anonymous(3);
    let t = manager_true(&mut store, m).unwrap();
    let f = manager_false(&mut store, m).unwrap();
    let x1 = manager_ithvar(&mut store, m, 1).unwrap();
    let n1 = manager_nithvar(&mut store, m, 1).unwrap();
    assert_eq!(bdd_diagram(&store, t), &vars.mk_true());
    assert_eq!(bdd_diagram(&store, f), &vars.mk_false());
    assert_eq!(bdd_diagram(&store, x1), &vars.mk_var(var(1)));
    assert_eq!(bdd_diagram(&store, n1), &vars.mk_not_var(var(1)));
    assert!(!bdd_eq(&store, x1, n1));
    assert!(!bdd_eq(&store, t, f));
}

#[test]
fn literal_in_the_engines_bytes() {
    let mut store = Store::new();
    let m = manager_new(&mut store, 3, 100);
    let x0 = manager_ithvar(&mut store, m, 0).unwrap();
    let expected: Vec<u8> = vec![
        3, 0, 0, 0, 0, 0, 0, 0, 0, 0, // the false terminal
        3, 0, 1, 0, 0, 0, 1, 0, 0, 0, // the true terminal
        0, 0, 0, 0, 0, 0, 1, 0, 0, 0, // x0: low to false, high to true
    ];
    assert_eq!(bdd_to_bytes(&store, x0), expected);
    let n2 = manager_nithvar(&mut store, m, 2).unwrap();
    let expected: Vec<u8> = vec![
        3, 0, 0, 0, 0, 0, 0, 0, 0, 0, //
        3, 0, 1, 0, 0, 0, 1, 0, 0, 0, //
        2, 0, 1, 0, 0, 0, 0, 0, 0, 0, //
    ];
    assert_eq!(bdd_to_bytes(&store, n2), expected);
}

#[test]
fn wide_universe_in_the_engines_bytes() {
    let mut store = Store::new();
    let m = manager_new(&mut store, 0x1234, 100);
    let f = manager_false(&mut store, m).unwrap();
    assert_eq!(bdd_to_bytes(&store, f), vec![0x34, 0x12, 0, 0, 0, 0, 0, 0, 0, 0]);
    let x = manager_ithvar(&mut store, m, 0x0102).unwrap();
    let bytes = bdd_to_bytes(&store, x);
    assert_eq!(bytes.len(), 30);
    assert_eq!(&bytes[20..], &[0x02, 0x01, 0, 0, 0, 0, 1, 0, 0, 0]);
    assert_eq!(bytes, bdd_diagram(&store, x).to_bytes());
}

#[test]
fn negation() {
    let (mut store, m, x0, x1, _) = setup();
    let (e0, e1, _) = engine_literals();
    let n0 = bdd_not(&mut store, x0).unwrap();
    assert_eq!(bdd_diagram(&store, n0), &e0.not());
    assert!(!bdd_eq(&store, n0, x0));
    let both = bdd_and(&mut store, x0, x1).unwrap();
    let nboth = bdd_not(&mut store, both).unwrap();
    assert_eq!(bdd_diagram(&store, nboth), &e0.and(&e1).not());
    let t = manager_true(&mut store, m).unwrap();
    let f = manager_false(&mut store, m).unwrap();
    let nt = bdd_not(&mut store, t).unwrap();
    let nf = bdd_not(&mut store, f).unwrap();
    assert!(bdd_eq(&store, nt, f));
    assert!(bdd_eq(&store, nf, t));
    let back = bdd_not(&mut store, nboth).unwrap();
    assert!(bdd_eq(&store, back, both));
}

#[test]
fn conjunction() {
    let (mut store, _, x0, x1, _) = setup();
    let (e0, e1, _) = engine_literals();
    let r = bdd_and(&mut store, x0, x1).unwrap();
    assert_eq!(bdd_diagram(&store, r), &e0.and(&e1));
    assert_eq!(bdd_nodecount(&store, r), 4);
    assert!(!bdd_eq(&store, r, x0));
}

#[test]
fn disjunction() {
    let (mut store, _, x0, x1, _) = setup();
    let (e0, e1, _) = engine_literals();
    let r = bdd_or(&mut store, x0, x1).unwrap();
    assert_eq!(bdd_diagram(&store, r), &e0.or(&e1));
    assert_eq!(bdd_nodecount(&store, r), 4);
    assert!(!bdd_eq(&store, r, x0));
}

#[test]
fn exclusive_disjunction() {
    let (mut store, _, x0, x1, _) = setup();
    let (e0, e1, _) = engine_literals();
    let r = bdd_xor(&mut store, x0, x1).unwrap();
    assert_eq!(bdd_diagram(&store, r), &e0.xor(&e1));
    assert_eq!(bdd_nodecount(&store, r), 5);
}

#[test]
fn implication() {
    let (mut store, _, x0, x1, _) = setup();
    let (e0, e1, _) = engine_literals();
    let r = bdd_imp(&mut store, x0, x1).unwrap();
    assert_eq!(bdd_diagram(&store, r), &e0.imp(&e1));
    let back = bdd_imp(&mut store, x1, x0).unwrap();
    assert!(!bdd_eq(&store, r, back));
}

#[test]
fn equivalence() {
    let (mut store, _, x0, x1, _) = setup();
    let (e0, e1, _) = engine_literals();
    let r = bdd_iff(&mut store, x0, x1).unwrap();
    assert_eq!(bdd_diagram(&store, r), &e0.iff(&e1));
    let x = bdd_xor(&mut store, x0, x1).unwrap();
    let nx = bdd_not(&mut store, x).unwrap();
    assert!(bdd_eq(&store, r, nx));
}

#[test]
fn conjunction_with_negation() {
    let (mut store, _, x0, x1, _) = setup();
    let (e0, e1, _) = engine_literals();
    let r = bdd_and_not(&mut store, x0, x1).unwrap();
    assert_eq!(bdd_diagram(&store, r), &e0.and_not(&e1));
    let n1 = bdd_not(&mut store, x1).unwrap();
    let same = bdd_and(&mut store, x0, n1).unwrap();
    assert!(bdd_eq(&store, r, same));
}

#[test]
fn if_then_else() {
    let (mut store, _, x0, x1, x2) = setup();
    let (e0, e1, e2) = engine_literals();
    let r = bdd_ite(&mut store, x0, x1, x2).unwrap();
    assert_eq!(bdd_diagram(&store, r), &Bdd::if_then_else(&e0, &e1, &e2));
    let a = bdd_and(&mut store, x0, x1).unwrap();
    let n0 = bdd_not(&mut store, x0).unwrap();
    let b = bdd_and(&mut store, n0, x2).unwrap();
    let same = bdd_or(&mut store, a, b).unwrap();
    assert!(bdd_eq(&store, r, same));
    assert!(!bdd_eq(&store, r, x0));
}

#[test]
fn if_then_else_across_managers_is_refused() {
    let (mut store, _, x0, x1, _) = setup();
    let other = manager_new(&mut store, 3, 100);
    let y = manager_ithvar(&mut store, other, 2).unwrap();
    assert_eq!(bdd_ite(&mut store, x0, x1, y), Err(BddError::ManagerMismatch));
    assert_eq!(bdd_ite(&mut store, x0, y, x1), Err(BddError::ManagerMismatch));
    assert_eq!(bdd_ite(&mut store, y, x0, x1), Err(BddError::ManagerMismatch));
    assert_eq!(manager_node_count(&store, other), 3);
}

#[test]
fn one_variable_eliminated() {
    let (mut store, m, x0, x1, _) = setup();
    let (e0, e1, _) = engine_literals();
    let both = bdd_and(&mut store, x0, x1).unwrap();
    let r = bdd_var_exists(&mut store, both, 0).unwrap();
    assert_eq!(bdd_diagram(&store, r), &e0.and(&e1).var_exists(var(0)));
    assert!(bdd_eq(&store, r, x1));
    let r = bdd_var_forall(&mut store, both, 0).unwrap();
    assert_eq!(bdd_diagram(&store, r), &e0.and(&e1).var_for_all(var(0)));
    let f = manager_false(&mut store, m).unwrap();
    assert!(bdd_eq(&store, r, f));
    let either = bdd_or(&mut store, x0, x1).unwrap();
    let r = bdd_var_forall(&mut store, either, 0).unwrap();
    assert!(bdd_eq(&store, r, x1));
    let r = bdd_var_exists(&mut store, either, 0).unwrap();
    let t = manager_true(&mut store, m).unwrap();
    assert!(bdd_eq(&store, r, t));
}

#[test]
fn several_variables_eliminated() {
    let (mut store, m, x0, x1, x2) = setup();
    let (e0, e1, e2) = engine_literals();
    let a = bdd_and(&mut store, x0, x1).unwrap();
    let f = bdd_and(&mut store, a, x2).unwrap();
    let ef = e0.and(&e1).and(&e2);
    let r = bdd_exists(&mut store, f, &[0, 2]).unwrap();
    assert_eq!(bdd_diagram(&store, r), &ef.exists(&[var(0), var(2)]));
    assert!(bdd_eq(&store, r, x1));
    let same = bdd_exists(&mut store, f, &[]).unwrap();
    assert!(bdd_eq(&store, same, f));
    let o = bdd_or(&mut store, x0, x1).unwrap();
    let g = bdd_or(&mut store, o, x2).unwrap();
    let eg = e0.or(&e1).or(&e2);
    let r = bdd_forall(&mut store, g, &[0, 2]).unwrap();
    assert_eq!(bdd_diagram(&store, r), &eg.for_all(&[var(0), var(2)]));
    assert!(bdd_eq(&store, r, x1));
    let r = bdd_forall(&mut store, f, &[1]).unwrap();
    let none = manager_false(&mut store, m).unwrap();
    assert!(bdd_eq(&store, r, none));
}

#[test]
fn combined_and_eliminated_in_one_pass() {
    let (mut store, m, x0, x1, x2) = setup();
    let (e0, e1, e2) = engine_literals();
    let t = manager_true(&mut store, m).unwrap();
    let f = manager_false(&mut store, m).unwrap();

    let r = bdd_and_exists(&mut store, x0, x1, &[0]).unwrap();
    assert_eq!(
        bdd_diagram(&store, r),
        &Bdd::binary_op_with_exists(&e0, &e1, biodivine_lib_bdd::op_function::and, &[var(0)])
    );
    assert!(bdd_eq(&store, r, x1));

    let r = bdd_or_exists(&mut store, x0, x1, &[0]).unwrap();
    assert_eq!(
        bdd_diagram(&store, r),
        &Bdd::binary_op_with_exists(&e0, &e1, biodivine_lib_bdd::op_function::or, &[var(0)])
    );
    assert!(bdd_eq(&store, r, t));

    let r = bdd_and_forall(&mut store, x0, x1, &[0]).unwrap();
    assert_eq!(
        bdd_diagram(&store, r),
        &Bdd::binary_op_with_for_all(&e0, &e1, biodivine_lib_bdd::op_function::and, &[var(0)])
    );
    assert!(bdd_eq(&store, r, f));

    let r = bdd_or_forall(&mut store, x0, x1, &[0]).unwrap();
    assert_eq!(
        bdd_diagram(&store, r),
        &Bdd::binary_op_with_for_all(&e0, &e1, biodivine_lib_bdd::op_function::or, &[var(0)])
    );
    assert!(bdd_eq(&store, r, x1));

    let r = bdd_or_forall(&mut store, x0, x2, &[1]).unwrap();
    assert_eq!(bdd_diagram(&store, r), &e0.or(&e2));
}

#[test]
fn every_operator_charges_its_result() {
    let (mut store, m, x0, x1, _) = setup();
    assert_eq!(manager_node_count(&store, m), 9);
    let r = bdd_xor(&mut store, x0, x1).unwrap();
    assert_eq!(manager_node_count(&store, m), 9 + 5);
    let e = bdd_var_exists(&mut store, r, 1).unwrap();
    assert_eq!(bdd_nodecount(&store, e), 2);
    assert_eq!(manager_node_count(&store, m), 9 + 5 + 2);
}

#[test]
fn conjunction_with_the_negation_is_false() {
    let (mut store, m, x0, x1, x2) = setup();
    let f = manager_false(&mut store, m).unwrap();
    let a = bdd_or(&mut store, x0, x1).unwrap();
    let g = bdd_xor(&mut store, a, x2).unwrap();
    for h in [x0, a, g, f] {
        let n = bdd_not(&mut store, h).unwrap();
        let none = bdd_and(&mut store, h, n).unwrap();
        assert!(bdd_eq(&store, none, f));
        assert_eq!(bdd_nodecount(&store, none), 1);
    }
    assert_eq!(bdd_nodecount(&store, f), 1);
    for h in [x0, a, g] {
        assert_ne!(bdd_nodecount(&store, h), bdd_nodecount(&store, f));
    }
}

#[test]
fn equality_is_by_structure_not_by_handle() {
    let (mut store, _, x0, x1, _) = setup();
    let a = bdd_and(&mut store, x0, x1).unwrap();
    let b = bdd_and(&mut store, x1, x0).unwrap();
    assert_ne!(a, b);
    assert!(bdd_eq(&store, a, b));
    assert!(bdd_eq(&store, a, a));
    assert!(!bdd_eq(&store, a, x0));
}

#[test]
fn diagrams_of_different_universes_differ() {
    let mut store = Store::new();
    let m3 = manager_new(&mut store, 3, 100);
    let m4 = manager_new(&mut store, 4, 100);
    let a = manager_true(&mut store, m3).unwrap();
    let b = manager_true(&mut store, m4).unwrap();
    assert!(!bdd_eq(&store, a, b));
}
