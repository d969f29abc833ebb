use bdd_handles::{
    bdd_and, bdd_and_exists, bdd_and_forall, bdd_and_not, bdd_diagram, bdd_eq, bdd_exists,
    bdd_forall, bdd_iff, bdd_imp, bdd_ite, bdd_not, bdd_or, bdd_or_exists, bdd_or_forall, bdd_t,
    bdd_var_exists, bdd_var_forall, bdd_xor, manager_false, manager_ithvar, manager_new,
    manager_nithvar, manager_true, Store,
};
use biodivine_lib_bdd::BddValuation;

const VARS: usize = 4;

fn valuations() -> Vec<Vec<bool>> {
    (0..1u32 << VARS).map(|bits| (0..VARS).map(|i| bits >> i & 1 == 1).collect()).collect()
}

fn holds(store: &Store, f: bdd_t, v: &[bool]) -> bool {
    bdd_diagram(store, f).eval_in(&BddValuation::new(v.to_vec()))
}

/// The valuations that differ from `v` at most in the variables listed.
fn variants(v: &[bool], vars: &[u16]) -> Vec<Vec<bool>> {
    valuations()
        .into_iter()
        .filter(|w| (0..VARS).all(|i| vars.contains(&(i as u16)) || w[i] == v[i]))
        .collect()
}

fn samples(store: &mut Store) -> Vec<bdd_t> {
    let m = manager_new(store, VARS as u16, 1_000_000);
    let t = manager_true(store, m).unwrap();
    let f = manager_false(store, m).unwrap();
    let x0 = manager_ithvar(store, m, 0).unwrap();
    let n1 = manager_nithvar(store, m, 1).unwrap();
    let x2 = manager_ithvar(store, m, 2).unwrap();
    let x3 = manager_ithvar(store, m, 3).unwrap();
    let a = bdd_and(store, x0, n1).unwrap();
    let b = bdd_xor(store, x2, x3).unwrap();
    let c = bdd_or(store, a, b).unwrap();
    let d = bdd_iff(store, x0, x3).unwrap();
    let e = bdd_ite(store, n1, d, b).unwrap();
    vec![t, f, x0, n1, x2, a, b, c, d, e]
}

#[test]
fn leaves_hold_where_they_should() {
    let mut store = Store::new();
    let m = manager_new(&mut store, VARS as u16, 100);
    let t = manager_true(&mut store, m).unwrap();
    let f = manager_false(&mut store, m).unwrap();
    let x2 = manager_ithvar(&mut store, m, 2).unwrap();
    let n2 = manager_nithvar(&mut store, m, 2).unwrap();
    for v in valuations() {
        assert!(holds(&store, t, &v));
        assert!(!holds(&store, f, &v));
        assert_eq!(holds(&store, x2, &v), v[2]);
        assert_eq!(holds(&store, n2, &v), !v[2]);
    }
}

#[test]
fn negation_holds_where_the_operand_does_not() {
    let mut store = Store::new();
    for f in samples(&mut store) {
        let r = bdd_not(&mut store, f).unwrap();
        for v in valuations() {
            assert_eq!(holds(&store, r, &v), !holds(&store, f, &v));
        }
    }
}

#[test]
fn operators_on_two_diagrams_follow_their_truth_tables() {
    let mut store = Store::new();
    let all = samples(&mut store);
    for &f in all.iter() {
        for &g in all.iter() {
            let and = bdd_and(&mut store, f, g).unwrap();
            let or = bdd_or(&mut store, f, g).unwrap();
            let xor = bdd_xor(&mut store, f, g).unwrap();
            let imp = bdd_imp(&mut store, f, g).unwrap();
            let iff = bdd_iff(&mut store, f, g).unwrap();
            let and_not = bdd_and_not(&mut store, f, g).unwrap();
            for v in valuations() {
                let (a, b) = (holds(&store, f, &v), holds(&store, g, &v));
                assert_eq!(holds(&store, and, &v), a && b);
                assert_eq!(holds(&store, or, &v), a || b);
                assert_eq!(holds(&store, xor, &v), a != b);
                assert_eq!(holds(&store, imp, &v), !a || b);
                assert_eq!(holds(&store, iff, &v), a == b);
                assert_eq!(holds(&store, and_not, &v), a && !b);
            }
        }
    }
}

#[test]
fn if_then_else_chooses_by_the_first_operand() {
    let mut store = Store::new();
    let all = samples(&mut store);
    for &f in all.iter().take(6) {
        for &g in all.iter().skip(2).take(5) {
            for &h in all.iter().skip(5) {
                let r = bdd_ite(&mut store, f, g, h).unwrap();
                for v in valuations() {
                    let expected =
                        if holds(&store, f, &v) { holds(&store, g, &v) } else { holds(&store, h, &v) };
                    assert_eq!(holds(&store, r, &v), expected);
                }
            }
        }
    }
}

#[test]
fn elimination_of_one_variable() {
    let mut store = Store::new();
    for f in samples(&mut store) {
        for var in 0..VARS as u16 {
            let some = bdd_var_exists(&mut store, f, var).unwrap();
            let every = bdd_var_forall(&mut store, f, var).unwrap();
            for v in valuations() {
                let around = variants(&v, &[var]);
                assert_eq!(around.len(), 2);
                assert_eq!(holds(&store, some, &v), around.iter().any(|w| holds(&store, f, w)));
                assert_eq!(holds(&store, every, &v), around.iter().all(|w| holds(&store, f, w)));
            }
        }
    }
}

#[test]
fn elimination_of_listed_variables() {
    let mut store = Store::new();
    let lists: [&[u16]; 6] = [&[], &[1], &[0, 3], &[3, 0, 3], &[0, 1, 2, 3], &[2, 9, 4]];
    for f in samples(&mut store) {
        for vars in lists {
            let some = bdd_exists(&mut store, f, vars).unwrap();
            let every = bdd_forall(&mut store, f, vars).unwrap();
            for v in valuations() {
                let around = variants(&v, vars);
                assert_eq!(holds(&store, some, &v), around.iter().any(|w| holds(&store, f, w)));
                assert_eq!(holds(&store, every, &v), around.iter().all(|w| holds(&store, f, w)));
            }
        }
    }
}

#[test]
fn numbers_that_are_no_variables_eliminate_nothing() {
    let mut store = Store::new();
    for f in samples(&mut store) {
        let r = bdd_exists(&mut store, f, &[4, 5, u16::MAX]).unwrap();
        assert!(bdd_eq(&store, r, f));
        let r = bdd_forall(&mut store, f, &[4, 5, u16::MAX]).unwrap();
        assert!(bdd_eq(&store, r, f));
    }
}

#[test]
fn combination_and_elimination_in_one_pass() {
    let mut store = Store::new();
    let all = samples(&mut store);
    let lists: [&[u16]; 4] = [&[], &[2], &[0, 1], &[3, 1, 7]];
    for &f in all.iter().skip(2) {
        for &g in all.iter().skip(4) {
            for vars in lists {
                let and_some = bdd_and_exists(&mut store, f, g, vars).unwrap();
                let or_some = bdd_or_exists(&mut store, f, g, vars).unwrap();
                let and_every = bdd_and_forall(&mut store, f, g, vars).unwrap();
                let or_every = bdd_or_forall(&mut store, f, g, vars).unwrap();
                for v in valuations() {
                    let around = variants(&v, vars);
                    let both = |w: &Vec<bool>| holds(&store, f, w) && holds(&store, g, w);
                    let either = |w: &Vec<bool>| holds(&store, f, w) || holds(&store, g, w);
                    assert_eq!(holds(&store, and_some, &v), around.iter().any(both));
                    assert_eq!(holds(&store, or_some, &v), around.iter().any(either));
                    assert_eq!(holds(&store, and_every, &v), around.iter().all(both));
                    assert_eq!(holds(&store, or_every, &v), around.iter().all(either));
                }
            }
        }
    }
}
