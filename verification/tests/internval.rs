use std::collections::HashMap;

use rpl_constraints::forward::PathForwardAnalysisConfig;
use rpl_constraints::internval_analysis::{
    analyze_internval_mirsa, const_to_i128, eq_const_in_state, eq_const_mirsa, gt_const_in_state,
    gt_const_mirsa, index_in_bounds_in_state, index_in_bounds_mirsa, local_len, lt_const_in_state,
    lt_const_mirsa, Internval, InternvalState,
};
use rpl_constraints::mir::{Body, Const, ConstTy, Location, Referent, ScalarInt, Ty};

const HERE: Location = Location { block: 2, statement_index: 3 };

fn konst(ty: ConstTy, data: u128, size: u8) -> Const {
    Const::Mir { ty, scalar: Some(ScalarInt { data, size }) }
}

fn state(internval: &[(usize, i128, i128)], slice_meta: &[(usize, i128, i128)]) -> InternvalState {
    let mut values = HashMap::new();
    for (local, low, high) in internval {
        values.insert(*local, Internval::new(*low, *high));
    }
    let mut lengths = HashMap::new();
    for (local, low, high) in slice_meta {
        lengths.insert(*local, Internval::new(*low, *high));
    }
    InternvalState { internval: values, slice_meta: lengths }
}

fn body(local_decls: Vec<Ty>) -> Body {
    Body { local_decls, basic_blocks: Vec::new() }
}

#[test]
fn constants_of_integer_types() {
    assert_eq!(const_to_i128(&konst(ConstTy::Int, 0xff, 1)), Some(-1));
    assert_eq!(const_to_i128(&konst(ConstTy::Uint, 0xff, 1)), Some(255));
    assert_eq!(const_to_i128(&konst(ConstTy::Int, 0x8000_0000, 4)), Some(-0x8000_0000));
    assert_eq!(const_to_i128(&konst(ConstTy::Uint, 0x8000_0000, 4)), Some(0x8000_0000));
    assert_eq!(const_to_i128(&konst(ConstTy::Int, u128::MAX, 16)), Some(-1));
    assert_eq!(const_to_i128(&konst(ConstTy::Uint, u128::MAX, 16)), Some(i128::MAX));
}

#[test]
fn constants_of_other_scalar_types() {
    assert_eq!(const_to_i128(&konst(ConstTy::Bool, 1, 1)), Some(1));
    assert_eq!(const_to_i128(&konst(ConstTy::Bool, 0, 1)), Some(0));
    assert_eq!(const_to_i128(&konst(ConstTy::Bool, 2, 1)), Some(0));
    assert_eq!(const_to_i128(&konst(ConstTy::Char, 'a' as u128, 4)), Some(97));
    assert_eq!(const_to_i128(&konst(ConstTy::Char, 0x10_ffff, 4)), Some(0x10_ffff));
}

#[test]
fn constants_without_a_number() {
    assert_eq!(const_to_i128(&konst(ConstTy::Other, 1, 8)), None);
    assert_eq!(const_to_i128(&Const::Mir { ty: ConstTy::Int, scalar: None }), None);
    assert_eq!(const_to_i128(&Const::Param), None);
}

#[test]
fn interval_bounds_are_included() {
    assert!(!Internval::new(3, 3).is_empty());
    assert!(!Internval::new(-1, 3).is_empty());
    assert!(Internval::new(4, 3).is_empty());
}

#[test]
fn comparisons_by_an_interval() {
    let known = Some(state(&[(1, 5, 5), (2, 2, 7), (3, 1, 0)], &[]));
    assert!(eq_const_in_state(&known, 1, 5));
    assert!(!eq_const_in_state(&known, 1, 6));
    assert!(!eq_const_in_state(&known, 2, 5));
    assert!(lt_const_in_state(&known, 2, 8));
    assert!(!lt_const_in_state(&known, 2, 7));
    assert!(gt_const_in_state(&known, 2, 1));
    assert!(!gt_const_in_state(&known, 2, 2));
}

#[test]
fn empty_interval_shows_nothing() {
    let known = Some(state(&[(3, 1, 0)], &[]));
    for expected in -2..3 {
        assert!(!eq_const_in_state(&known, 3, expected));
        assert!(!lt_const_in_state(&known, 3, expected));
        assert!(!gt_const_in_state(&known, 3, expected));
    }
}

#[test]
fn unknown_local_or_state_shows_nothing() {
    let known = Some(state(&[(1, 5, 5)], &[]));
    assert!(!eq_const_in_state(&known, 9, 5));
    assert!(!lt_const_in_state(&known, 9, 50));
    assert!(!gt_const_in_state(&known, 9, 0));
    assert!(!eq_const_in_state(&None, 1, 5));
    assert!(!lt_const_in_state(&None, 1, 50));
    assert!(!gt_const_in_state(&None, 1, 0));
}

#[test]
fn comparisons_exclude_each_other() {
    for low in -3i128..4 {
        for high in -3i128..4 {
            let known = Some(state(&[(1, low, high)], &[]));
            for expected in -4i128..5 {
                let shown = [
                    eq_const_in_state(&known, 1, expected),
                    lt_const_in_state(&known, 1, expected),
                    gt_const_in_state(&known, 1, expected),
                ];
                assert!(shown.iter().filter(|holds| **holds).count() <= 1);
                let members = || low..=high;
                let some = low <= high;
                assert_eq!(shown[0], some && members().all(|x| x == expected));
                assert_eq!(shown[1], some && members().all(|x| x < expected));
                assert_eq!(shown[2], some && members().all(|x| x > expected));
            }
        }
    }
}

#[test]
fn comparisons_ask_for_the_state_before_the_location() {
    let five = konst(ConstTy::Uint, 5, 8);
    let query = |analysis: &u8, location: Location| {
        assert_eq!(*analysis, 42);
        assert_eq!(location, HERE);
        Some(state(&[(1, 5, 5), (2, 0, 4), (3, 6, 9)], &[]))
    };
    assert!(eq_const_mirsa(&42u8, HERE, 1, &five, query));
    assert!(!eq_const_mirsa(&42u8, HERE, 2, &five, query));
    assert!(lt_const_mirsa(&42u8, HERE, 2, &five, query));
    assert!(!lt_const_mirsa(&42u8, HERE, 3, &five, query));
    assert!(gt_const_mirsa(&42u8, HERE, 3, &five, query));
    assert!(!gt_const_mirsa(&42u8, HERE, 1, &five, query));
}

#[test]
fn comparison_with_no_number_asks_nothing() {
    let never = |_: &u8, _: Location| -> Option<InternvalState> { panic!("asked for a state") };
    assert!(!eq_const_mirsa(&0u8, HERE, 1, &Const::Param, never));
    assert!(!lt_const_mirsa(&0u8, HERE, 1, &Const::Param, never));
    assert!(!gt_const_mirsa(&0u8, HERE, 1, &konst(ConstTy::Other, 1, 8), never));
}

#[test]
fn comparison_before_an_unknown_location_fails() {
    let five = konst(ConstTy::Int, 5, 4);
    assert!(!eq_const_mirsa(&0u8, HERE, 1, &five, |_, _| None));
    assert!(!lt_const_mirsa(&0u8, HERE, 1, &five, |_, _| None));
    assert!(!gt_const_mirsa(&0u8, HERE, 1, &five, |_, _| None));
}

#[test]
fn lengths_of_arrays_and_slices() {
    let declared = body(vec![
        Ty::Array(Some(4)),
        Ty::Array(None),
        Ty::Slice,
        Ty::Ref(Referent::Array(Some(7))),
        Ty::Ref(Referent::Array(None)),
        Ty::Ref(Referent::Slice),
        Ty::Ref(Referent::Other),
        Ty::Other,
        Ty::Slice,
        Ty::Ref(Referent::Slice),
    ]);
    let known = state(&[(7, 1, 1)], &[(2, 3, 9), (5, 2, 2), (7, 8, 8), (0, 1, 1), (9, 2, 1)]);
    assert_eq!(local_len(&declared, &known, 0), Some((4, 4)));
    assert_eq!(local_len(&declared, &known, 1), None);
    assert_eq!(local_len(&declared, &known, 2), Some((3, 9)));
    assert_eq!(local_len(&declared, &known, 3), Some((7, 7)));
    assert_eq!(local_len(&declared, &known, 4), None);
    assert_eq!(local_len(&declared, &known, 5), Some((2, 2)));
    assert_eq!(local_len(&declared, &known, 6), None);
    assert_eq!(local_len(&declared, &known, 7), None);
    assert_eq!(local_len(&declared, &known, 8), None);
    assert_eq!(local_len(&declared, &known, 9), None);
}

#[test]
fn largest_array_length_is_kept() {
    let declared = body(vec![Ty::Array(Some(u64::MAX))]);
    assert_eq!(
        local_len(&declared, &state(&[], &[]), 0),
        Some((u64::MAX as i128, u64::MAX as i128))
    );
}

#[test]
fn index_in_bounds_of_an_array() {
    let declared = body(vec![Ty::Array(Some(4)), Ty::Other]);
    for (low, high, expected) in [
        (0, 3, true),
        (3, 3, true),
        (0, 4, false),
        (-1, 3, false),
        (-1, -1, false),
        (1, 0, false),
    ] {
        let known = Some(state(&[(1, low, high)], &[]));
        assert_eq!(index_in_bounds_in_state(&declared, &known, 0, 1), expected);
    }
}

#[test]
fn index_in_bounds_of_a_slice_takes_the_least_length() {
    let declared = body(vec![Ty::Ref(Referent::Slice), Ty::Other]);
    let known = Some(state(&[(1, 0, 2)], &[(0, 3, 10)]));
    assert!(index_in_bounds_in_state(&declared, &known, 0, 1));
    let shorter = Some(state(&[(1, 0, 2)], &[(0, 2, 10)]));
    assert!(!index_in_bounds_in_state(&declared, &shorter, 0, 1));
    let unknown = Some(state(&[(1, 0, 2)], &[]));
    assert!(!index_in_bounds_in_state(&declared, &unknown, 0, 1));
}

#[test]
fn index_of_which_nothing_is_known_is_not_in_bounds() {
    let declared = body(vec![Ty::Array(Some(4)), Ty::Other]);
    assert!(!index_in_bounds_in_state(&declared, &None, 0, 1));
    assert!(!index_in_bounds_in_state(&declared, &Some(state(&[], &[])), 0, 1));
    // The array is not looked at then.
    assert!(!index_in_bounds_in_state(&declared, &None, 100, 1));
}

#[test]
fn index_in_bounds_asks_for_the_state_before_the_location() {
    let declared = body(vec![Ty::Array(Some(4)), Ty::Other]);
    let query = |analysis: &u8, location: Location| {
        assert_eq!(*analysis, 7);
        assert_eq!(location, HERE);
        Some(state(&[(1, 0, 3)], &[]))
    };
    assert!(index_in_bounds_mirsa(&declared, &7u8, HERE, 0, 1, query));
    assert!(!index_in_bounds_mirsa(&declared, &7u8, HERE, 0, 1, |_, _| None));
}

#[test]
fn interval_analysis_is_configured() {
    let result = analyze_internval_mirsa(
        &"body",
        |body| format!("graph of {body}"),
        |body| format!("places of {body}"),
        |body, graph, places, config| (body.to_string(), graph.clone(), places.clone(), config),
    );
    assert_eq!(result.0, "body");
    assert_eq!(result.1, "graph of body");
    assert_eq!(result.2, "places of body");
    assert_eq!(
        result.3,
        PathForwardAnalysisConfig { max_paths: 64, widen_after_iterations: Some(10) }
    );
}
