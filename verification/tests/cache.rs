use std::collections::HashMap;

use rpl_constraints::forward::{AnalysisSteps, PathForwardAnalysisConfig};
use rpl_constraints::internval_analysis::{Internval, InternvalState};
use rpl_constraints::locals::{
    eq_const, gt_const, index_in_bounds, is_null, is_null_mirsa_pred, lt_const, product_of,
    BodyInfoCache,
};
use rpl_constraints::mir::{
    BasicBlockData, BinOp, Body, CastKind, Const, ConstTy, FloatCast, Local, Location, Operand, Place, Rvalue,
    Scalar, ScalarInt, Statement, Ty,
};
use rpl_constraints::null_analysis::NullPtr;
use rpl_constraints::value::Value;

type Cache = BodyInfoCache<&'static str, &'static str>;

const HERE: Location = Location { block: 1, statement_index: 0 };

fn whole(local: Local) -> Place {
    Place { local, projected: false }
}

fn part(local: Local) -> Place {
    Place { local, projected: true }
}

fn copy(local: Local) -> Operand {
    Operand::Copy(whole(local))
}

fn integer(data: u128) -> Operand {
    Operand::Constant(Some(Scalar::Int(ScalarInt { data, size: 8 })))
}

fn assign(local: Local, rvalue: Rvalue) -> Statement {
    Statement::Assign(whole(local), rvalue)
}

fn binary(local: Local, op: BinOp, left: Operand, right: Operand) -> Statement {
    assign(local, Rvalue::BinaryOp(op, left, right))
}

fn body(n: usize, blocks: Vec<Vec<Statement>>) -> Body {
    Body {
        local_decls: vec![Ty::Other; n],
        basic_blocks: blocks
            .into_iter()
            .map(|statements| BasicBlockData { statements })
            .collect(),
    }
}

fn cache(n: usize, statements: Vec<Statement>) -> Cache {
    BodyInfoCache::new(&body(n, vec![statements]), cast_float)
}

/// Casts between 32-bit and 64-bit integers and floating-point numbers.
fn cast_float(scalar: ScalarInt, cast: FloatCast) -> Option<u128> {
    let single = f32::from_bits(scalar.data as u32);
    let double = f64::from_bits(scalar.data as u64);
    match (cast, scalar.size) {
        (FloatCast::IntToFloat { signed: true, size: 8 }, 4) => {
            Some((scalar.data as u32 as i32 as f64).to_bits() as u128)
        }
        (FloatCast::IntToFloat { signed: false, size: 4 }, 4) => {
            Some((scalar.data as u32 as f32).to_bits() as u128)
        }
        (FloatCast::FloatToFloat { size: 8 }, 4) => Some((single as f64).to_bits() as u128),
        (FloatCast::FloatToFloat { size: 4 }, 8) => Some((double as f32).to_bits() as u128),
        (FloatCast::FloatToInt { signed: true, size: 4 }, 4) => Some(single as i32 as u32 as u128),
        (FloatCast::FloatToInt { signed: true, size: 4 }, 8) => Some(double as i32 as u32 as u128),
        (FloatCast::FloatToInt { signed: false, size: 4 }, 8) => Some(double as u32 as u128),
        _ => None,
    }
}

fn scalar(data: u128, size: u8) -> Operand {
    Operand::Constant(Some(Scalar::Int(ScalarInt { data, size })))
}

fn int_to_int(signed: bool, size: u8, operand: Operand) -> Rvalue {
    Rvalue::Cast(CastKind::IntToInt { signed, size }, operand)
}

fn float(cast: FloatCast, operand: Operand) -> Rvalue {
    Rvalue::Cast(CastKind::Float(cast), operand)
}

/// The steps of a null-pointer analysis with the given result.
fn null_steps(
    result: &'static str,
) -> AnalysisSteps<
    impl FnOnce() -> &'static str,
    impl FnOnce(&&'static str) -> u8,
    impl FnOnce(&&'static str) -> u8,
    impl FnOnce(&&'static str, &u8, &u8, bool, PathForwardAnalysisConfig) -> &'static str,
> {
    AnalysisSteps {
        optimized_mir: || "optimized",
        build_cfg: |body: &&'static str| {
            assert_eq!(*body, "optimized");
            1
        },
        collect_body_places: |body: &&'static str| {
            assert_eq!(*body, "optimized");
            2
        },
        analyze: move |body: &&'static str, cfg: &u8, places: &u8, debug: bool, config: PathForwardAnalysisConfig| {
            assert_eq!((*body, *cfg, *places, debug), ("optimized", 1, 2, false));
            assert_eq!(config, PathForwardAnalysisConfig { max_paths: 128, widen_after_iterations: None });
            result
        },
    }
}

/// The steps of an interval analysis with the given result.
fn internval_steps(
    result: &'static str,
) -> AnalysisSteps<
    impl FnOnce() -> &'static str,
    impl FnOnce(&&'static str) -> u8,
    impl FnOnce(&&'static str) -> u8,
    impl FnOnce(&&'static str, &u8, &u8, PathForwardAnalysisConfig) -> &'static str,
> {
    AnalysisSteps {
        optimized_mir: || "optimized",
        build_cfg: |body: &&'static str| {
            assert_eq!(*body, "optimized");
            1
        },
        collect_body_places: |body: &&'static str| {
            assert_eq!(*body, "optimized");
            2
        },
        analyze: move |body: &&'static str, cfg: &u8, places: &u8, config: PathForwardAnalysisConfig| {
            assert_eq!((*body, *cfg, *places), ("optimized", 1, 2));
            assert_eq!(config, PathForwardAnalysisConfig { max_paths: 64, widen_after_iterations: Some(10) });
            result
        },
    }
}

fn products(cache: &Cache) -> Vec<(usize, usize, bool)> {
    cache.debug_entries(|_| Vec::new(), |_| Vec::new()).product_of
}

fn nulls(cache: &Cache) -> Vec<(usize, bool)> {
    cache.debug_entries(|_| Vec::new(), |_| Vec::new()).null
}

#[test]
fn empty_body() {
    let cache = cache(0, vec![]);
    assert!(nulls(&cache).is_empty());
    assert!(products(&cache).is_empty());
}

#[test]
fn without_statements_a_local_is_a_product_of_itself_only() {
    let cache = cache(3, vec![]);
    assert!(nulls(&cache).is_empty());
    assert_eq!(products(&cache), vec![(0, 0, true), (1, 1, true), (2, 2, true)]);
    for local in 0..3 {
        assert!(!is_null(&cache, local));
    }
}

#[test]
fn constants_are_null_if_zero() {
    assert_eq!(Cache::mir_const_is_null(Some(Scalar::Int(ScalarInt { data: 0, size: 8 }))), Some(true));
    assert_eq!(Cache::mir_const_is_null(Some(Scalar::Int(ScalarInt { data: 1, size: 8 }))), Some(false));
    assert_eq!(Cache::mir_const_is_null(Some(Scalar::Ptr(8))), Some(false));
    assert_eq!(Cache::mir_const_is_null(None), None);
}

#[test]
fn type_level_constants_are_null_if_zero() {
    let zero = Scalar::Int(ScalarInt { data: 0, size: 8 });
    let one = Scalar::Int(ScalarInt { data: 1, size: 8 });
    assert_eq!(Cache::ty_const_is_null(Some(Some(zero))), Some(true));
    assert_eq!(Cache::ty_const_is_null(Some(Some(one))), Some(false));
    assert_eq!(Cache::ty_const_is_null(Some(Some(Scalar::Ptr(8)))), Some(false));
    assert_eq!(Cache::ty_const_is_null(Some(None)), None);
    assert_eq!(Cache::ty_const_is_null(None), None);
}

#[test]
fn null_pointers_are_found_and_others_are_not() {
    // `ptr`, `slice_ptr` and `slice_mut_ptr` are null; `non_null` is a pointer that is not.
    let cache = cache(
        5,
        vec![
            assign(1, Rvalue::Cast(CastKind::Keep, integer(0))),
            assign(2, Rvalue::Use(integer(0))),
            assign(3, Rvalue::Cast(CastKind::Keep, copy(2))),
            assign(4, Rvalue::Cast(CastKind::Keep, integer(1))),
        ],
    );
    assert!(is_null(&cache, 1));
    assert!(is_null(&cache, 2));
    assert!(is_null(&cache, 3));
    assert!(!is_null(&cache, 4));
    assert_eq!(nulls(&cache), vec![(1, true), (2, true), (3, true), (4, false)]);
}

#[test]
fn last_assignment_decides() {
    let cache = cache(
        3,
        vec![
            assign(1, Rvalue::Use(integer(0))),
            assign(2, Rvalue::Use(copy(1))),
            assign(1, Rvalue::Use(integer(7))),
        ],
    );
    assert!(!is_null(&cache, 1));
    assert!(is_null(&cache, 2));
}

#[test]
fn copying_an_unknown_local_forgets() {
    let cache = cache(
        3,
        vec![
            assign(1, Rvalue::Use(integer(0))),
            assign(1, Rvalue::Use(Operand::Move(whole(2)))),
        ],
    );
    assert!(!is_null(&cache, 1));
    assert!(nulls(&cache).is_empty());
}

#[test]
fn unevaluated_constant_forgets() {
    let cache = cache(
        2,
        vec![
            assign(1, Rvalue::Use(integer(0))),
            assign(1, Rvalue::Cast(CastKind::Keep, Operand::Constant(None))),
        ],
    );
    assert!(nulls(&cache).is_empty());
}

#[test]
fn address_of_a_local_is_not_recorded_as_null() {
    let cache = cache(
        3,
        vec![
            assign(1, Rvalue::Cast(CastKind::Keep, integer(0))),
            assign(1, Rvalue::Other),
        ],
    );
    assert!(!is_null(&cache, 1));
    assert!(nulls(&cache).is_empty());
}

#[test]
fn any_other_value_forgets() {
    for value in [
        Rvalue::Other,
        Rvalue::Use(Operand::Copy(part(2))),
        Rvalue::Cast(CastKind::Keep, Operand::Move(part(2))),
        Rvalue::BinaryOp(BinOp::Add, integer(1), integer(1)),
        Rvalue::BinaryOp(BinOp::Div, copy(2), integer(1)),
        Rvalue::BinaryOp(BinOp::Other, copy(2), copy(2)),
    ] {
        for data in [0, 7] {
            let cache = cache(3, vec![assign(1, Rvalue::Use(integer(data))), assign(1, value)]);
            assert!(nulls(&cache).is_empty());
        }
    }
}

#[test]
fn statements_that_do_not_assign_the_whole_local_keep_what_is_known() {
    let cache = cache(
        3,
        vec![
            assign(1, Rvalue::Use(integer(0))),
            Statement::Assign(part(1), Rvalue::Use(integer(7))),
            Statement::Assign(part(1), Rvalue::Other),
            assign(2, Rvalue::Other),
            Statement::Other,
        ],
    );
    assert!(is_null(&cache, 1));
}

#[test]
fn other_value_for_a_local_that_is_not_declared_is_passed_over() {
    let cache = cache(1, vec![assign(5, Rvalue::Other)]);
    assert!(nulls(&cache).is_empty());
}

#[test]
fn integer_casts_of_constants_are_exact() {
    for (data, size, signed, to, null) in [
        (1, 2, false, 1, false),
        (256, 2, false, 1, true),
        (257, 2, false, 1, false),
        (0, 2, false, 1, true),
        (0xff, 1, true, 4, false),
        (0xff00, 2, true, 1, true),
        (0x80, 1, true, 16, false),
        (1 << 64, 16, false, 8, true),
        (u128::MAX, 16, true, 1, false),
        (5, 4, false, 4, false),
    ] {
        let cast = cache(2, vec![assign(1, int_to_int(signed, to, scalar(data, size)))]);
        assert_eq!(nulls(&cast), vec![(1, null)], "{data} of {size} bytes to {to} bytes");
    }
}

#[test]
fn integer_casts_of_locals_are_exact() {
    let kept = cache(
        3,
        vec![assign(1, Rvalue::Use(scalar(3, 2))), assign(2, int_to_int(false, 1, copy(1)))],
    );
    assert_eq!(nulls(&kept), vec![(1, false), (2, false)]);
    // 256 cast to `u8` is zero, and so is the pointer made of it.
    let cut = cache(
        5,
        vec![
            assign(1, Rvalue::Use(scalar(256, 2))),
            assign(2, int_to_int(false, 1, copy(1))),
            assign(3, int_to_int(false, 8, copy(2))),
            assign(4, Rvalue::Cast(CastKind::Keep, copy(3))),
        ],
    );
    assert_eq!(nulls(&cut), vec![(1, false), (2, true), (3, true), (4, true)]);
    // -128 as `i8` is extended to 0xff80, of which the lowest byte is left.
    let extended = cache(
        5,
        vec![
            assign(1, int_to_int(true, 2, scalar(0x80, 1))),
            assign(2, int_to_int(false, 1, copy(1))),
            assign(3, int_to_int(true, 2, scalar(0, 1))),
            assign(4, int_to_int(true, 1, copy(3))),
        ],
    );
    assert_eq!(nulls(&extended), vec![(1, false), (2, false), (3, true), (4, true)]);
}

#[test]
fn values_are_cast_bit_by_bit() {
    let cast = |data: u128, size: u8, signed: bool, to: u8| {
        Value::Int(ScalarInt { data, size }).cast(CastKind::IntToInt { signed, size: to }, &cast_float)
    };
    let int = |data: u128, size: u8| Some(Value::Int(ScalarInt { data, size }));
    assert_eq!(cast(0x1234, 2, false, 1), int(0x34, 1));
    assert_eq!(cast(0x80, 1, true, 2), int(0xff80, 2));
    assert_eq!(cast(0x80, 1, false, 2), int(0x80, 2));
    assert_eq!(cast(0x7f, 1, true, 2), int(0x7f, 2));
    assert_eq!(cast(0xff, 1, true, 16), int(u128::MAX, 16));
    assert_eq!(cast(u64::MAX as u128, 8, true, 16), int(u128::MAX, 16));
    assert_eq!(cast(u128::MAX, 16, true, 8), int(u64::MAX as u128, 8));
    assert_eq!(cast(u128::MAX, 16, false, 16), int(u128::MAX, 16));
    for value in [-32768i16, -300, -1, 0, 1, 299, 32767] {
        let bits = value as u16 as u128;
        assert_eq!(cast(bits, 2, true, 1), int(value as i8 as u8 as u128, 1));
        assert_eq!(cast(bits, 2, true, 4), int(value as i32 as u32 as u128, 4));
        assert_eq!(cast(bits, 2, false, 8), int(value as u16 as u64 as u128, 8));
        assert_eq!(cast(bits, 2, true, 16), int(value as i128 as u128, 16));
    }
}

#[test]
fn pointers_stay_not_null_as_long_as_they_are_whole() {
    let pointer = Operand::Constant(Some(Scalar::Ptr(8)));
    let cache = cache(
        6,
        vec![
            assign(1, Rvalue::Cast(CastKind::Keep, pointer)),
            assign(2, int_to_int(false, 8, copy(1))),
            assign(3, int_to_int(false, 16, copy(2))),
            assign(4, int_to_int(false, 8, copy(3))),
            assign(5, int_to_int(false, 4, copy(4))),
        ],
    );
    assert_eq!(nulls(&cache), vec![(1, false), (2, false), (3, false), (4, false)]);
}

#[test]
fn float_casts_are_what_they_are_said_to_be() {
    let one_and_a_half = scalar(1.5f32.to_bits() as u128, 4);
    let half = scalar(0.5f64.to_bits() as u128, 8);
    let tiny = scalar(1e-300f64.to_bits() as u128, 8);
    let negative = scalar((-2.0f64).to_bits() as u128, 8);
    let cache = cache(
        9,
        vec![
            assign(1, float(FloatCast::FloatToInt { signed: true, size: 4 }, one_and_a_half)),
            assign(2, float(FloatCast::FloatToInt { signed: true, size: 4 }, half)),
            assign(3, float(FloatCast::FloatToFloat { size: 4 }, tiny)),
            assign(4, float(FloatCast::FloatToInt { signed: false, size: 4 }, negative)),
            assign(5, float(FloatCast::IntToFloat { signed: true, size: 8 }, scalar(5, 4))),
            assign(6, float(FloatCast::FloatToInt { signed: true, size: 4 }, copy(5))),
            assign(7, float(FloatCast::FloatToFloat { size: 2 }, half)),
            assign(
                8,
                float(
                    FloatCast::IntToFloat { signed: false, size: 8 },
                    Operand::Constant(Some(Scalar::Ptr(8))),
                ),
            ),
        ],
    );
    assert_eq!(
        nulls(&cache),
        vec![(1, false), (2, true), (3, true), (4, true), (5, false), (6, false)]
    );
}

#[test]
fn blocks_are_read_in_order() {
    let cache: Cache = BodyInfoCache::new(
        &body(
            2,
            vec![
                vec![assign(1, Rvalue::Use(integer(0)))],
                vec![],
                vec![assign(1, Rvalue::Use(integer(1)))],
            ],
        ),
        cast_float,
    );
    assert_eq!(nulls(&cache), vec![(1, false)]);
}

#[test]
fn every_product_operator_relates_both_operands() {
    for op in [
        BinOp::Mul,
        BinOp::MulUnchecked,
        BinOp::MulWithOverflow,
        BinOp::Add,
        BinOp::AddUnchecked,
        BinOp::AddWithOverflow,
        BinOp::Sub,
        BinOp::SubUnchecked,
        BinOp::SubWithOverflow,
    ] {
        let cache = cache(3, vec![binary(0, op, copy(1), Operand::Move(whole(2)))]);
        assert_eq!(
            products(&cache),
            vec![(0, 0, true), (0, 1, true), (0, 2, true), (1, 1, true), (2, 2, true)]
        );
    }
}

#[test]
fn division_relates_the_divisor_as_a_quotient() {
    let cache = cache(3, vec![binary(0, BinOp::Div, copy(1), copy(2))]);
    assert_eq!(
        products(&cache),
        vec![(0, 0, true), (0, 1, true), (0, 2, false), (1, 1, true), (2, 2, true)]
    );
    assert!(product_of(&cache, vec![0, 1]));
    assert!(!product_of(&cache, vec![0, 2]));
}

#[test]
fn other_operators_relate_nothing() {
    let cache = cache(
        3,
        vec![
            binary(0, BinOp::Other, copy(1), copy(2)),
            assign(0, Rvalue::Other),
            assign(0, Rvalue::Use(Operand::Copy(part(1)))),
            assign(0, Rvalue::Use(integer(3))),
            Statement::Assign(part(0), Rvalue::Use(copy(1))),
        ],
    );
    assert_eq!(products(&cache), vec![(0, 0, true), (1, 1, true), (2, 2, true)]);
}

#[test]
fn products_chain() {
    let cache = cache(
        4,
        vec![
            binary(1, BinOp::Mul, copy(0), integer(4)),
            assign(2, Rvalue::Cast(CastKind::Keep, copy(1))),
            assign(3, Rvalue::Use(copy(2))),
        ],
    );
    assert!(product_of(&cache, vec![3, 0]));
    assert!(product_of(&cache, vec![3, 2, 1, 0]));
    assert!(!product_of(&cache, vec![0, 3]));
    assert!(!product_of(&cache, vec![3, 2, 0, 1]));
}

#[test]
fn quotient_of_a_quotient_is_a_product() {
    let cache = cache(
        4,
        vec![
            binary(1, BinOp::Div, integer(9), copy(0)),
            binary(2, BinOp::Div, integer(9), copy(1)),
            binary(3, BinOp::Div, integer(9), copy(2)),
        ],
    );
    assert!(products(&cache).contains(&(1, 0, false)));
    assert!(products(&cache).contains(&(2, 0, true)));
    assert!(products(&cache).contains(&(3, 0, false)));
    assert!(product_of(&cache, vec![2, 0]));
    assert!(product_of(&cache, vec![3, 1]));
}

#[test]
fn dividing_by_itself_makes_a_local_a_quotient_of_itself() {
    let cache = cache(2, vec![binary(1, BinOp::Div, copy(0), copy(1))]);
    assert!(products(&cache).contains(&(1, 1, false)));
    assert!(products(&cache).contains(&(0, 0, true)));
}

#[test]
fn later_relation_replaces_an_earlier_one() {
    let cache = cache(
        2,
        vec![
            binary(1, BinOp::Div, integer(9), copy(0)),
            assign(1, Rvalue::Use(copy(0))),
        ],
    );
    assert!(product_of(&cache, vec![1, 0]));
}

#[test]
fn short_chains_hold() {
    let cache = cache(2, vec![]);
    assert!(product_of(&cache, vec![]));
    assert!(product_of(&cache, vec![1]));
    // A single local is not looked up.
    assert!(product_of(&cache, vec![17]));
    assert!(!product_of(&cache, vec![0, 1]));
    // Nothing is looked up behind the first pair that is not related so.
    assert!(!product_of(&cache, vec![0, 1, 17]));
}

/// Chains the direct relations by the plain triple loop.
fn chained(n: usize, edges: &[(usize, usize, bool)]) -> Vec<Vec<Option<bool>>> {
    let mut grid = vec![vec![None; n]; n];
    for i in 0..n {
        grid[i][i] = Some(true);
    }
    for (result, source, product) in edges {
        grid[*result][*source] = Some(*product);
    }
    for j in 0..n {
        for i in 0..n {
            for k in 0..n {
                if i == k {
                    continue;
                }
                if let (Some(s1), Some(s2)) = (grid[i][j], grid[j][k]) {
                    grid[i][k] = Some(s1 == s2);
                }
            }
        }
    }
    grid
}

#[test]
fn relation_is_that_of_the_triple_loop() {
    let mut seed: u64 = 12345;
    let mut next = |bound: u64| {
        seed = seed.wrapping_mul(6364136223846793005).wrapping_add(1442695040888963407);
        ((seed >> 33) % bound) as usize
    };
    for round in 0..200 {
        let n = 1 + next(6);
        let mut statements = Vec::new();
        let mut edges = Vec::new();
        for _ in 0..next(10) {
            let (result, left, right) = (next(n as u64), next(n as u64), next(n as u64));
            match next(3) {
                0 => {
                    statements.push(binary(result, BinOp::Add, copy(left), copy(right)));
                    edges.push((result, left, true));
                    edges.push((result, right, true));
                }
                1 => {
                    statements.push(binary(result, BinOp::Div, copy(left), copy(right)));
                    edges.push((result, left, true));
                    edges.push((result, right, false));
                }
                _ => {
                    statements.push(assign(result, Rvalue::Use(copy(left))));
                    edges.push((result, left, true));
                }
            }
        }
        let grid = chained(n, &edges);
        let mut expected = Vec::new();
        for i in 0..n {
            for k in 0..n {
                if let Some(product) = grid[i][k] {
                    expected.push((i, k, product));
                }
            }
        }
        assert_eq!(products(&cache(n, statements)), expected, "round {round}");
    }
}

#[test]
fn related_locals_are_those_that_a_chain_connects() {
    let cache = cache(
        5,
        vec![
            binary(0, BinOp::Div, copy(1), copy(2)),
            binary(2, BinOp::Div, copy(3), copy(4)),
            assign(4, Rvalue::Use(copy(2))),
        ],
    );
    let related: Vec<(usize, usize)> =
        products(&cache).into_iter().map(|(i, k, _)| (i, k)).collect();
    assert_eq!(
        related,
        vec![
            (0, 0), (0, 1), (0, 2), (0, 3), (0, 4),
            (1, 1),
            (2, 2), (2, 3), (2, 4),
            (3, 3),
            (4, 2), (4, 3), (4, 4),
        ]
    );
}

#[test]
fn analyses_run_once() {
    let mut cache = cache(1, vec![]);
    assert_eq!(*cache.null_mirsa(null_steps("null")), "null");
    assert_eq!(*cache.null_mirsa(null_steps("again")), "null");
    assert_eq!(*cache.internval_mirsa(internval_steps("internval")), "internval");
    assert_eq!(*cache.internval_mirsa(internval_steps("again")), "internval");
    assert_eq!(*cache.null_mirsa(null_steps("again")), "null");
}

#[test]
fn analyses_are_listed_once_they_have_run() {
    let mut cache = cache(2, vec![assign(1, Rvalue::Use(integer(0)))]);
    let before = cache.debug_entries(
        |_| panic!("has not run"),
        |_| panic!("has not run"),
    );
    assert_eq!(before.null, vec![(1, true)]);
    assert_eq!(before.null_mirsa, None);
    assert_eq!(before.internval_mirsa, None);
    assert_eq!(before.product_of, vec![(0, 0, true), (1, 1, true)]);

    cache.null_mirsa(null_steps("null"));
    let between = cache.debug_entries(
        |analysis| {
            assert_eq!(*analysis, "null");
            vec![
                vec![(1, "Null".to_string()), (0, "NonNull".to_string())],
                vec![],
                vec![(1, "MaybeNull".to_string())],
            ]
        },
        |_| panic!("has not run"),
    );
    assert_eq!(
        between.null_mirsa,
        Some(vec![
            (0, 1, "Null".to_string()),
            (0, 0, "NonNull".to_string()),
            (2, 1, "MaybeNull".to_string()),
        ])
    );
    assert_eq!(between.internval_mirsa, None);

    cache.internval_mirsa(internval_steps("internval"));
    let after = cache.debug_entries(
        |_| vec![],
        |analysis| {
            assert_eq!(*analysis, "internval");
            vec![vec![], vec![(0, "[1, 2]".to_string())]]
        },
    );
    assert_eq!(after.null_mirsa, Some(vec![]));
    assert_eq!(after.internval_mirsa, Some(vec![(1, 0, "[1, 2]".to_string())]));
}

#[test]
fn null_predicate_runs_the_analysis_and_asks_it() {
    let mut cache = cache(2, vec![]);
    let query = |analysis: &&'static str, location: Location| {
        assert_eq!(*analysis, "null");
        assert_eq!(location, HERE);
        Some(NullPtr::Null)
    };
    let value = |state: &NullPtr, local: Local| {
        if local == 1 { Some(*state) } else { None }
    };
    assert!(is_null_mirsa_pred(&mut cache, HERE, 1, null_steps("null"), query, value));
    assert!(!is_null_mirsa_pred(&mut cache, HERE, 0, null_steps("again"), query, value));
    assert!(!is_null_mirsa_pred(
        &mut cache,
        HERE,
        1,
        null_steps("again"),
        |_, _| None::<NullPtr>,
        value
    ));
}

#[test]
fn interval_predicates_run_the_analysis_and_ask_it() {
    let mut cache = cache(4, vec![]);
    let query = |analysis: &&'static str, location: Location| {
        assert_eq!(*analysis, "internval");
        assert_eq!(location, HERE);
        let mut internval = HashMap::new();
        internval.insert(1, Internval::new(5, 5));
        internval.insert(2, Internval::new(0, 3));
        internval.insert(3, Internval::new(9, 9));
        Some(InternvalState { internval, slice_meta: HashMap::new() })
    };
    let five = Const::Mir { ty: ConstTy::Int, scalar: Some(ScalarInt { data: 5, size: 4 }) };
    assert!(eq_const(&mut cache, HERE, 1, &five, internval_steps("internval"), query));
    assert!(!eq_const(&mut cache, HERE, 2, &five, internval_steps("again"), query));
    assert!(lt_const(&mut cache, HERE, 2, &five, internval_steps("again"), query));
    assert!(!lt_const(&mut cache, HERE, 3, &five, internval_steps("again"), query));
    assert!(gt_const(&mut cache, HERE, 3, &five, internval_steps("again"), query));
    assert!(!gt_const(&mut cache, HERE, 1, &five, internval_steps("again"), query));

    let declared = Body {
        local_decls: vec![Ty::Array(Some(4)), Ty::Other, Ty::Other, Ty::Other],
        basic_blocks: Vec::new(),
    };
    assert!(index_in_bounds(&declared, &mut cache, HERE, 0, 2, internval_steps("again"), query));
    assert!(!index_in_bounds(&declared, &mut cache, HERE, 0, 1, internval_steps("again"), query));
}

#[test]
fn no_local_is_equal_to_a_constant_above_the_largest_number() {
    let mut cache = cache(2, vec![]);
    let query = |_: &&'static str, _: Location| {
        let mut internval = HashMap::new();
        internval.insert(1, Internval::new(i128::MAX, i128::MAX));
        Some(InternvalState { internval, slice_meta: HashMap::new() })
    };
    let constant = |ty: ConstTy, data: u128| Const::Mir {
        ty,
        scalar: Some(ScalarInt { data, size: 16 }),
    };
    let above = constant(ConstTy::Uint, 1 << 127);
    assert!(!eq_const(&mut cache, HERE, 1, &above, internval_steps("internval"), query));
    let largest = constant(ConstTy::Uint, u128::MAX);
    assert!(!eq_const(&mut cache, HERE, 1, &largest, internval_steps("internval"), query));
    let fitting = constant(ConstTy::Uint, i128::MAX as u128);
    assert!(eq_const(&mut cache, HERE, 1, &fitting, internval_steps("internval"), query));
    let signed = constant(ConstTy::Int, i128::MAX as u128);
    assert!(eq_const(&mut cache, HERE, 1, &signed, internval_steps("internval"), query));
    assert!(!lt_const(&mut cache, HERE, 1, &above, internval_steps("internval"), query));
    assert!(!gt_const(&mut cache, HERE, 1, &above, internval_steps("internval"), query));
}

#[test]
fn comparison_with_no_number_still_runs_the_analysis() {
    let mut cache = cache(1, vec![]);
    let never = |_: &&'static str, _: Location| -> Option<InternvalState> { panic!("asked") };
    assert!(!eq_const(&mut cache, HERE, 0, &Const::Param, internval_steps("internval"), never));
    assert_eq!(*cache.internval_mirsa(internval_steps("again")), "internval");
}
