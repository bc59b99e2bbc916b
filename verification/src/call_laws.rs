//! What calls return, and how calls relate to each other.
//!
//! Closures that are handed in may answer in more than one way. Where a law is about what comes out,
//! it is about answers that are settled.
use vstd::arithmetic::div_mod::{lemma_mod_bound, lemma_small_mod};
use vstd::arithmetic::power2::{lemma2_to64, lemma_pow2_pos, pow2};
use vstd::prelude::*;

use crate::debug_entries::{
    in_blocks, known_flags, known_in_grid, law_known_flags, law_known_in_grid, list_blocks,
    DebugEntries,
};
use crate::forward::{AnalysisSteps, PathForwardAnalysisConfig};
use crate::internval_analysis::{
    analyze_internval_mirsa, const_to_i128, const_value, constant_fits, eq_const_in_state,
    eq_const_mirsa, gt_const_in_state, gt_const_mirsa, index_in_bounds_in_state,
    index_in_bounds_mirsa, local_len, lt_const_in_state, lt_const_mirsa, run_internval, shows_eq,
    shows_gt, shows_lt, signed_bits_to_i128, unsigned_bits_to_i128, Internval,
    InternvalState,
};
use crate::internval_laws::{law_bounds_are_compared, law_signed_value_has_its_bits};
use crate::locals::{
    eq_const, gt_const, index_in_bounds, is_null, is_null_mirsa_pred, is_product_chain, lt_const,
    null_after, product_of, BodyInfoCache,
};
use crate::locals_laws::{
    law_declared_locals_are_in_range, law_locals_of_a_grid_are_in_range, law_null_of_a_copy,
    names_locals_below,
};
use crate::mir::{
    BasicBlockData, Body, CastKind, Const, ConstTy, FloatCast, Local, Location, Operand, Place,
    Referent, Rvalue, Scalar, ScalarInt, Statement, Ty,
};
use crate::mir_laws::law_block_is_read_in_order;
use crate::null_analysis::{analyze_null_mirsa, is_null_mirsa, is_null_value, run_null, NullPtr};
use crate::relation::product_grid;
use crate::value::{casts_floats, gives_casts, int_to_int, FloatCasts, Value};
use crate::value_laws::law_cast_keeps_the_number;

verus! {

/// A place or an operand is asked for its local, a scalar whether it is zero and for its size, and a
/// cast for the size of its result.
pub proof fn law_calls_on_parts(
    place: Place,
    place_local: Option<Local>,
    operand: Operand,
    operand_local: Option<Local>,
    scalar: ScalarInt,
    zero: bool,
    bits: u64,
    cast: FloatCast,
    size: u8,
)
    requires
        call_ensures(FloatCast::size, (&cast,), size),
        call_ensures(Place::as_local, (&place,), place_local),
        call_ensures(Operand::as_local, (&operand,), operand_local),
        call_ensures(ScalarInt::is_null, (&scalar,), zero),
        call_ensures(ScalarInt::bits, (&scalar,), bits),
    ensures
        place_local == (if place.projected {
            None
        } else {
            Some(place.local)
        }),
        operand_local == (match operand {
            Operand::Copy(place) => if place.projected {
                None
            } else {
                Some(place.local)
            },
            Operand::Move(place) => if place.projected {
                None
            } else {
                Some(place.local)
            },
            Operand::Constant(_) => None,
        }),
        zero == (scalar.data == 0),
        bits == 8 * scalar.size,
        size == (match cast {
            FloatCast::IntToFloat { signed: _, size } => size,
            FloatCast::FloatToFloat { size } => size,
            FloatCast::FloatToInt { signed: _, size } => size,
        }),
{
}

/// An interval has the bounds that it is made with, and is empty exactly if they are crossed.
pub proof fn law_calls_on_intervals(low: i128, high: i128, interval: Internval, empty: bool)
    requires
        call_ensures(Internval::new, (low, high), interval),
        call_ensures(Internval::is_empty, (&interval,), empty),
    ensures
        interval.low == low,
        interval.high == high,
        empty == (low > high),
{
}

/// Bits may be read at every width up to that of the bits, but signed not at none, and at a width of
/// 127 only where they stand for no negative number.
pub proof fn law_bits_may_be_read(bits: u128, bit_width: u64)
    requires
        bit_width <= 128,
    ensures
        call_requires(unsigned_bits_to_i128, (bits, bit_width)),
        bit_width != 0 && bit_width != 127 ==> call_requires(
            signed_bits_to_i128,
            (bits, bit_width),
        ),
        bit_width == 127 && 2 * (bits as int % pow2(127) as int) < pow2(127) ==> call_requires(
            signed_bits_to_i128,
            (bits, bit_width),
        ),
{
    lemma_pow2_pos(127);
    lemma_mod_bound(bits as int, pow2(127) as int);
}

/// Bits that are read as unsigned give their remainder by two to the width, or the largest `i128` where
/// that is larger.
pub proof fn law_unsigned_bits_are_read(bits: u128, bit_width: u64, number: i128)
    requires
        bit_width <= 128,
        call_ensures(unsigned_bits_to_i128, (bits, bit_width), number),
    ensures
        ({
            let x = bits as int % pow2(bit_width as nat) as int;
            &&& x <= i128::MAX ==> number == x
            &&& x > i128::MAX ==> number == i128::MAX
        }),
{
}

/// Bits that are read as signed give the one number in the range of their width that has them.
pub proof fn law_signed_bits_are_read(bits: u128, bit_width: u64, number: i128)
    requires
        1 <= bit_width <= 128,
        call_ensures(signed_bits_to_i128, (bits, bit_width), number),
    ensures
        ({
            let half = pow2((bit_width - 1) as nat) as int;
            &&& -half <= number < half
            &&& (number - bits) % pow2(bit_width as nat) as int == 0
        }),
{
    law_signed_value_has_its_bits(bits as nat, bit_width as nat);
}

/// Every constant may be read whose scalar, if it has one, has one byte to sixteen. What comes out is
/// what the constant stands for: nothing, or the one number in range that has its bits, or for an
/// unsigned one its bits, but no more than the largest `i128`, and for a `bool` or a `char` its data.
pub proof fn law_constants_are_read(ty: ConstTy, scalar: ScalarInt, number: Option<i128>)
    requires
        1 <= scalar.size <= 16,
        scalar.data < pow2((8 * scalar.size) as nat),
        call_ensures(
            const_to_i128,
            (&Const::Mir { ty, scalar: Some(scalar) },),
            number,
        ),
    ensures
        call_requires(const_to_i128, (&Const::Mir { ty, scalar: Some(scalar) },)),
        match ty {
            ConstTy::Int => {
                let half = pow2((8 * scalar.size - 1) as nat) as int;
                number matches Some(number) && -half <= number < half && (number - scalar.data)
                    % pow2((8 * scalar.size) as nat) as int == 0
            },
            ConstTy::Uint => number == Some(
                if scalar.data <= i128::MAX {
                    scalar.data as i128
                } else {
                    i128::MAX
                },
            ),
            ConstTy::Bool => number == Some((scalar.data % 2) as i128),
            ConstTy::Char => number == Some((scalar.data % 0x1_0000_0000) as i128),
            ConstTy::Other => number is None,
        },
{
    law_signed_value_has_its_bits(scalar.data as nat, (8 * scalar.size) as nat);
    lemma_small_mod(scalar.data as nat, pow2((8 * scalar.size) as nat));
    lemma2_to64();
}

/// Nothing comes out of a constant parameter, or of a constant that was not evaluated.
pub proof fn law_unknown_constants_are_read(ty: ConstTy, first: Option<i128>, second: Option<i128>)
    requires
        call_ensures(const_to_i128, (&Const::Param,), first),
        call_ensures(const_to_i128, (&Const::Mir { ty, scalar: None },), second),
    ensures
        call_requires(const_to_i128, (&Const::Param,)),
        call_requires(const_to_i128, (&Const::Mir { ty, scalar: None },)),
        first is None,
        second is None,
{
}

/// A state is asked for the bounds of a local, and these are compared with the number.
pub proof fn law_states_are_compared(
    state: InternvalState,
    local: Local,
    expected: i128,
    eq: bool,
    lt: bool,
    gt: bool,
)
    requires
        call_ensures(eq_const_in_state, (&Some(state), local, expected), eq),
        call_ensures(lt_const_in_state, (&Some(state), local, expected), lt),
        call_ensures(gt_const_in_state, (&Some(state), local, expected), gt),
    ensures
        ({
            let known = state.internval@.contains_key(local);
            let low = state.internval@[local].low;
            let high = state.internval@[local].high;
            &&& eq == (known && low == expected && high == expected)
            &&& lt == (known && low <= high && high < expected)
            &&& gt == (known && low <= high && low > expected)
        }),
{
    law_bounds_are_compared(state, local, expected as int);
}

/// No comparison holds where there is no state.
pub proof fn law_no_state_is_compared(local: Local, expected: i128, eq: bool, lt: bool, gt: bool)
    requires
        call_ensures(eq_const_in_state, (&None::<InternvalState>, local, expected), eq),
        call_ensures(lt_const_in_state, (&None::<InternvalState>, local, expected), lt),
        call_ensures(gt_const_in_state, (&None::<InternvalState>, local, expected), gt),
    ensures
        !eq && !lt && !gt,
{
}

/// Whether a query has only one answer.
pub open spec fn answers<R, S, Q: FnOnce(&R, Location) -> Option<S>>(
    query: Q,
    analysis: R,
    location: Location,
    state: Option<S>,
) -> bool {
    forall|x: Option<S>| #[trigger] query.ensures((&analysis, location), x) ==> x == state
}

/// An analysis is asked for its state before a location, and that is compared with the number that the
/// constant stands for. Where it stands for none, the analysis need not be asked.
pub proof fn law_analyses_are_compared<R, Q: FnOnce(&R, Location) -> Option<InternvalState>>(
    analysis: R,
    location: Location,
    local: Local,
    konst: Const,
    query: Q,
    state: Option<InternvalState>,
    eq: bool,
    lt: bool,
    gt: bool,
)
    requires
        konst.wf(),
        answers(query, analysis, location, state),
        call_ensures(eq_const_mirsa::<R, Q>, (&analysis, location, local, &konst, query), eq),
        call_ensures(lt_const_mirsa::<R, Q>, (&analysis, location, local, &konst, query), lt),
        call_ensures(gt_const_mirsa::<R, Q>, (&analysis, location, local, &konst, query), gt),
    ensures
        const_value(konst) is None ==> !eq && !lt && !gt,
        const_value(konst) matches Some(number) ==> {
            &&& eq == shows_eq(state, local, number)
            &&& lt == shows_lt(state, local, number)
            &&& gt == shows_gt(state, local, number)
        },
        query.requires((&analysis, location)) || const_value(konst) is None ==> {
            &&& call_requires(
                eq_const_mirsa::<R, Q>,
                (&analysis, location, local, &konst, query),
            )
            &&& call_requires(
                lt_const_mirsa::<R, Q>,
                (&analysis, location, local, &konst, query),
            )
            &&& call_requires(
                gt_const_mirsa::<R, Q>,
                (&analysis, location, local, &konst, query),
            )
        },
{
}

/// The length of a local that the body declares may be asked for. An array has its length and a slice
/// the bounds that the state has for it, if they are not crossed; so has a reference to either.
pub proof fn law_lengths_are_read(
    body: Body,
    state: InternvalState,
    local: Local,
    bounds: Option<(i128, i128)>,
)
    requires
        local < body.local_decls.len(),
        call_ensures(local_len, (&body, &state, local), bounds),
    ensures
        call_requires(local_len, (&body, &state, local)),
        ({
            let low = state.slice_meta@[local].low;
            let high = state.slice_meta@[local].high;
            let slice = if state.slice_meta@.contains_key(local) && low <= high {
                Some((low, high))
            } else {
                None
            };
            match body.local_decls[local as int] {
                Ty::Array(Some(len)) => bounds == Some((len as i128, len as i128)),
                Ty::Ref(Referent::Array(Some(len))) => bounds == Some((len as i128, len as i128)),
                Ty::Slice => bounds == slice,
                Ty::Ref(Referent::Slice) => bounds == slice,
                _ => bounds is None,
            }
        }),
{
}

/// An index is in bounds of a slice if its bounds are not crossed, not below zero, and below the least
/// length, where the bounds of the length are not crossed either. It is in bounds of an array if its
/// bounds are not crossed and both within it.
pub proof fn law_indices_are_checked(
    body: Body,
    state: InternvalState,
    arr_local: Local,
    idx_local: Local,
    result: bool,
)
    requires
        arr_local < body.local_decls.len(),
        call_ensures(
            index_in_bounds_in_state,
            (&body, &Some(state), arr_local, idx_local),
            result,
        ),
    ensures
        call_requires(index_in_bounds_in_state, (&body, &Some(state), arr_local, idx_local)),
        ({
            let idx = state.internval@[idx_local];
            let len = state.slice_meta@[arr_local];
            let known = state.internval@.contains_key(idx_local) && 0 <= idx.low <= idx.high;
            let slice = known && state.slice_meta@.contains_key(arr_local) && len.low <= len.high
                && idx.high < len.low;
            match body.local_decls[arr_local as int] {
                Ty::Array(Some(len)) => result == (known && idx.high < len),
                Ty::Ref(Referent::Array(Some(len))) => result == (known && idx.high < len),
                Ty::Slice => result == slice,
                Ty::Ref(Referent::Slice) => result == slice,
                _ => !result,
            }
        }),
{
}

/// No index is in bounds where there is no state, and then the array need not be declared.
pub proof fn law_no_index_is_checked(
    body: Body,
    arr_local: Local,
    idx_local: Local,
    result: bool,
)
    requires
        call_ensures(
            index_in_bounds_in_state,
            (&body, &None::<InternvalState>, arr_local, idx_local),
            result,
        ),
    ensures
        call_requires(
            index_in_bounds_in_state,
            (&body, &None::<InternvalState>, arr_local, idx_local),
        ),
        !result,
{
}

/// An analysis is asked for its state before a location, and the index is checked by that.
pub proof fn law_indices_are_checked_by_analyses<
    R,
    Q: FnOnce(&R, Location) -> Option<InternvalState>,
>(
    body: Body,
    analysis: R,
    location: Location,
    arr_local: Local,
    idx_local: Local,
    query: Q,
    state: Option<InternvalState>,
    result: bool,
    checked: bool,
)
    requires
        arr_local < body.local_decls.len(),
        answers(query, analysis, location, state),
        call_ensures(
            index_in_bounds_mirsa::<R, Q>,
            (&body, &analysis, location, arr_local, idx_local, query),
            result,
        ),
        call_ensures(
            index_in_bounds_in_state,
            (&body, &state, arr_local, idx_local),
            checked,
        ),
    ensures
        result == checked,
        query.requires((&analysis, location)) ==> call_requires(
            index_in_bounds_mirsa::<R, Q>,
            (&body, &analysis, location, arr_local, idx_local, query),
        ),
{
}

/// Whether the null-pointer analysis of a body has only one result: whatever its steps give, with paths
/// merged and states widened as they are to be.
pub open spec fn null_results_in<
    B,
    G,
    P,
    R,
    O: FnOnce() -> B,
    C: FnOnce(&B) -> G,
    L: FnOnce(&B) -> P,
    A: FnOnce(&B, &G, &P, bool, PathForwardAnalysisConfig) -> R,
>(steps: AnalysisSteps<O, C, L, A>, result: R) -> bool {
    let config = PathForwardAnalysisConfig { max_paths: 128, widen_after_iterations: None };
    forall|body: B, cfg: G, places: P, x: R|
        steps.optimized_mir.ensures((), body) && steps.build_cfg.ensures((&body,), cfg)
            && steps.collect_body_places.ensures((&body,), places) && #[trigger] steps.analyze.ensures(
            (&body, &cfg, &places, false, config),
            x,
        ) ==> x == result
}

/// Whether each step of the null-pointer analysis may be taken on what the steps before it give.
pub open spec fn null_may_run<
    B,
    G,
    P,
    R,
    O: FnOnce() -> B,
    C: FnOnce(&B) -> G,
    L: FnOnce(&B) -> P,
    A: FnOnce(&B, &G, &P, bool, PathForwardAnalysisConfig) -> R,
>(steps: AnalysisSteps<O, C, L, A>) -> bool {
    let config = PathForwardAnalysisConfig { max_paths: 128, widen_after_iterations: None };
    &&& steps.optimized_mir.requires(())
    &&& forall|body: B| #[trigger]
        steps.optimized_mir.ensures((), body) ==> steps.build_cfg.requires((&body,))
            && steps.collect_body_places.requires((&body,))
    &&& forall|body: B, cfg: G, places: P|
        steps.optimized_mir.ensures((), body) && steps.build_cfg.ensures((&body,), cfg)
            && steps.collect_body_places.ensures((&body,), places)
            ==> #[trigger] steps.analyze.requires((&body, &cfg, &places, false, config))
}

/// The null-pointer analysis gets the graph and the places of the body, and its configuration.
pub proof fn law_null_analysis<
    B,
    G,
    P,
    R,
    C: FnOnce(&B) -> G,
    L: FnOnce(&B) -> P,
    A: FnOnce(&B, &G, &P, bool, PathForwardAnalysisConfig) -> R,
>(body: B, build_cfg: C, collect_body_places: L, analyze: A, result: R, expected: R)
    requires
        ({
            let config = PathForwardAnalysisConfig { max_paths: 128, widen_after_iterations: None };
            forall|cfg: G, places: P, x: R|
                build_cfg.ensures((&body,), cfg) && collect_body_places.ensures((&body,), places)
                    && #[trigger] analyze.ensures((&body, &cfg, &places, false, config), x)
                    ==> x == expected
        }),
        call_ensures(
            analyze_null_mirsa::<B, G, P, R, C, L, A>,
            (&body, build_cfg, collect_body_places, analyze),
            result,
        ),
    ensures
        result == expected,
        ({
            let config = PathForwardAnalysisConfig { max_paths: 128, widen_after_iterations: None };
            &&& build_cfg.requires((&body,))
            &&& collect_body_places.requires((&body,))
            &&& forall|cfg: G, places: P|
                build_cfg.ensures((&body,), cfg) && collect_body_places.ensures((&body,), places)
                    ==> #[trigger] analyze.requires((&body, &cfg, &places, false, config))
        }) ==> call_requires(
            analyze_null_mirsa::<B, G, P, R, C, L, A>,
            (&body, build_cfg, collect_body_places, analyze),
        ),
{
}

/// The null-pointer analysis runs on the optimized form of the body, and results in what its steps
/// give.
pub proof fn law_null_analysis_runs<
    B,
    G,
    P,
    R,
    O: FnOnce() -> B,
    C: FnOnce(&B) -> G,
    L: FnOnce(&B) -> P,
    A: FnOnce(&B, &G, &P, bool, PathForwardAnalysisConfig) -> R,
>(steps: AnalysisSteps<O, C, L, A>, result: R, expected: R)
    requires
        null_may_run(steps),
        null_results_in(steps, expected),
        call_ensures(run_null::<B, G, P, R, O, C, L, A>, (steps,), result),
    ensures
        call_requires(run_null::<B, G, P, R, O, C, L, A>, (steps,)),
        result == expected,
{
}

/// Whether the interval analysis of a body has only one result: whatever its steps give, with paths
/// merged and states widened as they are to be.
pub open spec fn internval_results_in<
    B,
    G,
    P,
    R,
    O: FnOnce() -> B,
    C: FnOnce(&B) -> G,
    L: FnOnce(&B) -> P,
    A: FnOnce(&B, &G, &P, PathForwardAnalysisConfig) -> R,
>(steps: AnalysisSteps<O, C, L, A>, result: R) -> bool {
    let config = PathForwardAnalysisConfig { max_paths: 64, widen_after_iterations: Some(10) };
    forall|body: B, cfg: G, places: P, x: R|
        steps.optimized_mir.ensures((), body) && steps.build_cfg.ensures((&body,), cfg)
            && steps.collect_body_places.ensures((&body,), places) && #[trigger] steps.analyze.ensures(
            (&body, &cfg, &places, config),
            x,
        ) ==> x == result
}

/// Whether each step of the interval analysis may be taken on what the steps before it give.
pub open spec fn internval_may_run<
    B,
    G,
    P,
    R,
    O: FnOnce() -> B,
    C: FnOnce(&B) -> G,
    L: FnOnce(&B) -> P,
    A: FnOnce(&B, &G, &P, PathForwardAnalysisConfig) -> R,
>(steps: AnalysisSteps<O, C, L, A>) -> bool {
    let config = PathForwardAnalysisConfig { max_paths: 64, widen_after_iterations: Some(10) };
    &&& steps.optimized_mir.requires(())
    &&& forall|body: B| #[trigger]
        steps.optimized_mir.ensures((), body) ==> steps.build_cfg.requires((&body,))
            && steps.collect_body_places.requires((&body,))
    &&& forall|body: B, cfg: G, places: P|
        steps.optimized_mir.ensures((), body) && steps.build_cfg.ensures((&body,), cfg)
            && steps.collect_body_places.ensures((&body,), places)
            ==> #[trigger] steps.analyze.requires((&body, &cfg, &places, config))
}

/// The interval analysis gets the graph and the places of the body, and its configuration.
pub proof fn law_internval_analysis<
    B,
    G,
    P,
    R,
    C: FnOnce(&B) -> G,
    L: FnOnce(&B) -> P,
    A: FnOnce(&B, &G, &P, PathForwardAnalysisConfig) -> R,
>(body: B, build_cfg: C, collect_body_places: L, analyze: A, result: R, expected: R)
    requires
        ({
            let config = PathForwardAnalysisConfig { max_paths: 64, widen_after_iterations: Some(10) };
            forall|cfg: G, places: P, x: R|
                build_cfg.ensures((&body,), cfg) && collect_body_places.ensures((&body,), places)
                    && #[trigger] analyze.ensures((&body, &cfg, &places, config), x)
                    ==> x == expected
        }),
        call_ensures(
            analyze_internval_mirsa::<B, G, P, R, C, L, A>,
            (&body, build_cfg, collect_body_places, analyze),
            result,
        ),
    ensures
        result == expected,
        ({
            let config = PathForwardAnalysisConfig { max_paths: 64, widen_after_iterations: Some(10) };
            &&& build_cfg.requires((&body,))
            &&& collect_body_places.requires((&body,))
            &&& forall|cfg: G, places: P|
                build_cfg.ensures((&body,), cfg) && collect_body_places.ensures((&body,), places)
                    ==> #[trigger] analyze.requires((&body, &cfg, &places, config))
        }) ==> call_requires(
            analyze_internval_mirsa::<B, G, P, R, C, L, A>,
            (&body, build_cfg, collect_body_places, analyze),
        ),
{
}

/// The interval analysis runs on the optimized form of the body, and results in what its steps give.
pub proof fn law_internval_analysis_runs<
    B,
    G,
    P,
    R,
    O: FnOnce() -> B,
    C: FnOnce(&B) -> G,
    L: FnOnce(&B) -> P,
    A: FnOnce(&B, &G, &P, PathForwardAnalysisConfig) -> R,
>(steps: AnalysisSteps<O, C, L, A>, result: R, expected: R)
    requires
        internval_may_run(steps),
        internval_results_in(steps, expected),
        call_ensures(run_internval::<B, G, P, R, O, C, L, A>, (steps,), result),
    ensures
        call_requires(run_internval::<B, G, P, R, O, C, L, A>, (steps,)),
        result == expected,
{
}

/// A pointer is null only if the state says so, and not if it may be, if nothing reaches it, or if the
/// state cannot name it.
pub proof fn law_null_values(known: Option<NullPtr>, result: bool)
    requires
        call_ensures(is_null_value, (known,), result),
    ensures
        match known {
            Some(NullPtr::Null) => result,
            Some(NullPtr::Bot) => !result,
            Some(NullPtr::NonNull) => !result,
            Some(NullPtr::MaybeNull) => !result,
            None => !result,
        },
{
}

/// An analysis is asked for its state before a location, and the state for what it knows of the local.
pub proof fn law_null_by_analyses<
    R,
    S,
    Q: FnOnce(&R, Location) -> Option<S>,
    V: FnOnce(&S, Local) -> Option<NullPtr>,
>(
    analysis: R,
    location: Location,
    local: Local,
    query: Q,
    value: V,
    state: Option<S>,
    known: Option<NullPtr>,
    result: bool,
)
    requires
        answers(query, analysis, location, state),
        state matches Some(state) ==> forall|x: Option<NullPtr>| #[trigger]
            value.ensures((&state, local), x) ==> x == known,
        call_ensures(
            is_null_mirsa::<R, S, Q, V>,
            (&analysis, location, local, query, value),
            result,
        ),
    ensures
        result == (state is Some && known == Some(NullPtr::Null)),
        query.requires((&analysis, location)) && (state matches Some(state) ==> value.requires(
            (&state, local),
        )) ==> call_requires(
            is_null_mirsa::<R, S, Q, V>,
            (&analysis, location, local, query, value),
        ),
{
}

/// A constant is null exactly if it is an integer without a bit set. It is not null if it is another
/// integer or a pointer, and unknown if it has no scalar, or at the level of types no value.
pub proof fn law_null_constants<N, I>(
    scalar: Option<Scalar>,
    of_body: Option<bool>,
    of_type: Option<bool>,
    of_none: Option<bool>,
)
    requires
        call_ensures(BodyInfoCache::<N, I>::mir_const_is_null, (scalar,), of_body),
        call_ensures(BodyInfoCache::<N, I>::ty_const_is_null, (Some(scalar),), of_type),
        call_ensures(
            BodyInfoCache::<N, I>::ty_const_is_null,
            (None::<Option<Scalar>>,),
            of_none,
        ),
    ensures
        of_body == (match scalar {
            Some(Scalar::Int(known)) => Some(known.data == 0),
            Some(Scalar::Ptr(_)) => Some(false),
            None => None,
        }),
        of_type == of_body,
        of_none is None,
{
}

/// A cast of an integer gives the bits of the number that was cast, as many as there is room for.
pub proof fn law_integers_are_cast(
    scalar: ScalarInt,
    signed: bool,
    size: u8,
    number: int,
    result: ScalarInt,
)
    requires
        1 <= scalar.size <= 16,
        1 <= size <= 16,
        (number - scalar.data) % pow2((8 * scalar.size) as nat) as int == 0,
        signed ==> -(pow2((8 * scalar.size - 1) as nat) as int) <= number < pow2(
            (8 * scalar.size - 1) as nat,
        ),
        !signed ==> 0 <= number < pow2((8 * scalar.size) as nat),
        call_ensures(int_to_int, (&scalar, signed, size), result),
    ensures
        call_requires(int_to_int, (&scalar, signed, size)),
        result.size == size,
        result.data < pow2((8 * size) as nat),
        (result.data - number) % pow2((8 * size) as nat) as int == 0,
{
    law_cast_keeps_the_number(scalar, signed, size, number);
}

/// A value is asked whether it is zero, and what a cast makes of it. A cast that keeps the bits keeps
/// it, an integer is cast as integers are, an address stays one where there is room for it, and a cast
/// from or to a floating-point number is what was handed in for it.
pub proof fn law_values_are_cast<F: Fn(ScalarInt, FloatCast) -> Option<u128>>(
    value: Value,
    kind: CastKind,
    cast_float: F,
    casts: FloatCasts,
    zero: bool,
    result: Option<Value>,
    int_result: ScalarInt,
)
    requires
        casts_floats(cast_float),
        gives_casts(cast_float, casts),
        value.wf(),
        kind.wf(),
        call_ensures(Value::is_null, (&value,), zero),
        call_ensures(Value::cast::<F>, (&value, kind, &cast_float), result),
        (kind, value) matches (CastKind::IntToInt { signed, size }, Value::Int(scalar))
            ==> call_ensures(int_to_int, (&scalar, signed, size), int_result),
    ensures
        call_requires(Value::cast::<F>, (&value, kind, &cast_float)),
        zero == (match value {
            Value::Int(scalar) => scalar.data == 0,
            Value::Ptr { .. } => false,
        }),
        match (kind, value) {
            (CastKind::Keep, _) => result == Some(value),
            (CastKind::IntToInt { .. }, Value::Int(_)) => result == Some(Value::Int(int_result)),
            (CastKind::IntToInt { size, .. }, Value::Ptr { low, .. }) => if low <= size {
                result == Some(Value::Ptr { low, size })
            } else {
                result is None
            },
            (CastKind::Float(cast), Value::Int(scalar)) => match casts(scalar, cast) {
                Some(data) => result == Some(
                    Value::Int(
                        ScalarInt {
                            data,
                            size: match cast {
                                FloatCast::IntToFloat { signed: _, size } => size,
                                FloatCast::FloatToFloat { size } => size,
                                FloatCast::FloatToInt { signed: _, size } => size,
                            },
                        },
                    ),
                ),
                None => result is None,
            },
            (CastKind::Float(_), Value::Ptr { .. }) => result is None,
        },
{
    let args = (&value, kind, &cast_float);
    assert(gives_casts(*args.2, casts));
}

/// A body may be read whose statements are valid and name only locals that it declares, if the grid of
/// these fits into memory.
pub proof fn law_bodies_may_be_read<N, I, F: Fn(ScalarInt, FloatCast) -> Option<u128>>(
    body: Body,
    cast_float: F,
)
    requires
        casts_floats(cast_float),
        24 * body.local_decls.len() <= isize::MAX,
        forall|b: int, s: int|
            0 <= b < body.basic_blocks.len() && 0 <= s < body.basic_blocks[b].statements.len() ==> {
                let statement = #[trigger] body.basic_blocks[b].statements[s];
                statement.wf() && names_locals_below(statement, body.local_decls.len() as nat)
            },
    ensures
        call_requires(BodyInfoCache::<N, I>::new::<F>, (&body, cast_float)),
{
    law_declared_locals_are_in_range(body);
}

/// Reading a body gives a flag for each local and a flag for each two locals, and runs no analysis.
pub proof fn law_bodies_are_read<N, I, F: Fn(ScalarInt, FloatCast) -> Option<u128>>(
    body: Body,
    cast_float: F,
    casts: FloatCasts,
    cache: BodyInfoCache<N, I>,
    i: Local,
    k: Local,
)
    requires
        gives_casts(cast_float, casts),
        call_ensures(BodyInfoCache::<N, I>::new::<F>, (&body, cast_float), cache),
        i < body.local_decls.len(),
        k < body.local_decls.len(),
    ensures
        cache.null_flags().len() == body.local_decls.len(),
        cache.null_flags()[i as int] == null_after(body.statements(), i, casts),
        cache.products().len() == body.local_decls.len(),
        cache.products()[i as int].len() == body.local_decls.len(),
        cache.products()[i as int][k as int] == product_grid(
            body.statements(),
            body.local_decls.len() as nat,
        )[i as int][k as int],
        cache.null_result() is None,
        cache.internval_result() is None,
{
    let args = (&body, cast_float);
    assert(gives_casts(args.1, casts));
}

/// Any local that has a flag may be asked for. It is null exactly if its flag says so.
pub proof fn law_null_locals<N, I>(cache: BodyInfoCache<N, I>, local: Local, result: bool)
    requires
        local < cache.null_flags().len(),
        call_ensures(is_null::<N, I>, (&cache, local), result),
    ensures
        call_requires(is_null::<N, I>, (&cache, local)),
        match cache.null_flags()[local as int] {
            Some(null) => result == null,
            None => !result,
        },
{
}

/// Where the last statement of a body assigns one local to another, copied or moved, the second is null
/// in that body exactly if the first is in the body without the statement.
pub proof fn law_null_is_passed_on<N, I, F: Fn(ScalarInt, FloatCast) -> Option<u128>>(
    body: Body,
    block: BasicBlockData,
    next_body: Body,
    next_block: BasicBlockData,
    source: Local,
    local: Local,
    cast_float: F,
    casts: FloatCasts,
    cache: BodyInfoCache<N, I>,
    next_cache: BodyInfoCache<N, I>,
    before: bool,
    after: bool,
)
    requires
        gives_casts(cast_float, casts),
        body.basic_blocks@ == seq![block],
        next_body.basic_blocks@ == seq![next_block],
        source < body.local_decls.len(),
        local < next_body.local_decls.len(),
        ({
            let to = Place { local, projected: false };
            let from = Place { local: source, projected: false };
            ||| next_block.statements@ == block.statements@.push(
                Statement::Assign(to, Rvalue::Use(Operand::Copy(from))),
            )
            ||| next_block.statements@ == block.statements@.push(
                Statement::Assign(to, Rvalue::Use(Operand::Move(from))),
            )
            ||| next_block.statements@ == block.statements@.push(
                Statement::Assign(to, Rvalue::Cast(CastKind::Keep, Operand::Copy(from))),
            )
            ||| next_block.statements@ == block.statements@.push(
                Statement::Assign(to, Rvalue::Cast(CastKind::Keep, Operand::Move(from))),
            )
        }),
        call_ensures(BodyInfoCache::<N, I>::new::<F>, (&body, cast_float), cache),
        call_ensures(BodyInfoCache::<N, I>::new::<F>, (&next_body, cast_float), next_cache),
        call_ensures(is_null::<N, I>, (&cache, source), before),
        call_ensures(is_null::<N, I>, (&next_cache, local), after),
    ensures
        after == before,
{
    law_block_is_read_in_order(block, body);
    law_block_is_read_in_order(next_block, next_body);
    law_null_of_a_copy(block.statements@, local, source, casts);
    law_bodies_are_read(body, cast_float, casts, cache, source, source);
    law_bodies_are_read(next_body, cast_float, casts, next_cache, local, local);
}

/// Any locals that have flags may be asked for. Two are a chain of products exactly if the flag of the
/// first with the second says product. A list is one exactly if each two that follow each other are.
pub proof fn law_product_chains<N, I>(
    cache: BodyInfoCache<N, I>,
    locals: Vec<Local>,
    result: bool,
)
    requires
        cache.wf(),
        forall|t: int| 0 <= t < locals.len() ==> #[trigger] locals[t] < cache.products().len(),
        call_ensures(product_of::<N, I>, (&cache, locals), result),
    ensures
        call_requires(product_of::<N, I>, (&cache, locals)),
        locals.len() == 2 ==> (match cache.products()[locals[0] as int][locals[1] as int] {
            Some(product) => result == product,
            None => !result,
        }),
        result <==> forall|t: int|
            0 <= t < locals.len() - 1 ==> cache.products()[#[trigger] locals[t] as int][locals[t
                + 1] as int] == Some(true),
{
    law_locals_of_a_grid_are_in_range(cache.products(), locals@);
    if locals.len() == 2 {
        assert(locals[0] == locals@[0] && locals[0 + 1int] == locals@[1]);
        if is_product_chain(cache.products(), locals@) {
            assert(cache.products()[locals@[0] as int][locals@[0 + 1int] as int] == Some(true));
        } else {
            let t = choose|t: int|
                0 <= t < locals@.len() - 1 && cache.products()[#[trigger] locals@[t] as int][locals@[
                t + 1] as int] != Some(true);
            assert(t == 0);
        }
    }
}

/// The listing of blocks has all entries of all blocks, each with its block.
pub proof fn law_blocks_are_listed(
    blocks: Vec<Vec<(Local, String)>>,
    result: Vec<(usize, usize, String)>,
)
    requires
        call_ensures(list_blocks, (&blocks,), result),
    ensures
        result@ == in_blocks(blocks@),
{
}

/// The listing of a cache shows a local with a flag exactly if that is its flag, two locals
/// likewise, and an analysis exactly if it has run, with what it has at the end of each block.
pub proof fn law_caches_are_listed<
    N,
    I,
    NullStates: FnOnce(&N) -> Vec<Vec<(Local, String)>>,
    InternvalStates: FnOnce(&I) -> Vec<Vec<(Local, String)>>,
>(
    cache: BodyInfoCache<N, I>,
    null_states: NullStates,
    internval_states: InternvalStates,
    null_blocks: Vec<Vec<(Local, String)>>,
    internval_blocks: Vec<Vec<(Local, String)>>,
    result: DebugEntries,
    i: Local,
    k: Local,
    flag: bool,
)
    requires
        cache.wf(),
        cache.null_flags().len() <= usize::MAX,
        cache.null_result() matches Some(analysis) ==> forall|x: Vec<Vec<(Local, String)>>|
            #[trigger] null_states.ensures((&analysis,), x) ==> x == null_blocks,
        cache.internval_result() matches Some(analysis) ==> forall|x: Vec<Vec<(Local, String)>>|
            #[trigger] internval_states.ensures((&analysis,), x) ==> x == internval_blocks,
        call_ensures(
            BodyInfoCache::<N, I>::debug_entries::<NullStates, InternvalStates>,
            (&cache, null_states, internval_states),
            result,
        ),
    ensures
        (cache.null_result() matches Some(analysis) ==> null_states.requires((&analysis,))) && (
        cache.internval_result() matches Some(analysis) ==> internval_states.requires((&analysis,)))
            ==> call_requires(
            BodyInfoCache::<N, I>::debug_entries::<NullStates, InternvalStates>,
            (&cache, null_states, internval_states),
        ),
        result.null@.contains((i, flag)) <==> i < cache.null_flags().len()
            && cache.null_flags()[i as int] == Some(flag),
        result.null@ == known_flags(cache.null_flags()),
        result.product_of@.contains((i, k, flag)) <==> i < cache.products().len() && k
            < cache.products().len() && cache.products()[i as int][k as int] == Some(flag),
        result.product_of@ == known_in_grid(cache.products()),
        result.null_mirsa is Some <==> cache.null_result() is Some,
        result.internval_mirsa is Some <==> cache.internval_result() is Some,
        result.null_mirsa matches Some(entries) ==> entries@ == in_blocks(null_blocks@),
        result.internval_mirsa matches Some(entries) ==> entries@ == in_blocks(internval_blocks@),
{
    law_known_flags(cache.null_flags(), i, flag);
    law_known_in_grid(cache.products(), cache.null_flags().len(), i, k, flag);
}

/// The null-pointer analysis of a cache may be asked for if it has run, or if its steps may be taken. A
/// result that is there is returned and kept. One that is not is what the steps result in, and is then
/// kept. Nothing else in the cache changes.
pub proof fn law_null_result_is_kept<
    N,
    I,
    B,
    G,
    P,
    O: FnOnce() -> B,
    C: FnOnce(&B) -> G,
    L: FnOnce(&B) -> P,
    A: FnOnce(&B, &G, &P, bool, PathForwardAnalysisConfig) -> N,
>(
    cache: &mut BodyInfoCache<N, I>,
    steps: AnalysisSteps<O, C, L, A>,
    expected: N,
    result: &N,
)
    requires
        old(cache).null_result() matches Some(kept) ==> kept == expected,
        old(cache).null_result() is None ==> null_may_run(steps) && null_results_in(
            steps,
            expected,
        ),
        call_ensures(
            BodyInfoCache::<N, I>::null_mirsa::<B, G, P, O, C, L, A>,
            (cache, steps),
            result,
        ),
    ensures
        call_requires(BodyInfoCache::<N, I>::null_mirsa::<B, G, P, O, C, L, A>, (cache, steps)),
        *result == expected,
        final(cache).null_result() == Some(expected),
        final(cache).internval_result() == old(cache).internval_result(),
        final(cache).null_flags() == old(cache).null_flags(),
        final(cache).products() == old(cache).products(),
{
}

/// The interval analysis of a cache may be asked for if it has run, or if its steps may be taken. A
/// result that is there is returned and kept. One that is not is what the steps result in, and is then
/// kept. Nothing else in the cache changes.
pub proof fn law_internval_result_is_kept<
    N,
    I,
    B,
    G,
    P,
    O: FnOnce() -> B,
    C: FnOnce(&B) -> G,
    L: FnOnce(&B) -> P,
    A: FnOnce(&B, &G, &P, PathForwardAnalysisConfig) -> I,
>(
    cache: &mut BodyInfoCache<N, I>,
    steps: AnalysisSteps<O, C, L, A>,
    expected: I,
    result: &I,
)
    requires
        old(cache).internval_result() matches Some(kept) ==> kept == expected,
        old(cache).internval_result() is None ==> internval_may_run(steps) && internval_results_in(
            steps,
            expected,
        ),
        call_ensures(
            BodyInfoCache::<N, I>::internval_mirsa::<B, G, P, O, C, L, A>,
            (cache, steps),
            result,
        ),
    ensures
        call_requires(BodyInfoCache::<N, I>::internval_mirsa::<B, G, P, O, C, L, A>, (cache, steps)),
        *result == expected,
        final(cache).internval_result() == Some(expected),
        final(cache).null_result() == old(cache).null_result(),
        final(cache).null_flags() == old(cache).null_flags(),
        final(cache).products() == old(cache).products(),
{
}

/// A local is asked for by the null-pointer analysis, which runs if it has not: the result is what the
/// state before the location knows of it.
pub proof fn law_null_predicate<
    N,
    I,
    S,
    B,
    G,
    P,
    O: FnOnce() -> B,
    C: FnOnce(&B) -> G,
    L: FnOnce(&B) -> P,
    A: FnOnce(&B, &G, &P, bool, PathForwardAnalysisConfig) -> N,
    Q: FnOnce(&N, Location) -> Option<S>,
    V: FnOnce(&S, Local) -> Option<NullPtr>,
>(
    cache: &mut BodyInfoCache<N, I>,
    location: Location,
    local: Local,
    steps: AnalysisSteps<O, C, L, A>,
    query: Q,
    value: V,
    analysis: N,
    state: Option<S>,
    known: Option<NullPtr>,
    result: bool,
)
    requires
        old(cache).null_result() matches Some(kept) ==> kept == analysis,
        old(cache).null_result() is None ==> null_results_in(steps, analysis),
        answers(query, analysis, location, state),
        state matches Some(state) ==> forall|x: Option<NullPtr>| #[trigger]
            value.ensures((&state, local), x) ==> x == known,
        call_ensures(
            is_null_mirsa_pred::<N, I, S, B, G, P, O, C, L, A, Q, V>,
            (cache, location, local, steps, query, value),
            result,
        ),
    ensures
        ((old(cache).null_result() is None ==> null_may_run(steps)) && query.requires(
            (&analysis, location),
        ) && (state matches Some(state) ==> value.requires((&state, local)))) ==> call_requires(
            is_null_mirsa_pred::<N, I, S, B, G, P, O, C, L, A, Q, V>,
            (cache, location, local, steps, query, value),
        ),
        result == (state is Some && known == Some(NullPtr::Null)),
        final(cache).null_result() == Some(analysis),
        final(cache).internval_result() == old(cache).internval_result(),
        final(cache).null_flags() == old(cache).null_flags(),
        final(cache).products() == old(cache).products(),
{
}

/// A local is equal to a constant by the interval analysis, which runs if it has not, exactly
/// if the bounds that the state before the location has for it show that, and the constant is
/// one that is read exactly.
pub proof fn law_eq_const_predicate<
    N,
    I,
    B,
    G,
    P,
    O: FnOnce() -> B,
    C: FnOnce(&B) -> G,
    L: FnOnce(&B) -> P,
    A: FnOnce(&B, &G, &P, PathForwardAnalysisConfig) -> I,
    Q: FnOnce(&I, Location) -> Option<InternvalState>,
>(
    cache: &mut BodyInfoCache<N, I>,
    location: Location,
    local: Local,
    konst: Const,
    steps: AnalysisSteps<O, C, L, A>,
    query: Q,
    analysis: I,
    state: Option<InternvalState>,
    result: bool,
)
    requires
        konst.wf(),
        old(cache).internval_result() matches Some(kept) ==> kept == analysis,
        old(cache).internval_result() is None ==> internval_results_in(steps, analysis),
        answers(query, analysis, location, state),
        call_ensures(
            eq_const::<N, I, B, G, P, O, C, L, A, Q>,
            (cache, location, local, &konst, steps, query),
            result,
        ),
    ensures
        (old(cache).internval_result() is None ==> internval_may_run(steps)) && (const_value(
            konst,
        ) is None || query.requires((&analysis, location))) ==> call_requires(
            eq_const::<N, I, B, G, P, O, C, L, A, Q>,
            (cache, location, local, &konst, steps, query),
        ),
        result == (match (const_value(konst), state) {
            (Some(number), Some(state)) => {
                let low = state.internval@[local].low;
                let high = state.internval@[local].high;
                constant_fits(konst) && state.internval@.contains_key(local) && low == number && high
                    == number
            },
            _ => false,
        }),
        final(cache).internval_result() == Some(analysis),
        final(cache).null_result() == old(cache).null_result(),
        final(cache).null_flags() == old(cache).null_flags(),
        final(cache).products() == old(cache).products(),
{
    if let (Some(number), Some(state)) = (const_value(konst), state) {
        law_bounds_are_compared(state, local, number);
    }
}

/// A local is less than a constant by the interval analysis, which runs if it has not, exactly
/// if the bounds that the state before the location has for it show that.
pub proof fn law_lt_const_predicate<
    N,
    I,
    B,
    G,
    P,
    O: FnOnce() -> B,
    C: FnOnce(&B) -> G,
    L: FnOnce(&B) -> P,
    A: FnOnce(&B, &G, &P, PathForwardAnalysisConfig) -> I,
    Q: FnOnce(&I, Location) -> Option<InternvalState>,
>(
    cache: &mut BodyInfoCache<N, I>,
    location: Location,
    local: Local,
    konst: Const,
    steps: AnalysisSteps<O, C, L, A>,
    query: Q,
    analysis: I,
    state: Option<InternvalState>,
    result: bool,
)
    requires
        konst.wf(),
        old(cache).internval_result() matches Some(kept) ==> kept == analysis,
        old(cache).internval_result() is None ==> internval_results_in(steps, analysis),
        answers(query, analysis, location, state),
        call_ensures(
            lt_const::<N, I, B, G, P, O, C, L, A, Q>,
            (cache, location, local, &konst, steps, query),
            result,
        ),
    ensures
        (old(cache).internval_result() is None ==> internval_may_run(steps)) && (const_value(
            konst,
        ) is None || query.requires((&analysis, location))) ==> call_requires(
            lt_const::<N, I, B, G, P, O, C, L, A, Q>,
            (cache, location, local, &konst, steps, query),
        ),
        result == (match (const_value(konst), state) {
            (Some(number), Some(state)) => {
                let low = state.internval@[local].low;
                let high = state.internval@[local].high;
                state.internval@.contains_key(local) && low <= high && high < number
            },
            _ => false,
        }),
        final(cache).internval_result() == Some(analysis),
        final(cache).null_result() == old(cache).null_result(),
        final(cache).null_flags() == old(cache).null_flags(),
        final(cache).products() == old(cache).products(),
{
    if let (Some(number), Some(state)) = (const_value(konst), state) {
        law_bounds_are_compared(state, local, number);
    }
}

/// A local is greater than a constant by the interval analysis, which runs if it has not, exactly
/// if the bounds that the state before the location has for it show that.
pub proof fn law_gt_const_predicate<
    N,
    I,
    B,
    G,
    P,
    O: FnOnce() -> B,
    C: FnOnce(&B) -> G,
    L: FnOnce(&B) -> P,
    A: FnOnce(&B, &G, &P, PathForwardAnalysisConfig) -> I,
    Q: FnOnce(&I, Location) -> Option<InternvalState>,
>(
    cache: &mut BodyInfoCache<N, I>,
    location: Location,
    local: Local,
    konst: Const,
    steps: AnalysisSteps<O, C, L, A>,
    query: Q,
    analysis: I,
    state: Option<InternvalState>,
    result: bool,
)
    requires
        konst.wf(),
        old(cache).internval_result() matches Some(kept) ==> kept == analysis,
        old(cache).internval_result() is None ==> internval_results_in(steps, analysis),
        answers(query, analysis, location, state),
        call_ensures(
            gt_const::<N, I, B, G, P, O, C, L, A, Q>,
            (cache, location, local, &konst, steps, query),
            result,
        ),
    ensures
        (old(cache).internval_result() is None ==> internval_may_run(steps)) && (const_value(
            konst,
        ) is None || query.requires((&analysis, location))) ==> call_requires(
            gt_const::<N, I, B, G, P, O, C, L, A, Q>,
            (cache, location, local, &konst, steps, query),
        ),
        result == (match (const_value(konst), state) {
            (Some(number), Some(state)) => {
                let low = state.internval@[local].low;
                let high = state.internval@[local].high;
                state.internval@.contains_key(local) && low <= high && low > number
            },
            _ => false,
        }),
        final(cache).internval_result() == Some(analysis),
        final(cache).null_result() == old(cache).null_result(),
        final(cache).null_flags() == old(cache).null_flags(),
        final(cache).products() == old(cache).products(),
{
    if let (Some(number), Some(state)) = (const_value(konst), state) {
        law_bounds_are_compared(state, local, number);
    }
}

/// An index is in bounds by the interval analysis, which runs if it has not, exactly if the state
/// before the location shows that.
pub proof fn law_index_predicate<
    N,
    I,
    B,
    G,
    P,
    O: FnOnce() -> B,
    C: FnOnce(&B) -> G,
    L: FnOnce(&B) -> P,
    A: FnOnce(&B, &G, &P, PathForwardAnalysisConfig) -> I,
    Q: FnOnce(&I, Location) -> Option<InternvalState>,
>(
    body: Body,
    cache: &mut BodyInfoCache<N, I>,
    location: Location,
    arr_local: Local,
    idx_local: Local,
    steps: AnalysisSteps<O, C, L, A>,
    query: Q,
    analysis: I,
    state: Option<InternvalState>,
    result: bool,
    checked: bool,
)
    requires
        arr_local < body.local_decls.len(),
        old(cache).internval_result() matches Some(kept) ==> kept == analysis,
        old(cache).internval_result() is None ==> internval_results_in(steps, analysis),
        answers(query, analysis, location, state),
        call_ensures(
            index_in_bounds::<N, I, B, G, P, O, C, L, A, Q>,
            (&body, cache, location, arr_local, idx_local, steps, query),
            result,
        ),
        call_ensures(
            index_in_bounds_in_state,
            (&body, &state, arr_local, idx_local),
            checked,
        ),
    ensures
        ((old(cache).internval_result() is None ==> internval_may_run(steps)) && query.requires(
            (&analysis, location),
        )) ==> call_requires(
            index_in_bounds::<N, I, B, G, P, O, C, L, A, Q>,
            (&body, cache, location, arr_local, idx_local, steps, query),
        ),
        result == checked,
        final(cache).internval_result() == Some(analysis),
        final(cache).null_result() == old(cache).null_result(),
        final(cache).null_flags() == old(cache).null_flags(),
        final(cache).products() == old(cache).products(),
{
}

} // verus!
