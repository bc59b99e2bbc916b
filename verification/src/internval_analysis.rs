//! Comparisons of locals with constants and lengths, by an interval analysis.
use std::collections::HashMap;

use vstd::arithmetic::div_mod::{lemma_mod_bound, lemma_mod_breakdown, lemma_small_mod};
use vstd::arithmetic::power2::{
    lemma2_to64, lemma_pow2_pos, lemma_pow2_strictly_increases, lemma_pow2_unfold, pow2,
};
use vstd::bits::lemma_u128_shr_is_div;
use vstd::prelude::*;

use crate::forward::{AnalysisSteps, PathForwardAnalysisConfig};
use crate::mir::{Body, Const, ConstTy, Local, Location, Referent, Ty};

verus! {

/// The number that the lowest `bit_width` bits stand for, unsigned. What does not fit into an
/// `i128` becomes the largest `i128`.
pub open spec fn unsigned_value(bits: nat, bit_width: nat) -> int {
    let x = bits as int % pow2(bit_width) as int;
    if x <= i128::MAX {
        x
    } else {
        i128::MAX as int
    }
}

/// The number that the lowest `bit_width` bits stand for, in two's complement.
pub open spec fn signed_value(bits: nat, bit_width: nat) -> int {
    let x = bits as int % pow2(bit_width) as int;
    if 2 * x < pow2(bit_width) {
        x
    } else {
        x - pow2(bit_width)
    }
}

/// A shifted bit is a power of two.
pub(crate) proof fn lemma_shifted_bit(shift: u64)
    requires
        shift < 128,
    ensures
        1u128 << shift == pow2(shift as nat),
        pow2(shift as nat) >= 1,
    decreases shift,
{
    lemma_pow2_pos(shift as nat);
    if shift == 0 {
        assert(1u128 << 0u64 == 1u128) by (bit_vector);
        lemma2_to64();
    } else {
        let less = (shift - 1) as u64;
        lemma_shifted_bit(less);
        lemma_pow2_unfold(shift as nat);
        assert(1u128 << shift == 2 * (1u128 << less)) by (bit_vector)
            requires
                0 < shift < 128,
                less == shift - 1,
        ;
    }
}

/// Masking off all but the lowest bits takes a remainder.
pub(crate) proof fn lemma_mask(bits: u128, shift: u64)
    requires
        shift < 128,
    ensures
        (1u128 << shift) >= 1,
        bits & (((1u128 << shift) - 1) as u128) == bits as int % pow2(shift as nat) as int,
    decreases shift,
{
    lemma_shifted_bit(shift);
    let mask = ((1u128 << shift) - 1) as u128;
    if shift == 0 {
        assert(1u128 << 0u64 == 1u128) by (bit_vector);
        assert(bits & 0u128 == 0u128) by (bit_vector);
    } else {
        let less = (shift - 1) as u64;
        let half = 1u128 << less;
        let lower = (half - 1) as u128;
        lemma_shifted_bit(less);
        lemma_mask(bits, less);
        lemma_pow2_unfold(shift as nat);
        assert(bits & mask == (bits & lower) + (if (bits >> (less as u128)) % 2 == 1 {
            half
        } else {
            0
        })) by (bit_vector)
            requires
                0 < shift < 128,
                less == shift - 1,
                half == 1u128 << less,
                lower == half - 1,
                mask == (1u128 << shift) - 1,
        ;
        lemma_u128_shr_is_div(bits, less as u128);
        lemma_mod_breakdown(bits as int, half as int, 2);
        let bit = (bits as int / half as int) % 2;
        assert(half * bit == if bit == 1 { half as int } else { 0 }) by (nonlinear_arith)
            requires
                bit == 0 || bit == 1,
        ;
    }
}

/// The powers of two just above the largest `i128` and the largest `u128`.
pub(crate) proof fn lemma_widths()
    ensures
        pow2(127) == i128::MAX + 1,
        pow2(128) == u128::MAX + 1,
{
    lemma_shifted_bit(127);
    assert(1u128 << 127u64 == 0x8000_0000_0000_0000_0000_0000_0000_0000u128) by (bit_vector);
    lemma_pow2_unfold(128);
}

/// Reads the lowest `bit_width` bits as an unsigned number.
pub fn unsigned_bits_to_i128(bits: u128, bit_width: u64) -> (result: i128)
    requires
        bit_width <= 128,
    ensures
        result == unsigned_value(bits as nat, bit_width as nat),
{
    proof {
        lemma_widths();
    }
    if bit_width == 128 {
        if bits <= i128::MAX as u128 {
            bits as i128
        } else {
            i128::MAX
        }
    } else {
        proof {
            lemma_mask(bits, bit_width);
            lemma_pow2_pos(bit_width as nat);
            if bit_width < 127 {
                lemma_pow2_strictly_increases(bit_width as nat, 127);
            }
        }
        let mask = (1u128 << bit_width) - 1;
        (bits & mask) as i128
    }
}

/// Reads the lowest `bit_width` bits as a number in two's complement. A width of 127 will do only
/// for numbers that are not negative: two to its power, which is taken off a negative one, is no
/// `i128`.
pub fn signed_bits_to_i128(bits: u128, bit_width: u64) -> (result: i128)
    requires
        1 <= bit_width <= 128,
        bit_width == 127 ==> signed_value(bits as nat, 127) >= 0,
    ensures
        result == signed_value(bits as nat, bit_width as nat),
{
    proof {
        lemma_widths();
    }
    if bit_width == 128 {
        assert(bits <= 0x7fff_ffff_ffff_ffff_ffff_ffff_ffff_ffffu128 ==> bits as i128 == bits)
            by (bit_vector);
        assert(bits > 0x7fff_ffff_ffff_ffff_ffff_ffff_ffff_ffffu128 ==> bits as i128 == bits
            - 0x1_0000_0000_0000_0000_0000_0000_0000_0000) by (bit_vector);
        #[verifier::truncate]
        (bits as i128)
    } else {
        proof {
            lemma_shifted_bit((bit_width - 1) as u64);
            lemma_shifted_bit(bit_width);
            lemma_mask(bits, bit_width);
            lemma_pow2_unfold(bit_width as nat);
            lemma_mod_bound(bits as int, pow2(bit_width as nat) as int);
            if bit_width < 127 {
                lemma_pow2_strictly_increases(bit_width as nat, 127);
            }
        }
        let sign_bit = 1u128 << (bit_width - 1);
        let mask = (1u128 << bit_width) - 1;
        let x = bits & mask;
        if x >= sign_bit {
            (x as i128) - ((1u128 << bit_width) as i128)
        } else {
            x as i128
        }
    }
}

/// The number that a constant stands for, if it stands for one: the constant is no parameter, its
/// scalar is known, and its type is an integer type, `bool` or `char`.
pub open spec fn const_value(konst: Const) -> Option<int> {
    match konst {
        Const::Mir { ty, scalar: Some(scalar) } => {
            let bits = scalar.data as nat;
            match ty {
                ConstTy::Int => Some(signed_value(bits, (8 * scalar.size) as nat)),
                ConstTy::Uint => Some(unsigned_value(bits, (8 * scalar.size) as nat)),
                ConstTy::Bool => Some(unsigned_value(bits, 1)),
                ConstTy::Char => Some(unsigned_value(bits, 32)),
                ConstTy::Other => None,
            }
        },
        _ => None,
    }
}

/// Returns the number that a constant stands for, if it stands for one.
pub fn const_to_i128(konst: &Const) -> (result: Option<i128>)
    requires
        konst.wf(),
    ensures
        result is Some <==> const_value(*konst) is Some,
        result matches Some(value) ==> const_value(*konst) == Some(value as int),
{
    let (ty, scalar) = match konst {
        Const::Mir { ty, scalar: Some(scalar) } => (ty, scalar),
        _ => return None,
    };
    let (bit_width, signed): (u64, bool) = match ty {
        ConstTy::Int => (scalar.bits(), true),
        ConstTy::Uint => (scalar.bits(), false),
        ConstTy::Bool => (1, false),
        ConstTy::Char => (32, false),
        ConstTy::Other => return None,
    };
    let bits: u128 = scalar.data;
    Some(
        if signed {
            signed_bits_to_i128(bits, bit_width)
        } else {
            unsigned_bits_to_i128(bits, bit_width)
        },
    )
}

/// Whether the number that a constant stands for is the constant itself, and not the largest `i128`
/// in the place of a larger one.
pub open spec fn constant_fits(konst: Const) -> bool {
    match konst {
        Const::Mir { ty: ConstTy::Uint, scalar: Some(scalar) } => scalar.data as int % pow2(
            (8 * scalar.size) as nat,
        ) as int <= i128::MAX,
        _ => true,
    }
}

/// Returns whether the number that a constant stands for is the constant itself.
pub(crate) fn fits_i128(konst: &Const) -> (result: bool)
    requires
        konst.wf(),
    ensures
        result == constant_fits(*konst),
{
    match konst {
        Const::Mir { ty: ConstTy::Uint, scalar: Some(scalar) } => {
            proof {
                let width = (8 * scalar.size) as nat;
                lemma_widths();
                lemma_pow2_pos(width);
                if width < 128 {
                    lemma_pow2_strictly_increases(width, 127);
                    lemma_mod_bound(scalar.data as int, pow2(width) as int);
                } else {
                    lemma_small_mod(scalar.data as nat, pow2(width));
                }
            }
            scalar.bits() < 128 || scalar.data <= i128::MAX as u128
        },
        _ => true,
    }
}

/// The integers from `low` to `high`, both included. Where `low` is above `high` there are none.
#[derive(Clone, Copy, Debug, PartialEq, Eq, Structural)]
pub struct Internval {
    /// The lower bound.
    pub low: i128,
    /// The upper bound.
    pub high: i128,
}

impl Internval {
    /// Whether the interval holds `x`.
    pub open spec fn contains(self, x: int) -> bool {
        self.low <= x <= self.high
    }

    /// Whether the interval holds no integer.
    pub open spec fn empty(self) -> bool {
        self.low > self.high
    }

    /// Makes the interval with the given bounds.
    pub fn new(low: i128, high: i128) -> (result: Internval)
        ensures
            result == (Internval { low, high }),
    {
        Internval { low, high }
    }

    /// Returns whether the interval holds no integer.
    pub fn is_empty(&self) -> (result: bool)
        ensures
            result == self.empty(),
    {
        self.low > self.high
    }
}

/// What the interval analysis knows before a location of the locals as a whole.
#[derive(Debug)]
pub struct InternvalState {
    /// The interval of the value of a local.
    pub internval: HashMap<Local, Internval>,
    /// The interval of the length of the slice that a local is or refers to.
    pub slice_meta: HashMap<Local, Internval>,
}

/// The value that a map has for a local, if it has one.
pub open spec fn entry(map: Map<Local, Internval>, local: Local) -> Option<Internval> {
    if map.contains_key(local) {
        Some(map[local])
    } else {
        None
    }
}

/// The interval of a local in a state, if there is a state and it knows one.
pub open spec fn known_interval(state: Option<InternvalState>, local: Local) -> Option<Internval> {
    match state {
        Some(state) => entry(state.internval@, local),
        None => None,
    }
}

/// Looks up a local.
fn lookup(map: &HashMap<Local, Internval>, local: Local) -> (result: Option<Internval>)
    ensures
        result == entry(map@, local),
{
    broadcast use vstd::std_specs::hash::group_hash_axioms;

    match map.get(&local) {
        Some(interval) => Some(*interval),
        None => None,
    }
}

/// Returns the interval of a local in a state, if there is a state and it knows one.
fn interval_of(state: &Option<InternvalState>, local: Local) -> (result: Option<Internval>)
    ensures
        result == known_interval(*state, local),
{
    match state {
        Some(state) => lookup(&state.internval, local),
        None => None,
    }
}

/// Whether a state shows a local to be equal to a number: the interval of the local
/// holds the number and nothing else.
pub open spec fn shows_eq(state: Option<InternvalState>, local: Local, expected: int) -> bool {
    match known_interval(state, local) {
        Some(interval) => !interval.empty() && interval.low == expected && interval.high
            == expected,
        None => false,
    }
}

/// Whether a state shows a local to be less than a number: the interval of the local
/// is not empty and lies below the number.
pub open spec fn shows_lt(state: Option<InternvalState>, local: Local, expected: int) -> bool {
    match known_interval(state, local) {
        Some(interval) => !interval.empty() && interval.high < expected,
        None => false,
    }
}

/// Whether a state shows a local to be greater than a number: the interval of the local
/// is not empty and lies above the number.
pub open spec fn shows_gt(state: Option<InternvalState>, local: Local, expected: int) -> bool {
    match known_interval(state, local) {
        Some(interval) => !interval.empty() && interval.low > expected,
        None => false,
    }
}

/// Returns whether a state shows a local to be equal to a number.
pub fn eq_const_in_state(
    state: &Option<InternvalState>,
    local: Local,
    expected: i128,
) -> (result: bool)
    ensures
        result == shows_eq(*state, local, expected as int),
{
    match interval_of(state, local) {
        Some(interval) => !interval.is_empty() && interval.low == expected && interval.high
            == expected,
        None => false,
    }
}

/// Returns whether a state shows a local to be less than a number.
pub fn lt_const_in_state(
    state: &Option<InternvalState>,
    local: Local,
    expected: i128,
) -> (result: bool)
    ensures
        result == shows_lt(*state, local, expected as int),
{
    match interval_of(state, local) {
        Some(interval) => !interval.is_empty() && interval.high < expected,
        None => false,
    }
}

/// Returns whether a state shows a local to be greater than a number.
pub fn gt_const_in_state(
    state: &Option<InternvalState>,
    local: Local,
    expected: i128,
) -> (result: bool)
    ensures
        result == shows_gt(*state, local, expected as int),
{
    match interval_of(state, local) {
        Some(interval) => !interval.is_empty() && interval.low > expected,
        None => false,
    }
}

/// Returns whether the state that an analysis has before a location shows a local to be equal to
/// a constant. `query` finds that state; it is not asked where the constant stands for no number.
pub fn eq_const_mirsa<R, Q: FnOnce(&R, Location) -> Option<InternvalState>>(
    analysis: &R,
    location: Location,
    local: Local,
    konst: &Const,
    query: Q,
) -> (result: bool)
    requires
        konst.wf(),
        const_value(*konst) is Some ==> query.requires((analysis, location)),
    ensures
        const_value(*konst) is None ==> !result,
        const_value(*konst) matches Some(expected) ==> exists|state: Option<InternvalState>|
            #[trigger] query.ensures((analysis, location), state) && result == shows_eq(
                state,
                local,
                expected,
            ),
{
    match const_to_i128(konst) {
        Some(expected) => {
            let state = query(analysis, location);
            eq_const_in_state(&state, local, expected)
        },
        None => false,
    }
}

/// Returns whether the state that an analysis has before a location shows a local to be less than
/// a constant. `query` finds that state; it is not asked where the constant stands for no number.
pub fn lt_const_mirsa<R, Q: FnOnce(&R, Location) -> Option<InternvalState>>(
    analysis: &R,
    location: Location,
    local: Local,
    konst: &Const,
    query: Q,
) -> (result: bool)
    requires
        konst.wf(),
        const_value(*konst) is Some ==> query.requires((analysis, location)),
    ensures
        const_value(*konst) is None ==> !result,
        const_value(*konst) matches Some(expected) ==> exists|state: Option<InternvalState>|
            #[trigger] query.ensures((analysis, location), state) && result == shows_lt(
                state,
                local,
                expected,
            ),
{
    match const_to_i128(konst) {
        Some(expected) => {
            let state = query(analysis, location);
            lt_const_in_state(&state, local, expected)
        },
        None => false,
    }
}

/// Returns whether the state that an analysis has before a location shows a local to be greater
/// than a constant. `query` finds that state; it is not asked where the constant stands for no
/// number.
pub fn gt_const_mirsa<R, Q: FnOnce(&R, Location) -> Option<InternvalState>>(
    analysis: &R,
    location: Location,
    local: Local,
    konst: &Const,
    query: Q,
) -> (result: bool)
    requires
        konst.wf(),
        const_value(*konst) is Some ==> query.requires((analysis, location)),
    ensures
        const_value(*konst) is None ==> !result,
        const_value(*konst) matches Some(expected) ==> exists|state: Option<InternvalState>|
            #[trigger] query.ensures((analysis, location), state) && result == shows_gt(
                state,
                local,
                expected,
            ),
{
    match const_to_i128(konst) {
        Some(expected) => {
            let state = query(analysis, location);
            gt_const_in_state(&state, local, expected)
        },
        None => false,
    }
}

/// The interval of the length of what a local holds or refers to, if it is an array or a slice of
/// known length: exact for an array, and for a slice as the state has it.
pub open spec fn length_interval(ty: Ty, state: InternvalState, local: Local) -> Option<Internval> {
    match ty {
        Ty::Array(Some(len)) => Some(Internval { low: len as i128, high: len as i128 }),
        Ty::Ref(Referent::Array(Some(len))) => Some(
            Internval { low: len as i128, high: len as i128 },
        ),
        Ty::Slice => entry(state.slice_meta@, local),
        Ty::Ref(Referent::Slice) => entry(state.slice_meta@, local),
        _ => None,
    }
}

/// The least and the greatest length of what a local holds or refers to, if the interval of its
/// length is known and not empty.
pub open spec fn length_bounds(ty: Ty, state: InternvalState, local: Local) -> Option<
    (i128, i128),
> {
    match length_interval(ty, state, local) {
        Some(interval) => if interval.empty() {
            None
        } else {
            Some((interval.low, interval.high))
        },
        None => None,
    }
}

/// The interval of an array of known length.
fn array_len(len: &Option<u64>) -> (result: Option<Internval>)
    ensures
        result == (match *len {
            Some(len) => Some(Internval { low: len as i128, high: len as i128 }),
            None => None,
        }),
{
    match len {
        Some(len) => Some(Internval::new(*len as i128, *len as i128)),
        None => None,
    }
}

/// Returns the least and the greatest length of what a local holds or refers to, if they are known.
pub fn local_len(body: &Body, state: &InternvalState, local: Local) -> (result: Option<
    (i128, i128),
>)
    requires
        local < body.local_decls.len(),
    ensures
        result == length_bounds(body.local_decls[local as int], *state, local),
{
    let len_iv = match &body.local_decls[local] {
        Ty::Array(len) => array_len(len),
        Ty::Slice => lookup(&state.slice_meta, local),
        Ty::Ref(inner) => match inner {
            Referent::Array(len) => array_len(len),
            Referent::Slice => lookup(&state.slice_meta, local),
            Referent::Other => None,
        },
        Ty::Other => None,
    };
    match len_iv {
        Some(interval) => if interval.is_empty() {
            None
        } else {
            Some((interval.low, interval.high))
        },
        None => None,
    }
}

/// Whether a state knows an index to be some number that is not negative.
pub open spec fn index_is_known(state: Option<InternvalState>, idx_local: Local) -> bool {
    match known_interval(state, idx_local) {
        Some(interval) => !interval.empty() && interval.low >= 0,
        None => false,
    }
}

/// Whether a state shows an index to be in bounds: the index is known not to be negative, and its
/// greatest value is less than the least length.
pub open spec fn shows_in_bounds(
    body: Body,
    state: Option<InternvalState>,
    arr_local: Local,
    idx_local: Local,
) -> bool {
    &&& index_is_known(state, idx_local)
    &&& match length_bounds(body.local_decls[arr_local as int], state->0, arr_local) {
        Some((len_low, _)) => known_interval(state, idx_local)->0.high < len_low,
        None => false,
    }
}

/// Returns whether a state shows an index to be in bounds of an array or a slice.
pub fn index_in_bounds_in_state(
    body: &Body,
    state: &Option<InternvalState>,
    arr_local: Local,
    idx_local: Local,
) -> (result: bool)
    requires
        index_is_known(*state, idx_local) ==> arr_local < body.local_decls.len(),
    ensures
        result == shows_in_bounds(*body, *state, arr_local, idx_local),
{
    match state {
        Some(known) => match lookup(&known.internval, idx_local) {
            Some(idx_iv) => {
                if idx_iv.is_empty() || idx_iv.low < 0 {
                    return false;
                }
                match local_len(body, known, arr_local) {
                    Some((len_low, _)) => idx_iv.high < len_low,
                    None => false,
                }
            },
            None => false,
        },
        None => false,
    }
}

/// Returns whether the state that an analysis has before a location shows an index to be in bounds
/// of an array or a slice. `query` finds that state.
pub fn index_in_bounds_mirsa<R, Q: FnOnce(&R, Location) -> Option<InternvalState>>(
    body: &Body,
    analysis: &R,
    location: Location,
    arr_local: Local,
    idx_local: Local,
    query: Q,
) -> (result: bool)
    requires
        query.requires((analysis, location)),
        forall|state: Option<InternvalState>| #[trigger]
            query.ensures((analysis, location), state) && index_is_known(state, idx_local)
                ==> arr_local < body.local_decls.len(),
    ensures
        exists|state: Option<InternvalState>| #[trigger]
            query.ensures((analysis, location), state) && result == shows_in_bounds(
                *body,
                state,
                arr_local,
                idx_local,
            ),
{
    let state = query(analysis, location);
    index_in_bounds_in_state(body, &state, arr_local, idx_local)
}

/// The configuration of the interval analysis.
pub open spec fn internval_config() -> PathForwardAnalysisConfig {
    PathForwardAnalysisConfig { max_paths: 64, widen_after_iterations: Some(10) }
}

/// Whether the steps of the interval analysis can be taken on a body.
pub open spec fn can_analyze_internval<
    B,
    G,
    P,
    R,
    BuildCfg: FnOnce(&B) -> G,
    CollectPlaces: FnOnce(&B) -> P,
    Analyze: FnOnce(&B, &G, &P, PathForwardAnalysisConfig) -> R,
>(
    body: &B,
    build_cfg: BuildCfg,
    collect_body_places: CollectPlaces,
    analyze_internval: Analyze,
) -> bool {
    &&& build_cfg.requires((body,))
    &&& collect_body_places.requires((body,))
    &&& forall|cfg: G, places: P|
        build_cfg.ensures((body,), cfg) && collect_body_places.ensures((body,), places)
            ==> #[trigger] analyze_internval.requires((body, &cfg, &places, internval_config()))
}

/// Whether the interval analysis of a body can have a result: the analysis gets the control flow
/// graph and the places of the body and its configuration.
pub open spec fn analyzes_internval<
    B,
    G,
    P,
    R,
    BuildCfg: FnOnce(&B) -> G,
    CollectPlaces: FnOnce(&B) -> P,
    Analyze: FnOnce(&B, &G, &P, PathForwardAnalysisConfig) -> R,
>(
    body: &B,
    build_cfg: BuildCfg,
    collect_body_places: CollectPlaces,
    analyze_internval: Analyze,
    result: R,
) -> bool {
    exists|cfg: G, places: P|
        build_cfg.ensures((body,), cfg) && collect_body_places.ensures((body,), places)
            && #[trigger] analyze_internval.ensures(
            (body, &cfg, &places, internval_config()),
            result,
        )
}

/// Runs the interval analysis on a body, given the three steps of it: to build the control flow
/// graph, to collect the places, and to analyze the body with these two and a configuration.
pub fn analyze_internval_mirsa<
    B,
    G,
    P,
    R,
    BuildCfg: FnOnce(&B) -> G,
    CollectPlaces: FnOnce(&B) -> P,
    Analyze: FnOnce(&B, &G, &P, PathForwardAnalysisConfig) -> R,
>(
    body: &B,
    build_cfg: BuildCfg,
    collect_body_places: CollectPlaces,
    analyze_internval: Analyze,
) -> (result: R)
    requires
        can_analyze_internval(body, build_cfg, collect_body_places, analyze_internval),
    ensures
        analyzes_internval(body, build_cfg, collect_body_places, analyze_internval, result),
{
    let graph = build_cfg(body);
    let places = collect_body_places(body);
    analyze_internval(
        body,
        &graph,
        &places,
        PathForwardAnalysisConfig { max_paths: 64, widen_after_iterations: Some(10) },
    )
}

/// Whether the interval analysis of a body can run.
pub open spec fn internval_can_run<
    B,
    G,
    P,
    R,
    OptimizedMir: FnOnce() -> B,
    BuildCfg: FnOnce(&B) -> G,
    CollectPlaces: FnOnce(&B) -> P,
    Analyze: FnOnce(&B, &G, &P, PathForwardAnalysisConfig) -> R,
>(
    steps: AnalysisSteps<OptimizedMir, BuildCfg, CollectPlaces, Analyze>,
) -> bool {
    &&& steps.optimized_mir.requires(())
    &&& forall|body: B| #[trigger]
        steps.optimized_mir.ensures((), body) ==> can_analyze_internval(
            &body,
            steps.build_cfg,
            steps.collect_body_places,
            steps.analyze,
        )
}

/// Whether the interval analysis of a body can have a result: it is one of the optimized form of
/// the body.
pub open spec fn internval_can_yield<
    B,
    G,
    P,
    R,
    OptimizedMir: FnOnce() -> B,
    BuildCfg: FnOnce(&B) -> G,
    CollectPlaces: FnOnce(&B) -> P,
    Analyze: FnOnce(&B, &G, &P, PathForwardAnalysisConfig) -> R,
>(
    steps: AnalysisSteps<OptimizedMir, BuildCfg, CollectPlaces, Analyze>,
    result: R,
) -> bool {
    exists|body: B| #[trigger]
        steps.optimized_mir.ensures((), body) && analyzes_internval(
            &body,
            steps.build_cfg,
            steps.collect_body_places,
            steps.analyze,
            result,
        )
}

/// Runs the interval analysis on the optimized form of a body.
pub fn run_internval<
    B,
    G,
    P,
    R,
    OptimizedMir: FnOnce() -> B,
    BuildCfg: FnOnce(&B) -> G,
    CollectPlaces: FnOnce(&B) -> P,
    Analyze: FnOnce(&B, &G, &P, PathForwardAnalysisConfig) -> R,
>(
    steps: AnalysisSteps<OptimizedMir, BuildCfg, CollectPlaces, Analyze>,
) -> (result: R)
    requires
        internval_can_run(steps),
    ensures
        internval_can_yield(steps, result),
{
    let AnalysisSteps { optimized_mir, build_cfg, collect_body_places, analyze } = steps;
    let body = optimized_mir();
    analyze_internval_mirsa(&body, build_cfg, collect_body_places, analyze)
}

} // verus!
