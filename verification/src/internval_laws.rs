//! What the interval predicates mean: statements about every integer that an interval holds.
use vstd::arithmetic::div_mod::{
    lemma_mod_add_multiples_vanish, lemma_mod_bound, lemma_mod_sub_multiples_vanish,
    lemma_mod_twice, lemma_small_mod,
};
use vstd::arithmetic::power2::{
    lemma2_to64, lemma_pow2_pos, lemma_pow2_strictly_increases, lemma_pow2_unfold, pow2,
};
use vstd::prelude::*;

use crate::internval_analysis::{
    const_value, constant_fits, index_is_known, known_interval, lemma_widths, length_bounds,
    length_interval, shows_eq, shows_gt, shows_in_bounds, shows_lt, signed_value, unsigned_value,
    Internval, InternvalState,
};
use crate::mir::{Body, Const, ConstTy, Local, Referent, ScalarInt, Ty};
use crate::value_laws::lemma_remainder_of_difference;

verus! {

/// An interval is empty exactly if it holds no integer.
pub proof fn law_empty_holds_nothing(interval: Internval)
    ensures
        interval.empty() <==> forall|x: int| !interval.contains(x),
{
    if !interval.empty() {
        assert(interval.contains(interval.low as int));
    }
}

/// A state shows a local to be equal to a number exactly if it knows an interval of the local that
/// holds something, and everything that this interval holds is equal to the number.
pub proof fn law_shows_eq(state: Option<InternvalState>, local: Local, expected: int)
    ensures
        shows_eq(state, local, expected) <==> (known_interval(state, local) matches Some(interval)
            && interval.contains(expected) && forall|x: int|
            interval.contains(x) ==> x == expected),
{
    if let Some(interval) = known_interval(state, local) {
        if interval.contains(expected) && forall|x: int| interval.contains(x) ==> x == expected {
            assert(interval.contains(interval.low as int));
            assert(interval.contains(interval.high as int));
        }
    }
}

/// A state shows a local to be less than a number exactly if it knows an interval of the local that
/// holds something, and everything that this interval holds is less than the number.
pub proof fn law_shows_lt(state: Option<InternvalState>, local: Local, expected: int)
    ensures
        shows_lt(state, local, expected) <==> (known_interval(state, local) matches Some(interval)
            && !interval.empty() && forall|x: int| interval.contains(x) ==> x < expected),
{
    if let Some(interval) = known_interval(state, local) {
        if !interval.empty() {
            assert(interval.contains(interval.high as int));
        }
    }
}

/// A state shows a local to be greater than a number exactly if it knows an interval of the local
/// that holds something, and everything that this interval holds is greater than the number.
pub proof fn law_shows_gt(state: Option<InternvalState>, local: Local, expected: int)
    ensures
        shows_gt(state, local, expected) <==> (known_interval(state, local) matches Some(interval)
            && !interval.empty() && forall|x: int| interval.contains(x) ==> x > expected),
{
    if let Some(interval) = known_interval(state, local) {
        if !interval.empty() {
            assert(interval.contains(interval.low as int));
        }
    }
}

/// A state shows at most one of a local being equal to a number, less than it, and greater than it.
pub proof fn law_comparisons_exclude_each_other(
    state: Option<InternvalState>,
    local: Local,
    expected: int,
)
    ensures
        !(shows_eq(state, local, expected) && shows_lt(state, local, expected)),
        !(shows_eq(state, local, expected) && shows_gt(state, local, expected)),
        !(shows_lt(state, local, expected) && shows_gt(state, local, expected)),
{
}

/// A state that shows an index to be in bounds knows intervals of the index and of the length that
/// hold something, and every index that the one holds is in bounds of every length that the other
/// holds. The converse holds as well.
pub proof fn law_shows_in_bounds(
    body: Body,
    state: Option<InternvalState>,
    arr_local: Local,
    idx_local: Local,
)
    ensures
        shows_in_bounds(body, state, arr_local, idx_local) <==> {
            &&& known_interval(state, idx_local) matches Some(idx)
            &&& length_interval(
                body.local_decls[arr_local as int],
                state->0,
                arr_local,
            ) matches Some(len)
            &&& !idx.empty()
            &&& !len.empty()
            &&& forall|x: int, y: int| #![trigger idx.contains(x), len.contains(y)]
                idx.contains(x) && len.contains(y) ==> 0 <= x < y
        },
{
    if let Some(idx) = known_interval(state, idx_local) {
        if let Some(len) = length_interval(
            body.local_decls[arr_local as int],
            state->0,
            arr_local,
        ) {
            if !idx.empty() && !len.empty() {
                assert(idx.contains(idx.low as int));
                assert(idx.contains(idx.high as int));
                assert(len.contains(len.low as int));
            }
        }
    }
}

/// For an array of known length, or a reference to one, an index is shown to be in bounds exactly
/// if the state knows an interval of it that holds something and only indices of the array.
pub proof fn law_array_index_in_bounds(
    body: Body,
    state: Option<InternvalState>,
    arr_local: Local,
    idx_local: Local,
    len: u64,
)
    requires
        body.local_decls[arr_local as int] == Ty::Array(Some(len))
            || body.local_decls[arr_local as int] == Ty::Ref(Referent::Array(Some(len))),
    ensures
        shows_in_bounds(body, state, arr_local, idx_local) <==> (known_interval(
            state,
            idx_local,
        ) matches Some(idx) && !idx.empty() && forall|x: int| idx.contains(x) ==> 0 <= x < len),
{
    if let Some(idx) = known_interval(state, idx_local) {
        if !idx.empty() {
            assert(idx.contains(idx.low as int));
            assert(idx.contains(idx.high as int));
        }
    }
}

/// Without a state nothing is shown.
pub proof fn law_nothing_is_shown_without_a_state(
    body: Body,
    local: Local,
    arr_local: Local,
    expected: int,
)
    ensures
        !shows_eq(None, local, expected),
        !shows_lt(None, local, expected),
        !shows_gt(None, local, expected),
        !shows_in_bounds(body, None, arr_local, local),
{
}

/// Bits that fit into the width, and into an `i128`, stand for themselves when read as unsigned.
pub proof fn law_unsigned_value_of_small_bits(bits: nat, bit_width: nat)
    requires
        bits < pow2(bit_width),
        bits <= i128::MAX,
    ensures
        unsigned_value(bits, bit_width) == bits,
{
    lemma_small_mod(bits, pow2(bit_width));
}

/// An unsigned reading is never negative, and less than two to the width.
pub proof fn law_unsigned_value_is_in_range(bits: nat, bit_width: nat)
    ensures
        0 <= unsigned_value(bits, bit_width) < pow2(bit_width),
{
    lemma_pow2_pos(bit_width);
    lemma_mod_bound(bits as int, pow2(bit_width) as int);
}

/// A signed reading lies in the range of two's complement numbers of its width.
pub proof fn law_signed_value_is_in_range(bits: nat, bit_width: nat)
    requires
        bit_width >= 1,
    ensures
        -(pow2((bit_width - 1) as nat) as int) <= signed_value(bits, bit_width) < pow2(
            (bit_width - 1) as nat,
        ),
{
    lemma_pow2_pos(bit_width);
    lemma_pow2_unfold(bit_width);
    lemma_mod_bound(bits as int, pow2(bit_width) as int);
}

/// Reading the bits of a number gives the number back: the bits of `value` are its remainder by two
/// to the width.
pub proof fn law_signed_value_of_encoded_number(value: int, bit_width: nat)
    requires
        bit_width >= 1,
        -(pow2((bit_width - 1) as nat) as int) <= value < pow2((bit_width - 1) as nat),
    ensures
        signed_value((value % pow2(bit_width) as int) as nat, bit_width) == value,
{
    let m = pow2(bit_width) as int;
    lemma_pow2_pos(bit_width);
    lemma_pow2_unfold(bit_width);
    lemma_mod_bound(value, m);
    lemma_small_mod((value % m) as nat, m as nat);
    if value >= 0 {
        lemma_small_mod(value as nat, m as nat);
    } else {
        lemma_mod_add_multiples_vanish(value, m);
        lemma_small_mod((value + m) as nat, m as nat);
    }
}

/// Where the sign bit is clear, the signed and the unsigned reading agree.
pub proof fn law_readings_agree_without_sign_bit(bits: nat, bit_width: nat)
    requires
        1 <= bit_width <= 128,
        (bits as int % pow2(bit_width) as int) < pow2((bit_width - 1) as nat),
    ensures
        signed_value(bits, bit_width) == unsigned_value(bits, bit_width),
{
    lemma_widths();
    lemma_pow2_unfold(bit_width);
    if bit_width < 128 {
        lemma_pow2_strictly_increases((bit_width - 1) as nat, 127);
    }
}

/// The number that a constant stands for, whatever its size. Where this is not an `i128`, reading
/// the constant gives the largest `i128`.
pub open spec fn exact_value(konst: Const) -> Option<int> {
    match konst {
        Const::Mir { ty, scalar: Some(scalar) } => {
            let width = (8 * scalar.size) as nat;
            let data = scalar.data as int;
            let x = data % pow2(width) as int;
            match ty {
                ConstTy::Uint => Some(x),
                ConstTy::Int => if 2 * x < pow2(width) {
                    Some(x)
                } else {
                    Some(x - pow2(width))
                },
                ConstTy::Bool => Some(data % 2),
                ConstTy::Char => Some(data % 0x1_0000_0000),
                ConstTy::Other => None,
            }
        },
        _ => None,
    }
}

/// A constant is read as what it is exactly if it fits.
pub proof fn law_fitting_constant_is_exact(konst: Const)
    ensures
        constant_fits(konst) <==> const_value(konst) == exact_value(konst),
{
    lemma2_to64();
}

/// Where a local is shown to be equal to a constant that fits, everything that its interval holds
/// is equal to the constant.
pub proof fn law_equal_to_a_fitting_constant(
    state: Option<InternvalState>,
    local: Local,
    konst: Const,
    x: int,
)
    requires
        constant_fits(konst),
        const_value(konst) is Some,
        shows_eq(state, local, const_value(konst)->0),
        known_interval(state, local)->0.contains(x),
    ensures
        exact_value(konst) == Some(x),
{
    law_fitting_constant_is_exact(konst);
    law_shows_eq(state, local, const_value(konst)->0);
}

/// A `bool` constant with a known scalar stands for zero or one.
pub proof fn law_bool_constant(scalar: ScalarInt)
    ensures
        const_value(Const::Mir { ty: ConstTy::Bool, scalar: Some(scalar) }) == Some(
            (scalar.data % 2) as int,
        ),
{
    lemma2_to64();
}

/// Whether an integer is between the bounds of an interval.
pub open spec fn between(interval: Internval, x: int) -> bool {
    interval.low <= x <= interval.high
}

/// An interval holds what is between its bounds, and is empty exactly if the lower bound is above the
/// upper one.
pub proof fn law_bounds_of_an_interval(low: i128, high: i128, x: int)
    ensures
        (Internval { low, high }).contains(x) <==> low <= x <= high,
        (Internval { low, high }).empty() <==> low > high,
{
}

/// A comparison looks at the bounds that the state has for the local: the local is equal to a number if
/// both are, less if the upper one is and greater if the lower one is. Nothing is shown by bounds
/// between which there is nothing, nor where the state has none for the local.
pub proof fn law_bounds_are_compared(state: InternvalState, local: Local, expected: int)
    ensures
        !state.internval@.contains_key(local) ==> {
            &&& !shows_eq(Some(state), local, expected)
            &&& !shows_lt(Some(state), local, expected)
            &&& !shows_gt(Some(state), local, expected)
        },
        state.internval@.contains_key(local) ==> {
            let low = state.internval@[local].low;
            let high = state.internval@[local].high;
            &&& shows_eq(Some(state), local, expected) <==> low == expected && high == expected
            &&& shows_lt(Some(state), local, expected) <==> low <= high && high < expected
            &&& shows_gt(Some(state), local, expected) <==> low <= high && low > expected
        },
{
}

/// For a slice, or a reference to one, an index is shown to be in bounds exactly if the state has
/// bounds for the index and for the length of the slice with something between them, and every number
/// between those of the index is an index of every slice whose length is between those of the length.
pub proof fn law_slice_index_in_bounds(
    body: Body,
    state: InternvalState,
    arr_local: Local,
    idx_local: Local,
)
    requires
        body.local_decls[arr_local as int] == Ty::Slice || body.local_decls[arr_local as int]
            == Ty::Ref(Referent::Slice),
    ensures
        shows_in_bounds(body, Some(state), arr_local, idx_local) <==> {
            let idx = state.internval@[idx_local];
            let len = state.slice_meta@[arr_local];
            &&& state.internval@.contains_key(idx_local)
            &&& state.slice_meta@.contains_key(arr_local)
            &&& idx.low <= idx.high
            &&& len.low <= len.high
            &&& forall|x: int, y: int| #[trigger]
                between(idx, x) && #[trigger] between(len, y) ==> 0 <= x < y
        },
{
    let idx = state.internval@[idx_local];
    let len = state.slice_meta@[arr_local];
    if idx.low <= idx.high && len.low <= len.high {
        assert(between(idx, idx.low as int));
        assert(between(idx, idx.high as int));
        assert(between(len, len.low as int));
    }
}

/// For an array of known length, or a reference to one, an index is shown to be in bounds exactly if
/// the state has bounds for it with something between them, and only indices of the array.
pub proof fn law_array_bounds_are_compared(
    body: Body,
    state: InternvalState,
    arr_local: Local,
    idx_local: Local,
    len: u64,
)
    requires
        body.local_decls[arr_local as int] == Ty::Array(Some(len))
            || body.local_decls[arr_local as int] == Ty::Ref(Referent::Array(Some(len))),
    ensures
        shows_in_bounds(body, Some(state), arr_local, idx_local) <==> {
            let idx = state.internval@[idx_local];
            &&& state.internval@.contains_key(idx_local)
            &&& idx.low <= idx.high
            &&& forall|x: int| #[trigger] between(idx, x) ==> 0 <= x < len
        },
{
    let idx = state.internval@[idx_local];
    if idx.low <= idx.high {
        assert(between(idx, idx.low as int));
        assert(between(idx, idx.high as int));
    }
}

/// No index is shown to be in bounds of anything else: of an array of unknown length, of a reference to
/// one or to anything but an array or a slice, and of a local of another type.
pub proof fn law_nothing_else_has_bounds(
    body: Body,
    state: Option<InternvalState>,
    arr_local: Local,
    idx_local: Local,
)
    requires
        body.local_decls[arr_local as int] == Ty::Array(None) || body.local_decls[arr_local as int]
            == Ty::Ref(Referent::Array(None)) || body.local_decls[arr_local as int] == Ty::Ref(
            Referent::Other,
        ) || body.local_decls[arr_local as int] == Ty::Other,
    ensures
        !shows_in_bounds(body, state, arr_local, idx_local),
{
}

/// An index is known exactly if the state has bounds for it with something between them, and nothing
/// below zero.
pub proof fn law_known_index(state: InternvalState, idx_local: Local)
    ensures
        !index_is_known(None, idx_local),
        index_is_known(Some(state), idx_local) <==> state.internval@.contains_key(idx_local) && 0
            <= state.internval@[idx_local].low <= state.internval@[idx_local].high,
{
}

/// The bounds of the length of an array are its length, and those of a slice what the state has for
/// it, if there is something between them. There are none for anything else.
pub proof fn law_bounds_of_a_length(state: InternvalState, local: Local, len: u64)
    ensures
        ({
            let array = Some((len as i128, len as i128));
            let low = state.slice_meta@[local].low;
            let high = state.slice_meta@[local].high;
            let slice = if state.slice_meta@.contains_key(local) && low <= high {
                Some((low, high))
            } else {
                None
            };
            &&& length_bounds(Ty::Array(Some(len)), state, local) == array
            &&& length_bounds(Ty::Ref(Referent::Array(Some(len))), state, local) == array
            &&& length_bounds(Ty::Slice, state, local) == slice
            &&& length_bounds(Ty::Ref(Referent::Slice), state, local) == slice
            &&& length_bounds(Ty::Array(None), state, local) is None
            &&& length_bounds(Ty::Ref(Referent::Array(None)), state, local) is None
            &&& length_bounds(Ty::Ref(Referent::Other), state, local) is None
            &&& length_bounds(Ty::Other, state, local) is None
        }),
{
}

/// An unsigned reading is the remainder by two to the width, but no more than the largest `i128`.
pub proof fn law_unsigned_value_is_a_remainder(bits: nat, bit_width: nat)
    ensures
        ({
            let x = bits as int % pow2(bit_width) as int;
            &&& x <= i128::MAX ==> unsigned_value(bits, bit_width) == x
            &&& x > i128::MAX ==> unsigned_value(bits, bit_width) == i128::MAX
        }),
{
}

/// A signed reading has the bits that were read: it differs from them by a multiple of two to the
/// width. With its range this makes it the only number that it can be.
pub proof fn law_signed_value_has_its_bits(bits: nat, bit_width: nat)
    requires
        bit_width >= 1,
    ensures
        (signed_value(bits, bit_width) - bits) % pow2(bit_width) as int == 0,
        -(pow2((bit_width - 1) as nat) as int) <= signed_value(bits, bit_width) < pow2(
            (bit_width - 1) as nat,
        ),
{
    let m = pow2(bit_width) as int;
    let x = bits as int % m;
    law_signed_value_is_in_range(bits, bit_width);
    lemma_pow2_pos(bit_width);
    lemma_mod_bound(bits as int, m);
    lemma_mod_twice(bits as int, m);
    lemma_mod_sub_multiples_vanish(x, m);
    lemma_remainder_of_difference(signed_value(bits, bit_width), bits as int, m);
}

/// A constant of a signed type stands for the number whose bits it has, at every size.
pub proof fn law_signed_constant(value: int, size: u8)
    requires
        1 <= size <= 16,
        -(pow2((8 * size - 1) as nat) as int) <= value < pow2((8 * size - 1) as nat),
    ensures
        const_value(
            Const::Mir {
                ty: ConstTy::Int,
                scalar: Some(
                    ScalarInt { data: (value % pow2((8 * size) as nat) as int) as u128, size },
                ),
            },
        ) == Some(value),
{
    let width = (8 * size) as nat;
    let m = pow2(width) as int;
    lemma_widths();
    lemma_pow2_pos(width);
    lemma_mod_bound(value, m);
    if size < 16 {
        lemma_pow2_strictly_increases(width, 128);
    }
    law_signed_value_of_encoded_number(value, width);
}

/// A constant of a signed type stands for the one number in the range of the type that differs from
/// its bits by a multiple of two to its width, whatever the bits.
pub proof fn law_signed_constant_has_its_bits(scalar: ScalarInt)
    requires
        1 <= scalar.size <= 16,
    ensures
        ({
            let half = pow2((8 * scalar.size - 1) as nat) as int;
            &&& const_value(Const::Mir { ty: ConstTy::Int, scalar: Some(scalar) }) matches Some(value)
            &&& -half <= value < half
            &&& (value - scalar.data) % pow2((8 * scalar.size) as nat) as int == 0
        }),
{
    law_signed_value_has_its_bits(scalar.data as nat, (8 * scalar.size) as nat);
}

/// A constant of an unsigned type stands for its bits, at every size, but for no more than the largest
/// `i128`.
pub proof fn law_unsigned_constant(scalar: ScalarInt)
    requires
        1 <= scalar.size <= 16,
        scalar.data < pow2((8 * scalar.size) as nat),
    ensures
        ({
            let konst = Const::Mir { ty: ConstTy::Uint, scalar: Some(scalar) };
            &&& scalar.data <= i128::MAX ==> const_value(konst) == Some(scalar.data as int)
            &&& scalar.data > i128::MAX ==> const_value(konst) == Some(i128::MAX as int)
            &&& constant_fits(konst) <==> scalar.data <= i128::MAX
        }),
{
    lemma_small_mod(scalar.data as nat, pow2((8 * scalar.size) as nat));
}

/// A constant of an unsigned type is read by its lowest bits only.
pub proof fn law_unsigned_constant_is_a_remainder(scalar: ScalarInt)
    requires
        1 <= scalar.size <= 16,
    ensures
        ({
            let konst = Const::Mir { ty: ConstTy::Uint, scalar: Some(scalar) };
            let x = scalar.data as int % pow2((8 * scalar.size) as nat) as int;
            &&& x <= i128::MAX ==> const_value(konst) == Some(x)
            &&& x > i128::MAX ==> const_value(konst) == Some(i128::MAX as int)
            &&& constant_fits(konst) <==> x <= i128::MAX
        }),
{
}

/// A `char` constant stands for its data.
pub proof fn law_char_constant(scalar: ScalarInt)
    ensures
        ({
            let konst = Const::Mir { ty: ConstTy::Char, scalar: Some(scalar) };
            &&& const_value(konst) == Some(scalar.data as int % 0x1_0000_0000)
            &&& scalar.data < 0x1_0000_0000 ==> const_value(konst) == Some(scalar.data as int)
        }),
{
    lemma2_to64();
}

/// No number stands behind a constant parameter, a constant that was not evaluated, or one of any
/// other type. Every constant fits that is not unsigned.
pub proof fn law_other_constants(ty: ConstTy, scalar: Option<ScalarInt>)
    ensures
        const_value(Const::Param) is None,
        const_value(Const::Mir { ty, scalar: None }) is None,
        const_value(Const::Mir { ty: ConstTy::Other, scalar }) is None,
        constant_fits(Const::Param),
        constant_fits(Const::Mir { ty, scalar: None }),
        ty != ConstTy::Uint ==> constant_fits(Const::Mir { ty, scalar }),
{
}

} // verus!
