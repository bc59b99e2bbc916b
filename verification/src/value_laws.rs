//! What the casts of a known value mean.
use vstd::arithmetic::div_mod::{
    lemma_fundamental_div_mod, lemma_mod_add_multiples_vanish, lemma_mod_bound,
    lemma_mod_multiples_basic, lemma_mod_multiples_vanish, lemma_mod_twice, lemma_small_mod,
};
use vstd::arithmetic::power2::{
    lemma_pow2_pos, lemma_pow2_strictly_increases, lemma_pow2_unfold, pow2,
};
use vstd::prelude::*;

use crate::internval_analysis::lemma_widths;
use crate::mir::{CastKind, FloatCast, Scalar, ScalarInt};
use crate::value::{
    cast_int, casts_floats, gives_casts, int_value, lemma_low_bytes, low_bytes, scalar_is_null,
    scalar_value, FloatCasts, Value,
};

verus! {

/// What is known of the value of a constant says whether the constant is null.
pub proof fn law_value_of_a_constant(scalar: Option<Scalar>)
    ensures
        scalar_is_null(scalar) == (match scalar_value(scalar) {
            Some(value) => Some(value.is_zero()),
            None => None,
        }),
{
}

/// An integer that is cast to an integer becomes zero exactly if those of its bytes are zero that
/// are left.
pub proof fn law_cast_integer_is_zero(scalar: ScalarInt, signed: bool, size: u8)
    requires
        scalar.wf(),
        1 <= size <= 16,
    ensures
        cast_int(scalar, signed, size).data == 0 <==> low_bytes(
            scalar.data as int,
            if size <= scalar.size {
                size
            } else {
                scalar.size
            },
        ) == 0,
{
    let x = low_bytes(scalar.data as int, scalar.size);
    lemma_widths();
    lemma_low_bytes(int_value(scalar, signed), size, 16);
    if size < 16 {
        lemma_pow2_strictly_increases((8 * size) as nat, 128);
    }
    lemma_low_bytes(scalar.data as int, scalar.size, scalar.size);
    if size <= scalar.size {
        lemma_low_bytes(scalar.data as int, size, scalar.size);
        lemma_low_bytes(x, size, scalar.size);
    } else {
        // The lowest bytes of the result are those of the integer.
        lemma_low_bytes(int_value(scalar, signed), scalar.size, size);
        lemma_low_bytes(x, scalar.size, scalar.size);
        lemma_pow2_strictly_increases((8 * scalar.size) as nat, (8 * size) as nat);
        lemma_small_mod(0, pow2((8 * size) as nat));
        lemma_small_mod(0, pow2((8 * scalar.size) as nat));
        lemma_pow2_pos((8 * scalar.size - 1) as nat);
    }
}

/// A cast of an integer to an integer that is no smaller keeps whether it is zero.
pub proof fn law_wide_cast_keeps_null(
    value: Value,
    signed: bool,
    size: u8,
    casts: FloatCasts,
)
    requires
        value.wf(),
        match value {
            Value::Int(scalar) => scalar.size <= size && scalar.data < pow2(
                (8 * scalar.size) as nat,
            ),
            Value::Ptr { low: _, size: from } => from <= size,
        },
        size <= 16,
    ensures
        value.after_cast(CastKind::IntToInt { signed, size }, casts) matches Some(known)
            && known.is_zero() == value.is_zero(),
{
    if let Value::Int(scalar) = value {
        law_cast_integer_is_zero(scalar, signed, size);
        lemma_small_mod(scalar.data as nat, pow2((8 * scalar.size) as nat));
    }
}

/// Whether what is known of a value is right of a scalar.
pub open spec fn is_right(value: Value, actual: ScalarInt) -> bool {
    match value {
        Value::Int(scalar) => actual == scalar,
        Value::Ptr { low, size } => actual.size == size && low_bytes(actual.data as int, low)
            != 0,
    }
}

/// A value that is known is zero exactly if the scalar that it is right of is.
pub proof fn law_right_value_is_zero(value: Value, actual: ScalarInt)
    requires
        is_right(value, actual),
    ensures
        value.is_zero() <==> actual.data == 0,
{
    if let Value::Ptr { low, size: _ } = value {
        lemma_pow2_pos((8 * low) as nat);
        lemma_small_mod(0, pow2((8 * low) as nat));
    }
}

/// Whether a cast can make a scalar into another. An integer is cast to the lowest bytes of the
/// number that it stands for. From and to floating-point numbers a cast gives the bits that
/// `casts` has.
pub open spec fn cast_result(
    kind: CastKind,
    casts: FloatCasts,
    before: ScalarInt,
    after: ScalarInt,
) -> bool {
    match kind {
        CastKind::Keep => after == before,
        CastKind::IntToInt { signed, size } => after == cast_int(before, signed, size),
        CastKind::Float(cast) => casts(before, cast) matches Some(data) ==> after == (
        ScalarInt { data, size: cast.result_size() }),
    }
}

/// A value that is known once it has been cast is right of whatever the cast makes of it.
pub proof fn law_cast_is_right(
    value: Value,
    kind: CastKind,
    casts: FloatCasts,
    before: ScalarInt,
    after: ScalarInt,
)
    requires
        value.wf(),
        kind.wf(),
        is_right(value, before),
        cast_result(kind, casts, before, after),
    ensures
        value.after_cast(kind, casts) matches Some(known) ==> is_right(known, after) && known.wf(),
{
    if let CastKind::IntToInt { signed, size } = kind {
        if let Value::Ptr { low, size: from } = value {
            if low <= size {
                let x = low_bytes(before.data as int, from);
                lemma_widths();
                lemma_low_bytes(int_value(before, signed), size, 16);
                if size < 16 {
                    lemma_pow2_strictly_increases((8 * size) as nat, 128);
                }
                lemma_low_bytes(int_value(before, signed), low, size);
                lemma_low_bytes(before.data as int, low, from);
                lemma_low_bytes(x, low, from);
            }
        }
    }
}

/// A constant that is an integer has its bits for its value, and one that is a pointer the address of
/// an allocation. Nothing is known of any other constant. An integer is zero exactly if none of its
/// bits is set, and an address never is.
pub proof fn law_values(data: u128, size: u8, low: u8)
    ensures
        ({
            let scalar = ScalarInt { data, size };
            &&& scalar_value(Some(Scalar::Int(scalar))) == Some(Value::Int(scalar))
            &&& scalar_value(Some(Scalar::Ptr(size))) == Some(Value::Ptr { low: size, size })
            &&& scalar_value(None) is None
            &&& scalar_is_null(Some(Scalar::Int(scalar))) == Some(data == 0)
            &&& scalar_is_null(Some(Scalar::Ptr(size))) == Some(false)
            &&& scalar_is_null(None) is None
            &&& Value::Int(scalar).is_zero() <==> data == 0
            &&& !(Value::Ptr { low, size }).is_zero()
            &&& Value::Int(scalar).wf() <==> 1 <= size <= 16
            &&& (Value::Ptr { low, size }).wf() <==> 1 <= low <= size <= 16
        }),
{
}

/// A cast to an integer gives the bits of the number that was cast: if `number` is in the range of
/// the integer that is cast, signed or not, and has its bits, then the result has the bits of
/// `number`, as many as it has room for.
pub proof fn law_cast_keeps_the_number(scalar: ScalarInt, signed: bool, size: u8, number: int)
    requires
        1 <= scalar.size <= 16,
        1 <= size <= 16,
        (number - scalar.data) % pow2((8 * scalar.size) as nat) as int == 0,
        signed ==> -(pow2((8 * scalar.size - 1) as nat) as int) <= number < pow2(
            (8 * scalar.size - 1) as nat,
        ),
        !signed ==> 0 <= number < pow2((8 * scalar.size) as nat),
    ensures
        ({
            let result = cast_int(scalar, signed, size);
            &&& result.size == size
            &&& result.data < pow2((8 * size) as nat)
            &&& (result.data - number) % pow2((8 * size) as nat) as int == 0
        }),
{
    let width = (8 * scalar.size) as nat;
    let from = pow2(width) as int;
    let to = pow2((8 * size) as nat) as int;
    let x = scalar.data as int % from;
    lemma_widths();
    lemma_pow2_pos(width);
    lemma_pow2_unfold(width);
    lemma_pow2_pos((8 * size) as nat);
    lemma_mod_bound(scalar.data as int, from);
    lemma_same_remainder(number, scalar.data as int, from);
    if number >= 0 {
        lemma_small_mod(number as nat, from as nat);
    } else {
        lemma_mod_add_multiples_vanish(number, from);
        lemma_small_mod((number + from) as nat, from as nat);
    }
    assert(int_value(scalar, signed) == number);
    if size < 16 {
        lemma_pow2_strictly_increases((8 * size) as nat, 128);
    }
    lemma_mod_bound(number, to);
    lemma_mod_twice(number, to);
    lemma_remainder_of_difference(number % to, number, to);
}

/// Numbers whose difference is divisible leave the same remainder.
proof fn lemma_same_remainder(x: int, y: int, m: int)
    requires
        m > 0,
        (x - y) % m == 0,
    ensures
        x % m == y % m,
{
    lemma_fundamental_div_mod(x - y, m);
    lemma_mod_multiples_vanish((x - y) / m, y, m);
}

/// The difference of numbers that leave the same remainder is divisible.
pub(crate) proof fn lemma_remainder_of_difference(x: int, y: int, m: int)
    requires
        m > 0,
        x % m == y % m,
    ensures
        (x - y) % m == 0,
{
    lemma_fundamental_div_mod(x, m);
    lemma_fundamental_div_mod(y, m);
    assert(x - y == (x / m - y / m) * m) by (nonlinear_arith)
        requires
            x == m * (x / m) + x % m,
            y == m * (y / m) + y % m,
            x % m == y % m,
    ;
    lemma_mod_multiples_basic(x / m - y / m, m);
}

/// What a cast makes of a value, cast by cast: one that keeps the bits keeps the value. A cast of an
/// integer to an integer is known. An address stays one where the result has room for it, and is
/// unknown otherwise. A cast from or to a floating-point number is what `casts` has for it.
pub proof fn law_casts_of_values(
    value: Value,
    scalar: ScalarInt,
    low: u8,
    from: u8,
    signed: bool,
    size: u8,
    cast: FloatCast,
    casts: FloatCasts,
)
    ensures
        value.after_cast(CastKind::Keep, casts) == Some(value),
        Value::Int(scalar).after_cast(CastKind::IntToInt { signed, size }, casts) == Some(
            Value::Int(cast_int(scalar, signed, size)),
        ),
        low <= size ==> (Value::Ptr { low, size: from }).after_cast(
            CastKind::IntToInt { signed, size },
            casts,
        ) == Some(Value::Ptr { low, size }),
        low > size ==> (Value::Ptr { low, size: from }).after_cast(
            CastKind::IntToInt { signed, size },
            casts,
        ) is None,
        (Value::Ptr { low, size: from }).after_cast(CastKind::Float(cast), casts) is None,
        casts(scalar, cast) is None ==> Value::Int(scalar).after_cast(
            CastKind::Float(cast),
            casts,
        ) is None,
        casts(scalar, cast) matches Some(data) ==> Value::Int(scalar).after_cast(
            CastKind::Float(cast),
            casts,
        ) == Some(
            Value::Int(
                ScalarInt {
                    data,
                    size: match cast {
                        FloatCast::IntToFloat { signed: _, size } => size,
                        FloatCast::FloatToFloat { size } => size,
                        FloatCast::FloatToInt { signed: _, size } => size,
                    },
                },
            ),
        ),
{
}

/// Casts can be handed in that may be asked for everything and that give the bits which some function
/// of the scalar and the cast has. They then give what that function has.
pub proof fn law_casts_are_a_function<F: Fn(ScalarInt, FloatCast) -> Option<u128>>(
    cast_float: F,
    casts: FloatCasts,
)
    requires
        forall|scalar: ScalarInt, cast: FloatCast| #[trigger]
            cast_float.requires((scalar, cast)),
        forall|scalar: ScalarInt, cast: FloatCast, bits: Option<u128>| #[trigger]
            cast_float.ensures((scalar, cast), bits) ==> bits == casts(scalar, cast),
    ensures
        casts_floats(cast_float),
        gives_casts(cast_float, casts),
{
    assert(gives_casts(cast_float, casts));
}

} // verus!
