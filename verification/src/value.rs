//! What is known of the value of a local, and what casts make of it.
use vstd::arithmetic::div_mod::{
    lemma_fundamental_div_mod_converse_mod, lemma_mod_add_multiples_vanish, lemma_mod_bound,
    lemma_mod_mod, lemma_mod_multiples_vanish, lemma_small_mod,
};
use vstd::arithmetic::power2::{
    lemma_pow2_adds, lemma_pow2_pos, lemma_pow2_strictly_increases, lemma_pow2_unfold, pow2,
};
use vstd::prelude::*;

use crate::internval_analysis::{lemma_mask, lemma_shifted_bit, lemma_widths, signed_value};
use crate::mir::{CastKind, FloatCast, Scalar, ScalarInt};

verus! {

/// Whether a constant with the given scalar is null, if the scalar is known. A pointer into an
/// allocation is not.
pub open spec fn scalar_is_null(scalar: Option<Scalar>) -> Option<bool> {
    match scalar {
        Some(Scalar::Int(value)) => Some(value.data == 0),
        Some(Scalar::Ptr(_)) => Some(false),
        None => None,
    }
}

/// A value that is known.
#[derive(Clone, Copy, Debug, PartialEq, Eq, Structural)]
pub enum Value {
    /// A scalar, bit by bit.
    Int(ScalarInt),
    /// The address of an allocation, which is not zero.
    Ptr {
        /// The number of lowest bytes that hold the address.
        low: u8,
        /// The size in bytes.
        size: u8,
    },
}

/// The lowest bytes of a number.
pub open spec fn low_bytes(data: int, size: u8) -> int {
    data % pow2((8 * size) as nat) as int
}

/// The number that an integer scalar stands for.
pub open spec fn int_value(scalar: ScalarInt, signed: bool) -> int {
    if signed {
        signed_value(scalar.data as nat, (8 * scalar.size) as nat)
    } else {
        low_bytes(scalar.data as int, scalar.size)
    }
}

/// What an integer is cast to: the lowest bytes of the number that it stands for.
pub open spec fn cast_int(scalar: ScalarInt, signed: bool, size: u8) -> ScalarInt {
    ScalarInt { data: low_bytes(int_value(scalar, signed), size) as u128, size }
}

/// The bits that each cast of a scalar from or to a floating-point number gives, if they are known.
pub type FloatCasts = spec_fn(ScalarInt, FloatCast) -> Option<u128>;

/// Whether `cast_float` gives the bits that `casts` has.
pub open spec fn gives_casts<F: Fn(ScalarInt, FloatCast) -> Option<u128>>(
    cast_float: F,
    casts: FloatCasts,
) -> bool {
    forall|scalar: ScalarInt, cast: FloatCast, bits: Option<u128>| #[trigger]
        cast_float.ensures((scalar, cast), bits) ==> bits == casts(scalar, cast)
}

/// Whether `cast_float` can be asked for every cast, and gives bits that depend on nothing but the
/// scalar and the cast.
pub open spec fn casts_floats<F: Fn(ScalarInt, FloatCast) -> Option<u128>>(cast_float: F) -> bool {
    &&& forall|scalar: ScalarInt, cast: FloatCast| #[trigger] cast_float.requires((scalar, cast))
    &&& exists|casts: FloatCasts| #[trigger] gives_casts(cast_float, casts)
}

impl Value {
    /// The size is at least one byte and at most sixteen, and an address is within it.
    pub open spec fn wf(self) -> bool {
        match self {
            Value::Int(scalar) => scalar.wf(),
            Value::Ptr { low, size } => 1 <= low <= size <= 16,
        }
    }

    /// Whether the value is zero.
    pub open spec fn is_zero(self) -> bool {
        match self {
            Value::Int(scalar) => scalar.data == 0,
            Value::Ptr { .. } => false,
        }
    }

    /// The value once it has been cast, if it is known then. What is left of an address that is cut
    /// off is not.
    pub open spec fn after_cast(self, kind: CastKind, casts: FloatCasts) -> Option<Value> {
        match (kind, self) {
            (CastKind::Keep, _) => Some(self),
            (CastKind::IntToInt { signed, size }, Value::Int(scalar)) => Some(
                Value::Int(cast_int(scalar, signed, size)),
            ),
            (CastKind::IntToInt { size, .. }, Value::Ptr { low, .. }) => if low <= size {
                Some(Value::Ptr { low, size })
            } else {
                None
            },
            (CastKind::Float(cast), Value::Int(scalar)) => match casts(scalar, cast) {
                Some(data) => Some(Value::Int(ScalarInt { data, size: cast.result_size() })),
                None => None,
            },
            (CastKind::Float(_), Value::Ptr { .. }) => None,
        }
    }

    /// Returns whether the value is zero.
    pub fn is_null(&self) -> (result: bool)
        ensures
            result == self.is_zero(),
    {
        match self {
            Value::Int(scalar) => scalar.is_null(),
            Value::Ptr { .. } => false,
        }
    }

    /// Returns the value once it has been cast, if it is known then. `cast_float` gives the bits of
    /// a scalar that is cast from or to a floating-point number, if it knows them.
    pub fn cast<F: Fn(ScalarInt, FloatCast) -> Option<u128>>(
        &self,
        kind: CastKind,
        cast_float: &F,
    ) -> (result: Option<Value>)
        requires
            self.wf(),
            kind.wf(),
            casts_floats(*cast_float),
        ensures
            forall|casts: FloatCasts| #[trigger]
                gives_casts(*cast_float, casts) ==> result == self.after_cast(kind, casts),
            result matches Some(value) ==> value.wf(),
    {
        match (kind, self) {
            (CastKind::Keep, _) => Some(*self),
            (CastKind::IntToInt { signed, size }, Value::Int(scalar)) => Some(
                Value::Int(int_to_int(scalar, signed, size)),
            ),
            (CastKind::IntToInt { size, .. }, Value::Ptr { low, .. }) => if *low <= size {
                Some(Value::Ptr { low: *low, size })
            } else {
                None
            },
            (CastKind::Float(cast), Value::Int(scalar)) => match cast_float(*scalar, cast) {
                Some(data) => Some(Value::Int(ScalarInt { data, size: cast.size() })),
                None => None,
            },
            (CastKind::Float(_), Value::Ptr { .. }) => None,
        }
    }
}

/// The value of a constant with the given scalar, if that is known.
pub open spec fn scalar_value(scalar: Option<Scalar>) -> Option<Value> {
    match scalar {
        Some(Scalar::Int(value)) => Some(Value::Int(value)),
        Some(Scalar::Ptr(size)) => Some(Value::Ptr { low: size, size }),
        None => None,
    }
}

/// Returns the value of a constant with the given scalar, if that is known.
pub(crate) fn value_of(scalar: Option<Scalar>) -> (result: Option<Value>)
    ensures
        result == scalar_value(scalar),
{
    match scalar {
        Some(Scalar::Int(value)) => Some(Value::Int(value)),
        Some(Scalar::Ptr(size)) => Some(Value::Ptr { low: size, size }),
        None => None,
    }
}

/// Returns the lowest bytes of a number.
fn low(data: u128, size: u8) -> (result: u128)
    requires
        1 <= size <= 16,
    ensures
        result == low_bytes(data as int, size),
        result < pow2((8 * size) as nat),
{
    proof {
        lemma_widths();
    }
    if size == 16 {
        proof {
            lemma_small_mod(data as nat, pow2(128));
        }
        data
    } else {
        let bits: u64 = 8 * (size as u64);
        proof {
            lemma_mask(data, bits);
            lemma_pow2_pos(bits as nat);
        }
        data & ((1u128 << bits) - 1)
    }
}

/// The lowest bytes of a number are those of its lowest bytes, and also those that are left where a
/// power of two is taken off.
pub proof fn lemma_low_bytes(x: int, less: u8, more: u8)
    requires
        less <= more,
    ensures
        0 <= low_bytes(x, less) < pow2((8 * less) as nat),
        low_bytes(low_bytes(x, more), less) == low_bytes(x, less),
        low_bytes(x - pow2((8 * more) as nat), less) == low_bytes(x, less),
{
    let a = pow2((8 * less) as nat) as int;
    let b = pow2((8 * (more - less)) as nat) as int;
    lemma_pow2_pos((8 * less) as nat);
    lemma_pow2_pos((8 * (more - less)) as nat);
    lemma_pow2_adds((8 * less) as nat, (8 * (more - less)) as nat);
    lemma_mod_bound(x, a);
    lemma_mod_mod(x, a, b);
    lemma_mod_multiples_vanish(-b, x, a);
    assert(a * -b == -(a * b)) by (nonlinear_arith);
}

/// The lowest bytes of the largest number are all ones.
proof fn lemma_all_ones(size: u8)
    requires
        size <= 16,
    ensures
        low_bytes(u128::MAX as int, size) == pow2((8 * size) as nat) - 1,
{
    let a = pow2((8 * size) as nat) as int;
    let b = pow2((8 * (16 - size)) as nat) as int;
    lemma_widths();
    lemma_pow2_pos((8 * size) as nat);
    lemma_pow2_adds((8 * size) as nat, (8 * (16 - size)) as nat);
    assert(a * b - 1 == (b - 1) * a + (a - 1)) by (nonlinear_arith);
    lemma_fundamental_div_mod_converse_mod(u128::MAX as int, a, b - 1, a - 1);
}

/// Casts an integer to an integer.
pub fn int_to_int(scalar: &ScalarInt, signed: bool, size: u8) -> (result: ScalarInt)
    requires
        scalar.wf(),
        1 <= size <= 16,
    ensures
        result == cast_int(*scalar, signed, size),
{
    let x = low(scalar.data, scalar.size);
    let ghost from = pow2((8 * scalar.size) as nat);
    let ghost to = pow2((8 * size) as nat);
    if signed && scalar.size < size {
        let bits: u64 = 8 * (scalar.size as u64);
        proof {
            lemma_shifted_bit((bits - 1) as u64);
            lemma_shifted_bit(bits);
            lemma_pow2_unfold(bits as nat);
            lemma_pow2_strictly_increases(bits as nat, (8 * size) as nat);
        }
        let sign_bit = 1u128 << (bits - 1);
        if x >= sign_bit {
            let ones = low(u128::MAX, size);
            proof {
                lemma_all_ones(size);
                lemma_mod_add_multiples_vanish(x - from, to as int);
                lemma_small_mod((x - from + to) as nat, to);
            }
            ScalarInt { data: x + (ones - ((1u128 << bits) - 1)), size }
        } else {
            proof {
                lemma_small_mod(x as nat, to);
            }
            ScalarInt { data: x, size }
        }
    } else {
        proof {
            if signed {
                lemma_low_bytes(x as int, size, scalar.size);
            }
        }
        ScalarInt { data: low(x, size), size }
    }
}

} // verus!
