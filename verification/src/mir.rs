//! The parts of a MIR body that the predicates read.
//!
//! Everything here is plain data. What only the compiler can compute, such as the scalar that a
//! constant evaluates to or the length of an array type, is held as the value that it computed.
use vstd::prelude::*;

verus! {

/// A local of a body, by its index among the local declarations.
pub type Local = usize;

/// A point in a body.
#[derive(Clone, Copy, Debug, PartialEq, Eq, Structural)]
pub struct Location {
    /// The index of the basic block.
    pub block: usize,
    /// The index of the statement in the block. The terminator comes after the last statement.
    pub statement_index: usize,
}

/// A place: a local, or something reached from one through projections.
#[derive(Clone, Copy, Debug, PartialEq, Eq, Structural)]
pub struct Place {
    /// The local at which the place starts.
    pub local: Local,
    /// Whether there is any projection.
    pub projected: bool,
}

impl Place {
    /// The local that the place is the whole of, if it is the whole of one.
    pub open spec fn whole_local(self) -> Option<Local> {
        if self.projected {
            None
        } else {
            Some(self.local)
        }
    }

    /// Returns the local that the place is the whole of, if it is the whole of one.
    pub fn as_local(&self) -> (result: Option<Local>)
        ensures
            result == self.whole_local(),
    {
        if self.projected {
            None
        } else {
            Some(self.local)
        }
    }
}

/// An integer scalar: its bits, and its size in bytes.
#[derive(Clone, Copy, Debug, PartialEq, Eq, Structural)]
pub struct ScalarInt {
    /// The bits.
    pub data: u128,
    /// The size in bytes.
    pub size: u8,
}

impl ScalarInt {
    /// A scalar has at least one byte and at most sixteen.
    pub open spec fn wf(self) -> bool {
        1 <= self.size <= 16
    }

    /// Whether the scalar is zero.
    pub fn is_null(&self) -> (result: bool)
        ensures
            result == (self.data == 0),
    {
        self.data == 0
    }

    /// The size in bits.
    pub fn bits(&self) -> (result: u64)
        ensures
            result == 8 * self.size,
    {
        8 * (self.size as u64)
    }
}

/// The scalar that a constant evaluates to.
#[derive(Clone, Copy, Debug, PartialEq, Eq, Structural)]
pub enum Scalar {
    /// An integer.
    Int(ScalarInt),
    /// A pointer into an allocation, with its size in bytes.
    Ptr(u8),
}

impl Scalar {
    /// A scalar has at least one byte and at most sixteen.
    pub open spec fn wf(self) -> bool {
        match self {
            Scalar::Int(scalar) => scalar.wf(),
            Scalar::Ptr(size) => 1 <= size <= 16,
        }
    }
}

/// The kinds of type that matter for a constant.
#[derive(Clone, Copy, Debug, PartialEq, Eq, Structural)]
pub enum ConstTy {
    /// A signed integer type.
    Int,
    /// An unsigned integer type.
    Uint,
    /// `bool`.
    Bool,
    /// `char`.
    Char,
    /// Any other type.
    Other,
}

/// A constant that a local is compared with.
#[derive(Clone, Copy, Debug, PartialEq, Eq, Structural)]
pub enum Const {
    /// A constant of a body: its type, and the integer scalar that it evaluates to, if any.
    Mir {
        /// The kind of its type.
        ty: ConstTy,
        /// The integer scalar that it evaluates to.
        scalar: Option<ScalarInt>,
    },
    /// A constant parameter.
    Param,
}

impl Const {
    /// The scalar of the constant, if any, has a valid size.
    pub open spec fn wf(self) -> bool {
        match self {
            Const::Mir { ty: _, scalar: Some(scalar) } => scalar.wf(),
            _ => true,
        }
    }
}

/// An operand of a right-hand side.
#[derive(Clone, Copy, Debug, PartialEq, Eq, Structural)]
pub enum Operand {
    /// A copy of a place.
    Copy(Place),
    /// A move out of a place.
    Move(Place),
    /// A constant, with the scalar that it was evaluated to, if any.
    Constant(Option<Scalar>),
}

impl Operand {
    /// The scalar of a constant, if any, has a valid size.
    pub open spec fn wf(self) -> bool {
        match self {
            Operand::Constant(Some(scalar)) => scalar.wf(),
            _ => true,
        }
    }

    /// The local that the operand reads as a whole, if it reads one.
    pub open spec fn whole_local(self) -> Option<Local> {
        match self {
            Operand::Copy(place) => place.whole_local(),
            Operand::Move(place) => place.whole_local(),
            Operand::Constant(_) => None,
        }
    }

    /// Returns the local that the operand reads as a whole, if it reads one.
    pub fn as_local(&self) -> (result: Option<Local>)
        ensures
            result == self.whole_local(),
    {
        match self {
            Operand::Copy(place) => place.as_local(),
            Operand::Move(place) => place.as_local(),
            Operand::Constant(_) => None,
        }
    }
}

/// A binary operator.
#[derive(Clone, Copy, Debug, PartialEq, Eq, Structural)]
pub enum BinOp {
    /// `+`
    Add,
    /// `+` that must not overflow.
    AddUnchecked,
    /// `+` with an overflow flag.
    AddWithOverflow,
    /// `-`
    Sub,
    /// `-` that must not overflow.
    SubUnchecked,
    /// `-` with an overflow flag.
    SubWithOverflow,
    /// `*`
    Mul,
    /// `*` that must not overflow.
    MulUnchecked,
    /// `*` with an overflow flag.
    MulWithOverflow,
    /// `/`
    Div,
    /// Any other operator.
    Other,
}

/// A cast from or to a floating-point number. Sizes are in bytes.
#[derive(Clone, Copy, Debug, PartialEq, Eq, Structural)]
pub enum FloatCast {
    /// It casts an integer to a floating-point number.
    IntToFloat {
        /// Whether the integer is signed.
        signed: bool,
        /// The size of the result.
        size: u8,
    },
    /// It casts a floating-point number to another format.
    FloatToFloat {
        /// The size of the result.
        size: u8,
    },
    /// It casts a floating-point number to an integer.
    FloatToInt {
        /// Whether the integer is signed.
        signed: bool,
        /// The size of the result.
        size: u8,
    },
}

impl FloatCast {
    /// The size of the result.
    pub open spec fn result_size(self) -> u8 {
        match self {
            FloatCast::IntToFloat { signed: _, size } => size,
            FloatCast::FloatToFloat { size } => size,
            FloatCast::FloatToInt { signed: _, size } => size,
        }
    }

    /// Returns the size of the result.
    pub fn size(&self) -> (result: u8)
        ensures
            result == self.result_size(),
    {
        match self {
            FloatCast::IntToFloat { signed: _, size } => *size,
            FloatCast::FloatToFloat { size } => *size,
            FloatCast::FloatToInt { signed: _, size } => *size,
        }
    }
}

/// What a cast does. Sizes are in bytes.
#[derive(Clone, Copy, Debug, PartialEq, Eq, Structural)]
pub enum CastKind {
    /// It keeps the bits, as a cast between pointers or a transmutation does.
    Keep,
    /// It casts an integer to an integer, where a `bool`, a `char` and an address count as unsigned
    /// integers.
    IntToInt {
        /// Whether the integer that is cast is signed.
        signed: bool,
        /// The size of the result.
        size: u8,
    },
    /// It casts from or to a floating-point number.
    Float(FloatCast),
}

impl CastKind {
    /// The result has at least one byte and at most sixteen.
    pub open spec fn wf(self) -> bool {
        match self {
            CastKind::Keep => true,
            CastKind::IntToInt { signed: _, size } => 1 <= size <= 16,
            CastKind::Float(cast) => 1 <= cast.result_size() <= 16,
        }
    }
}

/// The right-hand side of an assignment.
#[derive(Clone, Copy, Debug, PartialEq, Eq, Structural)]
pub enum Rvalue {
    /// The operand itself.
    Use(Operand),
    /// A cast of the operand.
    Cast(CastKind, Operand),
    /// A binary operation.
    BinaryOp(BinOp, Operand, Operand),
    /// Any other right-hand side.
    Other,
}

impl Rvalue {
    /// What is assigned or cast has a valid size.
    pub open spec fn wf(self) -> bool {
        match self {
            Rvalue::Use(operand) => operand.wf(),
            Rvalue::Cast(kind, operand) => kind.wf() && operand.wf(),
            _ => true,
        }
    }
}

/// A statement.
#[derive(Clone, Copy, Debug, PartialEq, Eq, Structural)]
pub enum Statement {
    /// An assignment to a place.
    Assign(Place, Rvalue),
    /// Any other statement.
    Other,
}

impl Statement {
    /// What is assigned has a valid size.
    pub open spec fn wf(self) -> bool {
        match self {
            Statement::Assign(_, rvalue) => rvalue.wf(),
            Statement::Other => true,
        }
    }
}

/// What a reference refers to.
#[derive(Clone, Copy, Debug, PartialEq, Eq, Structural)]
pub enum Referent {
    /// An array, with its length, if that is known.
    Array(Option<u64>),
    /// A slice.
    Slice,
    /// Anything else.
    Other,
}

/// The type of a local.
#[derive(Clone, Copy, Debug, PartialEq, Eq, Structural)]
pub enum Ty {
    /// An array, with its length, if that is known.
    Array(Option<u64>),
    /// A slice.
    Slice,
    /// A reference.
    Ref(Referent),
    /// Any other type.
    Other,
}

/// A basic block.
#[derive(Debug)]
pub struct BasicBlockData {
    /// The statements, in order. For each place that the terminator writes, as a call does with its
    /// destination, an assignment of [`Rvalue::Other`] to that place follows them.
    pub statements: Vec<Statement>,
}

/// A body.
#[derive(Debug)]
pub struct Body {
    /// The type of each local.
    pub local_decls: Vec<Ty>,
    /// The basic blocks.
    pub basic_blocks: Vec<BasicBlockData>,
}

/// The statements of the blocks, one block after the other.
pub open spec fn statements_of(blocks: Seq<BasicBlockData>) -> Seq<Statement>
    decreases blocks.len(),
{
    if blocks.len() == 0 {
        Seq::empty()
    } else {
        statements_of(blocks.drop_last()) + blocks.last().statements@
    }
}

impl Body {
    /// The statements are valid.
    pub open spec fn wf(self) -> bool {
        forall|b: int, s: int|
            0 <= b < self.basic_blocks.len() && 0 <= s < self.basic_blocks[b].statements.len()
                ==> (#[trigger] self.basic_blocks[b].statements[s]).wf()
    }

    /// The statements of the body, one block after the other.
    pub open spec fn statements(self) -> Seq<Statement> {
        statements_of(self.basic_blocks@)
    }
}

} // verus!
