//! What the parts of a body are, part by part.
use vstd::prelude::*;

use crate::mir::{
    statements_of, BasicBlockData, BinOp, Body, CastKind, Const, ConstTy, FloatCast, Local,
    Operand, Place, Rvalue, Scalar, ScalarInt, Statement,
};

verus! {

/// A place without a projection is the whole of its local, and one with a projection is the whole of
/// none. An operand reads a local as a whole if it copies or moves such a place.
pub proof fn law_whole_local(local: Local, scalar: Option<Scalar>)
    ensures
        (Place { local, projected: false }).whole_local() == Some(local),
        (Place { local, projected: true }).whole_local() is None,
        Operand::Copy(Place { local, projected: false }).whole_local() == Some(local),
        Operand::Copy(Place { local, projected: true }).whole_local() is None,
        Operand::Move(Place { local, projected: false }).whole_local() == Some(local),
        Operand::Move(Place { local, projected: true }).whole_local() is None,
        Operand::Constant(scalar).whole_local() is None,
{
}

/// A scalar is valid exactly if it has one byte to sixteen, whatever its bits. So is a constant.
pub proof fn law_valid_scalars(data: u128, size: u8, ty: ConstTy)
    ensures
        (ScalarInt { data, size }).wf() <==> 1 <= size <= 16,
        Scalar::Int(ScalarInt { data, size }).wf() <==> 1 <= size <= 16,
        Scalar::Ptr(size).wf() <==> 1 <= size <= 16,
        (Const::Mir { ty, scalar: Some(ScalarInt { data, size }) }).wf() <==> 1 <= size <= 16,
        (Const::Mir { ty, scalar: None }).wf(),
        Const::Param.wf(),
{
}

/// A cast is valid exactly if its result has one byte to sixteen.
pub proof fn law_valid_casts(signed: bool, size: u8)
    ensures
        CastKind::Keep.wf(),
        (CastKind::IntToInt { signed, size }).wf() <==> 1 <= size <= 16,
        CastKind::Float(FloatCast::IntToFloat { signed, size }).wf() <==> 1 <= size <= 16,
        CastKind::Float(FloatCast::FloatToFloat { size }).wf() <==> 1 <= size <= 16,
        CastKind::Float(FloatCast::FloatToInt { signed, size }).wf() <==> 1 <= size <= 16,
        (FloatCast::IntToFloat { signed, size }).result_size() == size,
        (FloatCast::FloatToFloat { size }).result_size() == size,
        (FloatCast::FloatToInt { signed, size }).result_size() == size,
{
}

/// An assignment is valid exactly if the scalar that it assigns, and the cast that it makes, are.
/// Nothing else is asked of a statement.
pub proof fn law_valid_statements(
    place: Place,
    from: Place,
    kind: CastKind,
    scalar: Scalar,
    op: BinOp,
    left: Operand,
    right: Operand,
)
    ensures
        Statement::Other.wf(),
        Statement::Assign(place, Rvalue::Other).wf(),
        Statement::Assign(place, Rvalue::BinaryOp(op, left, right)).wf(),
        Statement::Assign(place, Rvalue::Use(Operand::Copy(from))).wf(),
        Statement::Assign(place, Rvalue::Use(Operand::Move(from))).wf(),
        Statement::Assign(place, Rvalue::Use(Operand::Constant(None))).wf(),
        Statement::Assign(place, Rvalue::Use(Operand::Constant(Some(scalar)))).wf() <==> scalar.wf(),
        Statement::Assign(place, Rvalue::Cast(kind, Operand::Copy(from))).wf() <==> kind.wf(),
        Statement::Assign(place, Rvalue::Cast(kind, Operand::Move(from))).wf() <==> kind.wf(),
        Statement::Assign(place, Rvalue::Cast(kind, Operand::Constant(None))).wf() <==> kind.wf(),
        Statement::Assign(place, Rvalue::Cast(kind, Operand::Constant(Some(scalar)))).wf()
            <==> kind.wf() && scalar.wf(),
{
}

/// A body is valid exactly if its statements are.
pub proof fn law_valid_body(body: Body)
    ensures
        body.wf() <==> forall|s: int|
            0 <= s < body.statements().len() ==> (#[trigger] body.statements()[s]).wf(),
{
    let blocks = body.basic_blocks@;
    if body.wf() {
        assert forall|t: int| 0 <= t < body.statements().len() implies (
        #[trigger] body.statements()[t]).wf() by {
            lemma_read_statement_is_there(blocks, t);
            let (b, s) = choose|b: int, s: int|
                0 <= b < blocks.len() && 0 <= s < blocks[b].statements.len()
                    && #[trigger] blocks[b].statements[s] == statements_of(blocks)[t];
            assert(body.basic_blocks[b].statements[s].wf());
        }
    }
    if forall|s: int|
        0 <= s < body.statements().len() ==> (#[trigger] body.statements()[s]).wf() {
        assert forall|b: int, s: int|
            0 <= b < body.basic_blocks.len() && 0 <= s < body.basic_blocks[b].statements.len()
            implies (#[trigger] body.basic_blocks[b].statements[s]).wf() by {
            lemma_statement_is_read(blocks, b, s);
            let t = choose|t: int|
                0 <= t < statements_of(blocks).len() && #[trigger] statements_of(blocks)[t]
                    == blocks[b].statements[s];
            assert(body.statements()[t].wf());
        }
    }
}

/// Every statement of every block is read.
proof fn lemma_statement_is_read(blocks: Seq<BasicBlockData>, b: int, s: int)
    requires
        0 <= b < blocks.len(),
        0 <= s < blocks[b].statements.len(),
    ensures
        exists|t: int|
            0 <= t < statements_of(blocks).len() && #[trigger] statements_of(blocks)[t]
                == blocks[b].statements[s],
    decreases blocks.len(),
{
    let before = statements_of(blocks.drop_last());
    if b == blocks.len() - 1 {
        assert(statements_of(blocks)[before.len() + s] == blocks[b].statements[s]);
    } else {
        lemma_statement_is_read(blocks.drop_last(), b, s);
        let t = choose|t: int|
            0 <= t < before.len() && #[trigger] before[t] == blocks[b].statements[s];
        assert(statements_of(blocks)[t] == before[t]);
    }
}

/// Whatever is read is a statement of some block.
proof fn lemma_read_statement_is_there(blocks: Seq<BasicBlockData>, t: int)
    requires
        0 <= t < statements_of(blocks).len(),
    ensures
        exists|b: int, s: int|
            0 <= b < blocks.len() && 0 <= s < blocks[b].statements.len()
                && #[trigger] blocks[b].statements[s] == statements_of(blocks)[t],
    decreases blocks.len(),
{
    let before = statements_of(blocks.drop_last());
    if t < before.len() {
        lemma_read_statement_is_there(blocks.drop_last(), t);
        let (b, s) = choose|b: int, s: int|
            0 <= b < blocks.drop_last().len() && 0 <= s < blocks.drop_last()[b].statements.len()
                && #[trigger] blocks.drop_last()[b].statements[s] == before[t];
        assert(blocks[b].statements[s] == statements_of(blocks)[t]);
    } else {
        let b = blocks.len() - 1;
        assert(blocks[b].statements[t - before.len()] == statements_of(blocks)[t]);
    }
}

/// The statements of a block are read in their order, all of them, and those of a body are those of
/// its blocks.
pub proof fn law_block_is_read_in_order(block: BasicBlockData, body: Body)
    ensures
        statements_of(seq![block]) == block.statements@,
        statements_of(Seq::empty()) == Seq::<Statement>::empty(),
        body.statements() == statements_of(body.basic_blocks@),
        body.basic_blocks@ == seq![block] ==> body.statements() == block.statements@,
{
    assert(seq![block].drop_last() =~= Seq::empty());
    reveal_with_fuel(statements_of, 2);
    assert(statements_of(seq![block]) =~= block.statements@);
}

} // verus!
