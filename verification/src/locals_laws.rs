//! What the cache of a body says about its locals.
use vstd::prelude::*;

use crate::forward::{AnalysisSteps, PathForwardAnalysisConfig};
use crate::locals::{
    assigned_rvalue, assigns_constant, cast_value, chain_in_range, internval_once,
    is_product_chain, locals_in_range, null_after, null_once, passed_on, statement_in_range,
    value_after,
};
use crate::mir::{
    statements_of, BasicBlockData, BinOp, Body, CastKind, Local, Operand, Place, Rvalue, Scalar,
    ScalarInt, Statement,
};
use crate::relation::{edges_of, product_grid, statement_edges, Grid};
use crate::relation_laws::{law_no_quotient_without_division, law_related_is_transitive};
use crate::value::{low_bytes, scalar_is_null, scalar_value, FloatCasts, Value};
use crate::value_laws::{
    cast_result, is_right, law_cast_integer_is_zero, law_cast_is_right, law_right_value_is_zero,
};

verus! {

/// A statement that does not assign a local as a whole leaves what is known of it.
pub proof fn law_other_statements_keep_null(
    statements: Seq<Statement>,
    statement: Statement,
    local: Local,
    casts: FloatCasts,
)
    requires
        assigned_rvalue(statement, local) is None,
    ensures
        value_after(statements.push(statement), local, casts) == value_after(
            statements,
            local,
            casts,
        ),
        null_after(statements.push(statement), local, casts) == null_after(
            statements,
            local,
            casts,
        ),
{
    assert(statements.push(statement).drop_last() =~= statements);
}

/// Of a local that was just assigned a constant what is known is the value of the constant, as it
/// was cast. If it was not cast, the local is null exactly if the constant is.
pub proof fn law_constant_decides_null(
    statements: Seq<Statement>,
    statement: Statement,
    local: Local,
    kind: CastKind,
    scalar: Option<Scalar>,
    casts: FloatCasts,
)
    requires
        assigned_rvalue(statement, local) matches Some(rvalue) && passed_on(rvalue) == Some(
            (kind, Operand::Constant(scalar)),
        ),
    ensures
        value_after(statements.push(statement), local, casts) == cast_value(
            kind,
            scalar_value(scalar),
            casts,
        ),
        kind == CastKind::Keep ==> null_after(statements.push(statement), local, casts)
            == scalar_is_null(scalar),
{
    assert(statements.push(statement).drop_last() =~= statements);
}

/// A local that was just assigned an integer constant that was cast to an integer is null exactly
/// if the bytes of the constant that are left are zero.
pub proof fn law_cast_constant_decides_null(
    statements: Seq<Statement>,
    statement: Statement,
    local: Local,
    signed: bool,
    size: u8,
    scalar: ScalarInt,
    casts: FloatCasts,
)
    requires
        assigned_rvalue(statement, local) == Some(
            Rvalue::Cast(
                CastKind::IntToInt { signed, size },
                Operand::Constant(Some(Scalar::Int(scalar))),
            ),
        ),
        scalar.wf(),
        1 <= size <= 16,
    ensures
        null_after(statements.push(statement), local, casts) == Some(
            low_bytes(
                scalar.data as int,
                if size <= scalar.size {
                    size
                } else {
                    scalar.size
                },
            ) == 0,
        ),
{
    law_cast_integer_is_zero(scalar, signed, size);
}

/// Of a local that was just assigned another local what is known is the value of that one before,
/// as it was cast. If it was not cast, the local is null exactly if that one was.
pub proof fn law_copy_keeps_null(
    statements: Seq<Statement>,
    statement: Statement,
    local: Local,
    kind: CastKind,
    operand: Operand,
    source: Local,
    casts: FloatCasts,
)
    requires
        assigned_rvalue(statement, local) matches Some(rvalue) && passed_on(rvalue) == Some(
            (kind, operand),
        ),
        operand.whole_local() == Some(source),
    ensures
        value_after(statements.push(statement), local, casts) == cast_value(
            kind,
            value_after(statements, source, casts),
            casts,
        ),
        kind == CastKind::Keep ==> null_after(statements.push(statement), local, casts)
            == null_after(statements, source, casts),
{
    assert(statements.push(statement).drop_last() =~= statements);
}

/// Nothing is known of a local that was just assigned anything but a constant or another local as a
/// whole.
pub proof fn law_other_value_is_unknown(
    statements: Seq<Statement>,
    statement: Statement,
    local: Local,
    casts: FloatCasts,
)
    requires
        assigned_rvalue(statement, local) is Some,
        !assigns_constant(statement, local),
        passed_on(assigned_rvalue(statement, local)->0) matches Some((_, operand))
            ==> operand.whole_local() is None,
    ensures
        value_after(statements.push(statement), local, casts) is None,
        null_after(statements.push(statement), local, casts) is None,
{
}

/// The last assignment to a local as a whole is the one that counts.
pub proof fn law_last_assignment_counts(
    statements: Seq<Statement>,
    last: int,
    local: Local,
    casts: FloatCasts,
)
    requires
        0 <= last < statements.len(),
        forall|s: int|
            last < s < statements.len() ==> assigned_rvalue(
                #[trigger] statements[s],
                local,
            ) is None,
    ensures
        value_after(statements, local, casts) == value_after(
            statements.take(last + 1),
            local,
            casts,
        ),
        null_after(statements, local, casts) == null_after(
            statements.take(last + 1),
            local,
            casts,
        ),
    decreases statements.len(),
{
    if last == statements.len() - 1 {
        assert(statements.take(last + 1) =~= statements);
    } else {
        let before = statements.drop_last();
        assert(assigned_rvalue(statements[statements.len() - 1], local) is None);
        assert forall|s: int| last < s < before.len() implies assigned_rvalue(
            #[trigger] before[s],
            local,
        ) is None by {
            assert(before[s] == statements[s]);
        }
        law_last_assignment_counts(before, last, local, casts);
        assert(before.take(last + 1) =~= statements.take(last + 1));
    }
}

/// Nothing is known of a local that is never assigned as a whole.
pub proof fn law_unassigned_is_unknown(
    statements: Seq<Statement>,
    local: Local,
    casts: FloatCasts,
)
    requires
        forall|s: int|
            0 <= s < statements.len() ==> assigned_rvalue(
                #[trigger] statements[s],
                local,
            ) is None,
    ensures
        value_after(statements, local, casts) is None,
        null_after(statements, local, casts) is None,
    decreases statements.len(),
{
    if statements.len() > 0 {
        let before = statements.drop_last();
        assert(assigned_rvalue(statements[statements.len() - 1], local) is None);
        assert forall|s: int| 0 <= s < before.len() implies assigned_rvalue(
            #[trigger] before[s],
            local,
        ) is None by {
            assert(before[s] == statements[s]);
        }
        law_unassigned_is_unknown(before, local, casts);
    }
}

/// What the locals hold at each point of a run: `run(t, local)` before the statement at `t`. Of a
/// local that holds no scalar nothing is meant by it.
pub type Run = spec_fn(int, Local) -> ScalarInt;

/// Whether a statement does to the locals what its right-hand side says. A constant with a known
/// scalar is that scalar, and a pointer is not zero. A local is passed on as it is. A cast makes of
/// either what it can make of it. A local that is not assigned as a whole stays. Any other value
/// may be anything.
pub open spec fn runs_statement(
    run: Run,
    t: int,
    statement: Statement,
    casts: FloatCasts,
) -> bool {
    forall|local: Local|
        match #[trigger] assigned_rvalue(statement, local) {
            Some(rvalue) => match passed_on(rvalue) {
                Some((kind, Operand::Constant(scalar))) => scalar_value(scalar) matches Some(value)
                    ==> exists|actual: ScalarInt|
                    is_right(value, actual) && #[trigger] cast_result(
                        kind,
                        casts,
                        actual,
                        run(t + 1, local),
                    ),
                Some((kind, operand)) => operand.whole_local() matches Some(source) ==> cast_result(
                    kind,
                    casts,
                    run(t, source),
                    run(t + 1, local),
                ),
                None => true,
            },
            None => run(t + 1, local) == run(t, local),
        }
}

/// What is known of a local is right: in every run of the statements in their order, the local
/// holds at the end what it is known to hold, and is null or not as it is known to be.
pub proof fn law_null_is_right(
    statements: Seq<Statement>,
    run: Run,
    local: Local,
    casts: FloatCasts,
)
    requires
        forall|t: int| 0 <= t < statements.len() ==> (#[trigger] statements[t]).wf(),
        forall|t: int|
            0 <= t < statements.len() ==> runs_statement(
                run,
                t,
                #[trigger] statements[t],
                casts,
            ),
    ensures
        value_after(statements, local, casts) matches Some(value) ==> value.wf() && is_right(
            value,
            run(statements.len() as int, local),
        ),
        null_after(statements, local, casts) matches Some(null) ==> (run(
            statements.len() as int,
            local,
        ).data == 0) == null,
    decreases statements.len(),
{
    if statements.len() > 0 {
        let before = statements.drop_last();
        let t = statements.len() - 1;
        let last = statements[t];
        assert(last.wf() && runs_statement(run, t, last, casts));
        assert forall|s: int| 0 <= s < before.len() implies (#[trigger] before[s]).wf()
            && runs_statement(run, s, before[s], casts) by {
            assert(before[s] == statements[s]);
        }
        match assigned_rvalue(last, local) {
            Some(rvalue) => match passed_on(rvalue) {
                Some((kind, Operand::Constant(scalar))) => if let Some(value) = scalar_value(
                    scalar,
                ) {
                    let after = run(t + 1, local);
                    let actual = choose|actual: ScalarInt|
                        is_right(value, actual) && #[trigger] cast_result(
                            kind,
                            casts,
                            actual,
                            after,
                        );
                    law_cast_is_right(value, kind, casts, actual, after);
                },
                Some((kind, operand)) => if let Some(source) = operand.whole_local() {
                    law_null_is_right(before, run, source, casts);
                    if let Some(value) = value_after(before, source, casts) {
                        let after = run(t + 1, local);
                        law_cast_is_right(value, kind, casts, run(t, source), after);
                    }
                },
                None => {},
            },
            None => {
                law_null_is_right(before, run, local, casts);
            },
        }
        if let Some(value) = value_after(statements, local, casts) {
            law_right_value_is_zero(value, run(t + 1, local));
        }
    }
}

/// Whether a statement assigns to a local a constant with a known scalar.
pub open spec fn assigns_known_constant(statement: Statement, local: Local) -> bool {
    match assigned_rvalue(statement, local) {
        Some(rvalue) => match passed_on(rvalue) {
            Some((_, Operand::Constant(scalar))) => scalar is Some,
            _ => false,
        },
        None => false,
    }
}

/// What is known of a local comes from a constant: where something is known of a local, some
/// statement assigns a constant with a known scalar.
pub proof fn law_null_comes_from_a_constant(
    statements: Seq<Statement>,
    local: Local,
    casts: FloatCasts,
)
    requires
        null_after(statements, local, casts) is Some,
    ensures
        exists|s: int, to: Local|
            0 <= s < statements.len() && #[trigger] assigns_known_constant(statements[s], to),
    decreases statements.len(),
{
    let before = statements.drop_last();
    let t = statements.len() - 1;
    let from = match assigned_rvalue(statements[t], local) {
        Some(rvalue) => match passed_on(rvalue) {
            Some((_, operand)) => operand.whole_local(),
            None => None,
        },
        None => Some(local),
    };
    if let Some(from) = from {
        law_null_comes_from_a_constant(before, from, casts);
        let (s, to) = choose|s: int, to: Local|
            0 <= s < before.len() && #[trigger] assigns_known_constant(before[s], to);
        assert(assigns_known_constant(statements[s], to));
    } else {
        assert(assigns_known_constant(statements[t], local));
    }
}

/// The statements of some blocks followed by others are those of the first, then those of the
/// others.
pub proof fn law_blocks_are_read_in_order(first: Seq<BasicBlockData>, second: Seq<BasicBlockData>)
    ensures
        statements_of(first + second) == statements_of(first) + statements_of(second),
    decreases second.len(),
{
    if second.len() == 0 {
        assert(first + second =~= first);
    } else {
        assert((first + second).drop_last() =~= first + second.drop_last());
        law_blocks_are_read_in_order(first, second.drop_last());
        assert(statements_of(first + second) =~= statements_of(first) + statements_of(second));
    }
}

/// The null-pointer analysis runs at most once: whatever is asked later gets the result that the first
/// call got.
pub proof fn law_null_runs_once<
    R,
    B1,
    G1,
    P1,
    O1: FnOnce() -> B1,
    C1: FnOnce(&B1) -> G1,
    L1: FnOnce(&B1) -> P1,
    A1: FnOnce(&B1, &G1, &P1, bool, PathForwardAnalysisConfig) -> R,
    B2,
    G2,
    P2,
    O2: FnOnce() -> B2,
    C2: FnOnce(&B2) -> G2,
    L2: FnOnce(&B2) -> P2,
    A2: FnOnce(&B2, &G2, &P2, bool, PathForwardAnalysisConfig) -> R,
>(
    before: Option<R>,
    between: Option<R>,
    after: Option<R>,
    first: AnalysisSteps<O1, C1, L1, A1>,
    second: AnalysisSteps<O2, C2, L2, A2>,
)
    requires
        null_once(before, between, first),
        null_once(between, after, second),
    ensures
        after == between,
{
}

/// The interval analysis runs at most once: whatever is asked later gets the result that the first
/// call got.
pub proof fn law_internval_runs_once<
    R,
    B1,
    G1,
    P1,
    O1: FnOnce() -> B1,
    C1: FnOnce(&B1) -> G1,
    L1: FnOnce(&B1) -> P1,
    A1: FnOnce(&B1, &G1, &P1, PathForwardAnalysisConfig) -> R,
    B2,
    G2,
    P2,
    O2: FnOnce() -> B2,
    C2: FnOnce(&B2) -> G2,
    L2: FnOnce(&B2) -> P2,
    A2: FnOnce(&B2, &G2, &P2, PathForwardAnalysisConfig) -> R,
>(
    before: Option<R>,
    between: Option<R>,
    after: Option<R>,
    first: AnalysisSteps<O1, C1, L1, A1>,
    second: AnalysisSteps<O2, C2, L2, A2>,
)
    requires
        internval_once(before, between, first),
        internval_once(between, after, second),
    ensures
        after == between,
{
}

/// A single local, or none, is a chain of products.
pub proof fn law_short_chain(grid: Grid, locals: Seq<Local>)
    requires
        locals.len() <= 1,
    ensures
        is_product_chain(grid, locals),
{
}

/// A chain of products can be split at any local, which then ends one part and starts the other.
pub proof fn law_chain_splits(grid: Grid, locals: Seq<Local>, t: int)
    requires
        0 <= t < locals.len(),
    ensures
        is_product_chain(grid, locals) <==> is_product_chain(grid, locals.take(t + 1))
            && is_product_chain(grid, locals.skip(t)),
{
    let head = locals.take(t + 1);
    let tail = locals.skip(t);
    if is_product_chain(grid, locals) {
        assert forall|s: int| 0 <= s < head.len() - 1 implies grid[#[trigger] head[s] as int][head[s
            + 1] as int] == Some(true) by {
            assert(head[s] == locals[s] && head[s + 1] == locals[s + 1]);
        }
        assert forall|s: int| 0 <= s < tail.len() - 1 implies grid[#[trigger] tail[s] as int][tail[s
            + 1] as int] == Some(true) by {
            assert(tail[s] == locals[t + s] && tail[s + 1] == locals[t + s + 1]);
        }
    }
    if is_product_chain(grid, head) && is_product_chain(grid, tail) {
        assert forall|s: int| 0 <= s < locals.len() - 1 implies grid[#[trigger] locals[s] as int][locals[s
            + 1] as int] == Some(true) by {
            if s < t {
                assert(head[s] == locals[s] && head[s + 1] == locals[s + 1]);
            } else {
                assert(tail[s - t] == locals[s] && tail[s - t + 1] == locals[s + 1]);
            }
        }
    }
}

/// The first local of a chain of products is related to the last one.
pub proof fn law_chain_relates_its_ends(statements: Seq<Statement>, n: nat, locals: Seq<Local>)
    requires
        locals.len() >= 2,
        forall|t: int| 0 <= t < locals.len() ==> #[trigger] locals[t] < n,
        is_product_chain(product_grid(statements, n), locals),
    ensures
        product_grid(statements, n)[locals.first() as int][locals.last() as int] is Some,
    decreases locals.len(),
{
    let grid = product_grid(statements, n);
    let m = locals.len();
    assert(grid[locals[m - 2] as int][locals[m - 2 + 1] as int] == Some(true));
    if m > 2 {
        let shorter = locals.drop_last();
        law_chain_splits(grid, locals, m - 2);
        assert(locals.take(m - 1) =~= shorter);
        assert forall|t: int| 0 <= t < shorter.len() implies #[trigger] shorter[t] < n by {
            assert(shorter[t] == locals[t]);
        }
        law_chain_relates_its_ends(statements, n, shorter);
        law_related_is_transitive(
            statements,
            n,
            locals[0] as int,
            locals[m - 2] as int,
            locals[m - 1] as int,
        );
    }
}

/// If no statement divides by a whole local, the first local of a chain of products is a product of
/// the last one.
pub proof fn law_chain_is_a_product(statements: Seq<Statement>, n: nat, locals: Seq<Local>)
    requires
        locals.len() >= 2,
        forall|t: int| 0 <= t < locals.len() ==> #[trigger] locals[t] < n,
        is_product_chain(product_grid(statements, n), locals),
        forall|e: int|
            0 <= e < edges_of(statements).len() ==> (#[trigger] edges_of(statements)[e]).product,
    ensures
        product_grid(statements, n)[locals.first() as int][locals.last() as int] == Some(true),
{
    law_chain_relates_its_ends(statements, n, locals);
    assert(locals[0] < n && locals[locals.len() - 1] < n);
    law_no_quotient_without_division(
        statements,
        n,
        locals.first() as int,
        locals.last() as int,
    );
}

/// Nothing is known of any local before the first statement.
pub proof fn law_nothing_is_known_at_first(local: Local, casts: FloatCasts)
    ensures
        value_after(Seq::empty(), local, casts) is None,
        null_after(Seq::empty(), local, casts) is None,
{
}

/// A local is null exactly if its value is known to have no bit set, and not null if it is known to
/// have one or to be an address.
pub proof fn law_null_is_no_bit_set(statements: Seq<Statement>, local: Local, casts: FloatCasts)
    ensures
        null_after(statements, local, casts) == (match value_after(statements, local, casts) {
            Some(Value::Int(scalar)) => Some(scalar.data == 0),
            Some(Value::Ptr { .. }) => Some(false),
            None => None,
        }),
{
}

/// After `local = source` the local is null exactly if the source was, and known as far as it was,
/// whether the source is copied or moved. The same holds of a cast that keeps the bits.
pub proof fn law_null_of_a_copy(
    statements: Seq<Statement>,
    local: Local,
    source: Local,
    casts: FloatCasts,
)
    ensures
        ({
            let to = Place { local, projected: false };
            let from = Place { local: source, projected: false };
            let after = |rvalue: Rvalue| statements.push(Statement::Assign(to, rvalue));
            let copied = after(Rvalue::Use(Operand::Copy(from)));
            let moved = after(Rvalue::Use(Operand::Move(from)));
            let cast = after(Rvalue::Cast(CastKind::Keep, Operand::Copy(from)));
            let cast_moved = after(Rvalue::Cast(CastKind::Keep, Operand::Move(from)));
            let value = value_after(statements, source, casts);
            let null = null_after(statements, source, casts);
            &&& value_after(copied, local, casts) == value
            &&& value_after(moved, local, casts) == value
            &&& value_after(cast, local, casts) == value
            &&& value_after(cast_moved, local, casts) == value
            &&& null_after(copied, local, casts) == null
            &&& null_after(moved, local, casts) == null
            &&& null_after(cast, local, casts) == null
            &&& null_after(cast_moved, local, casts) == null
        }),
{
    let to = Place { local, projected: false };
    let from = Place { local: source, projected: false };
    lemma_push(statements, Statement::Assign(to, Rvalue::Use(Operand::Copy(from))));
    lemma_push(statements, Statement::Assign(to, Rvalue::Use(Operand::Move(from))));
    let kind = CastKind::Keep;
    lemma_push(statements, Statement::Assign(to, Rvalue::Cast(kind, Operand::Copy(from))));
    lemma_push(statements, Statement::Assign(to, Rvalue::Cast(kind, Operand::Move(from))));
}

/// After `local = constant` the local is null exactly if the constant is an integer without a bit set.
/// It is not null if the constant is another integer or a pointer, and unknown if the constant was
/// not evaluated. The same holds of a cast that keeps the bits.
pub proof fn law_null_of_a_constant(
    statements: Seq<Statement>,
    local: Local,
    scalar: Option<Scalar>,
    casts: FloatCasts,
)
    ensures
        ({
            let to = Place { local, projected: false };
            let after = |rvalue: Rvalue| statements.push(Statement::Assign(to, rvalue));
            let assigned = after(Rvalue::Use(Operand::Constant(scalar)));
            let cast = after(Rvalue::Cast(CastKind::Keep, Operand::Constant(scalar)));
            let null = match scalar {
                Some(Scalar::Int(known)) => Some(known.data == 0),
                Some(Scalar::Ptr(_)) => Some(false),
                None => None,
            };
            let value = match scalar {
                Some(Scalar::Int(known)) => Some(Value::Int(known)),
                Some(Scalar::Ptr(size)) => Some(Value::Ptr { low: size, size }),
                None => None,
            };
            &&& value_after(assigned, local, casts) == value
            &&& value_after(cast, local, casts) == value
            &&& null_after(assigned, local, casts) == null
            &&& null_after(cast, local, casts) == null
        }),
{
}

/// After an assignment with a cast the value of the local is what the cast makes of the value that was
/// cast: that of a constant, or that of a local, copied or moved. It is unknown if that was.
pub proof fn law_value_of_a_cast(
    statements: Seq<Statement>,
    local: Local,
    kind: CastKind,
    source: Local,
    scalar: ScalarInt,
    size: u8,
    casts: FloatCasts,
)
    ensures
        ({
            let to = Place { local, projected: false };
            let from = Place { local: source, projected: false };
            let after = |operand: Operand|
                value_after(
                    statements.push(Statement::Assign(to, Rvalue::Cast(kind, operand))),
                    local,
                    casts,
                );
            let known = value_after(statements, source, casts);
            &&& known is None ==> after(Operand::Copy(from)) is None
            &&& known is None ==> after(Operand::Move(from)) is None
            &&& known matches Some(value) ==> after(Operand::Copy(from)) == value.after_cast(
                kind,
                casts,
            )
            &&& known matches Some(value) ==> after(Operand::Move(from)) == value.after_cast(
                kind,
                casts,
            )
            &&& after(Operand::Constant(Some(Scalar::Int(scalar)))) == Value::Int(
                scalar,
            ).after_cast(kind, casts)
            &&& after(Operand::Constant(Some(Scalar::Ptr(size)))) == (Value::Ptr {
                low: size,
                size,
            }).after_cast(kind, casts)
            &&& after(Operand::Constant(None)) is None
        }),
{
    let to = Place { local, projected: false };
    let from = Place { local: source, projected: false };
    lemma_push(statements, Statement::Assign(to, Rvalue::Cast(kind, Operand::Copy(from))));
    lemma_push(statements, Statement::Assign(to, Rvalue::Cast(kind, Operand::Move(from))));
}

/// A local is unknown after an assignment of a part of a local, cast or not, of the result of an
/// operator, or of any other value.
pub proof fn law_other_values_are_forgotten(
    statements: Seq<Statement>,
    local: Local,
    part: Local,
    kind: CastKind,
    op: BinOp,
    left: Operand,
    right: Operand,
    casts: FloatCasts,
)
    ensures
        ({
            let to = Place { local, projected: false };
            let from = Place { local: part, projected: true };
            let forgotten = |rvalue: Rvalue|
                {
                    let after = statements.push(Statement::Assign(to, rvalue));
                    value_after(after, local, casts) is None && null_after(
                        after,
                        local,
                        casts,
                    ) is None
                };
            &&& forgotten(Rvalue::Other)
            &&& forgotten(Rvalue::BinaryOp(op, left, right))
            &&& forgotten(Rvalue::Use(Operand::Copy(from)))
            &&& forgotten(Rvalue::Use(Operand::Move(from)))
            &&& forgotten(Rvalue::Cast(kind, Operand::Copy(from)))
            &&& forgotten(Rvalue::Cast(kind, Operand::Move(from)))
        }),
{
}

/// What is known of a local stays where a statement assigns another local, only a part of one, or
/// nothing.
pub proof fn law_other_locals_stay(
    statements: Seq<Statement>,
    local: Local,
    other: Local,
    part: Local,
    rvalue: Rvalue,
    casts: FloatCasts,
)
    requires
        other != local,
    ensures
        ({
            let stays = |statement: Statement|
                {
                    let after = statements.push(statement);
                    value_after(after, local, casts) == value_after(statements, local, casts)
                        && null_after(after, local, casts) == null_after(statements, local, casts)
                };
            &&& stays(Statement::Other)
            &&& stays(Statement::Assign(Place { local: other, projected: false }, rvalue))
            &&& stays(Statement::Assign(Place { local: part, projected: true }, rvalue))
        }),
{
    let to = Place { local: other, projected: false };
    lemma_push(statements, Statement::Other);
    lemma_push(statements, Statement::Assign(to, rvalue));
    lemma_push(statements, Statement::Assign(Place { local: part, projected: true }, rvalue));
}

/// The statements before the last one.
proof fn lemma_push(statements: Seq<Statement>, statement: Statement)
    ensures
        statements.push(statement).drop_last() == statements,
{
    assert(statements.push(statement).drop_last() =~= statements);
}

/// Two locals are a chain of products exactly if the first is a product of the second. It is none if
/// the first is a quotient of the second, or not related to it.
pub proof fn law_pair_is_a_chain(grid: Grid, first: Local, second: Local)
    ensures
        is_product_chain(grid, seq![first, second]) <==> grid[first as int][second as int] == Some(
            true,
        ),
{
    let pair = seq![first, second];
    assert(pair[0] == first && pair[1] == second);
    if grid[first as int][second as int] == Some(true) {
        assert forall|t: int| 0 <= t < pair.len() - 1 implies grid[#[trigger] pair[t] as int][pair[t
            + 1] as int] == Some(true) by {
            assert(t == 0);
        }
    }
}

/// Locals are a chain of products exactly if no two that follow each other are anything but product
/// and factor.
pub proof fn law_chain_breaks_at_a_pair(grid: Grid, locals: Seq<Local>)
    ensures
        !is_product_chain(grid, locals) <==> exists|t: int|
            0 <= t < locals.len() - 1 && grid[#[trigger] locals[t] as int][locals[t + 1] as int]
                != Some(true),
{
    if !is_product_chain(grid, locals) {
        let t = choose|t: int|
            0 <= t < locals.len() - 1 && grid[#[trigger] locals[t] as int][locals[t + 1] as int]
                != Some(true);
        assert(0 <= t < locals.len() - 1);
    }
}

/// Any locals of a grid may be asked for.
pub proof fn law_locals_of_a_grid_are_in_range(grid: Grid, locals: Seq<Local>)
    requires
        forall|t: int| 0 <= t < locals.len() ==> #[trigger] locals[t] < grid.len(),
    ensures
        chain_in_range(grid, locals),
{
}

/// Whether every local that a statement names is among the first `n`.
pub open spec fn names_locals_below(statement: Statement, n: nat) -> bool {
    let operand = |operand: Operand|
        match operand {
            Operand::Copy(place) => place.local < n,
            Operand::Move(place) => place.local < n,
            Operand::Constant(_) => true,
        };
    match statement {
        Statement::Assign(place, rvalue) => {
            &&& place.local < n
            &&& match rvalue {
                Rvalue::Use(read) => operand(read),
                Rvalue::Cast(_, read) => operand(read),
                Rvalue::BinaryOp(_, left, right) => operand(left) && operand(right),
                Rvalue::Other => true,
            }
        },
        Statement::Other => true,
    }
}

/// A body may be read if its statements name only locals that it declares.
pub proof fn law_declared_locals_are_in_range(body: Body)
    requires
        forall|b: int, s: int|
            0 <= b < body.basic_blocks.len() && 0 <= s < body.basic_blocks[b].statements.len()
                ==> names_locals_below(
                #[trigger] body.basic_blocks[b].statements[s],
                body.local_decls.len() as nat,
            ),
    ensures
        locals_in_range(body),
{
    let n = body.local_decls.len() as nat;
    assert forall|b: int, s: int|
        0 <= b < body.basic_blocks.len() && 0 <= s < body.basic_blocks[b].statements.len()
        implies statement_in_range(#[trigger] body.basic_blocks[b].statements[s], n) by {
        let statement = body.basic_blocks[b].statements[s];
        assert(names_locals_below(statement, n));
        assert forall|e: int| 0 <= e < statement_edges(statement).len() implies (
        #[trigger] statement_edges(statement)[e]).result < n && statement_edges(statement)[e].source
            < n by {}
    }
}

} // verus!
