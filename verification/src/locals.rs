//! What is known of the locals of a body, and the predicates on it.
use vstd::prelude::*;

use crate::debug_entries::{
    in_blocks, known_flags, known_in_grid, list_blocks, list_flags, list_rows, DebugEntries,
};
use crate::forward::{AnalysisSteps, PathForwardAnalysisConfig};
use crate::index_vec::{
    flags, flags_from_elem_n, flags_index, flags_index_mut, flags_len, rows, rows_fit, rows_index,
    FlagRows, Flags,
};
use crate::internval_analysis::{
    const_value, constant_fits, eq_const_mirsa, fits_i128, gt_const_mirsa, index_in_bounds_mirsa,
    index_is_known, internval_can_run, internval_can_yield, lt_const_mirsa, run_internval, shows_eq,
    shows_gt, shows_in_bounds, shows_lt, InternvalState,
};
use crate::mir::{
    statements_of, Body, CastKind, Const, FloatCast, Local, Location, Operand, Rvalue, Scalar,
    ScalarInt, Statement,
};
use crate::null_analysis::{is_null_mirsa, null_can_run, null_can_yield, run_null, NullPtr};
use crate::relation::{
    close_products, direct_grid, edges_in_range, edges_of, identity_rows, is_square,
    lemma_direct_grid_append, product_grid, record_products, statement_edges, Grid,
};
use crate::relation_laws::law_product_grid_is_square;
use crate::value::{
    casts_floats, gives_casts, scalar_is_null, scalar_value, value_of, FloatCasts, Value,
};

verus! {

/// The right-hand side that a statement assigns to a local as a whole, if it assigns one.
pub open spec fn assigned_rvalue(statement: Statement, local: Local) -> Option<Rvalue> {
    match statement {
        Statement::Assign(place, rvalue) => if place.whole_local() == Some(local) {
            Some(rvalue)
        } else {
            None
        },
        Statement::Other => None,
    }
}

/// The operand that a right-hand side passes on, and how it is cast, if it passes one on.
pub open spec fn passed_on(rvalue: Rvalue) -> Option<(CastKind, Operand)> {
    match rvalue {
        Rvalue::Use(operand) => Some((CastKind::Keep, operand)),
        Rvalue::Cast(kind, operand) => Some((kind, operand)),
        _ => None,
    }
}

/// The value once it has been cast, if it is known then.
pub open spec fn cast_value(
    kind: CastKind,
    value: Option<Value>,
    casts: FloatCasts,
) -> Option<Value> {
    match value {
        Some(value) => value.after_cast(kind, casts),
        None => None,
    }
}

/// The value of a local after some statements, read in order, as far as what was last assigned to
/// it shows it: a constant, or another local as a whole, possibly cast. Nothing is known after an
/// assignment of anything else. `casts` are the casts from and to floating-point numbers.
pub open spec fn value_after(
    statements: Seq<Statement>,
    local: Local,
    casts: FloatCasts,
) -> Option<Value>
    decreases statements.len(),
{
    if statements.len() == 0 {
        None
    } else {
        let before = statements.drop_last();
        match assigned_rvalue(statements.last(), local) {
            Some(rvalue) => match passed_on(rvalue) {
                Some((kind, Operand::Constant(scalar))) => cast_value(
                    kind,
                    scalar_value(scalar),
                    casts,
                ),
                Some((kind, operand)) => match operand.whole_local() {
                    Some(source) => cast_value(
                        kind,
                        value_after(before, source, casts),
                        casts,
                    ),
                    None => None,
                },
                None => None,
            },
            None => value_after(before, local, casts),
        }
    }
}

/// Whether a value is null, if that is known.
pub open spec fn value_is_null(value: Option<Value>) -> Option<bool> {
    match value {
        Some(value) => Some(value.is_zero()),
        None => None,
    }
}

/// Whether a local is null after some statements, read in order, if its value is known.
pub open spec fn null_after(
    statements: Seq<Statement>,
    local: Local,
    casts: FloatCasts,
) -> Option<bool> {
    value_is_null(value_after(statements, local, casts))
}

/// The value of a local after a statement, given those of the locals before it.
spec fn value_step(
    values: Seq<Option<Value>>,
    statement: Statement,
    local: Local,
    casts: FloatCasts,
) -> Option<Value> {
    match assigned_rvalue(statement, local) {
        Some(rvalue) => match passed_on(rvalue) {
            Some((kind, Operand::Constant(scalar))) => cast_value(
                kind,
                scalar_value(scalar),
                casts,
            ),
            Some((kind, operand)) => match operand.whole_local() {
                Some(source) => cast_value(kind, values[source as int], casts),
                None => None,
            },
            None => None,
        },
        None => values[local as int],
    }
}

/// Whether all the values that are known are valid.
spec fn values_wf(values: Seq<Option<Value>>) -> bool {
    forall|i: int|
        0 <= i < values.len() ==> (#[trigger] values[i] matches Some(value) ==> value.wf())
}

/// Whether a statement assigns a constant, possibly cast, to a local as a whole.
pub open spec fn assigns_constant(statement: Statement, local: Local) -> bool {
    match assigned_rvalue(statement, local) {
        Some(rvalue) => passed_on(rvalue) matches Some((_, Operand::Constant(_))),
        None => false,
    }
}

/// Whether the locals that a statement relates, or assigns a constant to, are among the first `n`.
pub open spec fn statement_in_range(statement: Statement, n: nat) -> bool {
    &&& edges_in_range(statement_edges(statement), n)
    &&& forall|local: Local| #[trigger] assigns_constant(statement, local) ==> local < n
}

/// Whether the locals that the statements of a body relate, or assign a constant to, are declared.
pub open spec fn locals_in_range(body: Body) -> bool {
    forall|b: int, s: int|
        0 <= b < body.basic_blocks.len() && 0 <= s < body.basic_blocks[b].statements.len()
            ==> statement_in_range(
            #[trigger] body.basic_blocks[b].statements[s],
            body.local_decls.len() as nat,
        )
}

/// A local that is passed on to another is in range if the statement is.
proof fn lemma_source_in_range(
    statement: Statement,
    local: Local,
    kind: CastKind,
    operand: Operand,
    source: Local,
    n: nat,
)
    requires
        statement_in_range(statement, n),
        assigned_rvalue(statement, local) matches Some(rvalue) && passed_on(rvalue) == Some(
            (kind, operand),
        ),
        operand.whole_local() == Some(source),
    ensures
        source < n,
        local < n,
{
    assert(statement_edges(statement)[0].source == source);
    assert(statement_edges(statement)[0].result == local);
}

/// Whether the result of the null-pointer analysis went from `before` to `after`, where it was asked
/// for: a result that was there is kept, and one that was not is what the steps of the analysis
/// yield.
pub open spec fn null_once<
    B,
    G,
    P,
    R,
    OptimizedMir: FnOnce() -> B,
    BuildCfg: FnOnce(&B) -> G,
    CollectPlaces: FnOnce(&B) -> P,
    Analyze: FnOnce(&B, &G, &P, bool, PathForwardAnalysisConfig) -> R,
>(
    before: Option<R>,
    after: Option<R>,
    steps: AnalysisSteps<OptimizedMir, BuildCfg, CollectPlaces, Analyze>,
) -> bool {
    match (before, after) {
        (Some(kept), Some(result)) => result == kept,
        (None, Some(result)) => null_can_yield(steps, result),
        (_, None) => false,
    }
}

/// Whether the result of the interval analysis went from `before` to `after`, where it was asked
/// for: a result that was there is kept, and one that was not is what the steps of the analysis
/// yield.
pub open spec fn internval_once<
    B,
    G,
    P,
    R,
    OptimizedMir: FnOnce() -> B,
    BuildCfg: FnOnce(&B) -> G,
    CollectPlaces: FnOnce(&B) -> P,
    Analyze: FnOnce(&B, &G, &P, PathForwardAnalysisConfig) -> R,
>(
    before: Option<R>,
    after: Option<R>,
    steps: AnalysisSteps<OptimizedMir, BuildCfg, CollectPlaces, Analyze>,
) -> bool {
    match (before, after) {
        (Some(kept), Some(result)) => result == kept,
        (None, Some(result)) => internval_can_yield(steps, result),
        (_, None) => false,
    }
}

/// What is known of the locals of a body. `N` and `I` are what the null-pointer analysis and the
/// interval analysis of the body result in.
pub struct BodyInfoCache<N, I> {
    /// For each local, whether it is null, if that is known.
    null: Flags,
    /// The result of the null-pointer analysis, once it has run.
    null_mirsa: Option<N>,
    /// The result of the interval analysis, once it has run.
    internval_mirsa: Option<I>,
    /// For each two locals, whether the first may be a product or a quotient of the second.
    product_of: FlagRows,
}

impl<N, I> BodyInfoCache<N, I> {
    /// For each local, whether it is null, if that is known.
    pub closed spec fn null_flags(&self) -> Seq<Option<bool>> {
        flags(self.null)
    }

    /// The result of the null-pointer analysis, once it has run.
    pub closed spec fn null_result(&self) -> Option<N> {
        self.null_mirsa
    }

    /// The result of the interval analysis, once it has run.
    pub closed spec fn internval_result(&self) -> Option<I> {
        self.internval_mirsa
    }

    /// The product relation among the locals.
    pub closed spec fn products(&self) -> Grid {
        rows(self.product_of)
    }

    /// The product relation covers the same locals as the flags.
    pub open spec fn wf(&self) -> bool {
        is_square(self.products(), self.null_flags().len())
    }

    /// Returns whether a constant of the type level is null, if that is known. The argument is the
    /// value of the constant, if it has one, and of that the scalar, if it is one.
    pub fn ty_const_is_null(value: Option<Option<Scalar>>) -> (result: Option<bool>)
        ensures
            result == (match value {
                Some(scalar) => scalar_is_null(scalar),
                None => None,
            }),
    {
        let scalar = value?;
        match scalar? {
            Scalar::Int(value) => Some(value.is_null()),
            Scalar::Ptr(_) => Some(false),
        }
    }

    /// Returns whether a constant of a body is null, if that is known. The argument is the scalar
    /// that the constant evaluates to, if it evaluates to one.
    pub fn mir_const_is_null(scalar: Option<Scalar>) -> (result: Option<bool>)
        ensures
            result == scalar_is_null(scalar),
    {
        match scalar? {
            Scalar::Int(value) => Some(value.is_null()),
            Scalar::Ptr(_) => Some(false),
        }
    }

    /// Returns values of which nothing is known.
    fn unknown_values(n: usize) -> (result: Vec<Option<Value>>)
        ensures
            result@ == Seq::new(n as nat, |i: int| None::<Value>),
    {
        let mut values: Vec<Option<Value>> = Vec::new();
        for i in 0..n
            invariant
                values@ == Seq::new(i as nat, |i: int| None::<Value>),
        {
            values.push(None);
        }
        values
    }

    /// Returns the value once it has been cast, if it is known then.
    fn cast<F: Fn(ScalarInt, FloatCast) -> Option<u128>>(
        kind: CastKind,
        value: Option<Value>,
        cast_float: &F,
    ) -> (result: Option<Value>)
        requires
            kind.wf(),
            casts_floats(*cast_float),
            value matches Some(value) ==> value.wf(),
        ensures
            forall|casts: FloatCasts| #[trigger]
                gives_casts(*cast_float, casts) ==> result == cast_value(kind, value, casts),
            result matches Some(value) ==> value.wf(),
    {
        match value {
            Some(value) => value.cast(kind, cast_float),
            None => None,
        }
    }

    /// Records what a statement says about the value of a local.
    fn record_value<F: Fn(ScalarInt, FloatCast) -> Option<u128>>(
        values: &mut Vec<Option<Value>>,
        statement: &Statement,
        cast_float: &F,
    )
        requires
            casts_floats(*cast_float),
            statement.wf(),
            statement_in_range(*statement, old(values).len() as nat),
            values_wf(old(values)@),
        ensures
            final(values).len() == old(values).len(),
            values_wf(final(values)@),
            forall|casts: FloatCasts, local: Local|
                gives_casts(*cast_float, casts) && local < old(values).len()
                    ==> final(values)[local as int] == #[trigger] value_step(
                    old(values)@,
                    *statement,
                    local,
                    casts,
                ),
    {
        if let Statement::Assign(place, rvalue) = statement {
            if let Some(lhs) = place.as_local() {
                let (kind, operand) = match rvalue {
                    Rvalue::Use(operand) => (CastKind::Keep, operand),
                    Rvalue::Cast(kind, operand) => (*kind, operand),
                    _ => {
                        Self::forget(values, lhs);
                        return;
                    },
                };
                assert(assigned_rvalue(*statement, lhs) == Some(*rvalue));
                match operand {
                    Operand::Constant(scalar) => {
                        assert(assigns_constant(*statement, lhs));
                        let known = Self::cast(kind, value_of(*scalar), cast_float);
                        values.set(lhs, known);
                    },
                    _ => match operand.as_local() {
                        Some(rhs) => {
                            proof {
                                lemma_source_in_range(
                                    *statement,
                                    lhs,
                                    kind,
                                    *operand,
                                    rhs,
                                    values.len() as nat,
                                );
                            }
                            let known = Self::cast(kind, values[rhs], cast_float);
                            values.set(lhs, known);
                        },
                        None => Self::forget(values, lhs),
                    },
                }
            }
        }
    }

    /// Records that nothing is known of a local. A local that has no entry stays without.
    fn forget(values: &mut Vec<Option<Value>>, local: Local)
        ensures
            final(values)@ == (if local < old(values).len() {
                old(values)@.update(local as int, None)
            } else {
                old(values)@
            }),
    {
        if local < values.len() {
            values.set(local, None);
        }
    }

    /// Returns which of the locals are null, if that is known, given what is known of their values.
    fn null_of(values: &Vec<Option<Value>>) -> (result: Flags)
        requires
            values.len() <= isize::MAX,
        ensures
            flags(result) == Seq::new(values.len() as nat, |i: int| value_is_null(values[i])),
    {
        let mut null = flags_from_elem_n(None, values.len());
        for local in 0..values.len()
            invariant
                flags(null).len() == values.len(),
                forall|l: int|
                    0 <= l < local ==> #[trigger] flags(null)[l] == value_is_null(values[l]),
        {
            let known = match &values[local] {
                Some(value) => Some(value.is_null()),
                None => None,
            };
            flags_index_mut(&mut null, local, known);
        }
        assert(flags(null) =~= Seq::new(values.len() as nat, |i: int| value_is_null(values[i])));
        null
    }

    /// Reads the statements of a body, block by block, and records which locals are null and how
    /// the locals relate. `cast_float` gives the bits of a scalar that is cast from or to a
    /// floating-point number, if it knows them. No analysis has run yet.
    pub fn new<F: Fn(ScalarInt, FloatCast) -> Option<u128>>(body: &Body, cast_float: F) -> (result:
        Self)
        requires
            casts_floats(cast_float),
            body.wf(),
            rows_fit(body.local_decls.len() as nat),
            locals_in_range(*body),
        ensures
            result.wf(),
            result.null_flags().len() == body.local_decls.len(),
            forall|casts: FloatCasts| #[trigger]
                gives_casts(cast_float, casts) ==> result.null_flags() == Seq::new(
                    body.local_decls.len() as nat,
                    |i: int| null_after(body.statements(), i as usize, casts),
                ),
            result.products() == product_grid(body.statements(), body.local_decls.len() as nat),
            result.null_result() is None,
            result.internval_result() is None,
    {
        let n = body.local_decls.len();
        let mut values = Self::unknown_values(n);
        let mut product_of = identity_rows(n);
        let ghost mut done: Seq<Statement> = Seq::empty();
        for b in 0..body.basic_blocks.len()
            invariant
                n == body.local_decls.len(),
                casts_floats(cast_float),
                body.wf(),
                locals_in_range(*body),
                done == statements_of(body.basic_blocks@.take(b as int)),
                values.len() == n,
                values_wf(values@),
                forall|casts: FloatCasts, l: Local|
                    gives_casts(cast_float, casts) && l < n ==> values[l as int]
                        == #[trigger] value_after(done, l, casts),
                rows(product_of) == direct_grid(edges_of(done), n as nat),
        {
            let block = &body.basic_blocks[b];
            let ghost before = done;
            for s in 0..block.statements.len()
                invariant
                    n == body.local_decls.len(),
                    b < body.basic_blocks.len(),
                    *block == body.basic_blocks[b as int],
                    casts_floats(cast_float),
                    body.wf(),
                    locals_in_range(*body),
                    done == before + block.statements@.take(s as int),
                    values.len() == n,
                    values_wf(values@),
                    forall|casts: FloatCasts, l: Local|
                        gives_casts(cast_float, casts) && l < n ==> values[l as int]
                            == #[trigger] value_after(done, l, casts),
                    rows(product_of) == direct_grid(edges_of(done), n as nat),
            {
                let statement = &block.statements[s];
                let ghost grown = done.push(*statement);
                proof {
                    assert(body.basic_blocks[b as int].statements[s as int] == *statement);
                    assert(grown.drop_last() =~= done);
                    assert(before + block.statements@.take(s + 1) =~= grown);
                    lemma_direct_grid_append(
                        edges_of(done),
                        statement_edges(*statement),
                        n as nat,
                    );
                }
                let ghost known = values;
                Self::record_value(&mut values, statement, &cast_float);
                record_products(&mut product_of, statement);
                proof {
                    assert forall|casts: FloatCasts, l: Local|
                        gives_casts(cast_float, casts) && l < n implies values[l as int]
                        == #[trigger] value_after(grown, l, casts) by {
                        assert(values[l as int] == value_step(known@, *statement, l, casts));
                        assert(known[l as int] == value_after(done, l, casts));
                        if let Some(rvalue) = assigned_rvalue(*statement, l) {
                            if let Some((kind, operand)) = passed_on(rvalue) {
                                if let Some(source) = operand.whole_local() {
                                    lemma_source_in_range(
                                        *statement,
                                        l,
                                        kind,
                                        operand,
                                        source,
                                        n as nat,
                                    );
                                    assert(known[source as int] == value_after(
                                        done,
                                        source,
                                        casts,
                                    ));
                                }
                            }
                        }
                    }
                    done = grown;
                }
            }
            proof {
                assert(block.statements@.take(block.statements.len() as int) =~= block.statements@);
                assert(body.basic_blocks@.take(b + 1).drop_last() =~= body.basic_blocks@.take(
                    b as int,
                ));
            }
        }
        proof {
            assert(body.basic_blocks@.take(body.basic_blocks.len() as int)
                =~= body.basic_blocks@);
            law_product_grid_is_square(done, n as nat);
        }
        close_products(&mut product_of, n);
        let null = Self::null_of(&values);
        proof {
            assert forall|casts: FloatCasts| #[trigger]
                gives_casts(cast_float, casts) implies flags(null) == Seq::new(
                n as nat,
                |i: int| null_after(done, i as usize, casts),
            ) by {
                assert forall|i: int| 0 <= i < n implies #[trigger] flags(null)[i] == null_after(
                    done,
                    i as usize,
                    casts,
                ) by {
                    assert(values[i as usize as int] == value_after(done, i as usize, casts));
                }
            }
        }
        BodyInfoCache { null, null_mirsa: None, internval_mirsa: None, product_of }
    }

    /// Returns the result of the null-pointer analysis. The steps of the analysis are
    /// taken only where it has not run yet, and its result is kept.
    pub fn null_mirsa<
        B,
        G,
        P,
        OptimizedMir: FnOnce() -> B,
        BuildCfg: FnOnce(&B) -> G,
        CollectPlaces: FnOnce(&B) -> P,
        Analyze: FnOnce(&B, &G, &P, bool, PathForwardAnalysisConfig) -> N,
    >(
        &mut self,
        steps: AnalysisSteps<OptimizedMir, BuildCfg, CollectPlaces, Analyze>,
    ) -> (result: &N)
        requires
            old(self).null_result() is None ==> null_can_run(steps),
        ensures
            final(self).null_result() == Some(*result),
            null_once(old(self).null_result(), final(self).null_result(), steps),
            final(self).null_flags() == old(self).null_flags(),
            final(self).products() == old(self).products(),
            final(self).internval_result() == old(self).internval_result(),
    {
        if self.null_mirsa.is_none() {
            self.null_mirsa = Some(run_null(steps));
        }
        self.null_mirsa.as_ref().unwrap()
    }

    /// Returns the result of the interval analysis. The steps of the analysis are taken
    /// only where it has not run yet, and its result is kept.
    pub fn internval_mirsa<
        B,
        G,
        P,
        OptimizedMir: FnOnce() -> B,
        BuildCfg: FnOnce(&B) -> G,
        CollectPlaces: FnOnce(&B) -> P,
        Analyze: FnOnce(&B, &G, &P, PathForwardAnalysisConfig) -> I,
    >(
        &mut self,
        steps: AnalysisSteps<OptimizedMir, BuildCfg, CollectPlaces, Analyze>,
    ) -> (result: &I)
        requires
            old(self).internval_result() is None ==> internval_can_run(steps),
        ensures
            final(self).internval_result() == Some(*result),
            internval_once(old(self).internval_result(), final(self).internval_result(), steps),
            final(self).null_flags() == old(self).null_flags(),
            final(self).products() == old(self).products(),
            final(self).null_result() == old(self).null_result(),
    {
        if self.internval_mirsa.is_none() {
            self.internval_mirsa = Some(run_internval(steps));
        }
        self.internval_mirsa.as_ref().unwrap()
    }

    /// Returns what a debug listing of the cache shows. `null_states` and `internval_states` give
    /// what an analysis has at the end of each block: for each place of which something is known,
    /// the local at which it starts and the text of what is known.
    pub fn debug_entries<
        NullStates: FnOnce(&N) -> Vec<Vec<(Local, String)>>,
        InternvalStates: FnOnce(&I) -> Vec<Vec<(Local, String)>>,
    >(&self, null_states: NullStates, internval_states: InternvalStates) -> (result: DebugEntries)
        requires
            self.wf(),
            self.null_result() matches Some(analysis) ==> null_states.requires((&analysis,)),
            self.internval_result() matches Some(analysis) ==> internval_states.requires(
                (&analysis,),
            ),
        ensures
            result.null@ == known_flags(self.null_flags()),
            match (self.null_result(), result.null_mirsa) {
                (Some(analysis), Some(entries)) => exists|blocks: Vec<Vec<(Local, String)>>|
                    #[trigger] null_states.ensures((&analysis,), blocks) && entries@ == in_blocks(
                        blocks@,
                    ),
                (None, None) => true,
                _ => false,
            },
            match (self.internval_result(), result.internval_mirsa) {
                (Some(analysis), Some(entries)) => exists|blocks: Vec<Vec<(Local, String)>>|
                    #[trigger] internval_states.ensures((&analysis,), blocks) && entries@
                        == in_blocks(blocks@),
                (None, None) => true,
                _ => false,
            },
            result.product_of@ == known_in_grid(self.products()),
    {
        let null = list_flags(&self.null);
        let null_mirsa = match &self.null_mirsa {
            Some(analysis) => Some(list_blocks(&null_states(analysis))),
            None => None,
        };
        let internval_mirsa = match &self.internval_mirsa {
            Some(analysis) => Some(list_blocks(&internval_states(analysis))),
            None => None,
        };
        let product_of = list_rows(&self.product_of, flags_len(&self.null));
        DebugEntries { null, null_mirsa, internval_mirsa, product_of }
    }
}

/// Returns whether a local is null.
pub fn is_null<N, I>(cache: &BodyInfoCache<N, I>, local: Local) -> (result: bool)
    requires
        local < cache.null_flags().len(),
    ensures
        result == (cache.null_flags()[local as int] == Some(true)),
{
    match flags_index(&cache.null, local) {
        Some(null) => null,
        None => false,
    }
}

/// Returns whether the null-pointer analysis knows a local to be null before a location. The
/// analysis runs if it has not run yet.
pub fn is_null_mirsa_pred<
    N,
    I,
    S,
    B,
    G,
    P,
    OptimizedMir: FnOnce() -> B,
    BuildCfg: FnOnce(&B) -> G,
    CollectPlaces: FnOnce(&B) -> P,
    Analyze: FnOnce(&B, &G, &P, bool, PathForwardAnalysisConfig) -> N,
    Q: FnOnce(&N, Location) -> Option<S>,
    V: FnOnce(&S, Local) -> Option<NullPtr>,
>(
    cache: &mut BodyInfoCache<N, I>,
    location: Location,
    local: Local,
    steps: AnalysisSteps<OptimizedMir, BuildCfg, CollectPlaces, Analyze>,
    query: Q,
    value: V,
) -> (result: bool)
    requires
        old(cache).null_result() is None ==> null_can_run(steps),
        forall|analysis: N| #[trigger]
            null_once(old(cache).null_result(), Some(analysis), steps) ==> query.requires(
                (&analysis, location),
            ),
        forall|analysis: N, state: S|
            null_once(old(cache).null_result(), Some(analysis), steps)
                && #[trigger] query.ensures((&analysis, location), Some(state)) ==> value.requires(
                (&state, local),
            ),
    ensures
        null_once(old(cache).null_result(), final(cache).null_result(), steps),
        final(cache).null_flags() == old(cache).null_flags(),
        final(cache).products() == old(cache).products(),
        final(cache).internval_result() == old(cache).internval_result(),
        result ==> exists|state: S| #[trigger]
            query.ensures((&final(cache).null_result()->0, location), Some(state))
                && value.ensures((&state, local), Some(NullPtr::Null)),
        !result ==> query.ensures((&final(cache).null_result()->0, location), None) || exists|
            state: S,
            known: Option<NullPtr>,
        |
            query.ensures((&final(cache).null_result()->0, location), Some(state))
                && #[trigger] value.ensures((&state, local), known) && known != Some(
                NullPtr::Null,
            ),
{
    is_null_mirsa(cache.null_mirsa(steps), location, local, query, value)
}

/// Returns whether the interval analysis shows a local to be equal to a constant before a
/// location. The analysis runs if it has not run yet. It counts no further than the largest `i128`,
/// so it shows no local to be equal to a larger constant.
pub fn eq_const<
    N,
    I,
    B,
    G,
    P,
    OptimizedMir: FnOnce() -> B,
    BuildCfg: FnOnce(&B) -> G,
    CollectPlaces: FnOnce(&B) -> P,
    Analyze: FnOnce(&B, &G, &P, PathForwardAnalysisConfig) -> I,
    Q: FnOnce(&I, Location) -> Option<InternvalState>,
>(
    cache: &mut BodyInfoCache<N, I>,
    location: Location,
    local: Local,
    konst: &Const,
    steps: AnalysisSteps<OptimizedMir, BuildCfg, CollectPlaces, Analyze>,
    query: Q,
) -> (result: bool)
    requires
        konst.wf(),
        old(cache).internval_result() is None ==> internval_can_run(steps),
        forall|analysis: I| #[trigger]
            internval_once(old(cache).internval_result(), Some(analysis), steps) && const_value(
                *konst,
            ) is Some ==> query.requires((&analysis, location)),
    ensures
        internval_once(old(cache).internval_result(), final(cache).internval_result(), steps),
        final(cache).null_flags() == old(cache).null_flags(),
        final(cache).products() == old(cache).products(),
        final(cache).null_result() == old(cache).null_result(),
        const_value(*konst) is None ==> !result,
        const_value(*konst) matches Some(expected) ==> exists|state: Option<InternvalState>|
            #[trigger] query.ensures((&final(cache).internval_result()->0, location), state)
                && result == (constant_fits(*konst) && shows_eq(state, local, expected)),
{
    let shown = eq_const_mirsa(cache.internval_mirsa(steps), location, local, konst, query);
    shown && fits_i128(konst)
}

/// Returns whether the interval analysis shows a local to be less than a constant before a
/// location. The analysis runs if it has not run yet.
pub fn lt_const<
    N,
    I,
    B,
    G,
    P,
    OptimizedMir: FnOnce() -> B,
    BuildCfg: FnOnce(&B) -> G,
    CollectPlaces: FnOnce(&B) -> P,
    Analyze: FnOnce(&B, &G, &P, PathForwardAnalysisConfig) -> I,
    Q: FnOnce(&I, Location) -> Option<InternvalState>,
>(
    cache: &mut BodyInfoCache<N, I>,
    location: Location,
    local: Local,
    konst: &Const,
    steps: AnalysisSteps<OptimizedMir, BuildCfg, CollectPlaces, Analyze>,
    query: Q,
) -> (result: bool)
    requires
        konst.wf(),
        old(cache).internval_result() is None ==> internval_can_run(steps),
        forall|analysis: I| #[trigger]
            internval_once(old(cache).internval_result(), Some(analysis), steps) && const_value(
                *konst,
            ) is Some ==> query.requires((&analysis, location)),
    ensures
        internval_once(old(cache).internval_result(), final(cache).internval_result(), steps),
        final(cache).null_flags() == old(cache).null_flags(),
        final(cache).products() == old(cache).products(),
        final(cache).null_result() == old(cache).null_result(),
        const_value(*konst) is None ==> !result,
        const_value(*konst) matches Some(expected) ==> exists|state: Option<InternvalState>|
            #[trigger] query.ensures((&final(cache).internval_result()->0, location), state)
                && result == shows_lt(state, local, expected),
{
    lt_const_mirsa(cache.internval_mirsa(steps), location, local, konst, query)
}

/// Returns whether the interval analysis shows a local to be greater than a constant before a
/// location. The analysis runs if it has not run yet.
pub fn gt_const<
    N,
    I,
    B,
    G,
    P,
    OptimizedMir: FnOnce() -> B,
    BuildCfg: FnOnce(&B) -> G,
    CollectPlaces: FnOnce(&B) -> P,
    Analyze: FnOnce(&B, &G, &P, PathForwardAnalysisConfig) -> I,
    Q: FnOnce(&I, Location) -> Option<InternvalState>,
>(
    cache: &mut BodyInfoCache<N, I>,
    location: Location,
    local: Local,
    konst: &Const,
    steps: AnalysisSteps<OptimizedMir, BuildCfg, CollectPlaces, Analyze>,
    query: Q,
) -> (result: bool)
    requires
        konst.wf(),
        old(cache).internval_result() is None ==> internval_can_run(steps),
        forall|analysis: I| #[trigger]
            internval_once(old(cache).internval_result(), Some(analysis), steps) && const_value(
                *konst,
            ) is Some ==> query.requires((&analysis, location)),
    ensures
        internval_once(old(cache).internval_result(), final(cache).internval_result(), steps),
        final(cache).null_flags() == old(cache).null_flags(),
        final(cache).products() == old(cache).products(),
        final(cache).null_result() == old(cache).null_result(),
        const_value(*konst) is None ==> !result,
        const_value(*konst) matches Some(expected) ==> exists|state: Option<InternvalState>|
            #[trigger] query.ensures((&final(cache).internval_result()->0, location), state)
                && result == shows_gt(state, local, expected),
{
    gt_const_mirsa(cache.internval_mirsa(steps), location, local, konst, query)
}

/// Returns whether the interval analysis shows an index to be in bounds of an array or a slice
/// before a location. The analysis runs if it has not run yet.
pub fn index_in_bounds<
    N,
    I,
    B,
    G,
    P,
    OptimizedMir: FnOnce() -> B,
    BuildCfg: FnOnce(&B) -> G,
    CollectPlaces: FnOnce(&B) -> P,
    Analyze: FnOnce(&B, &G, &P, PathForwardAnalysisConfig) -> I,
    Q: FnOnce(&I, Location) -> Option<InternvalState>,
>(
    body: &Body,
    cache: &mut BodyInfoCache<N, I>,
    location: Location,
    arr_local: Local,
    idx_local: Local,
    steps: AnalysisSteps<OptimizedMir, BuildCfg, CollectPlaces, Analyze>,
    query: Q,
) -> (result: bool)
    requires
        old(cache).internval_result() is None ==> internval_can_run(steps),
        forall|analysis: I| #[trigger]
            internval_once(old(cache).internval_result(), Some(analysis), steps)
                ==> query.requires((&analysis, location)),
        forall|analysis: I, state: Option<InternvalState>|
            internval_once(old(cache).internval_result(), Some(analysis), steps)
                && #[trigger] query.ensures((&analysis, location), state) && index_is_known(
                state,
                idx_local,
            ) ==> arr_local < body.local_decls.len(),
    ensures
        internval_once(old(cache).internval_result(), final(cache).internval_result(), steps),
        final(cache).null_flags() == old(cache).null_flags(),
        final(cache).products() == old(cache).products(),
        final(cache).null_result() == old(cache).null_result(),
        exists|state: Option<InternvalState>| #[trigger]
            query.ensures((&final(cache).internval_result()->0, location), state) && result
                == shows_in_bounds(*body, state, arr_local, idx_local),
{
    index_in_bounds_mirsa(
        body,
        cache.internval_mirsa(steps),
        location,
        arr_local,
        idx_local,
        query,
    )
}

/// Whether each local is a product of the next one, as far as a grid says.
pub open spec fn is_product_chain(grid: Grid, locals: Seq<Local>) -> bool {
    forall|t: int|
        0 <= t < locals.len() - 1 ==> grid[#[trigger] locals[t] as int][locals[t + 1] as int]
            == Some(true)
}

/// Whether two locals that follow each other are both in a grid, wherever all before them are each
/// a product of the next one.
pub open spec fn chain_in_range(grid: Grid, locals: Seq<Local>) -> bool {
    forall|t: int|
        0 <= t < locals.len() - 1 && is_product_chain(grid, #[trigger] locals.take(t + 1))
            ==> locals[t] < grid.len() && locals[t + 1] < grid.len()
}

/// Returns whether each local is a product of the next one. The pairs are looked at in order, up to
/// the first of which it does not hold.
pub fn product_of<N, I>(cache: &BodyInfoCache<N, I>, locals: Vec<Local>) -> (result: bool)
    requires
        cache.wf(),
        chain_in_range(cache.products(), locals@),
    ensures
        result == is_product_chain(cache.products(), locals@),
{
    let mut t: usize = 0;
    while t + 1 < locals.len()
        invariant
            cache.wf(),
            locals.len() == 0 ==> t == 0,
            locals.len() > 0 ==> t < locals.len(),
            chain_in_range(cache.products(), locals@),
            forall|s: int|
                0 <= s < t ==> cache.products()[#[trigger] locals[s] as int][locals[s + 1] as int]
                    == Some(true),
        decreases locals.len() - t,
    {
        proof {
            let head = locals@.take(t + 1);
            let grid = cache.products();
            assert forall|s: int| 0 <= s < head.len() - 1 implies grid[#[trigger] head[s] as int][
                head[s + 1] as int] == Some(true) by {
                assert(head[s] == locals[s] && head[s + 1] == locals[s + 1]);
            }
            assert(locals[t as int] < cache.null_flags().len());
        }
        let first = locals[t];
        let second = locals[t + 1];
        let product = match rows_index(&cache.product_of, first, second) {
            Some(product) => product,
            None => false,
        };
        if !product {
            assert(cache.products()[locals[t as int] as int][locals[t + 1] as int] != Some(true));
            return false;
        }
        t += 1;
    }
    true
}

} // verus!
