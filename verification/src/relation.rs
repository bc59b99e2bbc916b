//! The product relation among the locals of a body.
//!
//! A statement that computes one local from another as a whole relates the two: the result is a
//! product of the source, or a quotient of it where the source is a divisor. The relation is then
//! closed under chaining. A grid holds it: the flag at row `i` and column `k` is `Some(true)` if
//! `i` may be a product of `k`, `Some(false)` if `i` may be a quotient of `k`, and `None` if the
//! two are not related.
use vstd::prelude::*;

use crate::index_vec::{rows, rows_fit, rows_from_fn_n, rows_index, rows_index_mut, FlagRows};
use crate::mir::{BinOp, Local, Operand, Rvalue, Statement};

verus! {

/// A grid of flags, row by row.
pub type Grid = Seq<Seq<Option<bool>>>;

/// One local computed from another.
pub struct Edge {
    /// The local that is computed.
    pub result: Local,
    /// The local that it is computed from.
    pub source: Local,
    /// Whether the result is a product of the source; otherwise it is a quotient.
    pub product: bool,
}

/// The edge from a result to an operand, if the operand reads a whole local.
pub open spec fn operand_edges(result: Local, operand: Operand, product: bool) -> Seq<Edge> {
    match operand.whole_local() {
        Some(source) => seq![Edge { result, source, product }],
        None => Seq::empty(),
    }
}

/// Whether an operator yields a product of both operands. Sums and differences count as products.
pub open spec fn is_product_op(op: BinOp) -> bool {
    match op {
        BinOp::Div => false,
        BinOp::Other => false,
        _ => true,
    }
}

/// The edges from a result to what its right-hand side reads.
pub open spec fn rvalue_edges(result: Local, rvalue: Rvalue) -> Seq<Edge> {
    match rvalue {
        Rvalue::Use(operand) => operand_edges(result, operand, true),
        Rvalue::Cast(_, operand) => operand_edges(result, operand, true),
        Rvalue::BinaryOp(op, left, right) => if is_product_op(op) {
            operand_edges(result, left, true) + operand_edges(result, right, true)
        } else if op == BinOp::Div {
            operand_edges(result, left, true) + operand_edges(result, right, false)
        } else {
            Seq::empty()
        },
        Rvalue::Other => Seq::empty(),
    }
}

/// The edges that a statement makes. Only an assignment to a whole local makes any.
pub open spec fn statement_edges(statement: Statement) -> Seq<Edge> {
    match statement {
        Statement::Assign(place, rvalue) => match place.whole_local() {
            Some(result) => rvalue_edges(result, rvalue),
            None => Seq::empty(),
        },
        Statement::Other => Seq::empty(),
    }
}

/// The edges that some statements make, in order.
pub open spec fn edges_of(statements: Seq<Statement>) -> Seq<Edge>
    decreases statements.len(),
{
    if statements.len() == 0 {
        Seq::empty()
    } else {
        edges_of(statements.drop_last()) + statement_edges(statements.last())
    }
}

/// What the last edge from `i` to `k` says, if there is one.
pub open spec fn last_edge(edges: Seq<Edge>, i: int, k: int) -> Option<bool>
    decreases edges.len(),
{
    if edges.len() == 0 {
        None
    } else if edges.last().result == i && edges.last().source == k {
        Some(edges.last().product)
    } else {
        last_edge(edges.drop_last(), i, k)
    }
}

/// How `i` relates to `k` before chaining: as the last edge between them says. Without one, a local
/// is a product of itself, and of no other.
pub open spec fn direct_flag(edges: Seq<Edge>, i: int, k: int) -> Option<bool> {
    match last_edge(edges, i, k) {
        Some(product) => Some(product),
        None => if i == k {
            Some(true)
        } else {
            None
        },
    }
}

/// The grid of `n` locals before chaining.
pub open spec fn direct_grid(edges: Seq<Edge>, n: nat) -> Grid {
    Seq::new(n, |i: int| Seq::new(n, |k: int| direct_flag(edges, i, k)))
}

/// One relation chained to another: two products or two quotients make a product.
pub open spec fn chain(first: Option<bool>, second: Option<bool>) -> Option<bool> {
    match (first, second) {
        (Some(a), Some(b)) => Some(a == b),
        _ => None,
    }
}

/// `first` chained to `second`, or `other` where the two do not chain.
pub open spec fn chain_or(first: Option<bool>, second: Option<bool>, other: Option<bool>) -> Option<
    bool,
> {
    match chain(first, second) {
        Some(flag) => Some(flag),
        None => other,
    }
}

/// The flag of `i` and `k` once the relations have been chained through `j`.
///
/// Row `j` and column `j` are chained through `j` as well: what comes after them in the order of
/// rows and columns sees them chained.
pub open spec fn round_flag(grid: Grid, j: int, i: int, k: int) -> Option<bool> {
    if i == k {
        grid[i][k]
    } else {
        let first = if i != j && j < k {
            chain_or(grid[i][j], grid[j][j], grid[i][j])
        } else {
            grid[i][j]
        };
        let second = if k != j && j < i {
            chain_or(grid[j][j], grid[j][k], grid[j][k])
        } else {
            grid[j][k]
        };
        chain_or(first, second, grid[i][k])
    }
}

/// The grid once the relations have been chained through `j`.
pub open spec fn round(grid: Grid, j: int) -> Grid {
    Seq::new(grid.len(), |i: int| Seq::new(grid.len(), |k: int| round_flag(grid, j, i, k)))
}

/// The grid once the relations have been chained through the first `count` locals.
pub open spec fn rounds(grid: Grid, count: nat) -> Grid
    decreases count,
{
    if count == 0 {
        grid
    } else {
        round(rounds(grid, (count - 1) as nat), count - 1)
    }
}

/// The product relation among `n` locals that the statements make.
pub open spec fn product_grid(statements: Seq<Statement>, n: nat) -> Grid {
    rounds(direct_grid(edges_of(statements), n), n)
}

/// Whether a grid has `n` rows of `n` flags.
pub open spec fn is_square(grid: Grid, n: nat) -> bool {
    &&& grid.len() == n
    &&& forall|i: int| 0 <= i < n ==> (#[trigger] grid[i]).len() == n
}

/// A grid with the flags that the edges set, each as the last edge between its two locals says.
pub open spec fn with_edges(grid: Grid, edges: Seq<Edge>) -> Grid {
    Seq::new(
        grid.len(),
        |i: int|
            Seq::new(
                grid[i].len(),
                |k: int|
                    match last_edge(edges, i, k) {
                        Some(product) => Some(product),
                        None => grid[i][k],
                    },
            ),
    )
}

/// Whether every edge runs between two of the first `n` locals.
pub open spec fn edges_in_range(edges: Seq<Edge>, n: nat) -> bool {
    forall|e: int|
        0 <= e < edges.len() ==> (#[trigger] edges[e]).result < n && edges[e].source < n
}

/// What the last edge says when some edges come after others: what the later ones say, if they say
/// anything.
proof fn lemma_last_edge_append(before: Seq<Edge>, after: Seq<Edge>, i: int, k: int)
    ensures
        last_edge(before + after, i, k) == (match last_edge(after, i, k) {
            Some(product) => Some(product),
            None => last_edge(before, i, k),
        }),
    decreases after.len(),
{
    if after.len() == 0 {
        assert(before + after =~= before);
    } else {
        assert((before + after).drop_last() =~= before + after.drop_last());
        lemma_last_edge_append(before, after.drop_last(), i, k);
    }
}

/// Setting the flags of further edges in the direct grid gives the direct grid of all the edges.
pub(crate) proof fn lemma_direct_grid_append(before: Seq<Edge>, after: Seq<Edge>, n: nat)
    ensures
        with_edges(direct_grid(before, n), after) == direct_grid(before + after, n),
{
    let left = with_edges(direct_grid(before, n), after);
    let right = direct_grid(before + after, n);
    assert forall|i: int| 0 <= i < n implies left[i] == right[i] by {
        assert forall|k: int| 0 <= k < n implies left[i][k] == right[i][k] by {
            lemma_last_edge_append(before, after, i, k);
        }
        assert(left[i] =~= right[i]);
    }
    assert(left =~= right);
}

/// Makes the grid of `n` locals in which every local is a product of itself, and of no other.
pub(crate) fn identity_rows(n: usize) -> (result: FlagRows)
    requires
        rows_fit(n as nat),
    ensures
        rows(result) == direct_grid(Seq::empty(), n as nat),
{
    let mut products = rows_from_fn_n(n);
    for i in 0..n
        invariant
            is_square(rows(products), n as nat),
            forall|a: int, b: int|
                0 <= a < n && 0 <= b < n ==> #[trigger] rows(products)[a][b] == (if a == b && a < i {
                    Some(true)
                } else {
                    None
                }),
    {
        rows_index_mut(&mut products, i, i, Some(true));
    }
    proof {
        let identity = direct_grid(Seq::empty(), n as nat);
        assert forall|a: int| 0 <= a < n implies rows(products)[a] == identity[a] by {
            assert(rows(products)[a] =~= identity[a]);
        }
        assert(rows(products) =~= identity);
    }
    products
}

/// Sets the flag of an operand, if the operand reads a whole local.
fn record_operand(products: &mut FlagRows, result: Local, operand: &Operand, product: bool)
    requires
        is_square(rows(*old(products)), rows(*old(products)).len()),
        edges_in_range(
            operand_edges(result, *operand, product),
            rows(*old(products)).len(),
        ),
    ensures
        rows(*final(products)) == with_edges(
            rows(*old(products)),
            operand_edges(result, *operand, product),
        ),
{
    let ghost edges = operand_edges(result, *operand, product);
    let ghost grid = rows(*products);
    match operand.as_local() {
        Some(source) => {
            assert(edges[0].result == result && edges[0].source == source);
            rows_index_mut(products, result, source, Some(product));
            proof {
                reveal_with_fuel(last_edge, 2);
                let wanted = with_edges(grid, edges);
                assert forall|i: int| 0 <= i < grid.len() implies rows(*products)[i] == wanted[i] by {
                    assert(rows(*products)[i] =~= wanted[i]);
                }
                assert(rows(*products) =~= wanted);
            }
        },
        None => {
            proof {
                let wanted = with_edges(grid, edges);
                assert forall|i: int| 0 <= i < grid.len() implies grid[i] == wanted[i] by {
                    assert(grid[i] =~= wanted[i]);
                }
                assert(grid =~= wanted);
            }
        },
    }
}

/// Setting the flags of some edges and then of others sets the flags of all of them.
proof fn lemma_with_edges_append(grid: Grid, before: Seq<Edge>, after: Seq<Edge>)
    ensures
        with_edges(with_edges(grid, before), after) == with_edges(grid, before + after),
{
    let left = with_edges(with_edges(grid, before), after);
    let right = with_edges(grid, before + after);
    assert forall|i: int| 0 <= i < grid.len() implies left[i] == right[i] by {
        assert forall|k: int| 0 <= k < grid[i].len() implies left[i][k] == right[i][k] by {
            lemma_last_edge_append(before, after, i, k);
        }
        assert(left[i] =~= right[i]);
    }
    assert(left =~= right);
}

/// Setting the flags of no edge changes nothing.
proof fn lemma_with_no_edges(grid: Grid)
    ensures
        with_edges(grid, Seq::empty()) == grid,
{
    let same = with_edges(grid, Seq::empty());
    assert forall|i: int| 0 <= i < grid.len() implies same[i] == grid[i] by {
        assert(same[i] =~= grid[i]);
    }
    assert(same =~= grid);
}

/// Sets the flags of the two operands of a binary operation, one after the other.
fn record_operands(
    products: &mut FlagRows,
    result: Local,
    left: &Operand,
    right: &Operand,
    right_product: bool,
)
    requires
        is_square(rows(*old(products)), rows(*old(products)).len()),
        edges_in_range(
            operand_edges(result, *left, true) + operand_edges(result, *right, right_product),
            rows(*old(products)).len(),
        ),
    ensures
        rows(*final(products)) == with_edges(
            rows(*old(products)),
            operand_edges(result, *left, true) + operand_edges(result, *right, right_product),
        ),
{
    let ghost grid = rows(*products);
    let ghost before = operand_edges(result, *left, true);
    let ghost after = operand_edges(result, *right, right_product);
    proof {
        assert forall|e: int| 0 <= e < before.len() implies (#[trigger] before[e]).result
            < grid.len() && before[e].source < grid.len() by {
            assert((before + after)[e] == before[e]);
        }
        assert forall|e: int| 0 <= e < after.len() implies (#[trigger] after[e]).result < grid.len()
            && after[e].source < grid.len() by {
            assert((before + after)[before.len() + e] == after[e]);
        }
        lemma_with_edges_append(grid, before, after);
    }
    record_operand(products, result, left, true);
    record_operand(products, result, right, right_product);
}

/// Sets the flags of the edges that a statement makes.
pub(crate) fn record_products(products: &mut FlagRows, statement: &Statement)
    requires
        is_square(rows(*old(products)), rows(*old(products)).len()),
        edges_in_range(statement_edges(*statement), rows(*old(products)).len()),
    ensures
        rows(*final(products)) == with_edges(rows(*old(products)), statement_edges(*statement)),
{
    proof {
        lemma_with_no_edges(rows(*products));
    }
    match statement {
        Statement::Assign(place, rvalue) => match place.as_local() {
            Some(result) => match rvalue {
                Rvalue::BinaryOp(op, left, right) => match op {
                    BinOp::Mul
                    | BinOp::MulUnchecked
                    | BinOp::MulWithOverflow
                    | BinOp::Add
                    | BinOp::AddUnchecked
                    | BinOp::AddWithOverflow
                    | BinOp::Sub
                    | BinOp::SubUnchecked
                    | BinOp::SubWithOverflow => record_operands(products, result, left, right, true),
                    BinOp::Div => record_operands(products, result, left, right, false),
                    BinOp::Other => {},
                },
                Rvalue::Use(operand) => record_operand(products, result, operand, true),
                Rvalue::Cast(_, operand) => record_operand(products, result, operand, true),
                Rvalue::Other => {},
            },
            None => {},
        },
        Statement::Other => {},
    }
}

/// Chains the relations through every local in turn.
pub(crate) fn close_products(products: &mut FlagRows, n: usize)
    requires
        is_square(rows(*old(products)), n as nat),
    ensures
        rows(*final(products)) == rounds(rows(*old(products)), n as nat),
{
    let ghost start = rows(*products);
    for j in 0..n
        invariant
            is_square(rows(*products), n as nat),
            rows(*products) == rounds(start, j as nat),
    {
        let ghost grid = rows(*products);
        for i in 0..n
            invariant
                j < n,
                is_square(grid, n as nat),
                is_square(rows(*products), n as nat),
                forall|a: int, b: int|
                    0 <= a < n && 0 <= b < n ==> #[trigger] rows(*products)[a][b] == (if a < i {
                        round_flag(grid, j as int, a, b)
                    } else {
                        grid[a][b]
                    }),
        {
            for k in 0..n
                invariant
                    i < n,
                    j < n,
                    is_square(grid, n as nat),
                    is_square(rows(*products), n as nat),
                    forall|a: int, b: int|
                        0 <= a < n && 0 <= b < n ==> #[trigger] rows(*products)[a][b] == (if a < i || (
                        a == i && b < k) {
                            round_flag(grid, j as int, a, b)
                        } else {
                            grid[a][b]
                        }),
            {
                if i != k {
                    let first = rows_index(products, i, j);
                    let second = rows_index(products, j, k);
                    if let (Some(s1), Some(s2)) = (first, second) {
                        rows_index_mut(products, i, k, Some(s1 == s2));
                    }
                }
            }
        }
        proof {
            let next = round(grid, j as int);
            assert forall|a: int| 0 <= a < n implies rows(*products)[a] == next[a] by {
                assert(rows(*products)[a] =~= next[a]);
            }
            assert(rows(*products) =~= next);
        }
    }
}

} // verus!
