//! What the product relation means: chains of direct relations.
use vstd::prelude::*;

use crate::mir::{BinOp, CastKind, Local, Operand, Place, Rvalue, Scalar, Statement};
use crate::relation::{
    chain, direct_flag, direct_grid, edges_of, is_square, last_edge, product_grid, round,
    round_flag, rounds, statement_edges, Edge, Grid,
};

verus! {

/// A path of at least one step from `i` to `k` through the locals of a grid.
pub open spec fn is_path(grid: Grid, path: Seq<int>, i: int, k: int) -> bool {
    &&& path.len() >= 2
    &&& path.first() == i
    &&& path.last() == k
    &&& forall|t: int| 0 <= t < path.len() ==> 0 <= #[trigger] path[t] < grid.len()
}

/// The flags along a path, chained: a product where the quotients among them are even in number, and
/// else a quotient. `None` if some step of it relates nothing.
pub open spec fn path_flag(grid: Grid, path: Seq<int>) -> Option<bool>
    decreases path.len(),
{
    if path.len() < 2 {
        None
    } else {
        let step = grid[path[path.len() - 2]][path[path.len() - 1]];
        if path.len() == 2 {
            step
        } else {
            match (path_flag(grid, path.drop_last()), step) {
                (Some(first), Some(last)) => Some(first == last),
                _ => None,
            }
        }
    }
}

/// Whether some path from `i` to `k` chains to the flag.
pub open spec fn has_walk(grid: Grid, i: int, k: int, flag: bool) -> bool {
    exists|path: Seq<int>|
        is_path(grid, path, i, k) && #[trigger] path_flag(grid, path) == Some(flag)
}

/// Whether `i` is related to `k` through some path.
pub open spec fn reaches(grid: Grid, i: int, k: int) -> bool {
    has_walk(grid, i, k, true) || has_walk(grid, i, k, false)
}

/// The flag of a path made of two is the chain of their flags.
proof fn lemma_path_flag_append(grid: Grid, first: Seq<int>, second: Seq<int>)
    requires
        first.len() >= 2,
        second.len() >= 2,
        first.last() == second.first(),
        path_flag(grid, first) is Some,
        path_flag(grid, second) is Some,
    ensures
        path_flag(grid, first + second.drop_first()) == chain(
            path_flag(grid, first),
            path_flag(grid, second),
        ),
    decreases second.len(),
{
    let whole = first + second.drop_first();
    let step = grid[second[second.len() - 2]][second[second.len() - 1]];
    assert(whole[whole.len() - 1] == second[second.len() - 1]);
    assert(whole[whole.len() - 2] == second[second.len() - 2]);
    if second.len() == 2 {
        assert(whole.drop_last() =~= first);
    } else {
        let shorter = second.drop_last();
        assert(whole.drop_last() =~= first + shorter.drop_first());
        lemma_path_flag_append(grid, first, shorter);
    }
}

/// Two walks, one behind the other, make a walk.
proof fn lemma_walk_append(grid: Grid, i: int, j: int, k: int, first: bool, second: bool)
    requires
        has_walk(grid, i, j, first),
        has_walk(grid, j, k, second),
    ensures
        has_walk(grid, i, k, first == second),
{
    let p = choose|path: Seq<int>|
        is_path(grid, path, i, j) && #[trigger] path_flag(grid, path) == Some(first);
    let q = choose|path: Seq<int>|
        is_path(grid, path, j, k) && #[trigger] path_flag(grid, path) == Some(second);
    let whole = p + q.drop_first();
    lemma_path_flag_append(grid, p, q);
    assert forall|t: int| 0 <= t < whole.len() implies 0 <= #[trigger] whole[t] < grid.len() by {
        if t < p.len() {
            assert(whole[t] == p[t]);
        } else {
            assert(whole[t] == q[t - p.len() + 1]);
        }
    }
    assert(is_path(grid, whole, i, k));
    assert(path_flag(grid, whole) == Some(first == second));
}

/// One step is a walk.
proof fn lemma_step_is_walk(grid: Grid, i: int, k: int, flag: bool)
    requires
        0 <= i < grid.len(),
        0 <= k < grid.len(),
        grid[i][k] == Some(flag),
    ensures
        has_walk(grid, i, k, flag),
{
    let path = seq![i, k];
    assert(is_path(grid, path, i, k));
    assert(path_flag(grid, path) == Some(flag));
}

/// Chaining keeps the shape of a grid.
proof fn lemma_rounds_square(grid: Grid, count: nat)
    requires
        is_square(grid, grid.len()),
    ensures
        is_square(rounds(grid, count), grid.len()),
    decreases count,
{
    if count > 0 {
        lemma_rounds_square(grid, (count - 1) as nat);
    }
}

/// Every flag that chaining sets is that of some walk.
proof fn lemma_rounds_sound(grid: Grid, count: nat, i: int, k: int)
    requires
        is_square(grid, grid.len()),
        count <= grid.len(),
        0 <= i < grid.len(),
        0 <= k < grid.len(),
    ensures
        rounds(grid, count)[i][k] matches Some(flag) ==> has_walk(grid, i, k, flag),
    decreases count,
{
    if count == 0 {
        if let Some(flag) = grid[i][k] {
            lemma_step_is_walk(grid, i, k, flag);
        }
    } else {
        let last = rounds(grid, (count - 1) as nat);
        let j = count - 1;
        lemma_rounds_square(grid, (count - 1) as nat);
        lemma_rounds_sound(grid, (count - 1) as nat, i, k);
        lemma_rounds_sound(grid, (count - 1) as nat, i, j);
        lemma_rounds_sound(grid, (count - 1) as nat, j, j);
        lemma_rounds_sound(grid, (count - 1) as nat, j, k);
        if i != k {
            if let (Some(ij), Some(jk)) = (last[i][j], last[j][k]) {
                lemma_walk_append(grid, i, j, k, ij, jk);
                if let Some(jj) = last[j][j] {
                    lemma_walk_append(grid, i, j, j, ij, jj);
                    lemma_walk_append(grid, j, j, k, jj, jk);
                    lemma_walk_append(grid, i, j, k, ij == jj, jk);
                    lemma_walk_append(grid, i, j, k, ij, jj == jk);
                    lemma_walk_append(grid, i, j, k, ij == jj, jj == jk);
                }
            }
        }
        assert(rounds(grid, count)[i][k] == round_flag(last, j, i, k));
    }
}

/// Whether every local of a grid is related to itself.
spec fn is_reflexive(grid: Grid) -> bool {
    forall|i: int| 0 <= i < grid.len() ==> (#[trigger] grid[i][i]) is Some
}

/// Whether two relations that meet in one of the first `count` locals always chain to a third.
spec fn chains_through(grid: Grid, count: nat) -> bool {
    forall|i: int, j: int, k: int|
        0 <= i < grid.len() && 0 <= j < count && 0 <= k < grid.len() && (
        #[trigger] grid[i][j]) is Some && (#[trigger] grid[j][k]) is Some ==> grid[i][k] is Some
}

/// Chaining through the first locals relates whatever they connect, drops no relation, and leaves
/// the flag of each local with itself.
proof fn lemma_rounds_complete(grid: Grid, count: nat)
    requires
        is_square(grid, grid.len()),
        is_reflexive(grid),
        count <= grid.len(),
    ensures
        is_reflexive(rounds(grid, count)),
        chains_through(rounds(grid, count), count),
        forall|i: int, k: int|
            0 <= i < grid.len() && 0 <= k < grid.len() && (#[trigger] grid[i][k]) is Some
                ==> rounds(grid, count)[i][k] is Some,
        forall|i: int|
            0 <= i < grid.len() ==> #[trigger] rounds(grid, count)[i][i] == grid[i][i],
    decreases count,
{
    if count > 0 {
        let c = (count - 1) as nat;
        let last = rounds(grid, c);
        let next = rounds(grid, count);
        let t = count - 1;
        lemma_rounds_square(grid, c);
        lemma_rounds_square(grid, count);
        lemma_rounds_complete(grid, c);
        assert(last[t][t] is Some);
        assert forall|i: int, k: int| 0 <= i < grid.len() && 0 <= k < grid.len() implies (
        #[trigger] next[i][k]) is Some == (last[i][k] is Some || (last[i][t] is Some
            && last[t][k] is Some)) by {
            assert(next[i][k] == round_flag(last, t, i, k));
            assert(last[i][i] is Some);
        }
        assert forall|i: int, j: int, k: int|
            0 <= i < grid.len() && 0 <= j < count && 0 <= k < grid.len() && (
            #[trigger] next[i][j]) is Some && (#[trigger] next[j][k]) is Some
            implies next[i][k] is Some by {
            if j < t {
                if last[i][j] is Some && last[j][k] is Some {
                    assert(last[i][k] is Some);
                }
                if last[i][j] is Some && last[j][t] is Some {
                    assert(last[i][t] is Some);
                }
                if last[t][j] is Some && last[j][k] is Some {
                    assert(last[t][k] is Some);
                }
            }
        }
    }
}

/// If chaining is complete, whatever a path connects is related.
proof fn lemma_path_related(grid: Grid, closed: Grid, path: Seq<int>, i: int, k: int)
    requires
        closed.len() == grid.len(),
        chains_through(closed, closed.len()),
        forall|a: int, b: int|
            0 <= a < grid.len() && 0 <= b < grid.len() && (#[trigger] grid[a][b]) is Some
                ==> closed[a][b] is Some,
        is_path(grid, path, i, k),
        path_flag(grid, path) is Some,
    ensures
        closed[i][k] is Some,
    decreases path.len(),
{
    if path.len() == 2 {
        assert(grid[i][k] is Some);
    } else {
        let shorter = path.drop_last();
        let j = shorter.last();
        assert(0 <= path[path.len() - 2] < grid.len());
        assert(is_path(grid, shorter, i, j)) by {
            assert forall|t: int| 0 <= t < shorter.len() implies 0 <= #[trigger] shorter[t]
                < grid.len() by {
                assert(shorter[t] == path[t]);
            }
        }
        lemma_path_related(grid, closed, shorter, i, j);
        assert(grid[j][k] is Some);
        assert(closed[i][j] is Some && closed[j][k] is Some);
        assert(0 <= path[0] < grid.len() && 0 <= path[path.len() - 1] < grid.len());
    }
}

/// The grid before chaining is square, and every local in it is related to itself.
proof fn lemma_direct_grid(edges: Seq<Edge>, n: nat)
    ensures
        is_square(direct_grid(edges, n), n),
        is_reflexive(direct_grid(edges, n)),
{
}

/// The product relation of `n` locals is a square grid of `n` rows.
pub proof fn law_product_grid_is_square(statements: Seq<Statement>, n: nat)
    ensures
        is_square(product_grid(statements, n), n),
{
    lemma_direct_grid(edges_of(statements), n);
    lemma_rounds_square(direct_grid(edges_of(statements), n), n);
}

/// Where the relation calls a local a product or a quotient of another, some chain of direct
/// relations from the first to the second says the same.
pub proof fn law_flag_comes_from_a_chain(statements: Seq<Statement>, n: nat, i: int, k: int)
    requires
        0 <= i < n,
        0 <= k < n,
    ensures
        product_grid(statements, n)[i][k] matches Some(flag) ==> has_walk(
            direct_grid(edges_of(statements), n),
            i,
            k,
            flag,
        ),
{
    lemma_direct_grid(edges_of(statements), n);
    lemma_rounds_sound(direct_grid(edges_of(statements), n), n, i, k);
}

/// Two locals are related exactly if some chain of direct relations connects them. So `None` means
/// that there is no relationship.
pub proof fn law_related_iff_connected(statements: Seq<Statement>, n: nat, i: int, k: int)
    requires
        0 <= i < n,
        0 <= k < n,
    ensures
        product_grid(statements, n)[i][k] is Some <==> reaches(
            direct_grid(edges_of(statements), n),
            i,
            k,
        ),
{
    let grid = direct_grid(edges_of(statements), n);
    let closed = product_grid(statements, n);
    law_flag_comes_from_a_chain(statements, n, i, k);
    law_product_grid_is_square(statements, n);
    lemma_direct_grid(edges_of(statements), n);
    lemma_rounds_complete(grid, n);
    if reaches(grid, i, k) {
        let flag = has_walk(grid, i, k, true);
        let path = choose|path: Seq<int>|
            is_path(grid, path, i, k) && #[trigger] path_flag(grid, path) == Some(flag);
        assert(is_path(grid, path, i, k) && path_flag(grid, path) == Some(flag));
        lemma_path_related(grid, closed, path, i, k);
    }
}

/// Where all chains of direct relations from one local to another say the same, the relation says
/// that too.
pub proof fn law_agreeing_chains_decide(
    statements: Seq<Statement>,
    n: nat,
    i: int,
    k: int,
    flag: bool,
)
    requires
        0 <= i < n,
        0 <= k < n,
        has_walk(direct_grid(edges_of(statements), n), i, k, flag),
        !has_walk(direct_grid(edges_of(statements), n), i, k, !flag),
    ensures
        product_grid(statements, n)[i][k] == Some(flag),
{
    law_related_iff_connected(statements, n, i, k);
    law_flag_comes_from_a_chain(statements, n, i, k);
}

/// The relation is transitive: what is related to a local is related to whatever that local is
/// related to.
pub proof fn law_related_is_transitive(
    statements: Seq<Statement>,
    n: nat,
    i: int,
    j: int,
    k: int,
)
    requires
        0 <= i < n,
        0 <= j < n,
        0 <= k < n,
        product_grid(statements, n)[i][j] is Some,
        product_grid(statements, n)[j][k] is Some,
    ensures
        product_grid(statements, n)[i][k] is Some,
{
    lemma_direct_grid(edges_of(statements), n);
    law_product_grid_is_square(statements, n);
    lemma_rounds_complete(direct_grid(edges_of(statements), n), n);
}

/// Every local stays related to itself, in the way that the statements relate it to itself
/// directly: as a product, unless the last statement that computes it from itself divides by it.
pub proof fn law_self_relation_is_direct(statements: Seq<Statement>, n: nat, i: int)
    requires
        0 <= i < n,
    ensures
        product_grid(statements, n)[i][i] == direct_flag(edges_of(statements), i, i),
        product_grid(statements, n)[i][i] is Some,
{
    lemma_direct_grid(edges_of(statements), n);
    lemma_rounds_complete(direct_grid(edges_of(statements), n), n);
}

/// Locals that a statement relates directly stay related.
pub proof fn law_direct_relation_is_kept(statements: Seq<Statement>, n: nat, i: int, k: int)
    requires
        0 <= i < n,
        0 <= k < n,
        direct_flag(edges_of(statements), i, k) is Some,
    ensures
        product_grid(statements, n)[i][k] is Some,
{
    let grid = direct_grid(edges_of(statements), n);
    lemma_direct_grid(edges_of(statements), n);
    lemma_rounds_complete(grid, n);
    assert(grid[i][k] is Some);
}

/// Without a quotient, the last edge between two locals never says quotient.
proof fn lemma_last_edge_product(edges: Seq<Edge>, i: int, k: int)
    requires
        forall|e: int| 0 <= e < edges.len() ==> (#[trigger] edges[e]).product,
    ensures
        direct_flag(edges, i, k) != Some(false),
    decreases edges.len(),
{
    if edges.len() > 0 {
        assert(edges[edges.len() - 1].product);
        let fewer = edges.drop_last();
        assert forall|e: int| 0 <= e < fewer.len() implies (#[trigger] fewer[e]).product by {
            assert(fewer[e] == edges[e]);
        }
        lemma_last_edge_product(fewer, i, k);
    }
}

/// A path through a grid without a quotient does not chain to a quotient.
proof fn lemma_path_product(grid: Grid, path: Seq<int>, i: int, k: int)
    requires
        is_path(grid, path, i, k),
        forall|a: int, b: int|
            0 <= a < grid.len() && 0 <= b < grid.len() ==> #[trigger] grid[a][b] != Some(false),
    ensures
        path_flag(grid, path) != Some(false),
    decreases path.len(),
{
    let j = path[path.len() - 2];
    assert(0 <= j < grid.len() && 0 <= path[path.len() - 1] < grid.len());
    assert(grid[j][path[path.len() - 1]] != Some(false));
    if path.len() > 2 {
        let shorter = path.drop_last();
        assert forall|t: int| 0 <= t < shorter.len() implies 0 <= #[trigger] shorter[t]
            < grid.len() by {
            assert(shorter[t] == path[t]);
        }
        lemma_path_product(grid, shorter, i, j);
    }
}

/// If no statement divides by a whole local, every relation is that of a product: a local is a
/// product of another exactly if some chain of direct relations connects them.
pub proof fn law_no_quotient_without_division(statements: Seq<Statement>, n: nat, i: int, k: int)
    requires
        0 <= i < n,
        0 <= k < n,
        forall|e: int|
            0 <= e < edges_of(statements).len() ==> (#[trigger] edges_of(statements)[e]).product,
    ensures
        product_grid(statements, n)[i][k] != Some(false),
        product_grid(statements, n)[i][k] == Some(true) <==> reaches(
            direct_grid(edges_of(statements), n),
            i,
            k,
        ),
{
    let edges = edges_of(statements);
    let grid = direct_grid(edges, n);
    law_flag_comes_from_a_chain(statements, n, i, k);
    law_related_iff_connected(statements, n, i, k);
    assert forall|a: int, b: int| 0 <= a < grid.len() && 0 <= b < grid.len() implies #[trigger] grid[a][b]
        != Some(false) by {
        lemma_last_edge_product(edges, a, b);
    }
    if has_walk(grid, i, k, false) {
        let path = choose|path: Seq<int>|
            is_path(grid, path, i, k) && #[trigger] path_flag(grid, path) == Some(false);
        lemma_path_product(grid, path, i, k);
    }
}

/// An assignment of a local as a whole to a local as a whole, copied or moved, cast or not, makes one
/// edge: the result is a product of what it is assigned.
pub proof fn law_edge_of_a_copy(result: Local, source: Local, kind: CastKind)
    ensures
        ({
            let to = Place { local: result, projected: false };
            let from = Place { local: source, projected: false };
            let edges = seq![Edge { result, source, product: true }];
            &&& statement_edges(Statement::Assign(to, Rvalue::Use(Operand::Copy(from)))) == edges
            &&& statement_edges(Statement::Assign(to, Rvalue::Use(Operand::Move(from)))) == edges
            &&& statement_edges(Statement::Assign(to, Rvalue::Cast(kind, Operand::Copy(from))))
                == edges
            &&& statement_edges(Statement::Assign(to, Rvalue::Cast(kind, Operand::Move(from))))
                == edges
        }),
{
}

/// Whether an operand is a copy or a move of the whole of a local, if `local` is one, or else neither.
pub open spec fn reads(operand: Operand, local: Option<Local>) -> bool {
    match local {
        Some(local) => operand == Operand::Copy(Place { local, projected: false }) || operand
            == Operand::Move(Place { local, projected: false }),
        None => match operand {
            Operand::Copy(place) => place.projected,
            Operand::Move(place) => place.projected,
            Operand::Constant(_) => true,
        },
    }
}

/// A sum, a difference or a product makes its result a product of each operand that is a local as a
/// whole, copied or moved, first of the left one. A division does so too, but makes its result a
/// quotient of the right operand. No other operator relates anything.
pub proof fn law_edges_of_an_operation(
    result: Local,
    op: BinOp,
    left: Operand,
    right: Operand,
    l: Option<Local>,
    r: Option<Local>,
)
    requires
        reads(left, l),
        reads(right, r),
    ensures
        ({
            let to = Place { local: result, projected: false };
            let edges = statement_edges(Statement::Assign(to, Rvalue::BinaryOp(op, left, right)));
            let both = |product: bool|
                match (l, r) {
                    (Some(l), Some(r)) => seq![
                        Edge { result, source: l, product: true },
                        Edge { result, source: r, product },
                    ],
                    (Some(l), None) => seq![Edge { result, source: l, product: true }],
                    (None, Some(r)) => seq![Edge { result, source: r, product }],
                    (None, None) => Seq::empty(),
                };
            match op {
                BinOp::Add => edges == both(true),
                BinOp::AddUnchecked => edges == both(true),
                BinOp::AddWithOverflow => edges == both(true),
                BinOp::Sub => edges == both(true),
                BinOp::SubUnchecked => edges == both(true),
                BinOp::SubWithOverflow => edges == both(true),
                BinOp::Mul => edges == both(true),
                BinOp::MulUnchecked => edges == both(true),
                BinOp::MulWithOverflow => edges == both(true),
                BinOp::Div => edges == both(false),
                BinOp::Other => edges == Seq::<Edge>::empty(),
            }
        }),
{
}

/// Nothing else makes an edge: no assignment to a part of a local, none of a constant, of a part of a
/// local or of any other value, and no other statement.
pub proof fn law_no_other_edges(
    result: Local,
    part: Local,
    kind: CastKind,
    scalar: Option<Scalar>,
    rvalue: Rvalue,
)
    ensures
        ({
            let to = Place { local: result, projected: false };
            let projected = Place { local: part, projected: true };
            let none = Seq::<Edge>::empty();
            let assigned = |rvalue: Rvalue| statement_edges(Statement::Assign(to, rvalue));
            &&& statement_edges(Statement::Other) == none
            &&& statement_edges(Statement::Assign(projected, rvalue)) == none
            &&& assigned(Rvalue::Other) == none
            &&& assigned(Rvalue::Use(Operand::Constant(scalar))) == none
            &&& assigned(Rvalue::Use(Operand::Copy(projected))) == none
            &&& assigned(Rvalue::Use(Operand::Move(projected))) == none
            &&& assigned(Rvalue::Cast(kind, Operand::Constant(scalar))) == none
            &&& assigned(Rvalue::Cast(kind, Operand::Copy(projected))) == none
            &&& assigned(Rvalue::Cast(kind, Operand::Move(projected))) == none
        }),
{
}

/// The edges of some statements followed by others are those of the first, then those of the others,
/// and a statement alone has its own.
pub proof fn law_edges_in_order(first: Seq<Statement>, second: Seq<Statement>, statement: Statement)
    ensures
        edges_of(Seq::empty()) == Seq::<Edge>::empty(),
        edges_of(seq![statement]) == statement_edges(statement),
        edges_of(first + second) == edges_of(first) + edges_of(second),
    decreases second.len(),
{
    assert(seq![statement].drop_last() =~= Seq::empty());
    reveal_with_fuel(edges_of, 2);
    assert(edges_of(seq![statement]) =~= statement_edges(statement));
    if second.len() == 0 {
        assert(first + second =~= first);
        assert(edges_of(first + second) =~= edges_of(first) + edges_of(second));
    } else {
        assert((first + second).drop_last() =~= first + second.drop_last());
        law_edges_in_order(first, second.drop_last(), statement);
        assert(edges_of(first + second) =~= edges_of(first) + edges_of(second));
    }
}

/// Before chaining, the last edge from one local to another says how the first relates to the second.
/// Without an edge, a local is a product of itself and not related to any other.
pub proof fn law_last_edge_counts(edges: Seq<Edge>, n: nat, i: int, k: int, last: int)
    requires
        0 <= i < n,
        0 <= k < n,
        -1 <= last < edges.len(),
        last >= 0 ==> edges[last].result == i && edges[last].source == k,
        forall|e: int|
            last < e < edges.len() ==> !((#[trigger] edges[e]).result == i && edges[e].source == k),
    ensures
        direct_grid(edges, n).len() == n,
        direct_grid(edges, n)[i].len() == n,
        direct_grid(edges, n)[i][k] == direct_flag(edges, i, k),
        last >= 0 ==> direct_flag(edges, i, k) == Some(edges[last].product),
        last < 0 && i == k ==> direct_flag(edges, i, k) == Some(true),
        last < 0 && i != k ==> direct_flag(edges, i, k) is None,
{
    lemma_last_edge(edges, i, k, last);
}

/// What the last edge says is what the edge says after which there is none between the two locals.
proof fn lemma_last_edge(edges: Seq<Edge>, i: int, k: int, last: int)
    requires
        -1 <= last < edges.len(),
        last >= 0 ==> edges[last].result == i && edges[last].source == k,
        forall|e: int|
            last < e < edges.len() ==> !((#[trigger] edges[e]).result == i && edges[e].source == k),
    ensures
        last_edge(edges, i, k) == (if last >= 0 {
            Some(edges[last].product)
        } else {
            None
        }),
    decreases edges.len(),
{
    if edges.len() > 0 && last < edges.len() - 1 {
        let fewer = edges.drop_last();
        let e = edges.len() - 1;
        assert(!(edges[e].result == i && edges[e].source == k));
        assert forall|e: int| last < e < fewer.len() implies !((#[trigger] fewer[e]).result == i
            && fewer[e].source == k) by {
            assert(fewer[e] == edges[e]);
        }
        lemma_last_edge(fewer, i, k, last);
    }
}

/// The grids that come up while all relations are chained, one flag after the other:
/// `grids(j, i, k)` is the one before the flag of `i` and `k` is chained through `j`.
pub type Chaining = spec_fn(int, int, int) -> Grid;

/// Whether a flag is chained: where `i` relates to `j` and `j` to `k`, the flag of `i` and `k` becomes
/// that of a product if the two agree, and of a quotient if they do not. The flag of a local with
/// itself, and all other flags, stay.
pub open spec fn chains_flag(before: Grid, after: Grid, j: int, i: int, k: int) -> bool {
    &&& after.len() == before.len()
    &&& forall|a: int, b: int|
        0 <= a < before.len() && 0 <= b < before.len() ==> #[trigger] after[a][b] == (if a == i && b
            == k && i != k && before[i][j] is Some && before[j][k] is Some {
            Some(before[i][j] == before[j][k])
        } else {
            before[a][b]
        })
}

/// The product relation is what comes out where the flags that the statements set are chained
/// through one local after the other, and for each of them row by row, flag by flag.
pub proof fn law_flags_are_chained_in_order(
    statements: Seq<Statement>,
    n: nat,
    grids: Chaining,
    i: int,
    k: int,
)
    requires
        forall|a: int, b: int|
            0 <= a < n && 0 <= b < n ==> #[trigger] grids(0, 0, 0)[a][b] == direct_flag(
                edges_of(statements),
                a,
                b,
            ),
        grids(0, 0, 0).len() == n,
        forall|j: int, i: int, k: int|
            0 <= j < n && 0 <= i < n && 0 <= k < n ==> chains_flag(
                #[trigger] grids(j, i, k),
                grids(j, i, k + 1),
                j,
                i,
                k,
            ),
        forall|j: int, i: int|
            0 <= j < n && 0 <= i < n ==> #[trigger] grids(j, i + 1, 0) == grids(j, i, n as int),
        forall|j: int|
            0 <= j < n ==> #[trigger] grids(j + 1, 0, 0) == grids(j, n as int, 0),
        0 <= i < n,
        0 <= k < n,
    ensures
        product_grid(statements, n)[i][k] == grids(n as int, 0, 0)[i][k],
{
    let start = direct_grid(edges_of(statements), n);
    lemma_chaining(start, n, grids, n);
}

/// A grid with one flag set.
spec fn with_flag(grid: Grid, i: int, k: int, flag: Option<bool>) -> Grid {
    Seq::new(
        grid.len(),
        |a: int|
            Seq::new(
                grid.len(),
                |b: int|
                    if a == i && b == k {
                        flag
                    } else {
                        grid[a][b]
                    },
            ),
    )
}

/// The grid before the flag of `i` and `k` is chained through `j`.
spec fn chained_so_far(start: Grid, j: int, i: int, k: int) -> Grid
    decreases j, i, k,
{
    if k > 0 {
        let grid = chained_so_far(start, j, i, k - 1);
        let c = k - 1;
        if i != c && grid[i][j] is Some && grid[j][c] is Some {
            with_flag(grid, i, c, Some(grid[i][j] == grid[j][c]))
        } else {
            grid
        }
    } else if i > 0 {
        chained_so_far(start, j, i - 1, start.len() as int)
    } else if j > 0 {
        chained_so_far(start, j - 1, start.len() as int, 0)
    } else {
        start
    }
}

/// Chaining one flag after the other keeps the number of rows.
proof fn lemma_chained_so_far_len(start: Grid, j: int, i: int, k: int)
    ensures
        chained_so_far(start, j, i, k).len() == start.len(),
    decreases j, i, k,
{
    if k > 0 {
        lemma_chained_so_far_len(start, j, i, k - 1);
    } else if i > 0 {
        lemma_chained_so_far_len(start, j, i - 1, start.len() as int);
    } else if j > 0 {
        lemma_chained_so_far_len(start, j - 1, start.len() as int, 0);
    }
}

/// Whether the grids are those that come up while the flags of a grid are chained through one local
/// after the other, and for each of them row by row, flag by flag.
pub open spec fn chains_in_order(start: Grid, grids: Chaining) -> bool {
    let n = start.len() as int;
    &&& grids(0, 0, 0) == start
    &&& forall|j: int, i: int, k: int|
        0 <= j < n && 0 <= i < n && 0 <= k < n ==> chains_flag(
            #[trigger] grids(j, i, k),
            grids(j, i, k + 1),
            j,
            i,
            k,
        )
    &&& forall|j: int, i: int|
        0 <= j < n && 0 <= i < n ==> #[trigger] grids(j, i + 1, 0) == grids(j, i, n)
    &&& forall|j: int| 0 <= j < n ==> #[trigger] grids(j + 1, 0, 0) == grids(j, n, 0)
}

/// From every grid the flags can be chained one after the other.
pub proof fn law_flags_can_be_chained_in_order(start: Grid)
    ensures
        exists|grids: Chaining| #[trigger] chains_in_order(start, grids),
{
    let n = start.len() as int;
    let grids: Chaining = |j: int, i: int, k: int| chained_so_far(start, j, i, k);
    assert(grids(0, 0, 0) == start);
    assert forall|j: int, i: int, k: int| 0 <= j < n && 0 <= i < n && 0 <= k < n implies chains_flag(
        #[trigger] grids(j, i, k),
        grids(j, i, k + 1),
        j,
        i,
        k,
    ) by {
        lemma_chained_so_far_len(start, j, i, k);
        assert(grids(j, i, k + 1) == chained_so_far(start, j, i, k + 1));
    }
    assert forall|j: int, i: int| 0 <= j < n && 0 <= i < n implies #[trigger] grids(j, i + 1, 0)
        == grids(j, i, n) by {}
    assert forall|j: int| 0 <= j < n implies #[trigger] grids(j + 1, 0, 0) == grids(j, n, 0) by {}
    assert(chains_in_order(start, grids));
}

/// The grid before chaining through the `j`-th local is that of `j` rounds.
proof fn lemma_chaining(start: Grid, n: nat, grids: Chaining, j: nat)
    requires
        is_square(start, n),
        forall|a: int, b: int|
            0 <= a < n && 0 <= b < n ==> #[trigger] grids(0, 0, 0)[a][b] == start[a][b],
        grids(0, 0, 0).len() == n,
        forall|j: int, i: int, k: int|
            0 <= j < n && 0 <= i < n && 0 <= k < n ==> chains_flag(
                #[trigger] grids(j, i, k),
                grids(j, i, k + 1),
                j,
                i,
                k,
            ),
        forall|j: int, i: int|
            0 <= j < n && 0 <= i < n ==> #[trigger] grids(j, i + 1, 0) == grids(j, i, n as int),
        forall|j: int|
            0 <= j < n ==> #[trigger] grids(j + 1, 0, 0) == grids(j, n as int, 0),
        j <= n,
    ensures
        grids(j as int, 0, 0).len() == n,
        forall|a: int, b: int|
            0 <= a < n && 0 <= b < n ==> #[trigger] grids(j as int, 0, 0)[a][b] == rounds(
                start,
                j,
            )[a][b],
    decreases j,
{
    if j > 0 {
        let t = j - 1;
        let grid = rounds(start, t as nat);
        lemma_chaining(start, n, grids, t as nat);
        lemma_rounds_square(start, t as nat);
        lemma_chaining_row(grid, n, grids, t, n as int, 0);
        assert(grids(t + 1, 0, 0) == grids(t, n as int, 0));
        assert forall|a: int, b: int| 0 <= a < n && 0 <= b < n implies #[trigger] grids(
            j as int,
            0,
            0,
        )[a][b] == rounds(start, j)[a][b] by {
            assert(round(grid, t)[a][b] == round_flag(grid, t, a, b));
        }
    }
}

/// What a grid is while the relations are chained through `j`: the flags before `i` and `k` are.
proof fn lemma_chaining_row(grid: Grid, n: nat, grids: Chaining, j: int, i: int, k: int)
    requires
        is_square(grid, n),
        0 <= j < n,
        grids(j, 0, 0).len() == n,
        forall|a: int, b: int|
            0 <= a < n && 0 <= b < n ==> #[trigger] grids(j, 0, 0)[a][b] == grid[a][b],
        forall|j: int, i: int, k: int|
            0 <= j < n && 0 <= i < n && 0 <= k < n ==> chains_flag(
                #[trigger] grids(j, i, k),
                grids(j, i, k + 1),
                j,
                i,
                k,
            ),
        forall|j: int, i: int|
            0 <= j < n && 0 <= i < n ==> #[trigger] grids(j, i + 1, 0) == grids(j, i, n as int),
        0 <= i < n && 0 <= k <= n || i == n && k == 0,
    ensures
        grids(j, i, k).len() == n,
        forall|a: int, b: int|
            0 <= a < n && 0 <= b < n ==> #[trigger] grids(j, i, k)[a][b] == (if a < i || (a == i
                && b < k) {
                round_flag(grid, j, a, b)
            } else {
                grid[a][b]
            }),
    decreases i, k,
{
    if k > 0 {
        lemma_chaining_row(grid, n, grids, j, i, k - 1);
        let before = grids(j, i, k - 1);
        let after = grids(j, i, k - 1 + 1);
        assert(chains_flag(before, after, j, i, k - 1));
        let c = k - 1;
        assert(before[i][j] == (if j < c {
            round_flag(grid, j, i, j)
        } else {
            grid[i][j]
        }));
        assert(before[j][c] == (if j < i {
            round_flag(grid, j, j, c)
        } else {
            grid[j][c]
        }));
        assert(before[i][c] == grid[i][c]);
    } else if i > 0 {
        lemma_chaining_row(grid, n, grids, j, i - 1, n as int);
        assert(grids(j, i - 1 + 1, 0) == grids(j, i - 1, n as int));
    }
}

} // verus!
