//! What a debug listing of the cache of a body shows: the entries that are known, in order.
use vstd::prelude::*;

use crate::index_vec::{flags, flags_index, flags_len, rows, rows_index, FlagRows, Flags};
use crate::mir::Local;
use crate::relation::{is_square, Grid};

verus! {

/// The known entries of the cache of a body.
#[derive(Debug)]
pub struct DebugEntries {
    /// The locals that are known to be null or not to be null.
    pub null: Vec<(usize, bool)>,
    /// What the null-pointer analysis has at the end of each block, if the analysis has run: the
    /// block, the local at which a place starts, and the text of what is known of the place.
    pub null_mirsa: Option<Vec<(usize, usize, String)>>,
    /// What the interval analysis has at the end of each block, if the analysis has run: the
    /// block, the local at which a place starts, and the text of its interval.
    pub internval_mirsa: Option<Vec<(usize, usize, String)>>,
    /// The locals that are related, and whether the first is a product of the second.
    pub product_of: Vec<(Local, Local, bool)>,
}

/// The known flags with their indices, in the order of the indices.
pub open spec fn known_flags(flags: Seq<Option<bool>>) -> Seq<(usize, bool)>
    decreases flags.len(),
{
    if flags.len() == 0 {
        Seq::empty()
    } else {
        let before = known_flags(flags.drop_last());
        match flags.last() {
            Some(flag) => before.push(((flags.len() - 1) as usize, flag)),
            None => before,
        }
    }
}

/// The known flags of a row with the index of the row and their own, in order.
pub open spec fn known_in_row(i: usize, row: Seq<Option<bool>>) -> Seq<(Local, Local, bool)>
    decreases row.len(),
{
    if row.len() == 0 {
        Seq::empty()
    } else {
        let before = known_in_row(i, row.drop_last());
        match row.last() {
            Some(flag) => before.push((i, (row.len() - 1) as usize, flag)),
            None => before,
        }
    }
}

/// The known flags of a grid with the indices of their rows and columns, row by row.
pub open spec fn known_in_grid(grid: Grid) -> Seq<(Local, Local, bool)>
    decreases grid.len(),
{
    if grid.len() == 0 {
        Seq::empty()
    } else {
        known_in_grid(grid.drop_last()) + known_in_row((grid.len() - 1) as usize, grid.last())
    }
}

/// The entries of one block, each with the index of the block.
pub open spec fn in_block(bb: usize, entries: Seq<(Local, String)>) -> Seq<(usize, usize, String)> {
    Seq::new(entries.len(), |e: int| (bb, entries[e].0, entries[e].1))
}

/// The entries of all blocks, each with the index of its block, block by block.
pub open spec fn in_blocks(blocks: Seq<Vec<(Local, String)>>) -> Seq<(usize, usize, String)>
    decreases blocks.len(),
{
    if blocks.len() == 0 {
        Seq::empty()
    } else {
        in_blocks(blocks.drop_last()) + in_block((blocks.len() - 1) as usize, blocks.last()@)
    }
}

/// Lists the known flags.
pub(crate) fn list_flags(v: &Flags) -> (result: Vec<(usize, bool)>)
    ensures
        result@ == known_flags(flags(*v)),
{
    let mut entries: Vec<(usize, bool)> = Vec::new();
    let n = flags_len(v);
    for i in 0..n
        invariant
            n == flags(*v).len(),
            entries@ == known_flags(flags(*v).take(i as int)),
    {
        proof {
            assert(flags(*v).take(i + 1).drop_last() =~= flags(*v).take(i as int));
        }
        if let Some(flag) = flags_index(v, i) {
            entries.push((i, flag));
        }
    }
    assert(flags(*v).take(n as int) =~= flags(*v));
    entries
}

/// Lists the known flags of a grid of `n` rows.
pub(crate) fn list_rows(v: &FlagRows, n: usize) -> (result: Vec<(Local, Local, bool)>)
    requires
        is_square(rows(*v), n as nat),
    ensures
        result@ == known_in_grid(rows(*v)),
{
    let ghost grid = rows(*v);
    let mut entries: Vec<(Local, Local, bool)> = Vec::new();
    for i in 0..n
        invariant
            grid == rows(*v),
            is_square(grid, n as nat),
            entries@ == known_in_grid(grid.take(i as int)),
    {
        let ghost before = entries@;
        let ghost row = grid[i as int];
        for k in 0..n
            invariant
                i < n,
                grid == rows(*v),
                is_square(grid, n as nat),
                row == grid[i as int],
                entries@ == before + known_in_row(i, row.take(k as int)),
        {
            proof {
                assert(row.take(k + 1).drop_last() =~= row.take(k as int));
            }
            if let Some(flag) = rows_index(v, i, k) {
                entries.push((i, k, flag));
            }
        }
        proof {
            assert(row.take(n as int) =~= row);
            assert(grid.take(i + 1).drop_last() =~= grid.take(i as int));
        }
    }
    assert(grid.take(n as int) =~= grid);
    entries
}

/// Lists the entries of all blocks, each with the index of its block.
pub fn list_blocks(blocks: &Vec<Vec<(Local, String)>>) -> (result: Vec<(usize, usize, String)>)
    ensures
        result@ == in_blocks(blocks@),
{
    let mut entries: Vec<(usize, usize, String)> = Vec::new();
    for bb in 0..blocks.len()
        invariant
            entries@ == in_blocks(blocks@.take(bb as int)),
    {
        let ghost before = entries@;
        let block = &blocks[bb];
        for e in 0..block.len()
            invariant
                block@ == blocks@[bb as int]@,
                entries@ == before + in_block(bb, block@.take(e as int)),
        {
            let local: Local = block[e].0;
            let text: String = block[e].1.clone();
            entries.push((bb, local, text));
            proof {
                assert(in_block(bb, block@.take(e + 1)) =~= in_block(bb, block@.take(e as int)).push(
                    (bb, local, text),
                ));
            }
        }
        proof {
            assert(block@.take(block.len() as int) =~= block@);
            assert(blocks@.take(bb + 1).drop_last() =~= blocks@.take(bb as int));
        }
    }
    assert(blocks@.take(blocks.len() as int) =~= blocks@);
    entries
}

/// The listing of flags holds an index with a flag exactly if the flag there is known to be that.
pub proof fn law_known_flags(flags: Seq<Option<bool>>, i: usize, flag: bool)
    requires
        flags.len() <= usize::MAX,
    ensures
        known_flags(flags).contains((i, flag)) <==> i < flags.len() && flags[i as int] == Some(
            flag,
        ),
    decreases flags.len(),
{
    if flags.len() > 0 {
        let before = known_flags(flags.drop_last());
        law_known_flags(flags.drop_last(), i, flag);
        if let Some(last) = flags.last() {
            lemma_push_contains(before, ((flags.len() - 1) as usize, last), (i, flag));
        }
    }
}

/// The listing of flags is in the strict order of the indices.
pub proof fn law_known_flags_in_order(flags: Seq<Option<bool>>, a: int, b: int)
    requires
        flags.len() <= usize::MAX,
        0 <= a < b < known_flags(flags).len(),
    ensures
        known_flags(flags)[a].0 < known_flags(flags)[b].0,
    decreases flags.len(),
{
    let before = known_flags(flags.drop_last());
    if b < before.len() {
        law_known_flags_in_order(flags.drop_last(), a, b);
    } else {
        let entry = before[a];
        assert(before.contains(entry));
        law_known_flags(flags.drop_last(), entry.0, entry.1);
    }
}

/// What a sequence holds with one more item at its end.
proof fn lemma_push_contains<T>(s: Seq<T>, last: T, item: T)
    ensures
        s.push(last).contains(item) <==> s.contains(item) || item == last,
{
    if s.contains(item) {
        let e = choose|e: int| 0 <= e < s.len() && s[e] == item;
        assert(s.push(last)[e] == item);
    }
    if item == last {
        assert(s.push(last)[s.len() as int] == item);
    }
}

/// What a sequence holds that is made of two.
proof fn lemma_append_contains<T>(first: Seq<T>, second: Seq<T>, item: T)
    ensures
        (first + second).contains(item) <==> first.contains(item) || second.contains(item),
{
    if first.contains(item) {
        let e = choose|e: int| 0 <= e < first.len() && first[e] == item;
        assert((first + second)[e] == item);
    }
    if second.contains(item) {
        let e = choose|e: int| 0 <= e < second.len() && second[e] == item;
        assert((first + second)[first.len() + e] == item);
    }
}

/// What the listing of a row holds.
proof fn lemma_known_in_row(
    index: usize,
    row: Seq<Option<bool>>,
    i: Local,
    k: Local,
    flag: bool,
)
    requires
        row.len() <= usize::MAX,
    ensures
        known_in_row(index, row).contains((i, k, flag)) <==> i == index && k < row.len()
            && row[k as int] == Some(flag),
    decreases row.len(),
{
    if row.len() > 0 {
        let before = known_in_row(index, row.drop_last());
        lemma_known_in_row(index, row.drop_last(), i, k, flag);
        if let Some(last) = row.last() {
            lemma_push_contains(before, (index, (row.len() - 1) as usize, last), (i, k, flag));
        }
    }
}

/// The listing of a grid holds two locals with a flag exactly if the flag at the row of the first
/// and the column of the second is known to be that.
pub proof fn law_known_in_grid(grid: Grid, n: nat, i: Local, k: Local, flag: bool)
    requires
        grid.len() <= usize::MAX,
        n <= usize::MAX,
        forall|r: int| 0 <= r < grid.len() ==> (#[trigger] grid[r]).len() == n,
    ensures
        known_in_grid(grid).contains((i, k, flag)) <==> i < grid.len() && k < n
            && grid[i as int][k as int] == Some(flag),
    decreases grid.len(),
{
    if grid.len() > 0 {
        let fewer = grid.drop_last();
        let index = (grid.len() - 1) as usize;
        assert(grid.last().len() == n);
        assert forall|r: int| 0 <= r < fewer.len() implies (#[trigger] fewer[r]).len() == n by {
            assert(fewer[r] == grid[r]);
        }
        law_known_in_grid(fewer, n, i, k, flag);
        lemma_known_in_row(index, grid.last(), i, k, flag);
        lemma_append_contains(
            known_in_grid(fewer),
            known_in_row(index, grid.last()),
            (i, k, flag),
        );
    }
}

/// The listing of a row is in the strict order of the columns.
proof fn lemma_known_in_row_in_order(index: usize, row: Seq<Option<bool>>, a: int, b: int)
    requires
        row.len() <= usize::MAX,
        0 <= a < b < known_in_row(index, row).len(),
    ensures
        known_in_row(index, row)[a].1 < known_in_row(index, row)[b].1,
    decreases row.len(),
{
    let before = known_in_row(index, row.drop_last());
    if b < before.len() {
        lemma_known_in_row_in_order(index, row.drop_last(), a, b);
    } else {
        let entry = before[a];
        assert(before.contains(entry));
        lemma_known_in_row(index, row.drop_last(), entry.0, entry.1, entry.2);
    }
}

/// The listing of a grid is in the strict order of the rows, and of the columns within a row.
pub proof fn law_known_in_grid_in_order(grid: Grid, n: nat, a: int, b: int)
    requires
        grid.len() <= usize::MAX,
        n <= usize::MAX,
        forall|r: int| 0 <= r < grid.len() ==> (#[trigger] grid[r]).len() == n,
        0 <= a < b < known_in_grid(grid).len(),
    ensures
        known_in_grid(grid)[a].0 <= known_in_grid(grid)[b].0,
        known_in_grid(grid)[a].0 == known_in_grid(grid)[b].0 ==> known_in_grid(grid)[a].1
            < known_in_grid(grid)[b].1,
    decreases grid.len(),
{
    let fewer = grid.drop_last();
    let index = (grid.len() - 1) as usize;
    let before = known_in_grid(fewer);
    let row = known_in_row(index, grid.last());
    assert(grid.last().len() == n);
    assert forall|r: int| 0 <= r < fewer.len() implies (#[trigger] fewer[r]).len() == n by {
        assert(fewer[r] == grid[r]);
    }
    if b < before.len() {
        law_known_in_grid_in_order(fewer, n, a, b);
    } else {
        let second = row[b - before.len()];
        assert(row.contains(second));
        lemma_known_in_row(index, grid.last(), second.0, second.1, second.2);
        if a < before.len() {
            let first = before[a];
            assert(before.contains(first));
            law_known_in_grid(fewer, n, first.0, first.1, first.2);
        } else {
            let first = row[a - before.len()];
            assert(row.contains(first));
            lemma_known_in_row(index, grid.last(), first.0, first.1, first.2);
            lemma_known_in_row_in_order(index, grid.last(), a - before.len(), b - before.len());
        }
    }
}

/// The listing of blocks holds a block with an entry exactly if the block has that entry.
pub proof fn law_in_blocks(
    blocks: Seq<Vec<(Local, String)>>,
    bb: usize,
    local: Local,
    text: String,
)
    requires
        blocks.len() <= usize::MAX,
    ensures
        in_blocks(blocks).contains((bb, local, text)) <==> bb < blocks.len()
            && blocks[bb as int]@.contains((local, text)),
    decreases blocks.len(),
{
    if blocks.len() > 0 {
        let index = (blocks.len() - 1) as usize;
        let entries = blocks.last()@;
        let listed = in_block(index, entries);
        law_in_blocks(blocks.drop_last(), bb, local, text);
        lemma_append_contains(in_blocks(blocks.drop_last()), listed, (bb, local, text));
        if listed.contains((bb, local, text)) {
            let e = choose|e: int| 0 <= e < listed.len() && listed[e] == (bb, local, text);
            assert(entries[e] == (local, text));
        }
        if bb == index && entries.contains((local, text)) {
            let e = choose|e: int| 0 <= e < entries.len() && entries[e] == (local, text);
            assert(listed[e] == (bb, local, text));
        }
    }
}

/// One more block adds its entries to the listing of blocks: behind the others, in their own order,
/// each with the index of the block. Without blocks there are none.
pub proof fn law_blocks_are_listed_in_order(
    blocks: Seq<Vec<(Local, String)>>,
    block: Vec<(Local, String)>,
)
    requires
        blocks.len() < usize::MAX,
    ensures
        ({
            let before = in_blocks(blocks);
            let after = in_blocks(blocks.push(block));
            &&& in_blocks(Seq::empty()).len() == 0
            &&& after.len() == before.len() + block.len()
            &&& forall|e: int| 0 <= e < before.len() ==> #[trigger] after[e] == before[e]
            &&& forall|e: int|
                0 <= e < block.len() ==> after[before.len() + e] == (
                    blocks.len() as usize,
                    (#[trigger] block[e]).0,
                    block[e].1,
                )
        }),
{
    assert(blocks.push(block).drop_last() =~= blocks);
    let index = blocks.len() as usize;
    assert forall|e: int| 0 <= e < block.len() implies in_blocks(
        blocks.push(block),
    )[in_blocks(blocks).len() + e] == (index, (#[trigger] block[e]).0, block[e].1) by {
        assert(in_block(index, block@)[e] == (index, block[e].0, block[e].1));
    }
}

} // verus!
