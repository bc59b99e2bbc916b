//! The index vectors of `rustc_index`, as far as the cache of a body uses them.
//!
//! `rustc_index` is published as `ra-ap-rustc_index`. Its `IndexVec` is a `Vec` behind an index
//! type. The cache of a body holds two of them: one flag for each local, and one row of flags for
//! each local. Nothing else in the library touches an `IndexVec`: what the functions below that
//! call into it promise is believed, not proved.
use ra_ap_rustc_index::IndexVec;
use vstd::prelude::*;

verus! {

/// An `IndexVec` with one flag for each local, opaque.
#[verifier::external_body]
pub struct Flags {
    raw: IndexVec<usize, Option<bool>>,
}

/// An `IndexVec` with one row of flags for each local, opaque.
#[verifier::external_body]
pub struct FlagRows {
    raw: IndexVec<usize, IndexVec<usize, Option<bool>>>,
}

/// The flags that an index vector of flags holds, in the order of their indices.
pub uninterp spec fn flags(v: Flags) -> Seq<Option<bool>>;

/// The rows that an index vector of rows holds, in the order of their indices.
pub uninterp spec fn rows(v: FlagRows) -> Seq<Seq<Option<bool>>>;

/// Whether one allocation can hold `n` rows. A row takes three machine words there, 24 bytes at
/// most, and no allocation is larger than `isize::MAX` bytes. A row of `n` flags takes `n` bytes.
pub open spec fn rows_fit(n: nat) -> bool {
    24 * n <= isize::MAX
}

/// Calls `IndexVec::from_elem_n`, which makes a vector of `n` copies of one flag, and panics where
/// one allocation cannot hold them.
#[verifier::external_body]
pub(crate) fn flags_from_elem_n(flag: Option<bool>, n: usize) -> (result: Flags)
    requires
        n <= isize::MAX,
    ensures
        flags(result) == Seq::new(n as nat, |i: int| flag),
{
    Flags { raw: IndexVec::from_elem_n(flag, n) }
}

/// Calls `IndexSlice::len`, which counts the flags of a vector.
#[verifier::external_body]
pub(crate) fn flags_len(v: &Flags) -> (result: usize)
    ensures
        result == flags(*v).len(),
{
    v.raw.len()
}

/// Calls `IndexSlice::index`, which reads the flag at an index, and panics on an index past the
/// end.
#[verifier::external_body]
pub(crate) fn flags_index(v: &Flags, i: usize) -> (result: Option<bool>)
    requires
        i < flags(*v).len(),
    ensures
        result == flags(*v)[i as int],
{
    v.raw[i]
}

/// Calls `IndexSlice::index_mut`, which gives access to the flag at an index, and panics on an
/// index past the end. The flag there becomes `flag` and the others stay.
#[verifier::external_body]
pub(crate) fn flags_index_mut(v: &mut Flags, i: usize, flag: Option<bool>)
    requires
        i < flags(*old(v)).len(),
    ensures
        flags(*final(v)) == flags(*old(v)).update(i as int, flag),
{
    v.raw[i] = flag;
}

/// A row of `n` flags, none of them known.
pub(crate) fn unknown_row(n: usize) -> (result: Flags)
    requires
        n <= isize::MAX,
    ensures
        flags(result) == Seq::new(n as nat, |i: int| None::<bool>),
{
    flags_from_elem_n(None, n)
}

/// Calls `IndexVec::from_fn_n`, which makes a vector of `n` rows, each of them what the closure
/// returns for its index: here a row of `n` flags, none of them known. It panics where one
/// allocation cannot hold the rows.
#[verifier::external_body]
pub(crate) fn rows_from_fn_n(n: usize) -> (result: FlagRows)
    requires
        rows_fit(n as nat),
    ensures
        rows(result) == Seq::new(n as nat, |i: int| Seq::new(n as nat, |j: int| None::<bool>)),
{
    FlagRows { raw: IndexVec::from_fn_n(|_| unknown_row(n).raw, n) }
}

/// Calls `IndexSlice::index` twice, which reads the flag at column `j` of row `i`, and panics on
/// an index past the end.
#[verifier::external_body]
pub(crate) fn rows_index(v: &FlagRows, i: usize, j: usize) -> (result: Option<bool>)
    requires
        i < rows(*v).len(),
        j < rows(*v)[i as int].len(),
    ensures
        result == rows(*v)[i as int][j as int],
{
    v.raw[i][j]
}

/// Calls `IndexSlice::index_mut` twice, which gives access to the flag at column `j` of row `i`,
/// and panics on an index past the end. The flag there becomes `flag` and the others stay.
#[verifier::external_body]
pub(crate) fn rows_index_mut(v: &mut FlagRows, i: usize, j: usize, flag: Option<bool>)
    requires
        i < rows(*old(v)).len(),
        j < rows(*old(v))[i as int].len(),
    ensures
        rows(*final(v)) == rows(*old(v)).update(
            i as int,
            rows(*old(v))[i as int].update(j as int, flag),
        ),
{
    v.raw[i][j] = flag;
}

} // verus!
