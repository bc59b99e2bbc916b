//! Predicates on the locals of a MIR body.
//!
//! The cache of a body records which locals are null and which are products of which. Predicates
//! read it, and ask a null-pointer analysis and an interval analysis, which run when they are first
//! needed. The analyses themselves, and whatever only the compiler can compute, are handed in.
//!
//! * [`mir`]: the parts of a body that the predicates read.
//! * [`locals`]: the cache, and the predicates on it.
//! * [`value`]: what is known of the value of a local, and what casts make of it.
//! * [`relation`]: the product relation among the locals.
//! * [`internval_analysis`], [`null_analysis`], [`forward`]: what the predicates make of the
//!   analyses.
//! * [`debug_entries`]: what a debug listing of the cache shows.
//! * [`index_vec`]: the index vectors that hold the cache.
//! * [`locals_laws`], [`value_laws`], [`relation_laws`], [`internval_laws`], [`mir_laws`],
//!   [`call_laws`]: what all this means.

pub mod call_laws;
pub mod debug_entries;
pub mod forward;
pub mod index_vec;
pub mod internval_analysis;
pub mod internval_laws;
pub mod locals;
pub mod locals_laws;
pub mod mir;
pub mod mir_laws;
pub mod null_analysis;
pub mod relation;
pub mod relation_laws;
pub mod value;
pub mod value_laws;
