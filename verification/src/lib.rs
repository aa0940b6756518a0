//! Core of a small least-squares plotting pipeline.
//!
//! A dataset is an ordered sequence of (x, y) pairs of IEEE 754 doubles.
//! Everything this crate decides about a dataset — which input lines yield a
//! point, which points share an x value, in what order distinct x values are
//! reported — depends only on the 64-bit patterns of those doubles, never on
//! their arithmetic. The crate therefore carries each coordinate as its raw
//! bit pattern (`u64`) and proves the discrete logic exactly: byte-order-mark
//! detection and UTF-16 unit assembly for the loader, the
//! two-parsed-tokens-per-line acceptance rule, and residual grouping by exact
//! bit-for-bit x equality. Floating-point evaluation of the fitted line and
//! of the group means is left to the caller, which converts bit patterns back
//! to doubles.

use vstd::prelude::*;

pub mod decode;
pub mod loader;
pub mod residuals;

verus! {

/// One observation: the x and y coordinates of a data point, each carried as
/// the raw 64-bit pattern of an IEEE 754 double. Two x values belong to the
/// same residual group exactly when their bit patterns are equal, so the bit
/// pattern is the identity this crate computes with.
#[derive(Clone, Copy, Debug, PartialEq, Eq, Structural)]
pub struct Point {
    pub x_bits: u64,
    pub y_bits: u64,
}

} // verus!
