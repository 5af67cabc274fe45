//! Widths of the global feature vectors.

use vstd::prelude::*;

verus! {

/// Width of the global feature vector (index 35 is the constant bias).
pub const GLOBAL_DIM: usize = 36;

/// Number of board-invariant spatial summary features appended for the value net.
pub const SPATIAL_GLOBAL_DIM: usize = 5;

/// Input width of the spatial value net: 36 global + 5 spatial summaries = 41.
pub const VALUE_SPATIAL_DIM: usize = GLOBAL_DIM + SPATIAL_GLOBAL_DIM;

} // verus!
