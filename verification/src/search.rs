//! Leaf-evaluation modes of the test-time tree search.

use vstd::prelude::*;

verus! {

/// Leaf-evaluation mode for the tree search.
#[derive(Debug, Clone, Copy, PartialEq, Eq, Structural)]
pub enum LeafEval {
    /// Short multi-turn rollout to `horizon` completed game rounds, then metric.
    Rollout { horizon: i64 },
    /// Direct static evaluation of the leaf state (no turns simulated).
    Static,
    /// Evaluate the leaf with a learned value net (falls back to `Static`).
    Value,
}

} // verus!
