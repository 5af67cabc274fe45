//! The shape of the spatial policy/value network: a convolutional trunk
//! (3x3 convolutions, an optional depth-preserving residual block), a value
//! head on the pooled embedding plus per-state scalars, and a policy head on
//! the board embedding, the target-cell embedding, the local features and the
//! intent one-hot. Only the shape and its parameter count live here.

use vstd::prelude::*;

verus! {

/// Spatial input planes of the board encoding.
pub const PLANE_COUNT: usize = 27;

/// The widths of a spatial network.
#[derive(Clone, Copy, Debug, PartialEq, Eq, Structural)]
pub struct SpatialArch {
    pub plane_count: usize,
    pub local_dim: usize,
    pub intent_dim: usize,
    /// Per-state scalar features fed to the value head (0 = none).
    pub value_scalar_dim: usize,
    /// Trunk hidden channels (first convolution).
    pub d1: usize,
    /// Embedding channels (second convolution).
    pub d: usize,
    /// Value head hidden width.
    pub hv: usize,
    /// Policy head hidden width.
    pub hp: usize,
    /// The trunk carries the residual `d -> d` block.
    pub residual: bool,
}

/// Parameters of a 3x3 convolution: weights and one bias per output channel.
pub open spec fn conv_params(in_ch: int, out_ch: int) -> int {
    out_ch * in_ch * 9 + out_ch
}

/// Parameters of a dense layer: weights and one bias per output.
pub open spec fn dense_params(nin: int, nout: int) -> int {
    nin * nout + nout
}

/// Width of the policy head's input: board and target embeddings, local
/// features, intent one-hot.
pub open spec fn spec_policy_in(a: SpatialArch) -> int {
    2 * a.d + a.local_dim + a.intent_dim
}

/// Every parameter of the network.
pub open spec fn spec_arch_params(a: SpatialArch) -> int {
    conv_params(a.plane_count as int, a.d1 as int) + conv_params(a.d1 as int, a.d as int) + (if a.residual {
        conv_params(a.d as int, a.d as int)
    } else {
        0
    }) + dense_params(a.d + a.value_scalar_dim, a.hv as int) + dense_params(a.hv as int, 1) + dense_params(
        spec_policy_in(a),
        a.hp as int,
    ) + dense_params(a.hp as int, 1)
}

/// Widths small enough that every count is exact in 64 bits.
pub open spec fn arch_fits(a: SpatialArch) -> bool {
    &&& a.plane_count < 0x100_0000
    &&& a.local_dim < 0x100_0000
    &&& a.intent_dim < 0x100_0000
    &&& a.value_scalar_dim < 0x100_0000
    &&& a.d1 < 0x100_0000
    &&& a.d < 0x100_0000
    &&& a.hv < 0x100_0000
    &&& a.hp < 0x100_0000
}

fn conv_count(in_ch: u64, out_ch: u64) -> (r: u64)
    requires
        in_ch < 0x100_0000,
        out_ch < 0x100_0000,
    ensures
        r == conv_params(in_ch as int, out_ch as int),
        r < 0x100_0000_0000_0000,
{
    assert(out_ch * in_ch < 0x1_0000_0000_0000) by (nonlinear_arith)
        requires
            in_ch < 0x100_0000,
            out_ch < 0x100_0000,
    ;
    out_ch * in_ch * 9 + out_ch
}

fn dense_count(nin: u64, nout: u64) -> (r: u64)
    requires
        nin < 0x400_0000,
        nout < 0x100_0000,
    ensures
        r == dense_params(nin as int, nout as int),
        r < 0x100_0000_0000_0000,
{
    assert(nin * nout < 0x4_0000_0000_0000) by (nonlinear_arith)
        requires
            nin < 0x400_0000,
            nout < 0x100_0000,
    ;
    nin * nout + nout
}

impl SpatialArch {
    /// Width of the policy head's input.
    pub fn policy_in_dim(&self) -> (r: usize)
        requires
            arch_fits(*self),
        ensures
            r == spec_policy_in(*self),
    {
        2 * self.d + self.local_dim + self.intent_dim
    }

    /// Total scalar parameter count (all convolution and dense weights and
    /// biases).
    pub fn param_count(&self) -> (r: usize)
        requires
            arch_fits(*self),
            spec_arch_params(*self) <= usize::MAX,
        ensures
            r == spec_arch_params(*self),
    {
        let c1 = conv_count(self.plane_count as u64, self.d1 as u64);
        let c2 = conv_count(self.d1 as u64, self.d as u64);
        let c3 = if self.residual {
            conv_count(self.d as u64, self.d as u64)
        } else {
            0
        };
        let v1 = dense_count((self.d + self.value_scalar_dim) as u64, self.hv as u64);
        let v2 = dense_count(self.hv as u64, 1);
        let p1 = dense_count((2 * self.d + self.local_dim + self.intent_dim) as u64, self.hp as u64);
        let p2 = dense_count(self.hp as u64, 1);
        let total: u64 = c1 + c2 + c3 + v1 + v2 + p1 + p2;
        total as usize
    }

    /// The deployed round-3 arch: trunk 32/48, heads 64/64, residual block,
    /// no value scalars.
    pub fn default_for(plane_count: usize, local_dim: usize, intent_dim: usize) -> (r: Self)
        ensures
            r == (SpatialArch {
                plane_count,
                local_dim,
                intent_dim,
                value_scalar_dim: 0,
                d1: 32,
                d: 48,
                hv: 64,
                hp: 64,
                residual: true,
            }),
    {
        SpatialArch { plane_count, local_dim, intent_dim, value_scalar_dim: 0, d1: 32, d: 48, hv: 64, hp: 64, residual: true }
    }

    /// The trainer's deployed arch: as [`SpatialArch::default_for`] with
    /// `value_scalar_dim` value-head scalars.
    pub fn default_with_value_scalars(plane_count: usize, local_dim: usize, intent_dim: usize, value_scalar_dim: usize) -> (r:
        Self)
        ensures
            r == (SpatialArch {
                plane_count,
                local_dim,
                intent_dim,
                value_scalar_dim,
                d1: 32,
                d: 48,
                hv: 64,
                hp: 64,
                residual: true,
            }),
    {
        SpatialArch { plane_count, local_dim, intent_dim, value_scalar_dim, d1: 32, d: 48, hv: 64, hp: 64, residual: true }
    }

    /// The small round-1/2 arch: trunk 16/24, heads 24/24, no residual block.
    pub fn default_small_with_value_scalars(
        plane_count: usize,
        local_dim: usize,
        intent_dim: usize,
        value_scalar_dim: usize,
    ) -> (r: Self)
        ensures
            r == (SpatialArch {
                plane_count,
                local_dim,
                intent_dim,
                value_scalar_dim,
                d1: 16,
                d: 24,
                hv: 24,
                hp: 24,
                residual: false,
            }),
    {
        SpatialArch { plane_count, local_dim, intent_dim, value_scalar_dim, d1: 16, d: 24, hv: 24, hp: 24, residual: false }
    }
}

} // verus!
