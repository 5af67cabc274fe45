//! Index arithmetic for channel-major (C, H, W) feature maps and the seeded
//! xorshift64 generator used to initialise the convolutional layers.

use vstd::prelude::*;

verus! {

/// The flat position of cell `(c, y, x)` in a `(C, H, W)` feature map.
pub open spec fn spec_idx(c: int, y: int, x: int, h: int, w: int) -> int {
    (c * h + y) * w + x
}

/// Flat index into a (C, H, W) feature map: `(c*H + y)*W + x`.
pub fn idx(c: usize, y: usize, x: usize, h: usize, w: usize) -> (r: usize)
    requires
        c * h + y <= usize::MAX,
        spec_idx(c as int, y as int, x as int, h as int, w as int) <= usize::MAX,
    ensures
        r == spec_idx(c as int, y as int, x as int, h as int, w as int),
{
    proof {
        assert(0 <= c * h) by (nonlinear_arith);
        assert(0 <= (c * h + y) * w) by (nonlinear_arith);
        assert(0 <= c * h <= c * h + y);
    }
    (c * h + y) * w + x
}


/// Flat base offset of channel `c` in a (C, H, W) feature map (`idx(c, 0, 0)`),
/// given the per-channel area `hw = h*w`.
pub fn in_ch_out(c: usize, hw: usize) -> (r: usize)
    requires
        c * hw <= usize::MAX,
    ensures
        r == c * hw,
{
    c * hw
}

/// Flat index of weight `[oc][ic][ky][kx]` of a convolution with `in_ch` input
/// channels and kernel size `k`.
pub fn conv_weight_idx(in_ch: usize, k: usize, oc: usize, ic: usize, ky: usize, kx: usize) -> (r: usize)
    requires
        oc * in_ch + ic <= usize::MAX,
        (oc * in_ch + ic) * k + ky <= usize::MAX,
        ((oc * in_ch + ic) * k + ky) * k + kx <= usize::MAX,
    ensures
        r == ((oc * in_ch + ic) * k + ky) * k + kx,
{
    proof {
        assert(0 <= oc * in_ch) by (nonlinear_arith);
        assert(0 <= (oc * in_ch + ic) * k) by (nonlinear_arith);
        assert(0 <= ((oc * in_ch + ic) * k + ky) * k) by (nonlinear_arith);
    }
    ((oc * in_ch + ic) * k + ky) * k + kx
}

/// The cells of a (C, H, W) map are laid out one after another: every valid
/// cell has an in-range index, and distinct cells have distinct indices.
pub proof fn lemma_idx_is_layout(c: int, y: int, x: int, c2: int, y2: int, x2: int, cc: int, h: int, w: int)
    requires
        0 <= c < cc,
        0 <= y < h,
        0 <= x < w,
        0 <= c2 < cc,
        0 <= y2 < h,
        0 <= x2 < w,
    ensures
        0 <= spec_idx(c, y, x, h, w) < cc * h * w,
        spec_idx(c, y, x, h, w) == spec_idx(c2, y2, x2, h, w) ==> c == c2 && y == y2 && x == x2,
{
    assert(0 <= spec_idx(c, y, x, h, w) < cc * h * w) by (nonlinear_arith)
        requires
            0 <= c < cc,
            0 <= y < h,
            0 <= x < w,
    ;
    if spec_idx(c, y, x, h, w) == spec_idx(c2, y2, x2, h, w) {
        let r1 = c * h + y;
        let r2 = c2 * h + y2;
        assert(r1 * w + x == r2 * w + x2);
        assert(r1 == r2 && x == x2) by (nonlinear_arith)
            requires
                r1 * w + x == r2 * w + x2,
                0 <= x < w,
                0 <= x2 < w,
                r1 >= 0,
                r2 >= 0,
        ;
        assert(c == c2 && y == y2) by (nonlinear_arith)
            requires
                c * h + y == c2 * h + y2,
                0 <= y < h,
                0 <= y2 < h,
                c >= 0,
                c2 >= 0,
        ;
    }
}

// ---------------------------------------------------------------------------
// Seeded xorshift64 generator for small random initialisation
// ---------------------------------------------------------------------------

/// The generator's state after seeding: a splitmix-style scramble of the seed,
/// never zero.
pub open spec fn spec_lcg_seed_state(seed: u64) -> u64 {
    let s = seed ^ 0x9e37_79b9_7f4a_7c15u64;
    if s == 0 {
        0x1234_5678_9abc_def0u64
    } else {
        s
    }
}

/// One xorshift64 step (shifts 13, 7, 17).
pub open spec fn xorshift64(x: u64) -> u64 {
    let a = x ^ ((x << 13u64) as u64);
    let b = a ^ (a >> 7u64);
    b ^ ((b << 17u64) as u64)
}

/// The seeded xorshift64 generator behind the layers' random initialisation.
pub struct Lcg {
    state: u64,
}

impl Lcg {
    /// The current state.
    pub closed spec fn spec_state(&self) -> u64 {
        self.state
    }

    /// Seed the generator (the scrambled seed, or a fixed non-zero state).
    pub fn new(seed: u64) -> (r: Self)
        ensures
            r.spec_state() == spec_lcg_seed_state(seed),
            r.spec_state() != 0,
    {
        let mut s = seed ^ 0x9e37_79b9_7f4a_7c15;
        if s == 0 {
            s = 0x1234_5678_9abc_def0;
        }
        Lcg { state: s }
    }

    /// Advance one xorshift64 step and return the new state. The top 53 bits
    /// of the result, scaled by 2^-53, are the next sample in [0, 1).
    pub fn next_u64(&mut self) -> (r: u64)
        ensures
            r == xorshift64(old(self).spec_state()),
            final(self).spec_state() == r,
    {
        let mut x = self.state;
        x = x ^ (x << 13);
        x = x ^ (x >> 7);
        x = x ^ (x << 17);
        self.state = x;
        x
    }
}

/// xorshift64 never maps a non-zero state to zero, so a seeded generator never
/// gets stuck.
pub proof fn lemma_xorshift64_nonzero(x: u64)
    requires
        x != 0,
    ensures
        xorshift64(x) != 0,
{
    let a = x ^ ((x << 13u64) as u64);
    assert(a != 0) by (bit_vector)
        requires
            x != 0,
            a == x ^ ((x << 13u64) as u64),
    ;
    let b = a ^ (a >> 7u64);
    assert(b != 0) by (bit_vector)
        requires
            a != 0,
            b == a ^ (a >> 7u64),
    ;
    let c = b ^ ((b << 17u64) as u64);
    assert(c != 0) by (bit_vector)
        requires
            b != 0,
            c == b ^ ((b << 17u64) as u64),
    ;
}

/// Global average pool: (C, H, W) → (C,), the mean over H*W of each channel.
#[derive(Debug, Clone, Copy, Default)]
pub struct GlobalAvgPool;

} // verus!
