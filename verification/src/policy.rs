//! The action-scoring network's input layout and the reproducible xorshift32
//! generator used for blunders and softmax sampling.

use vstd::prelude::*;
use vstd::arithmetic::power2::*;
use crate::candidates::{INTENT_COUNT, LOCAL_DIM};
use crate::features::GLOBAL_DIM;

verus! {

/// MLP input width for the action-scoring network: 36 global + 16 intent
/// one-hot + 16 local = 68.
pub const POLICY_INPUT_DIM: usize = GLOBAL_DIM + INTENT_COUNT + LOCAL_DIM;

/// Default architecture: input → 24 → 16 → 1.
pub fn default_arch() -> (r: [usize; 4])
    ensures
        r@ == seq![POLICY_INPUT_DIM, 24usize, 16usize, 1usize],
{
    let r = [POLICY_INPUT_DIM, 24, 16, 1];
    proof {
        assert(r@ =~= seq![POLICY_INPUT_DIM, 24usize, 16usize, 1usize]);
    }
    r
}

// ---------------------------------------------------------------------------
// xorshift32
// ---------------------------------------------------------------------------

/// Number of low bits an `f64` must drop to hold `p`: 0 below 2^53, one more
/// per doubling above.
pub open spec fn f64_shift(p: nat) -> nat
    decreases p,
{
    if p < 0x20_0000_0000_0000 {
        0
    } else {
        1 + f64_shift(p / 2)
    }
}

/// The `f64` nearest to the non-negative integer `p` (ties to even), as an
/// integer: `p` rounded to a multiple of `2^f64_shift(p)`.
pub open spec fn f64_round(p: nat) -> nat {
    let u = pow2(f64_shift(p));
    let q = p / u;
    let rem = p % u;
    if 2 * rem > u || (2 * rem == u && q % 2 == 1) {
        (q + 1) * u
    } else {
        q * u
    }
}

/// The seeded state: `seed * 2654435761` rounded to the nearest `f64`, then
/// reduced modulo 2^32, or `0x9e3779b9` if that is zero.
pub open spec fn spec_seed_state(seed: u32) -> u32 {
    let s = f64_round((seed as nat) * 2654435761) % 0x1_0000_0000;
    if s == 0 {
        0x9e3779b9u32
    } else {
        s as u32
    }
}

/// One xorshift32 step (shifts 13, 17, 5; logical right shift).
pub open spec fn xorshift32(x: u32) -> u32 {
    let a = x ^ ((x << 13u32) as u32);
    let b = a ^ (a >> 17u32);
    b ^ ((b << 5u32) as u32)
}

/// xorshift32 matching the trace RNG: seeded with the game seed, consumed only
/// at temperature > 0 or blunder > 0.
pub struct XorShift32 {
    state: u32,
}

impl XorShift32 {
    /// The current state.
    pub closed spec fn spec_state(&self) -> u32 {
        self.state
    }

    /// A generator seeded with `seed`.
    pub fn new(seed: u32) -> (r: Self)
        ensures
            r.spec_state() == spec_seed_state(seed),
            r.spec_state() != 0,
    {
        proof {
            assert((seed as nat) * 2654435761 < 0x1_0000_0000_0000_0000) by (nonlinear_arith)
                requires
                    seed < 0x1_0000_0000,
            ;
        }
        let p: u64 = (seed as u64) * 2654435761u64;
        let ghost pn = p as nat;
        // find the f64 precision shift and the truncated quotient
        let mut t: u64 = p;
        let mut s: u64 = 0;
        let mut u: u64 = 1;
        proof {
            lemma2_to64();
        }
        while t >= 0x20_0000_0000_0000
            invariant
                p == pn,
                u as nat == pow2(s as nat),
                t as nat == pn / pow2(s as nat),
                f64_shift(pn) == s + f64_shift(t as nat),
                s <= 11,
                t as nat * u as nat <= pn,
                pn < 0x1_0000_0000_0000_0000,
                s == 0 || pn >= pow2((s + 52) as nat),
            decreases t,
        {
            proof {
                lemma2_to64();
                lemma2_to64_rest();
                lemma_pow2_pos(s as nat);
                assert(f64_shift(t as nat) == 1 + f64_shift((t / 2) as nat));
                lemma_pow2_adds(s as nat, 1);
                lemma_pow2_adds(53, s as nat);
                lemma_div_denominator_pow2(pn, s as nat);
                assert(pn >= pow2(53) * pow2(s as nat)) by (nonlinear_arith)
                    requires
                        t as nat * u as nat <= pn,
                        t >= pow2(53),
                        u as nat == pow2(s as nat),
                ;
                if 53 + s >= 64 {
                    if 53 + s > 64 {
                        lemma_pow2_strictly_increases(64, (53 + s) as nat);
                    }
                    assert(false);
                }
            }
            t = t / 2;
            u = u * 2;
            s = s + 1;
            proof {
                lemma_pow2_pos(s as nat);
                lemma_pow2_mul_le(t, u, pn, s as nat);
            }
        }
        let ghost un = u as nat;
        proof {
            lemma_pow2_pos(s as nat);
            vstd::arithmetic::div_mod::lemma_fundamental_div_mod(pn as int, un as int);
            vstd::arithmetic::div_mod::lemma_mod_pos_bound(pn as int, un as int);
            assert(t as nat == pn / un);
            assert(f64_shift(t as nat) == 0);
            assert(t as nat * un == un * (pn / un)) by (nonlinear_arith)
                requires
                    t as nat == pn / un,
            ;
        }
        let rem: u64 = p - t * u;
        proof {
            assert(rem as nat == pn % un);
            lemma2_to64();
            if s < 11 {
                lemma_pow2_strictly_increases(s as nat, 11);
            }
            assert(u <= 2048);
            assert(t < 0x20_0000_0000_0000);
            assert((t as nat + 1) * (u as nat) <= 0x20_0000_0000_0000 * 2048) by (nonlinear_arith)
                requires
                    t < 0x20_0000_0000_0000,
                    u <= 2048,
            ;
        }
        let up = if 2 * (rem as u128) > (u as u128) || (2 * (rem as u128) == (u as u128) && t % 2 == 1) {
            1u128
        } else {
            0u128
        };
        let rounded: u128 = ((t as u128) + up) * (u as u128);
        let m: u128 = rounded % 0x1_0000_0000;
        let mut st: u32 = m as u32;
        if st == 0 {
            st = 0x9e3779b9;
        }
        XorShift32 { state: st }
    }

    /// Advance one xorshift32 step and return the new state; the next sample
    /// in [0, 1) is that state over 2^32.
    pub fn next_u32(&mut self) -> (r: u32)
        ensures
            r == xorshift32(old(self).spec_state()),
            final(self).spec_state() == r,
    {
        let mut s = self.state;
        s = s ^ (s << 13);
        s = s ^ (s >> 17);
        s = s ^ (s << 5);
        self.state = s;
        s
    }
}

/// `t*u` stays below `p` after halving `t` and doubling `u`.
proof fn lemma_pow2_mul_le(t: u64, u: u64, pn: nat, s: nat)
    requires
        t as nat == pn / pow2(s),
        u as nat == pow2(s),
        pow2(s) > 0,
    ensures
        t as nat * u as nat <= pn,
{
    vstd::arithmetic::div_mod::lemma_fundamental_div_mod(pn as int, pow2(s) as int);
    vstd::arithmetic::div_mod::lemma_mod_pos_bound(pn as int, pow2(s) as int);
    assert((pn / pow2(s)) * pow2(s) <= pn) by (nonlinear_arith)
        requires
            pn == pow2(s) * (pn / pow2(s)) + pn % pow2(s),
            pn % pow2(s) >= 0,
    ;
}

/// Halving the quotient by a power of two is dividing by the next power.
proof fn lemma_div_denominator_pow2(pn: nat, s: nat)
    ensures
        (pn / pow2(s)) / 2 == pn / pow2(s + 1),
{
    lemma_pow2_pos(s);
    lemma_pow2_adds(s, 1);
    lemma2_to64();
    vstd::arithmetic::div_mod::lemma_div_denominator(pn as int, pow2(s) as int, 2);
    assert(pow2(s) * 2 == pow2(s + 1));
}

/// xorshift32 never maps a non-zero state to zero, so the generator never
/// gets stuck.
pub proof fn lemma_xorshift32_nonzero(x: u32)
    requires
        x != 0,
    ensures
        xorshift32(x) != 0,
{
    let a = x ^ ((x << 13u32) as u32);
    assert(a != 0) by (bit_vector)
        requires
            x != 0,
            a == x ^ ((x << 13u32) as u32),
    ;
    let b = a ^ (a >> 17u32);
    assert(b != 0) by (bit_vector)
        requires
            a != 0,
            b == a ^ (a >> 17u32),
    ;
    let c = b ^ ((b << 5u32) as u32);
    assert(c != 0) by (bit_vector)
        requires
            b != 0,
            c == b ^ ((b << 5u32) as u32),
    ;
}

} // verus!
