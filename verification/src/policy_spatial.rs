//! The spatial policy input: the standard policy input followed by a block of
//! per-candidate spatial features, and the warm start that widens a trained
//! policy genome to that input without changing what it predicts.

use vstd::prelude::*;
use crate::mlp::{Genome, spec_param_count};
use crate::policy::POLICY_INPUT_DIM;

verus! {

/// Number of per-candidate spatial features appended after the standard input.
pub const SPATIAL_LOCAL_DIM: usize = 6;
/// Spatial policy input width = standard policy input + spatial block.
pub const POLICY_INPUT_DIM_SPATIAL: usize = POLICY_INPUT_DIM + SPATIAL_LOCAL_DIM;

/// Default spatial-policy architecture: input → 24 → 16 → 1.
pub fn default_arch_spatial() -> (r: [usize; 4])
    ensures
        r@ == seq![POLICY_INPUT_DIM_SPATIAL, 24usize, 16usize, 1usize],
{
    let r = [POLICY_INPUT_DIM_SPATIAL, 24, 16, 1];
    proof {
        assert(r@ =~= seq![POLICY_INPUT_DIM_SPATIAL, 24usize, 16usize, 1usize]);
    }
    r
}

/// The warm start of `base` (first-layer input width `in_old`, first hidden
/// width `h1`) as the parameter at flat position `k` of the widened genome.
pub open spec fn warm_param<P>(base: Seq<P>, in_old: int, h1: int, zero: P, k: int) -> P {
    let in_new = POLICY_INPUT_DIM_SPATIAL as int;
    if k < h1 * in_new {
        let j = k / in_new;
        let i = k % in_new;
        if i < in_old {
            base[j * in_old + i]
        } else {
            zero
        }
    } else if k < h1 * in_new + h1 {
        base[h1 * in_old + (k - h1 * in_new)]
    } else {
        base[k - (h1 * in_new + h1) + (h1 * in_old + h1)]
    }
}

/// Warm-start a spatial policy from a trained genome: layer 0 is widened to
/// `POLICY_INPUT_DIM_SPATIAL` inputs, whatever the base's input width. Of each
/// unit's weights the first `arch[0]` are the base's and the rest are `zero`;
/// the biases are kept, and every later layer is copied verbatim. Only for a
/// base of input width `POLICY_INPUT_DIM` are the `zero` weights exactly those
/// of the spatial inputs.
pub fn warmstart_spatial<P: Copy>(base: &Genome<P>, zero: P) -> (r: Genome<P>)
    requires
        base.arch@.len() >= 2,
        base.arch@[0] <= POLICY_INPUT_DIM_SPATIAL,
        base.arch@[1] * POLICY_INPUT_DIM_SPATIAL + base.arch@[1] <= usize::MAX,
        base.arch@[1] * base.arch@[0] + base.arch@[1] <= base.params@.len(),
        base.params@.len() - (base.arch@[1] * base.arch@[0] + base.arch@[1]) + base.arch@[1]
            * POLICY_INPUT_DIM_SPATIAL + base.arch@[1] <= usize::MAX,
    ensures
        r.arch@ == seq![POLICY_INPUT_DIM_SPATIAL].add(base.arch@.subrange(1, base.arch@.len() as int)),
        r.params@.len() == base.params@.len() - (base.arch@[1] * base.arch@[0] + base.arch@[1])
            + base.arch@[1] * POLICY_INPUT_DIM_SPATIAL + base.arch@[1],
        forall|k: int|
            0 <= k < r.params@.len() ==> #[trigger] r.params@[k] == warm_param(
                base.params@,
                base.arch@[0] as int,
                base.arch@[1] as int,
                zero,
                k,
            ),
{
    let in_old = base.arch[0];
    let in_new = POLICY_INPUT_DIM_SPATIAL;
    let h1 = base.arch[1];
    let ghost bp = base.params@;
    let plen = base.params.len();
    let mut new_arch: Vec<usize> = Vec::new();
    new_arch.push(in_new);
    let mut a: usize = 1;
    while a < base.arch.len()
        invariant
            1 <= a <= base.arch@.len(),
            new_arch@ == seq![in_new].add(base.arch@.subrange(1, a as int)),
        decreases base.arch@.len() - a,
    {
        new_arch.push(base.arch[a]);
        proof {
            assert(seq![in_new].add(base.arch@.subrange(1, a + 1)) =~= seq![in_new].add(
                base.arch@.subrange(1, a as int),
            ).push(base.arch@[a as int]));
        }
        a = a + 1;
    }
    proof {
        assert(h1 * in_old <= h1 * in_new) by (nonlinear_arith)
            requires
                in_old <= in_new,
        ;
    }
    let mut p: Vec<P> = Vec::new();
    // layer 0 weights, row-major by output unit
    let mut j: usize = 0;
    while j < h1
        invariant
            j <= h1,
            in_old <= in_new,
            base.arch@.len() >= 2,
            h1 == base.arch@[1],
            in_old == base.arch@[0],
            in_new == POLICY_INPUT_DIM_SPATIAL,
            bp == base.params@,
            plen == bp.len(),
            h1 * in_new + h1 <= usize::MAX,
            h1 * in_old + h1 <= bp.len(),
            p@.len() == j * in_new,
            forall|k: int| 0 <= k < p@.len() ==> #[trigger] p@[k] == warm_param(bp, in_old as int, h1 as int, zero, k),
        decreases h1 - j,
    {
        let mut i: usize = 0;
        while i < in_new
            invariant
                i <= in_new,
                j < h1,
                in_old <= in_new,
                base.arch@.len() >= 2,
                h1 == base.arch@[1],
                in_old == base.arch@[0],
                in_new == POLICY_INPUT_DIM_SPATIAL,
                bp == base.params@,
                plen == bp.len(),
            plen == bp.len(),
                h1 * in_new + h1 <= usize::MAX,
                h1 * in_old + h1 <= bp.len(),
                p@.len() == j * in_new + i,
                forall|k: int|
                    0 <= k < p@.len() ==> #[trigger] p@[k] == warm_param(bp, in_old as int, h1 as int, zero, k),
            decreases in_new - i,
        {
            proof {
                assert(j * in_new + i < h1 * in_new) by (nonlinear_arith)
                    requires
                        j < h1,
                        i < in_new,
                ;
                let k = j * in_new + i;
                assert(k / (in_new as int) == j && k % (in_new as int) == i) by (nonlinear_arith)
                    requires
                        k == j * in_new + i,
                        0 <= i < in_new,
                        j >= 0,
                ;
                if i < in_old {
                    assert(j * in_old + i < h1 * in_old) by (nonlinear_arith)
                        requires
                            j < h1,
                            i < in_old,
                    ;
                    assert(j * in_old <= h1 * in_old) by (nonlinear_arith)
                        requires
                            j < h1,
                    ;
                }
            }
            if i < in_old {
                p.push(base.params[j * in_old + i]);
            } else {
                p.push(zero);
            }
            i = i + 1;
        }
        proof {
            assert((j + 1) * in_new == j * in_new + in_new) by (nonlinear_arith);
        }
        j = j + 1;
    }
    // layer 0 biases
    let mut b: usize = 0;
    while b < h1
        invariant
            b <= h1,
            base.arch@.len() >= 2,
            h1 == base.arch@[1],
            in_old == base.arch@[0],
            in_new == POLICY_INPUT_DIM_SPATIAL,
            bp == base.params@,
            plen == bp.len(),
            h1 * in_new + h1 <= usize::MAX,
            h1 * in_old + h1 <= bp.len(),
            p@.len() == h1 * in_new + b,
            forall|k: int| 0 <= k < p@.len() ==> #[trigger] p@[k] == warm_param(bp, in_old as int, h1 as int, zero, k),
        decreases h1 - b,
    {
        proof {
            assert(h1 * in_old + b < bp.len());
        }
        p.push(base.params[h1 * in_old + b]);
        b = b + 1;
    }
    // later layers, verbatim
    let first_old = h1 * in_old + h1;
    let mut c: usize = first_old;
    while c < base.params.len()
        invariant
            first_old <= c <= bp.len(),
            first_old == h1 * in_old + h1,
            base.arch@.len() >= 2,
            h1 == base.arch@[1],
            in_old == base.arch@[0],
            in_new == POLICY_INPUT_DIM_SPATIAL,
            bp == base.params@,
            plen == bp.len(),
            bp.len() - first_old + h1 * in_new + h1 <= usize::MAX,
            p@.len() == h1 * in_new + h1 + (c - first_old),
            forall|k: int| 0 <= k < p@.len() ==> #[trigger] p@[k] == warm_param(bp, in_old as int, h1 as int, zero, k),
        decreases bp.len() - c,
    {
        p.push(base.params[c]);
        c = c + 1;
    }
    Genome { arch: new_arch, params: p }
}

/// A warm-started genome is well formed whenever its base is: its parameter
/// count matches its architecture.
pub proof fn lemma_warmstart_param_count(arch: Seq<usize>, len: int)
    requires
        arch.len() >= 2,
        len == spec_param_count(arch),
    ensures
        len - (arch[1] * arch[0] + arch[1]) + arch[1] * POLICY_INPUT_DIM_SPATIAL + arch[1] == spec_param_count(
            seq![POLICY_INPUT_DIM_SPATIAL].add(arch.subrange(1, arch.len() as int)),
        ),
    decreases arch.len(),
{
    let wide = seq![POLICY_INPUT_DIM_SPATIAL].add(arch.subrange(1, arch.len() as int));
    assert(arch[0] * arch[1] == arch[1] * arch[0]) by (nonlinear_arith);
    assert(wide[0] * wide[1] == wide[1] * wide[0]) by (nonlinear_arith);
    if arch.len() == 2 {
        assert(arch.drop_last().len() == 1);
        assert(spec_param_count(arch.drop_last()) == 0);
        assert(wide.len() == 2);
        assert(wide.drop_last().len() == 1);
        assert(spec_param_count(wide.drop_last()) == 0);
        assert(wide[0] == POLICY_INPUT_DIM_SPATIAL && wide[1] == arch[1]);
    } else {
        let shorter = arch.drop_last();
        assert(shorter[0] == arch[0] && shorter[1] == arch[1]);
        lemma_warmstart_param_count(shorter, spec_param_count(shorter));
        assert(wide.drop_last() =~= seq![POLICY_INPUT_DIM_SPATIAL].add(shorter.subrange(1, shorter.len() as int)));
        let n = arch.len();
        assert(wide[n - 2] == arch[n - 2] && wide[n - 1] == arch[n - 1]);
    }
}

} // verus!
