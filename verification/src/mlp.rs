//! The dense-network genome: an architecture (layer widths) and the flat
//! parameter vector that fills it. Per layer the weights come first
//! (`nin*nout`, row-major by output unit: output `j`'s weights live at
//! `offset + j*nin .. +nin`), then the `nout` biases (at `offset + nin*nout + j`).
//! The genome is generic in the parameter type; the trainer uses `f64`.

use vstd::prelude::*;

verus! {

/// A genome: the architecture plus the flat parameter vector that fills it.
#[derive(Debug, Clone)]
pub struct Genome<P> {
    pub arch: Vec<usize>,
    pub params: Vec<P>,
}

/// Parameters of the layers between consecutive widths of `arch`:
/// `nin*nout + nout` per layer.
pub open spec fn spec_param_count(arch: Seq<usize>) -> int
    decreases arch.len(),
{
    if arch.len() < 2 {
        0
    } else {
        let n = arch.len();
        spec_param_count(arch.drop_last()) + arch[n - 2] * arch[n - 1] + arch[n - 1]
    }
}

proof fn lemma_param_count_monotone(arch: Seq<usize>, k: int)
    requires
        1 <= k <= arch.len(),
    ensures
        0 <= spec_param_count(arch.take(k)) <= spec_param_count(arch),
    decreases arch.len() - k,
{
    lemma_param_count_nonneg(arch.take(k));
    if k < arch.len() {
        lemma_param_count_monotone(arch, k + 1);
        let t = arch.take(k + 1);
        assert(t.drop_last() =~= arch.take(k));
        assert(t[k - 1] == arch[k - 1] && t[k] == arch[k as int]);
        let a = arch[k - 1] as int;
        let b = arch[k] as int;
        assert(spec_param_count(t) == spec_param_count(arch.take(k)) + a * b + b);
        assert(a * b >= 0) by (nonlinear_arith)
            requires
                a >= 0,
                b >= 0,
        ;
    } else {
        assert(arch.take(k) =~= arch);
        lemma_param_count_nonneg(arch);
    }
}

proof fn lemma_param_count_nonneg(arch: Seq<usize>)
    ensures
        spec_param_count(arch) >= 0,
    decreases arch.len(),
{
    if arch.len() >= 2 {
        lemma_param_count_nonneg(arch.drop_last());
        let n = arch.len();
        let a = arch[n - 2] as int;
        let b = arch[n - 1] as int;
        assert(a * b >= 0) by (nonlinear_arith)
            requires
                a >= 0,
                b >= 0,
        ;
    }
}

/// Number of trainable parameters for a given architecture.
pub fn param_count(arch: &[usize]) -> (r: usize)
    requires
        spec_param_count(arch@) <= usize::MAX,
    ensures
        r == spec_param_count(arch@),
{
    let mut n: usize = 0;
    if arch.len() < 2 {
        return 0;
    }
    let mut l: usize = 0;
    while l < arch.len() - 1
        invariant
            arch@.len() >= 2,
            l + 1 <= arch@.len(),
            n == spec_param_count(arch@.take(l + 1)),
            spec_param_count(arch@) <= usize::MAX,
        decreases arch@.len() - l,
    {
        proof {
            assert(arch@.take(l + 2).drop_last() =~= arch@.take(l + 1));
            lemma_param_count_monotone(arch@, l + 2);
        }
        let nin = arch[l];
        let nout = arch[l + 1];
        proof {
            assert(nin * nout >= 0) by (nonlinear_arith)
                requires
                    nin >= 0,
                    nout >= 0,
            ;
        }
        n = n + nin * nout + nout;
        l = l + 1;
    }
    proof {
        assert(arch@.take(l + 1) =~= arch@);
    }
    n
}

impl<P: Copy> Genome<P> {
    /// A genome with every parameter set to `zero`.
    pub fn zero(arch: &[usize], zero: P) -> (r: Genome<P>)
        requires
            spec_param_count(arch@) <= usize::MAX,
        ensures
            r.arch@ == arch@,
            r.params@.len() == spec_param_count(arch@),
            forall|i: int| 0 <= i < r.params@.len() ==> r.params@[i] == zero,
    {
        let n = param_count(arch);
        let mut a: Vec<usize> = Vec::new();
        let mut i: usize = 0;
        while i < arch.len()
            invariant
                i <= arch@.len(),
                a@ == arch@.take(i as int),
            decreases arch@.len() - i,
        {
            a.push(arch[i]);
            proof {
                assert(arch@.take(i + 1) =~= arch@.take(i as int).push(arch@[i as int]));
            }
            i = i + 1;
        }
        proof {
            assert(arch@.take(arch@.len() as int) =~= arch@);
        }
        let mut params: Vec<P> = Vec::new();
        let mut k: usize = 0;
        while k < n
            invariant
                k <= n,
                params@.len() == k,
                forall|j: int| 0 <= j < k ==> params@[j] == zero,
            decreases n - k,
        {
            params.push(zero);
            k = k + 1;
        }
        Genome { arch: a, params }
    }
}

} // verus!
