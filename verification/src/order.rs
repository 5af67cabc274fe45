//! Stable ordering of candidate targets by a lexicographic priority key: a rank
//! (ascending), then an exact fraction (descending), then a tie-breaker
//! (ascending). Equal keys keep their input order, as a stable sort does.

use vstd::prelude::*;

verus! {

/// A priority key. `num / den` is an exact fraction (`den > 0`).
#[derive(Clone, Copy, Debug, PartialEq, Eq, Structural)]
pub struct OrderKey {
    pub rank: i64,
    pub num: i64,
    pub den: i64,
    pub tie: i64,
}

/// `a` sorts strictly before `b`: smaller rank, or equal rank and larger
/// fraction, or equal rank and fraction and smaller tie-breaker.
pub open spec fn key_lt(a: OrderKey, b: OrderKey) -> bool {
    a.rank < b.rank || (a.rank == b.rank && (a.num * b.den > b.num * a.den || (a.num * b.den == b.num
        * a.den && a.tie < b.tie)))
}

/// Every key has a positive denominator.
pub open spec fn keys_wf(keys: Seq<OrderKey>) -> bool {
    forall|i: int| 0 <= i < keys.len() ==> (#[trigger] keys[i]).den > 0
}

proof fn lemma_frac_trans(a: OrderKey, b: OrderKey, c: OrderKey)
    requires
        a.den > 0,
        b.den > 0,
        c.den > 0,
    ensures
        a.num * b.den >= b.num * a.den && b.num * c.den >= c.num * b.den ==> a.num * c.den >= c.num * a.den,
        a.num * b.den > b.num * a.den && b.num * c.den >= c.num * b.den ==> a.num * c.den > c.num * a.den,
        a.num * b.den >= b.num * a.den && b.num * c.den > c.num * b.den ==> a.num * c.den > c.num * a.den,
{
    let (an, ad, bn, bd, cn, cd) = (a.num as int, a.den as int, b.num as int, b.den as int, c.num as int, c.den as int);
    if an * bd >= bn * ad && bn * cd >= cn * bd {
        assert(an * bd * cd >= bn * ad * cd) by (nonlinear_arith)
            requires
                an * bd >= bn * ad,
                cd > 0,
        ;
        assert(bn * cd * ad >= cn * bd * ad) by (nonlinear_arith)
            requires
                bn * cd >= cn * bd,
                ad > 0,
        ;
        assert(an * cd * bd >= cn * ad * bd) by (nonlinear_arith)
            requires
                an * bd * cd >= bn * ad * cd,
                bn * cd * ad >= cn * bd * ad,
        ;
        assert(an * cd >= cn * ad) by (nonlinear_arith)
            requires
                an * cd * bd >= cn * ad * bd,
                bd > 0,
        ;
        if an * bd > bn * ad || bn * cd > cn * bd {
            if an * bd > bn * ad {
                assert(an * bd * cd > bn * ad * cd) by (nonlinear_arith)
                    requires
                        an * bd > bn * ad,
                        cd > 0,
                ;
            } else {
                assert(bn * cd * ad > cn * bd * ad) by (nonlinear_arith)
                    requires
                        bn * cd > cn * bd,
                        ad > 0,
                ;
            }
            assert(an * cd * bd > cn * ad * bd) by (nonlinear_arith)
                requires
                    an * bd * cd >= bn * ad * cd,
                    bn * cd * ad >= cn * bd * ad,
                    an * bd * cd > bn * ad * cd || bn * cd * ad > cn * bd * ad,
            ;
            assert(an * cd > cn * ad) by (nonlinear_arith)
                requires
                    an * cd * bd > cn * ad * bd,
                    bd > 0,
            ;
        }
    }
}

/// `key_lt` is a strict weak order: irreflexive, asymmetric, transitive, and
/// its incomparability ("not after") is transitive.
pub proof fn lemma_key_order(a: OrderKey, b: OrderKey, c: OrderKey)
    requires
        a.den > 0,
        b.den > 0,
        c.den > 0,
    ensures
        !key_lt(a, a),
        key_lt(a, b) ==> !key_lt(b, a),
        key_lt(a, b) && key_lt(b, c) ==> key_lt(a, c),
        !key_lt(b, a) && !key_lt(c, b) ==> !key_lt(c, a),
{
    lemma_frac_trans(a, b, c);
    lemma_frac_trans(c, b, a);
    lemma_frac_trans(b, a, c);
    lemma_frac_trans(a, c, b);
    lemma_frac_trans(c, a, b);
    lemma_frac_trans(b, c, a);
}

/// `order` lists, each exactly once, the indices below `n` that `keep` marks.
pub open spec fn lists_kept(order: Seq<usize>, keep: Seq<bool>, n: int) -> bool {
    &&& forall|a: int| 0 <= a < order.len() ==> (#[trigger] order[a]) < n && keep[order[a] as int]
    &&& forall|a: int, b: int| 0 <= a < b < order.len() ==> (#[trigger] order[a]) != (#[trigger] order[b])
    &&& forall|k: int| 0 <= k < n && #[trigger] keep[k] ==> exists|a: int| 0 <= a < order.len() && order[a] == k
}

/// `order` is sorted by the keys, with ties kept in index order.
pub open spec fn is_stably_sorted(keys: Seq<OrderKey>, order: Seq<usize>) -> bool {
    forall|a: int, b: int|
        0 <= a < b < order.len() ==> !key_lt(keys[#[trigger] order[b] as int], keys[#[trigger] order[a] as int])
            && (!key_lt(keys[order[a] as int], keys[order[b] as int]) ==> order[a] < order[b])
}

proof fn lemma_i64_product_fits(x: i64, y: i64)
    ensures
        -0x4000_0000_0000_0000_0000_0000_0000_0000 <= (x as int) * (y as int) <= 0x4000_0000_0000_0000_0000_0000_0000_0000,
{
    let (xi, yi) = (x as int, y as int);
    assert(-0x4000_0000_0000_0000_0000_0000_0000_0000 <= xi * yi <= 0x4000_0000_0000_0000_0000_0000_0000_0000) by (nonlinear_arith)
        requires
            -0x8000_0000_0000_0000 <= xi <= 0x8000_0000_0000_0000,
            -0x8000_0000_0000_0000 <= yi <= 0x8000_0000_0000_0000,
    ;
}

fn key_less(a: &OrderKey, b: &OrderKey) -> (r: bool)
    ensures
        r == key_lt(*a, *b),
{
    if a.rank != b.rank {
        return a.rank < b.rank;
    }
    proof {
        lemma_i64_product_fits(a.num, b.den);
        lemma_i64_product_fits(b.num, a.den);
    }
    let l = (a.num as i128) * (b.den as i128);
    let rr = (b.num as i128) * (a.den as i128);
    if l != rr {
        return l > rr;
    }
    a.tie < b.tie
}

/// The indices `i` with `keep[i]`, in key order; equal keys keep index order
/// (a stable sort of the kept entries).
pub fn stable_order(keys: &Vec<OrderKey>, keep: &Vec<bool>) -> (r: Vec<usize>)
    requires
        keys_wf(keys@),
        keep@.len() == keys@.len(),
    ensures
        lists_kept(r@, keep@, keys@.len() as int),
        is_stably_sorted(keys@, r@),
{
    let n = keys.len();
    let mut res: Vec<usize> = Vec::new();
    let mut i: usize = 0;
    while i < n
        invariant
            i <= n,
            n == keys@.len(),
            keep@.len() == n,
            keys_wf(keys@),
            lists_kept(res@, keep@, i as int),
            is_stably_sorted(keys@, res@),
        decreases n - i,
    {
        if !keep[i] {
            proof {
                assert forall|k: int| 0 <= k < i + 1 && #[trigger] keep@[k] implies exists|a: int|
                    0 <= a < res@.len() && res@[a] == k by {
                    assert(k < i);
                }
            }
            i = i + 1;
            continue;
        }
        // find the insertion point: after every entry the new key is not before
        let mut p: usize = res.len();
        while p > 0 && key_less(&keys[i], &keys[res[p - 1]])
            invariant
                p <= res@.len(),
                i < n,
                n == keys@.len(),
                keys_wf(keys@),
                lists_kept(res@, keep@, i as int),
                is_stably_sorted(keys@, res@),
                forall|q: int| p <= q < res@.len() ==> key_lt(keys@[i as int], keys@[#[trigger] res@[q] as int]),
            decreases p,
        {
            p = p - 1;
        }
        let ghost old_res = res@;
        proof {
            // everything before the insertion point is not after the new key
            assert forall|q: int| 0 <= q < p implies !key_lt(keys@[i as int], keys@[#[trigger] old_res[q] as int]) by {
                if p > 0 {
                    let last = old_res[p - 1] as int;
                    assert(!key_lt(keys@[i as int], keys@[last]));
                    if q < p - 1 {
                        assert(!key_lt(keys@[last], keys@[old_res[q] as int]));
                        lemma_key_order(keys@[old_res[q] as int], keys@[last], keys@[i as int]);
                    }
                }
            }
        }
        res.insert(p, i);
        proof {
            assert(res@ == old_res.insert(p as int, i));
            assert forall|a: int, b: int|
                0 <= a < b < res@.len() implies !key_lt(keys@[#[trigger] res@[b] as int], keys@[#[trigger] res@[a] as int])
                && (!key_lt(keys@[res@[a] as int], keys@[res@[b] as int]) ==> res@[a] < res@[b]) by {
                let ka = keys@[res@[a] as int];
                let kb = keys@[res@[b] as int];
                lemma_key_order(ka, kb, kb);
                if a < p && b < p {
                    assert(res@[a] == old_res[a] && res@[b] == old_res[b]);
                } else if a < p && b == p {
                    assert(res@[a] == old_res[a]);
                    assert(!key_lt(kb, ka));
                    assert(old_res[a] < i);
                } else if a < p && b > p {
                    assert(res@[a] == old_res[a] && res@[b] == old_res[b - 1]);
                } else if a == p {
                    assert(res@[b] == old_res[b - 1]);
                    assert(key_lt(ka, kb));
                } else {
                    assert(res@[a] == old_res[a - 1] && res@[b] == old_res[b - 1]);
                }
            }
            assert forall|a: int, b: int| 0 <= a < b < res@.len() implies (#[trigger] res@[a]) != (#[trigger] res@[b]) by {
                if a < p && b < p {
                    assert(res@[a] == old_res[a] && res@[b] == old_res[b]);
                } else if a < p && b == p {
                    assert(res@[a] == old_res[a]);
                } else if a < p && b > p {
                    assert(res@[a] == old_res[a] && res@[b] == old_res[b - 1]);
                } else if a == p {
                    assert(res@[b] == old_res[b - 1]);
                } else {
                    assert(res@[a] == old_res[a - 1] && res@[b] == old_res[b - 1]);
                }
            }
            assert forall|a: int| 0 <= a < res@.len() implies (#[trigger] res@[a]) < i + 1 && keep@[res@[a] as int] by {
                if a < p {
                    assert(res@[a] == old_res[a]);
                } else if a > p {
                    assert(res@[a] == old_res[a - 1]);
                }
            }
            assert forall|k: int| 0 <= k < i + 1 && #[trigger] keep@[k] implies exists|a: int|
                0 <= a < res@.len() && res@[a] == k by {
                if k == i {
                    assert(res@[p as int] == k);
                } else {
                    let a0 = choose|a: int| 0 <= a < old_res.len() && old_res[a] == k;
                    if a0 < p {
                        assert(res@[a0] == k);
                    } else {
                        assert(res@[a0 + 1] == k);
                    }
                }
            }
        }
        i = i + 1;
    }
    res
}

} // verus!
