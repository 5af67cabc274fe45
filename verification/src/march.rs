//! Marching soldiers toward the enemy: the heuristic CPU's best single
//! advance, and the policy's march candidates.

use vstd::prelude::*;
use crate::spatial::manhattan;
use crate::order::{OrderKey, keys_wf, lists_kept, is_stably_sorted, stable_order};
use crate::assault::truncate;

verus! {

/// An owned tile that may send a soldier.
#[derive(Clone, Copy, Debug, PartialEq, Eq, Structural)]
pub struct MarchSource {
    pub x: i32,
    pub y: i32,
    pub tile: usize,
    /// The tile borders an enemy tile (its soldier is already in position).
    pub on_frontier: bool,
    /// An own soldier stands on the tile.
    pub has_soldier: bool,
}

/// A reachable own or neutral tile with room for a unit.
#[derive(Clone, Copy, Debug, PartialEq, Eq, Structural)]
pub struct MarchDest {
    pub x: i32,
    pub y: i32,
    pub tile: usize,
}

/// The Manhattan distance from `from` to the nearest of `hqs` (0 when there
/// is none).
pub open spec fn nearest(from: (i32, i32), hqs: Seq<(i32, i32)>) -> int
    decreases hqs.len(),
{
    if hqs.len() == 0 {
        0
    } else if hqs.len() == 1 {
        manhattan(from, hqs[0])
    } else {
        let rest = nearest(from, hqs.drop_last());
        let d = manhattan(from, hqs.last());
        if d < rest { d } else { rest }
    }
}

proof fn lemma_manhattan_bounds(a: (i32, i32), b: (i32, i32))
    ensures
        0 <= manhattan(a, b) <= 0x2_0000_0000,
{
}

proof fn lemma_nearest_bounds(from: (i32, i32), hqs: Seq<(i32, i32)>)
    ensures
        0 <= nearest(from, hqs) <= 0x2_0000_0000,
    decreases hqs.len(),
{
    if hqs.len() > 0 {
        lemma_manhattan_bounds(from, hqs.last());
        if hqs.len() > 1 {
            lemma_nearest_bounds(from, hqs.drop_last());
        } else {
            lemma_manhattan_bounds(from, hqs[0]);
        }
    }
}

/// The distance to the nearest HQ is never negative and fits an `i64`.
pub proof fn lemma_nearest_nonneg(from: (i32, i32), hqs: Seq<(i32, i32)>)
    ensures
        0 <= nearest(from, hqs) <= 0x2_0000_0000,
{
    lemma_nearest_bounds(from, hqs);
}

fn manhattan_wide(a: (i32, i32), b: (i32, i32)) -> (r: i64)
    ensures
        r == manhattan(a, b),
{
    let dx: i64 = a.0 as i64 - b.0 as i64;
    let dy: i64 = a.1 as i64 - b.1 as i64;
    let ax: i64 = if dx < 0 {
        -dx
    } else {
        dx
    };
    let ay: i64 = if dy < 0 {
        -dy
    } else {
        dy
    };
    ax + ay
}

/// The Manhattan distance from `from` to the nearest of `hqs`.
pub fn nearest_dist(from: (i32, i32), hqs: &Vec<(i32, i32)>) -> (r: i64)
    ensures
        r == nearest(from, hqs@),
{
    let mut best: i64 = 0;
    let mut i: usize = 0;
    while i < hqs.len()
        invariant
            i <= hqs@.len(),
            best == nearest(from, hqs@.take(i as int)),
        decreases hqs@.len() - i,
    {
        let d = manhattan_wide(from, hqs[i]);
        proof {
            assert(hqs@.take(i + 1).drop_last() == hqs@.take(i as int));
            assert(hqs@.take(i + 1).last() == hqs@[i as int]);
            if i == 0 {
                assert(hqs@.take(1)[0] == hqs@[0]);
            }
        }
        if i == 0 || d < best {
            best = d;
        }
        i = i + 1;
    }
    proof {
        assert(hqs@.take(hqs@.len() as int) == hqs@);
    }
    best
}

/// A soldier on `s` may march to `d`: it has a soldier, is not already on the
/// frontier, and `d` is another tile.
pub open spec fn march_allowed(s: MarchSource, d: MarchDest) -> bool {
    s.has_soldier && !s.on_frontier && d.tile != s.tile
}

/// How much closer to the nearest enemy Headquarters the march brings it.
pub open spec fn march_gain(s: MarchSource, d: MarchDest, hqs: Seq<(i32, i32)>) -> int {
    nearest((s.x, s.y), hqs) - nearest((d.x, d.y), hqs)
}

/// Source `i` marching to destination `j` is allowed and strictly advances.
pub open spec fn advances(
    srcs: Seq<MarchSource>,
    dsts: Seq<MarchDest>,
    hqs: Seq<(i32, i32)>,
    i: int,
    j: int,
) -> bool {
    &&& 0 <= i < srcs.len()
    &&& 0 <= j < dsts.len()
    &&& march_allowed(srcs[i], dsts[j])
    &&& march_gain(srcs[i], dsts[j], hqs) > 0
}

/// `(i2, j2)` comes before `(i, j)` in scan order (sources, then destinations).
pub open spec fn scanned_before(i2: int, j2: int, i: int, j: int) -> bool {
    i2 < i || (i2 == i && j2 < j)
}

/// The best march: `None` when no soldier can get closer; else the advancing
/// pair with the largest gain, the first in scan order among equals.
pub open spec fn is_best_march(
    srcs: Seq<MarchSource>,
    dsts: Seq<MarchDest>,
    hqs: Seq<(i32, i32)>,
    r: Option<(usize, usize)>,
) -> bool {
    match r {
        None => forall|i: int, j: int| !#[trigger] advances(srcs, dsts, hqs, i, j),
        Some((bi, bj)) => {
            &&& advances(srcs, dsts, hqs, bi as int, bj as int)
            &&& forall|i: int, j: int|
                #[trigger] advances(srcs, dsts, hqs, i, j) ==> march_gain(srcs[i], dsts[j], hqs)
                    <= march_gain(srcs[bi as int], dsts[bj as int], hqs) && (scanned_before(i, j, bi as int, bj as int)
                    ==> march_gain(srcs[i], dsts[j], hqs) < march_gain(srcs[bi as int], dsts[bj as int], hqs))
        },
    }
}

/// The invariant of the scan: `best` is the best march among the pairs scanned
/// before `(i, j)`.
pub open spec fn best_so_far(
    srcs: Seq<MarchSource>,
    dsts: Seq<MarchDest>,
    hqs: Seq<(i32, i32)>,
    best: Option<(usize, usize, i64)>,
    i: int,
    j: int,
) -> bool {
    match best {
        None => forall|i2: int, j2: int|
            scanned_before(i2, j2, i, j) ==> !#[trigger] advances(srcs, dsts, hqs, i2, j2),
        Some((bi, bj, bg)) => {
            &&& advances(srcs, dsts, hqs, bi as int, bj as int)
            &&& scanned_before(bi as int, bj as int, i, j)
            &&& bg == march_gain(srcs[bi as int], dsts[bj as int], hqs)
            &&& forall|i2: int, j2: int|
                scanned_before(i2, j2, i, j) && #[trigger] advances(srcs, dsts, hqs, i2, j2) ==> march_gain(
                    srcs[i2],
                    dsts[j2],
                    hqs,
                ) <= bg && (scanned_before(i2, j2, bi as int, bj as int) ==> march_gain(srcs[i2], dsts[j2], hqs)
                    < bg)
        },
    }
}

/// The heuristic CPU's next march toward the nearest enemy Headquarters:
/// among every soldier (off the frontier) and every destination, the move
/// that brings it closest, the first found among equals; `None` when no
/// soldier can get closer.
pub fn best_march(srcs: &Vec<MarchSource>, dsts: &Vec<MarchDest>, enemy_hqs: &Vec<(i32, i32)>) -> (r: Option<
    (usize, usize),
>)
    ensures
        is_best_march(srcs@, dsts@, enemy_hqs@, r),
{
    let mut best: Option<(usize, usize, i64)> = None;
    let mut i: usize = 0;
    while i < srcs.len()
        invariant
            i <= srcs@.len(),
            best_so_far(srcs@, dsts@, enemy_hqs@, best, i as int, 0),
        decreases srcs@.len() - i,
    {
        let s = srcs[i];
        let cur = nearest_dist((s.x, s.y), enemy_hqs);
        proof {
            lemma_nearest_bounds((s.x, s.y), enemy_hqs@);
        }
        let mut j: usize = 0;
        while j < dsts.len()
            invariant
                i < srcs@.len(),
                j <= dsts@.len(),
                s == srcs@[i as int],
                cur == nearest((s.x, s.y), enemy_hqs@),
                0 <= cur <= 0x2_0000_0000,
                best_so_far(srcs@, dsts@, enemy_hqs@, best, i as int, j as int),
            decreases dsts@.len() - j,
        {
            let d = dsts[j];
            let nd = nearest_dist((d.x, d.y), enemy_hqs);
            proof {
                lemma_nearest_bounds((d.x, d.y), enemy_hqs@);
            }
            let gain = cur - nd;
            let ok = s.has_soldier && !s.on_frontier && d.tile != s.tile && gain > 0;
            let better = match best {
                None => true,
                Some((_, _, bg)) => gain > bg,
            };
            let ghost old_best = best;
            if ok && better {
                best = Some((i, j, gain));
            }
            proof {
                assert(ok == advances(srcs@, dsts@, enemy_hqs@, i as int, j as int));
                assert forall|i2: int, j2: int|
                    scanned_before(i2, j2, i as int, j + 1) implies scanned_before(i2, j2, i as int, j as int) || (i2
                        == i && j2 == j) by {}
                match best {
                    None => {
                        assert forall|i2: int, j2: int|
                            scanned_before(i2, j2, i as int, j + 1) implies !#[trigger] advances(
                            srcs@,
                            dsts@,
                            enemy_hqs@,
                            i2,
                            j2,
                        ) by {
                            if !(i2 == i && j2 == j) {
                                assert(scanned_before(i2, j2, i as int, j as int));
                            }
                        }
                    },
                    Some((bi, bj, bg)) => {
                        assert forall|i2: int, j2: int|
                            scanned_before(i2, j2, i as int, j + 1) && #[trigger] advances(
                                srcs@,
                                dsts@,
                                enemy_hqs@,
                                i2,
                                j2,
                            ) implies march_gain(srcs@[i2], dsts@[j2], enemy_hqs@) <= bg && (scanned_before(
                            i2,
                            j2,
                            bi as int,
                            bj as int,
                        ) ==> march_gain(srcs@[i2], dsts@[j2], enemy_hqs@) < bg) by {
                            if !(i2 == i && j2 == j) {
                                assert(scanned_before(i2, j2, i as int, j as int));
                            }
                        }
                    },
                }
            }
            j = j + 1;
        }
        proof {
            match best {
                None => {
                    assert forall|i2: int, j2: int|
                        scanned_before(i2, j2, i + 1, 0) implies !#[trigger] advances(
                        srcs@,
                        dsts@,
                        enemy_hqs@,
                        i2,
                        j2,
                    ) by {
                        if i2 == i {
                            if 0 <= j2 < dsts@.len() {
                                assert(scanned_before(i2, j2, i as int, dsts@.len() as int));
                            }
                        }
                    }
                },
                Some((bi, bj, bg)) => {
                    assert forall|i2: int, j2: int|
                        scanned_before(i2, j2, i + 1, 0) && #[trigger] advances(srcs@, dsts@, enemy_hqs@, i2, j2)
                            implies march_gain(srcs@[i2], dsts@[j2], enemy_hqs@) <= bg && (scanned_before(
                        i2,
                        j2,
                        bi as int,
                        bj as int,
                    ) ==> march_gain(srcs@[i2], dsts@[j2], enemy_hqs@) < bg) by {
                        assert(scanned_before(i2, j2, i as int, dsts@.len() as int));
                    }
                },
            }
        }
        i = i + 1;
    }
    proof {
        match best {
            None => {
                assert forall|i2: int, j2: int| !#[trigger] advances(srcs@, dsts@, enemy_hqs@, i2, j2) by {
                    if advances(srcs@, dsts@, enemy_hqs@, i2, j2) {
                        assert(scanned_before(i2, j2, srcs@.len() as int, 0));
                    }
                }
            },
            Some((bi, bj, bg)) => {
                assert forall|i2: int, j2: int| #[trigger]
                    advances(srcs@, dsts@, enemy_hqs@, i2, j2) implies march_gain(srcs@[i2], dsts@[j2], enemy_hqs@)
                    <= march_gain(srcs@[bi as int], dsts@[bj as int], enemy_hqs@) && (scanned_before(
                    i2,
                    j2,
                    bi as int,
                    bj as int,
                ) ==> march_gain(srcs@[i2], dsts@[j2], enemy_hqs@) < march_gain(
                    srcs@[bi as int],
                    dsts@[bj as int],
                    enemy_hqs@,
                )) by {
                    assert(scanned_before(i2, j2, srcs@.len() as int, 0));
                }
            },
        }
    }
    match best {
        None => None,
        Some((bi, bj, _)) => Some((bi, bj)),
    }
}

/// `a` is a strictly better march destination than `b`: nearer the
/// objective, or as near with a lower tile index.
pub open spec fn dest_better(a: MarchDest, b: MarchDest, obj: (i32, i32)) -> bool {
    manhattan((a.x, a.y), obj) < manhattan((b.x, b.y), obj) || (manhattan((a.x, a.y), obj) == manhattan(
        (b.x, b.y),
        obj,
    ) && a.tile < b.tile)
}

/// `r` is the destination other than `s`'s own tile nearest the objective
/// (lowest tile index among equals, first among identical), or `None` when
/// there is no other destination.
pub open spec fn is_closest_dest(s: MarchSource, dsts: Seq<MarchDest>, obj: (i32, i32), r: Option<usize>) -> bool {
    match r {
        None => forall|j: int| 0 <= j < dsts.len() ==> (#[trigger] dsts[j]).tile == s.tile,
        Some(b) => {
            &&& b < dsts.len()
            &&& dsts[b as int].tile != s.tile
            &&& forall|j: int|
                0 <= j < dsts.len() && (#[trigger] dsts[j]).tile != s.tile ==> !dest_better(dsts[j], dsts[b as int], obj)
                    && (j < b ==> dest_better(dsts[b as int], dsts[j], obj))
        },
    }
}

/// The destination nearest the objective for a soldier on `s`.
pub fn closest_dest(s: MarchSource, dsts: &Vec<MarchDest>, obj: (i32, i32)) -> (r: Option<usize>)
    ensures
        is_closest_dest(s, dsts@, obj, r),
{
    let mut best: Option<usize> = None;
    let mut bd: i64 = 0;
    let mut j: usize = 0;
    while j < dsts.len()
        invariant
            j <= dsts@.len(),
            match best {
                None => forall|k: int| 0 <= k < j ==> (#[trigger] dsts@[k]).tile == s.tile,
                Some(b) => {
                    &&& b < j
                    &&& dsts@[b as int].tile != s.tile
                    &&& bd == manhattan((dsts@[b as int].x, dsts@[b as int].y), obj)
                    &&& forall|k: int|
                        0 <= k < j && (#[trigger] dsts@[k]).tile != s.tile ==> !dest_better(
                            dsts@[k],
                            dsts@[b as int],
                            obj,
                        ) && (k < b ==> dest_better(dsts@[b as int], dsts@[k], obj))
                },
            },
        decreases dsts@.len() - j,
    {
        let d = dsts[j];
        if d.tile != s.tile {
            let dd = manhattan_wide((d.x, d.y), obj);
            let replace = match best {
                None => true,
                Some(b) => dd < bd || (dd == bd && d.tile < dsts[b].tile),
            };
            if replace {
                best = Some(j);
                bd = dd;
            }
        }
        j = j + 1;
    }
    best
}

/// The march a soldier on `s` would offer: its nearest destination and that
/// destination's distance to the objective.
pub open spec fn march_choice_ok(
    s: MarchSource,
    dsts: Seq<MarchDest>,
    obj: (i32, i32),
    c: Option<(usize, i64)>,
) -> bool {
    if !s.has_soldier {
        c is None
    } else {
        match c {
            None => is_closest_dest(s, dsts, obj, None),
            Some((b, d)) => is_closest_dest(s, dsts, obj, Some(b)) && d == manhattan(
                (dsts[b as int].x, dsts[b as int].y),
                obj,
            ),
        }
    }
}

/// A march is offered only when it strictly closes in on the objective.
pub open spec fn march_offered(s: MarchSource, c: Option<(usize, i64)>, obj: (i32, i32)) -> bool {
    match c {
        Some((_, d)) => d < manhattan((s.x, s.y), obj),
        None => false,
    }
}

pub open spec fn march_mask(srcs: Seq<MarchSource>, cs: Seq<Option<(usize, i64)>>, obj: (i32, i32)) -> Seq<bool> {
    Seq::new(srcs.len(), |i: int| march_offered(srcs[i], cs[i], obj))
}

/// Nearest resulting distance first, then the lower source tile index.
pub open spec fn march_key(s: MarchSource, c: Option<(usize, i64)>) -> OrderKey {
    OrderKey {
        rank: match c {
            Some((_, d)) => d,
            None => 0,
        },
        num: 0,
        den: 1,
        tie: s.tile as i64,
    }
}

pub open spec fn march_keys(srcs: Seq<MarchSource>, cs: Seq<Option<(usize, i64)>>) -> Seq<OrderKey> {
    Seq::new(srcs.len(), |i: int| march_key(srcs[i], cs[i]))
}

/// The policy's march candidates toward `obj`: for each soldier its nearest
/// destination (`choices`), and the sources whose march strictly closes in,
/// nearest result first, at most `cap` of them (`order`).
pub fn march_candidate_plan(srcs: &Vec<MarchSource>, dsts: &Vec<MarchDest>, obj: (i32, i32), cap: usize) -> (r: (
    Vec<Option<(usize, i64)>>,
    Vec<usize>,
))
    requires
        forall|i: int| 0 <= i < srcs@.len() ==> (#[trigger] srcs@[i]).tile <= i64::MAX,
    ensures
        r.0@.len() == srcs@.len(),
        forall|i: int| 0 <= i < srcs@.len() ==> march_choice_ok(#[trigger] srcs@[i], dsts@, obj, r.0@[i]),
        exists|full: Seq<usize>|
            lists_kept(full, march_mask(srcs@, r.0@, obj), srcs@.len() as int) && is_stably_sorted(
                march_keys(srcs@, r.0@),
                full,
            ) && r.1@ == truncate(full, cap as int),
{
    let mut choices: Vec<Option<(usize, i64)>> = Vec::new();
    let mut keys: Vec<OrderKey> = Vec::new();
    let mut keep: Vec<bool> = Vec::new();
    let mut i: usize = 0;
    while i < srcs.len()
        invariant
            i <= srcs@.len(),
            forall|k: int| 0 <= k < srcs@.len() ==> (#[trigger] srcs@[k]).tile <= i64::MAX,
            choices@.len() == i,
            keys@.len() == i,
            keep@.len() == i,
            forall|k: int| 0 <= k < i ==> march_choice_ok(#[trigger] srcs@[k], dsts@, obj, choices@[k]),
            forall|k: int| 0 <= k < i ==> #[trigger] keys@[k] == march_key(srcs@[k], choices@[k]),
            forall|k: int| 0 <= k < i ==> #[trigger] keep@[k] == march_offered(srcs@[k], choices@[k], obj),
            keys_wf(keys@),
        decreases srcs@.len() - i,
    {
        let s = srcs[i];
        let c: Option<(usize, i64)> = if s.has_soldier {
            match closest_dest(s, dsts, obj) {
                Some(b) => Some((b, manhattan_wide((dsts[b].x, dsts[b].y), obj))),
                None => None,
            }
        } else {
            None
        };
        let d0 = manhattan_wide((s.x, s.y), obj);
        let offered = match c {
            Some((_, d)) => d < d0,
            None => false,
        };
        let rank: i64 = match c {
            Some((_, d)) => d,
            None => 0,
        };
        assert(srcs@[i as int].tile <= i64::MAX);
        choices.push(c);
        keys.push(OrderKey { rank, num: 0, den: 1, tie: s.tile as i64 });
        keep.push(offered);
        i = i + 1;
    }
    assert(keys@ == march_keys(srcs@, choices@));
    assert(keep@ == march_mask(srcs@, choices@, obj));
    let full = stable_order(&keys, &keep);
    let mut out: Vec<usize> = Vec::new();
    let mut k: usize = 0;
    while k < full.len() && k < cap
        invariant
            k <= full@.len(),
            k <= cap,
            out@ == full@.take(k as int),
        decreases full@.len() - k,
    {
        out.push(full[k]);
        proof {
            assert(full@.take(k + 1) == full@.take(k as int).push(full@[k as int]));
        }
        k = k + 1;
    }
    proof {
        if full@.len() <= cap {
            assert(full@.take(full@.len() as int) == full@);
        }
        assert(out@ == truncate(full@, cap as int));
    }
    (choices, out)
}

/// The objective a marching army heads for: an enemy-owned Strange Device,
/// else the first unconquered enemy Headquarters, else none.
pub open spec fn spec_enemy_objective(
    me: usize,
    device: Option<(Option<usize>, (i32, i32))>,
    hqs: Seq<(Option<usize>, bool, (i32, i32))>,
) -> Option<(i32, i32)>
    decreases hqs.len(),
{
    match device {
        Some((Some(o), at)) if o != me => Some(at),
        _ => {
            if hqs.len() == 0 {
                None
            } else {
                let h = hqs[0];
                if !h.1 && (h.0 matches Some(o) && o != me) {
                    Some(h.2)
                } else {
                    spec_enemy_objective(me, None, hqs.drop_first())
                }
            }
        },
    }
}

/// The march objective of player `me`, given the Strange Device (its owner
/// and position) if one stands, and every Headquarters (owner, conquered,
/// position) in board order.
pub fn enemy_objective(
    me: usize,
    device: Option<(Option<usize>, (i32, i32))>,
    hqs: &Vec<(Option<usize>, bool, (i32, i32))>,
) -> (r: Option<(i32, i32)>)
    ensures
        r == spec_enemy_objective(me, device, hqs@),
{
    if let Some((Some(o), at)) = device {
        if o != me {
            return Some(at);
        }
    }
    let mut i: usize = 0;
    proof {
        assert(hqs@.skip(0) == hqs@);
    }
    while i < hqs.len()
        invariant
            i <= hqs@.len(),
            spec_enemy_objective(me, device, hqs@) == spec_enemy_objective(me, None, hqs@.skip(i as int)),
        decreases hqs@.len() - i,
    {
        let h = hqs[i];
        proof {
            assert(hqs@.skip(i as int)[0] == hqs@[i as int]);
            assert(hqs@.skip(i as int).drop_first() == hqs@.skip(i + 1));
        }
        let enemy = match h.0 {
            Some(o) => o != me,
            None => false,
        };
        if !h.1 && enemy {
            return Some(h.2);
        }
        i = i + 1;
    }
    None
}

} // verus!
