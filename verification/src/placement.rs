//! Where the heuristic CPU puts things: its Headquarters site, the next
//! neutral tile to claim, and the river to bridge.

use vstd::prelude::*;
use crate::metrics::TileKind;
use crate::spatial::manhattan;
use crate::hard_ai::HardAi;
use crate::intents::{find_first, first_true};

verus! {

/// A board tile as the Headquarters placement reads it.
#[derive(Clone, Copy, Debug, PartialEq, Eq, Structural)]
pub struct SiteTile {
    pub kind: TileKind,
    pub owner: Option<usize>,
    pub has_building: bool,
    pub x: i32,
    pub y: i32,
}

/// The placement tiers: unowned and empty grassland first, then any unowned
/// empty land that is not river, then any unowned empty tile.
pub open spec fn site_in_tier(t: SiteTile, tier: int) -> bool {
    &&& t.owner is None
    &&& !t.has_building
    &&& (tier == 0 ==> t.kind == TileKind::Grassland)
    &&& (tier == 1 ==> t.kind != TileKind::River)
}

pub open spec fn tier_nonempty(tiles: Seq<SiteTile>, tier: int) -> bool {
    exists|i: int| 0 <= i < tiles.len() && site_in_tier(#[trigger] tiles[i], tier)
}

/// The tier the Headquarters is chosen from.
pub open spec fn chosen_tier(tiles: Seq<SiteTile>) -> int {
    if tier_nonempty(tiles, 0) {
        0
    } else if tier_nonempty(tiles, 1) {
        1
    } else {
        2
    }
}

/// Neighbour counts: (unowned, grassland, forest, mountain).
pub open spec fn nb_counts(tiles: Seq<SiteTile>, nbs: Seq<usize>) -> (int, int, int, int)
    decreases nbs.len(),
{
    if nbs.len() == 0 {
        (0, 0, 0, 0)
    } else {
        let c = nb_counts(tiles, nbs.drop_last());
        let t = tiles[nbs.last() as int];
        (
            c.0 + if t.owner is None { 1int } else { 0 },
            c.1 + if t.kind == TileKind::Grassland { 1int } else { 0 },
            c.2 + if t.kind == TileKind::Forest { 1int } else { 0 },
            c.3 + if t.kind == TileKind::Mountain { 1int } else { 0 },
        )
    }
}

/// The smallest Manhattan distance from `from` to an owned tile among the
/// first `k` tiles (`i64::MAX` when there is none).
pub open spec fn min_owned(tiles: Seq<SiteTile>, from: (i32, i32), k: int) -> int
    decreases k,
{
    if k <= 0 {
        i64::MAX as int
    } else {
        let rest = min_owned(tiles, from, k - 1);
        let t = tiles[k - 1];
        let d = if t.owner is Some { manhattan((t.x, t.y), from) } else { i64::MAX as int };
        if d < rest { d } else { rest }
    }
}

/// The distance to the nearest owned tile, 99 when nothing is owned.
pub open spec fn dist_to_owned(tiles: Seq<SiteTile>, from: (i32, i32)) -> int {
    let m = min_owned(tiles, from, tiles.len() as int);
    if m == i64::MAX { 99 } else { m }
}

/// A site's score: free neighbours and mountains count three, grassland and
/// forest two, plus the distance to the nearest owned tile up to eight.
pub open spec fn site_score(tiles: Seq<SiteTile>, nbs: Seq<Seq<usize>>, i: int) -> int {
    let c = nb_counts(tiles, nbs[i]);
    let d = dist_to_owned(tiles, (tiles[i].x, tiles[i].y));
    3 * c.0 + 2 * c.1 + 2 * c.2 + 3 * c.3 + if d < 8 { d } else { 8 }
}

/// The board is well formed: one neighbour list per tile, each naming tiles
/// of the board, of a length that keeps the score in an `i64`.
pub open spec fn site_board_wf(tiles: Seq<SiteTile>, nbs: Seq<Seq<usize>>) -> bool {
    &&& nbs.len() == tiles.len()
    &&& forall|i: int| 0 <= i < nbs.len() ==> (#[trigger] nbs[i]).len() <= 0x0100_0000_0000_0000
    &&& forall|i: int, j: int| 0 <= i < nbs.len() && 0 <= j < nbs[i].len() ==> (#[trigger] nbs[i][j]) < tiles.len()
}

/// `r` is the Headquarters site: `None` when no tile is unowned and empty;
/// else a tile of the chosen tier with the highest score, the first among
/// equals.
pub open spec fn is_hq_site(tiles: Seq<SiteTile>, nbs: Seq<Seq<usize>>, r: Option<usize>) -> bool {
    match r {
        None => !tier_nonempty(tiles, 2),
        Some(b) => {
            &&& b < tiles.len()
            &&& site_in_tier(tiles[b as int], chosen_tier(tiles))
            &&& forall|i: int|
                0 <= i < tiles.len() && site_in_tier(#[trigger] tiles[i], chosen_tier(tiles)) ==> site_score(
                    tiles,
                    nbs,
                    i,
                ) <= site_score(tiles, nbs, b as int) && (i < b ==> site_score(tiles, nbs, i) < site_score(
                    tiles,
                    nbs,
                    b as int,
                ))
        },
    }
}

proof fn lemma_nb_counts_bounds(tiles: Seq<SiteTile>, nbs: Seq<usize>)
    ensures
        0 <= nb_counts(tiles, nbs).0 <= nbs.len(),
        0 <= nb_counts(tiles, nbs).1 <= nbs.len(),
        0 <= nb_counts(tiles, nbs).2 <= nbs.len(),
        0 <= nb_counts(tiles, nbs).3 <= nbs.len(),
    decreases nbs.len(),
{
    if nbs.len() > 0 {
        lemma_nb_counts_bounds(tiles, nbs.drop_last());
    }
}

proof fn lemma_min_owned_bounds(tiles: Seq<SiteTile>, from: (i32, i32), k: int)
    ensures
        0 <= min_owned(tiles, from, k) <= i64::MAX,
    decreases k,
{
    if k > 0 {
        lemma_min_owned_bounds(tiles, from, k - 1);
    }
}

fn neighbour_counts(tiles: &Vec<SiteTile>, nbs: &Vec<usize>) -> (r: (i64, i64, i64, i64))
    requires
        nbs@.len() <= 0x0100_0000_0000_0000,
        forall|j: int| 0 <= j < nbs@.len() ==> (#[trigger] nbs@[j]) < tiles@.len(),
    ensures
        r.0 == nb_counts(tiles@, nbs@).0,
        r.1 == nb_counts(tiles@, nbs@).1,
        r.2 == nb_counts(tiles@, nbs@).2,
        r.3 == nb_counts(tiles@, nbs@).3,
{
    let mut c: (i64, i64, i64, i64) = (0, 0, 0, 0);
    let mut j: usize = 0;
    while j < nbs.len()
        invariant
            j <= nbs@.len(),
            nbs@.len() <= 0x0100_0000_0000_0000,
            forall|k: int| 0 <= k < nbs@.len() ==> (#[trigger] nbs@[k]) < tiles@.len(),
            c.0 == nb_counts(tiles@, nbs@.take(j as int)).0,
            c.1 == nb_counts(tiles@, nbs@.take(j as int)).1,
            c.2 == nb_counts(tiles@, nbs@.take(j as int)).2,
            c.3 == nb_counts(tiles@, nbs@.take(j as int)).3,
        decreases nbs@.len() - j,
    {
        proof {
            lemma_nb_counts_bounds(tiles@, nbs@.take(j as int));
            assert(nbs@.take(j + 1).drop_last() == nbs@.take(j as int));
        }
        let t = tiles[nbs[j]];
        if t.owner.is_none() {
            c.0 = c.0 + 1;
        }
        match t.kind {
            TileKind::Grassland => {
                c.1 = c.1 + 1;
            },
            TileKind::Forest => {
                c.2 = c.2 + 1;
            },
            TileKind::Mountain => {
                c.3 = c.3 + 1;
            },
            _ => {},
        }
        j = j + 1;
    }
    proof {
        assert(nbs@.take(nbs@.len() as int) == nbs@);
    }
    c
}

fn distance_to_owned(tiles: &Vec<SiteTile>, from: (i32, i32)) -> (r: i64)
    ensures
        r == dist_to_owned(tiles@, from),
{
    let mut m: i64 = i64::MAX;
    let mut k: usize = 0;
    while k < tiles.len()
        invariant
            k <= tiles@.len(),
            m == min_owned(tiles@, from, k as int),
        decreases tiles@.len() - k,
    {
        let t = tiles[k];
        if t.owner.is_some() {
            let dx: i64 = t.x as i64 - from.0 as i64;
            let dy: i64 = t.y as i64 - from.1 as i64;
            let d: i64 = (if dx < 0 {
                -dx
            } else {
                dx
            }) + (if dy < 0 {
                -dy
            } else {
                dy
            });
            if d < m {
                m = d;
            }
        }
        k = k + 1;
    }
    if m == i64::MAX {
        99
    } else {
        m
    }
}

fn site_score_exec(tiles: &Vec<SiteTile>, nbs: &Vec<Vec<usize>>, i: usize) -> (r: i64)
    requires
        site_board_wf(tiles@, nbs@.map_values(|v: Vec<usize>| v@)),
        i < tiles@.len(),
    ensures
        r == site_score(tiles@, nbs@.map_values(|v: Vec<usize>| v@), i as int),
{
    let ghost nv = nbs@.map_values(|v: Vec<usize>| v@);
    assert(nv[i as int] == nbs@[i as int]@);
    assert(nv[i as int].len() <= 0x0100_0000_0000_0000);
    assert forall|j: int| 0 <= j < nbs@[i as int]@.len() implies (#[trigger] nbs@[i as int]@[j]) < tiles@.len() by {
        assert(nv[i as int][j] == nbs@[i as int]@[j]);
    }
    let c = neighbour_counts(tiles, &nbs[i]);
    proof {
        lemma_nb_counts_bounds(tiles@, nbs@[i as int]@);
    }
    let d = distance_to_owned(tiles, (tiles[i].x, tiles[i].y));
    let dd: i64 = if d < 8 {
        d
    } else {
        8
    };
    3 * c.0 + 2 * c.1 + 2 * c.2 + 3 * c.3 + dd
}

fn tier_ok(t: &SiteTile, tier: u8) -> (r: bool)
    ensures
        r == site_in_tier(*t, tier as int),
{
    t.owner.is_none() && !t.has_building && (tier != 0 || t.kind == TileKind::Grassland) && (tier != 1 || t.kind
        != TileKind::River)
}

fn has_tier(tiles: &Vec<SiteTile>, tier: u8) -> (r: bool)
    ensures
        r == tier_nonempty(tiles@, tier as int),
{
    let mut i: usize = 0;
    while i < tiles.len()
        invariant
            i <= tiles@.len(),
            forall|k: int| 0 <= k < i ==> !site_in_tier(#[trigger] tiles@[k], tier as int),
        decreases tiles@.len() - i,
    {
        if tier_ok(&tiles[i], tier) {
            return true;
        }
        i = i + 1;
    }
    false
}

/// The heuristic CPU's Headquarters site.
pub fn hq_site(tiles: &Vec<SiteTile>, nbs: &Vec<Vec<usize>>) -> (r: Option<usize>)
    requires
        site_board_wf(tiles@, nbs@.map_values(|v: Vec<usize>| v@)),
    ensures
        is_hq_site(tiles@, nbs@.map_values(|v: Vec<usize>| v@), r),
{
    let ghost nv = nbs@.map_values(|v: Vec<usize>| v@);
    let tier: u8 = if has_tier(tiles, 0) {
        0
    } else if has_tier(tiles, 1) {
        1
    } else {
        2
    };
    assert(tier as int == chosen_tier(tiles@));
    let mut best: Option<(usize, i64)> = None;
    let mut i: usize = 0;
    while i < tiles.len()
        invariant
            i <= tiles@.len(),
            tier as int == chosen_tier(tiles@),
            site_board_wf(tiles@, nv),
            nv == nbs@.map_values(|v: Vec<usize>| v@),
            match best {
                None => forall|k: int| 0 <= k < i ==> !site_in_tier(#[trigger] tiles@[k], tier as int),
                Some((b, bs)) => {
                    &&& b < i
                    &&& site_in_tier(tiles@[b as int], tier as int)
                    &&& bs == site_score(tiles@, nv, b as int)
                    &&& forall|k: int|
                        0 <= k < i && site_in_tier(#[trigger] tiles@[k], tier as int) ==> site_score(tiles@, nv, k)
                            <= bs && (k < b ==> site_score(tiles@, nv, k) < bs)
                },
            },
        decreases tiles@.len() - i,
    {
        if tier_ok(&tiles[i], tier) {
            let s = site_score_exec(tiles, nbs, i);
            let better = match best {
                None => true,
                Some((_, bs)) => s > bs,
            };
            if better {
                best = Some((i, s));
            }
        }
        i = i + 1;
    }
    match best {
        None => {
            proof {
                if tier_nonempty(tiles@, 2) {
                    let w = choose|k: int| 0 <= k < tiles@.len() && site_in_tier(#[trigger] tiles@[k], 2);
                    assert(site_in_tier(tiles@[w], tier as int));
                }
            }
            None
        },
        Some((b, _)) => Some(b),
    }
}

/// `r` is the index of the first largest `values[i]` among those `keep`
/// marks, or `None` when `keep` marks none.
pub open spec fn is_first_max(values: Seq<i64>, keep: Seq<bool>, r: Option<usize>) -> bool {
    match r {
        None => forall|i: int| 0 <= i < keep.len() ==> !#[trigger] keep[i],
        Some(b) => {
            &&& b < values.len()
            &&& b < keep.len()
            &&& keep[b as int]
            &&& forall|i: int|
                0 <= i < values.len() && i < keep.len() && #[trigger] keep[i] ==> values[i] <= values[b as int] && (i
                    < b ==> values[i] < values[b as int])
        },
    }
}

/// The first largest value among the kept entries.
pub fn first_max(values: &Vec<i64>, keep: &Vec<bool>) -> (r: Option<usize>)
    requires
        values@.len() == keep@.len(),
    ensures
        is_first_max(values@, keep@, r),
{
    let mut best: Option<usize> = None;
    let mut i: usize = 0;
    while i < values.len()
        invariant
            i <= values@.len(),
            values@.len() == keep@.len(),
            match best {
                None => forall|k: int| 0 <= k < i ==> !#[trigger] keep@[k],
                Some(b) => {
                    &&& b < i
                    &&& keep@[b as int]
                    &&& forall|k: int|
                        0 <= k < i && #[trigger] keep@[k] ==> values@[k] <= values@[b as int] && (k < b ==> values@[k]
                            < values@[b as int])
                },
            },
        decreases values@.len() - i,
    {
        if keep[i] {
            let better = match best {
                None => true,
                Some(b) => values[i] > values[b],
            };
            if better {
                best = Some(i);
            }
        }
        i = i + 1;
    }
    best
}

/// A tile reachable for expansion.
#[derive(Clone, Copy, Debug, PartialEq, Eq, Structural)]
pub struct NeutralTile {
    pub unowned: bool,
    pub has_space: bool,
    /// An enemy soldier stands next to it.
    pub threatened: bool,
    /// An own unit is already conquering it.
    pub own_conquering: bool,
    /// Its claim value.
    pub claim: i64,
}

/// A tile worth claiming: unowned, with room, unthreatened, and not already
/// being claimed.
pub open spec fn claimable(t: NeutralTile) -> bool {
    t.unowned && t.has_space && !t.threatened && !t.own_conquering
}

pub open spec fn claim_values(ts: Seq<NeutralTile>) -> Seq<i64> {
    ts.map_values(|t: NeutralTile| t.claim)
}

pub open spec fn claimable_mask(ts: Seq<NeutralTile>) -> Seq<bool> {
    ts.map_values(|t: NeutralTile| claimable(t))
}

/// The next tile to claim: the claimable tile of highest claim value, the
/// first among equals (the head of a stable descending sort).
pub fn expand_target(ts: &Vec<NeutralTile>) -> (r: Option<usize>)
    ensures
        is_first_max(claim_values(ts@), claimable_mask(ts@), r),
{
    let mut values: Vec<i64> = Vec::new();
    let mut keep: Vec<bool> = Vec::new();
    let mut i: usize = 0;
    while i < ts.len()
        invariant
            i <= ts@.len(),
            values@ == claim_values(ts@.take(i as int)),
            keep@ == claimable_mask(ts@.take(i as int)),
        decreases ts@.len() - i,
    {
        let t = ts[i];
        values.push(t.claim);
        keep.push(t.unowned && t.has_space && !t.threatened && !t.own_conquering);
        proof {
            assert(ts@.take(i + 1) == ts@.take(i as int).push(ts@[i as int]));
        }
        i = i + 1;
    }
    proof {
        assert(ts@.take(ts@.len() as int) == ts@);
    }
    first_max(&values, &keep)
}

/// The tiles a bridge over a river would newly open: the river's four
/// neighbours that are not ours, not yet reachable, and pass the engine's
/// headquarters gate (`opp_hq`, which admits every tile but the player's own
/// Headquarters).
pub open spec fn unblocked(
    me: usize,
    nbs4: Seq<usize>,
    owners: Seq<Option<usize>>,
    reachable: Seq<bool>,
    opp_hq: Seq<bool>,
) -> int
    decreases nbs4.len(),
{
    if nbs4.len() == 0 {
        0
    } else {
        let n = nbs4.last() as int;
        unblocked(me, nbs4.drop_last(), owners, reachable, opp_hq) + if owners[n] != Some(me) && !reachable[n]
            && opp_hq[n] {
            1int
        } else {
            0
        }
    }
}

proof fn lemma_unblocked_bounds(
    me: usize,
    nbs4: Seq<usize>,
    owners: Seq<Option<usize>>,
    reachable: Seq<bool>,
    opp_hq: Seq<bool>,
)
    ensures
        0 <= unblocked(me, nbs4, owners, reachable, opp_hq) <= nbs4.len(),
    decreases nbs4.len(),
{
    if nbs4.len() > 0 {
        lemma_unblocked_bounds(me, nbs4.drop_last(), owners, reachable, opp_hq);
    }
}

/// The number of tiles a bridge over a river would newly open.
pub fn unblock_count(
    me: usize,
    nbs4: &Vec<usize>,
    owners: &Vec<Option<usize>>,
    reachable: &Vec<bool>,
    opp_hq: &Vec<bool>,
) -> (r: i64)
    requires
        owners@.len() == reachable@.len(),
        owners@.len() == opp_hq@.len(),
        nbs4@.len() <= i64::MAX,
        forall|j: int| 0 <= j < nbs4@.len() ==> (#[trigger] nbs4@[j]) < owners@.len(),
    ensures
        r == unblocked(me, nbs4@, owners@, reachable@, opp_hq@),
{
    let mut n: i64 = 0;
    let mut j: usize = 0;
    while j < nbs4.len()
        invariant
            j <= nbs4@.len(),
            nbs4@.len() <= i64::MAX,
            owners@.len() == reachable@.len(),
            owners@.len() == opp_hq@.len(),
            forall|k: int| 0 <= k < nbs4@.len() ==> (#[trigger] nbs4@[k]) < owners@.len(),
            n == unblocked(me, nbs4@.take(j as int), owners@, reachable@, opp_hq@),
        decreases nbs4@.len() - j,
    {
        proof {
            lemma_unblocked_bounds(me, nbs4@.take(j as int), owners@, reachable@, opp_hq@);
            assert(nbs4@.take(j + 1).drop_last() == nbs4@.take(j as int));
        }
        let nb = nbs4[j];
        let mine = match owners[nb] {
            Some(o) => o == me,
            None => false,
        };
        if !mine && !reachable[nb] && opp_hq[nb] {
            n = n + 1;
        }
        j = j + 1;
    }
    proof {
        assert(nbs4@.take(nbs4@.len() as int) == nbs4@);
    }
    n
}

/// What to build on the chosen river.
#[derive(Clone, Copy, Debug, PartialEq, Eq, Structural)]
pub struct BridgePlan {
    /// Try a Hydroelectric Power Plant first (it also bridges the river).
    pub hydro_first: bool,
    /// A plain Bridge is affordable (tried when no Hydro is built).
    pub bridge: bool,
}

impl HardAi {
    /// Bridging a river that would open `gain` tiles: nothing when it opens
    /// none. A Hydro plant comes first for an Expert-staffing,
    /// Nuclear-investing preset after round 30 when one is buildable, staffable,
    /// the net income is not negative and its cost and wood are covered; a plain
    /// Bridge when its cost and wood are covered.
    pub fn bridge_plan(
        &self,
        gain: i64,
        rounds_played: i64,
        hydro_buildable: bool,
        can_staff_plant: bool,
        net_q: i128,
        hydro_affordable: bool,
        bridge_affordable: bool,
    ) -> (r: Option<BridgePlan>)
        ensures
            r == (if gain <= 0 {
                None
            } else {
                Some(
                    BridgePlan {
                        hydro_first: self.spec_params().experts && rounds_played > 30 && self.spec_params().nuclear
                            && hydro_buildable && can_staff_plant && net_q >= 0 && hydro_affordable,
                        bridge: bridge_affordable,
                    },
                )
            }),
    {
        if gain <= 0 {
            return None;
        }
        let p = self.params();
        Some(
            BridgePlan {
                hydro_first: p.experts && rounds_played > 30 && p.nuclear && hydro_buildable && can_staff_plant && net_q
                    >= 0 && hydro_affordable,
                bridge: bridge_affordable,
            },
        )
    }

    /// The reserve a bridge or river plant keeps: the preset's reserve, at
    /// most 80.
    pub fn bridge_reserve(&self) -> (r: i64)
        ensures
            r == if self.spec_params().reserve < 80 {
                self.spec_params().reserve
            } else {
                80
            },
    {
        let r = self.params().reserve;
        if r < 80 {
            r
        } else {
            80
        }
    }

    /// The Outpost spot: the first buildable grassland on the front (threatened
    /// or bordering an enemy tile), else the first buildable one.
    pub fn outpost_spot(frontline: &Vec<bool>) -> (r: Option<usize>)
        ensures
            r == (match first_true(frontline@) {
                Some(i) => Some(i),
                None => if frontline@.len() > 0 {
                    Some(0usize)
                } else {
                    None
                },
            }),
    {
        match find_first(frontline) {
            Some(i) => Some(i),
            None => if frontline.len() > 0 {
                Some(0)
            } else {
                None
            },
        }
    }

    /// The expansion phase runs: the preset claims tiles, and the device
    /// strategist is neither banking for nor holding its Device.
    pub fn expansion_runs(&self, banking: bool, holding: bool) -> (r: bool)
        ensures
            r == (self.spec_params().expand > 0 && !banking && !holding),
    {
        self.params().expand > 0 && !banking && !holding
    }

    /// Another tile may be claimed: fewer than the preset's claims so far and
    /// actions left.
    pub fn claim_slot_open(&self, claimed: i64) -> (r: bool)
        ensures
            r == (claimed < self.spec_params().expand && self.spec_budget() > 0),
    {
        claimed < self.params().expand && self.budget() > 0
    }
}

} // verus!
