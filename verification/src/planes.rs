//! The spatial board encoding from one player's side: which cells light in
//! which channel (ownership, terrain, buildings, soldiers and conquering
//! soldiers, the attack balance, the distances to enemy objectives), and an
//! enemy's deployable soldier budget.

use vstd::prelude::*;
use crate::metrics::{BuildingKind, TileKind};
use crate::hard_ai::trunc_div;
use crate::march::{nearest, nearest_dist};

verus! {

/// The producer plane covers Farm, Mine, Village, Hydro and Nuclear.
pub open spec fn spec_is_producer(kind: BuildingKind) -> bool {
    kind == BuildingKind::Farm || kind == BuildingKind::Mine || kind == BuildingKind::Village || kind
        == BuildingKind::Hydro || kind == BuildingKind::Nuclear
}

/// The producer plane covers Farm, Mine, Village, Hydro and Nuclear.
pub fn is_producer(kind: BuildingKind) -> (r: bool)
    ensures
        r == spec_is_producer(kind),
{
    match kind {
        BuildingKind::Farm | BuildingKind::Mine | BuildingKind::Village | BuildingKind::Hydro
        | BuildingKind::Nuclear => true,
        _ => false,
    }
}

/// A producer pays out this turn: a matured Farm (growth phase 4) with a
/// worker, a Mine with a worker, a Hydro or Nuclear plant with an Expert; a
/// Village or Outpost always.
pub open spec fn spec_producing(building: Option<BuildingKind>, growth_phase: i64, has_worker: bool, has_expert: bool) -> bool {
    match building {
        Some(BuildingKind::Farm) => growth_phase == 4 && has_worker,
        Some(BuildingKind::Mine) => has_worker,
        Some(BuildingKind::Hydro) | Some(BuildingKind::Nuclear) => has_expert,
        Some(BuildingKind::Village) | Some(BuildingKind::Outpost) => true,
        _ => false,
    }
}

pub fn is_producing_producer(building: Option<BuildingKind>, growth_phase: i64, has_worker: bool, has_expert: bool) -> (r:
    bool)
    ensures
        r == spec_producing(building, growth_phase, has_worker, has_expert),
{
    match building {
        Some(BuildingKind::Farm) => growth_phase == 4 && has_worker,
        Some(BuildingKind::Mine) => has_worker,
        Some(BuildingKind::Hydro) | Some(BuildingKind::Nuclear) => has_expert,
        Some(BuildingKind::Village) | Some(BuildingKind::Outpost) => true,
        _ => false,
    }
}

/// An enemy's mobile-soldier budget: every fielded soldier, plus the new
/// soldiers its money (200 each) and metal (50 each) pay for, within its free
/// soldier slots.
pub open spec fn spec_mobile_budget(owned_soldiers: int, money: int, metal: int, free_slots: int) -> int {
    let by_money = trunc_div(money, 200);
    let by_metal = trunc_div(metal, 50);
    let m = if by_money < by_metal { by_money } else { by_metal };
    let affordable = if m > 0 { m } else { 0 };
    let slots = if free_slots > 0 { free_slots } else { 0 };
    owned_soldiers + if affordable < slots { affordable } else { slots }
}

/// The mobile budget counts every fielded soldier plus as many new ones as
/// fit the free slots, the money at 200 each and the metal at 50 each (with
/// non-negative stocks), and no fewer: one more would overflow the slots, the
/// money or the metal.
pub proof fn lemma_mobile_budget_is_largest(owned_soldiers: int, money: int, metal: int, free_slots: int)
    requires
        money >= 0,
        metal >= 0,
        free_slots >= 0,
    ensures
        ({
            let k = spec_mobile_budget(owned_soldiers, money, metal, free_slots) - owned_soldiers;
            &&& 0 <= k <= free_slots
            &&& 200 * k <= money
            &&& 50 * k <= metal
            &&& (k + 1 > free_slots || 200 * (k + 1) > money || 50 * (k + 1) > metal)
        }),
{
    let a = money / 200;
    let b = metal / 50;
    assert(200 * a <= money && 200 * (a + 1) > money && a >= 0) by (nonlinear_arith)
        requires
            money >= 0,
            a == money / 200,
    ;
    assert(50 * b <= metal && 50 * (b + 1) > metal && b >= 0) by (nonlinear_arith)
        requires
            metal >= 0,
            b == metal / 50,
    ;
}

/// Which producers pay out: a Farm only once mature (growth phase 4) and
/// worked, a Mine only when worked, a Hydro or Nuclear plant only with an
/// Expert, a Village or Outpost always, and nothing else (nor an empty tile).
/// Every producer except the Outpost lights the producer plane.
pub proof fn lemma_producing_rule(b: Option<BuildingKind>, growth_phase: i64, has_worker: bool, has_expert: bool)
    ensures
        b is None ==> !spec_producing(b, growth_phase, has_worker, has_expert),
        b == Some(BuildingKind::Farm) ==> (spec_producing(b, growth_phase, has_worker, has_expert) <==> (
        growth_phase == 4 && has_worker)),
        b == Some(BuildingKind::Mine) ==> (spec_producing(b, growth_phase, has_worker, has_expert) <==> has_worker),
        b == Some(BuildingKind::Hydro) || b == Some(BuildingKind::Nuclear) ==> (spec_producing(
            b,
            growth_phase,
            has_worker,
            has_expert,
        ) <==> has_expert),
        b == Some(BuildingKind::Village) || b == Some(BuildingKind::Outpost) ==> spec_producing(
            b,
            growth_phase,
            has_worker,
            has_expert,
        ),
        b == Some(BuildingKind::Headquarters) || b == Some(BuildingKind::Bridge) || b == Some(
            BuildingKind::StrangeDevice,
        ) || b == Some(BuildingKind::Mikontalo) ==> !spec_producing(b, growth_phase, has_worker, has_expert),
        b matches Some(k) ==> (spec_is_producer(k) <==> (spec_producing(b, 4, true, true) && k
            != BuildingKind::Outpost)),
{
}

pub fn enemy_mobile_budget(owned_soldiers: i64, money: i64, metal: i64, free_slots: i64) -> (r: i64)
    requires
        owned_soldiers >= 0,
        owned_soldiers + free_slots <= i64::MAX,
    ensures
        r == spec_mobile_budget(owned_soldiers as int, money as int, metal as int, free_slots as int),
{
    let by_money = money / 200;
    let by_metal = metal / 50;
    let m = if by_money < by_metal {
        by_money
    } else {
        by_metal
    };
    let affordable = if m > 0 {
        m
    } else {
        0
    };
    let slots = if free_slots > 0 {
        free_slots
    } else {
        0
    };
    owned_soldiers + if affordable < slots {
        affordable
    } else {
        slots
    }
}

/// The attacker-minus-defender balance on a cell from the viewer's side: on
/// the viewer's own tile its defenders against enemy attackers, on an enemy
/// tile its attackers against the defenders, elsewhere its attackers alone.
/// A conquest needs it positive (ties hold for the defender).
pub fn soldier_balance(mine: bool, enemy: bool, defenders: i64, my_attackers: i64, enemy_attackers: i64) -> (r: i64)
    requires
        defenders >= 0,
        my_attackers >= 0,
        enemy_attackers >= 0,
    ensures
        r == if mine {
            defenders - enemy_attackers
        } else if enemy {
            my_attackers - defenders
        } else {
            my_attackers as int
        },
{
    if mine {
        defenders - enemy_attackers
    } else if enemy {
        my_attackers - defenders
    } else {
        my_attackers
    }
}

/// What the encoding reads of one tile, as plain values.
#[derive(Clone, Debug)]
pub struct CellView {
    pub x: i32,
    pub y: i32,
    /// The owning player, if any.
    pub owner: Option<usize>,
    pub terrain: TileKind,
    pub building: Option<BuildingKind>,
    /// The building's growth phase (Farms mature at 4).
    pub growth_phase: i64,
    pub has_worker: bool,
    pub has_expert: bool,
    /// Soldiers stationed on the tile (they belong to its owner).
    pub soldiers: i64,
    /// The owner of each soldier staged on the tile to conquer it.
    pub attackers: Vec<Option<usize>>,
}

/// The terrain channel a tile lights: both forests share one.
#[derive(Clone, Copy, Debug, PartialEq, Eq, Structural)]
pub enum TerrainPlane {
    Grassland,
    Forest,
    Mountain,
    River,
}

/// The channels of one cell from the viewer's side, before scaling.
#[derive(Clone, Copy, Debug, PartialEq, Eq, Structural)]
pub struct CellCodes {
    pub mine: bool,
    /// Owned by another player still in the game.
    pub enemy: bool,
    pub neutral: bool,
    pub terrain: TerrainPlane,
    /// An Outpost: impregnable whatever the soldier counts.
    pub military: bool,
    pub device: bool,
    pub producer: bool,
    /// One of the viewer's producers paying out this turn.
    pub producing: bool,
    /// The viewer's own unbridged river: an expansion dead end.
    pub river_block: bool,
    pub my_soldiers: i64,
    pub enemy_soldiers: i64,
    pub my_attackers: i64,
    pub enemy_attackers: i64,
    /// Attackers minus defenders from the viewer's side ([`soldier_balance`]).
    pub balance: i64,
    /// Distance to the nearest HQ of a live enemy, when there is one.
    pub hq_dist: Option<i64>,
    /// Distance to a Strange Device that a live enemy owns, when there is one.
    pub device_dist: Option<i64>,
}

/// Player `o` is an enemy of `me` still in the game.
pub open spec fn live_enemy(me: usize, live: Seq<bool>, o: usize) -> bool {
    o != me && o < live.len() && live[o as int]
}

pub open spec fn enemy_owned(me: usize, live: Seq<bool>, owner: Option<usize>) -> bool {
    match owner {
        Some(o) => live_enemy(me, live, o),
        None => false,
    }
}

/// Of the conquering soldiers with owners `owners`, those of the viewer
/// (`enemy_side` false) or of live enemies (`enemy_side` true).
pub open spec fn attacker_count(me: usize, live: Seq<bool>, owners: Seq<Option<usize>>, enemy_side: bool) -> int
    decreases owners.len(),
{
    if owners.len() == 0 {
        0
    } else {
        let counts = if enemy_side {
            enemy_owned(me, live, owners.last())
        } else {
            owners.last() == Some(me)
        };
        attacker_count(me, live, owners.drop_last(), enemy_side) + if counts {
            1int
        } else {
            0int
        }
    }
}

/// The positions of the HQs that live enemies hold, in the order given.
pub open spec fn enemy_hq_coords(me: usize, live: Seq<bool>, hqs: Seq<(usize, (i32, i32))>) -> Seq<(i32, i32)>
    decreases hqs.len(),
{
    if hqs.len() == 0 {
        Seq::empty()
    } else {
        let rest = enemy_hq_coords(me, live, hqs.drop_last());
        if live_enemy(me, live, hqs.last().0) {
            rest.push(hqs.last().1)
        } else {
            rest
        }
    }
}

/// The position of the Strange Device, when a live enemy owns it.
pub open spec fn enemy_device_at(me: usize, live: Seq<bool>, device: Option<(Option<usize>, (i32, i32))>) -> Option<
    (i32, i32),
> {
    match device {
        Some((owner, at)) => if enemy_owned(me, live, owner) {
            Some(at)
        } else {
            None
        },
        None => None,
    }
}

pub open spec fn spec_terrain_plane(k: TileKind) -> TerrainPlane {
    match k {
        TileKind::Grassland => TerrainPlane::Grassland,
        TileKind::Forest | TileKind::AbundantForest => TerrainPlane::Forest,
        TileKind::Mountain => TerrainPlane::Mountain,
        TileKind::River => TerrainPlane::River,
    }
}

/// The channels of cell `c` for viewer `me`, given the live enemies' HQ
/// positions and the position of a Device a live enemy owns.
pub open spec fn spec_cell_codes(
    me: usize,
    live: Seq<bool>,
    c: CellView,
    enemy_hqs: Seq<(i32, i32)>,
    device: Option<(i32, i32)>,
) -> CellCodes {
    let mine = c.owner == Some(me);
    let enemy = enemy_owned(me, live, c.owner);
    let my_att = attacker_count(me, live, c.attackers@, false);
    let enemy_att = attacker_count(me, live, c.attackers@, true);
    CellCodes {
        mine,
        enemy,
        neutral: c.owner is None,
        terrain: spec_terrain_plane(c.terrain),
        military: c.building == Some(BuildingKind::Outpost),
        device: c.building == Some(BuildingKind::StrangeDevice),
        producer: match c.building {
            Some(k) => spec_is_producer(k),
            None => false,
        },
        producing: mine && spec_producing(c.building, c.growth_phase, c.has_worker, c.has_expert),
        river_block: mine && c.building is None && c.terrain == TileKind::River,
        my_soldiers: if mine {
            c.soldiers
        } else {
            0
        },
        enemy_soldiers: if enemy {
            c.soldiers
        } else {
            0
        },
        my_attackers: my_att as i64,
        enemy_attackers: enemy_att as i64,
        balance: (if mine {
            c.soldiers - enemy_att
        } else if enemy {
            my_att - c.soldiers
        } else {
            my_att
        }) as i64,
        hq_dist: if enemy_hqs.len() > 0 {
            Some(nearest((c.x, c.y), enemy_hqs) as i64)
        } else {
            None
        },
        device_dist: match device {
            Some(d) => Some(nearest((c.x, c.y), seq![d]) as i64),
            None => None,
        },
    }
}

/// Each terrain lights a channel of its own, except that the two forests
/// share one: grassland, forest, mountain and river cells land in the
/// grassland, forest, mountain and river channels.
pub proof fn lemma_terrain_planes(a: TileKind, b: TileKind)
    ensures
        (spec_terrain_plane(a) == spec_terrain_plane(b)) <==> (a == b || ((a == TileKind::Forest || a
            == TileKind::AbundantForest) && (b == TileKind::Forest || b == TileKind::AbundantForest))),
        spec_terrain_plane(TileKind::Grassland) == TerrainPlane::Grassland,
        spec_terrain_plane(TileKind::Forest) == TerrainPlane::Forest,
        spec_terrain_plane(TileKind::AbundantForest) == TerrainPlane::Forest,
        spec_terrain_plane(TileKind::Mountain) == TerrainPlane::Mountain,
        spec_terrain_plane(TileKind::River) == TerrainPlane::River,
{
}

proof fn lemma_attacker_count_bounds(me: usize, live: Seq<bool>, owners: Seq<Option<usize>>)
    ensures
        0 <= attacker_count(me, live, owners, false),
        0 <= attacker_count(me, live, owners, true),
        attacker_count(me, live, owners, false) + attacker_count(me, live, owners, true) <= owners.len(),
    decreases owners.len(),
{
    if owners.len() > 0 {
        lemma_attacker_count_bounds(me, live, owners.drop_last());
    }
}

/// From the viewer's side a cell is its own, a live enemy's, or nobody's (at
/// most one of them; an eliminated player's cell is none); its terrain lights
/// its terrain's channel; a producer pays out only on the viewer's own cells;
/// a river blocks only when it is the viewer's and unbridged; stationed
/// soldiers count for the owner's side only; the viewer's and the enemies'
/// attackers together are at most the cell's attackers; the balance is the
/// defenders against the enemy attackers on the viewer's cell and its own
/// attackers against the defenders elsewhere; and the distances are present
/// exactly when a live enemy's HQ or Device stands.
pub proof fn lemma_cell_codes(me: usize, live: Seq<bool>, c: CellView, hqs: Seq<(i32, i32)>, device: Option<(i32, i32)>)
    requires
        cell_wf(c),
    ensures
        ({
            let k = spec_cell_codes(me, live, c, hqs, device);
            &&& k.mine <==> c.owner == Some(me)
            &&& k.neutral <==> c.owner is None
            &&& k.enemy <==> (c.owner matches Some(o) && o != me && o < live.len() && live[o as int])
            &&& !(k.mine && k.enemy) && !(k.mine && k.neutral) && !(k.enemy && k.neutral)
            &&& k.terrain == spec_terrain_plane(c.terrain)
            &&& k.producing ==> k.mine
            &&& k.producer ==> c.building is Some
            &&& k.military <==> c.building == Some(BuildingKind::Outpost)
            &&& k.device <==> c.building == Some(BuildingKind::StrangeDevice)
            &&& k.river_block <==> (k.mine && c.building is None && c.terrain == TileKind::River)
            &&& k.my_soldiers == if k.mine {
                c.soldiers
            } else {
                0
            }
            &&& k.enemy_soldiers == if k.enemy {
                c.soldiers
            } else {
                0
            }
            &&& 0 <= k.my_attackers && 0 <= k.enemy_attackers
            &&& k.my_attackers + k.enemy_attackers <= c.attackers@.len()
            &&& k.mine ==> k.balance == c.soldiers - k.enemy_attackers
            &&& k.enemy ==> k.balance == k.my_attackers - c.soldiers
            &&& !k.mine && !k.enemy ==> k.balance == k.my_attackers
            &&& (k.hq_dist is Some <==> hqs.len() > 0)
            &&& (k.device_dist is Some <==> device is Some)
            &&& k.hq_dist matches Some(d) ==> d >= 0
            &&& k.device_dist matches Some(d) ==> d >= 0
        }),
{
    lemma_attacker_count_bounds(me, live, c.attackers@);
    crate::march::lemma_nearest_nonneg((c.x, c.y), hqs);
    match device {
        Some(d) => crate::march::lemma_nearest_nonneg((c.x, c.y), seq![d]),
        None => {},
    }
}

pub open spec fn cell_wf(c: CellView) -> bool {
    c.soldiers >= 0 && c.attackers@.len() < i64::MAX
}

fn is_live_enemy(me: usize, live: &Vec<bool>, o: usize) -> (r: bool)
    ensures
        r == live_enemy(me, live@, o),
{
    o != me && o < live.len() && live[o]
}

fn is_enemy_owned(me: usize, live: &Vec<bool>, owner: Option<usize>) -> (r: bool)
    ensures
        r == enemy_owned(me, live@, owner),
{
    match owner {
        Some(o) => is_live_enemy(me, live, o),
        None => false,
    }
}

fn count_attackers(me: usize, live: &Vec<bool>, owners: &Vec<Option<usize>>) -> (r: (i64, i64))
    requires
        owners@.len() < i64::MAX,
    ensures
        r.0 == attacker_count(me, live@, owners@, false),
        r.1 == attacker_count(me, live@, owners@, true),
        0 <= r.0 <= owners@.len(),
        0 <= r.1 <= owners@.len(),
{
    let mut mine: i64 = 0;
    let mut enemy: i64 = 0;
    let mut i: usize = 0;
    while i < owners.len()
        invariant
            i <= owners@.len() < i64::MAX,
            0 <= mine <= i,
            0 <= enemy <= i,
            mine == attacker_count(me, live@, owners@.take(i as int), false),
            enemy == attacker_count(me, live@, owners@.take(i as int), true),
        decreases owners@.len() - i,
    {
        proof {
            assert(owners@.take(i + 1).drop_last() == owners@.take(i as int));
            assert(owners@.take(i + 1).last() == owners@[i as int]);
        }
        if owners[i] == Some(me) {
            mine = mine + 1;
        }
        if is_enemy_owned(me, live, owners[i]) {
            enemy = enemy + 1;
        }
        i = i + 1;
    }
    proof {
        assert(owners@.take(owners@.len() as int) == owners@);
    }
    (mine, enemy)
}

fn enemy_hq_list(me: usize, live: &Vec<bool>, hqs: &Vec<(usize, (i32, i32))>) -> (r: Vec<(i32, i32)>)
    ensures
        r@ == enemy_hq_coords(me, live@, hqs@),
{
    let mut r: Vec<(i32, i32)> = Vec::new();
    let mut i: usize = 0;
    while i < hqs.len()
        invariant
            i <= hqs@.len(),
            r@ == enemy_hq_coords(me, live@, hqs@.take(i as int)),
        decreases hqs@.len() - i,
    {
        proof {
            assert(hqs@.take(i + 1).drop_last() == hqs@.take(i as int));
            assert(hqs@.take(i + 1).last() == hqs@[i as int]);
        }
        if is_live_enemy(me, live, hqs[i].0) {
            r.push(hqs[i].1);
        }
        i = i + 1;
    }
    proof {
        assert(hqs@.take(hqs@.len() as int) == hqs@);
    }
    r
}

fn terrain_plane(k: TileKind) -> (r: TerrainPlane)
    ensures
        r == spec_terrain_plane(k),
{
    match k {
        TileKind::Grassland => TerrainPlane::Grassland,
        TileKind::Forest | TileKind::AbundantForest => TerrainPlane::Forest,
        TileKind::Mountain => TerrainPlane::Mountain,
        TileKind::River => TerrainPlane::River,
    }
}

/// The channels of one cell for viewer `me`.
pub fn cell_codes(
    me: usize,
    live: &Vec<bool>,
    c: &CellView,
    enemy_hqs: &Vec<(i32, i32)>,
    device: Option<(i32, i32)>,
) -> (r: CellCodes)
    requires
        cell_wf(*c),
    ensures
        r == spec_cell_codes(me, live@, *c, enemy_hqs@, device),
{
    let mine = c.owner == Some(me);
    let enemy = is_enemy_owned(me, live, c.owner);
    let (my_att, enemy_att) = count_attackers(me, live, &c.attackers);
    let producer = match c.building {
        Some(k) => is_producer(k),
        None => false,
    };
    let producing = mine && is_producing_producer(c.building, c.growth_phase, c.has_worker, c.has_expert);
    let river_block = mine && c.building.is_none() && c.terrain == TileKind::River;
    let hq_dist = if enemy_hqs.len() > 0 {
        Some(nearest_dist((c.x, c.y), enemy_hqs))
    } else {
        None
    };
    let device_dist = match device {
        Some(d) => {
            let one = vec![d];
            proof {
                assert(one@ == seq![d]);
            }
            Some(nearest_dist((c.x, c.y), &one))
        },
        None => None,
    };
    CellCodes {
        mine,
        enemy,
        neutral: c.owner.is_none(),
        terrain: terrain_plane(c.terrain),
        military: c.building == Some(BuildingKind::Outpost),
        device: c.building == Some(BuildingKind::StrangeDevice),
        producer,
        producing,
        river_block,
        my_soldiers: if mine {
            c.soldiers
        } else {
            0
        },
        enemy_soldiers: if enemy {
            c.soldiers
        } else {
            0
        },
        my_attackers: my_att,
        enemy_attackers: enemy_att,
        balance: soldier_balance(mine, enemy, c.soldiers, my_att, enemy_att),
        hq_dist,
        device_dist,
    }
}

/// The channels of every cell for viewer `me`: `live[o]` tells whether player
/// `o` is still in the game, `hqs` lists each player's HQ with its owner, and
/// `device` the Strange Device with its owner, if one stands. Only live
/// enemies' HQs and Device count.
pub fn board_codes(
    me: usize,
    live: &Vec<bool>,
    cells: &Vec<CellView>,
    hqs: &Vec<(usize, (i32, i32))>,
    device: Option<(Option<usize>, (i32, i32))>,
) -> (r: Vec<CellCodes>)
    requires
        forall|i: int| 0 <= i < cells@.len() ==> cell_wf(#[trigger] cells@[i]),
    ensures
        r@.len() == cells@.len(),
        forall|i: int|
            0 <= i < cells@.len() ==> #[trigger] r@[i] == spec_cell_codes(
                me,
                live@,
                cells@[i],
                enemy_hq_coords(me, live@, hqs@),
                enemy_device_at(me, live@, device),
            ),
{
    let enemy_hqs = enemy_hq_list(me, live, hqs);
    let dev = match device {
        Some((owner, at)) => if is_enemy_owned(me, live, owner) {
            Some(at)
        } else {
            None
        },
        None => None,
    };
    let mut r: Vec<CellCodes> = Vec::new();
    let mut i: usize = 0;
    while i < cells.len()
        invariant
            i <= cells@.len(),
            r@.len() == i,
            enemy_hqs@ == enemy_hq_coords(me, live@, hqs@),
            dev == enemy_device_at(me, live@, device),
            forall|k: int| 0 <= k < cells@.len() ==> cell_wf(#[trigger] cells@[k]),
            forall|k: int|
                0 <= k < i ==> #[trigger] r@[k] == spec_cell_codes(me, live@, cells@[k], enemy_hqs@, dev),
        decreases cells@.len() - i,
    {
        let c = cell_codes(me, live, &cells[i], &enemy_hqs, dev);
        r.push(c);
        i = i + 1;
    }
    r
}

} // verus!
