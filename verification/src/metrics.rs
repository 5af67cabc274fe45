//! Economy and military metrics of one player, computed from a per-tile
//! summary of the player's owned tiles. Money amounts that the game's formulas
//! express in quarters (a staffed Farm yields 175 money every 4 rounds) are kept
//! exactly as integer quarter-units (`*_q`: 4 × money).

use vstd::prelude::*;

verus! {

/// Terrain of a tile.
#[derive(Clone, Copy, Debug, PartialEq, Eq, Structural)]
pub enum TileKind {
    Grassland,
    Forest,
    AbundantForest,
    Mountain,
    River,
}

/// Building standing on a tile.
#[derive(Clone, Copy, Debug, PartialEq, Eq, Structural)]
pub enum BuildingKind {
    Headquarters,
    Farm,
    Mine,
    Village,
    Outpost,
    Nuclear,
    Hydro,
    Bridge,
    StrangeDevice,
    Mikontalo,
}

/// What the metrics read of one owned tile.
#[derive(Clone, Copy, Debug)]
pub struct TileEcon {
    pub tile: TileKind,
    pub building: Option<BuildingKind>,
    /// BasicWorkers standing on the tile.
    pub workers: u32,
    /// An Expert stands on the tile.
    pub expert: bool,
    /// At least one building can be built on the tile.
    pub buildable: bool,
}

// ---------------------------------------------------------------------------
// Per-tile contributions
// ---------------------------------------------------------------------------

/// Amortised money income of one tile, in quarter-units: a staffed Farm 175/4,
/// a staffed Mine 20 per worker (doubled by an Expert), Nuclear 160 and Hydro 80
/// per worker when an Expert is present, otherwise 15 for a worked abundant
/// forest; Villages cost 10 and Outposts 50 in upkeep.
pub open spec fn tile_income_q(t: TileEcon) -> int {
    let w = t.workers as int;
    let base: int = match t.building {
        Some(BuildingKind::Farm) if w > 0 => 175,
        Some(BuildingKind::Mine) if w > 0 => 80 * w * if t.expert { 2int } else { 1int },
        Some(BuildingKind::Nuclear) if w > 0 && t.expert => 640 * w,
        Some(BuildingKind::Hydro) if w > 0 && t.expert => 320 * w,
        _ => if t.tile == TileKind::AbundantForest && w > 0 {
            60
        } else {
            0
        },
    };
    let upkeep: int = match t.building {
        Some(BuildingKind::Village) => 40,
        Some(BuildingKind::Outpost) => 200,
        _ => 0,
    };
    base - upkeep
}

/// Money upkeep of one tile's building: Village 10, Outpost 50.
pub open spec fn tile_money_upkeep(t: TileEcon) -> int {
    match t.building {
        Some(BuildingKind::Village) => 10,
        Some(BuildingKind::Outpost) => 50,
        _ => 0,
    }
}

/// Wood upkeep of one tile's building: Village 10, Bridge 5.
pub open spec fn tile_wood_upkeep(t: TileEcon) -> int {
    match t.building {
        Some(BuildingKind::Village) => 10,
        Some(BuildingKind::Bridge) => 5,
        _ => 0,
    }
}

/// Metal from one tile: a Mine yields 20 per worker, doubled by an Expert.
pub open spec fn tile_metal(t: TileEcon) -> int {
    match t.building {
        Some(BuildingKind::Mine) => 20 * (t.workers as int) * if t.expert { 2int } else { 1int },
        _ => 0,
    }
}

/// Stone from one tile: a Mine yields 30 per worker, doubled by an Expert.
pub open spec fn tile_stone(t: TileEcon) -> int {
    match t.building {
        Some(BuildingKind::Mine) => 30 * (t.workers as int) * if t.expert { 2int } else { 1int },
        _ => 0,
    }
}

/// Wood from one tile: a forest yields about 100 per worker.
pub open spec fn tile_wood(t: TileEcon) -> int {
    if t.tile == TileKind::Forest {
        100 * t.workers as int
    } else {
        0
    }
}

/// Sum of `f` over the tiles.
pub open spec fn sum_tiles(tiles: Seq<TileEcon>, f: spec_fn(TileEcon) -> int) -> int
    decreases tiles.len(),
{
    if tiles.len() == 0 {
        0
    } else {
        sum_tiles(tiles.drop_last(), f) + f(tiles.last())
    }
}

proof fn lemma_sum_take(tiles: Seq<TileEcon>, f: spec_fn(TileEcon) -> int, i: int)
    requires
        0 <= i < tiles.len(),
    ensures
        sum_tiles(tiles.take(i + 1), f) == sum_tiles(tiles.take(i), f) + f(tiles[i]),
{
    assert(tiles.take(i + 1).drop_last() =~= tiles.take(i));
}

/// Sum of a nonnegative, bounded-per-tile contribution is bounded.
proof fn lemma_sum_bounds(tiles: Seq<TileEcon>, f: spec_fn(TileEcon) -> int, lo: int, hi: int)
    requires
        lo <= 0 <= hi,
        forall|t: TileEcon| lo <= #[trigger] f(t) <= hi,
    ensures
        tiles.len() * lo <= sum_tiles(tiles, f) <= tiles.len() * hi,
    decreases tiles.len(),
{
    if tiles.len() > 0 {
        lemma_sum_bounds(tiles.drop_last(), f, lo, hi);
        assert((tiles.len() - 1) * hi + hi == tiles.len() * hi) by (nonlinear_arith);
        assert((tiles.len() - 1) * lo + lo == tiles.len() * lo) by (nonlinear_arith);
    }
}

// ---------------------------------------------------------------------------
// Salaries
// ---------------------------------------------------------------------------

/// Wages per round: 5 per BasicWorker, 25 per Expert, 30 per Soldier.
pub open spec fn spec_salary(workers: int, experts: int, soldiers: int) -> int {
    workers * 5 + experts * 25 + soldiers * 30
}

/// Each BasicWorker adds 5 to the wages, each Expert 25 and each Soldier 30;
/// no units, no wages.
pub proof fn lemma_salary_rates(workers: int, experts: int, soldiers: int)
    ensures
        spec_salary(0, 0, 0) == 0,
        spec_salary(workers + 1, experts, soldiers) == spec_salary(workers, experts, soldiers) + 5,
        spec_salary(workers, experts + 1, soldiers) == spec_salary(workers, experts, soldiers) + 25,
        spec_salary(workers, experts, soldiers + 1) == spec_salary(workers, experts, soldiers) + 30,
{
}

/// Wages of all the player's units.
pub fn salary_per_round(workers: i64, experts: i64, soldiers: i64) -> (r: i64)
    requires
        i64::MIN <= workers * 5 <= i64::MAX,
        i64::MIN <= experts * 25 <= i64::MAX,
        i64::MIN <= soldiers * 30 <= i64::MAX,
        i64::MIN <= workers * 5 + experts * 25 <= i64::MAX,
        i64::MIN <= spec_salary(workers as int, experts as int, soldiers as int) <= i64::MAX,
    ensures
        r == spec_salary(workers as int, experts as int, soldiers as int),
{
    workers * 5 + experts * 25 + soldiers * 30
}

// ---------------------------------------------------------------------------
// Tile sums
// ---------------------------------------------------------------------------

/// The per-tile quantities the metrics sum.
#[derive(Clone, Copy)]
enum Quantity {
    IncomeQ,
    MoneyUpkeep,
    WoodUpkeep,
    Metal,
    Stone,
    Wood,
}

spec fn quantity(q: Quantity, t: TileEcon) -> int {
    match q {
        Quantity::IncomeQ => tile_income_q(t),
        Quantity::MoneyUpkeep => tile_money_upkeep(t),
        Quantity::WoodUpkeep => tile_wood_upkeep(t),
        Quantity::Metal => tile_metal(t),
        Quantity::Stone => tile_stone(t),
        Quantity::Wood => tile_wood(t),
    }
}

fn quantity_of(q: Quantity, t: &TileEcon) -> (r: i128)
    ensures
        r == quantity(q, *t),
        -200 <= r <= 640 * (u32::MAX as int),
{
    let w = t.workers as i128;
    let boost: i128 = if t.expert {
        2
    } else {
        1
    };
    match q {
        Quantity::IncomeQ => {
            let base: i128 = match t.building {
                Some(BuildingKind::Farm) if w > 0 => 175,
                Some(BuildingKind::Mine) if w > 0 => 80 * w * boost,
                Some(BuildingKind::Nuclear) if w > 0 && t.expert => 640 * w,
                Some(BuildingKind::Hydro) if w > 0 && t.expert => 320 * w,
                _ => if t.tile == TileKind::AbundantForest && w > 0 {
                    60
                } else {
                    0
                },
            };
            let upkeep: i128 = match t.building {
                Some(BuildingKind::Village) => 40,
                Some(BuildingKind::Outpost) => 200,
                _ => 0,
            };
            base - upkeep
        },
        Quantity::MoneyUpkeep => match t.building {
            Some(BuildingKind::Village) => 10,
            Some(BuildingKind::Outpost) => 50,
            _ => 0,
        },
        Quantity::WoodUpkeep => match t.building {
            Some(BuildingKind::Village) => 10,
            Some(BuildingKind::Bridge) => 5,
            _ => 0,
        },
        Quantity::Metal => match t.building {
            Some(BuildingKind::Mine) => 20 * w * boost,
            _ => 0,
        },
        Quantity::Stone => match t.building {
            Some(BuildingKind::Mine) => 30 * w * boost,
            _ => 0,
        },
        Quantity::Wood => if t.tile == TileKind::Forest {
            100 * w
        } else {
            0
        },
    }
}

fn sum_quantity(tiles: &Vec<TileEcon>, q: Quantity) -> (r: i128)
    ensures
        r == sum_tiles(tiles@, |t: TileEcon| quantity(q, t)),
        -1298074214633706907132624082305024 <= r <= 1298074214633706907132624082305024,
{
    let ghost f = |t: TileEcon| quantity(q, t);
    let mut sum: i128 = 0;
    let mut i: usize = 0;
    while i < tiles.len()
        invariant
            i <= tiles@.len(),
            sum == sum_tiles(tiles@.take(i as int), f),
            f == (|t: TileEcon| quantity(q, t)),
        decreases tiles@.len() - i,
    {
        proof {
            assert forall|t: TileEcon| -200 <= #[trigger] f(t) <= 640 * (u32::MAX as int) by {
                assert(t.workers <= u32::MAX);
                assert(t.workers * 20 * 2 <= 640 * (u32::MAX as int));
            }
            lemma_sum_take(tiles@, f, i as int);
            lemma_sum_bounds(tiles@.take(i + 1), f, -200, 640 * (u32::MAX as int));
            assert(tiles@.take(i + 1).len() == i + 1);
            assert((i + 1) * (640 * (u32::MAX as int)) <= (usize::MAX as int) * (640 * (u32::MAX as int)))
                by (nonlinear_arith)
                requires
                    i + 1 <= usize::MAX,
            ;
            assert((i + 1) * (-200) >= (usize::MAX as int) * (-200)) by (nonlinear_arith)
                requires
                    i + 1 <= usize::MAX,
            ;
        }
        let v = quantity_of(q, &tiles[i]);
        proof {
            assert(v == f(tiles@[i as int]));
        }
        sum = sum + v;
        i = i + 1;
    }
    proof {
        assert(tiles@.take(tiles@.len() as int) =~= tiles@);
        assert forall|t: TileEcon| -200 <= #[trigger] f(t) <= 640 * (u32::MAX as int) by {
            assert(t.workers * 20 * 2 <= 640 * (u32::MAX as int));
        }
        lemma_sum_bounds(tiles@, f, -200, 640 * (u32::MAX as int));
        let n = tiles@.len();
        assert(n * (640 * (u32::MAX as int)) <= (usize::MAX as int) * (640 * (u32::MAX as int)))
            by (nonlinear_arith)
            requires
                n <= usize::MAX,
        ;
        assert(n * (-200) >= (usize::MAX as int) * (-200)) by (nonlinear_arith)
            requires
                n <= usize::MAX,
        ;
        assert((usize::MAX as int) * (640 * (u32::MAX as int)) <= 1298074214633706907132624082305024);
    }
    sum
}

/// Total amortised money income of the tiles in quarter-units, before wages.
pub open spec fn spec_income_q(tiles: Seq<TileEcon>) -> int {
    sum_tiles(tiles, |t: TileEcon| tile_income_q(t))
}

/// Net money per round in quarter-units: amortised income of the owned tiles
/// minus four times the wages (`salary`).
pub fn net_money_per_round_q(tiles: &Vec<TileEcon>, salary: i64) -> (r: i128)
    ensures
        r == spec_income_q(tiles@) - 4 * salary,
{
    let s = sum_quantity(tiles, Quantity::IncomeQ);
    proof {
        assert((|t: TileEcon| quantity(Quantity::IncomeQ, t)) =~= (|t: TileEcon| tile_income_q(t)));
    }
    s - 4 * (salary as i128)
}

/// Village and Outpost money upkeep of the tiles.
pub open spec fn spec_money_upkeep(tiles: Seq<TileEcon>) -> int {
    sum_tiles(tiles, |t: TileEcon| tile_money_upkeep(t))
}

/// Money drain per round: wages (`salary`) plus Village/Outpost upkeep.
pub fn money_drain_per_round(tiles: &Vec<TileEcon>, salary: i64) -> (r: i128)
    ensures
        r == salary + spec_money_upkeep(tiles@),
{
    let s = sum_quantity(tiles, Quantity::MoneyUpkeep);
    proof {
        assert((|t: TileEcon| quantity(Quantity::MoneyUpkeep, t)) =~= (|t: TileEcon| tile_money_upkeep(t)));
    }
    (salary as i128) + s
}

/// Metal income of the tiles.
pub open spec fn spec_metal_income(tiles: Seq<TileEcon>) -> int {
    sum_tiles(tiles, |t: TileEcon| tile_metal(t))
}

/// Metal income per round: Mine output: 20 per worker, doubled by an Expert.
pub fn metal_income_per_round(tiles: &Vec<TileEcon>) -> (r: i128)
    ensures
        r == spec_metal_income(tiles@),
{
    let s = sum_quantity(tiles, Quantity::Metal);
    proof {
        assert((|t: TileEcon| quantity(Quantity::Metal, t)) =~= (|t: TileEcon| tile_metal(t)));
    }
    s
}

/// Stone income of the tiles.
pub open spec fn spec_stone_income(tiles: Seq<TileEcon>) -> int {
    sum_tiles(tiles, |t: TileEcon| tile_stone(t))
}

/// Stone income per round — Mine output: 30 per worker, doubled by an Expert.
pub fn stone_income_per_round(tiles: &Vec<TileEcon>) -> (r: i128)
    ensures
        r == spec_stone_income(tiles@),
{
    let s = sum_quantity(tiles, Quantity::Stone);
    proof {
        assert((|t: TileEcon| quantity(Quantity::Stone, t)) =~= (|t: TileEcon| tile_stone(t)));
    }
    s
}

/// Wood upkeep of the tiles.
pub open spec fn spec_wood_upkeep(tiles: Seq<TileEcon>) -> int {
    sum_tiles(tiles, |t: TileEcon| tile_wood_upkeep(t))
}

/// Wood upkeep per round: Villages 10, Bridges 5 per round.
pub fn wood_upkeep(tiles: &Vec<TileEcon>) -> (r: i128)
    ensures
        r == spec_wood_upkeep(tiles@),
        r >= 0,
{
    let s = sum_quantity(tiles, Quantity::WoodUpkeep);
    proof {
        assert((|t: TileEcon| quantity(Quantity::WoodUpkeep, t)) =~= (|t: TileEcon| tile_wood_upkeep(t)));
        lemma_sum_bounds(tiles@, |t: TileEcon| tile_wood_upkeep(t), 0, 10);
    }
    s
}

/// Wood income of the tiles.
pub open spec fn spec_wood_income(tiles: Seq<TileEcon>) -> int {
    sum_tiles(tiles, |t: TileEcon| tile_wood(t))
}

/// Wood income per round: staffed forests produce about 100 per worker.
pub fn wood_income_per_round(tiles: &Vec<TileEcon>) -> (r: i128)
    ensures
        r == spec_wood_income(tiles@),
{
    let s = sum_quantity(tiles, Quantity::Wood);
    proof {
        assert((|t: TileEcon| quantity(Quantity::Wood, t)) =~= (|t: TileEcon| tile_wood(t)));
    }
    s
}


proof fn lemma_sum_single(t: TileEcon, f: spec_fn(TileEcon) -> int)
    ensures
        sum_tiles(seq![t], f) == f(t),
{
    assert(seq![t].drop_last() =~= Seq::<TileEcon>::empty());
    assert(seq![t].last() == t);
    assert(sum_tiles(Seq::<TileEcon>::empty(), f) == 0);
}

proof fn lemma_sum_append(a: Seq<TileEcon>, b: Seq<TileEcon>, f: spec_fn(TileEcon) -> int)
    ensures
        sum_tiles(a + b, f) == sum_tiles(a, f) + sum_tiles(b, f),
    decreases b.len(),
{
    if b.len() == 0 {
        assert(a + b =~= a);
    } else {
        assert((a + b).drop_last() =~= a + b.drop_last());
        assert((a + b).last() == b.last());
        lemma_sum_append(a, b.drop_last(), f);
    }
}

/// Every metric of a set of tiles is the sum of the metric over its parts.
pub proof fn lemma_metrics_additive(a: Seq<TileEcon>, b: Seq<TileEcon>)
    ensures
        spec_income_q(a + b) == spec_income_q(a) + spec_income_q(b),
        spec_money_upkeep(a + b) == spec_money_upkeep(a) + spec_money_upkeep(b),
        spec_wood_upkeep(a + b) == spec_wood_upkeep(a) + spec_wood_upkeep(b),
        spec_metal_income(a + b) == spec_metal_income(a) + spec_metal_income(b),
        spec_stone_income(a + b) == spec_stone_income(a) + spec_stone_income(b),
        spec_wood_income(a + b) == spec_wood_income(a) + spec_wood_income(b),
{
    lemma_sum_append(a, b, |t: TileEcon| tile_income_q(t));
    lemma_sum_append(a, b, |t: TileEcon| tile_money_upkeep(t));
    lemma_sum_append(a, b, |t: TileEcon| tile_wood_upkeep(t));
    lemma_sum_append(a, b, |t: TileEcon| tile_metal(t));
    lemma_sum_append(a, b, |t: TileEcon| tile_stone(t));
    lemma_sum_append(a, b, |t: TileEcon| tile_wood(t));
}

/// The money one tile brings per round, in quarter-units (4 × money): a
/// staffed Farm 175 (175 money every four rounds) whatever its staff, a
/// staffed Mine 80 per worker and twice that with an Expert, a staffed Nuclear
/// plant 640 and a Hydro plant 320 per worker but only with an Expert, a
/// worked abundant forest 60; a Village costs 40 and an Outpost 200; an
/// unstaffed building earns nothing.
pub proof fn lemma_tile_money(t: TileEcon)
    ensures
        t.building == Some(BuildingKind::Farm) && t.workers > 0 ==> spec_income_q(seq![t]) == 175,
        t.building == Some(BuildingKind::Mine) && t.workers > 0 && !t.expert ==> spec_income_q(seq![t]) == 80
            * t.workers,
        t.building == Some(BuildingKind::Mine) && t.workers > 0 && t.expert ==> spec_income_q(seq![t]) == 2
            * spec_income_q(seq![TileEcon { expert: false, ..t }]),
        t.building == Some(BuildingKind::Nuclear) && t.workers > 0 && t.expert ==> spec_income_q(seq![t]) == 640
            * t.workers,
        t.building == Some(BuildingKind::Nuclear) && !t.expert && t.tile != TileKind::AbundantForest
            ==> spec_income_q(seq![t]) == 0,
        t.building == Some(BuildingKind::Hydro) && t.workers > 0 && t.expert ==> spec_income_q(seq![t]) == 320
            * t.workers,
        t.building == Some(BuildingKind::Hydro) && !t.expert && t.tile != TileKind::AbundantForest
            ==> spec_income_q(seq![t]) == 0,
        t.building is None ==> spec_income_q(seq![t]) == if t.tile == TileKind::AbundantForest && t.workers
            > 0 {
            60int
        } else {
            0int
        },
        t.building == Some(BuildingKind::Village) && t.tile != TileKind::AbundantForest ==> spec_income_q(
            seq![t],
        ) == -40,
        t.building == Some(BuildingKind::Outpost) && t.tile != TileKind::AbundantForest ==> spec_income_q(
            seq![t],
        ) == -200,
        t.workers == 0 && t.building != Some(BuildingKind::Village) && t.building != Some(BuildingKind::Outpost)
            ==> spec_income_q(seq![t]) == 0,
        spec_money_upkeep(seq![t]) == if t.building == Some(BuildingKind::Village) {
            10int
        } else if t.building == Some(BuildingKind::Outpost) {
            50int
        } else {
            0int
        },
        spec_wood_upkeep(seq![t]) == if t.building == Some(BuildingKind::Village) {
            10int
        } else if t.building == Some(BuildingKind::Bridge) {
            5int
        } else {
            0int
        },
{
    lemma_sum_single(t, |t: TileEcon| tile_income_q(t));
    lemma_sum_single(TileEcon { expert: false, ..t }, |t: TileEcon| tile_income_q(t));
    lemma_sum_single(t, |t: TileEcon| tile_money_upkeep(t));
    lemma_sum_single(t, |t: TileEcon| tile_wood_upkeep(t));
}

/// A Mine yields 20 metal and 30 stone per worker, and an Expert doubles both;
/// a forest yields 100 wood per worker; no other tile yields any of them.
pub proof fn lemma_tile_resources(t: TileEcon)
    ensures
        t.building == Some(BuildingKind::Mine) && !t.expert ==> spec_metal_income(seq![t]) == 20 * t.workers
            && spec_stone_income(seq![t]) == 30 * t.workers,
        t.building == Some(BuildingKind::Mine) && t.expert ==> spec_metal_income(seq![t]) == 2 * spec_metal_income(
            seq![TileEcon { expert: false, ..t }],
        ) && spec_stone_income(seq![t]) == 2 * spec_stone_income(seq![TileEcon { expert: false, ..t }]),
        t.building != Some(BuildingKind::Mine) ==> spec_metal_income(seq![t]) == 0 && spec_stone_income(seq![t])
            == 0,
        spec_wood_income(seq![t]) == if t.tile == TileKind::Forest {
            100 * t.workers
        } else {
            0int
        },
{
    let u = TileEcon { expert: false, ..t };
    lemma_sum_single(t, |t: TileEcon| tile_metal(t));
    lemma_sum_single(u, |t: TileEcon| tile_metal(t));
    lemma_sum_single(t, |t: TileEcon| tile_stone(t));
    lemma_sum_single(u, |t: TileEcon| tile_stone(t));
    lemma_sum_single(t, |t: TileEcon| tile_wood(t));
}

// ---------------------------------------------------------------------------
// Building counts
// ---------------------------------------------------------------------------

/// How many owned tiles hold each kind of building, and the free terrain.
#[derive(Debug, Default, Clone, Copy)]
pub struct BuildingCounts {
    pub farm: i64,
    pub mine: i64,
    pub village: i64,
    pub outpost: i64,
    pub nuclear: i64,
    pub hydro: i64,
    pub bridge: i64,
    pub staffed_farms: i64,
    pub forest_harvesters: i64,
    pub free_mountains: i64,
    pub free_grassland: i64,
    pub free_rivers: i64,
}

/// Number of tiles satisfying `pred`.
pub open spec fn count_tiles(tiles: Seq<TileEcon>, pred: spec_fn(TileEcon) -> bool) -> int {
    sum_tiles(tiles, |t: TileEcon| if pred(t) { 1int } else { 0int })
}

proof fn lemma_count_take(tiles: Seq<TileEcon>, pred: spec_fn(TileEcon) -> bool, i: int)
    requires
        0 <= i < tiles.len(),
    ensures
        count_tiles(tiles.take(i + 1), pred) == count_tiles(tiles.take(i), pred) + if pred(tiles[i]) {
            1int
        } else {
            0int
        },
        0 <= count_tiles(tiles.take(i + 1), pred) <= i + 1,
{
    lemma_sum_take(tiles, |t: TileEcon| if pred(t) { 1int } else { 0int }, i);
    lemma_sum_bounds(tiles.take(i + 1), |t: TileEcon| if pred(t) { 1int } else { 0int }, 0, 1);
}

/// Tile predicate counted by `BuildingCounts::farm`.
pub open spec fn is_farm(t: TileEcon) -> bool {
    t.building == Some(BuildingKind::Farm)
}

/// Tile predicate counted by `BuildingCounts::mine`.
pub open spec fn is_mine(t: TileEcon) -> bool {
    t.building == Some(BuildingKind::Mine)
}

/// Tile predicate counted by `BuildingCounts::village`.
pub open spec fn is_village(t: TileEcon) -> bool {
    t.building == Some(BuildingKind::Village)
}

/// Tile predicate counted by `BuildingCounts::outpost`.
pub open spec fn is_outpost(t: TileEcon) -> bool {
    t.building == Some(BuildingKind::Outpost)
}

/// Tile predicate counted by `BuildingCounts::nuclear`.
pub open spec fn is_nuclear(t: TileEcon) -> bool {
    t.building == Some(BuildingKind::Nuclear)
}

/// Tile predicate counted by `BuildingCounts::hydro`.
pub open spec fn is_hydro(t: TileEcon) -> bool {
    t.building == Some(BuildingKind::Hydro)
}

/// Tile predicate counted by `BuildingCounts::bridge`.
pub open spec fn is_bridge(t: TileEcon) -> bool {
    t.building == Some(BuildingKind::Bridge)
}

/// Tile predicate counted by `BuildingCounts::staffed_farms`.
pub open spec fn is_staffed_farms(t: TileEcon) -> bool {
    t.building == Some(BuildingKind::Farm) && t.workers > 0
}

/// Tile predicate counted by `BuildingCounts::forest_harvesters`.
pub open spec fn is_forest_harvesters(t: TileEcon) -> bool {
    t.tile == TileKind::Forest && t.building is None && t.workers > 0
}

/// Tile predicate counted by `BuildingCounts::free_mountains`.
pub open spec fn is_free_mountains(t: TileEcon) -> bool {
    t.tile == TileKind::Mountain && t.building is None
}

/// Tile predicate counted by `BuildingCounts::free_grassland`.
pub open spec fn is_free_grassland(t: TileEcon) -> bool {
    t.tile == TileKind::Grassland && t.building is None
}

/// Tile predicate counted by `BuildingCounts::free_rivers`.
pub open spec fn is_free_rivers(t: TileEcon) -> bool {
    t.tile == TileKind::River && t.building is None && t.buildable
}

/// Tally the owned tiles by building and by free terrain.
pub fn building_counts(tiles: &Vec<TileEcon>) -> (r: BuildingCounts)
    requires
        tiles@.len() <= i64::MAX,
    ensures
        r.farm == count_tiles(tiles@, |t: TileEcon| is_farm(t)),
        r.mine == count_tiles(tiles@, |t: TileEcon| is_mine(t)),
        r.village == count_tiles(tiles@, |t: TileEcon| is_village(t)),
        r.outpost == count_tiles(tiles@, |t: TileEcon| is_outpost(t)),
        r.nuclear == count_tiles(tiles@, |t: TileEcon| is_nuclear(t)),
        r.hydro == count_tiles(tiles@, |t: TileEcon| is_hydro(t)),
        r.bridge == count_tiles(tiles@, |t: TileEcon| is_bridge(t)),
        r.staffed_farms == count_tiles(tiles@, |t: TileEcon| is_staffed_farms(t)),
        r.forest_harvesters == count_tiles(tiles@, |t: TileEcon| is_forest_harvesters(t)),
        r.free_mountains == count_tiles(tiles@, |t: TileEcon| is_free_mountains(t)),
        r.free_grassland == count_tiles(tiles@, |t: TileEcon| is_free_grassland(t)),
        r.free_rivers == count_tiles(tiles@, |t: TileEcon| is_free_rivers(t)),
{
    let mut c = BuildingCounts {
        farm: 0,
        mine: 0,
        village: 0,
        outpost: 0,
        nuclear: 0,
        hydro: 0,
        bridge: 0,
        staffed_farms: 0,
        forest_harvesters: 0,
        free_mountains: 0,
        free_grassland: 0,
        free_rivers: 0,
    };
    let mut i: usize = 0;
    while i < tiles.len()
        invariant
            i <= tiles@.len(),
            tiles@.len() <= i64::MAX,
            c.farm == count_tiles(tiles@.take(i as int), |t: TileEcon| is_farm(t)),
            c.mine == count_tiles(tiles@.take(i as int), |t: TileEcon| is_mine(t)),
            c.village == count_tiles(tiles@.take(i as int), |t: TileEcon| is_village(t)),
            c.outpost == count_tiles(tiles@.take(i as int), |t: TileEcon| is_outpost(t)),
            c.nuclear == count_tiles(tiles@.take(i as int), |t: TileEcon| is_nuclear(t)),
            c.hydro == count_tiles(tiles@.take(i as int), |t: TileEcon| is_hydro(t)),
            c.bridge == count_tiles(tiles@.take(i as int), |t: TileEcon| is_bridge(t)),
            c.staffed_farms == count_tiles(tiles@.take(i as int), |t: TileEcon| is_staffed_farms(t)),
            c.forest_harvesters == count_tiles(tiles@.take(i as int), |t: TileEcon| is_forest_harvesters(t)),
            c.free_mountains == count_tiles(tiles@.take(i as int), |t: TileEcon| is_free_mountains(t)),
            c.free_grassland == count_tiles(tiles@.take(i as int), |t: TileEcon| is_free_grassland(t)),
            c.free_rivers == count_tiles(tiles@.take(i as int), |t: TileEcon| is_free_rivers(t)),
        decreases tiles@.len() - i,
    {
        let t = &tiles[i];
        proof {
            lemma_count_take(tiles@, |t: TileEcon| is_farm(t), i as int);
            lemma_count_take(tiles@, |t: TileEcon| is_mine(t), i as int);
            lemma_count_take(tiles@, |t: TileEcon| is_village(t), i as int);
            lemma_count_take(tiles@, |t: TileEcon| is_outpost(t), i as int);
            lemma_count_take(tiles@, |t: TileEcon| is_nuclear(t), i as int);
            lemma_count_take(tiles@, |t: TileEcon| is_hydro(t), i as int);
            lemma_count_take(tiles@, |t: TileEcon| is_bridge(t), i as int);
            lemma_count_take(tiles@, |t: TileEcon| is_staffed_farms(t), i as int);
            lemma_count_take(tiles@, |t: TileEcon| is_forest_harvesters(t), i as int);
            lemma_count_take(tiles@, |t: TileEcon| is_free_mountains(t), i as int);
            lemma_count_take(tiles@, |t: TileEcon| is_free_grassland(t), i as int);
            lemma_count_take(tiles@, |t: TileEcon| is_free_rivers(t), i as int);
        }
        match t.building {
            Some(BuildingKind::Farm) => {
                c.farm = c.farm + 1;
                if t.workers > 0 {
                    c.staffed_farms = c.staffed_farms + 1;
                }
            },
            Some(BuildingKind::Mine) => c.mine = c.mine + 1,
            Some(BuildingKind::Village) => c.village = c.village + 1,
            Some(BuildingKind::Outpost) => c.outpost = c.outpost + 1,
            Some(BuildingKind::Nuclear) => c.nuclear = c.nuclear + 1,
            Some(BuildingKind::Hydro) => c.hydro = c.hydro + 1,
            Some(BuildingKind::Bridge) => c.bridge = c.bridge + 1,
            _ => {},
        }
        let no_building = t.building.is_none();
        if t.tile == TileKind::Forest && no_building && t.workers > 0 {
            c.forest_harvesters = c.forest_harvesters + 1;
        }
        if t.tile == TileKind::Mountain && no_building {
            c.free_mountains = c.free_mountains + 1;
        }
        if t.tile == TileKind::Grassland && no_building {
            c.free_grassland = c.free_grassland + 1;
        }
        if t.tile == TileKind::River && no_building && t.buildable {
            c.free_rivers = c.free_rivers + 1;
        }
        i = i + 1;
    }
    proof {
        assert(tiles@.take(tiles@.len() as int) =~= tiles@);
    }
    c
}

/// A count over fewer-or-equal qualifying tiles is no larger.
proof fn lemma_count_implies(tiles: Seq<TileEcon>, a: spec_fn(TileEcon) -> bool, b: spec_fn(TileEcon) -> bool)
    requires
        forall|t: TileEcon| #[trigger] a(t) ==> b(t),
    ensures
        count_tiles(tiles, a) <= count_tiles(tiles, b),
    decreases tiles.len(),
{
    if tiles.len() > 0 {
        lemma_count_implies(tiles.drop_last(), a, b);
    }
}

/// Every tally is between 0 and the number of tiles; staffed Farms are Farms,
/// and forest harvesters, free Mountains, free grassland and free rivers are
/// tiles without a building.
pub proof fn lemma_building_counts_consistent(tiles: Seq<TileEcon>)
    ensures
        count_tiles(tiles, |t: TileEcon| is_staffed_farms(t)) <= count_tiles(tiles, |t: TileEcon| is_farm(t)),
        0 <= count_tiles(tiles, |t: TileEcon| is_farm(t)) <= tiles.len(),
        count_tiles(tiles, |t: TileEcon| is_forest_harvesters(t)) + count_tiles(tiles, |t: TileEcon| is_free_mountains(t))
            + count_tiles(tiles, |t: TileEcon| is_free_grassland(t)) + count_tiles(tiles, |t: TileEcon| is_free_rivers(t))
            + count_tiles(tiles, |t: TileEcon| t.building is Some) == tiles.len() - count_tiles(
            tiles,
            |t: TileEcon| t.building is None && !is_forest_harvesters(t) && !is_free_mountains(t)
                && !is_free_grassland(t) && !is_free_rivers(t),
        ),
    decreases tiles.len(),
{
    lemma_count_implies(tiles, |t: TileEcon| is_staffed_farms(t), |t: TileEcon| is_farm(t));
    lemma_sum_bounds(tiles, |t: TileEcon| if is_farm(t) { 1int } else { 0int }, 0, 1);
    if tiles.len() > 0 {
        lemma_building_counts_consistent(tiles.drop_last());
    }
}

/// The money drain is the wages plus a non-negative upkeep of at most 50 per
/// tile.
pub proof fn lemma_drain_bounds(tiles: Seq<TileEcon>)
    ensures
        0 <= spec_money_upkeep(tiles) <= 50 * tiles.len(),
{
    lemma_sum_bounds(tiles, |t: TileEcon| tile_money_upkeep(t), 0, 50);
}

// ---------------------------------------------------------------------------
// Opponents and threat
// ---------------------------------------------------------------------------

/// `OpponentSummary`.
#[derive(Debug, Default, Clone, Copy)]
pub struct OpponentSummary {
    pub alive: i64,
    pub max_tiles: i64,
    pub total_tiles: i64,
    pub total_soldiers: i64,
}

/// Sum of the first components.
pub open spec fn sum_first(s: Seq<(i64, i64)>) -> int
    decreases s.len(),
{
    if s.len() == 0 {
        0
    } else {
        sum_first(s.drop_last()) + s.last().0
    }
}

/// Sum of the second components.
pub open spec fn sum_second(s: Seq<(i64, i64)>) -> int
    decreases s.len(),
{
    if s.len() == 0 {
        0
    } else {
        sum_second(s.drop_last()) + s.last().1
    }
}

/// Largest first component, floored at 0.
pub open spec fn max_first(s: Seq<(i64, i64)>) -> int
    decreases s.len(),
{
    if s.len() == 0 {
        0
    } else {
        let m = max_first(s.drop_last());
        if s.last().0 > m {
            s.last().0 as int
        } else {
            m
        }
    }
}

/// Every running total of tiles and of soldiers fits an `i64`.
pub open spec fn opponent_sums_fit(s: Seq<(i64, i64)>) -> bool {
    forall|k: int|
        0 <= k <= s.len() ==> i64::MIN <= #[trigger] sum_first(s.take(k)) <= i64::MAX && i64::MIN
            <= sum_second(s.take(k)) <= i64::MAX
}

/// The summary of the live opponents, each given as `(tile count,
/// soldier count)`.
pub fn opponent_summary(opponents: &Vec<(i64, i64)>) -> (r: OpponentSummary)
    requires
        opponents@.len() <= i64::MAX,
        opponent_sums_fit(opponents@),
    ensures
        r.alive == opponents@.len(),
        r.max_tiles == max_first(opponents@),
        r.total_tiles == sum_first(opponents@),
        r.total_soldiers == sum_second(opponents@),
{
    let mut s = OpponentSummary { alive: 0, max_tiles: 0, total_tiles: 0, total_soldiers: 0 };
    let mut i: usize = 0;
    while i < opponents.len()
        invariant
            i <= opponents@.len(),
            opponents@.len() <= i64::MAX,
            opponent_sums_fit(opponents@),
            s.alive == i,
            s.max_tiles == max_first(opponents@.take(i as int)),
            s.total_tiles == sum_first(opponents@.take(i as int)),
            s.total_soldiers == sum_second(opponents@.take(i as int)),
        decreases opponents@.len() - i,
    {
        let (t, sol) = opponents[i];
        proof {
            assert(opponents@.take(i + 1).drop_last() =~= opponents@.take(i as int));
            assert(opponents@.take(i + 1).last() == opponents@[i as int]);
            assert(i64::MIN <= sum_first(opponents@.take(i + 1)) <= i64::MAX);
            assert(i64::MIN <= sum_second(opponents@.take(i + 1)) <= i64::MAX);
        }
        s.alive = s.alive + 1;
        s.total_tiles = s.total_tiles + t;
        if t > s.max_tiles {
            s.max_tiles = t;
        }
        s.total_soldiers = s.total_soldiers + sol;
        i = i + 1;
    }
    proof {
        assert(opponents@.take(opponents@.len() as int) =~= opponents@);
    }
    s
}

/// Sum of the threat contributions.
pub open spec fn sum_threat(s: Seq<(u32, u32)>) -> int
    decreases s.len(),
{
    if s.len() == 0 {
        0
    } else {
        sum_threat(s.drop_last()) + s.last().0 + s.last().1
    }
}

proof fn lemma_threat_bounds(s: Seq<(u32, u32)>)
    ensures
        0 <= sum_threat(s) <= s.len() * 2 * (u32::MAX as int),
    decreases s.len(),
{
    if s.len() > 0 {
        lemma_threat_bounds(s.drop_last());
    }
}

/// Enemy threat: for each owned tile `(enemy soldiers invading it, soldiers
/// standing on enemy-owned neighbour tiles)`, summed over the owned tiles.
pub fn enemy_threat(per_tile: &Vec<(u32, u32)>) -> (r: i128)
    ensures
        r == sum_threat(per_tile@),
        r >= 0,
{
    let mut sum: i128 = 0;
    let mut i: usize = 0;
    while i < per_tile.len()
        invariant
            i <= per_tile@.len(),
            sum == sum_threat(per_tile@.take(i as int)),
        decreases per_tile@.len() - i,
    {
        proof {
            assert(per_tile@.take(i + 1).drop_last() =~= per_tile@.take(i as int));
            lemma_threat_bounds(per_tile@.take(i + 1));
            assert((i + 1) * 2 * (u32::MAX as int) <= (usize::MAX as int) * 2 * (u32::MAX as int))
                by (nonlinear_arith)
                requires
                    i + 1 <= usize::MAX,
            ;
        }
        let (a, b) = per_tile[i];
        sum = sum + (a as i128) + (b as i128);
        i = i + 1;
    }
    proof {
        assert(per_tile@.take(per_tile@.len() as int) =~= per_tile@);
        lemma_threat_bounds(per_tile@);
    }
    sum
}

/// An available (reachable) tile is owned by a player other than `p`.
pub open spec fn enemy_in_reach(available_owners: Seq<Option<usize>>, p: usize) -> bool {
    exists|i: int| 0 <= i < available_owners.len() && (#[trigger] available_owners[i] matches Some(o) && o != p)
}

/// An enemy is within reach: some enemy soldier threatens us (`threat > 0`), or an
/// enemy-owned tile is among our available tiles (`available_owners` lists the
/// owners of the available tiles).
pub fn has_reachable_enemy(threat: i128, available_owners: &Vec<Option<usize>>, p: usize) -> (r: bool)
    ensures
        r == (threat > 0 || enemy_in_reach(available_owners@, p)),
{
    if threat > 0 {
        return true;
    }
    let mut i: usize = 0;
    while i < available_owners.len()
        invariant
            i <= available_owners@.len(),
            forall|k: int| 0 <= k < i ==> !(#[trigger] available_owners@[k] matches Some(o) && o != p),
        decreases available_owners@.len() - i,
    {
        match available_owners[i] {
            Some(o) => {
                if o != p {
                    return true;
                }
            },
            None => {},
        }
        i = i + 1;
    }
    false
}


/// Sum of a sequence of money entries.
pub open spec fn sum_entries(s: Seq<i64>) -> int
    decreases s.len(),
{
    if s.len() == 0 {
        0
    } else {
        sum_entries(s.drop_last()) + s.last()
    }
}

/// Total wealth: the four stocks plus what the owned buildings and units
/// cost: `costs` lists the money entry of each one's cost, stored negative,
/// so each adds its negation. (A `Vec<i64>` holds fewer than 2^60 entries.)
pub fn total_wealth(money: i64, wood: i64, stone: i64, metal: i64, costs: &Vec<i64>) -> (r: i128)
    requires
        costs@.len() <= 0x1000_0000_0000_0000,
    ensures
        r == money + wood + stone + metal - sum_entries(costs@),
{
    let mut w: i128 = (money as i128) + (wood as i128) + (stone as i128) + (metal as i128);
    let mut i: usize = 0;
    while i < costs.len()
        invariant
            i <= costs@.len(),
            costs@.len() <= 0x1000_0000_0000_0000,
            w == money + wood + stone + metal - sum_entries(costs@.take(i as int)),
            -(4 + i) * 0x8000_0000_0000_0000 <= w <= (4 + i) * 0x8000_0000_0000_0000,
        decreases costs@.len() - i,
    {
        proof {
            assert(costs@.take(i + 1).drop_last() == costs@.take(i as int));
        }
        w = w - (costs[i] as i128);
        i = i + 1;
    }
    proof {
        assert(costs@.take(costs@.len() as int) == costs@);
    }
    w
}

} // verus!
