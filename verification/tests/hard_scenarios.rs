// Board fixtures of the heuristic CPU, read into the views its decisions
// take: each test builds the same position as a list of owned tiles and
// asks the decision the engine phase would ask.

use cp_ai::hard_ai::{DeviceStep, DeviceView, HardAi, OutpostView};
use cp_ai::metrics::{
    metal_income_per_round, money_drain_per_round, net_money_per_round_q, salary_per_round, BuildingKind, TileEcon,
    TileKind,
};
use cp_ai::placement::{expand_target, first_max, unblock_count, NeutralTile};
use cp_ai::safety::{affords, has_wood_buffer};
use cp_ai::staffing::{garrison_step, rear_soldier, GarrisonStep, SoldierTile};

fn econ(tile: TileKind, building: Option<BuildingKind>, workers: u32) -> TileEcon {
    TileEcon { tile, building, workers, expert: false, buildable: true }
}

/// A 12x12 board: tile `(x, y)` has index `x * 12 + y`.
const N: i32 = 12;

fn id(x: i32, y: i32) -> usize {
    (x * N + y) as usize
}

fn nbs4(t: usize) -> Vec<usize> {
    let (x, y) = (t as i32 / N, t as i32 % N);
    [(x - 1, y), (x + 1, y), (x, y - 1), (x, y + 1)]
        .iter()
        .filter(|&&(a, b)| a >= 0 && b >= 0 && a < N && b < N)
        .map(|&(a, b)| id(a, b))
        .collect()
}

/// The engine's reach of a player owning `owned`: the owned tiles and their
/// 4-neighbours, except the neighbours of an owned river without a building
/// and the player's own Headquarters.
fn reach(owned: &[usize], rivers: &[usize], hq: usize) -> Vec<bool> {
    let mut r = vec![false; (N * N) as usize];
    for &t in owned {
        r[t] = true;
        if !rivers.contains(&t) {
            for n in nbs4(t) {
                r[n] = true;
            }
        }
    }
    r[hq] = false;
    r
}

fn owners(owned: &[usize]) -> Vec<Option<usize>> {
    (0..(N * N) as usize).map(|t| if owned.contains(&t) { Some(0) } else { None }).collect()
}

/// The engine's headquarters gate admits every tile but the player's own Headquarters.
fn hq_gate(hq: usize) -> Vec<bool> {
    (0..(N * N) as usize).map(|t| t != hq).collect()
}

#[test]
fn hard_does_not_self_bankrupt_on_device() {
    // HQ, three grassland with two workers each, an Outpost; one soldier.
    let tiles = vec![
        econ(TileKind::Grassland, Some(BuildingKind::Headquarters), 0),
        econ(TileKind::Grassland, None, 2),
        econ(TileKind::Grassland, None, 2),
        econ(TileKind::Grassland, None, 2),
        econ(TileKind::Grassland, Some(BuildingKind::Outpost), 0),
    ];
    let salary = salary_per_round(6, 0, 1);
    let drain = money_drain_per_round(&tiles, salary);
    assert_eq!(drain, 110);
    // 1350 money against a Device costing 1300: 50 left, far below five rounds of drain.
    let v = DeviceView {
        has_strange_device: false,
        rounds_played: 20,
        not_losing: true,
        has_enough_device: true,
        net_q: net_money_per_round_q(&tiles, salary),
        money: 1350,
        device_cost_money: -1300,
        drain: drain as i64,
        countdown: 30,
        outposts: 1,
        outpost_spot: true,
        has_enough_outpost: true,
        outpost_cost_money: -500,
        device_spot: true,
    };
    let mut bot = HardAi::hard();
    bot.plan_turn_begin(false);
    assert_eq!(bot.device_step(v), DeviceStep::Wait, "HARD must not build a Strange Device it cannot carry");
}

/// The bridge decision on the fixture: HQ (5,5), owned grassland (5,6), the
/// owned river (5,7) without a building, unowned land across it.
fn bridge_fixture(owned: &[usize], hq: usize, river: usize) -> i64 {
    let gains = vec![unblock_count(0, &nbs4(river), &owners(owned), &reach(owned, &[river], hq), &hq_gate(hq))];
    let best = first_max(&gains, &vec![true]).expect("one river");
    gains[best]
}

#[test]
fn hard_builds_bridge_when_river_blocks_expansion() {
    let (hq, near, river) = (id(5, 5), id(5, 6), id(5, 7));
    let owned = [hq, near, river];
    // The river blocks (4,7), (6,7) and the grassland across at (5,8).
    assert!(!reach(&owned, &[river], hq)[id(5, 8)]);
    let gain = bridge_fixture(&owned, hq, river);
    assert_eq!(gain, 3);
    let bot = HardAi::hard();
    // Treasury 800/800/400/100; Bridge 100/300/150/0, Hydro 280/150/120/60; no drain.
    let bridge_ok = affords(true, 800, -100, 0, bot.bridge_reserve()) && has_wood_buffer(-300, 800, 0);
    let hydro_ok = affords(true, 800, -280, 0, bot.bridge_reserve()) && has_wood_buffer(-150, 800, 0);
    let tiles = vec![
        econ(TileKind::Grassland, Some(BuildingKind::Headquarters), 0),
        econ(TileKind::Grassland, None, 0),
        econ(TileKind::River, None, 0),
    ];
    let plan = bot
        .bridge_plan(gain, 0, true, false, net_money_per_round_q(&tiles, 0), hydro_ok, bridge_ok)
        .expect("a blocking river is worth bridging");
    assert!(plan.bridge || plan.hydro_first, "HARD must build a Bridge (or Hydro) on the blocking river");
}

#[test]
fn hard_prefers_hydro_over_bridge_when_experts_available() {
    let (hq, plain, farm, river) = (id(5, 5), id(5, 6), id(6, 5), id(5, 7));
    let owned = [hq, plain, farm, river];
    let gain = bridge_fixture(&owned, hq, river);
    assert!(gain > 0);
    // A staffed Farm and an idle worker on the plain; unit cap 6.
    let tiles = vec![
        econ(TileKind::Grassland, Some(BuildingKind::Headquarters), 0),
        econ(TileKind::Grassland, None, 1),
        econ(TileKind::Grassland, Some(BuildingKind::Farm), 1),
        econ(TileKind::River, None, 0),
    ];
    let salary = salary_per_round(2, 0, 0);
    let net_q = net_money_per_round_q(&tiles, salary);
    assert!(net_q >= 0);
    let drain = money_drain_per_round(&tiles, salary);
    let bot = HardAi::hard();
    let can_staff = HardAi::can_staff_new_plant(6 - 2, true);
    // Treasury 2500/1500/800/500.
    let hydro_ok = affords(true, 2500, -280, drain, bot.bridge_reserve()) && has_wood_buffer(-150, 1500, 0);
    let bridge_ok = affords(true, 2500, -100, drain, bot.bridge_reserve()) && has_wood_buffer(-300, 1500, 0);
    let plan = bot.bridge_plan(gain, 31, true, can_staff, net_q, hydro_ok, bridge_ok).expect("worth bridging");
    assert!(plan.hydro_first, "experts on, round > 30, Hydro affordable and staffable: Hydro first");
}

#[test]
fn hard_expand_claims_neutral_farm_over_bare_grassland() {
    // Reachable from HQ (3,3) and the owned plain (3,4): the bare grassland
    // (2,3), the plain itself, and the neutral Farm at (4,3), in board order.
    let bare = NeutralTile {
        unowned: true,
        has_space: true,
        threatened: false,
        own_conquering: false,
        claim: HardAi::claim_value(None, TileKind::Grassland, false),
    };
    let plain = NeutralTile { unowned: false, claim: HardAi::claim_value(None, TileKind::Grassland, false), ..bare };
    let farmed = NeutralTile { claim: HardAi::claim_value(Some(BuildingKind::Farm), TileKind::Grassland, false), ..bare };
    let avail = [id(2, 3), id(3, 4), id(4, 3)];
    let pick = expand_target(&vec![bare, plain, farmed]).expect("a claimable tile");
    assert_eq!(avail[pick], id(4, 3), "HARD expand must prefer the neutral-Farm tile over the bare grassland");
}

#[test]
fn hard_defers_outpost_when_drain_would_exceed_income() {
    // Ten grassland (HQ first, six with a worker, an Outpost), a worked Mine; one soldier.
    let mut tiles = vec![econ(TileKind::Grassland, Some(BuildingKind::Headquarters), 1)];
    for _ in 0..5 {
        tiles.push(econ(TileKind::Grassland, None, 1));
    }
    tiles.push(econ(TileKind::Grassland, None, 0));
    tiles.push(econ(TileKind::Grassland, Some(BuildingKind::Outpost), 0));
    tiles.push(econ(TileKind::Grassland, None, 0));
    tiles.push(econ(TileKind::Grassland, None, 0));
    tiles.push(econ(TileKind::Mountain, Some(BuildingKind::Mine), 1));
    let salary = salary_per_round(7, 0, 1);
    let drain = money_drain_per_round(&tiles, salary) as i64;
    let mut bot = HardAi::hard();
    bot.plan_turn_begin(false);
    let v = OutpostView {
        proactive: bot.proactive_outposts(false, 0),
        militarise: bot.should_militarise(false, true, false),
        military_need: HardAi::military_need(0, 0, false),
        outposts: 1,
        owned_tiles: 11,
        net_q: net_money_per_round_q(&tiles, salary),
        metal_income: metal_income_per_round(&tiles),
        has_spot: true,
        has_enough: true,
        money: 550,
        cost_money: -500,
        drain,
    };
    assert!(!bot.outpost_build_due(v), "HARD must not build a 2nd Outpost it cannot carry");
    // The self-bankruptcy gate alone refuses it: 50 left against four rounds of the raised drain.
    assert!(!HardAi::affordable_after_commit(550, 500, drain, 50, 4));
}

#[test]
fn hard_defers_soldier_when_payroll_unsustainable() {
    // HQ with three soldiers, a staffed Farm, an Outpost, six parked workers.
    let tiles = vec![
        econ(TileKind::Grassland, Some(BuildingKind::Headquarters), 0),
        econ(TileKind::Grassland, Some(BuildingKind::Farm), 1),
        econ(TileKind::Grassland, Some(BuildingKind::Outpost), 0),
        econ(TileKind::Grassland, None, 2),
        econ(TileKind::Grassland, None, 2),
        econ(TileKind::Grassland, None, 2),
        econ(TileKind::Grassland, None, 0),
        econ(TileKind::Grassland, None, 0),
        econ(TileKind::Grassland, None, 0),
    ];
    let salary = salary_per_round(7, 0, 3);
    let drain = money_drain_per_round(&tiles, salary) as i64;
    let net_q = net_money_per_round_q(&tiles, salary);
    // The garrison target (2,3) is the seventh owned tile; every soldier stands on the HQ.
    let soldier_tiles: Vec<SoldierTile> = (0..tiles.len())
        .map(|i| SoldierTile { threat: 0, enemy_borders: 0, own_soldier: i == 0, any_soldier: i == 0 })
        .collect();
    let rear = rear_soldier(&soldier_tiles, 6);
    let mut bot = HardAi::hard();
    bot.plan_turn_begin(false);
    // Money 400, metal 1000, a soldier costs 200 money and 30 a round.
    let step = garrison_step(
        0,
        1,
        true,
        bot.budget(),
        rear.is_some(),
        6 - 3,
        1000,
        affords(true, 400, -200, drain as i128, bot.params().reserve),
        cp_ai::safety::can_afford_upkeep(net_q, 30),
        HardAi::affordable_after_commit(400, 200, drain, 30, 4),
    );
    assert_ne!(step, GarrisonStep::Buy, "HARD must not buy a soldier its payroll cannot carry");
}

#[test]
fn hard_still_builds_when_income_supports_it() {
    // Nine grassland (HQ first, two staffed Farms), a worked Mine; no Outpost yet.
    let mut tiles = vec![
        econ(TileKind::Grassland, Some(BuildingKind::Headquarters), 0),
        econ(TileKind::Grassland, Some(BuildingKind::Farm), 1),
        econ(TileKind::Grassland, Some(BuildingKind::Farm), 1),
    ];
    for _ in 0..6 {
        tiles.push(econ(TileKind::Grassland, None, 0));
    }
    tiles.push(econ(TileKind::Mountain, Some(BuildingKind::Mine), 1));
    let salary = salary_per_round(3, 0, 0);
    let drain = money_drain_per_round(&tiles, salary) as i64;
    let mut bot = HardAi::army_rush();
    bot.plan_turn_begin(false);
    // The enemy HQ at (4,5) borders the owned (3,5) and holds a soldier.
    let v = OutpostView {
        proactive: bot.proactive_outposts(false, 0),
        militarise: bot.should_militarise(false, true, true),
        military_need: HardAi::military_need(0, 1, false),
        outposts: 0,
        owned_tiles: 10,
        net_q: net_money_per_round_q(&tiles, salary),
        metal_income: metal_income_per_round(&tiles),
        has_spot: true,
        has_enough: true,
        money: 2000,
        cost_money: -500,
        drain,
    };
    assert!(bot.outpost_build_due(v), "a healthy economy must build its Outpost");
    assert!(HardAi::outpost_spot(&vec![false, false, true, false]).is_some());
}
