use cp_ai::hard_ai::HardAi;
use cp_ai::metrics::{
    building_counts, enemy_threat, metal_income_per_round, money_drain_per_round, net_money_per_round_q,
    opponent_summary, salary_per_round, stone_income_per_round, total_wealth, wood_income_per_round, wood_upkeep,
    BuildingKind,
    TileEcon, TileKind,
};
use cp_ai::run::{game_continues, is_staffed_producer, min_buffer, resolve_outcome, GameReason};
use cp_ai::safety::{affords, affords_income_build, can_afford_upkeep, has_wood_buffer};
use cp_ai::selfplay::{board_signature, device_on_board, FNV_OFFSET, FNV_PRIME};

fn tile(tile: TileKind, building: Option<BuildingKind>, workers: u32, expert: bool) -> TileEcon {
    TileEcon { tile, building, workers, expert, buildable: false }
}

#[test]
fn staff_income_fully_staffs_mine_and_nuclear() {
    // A Mine with two BasicWorkers and an Expert yields 20 * 2 * 2 = 80 metal.
    let mine = tile(TileKind::Mountain, Some(BuildingKind::Mine), 2, true);
    assert_eq!(metal_income_per_round(&vec![mine]), 80, "fully-staffed mine must yield 80 metal/round, not 20");
    let one = tile(TileKind::Mountain, Some(BuildingKind::Mine), 1, false);
    assert_eq!(metal_income_per_round(&vec![one]), 20);
    // Nuclear produces only with a worker AND an Expert.
    let nuc_expert_only = tile(TileKind::Grassland, Some(BuildingKind::Nuclear), 0, true);
    let nuc = tile(TileKind::Grassland, Some(BuildingKind::Nuclear), 1, true);
    assert_eq!(net_money_per_round_q(&vec![nuc_expert_only], 0), 0);
    assert_eq!(net_money_per_round_q(&vec![nuc], 0), 640);
}

#[test]
fn income_and_upkeep_in_quarter_units() {
    let farm = tile(TileKind::Grassland, Some(BuildingKind::Farm), 1, false);
    let village = tile(TileKind::Grassland, Some(BuildingKind::Village), 0, false);
    let outpost = tile(TileKind::Grassland, Some(BuildingKind::Outpost), 0, false);
    let bridge = tile(TileKind::River, Some(BuildingKind::Bridge), 0, false);
    let forest = tile(TileKind::Forest, None, 2, false);
    let abundant = tile(TileKind::AbundantForest, None, 1, false);
    let tiles = vec![farm, village, outpost, bridge, forest, abundant];
    // salary of 3 workers, 1 expert, 2 soldiers: 5*3 + 20 + 30*2? (see metrics)
    let salary = salary_per_round(3, 1, 2);
    // farm 43.75 + abundant 15 - village 10 - outpost 50 - salary
    assert_eq!(net_money_per_round_q(&tiles, salary), 175 + 60 - 40 - 200 - 4 * salary as i128);
    assert_eq!(money_drain_per_round(&tiles, salary), 60 + salary as i128);
    assert_eq!(wood_upkeep(&tiles), 15);
    assert_eq!(wood_income_per_round(&tiles), 200);
    assert_eq!(stone_income_per_round(&vec![tile(TileKind::Mountain, Some(BuildingKind::Mine), 2, true)]), 120);
}

#[test]
fn building_counts_tally() {
    let tiles = vec![
        tile(TileKind::Grassland, Some(BuildingKind::Farm), 1, false),
        tile(TileKind::Grassland, Some(BuildingKind::Farm), 0, false),
        tile(TileKind::Mountain, None, 0, false),
        tile(TileKind::Forest, None, 1, false),
        tile(TileKind::River, Some(BuildingKind::Bridge), 0, false),
    ];
    let c = building_counts(&tiles);
    assert_eq!(c.farm, 2);
    assert_eq!(c.staffed_farms, 1);
    assert_eq!(c.free_mountains, 1);
    assert_eq!(c.forest_harvesters, 1);
    assert_eq!(c.bridge, 1);
    assert_eq!(c.mine, 0);
}

#[test]
fn opponents_and_threat() {
    let s = opponent_summary(&vec![(10, 2), (4, 0), (7, 5)]);
    assert_eq!(s.alive, 3);
    assert_eq!(s.max_tiles, 10);
    assert_eq!(s.total_tiles, 21);
    assert_eq!(s.total_soldiers, 7);
    assert_eq!(enemy_threat(&vec![(1, 2), (0, 3)]), 6);
}

#[test]
fn affordability_guards() {
    // 500 - 200 = 300 ≥ 140 + 5 * 30 = 290
    assert!(affords(true, 500, -200, 30, 140));
    assert!(!affords(true, 500, -200, 33, 140));
    assert!(!affords(false, 5000, -200, 0, 0));
    assert!(affords_income_build(true, 100, -60, 40));
    assert!(!affords_income_build(true, 100, -61, 40));
    // net 30 (120 quarters) covers a salary of 30 exactly
    assert!(can_afford_upkeep(120, 30));
    assert!(!can_afford_upkeep(119, 30));
    // spending 100 wood with an upkeep of 25: 5 * 25 = 125 must remain
    assert!(has_wood_buffer(-100, 225, 25));
    assert!(!has_wood_buffer(-100, 224, 25));
    // no upkeep: only a non-negative remainder
    assert!(has_wood_buffer(-100, 100, 0));
    assert!(has_wood_buffer(0, 0, 99));
}

#[test]
fn outcome_rules() {
    // 70 of 100 tiles: domination; 69: last standing
    assert_eq!(resolve_outcome(Some((2, 70)), false, 100, &vec![2]), (Some(2), GameReason::Domination));
    assert_eq!(resolve_outcome(Some((2, 69)), false, 100, &vec![2]), (Some(2), GameReason::LastStanding));
    assert_eq!(resolve_outcome(None, true, 100, &vec![1, 2]), (None, GameReason::Tie));
    assert_eq!(resolve_outcome(None, false, 100, &vec![3]), (Some(3), GameReason::LastStanding));
    assert_eq!(resolve_outcome(None, false, 100, &vec![1, 3]), (None, GameReason::Timeout));
    assert!(game_continues(2, 10, 11));
    assert!(!game_continues(2, 11, 11));
    assert!(!game_continues(1, 0, 11));
    assert_eq!(min_buffer(5, -3, 8, 2), -3);
}

#[test]
fn staffed_producers() {
    assert!(is_staffed_producer(1, Some(BuildingKind::Farm), TileKind::Grassland));
    assert!(!is_staffed_producer(0, Some(BuildingKind::Farm), TileKind::Grassland));
    assert!(is_staffed_producer(1, None, TileKind::Forest));
    assert!(!is_staffed_producer(1, Some(BuildingKind::Village), TileKind::Grassland));
}

#[test]
fn board_signature_is_fnv_over_cells_and_soldiers() {
    let cells = vec![(Some(0usize), Some(1u64)), (None, None)];
    let soldiers = vec![2i64, 0];
    let mut h = FNV_OFFSET;
    for (i, (o, k)) in cells.iter().enumerate() {
        let ov = o.map(|p| p as u64 + 1).unwrap_or(0);
        let kv = k.map(|k| k + 1).unwrap_or(0);
        h = (h ^ (((i as u64) << 16) | (ov << 8) | kv)).wrapping_mul(FNV_PRIME);
    }
    for &s in &soldiers {
        h = (h ^ (s as u64)).wrapping_mul(FNV_PRIME);
    }
    assert_eq!(board_signature(&cells, &soldiers), h);
    assert_ne!(board_signature(&cells, &vec![1, 0]), h);
    assert!(device_on_board(&vec![None, Some(BuildingKind::StrangeDevice)]));
    assert!(!device_on_board(&vec![None, Some(BuildingKind::Farm)]));
}

#[test]
fn plan_turn_panic_mode_and_restore() {
    let mut bot = HardAi::hard();
    let saved = bot.plan_turn_begin(true);
    assert_eq!(bot.params().reserve, 40);
    assert_eq!(bot.params().assaults_per_turn, 12);
    assert_eq!(bot.budget(), 28 + 12);
    bot.plan_turn_end(saved);
    assert_eq!(bot.params(), cp_ai::hard_ai::hard_params());
    // do_action spends only on success and refuses an empty budget
    let mut b = HardAi::hard();
    b.plan_turn_begin(false);
    assert!(b.do_action(true));
    assert_eq!(b.budget(), 27);
    assert!(!b.do_action(false));
    assert_eq!(b.budget(), 27);
}

#[test]
fn total_wealth_adds_stocks_and_spending() {
    // Stocks 100 + 50 + 20 + 10, plus an HQ bought for nothing, a Farm for 200
    // and a worker for 50 (money entries stored negative).
    assert_eq!(total_wealth(100, 50, 20, 10, &vec![0, -200, -50]), 430);
    assert_eq!(total_wealth(0, 0, 0, 0, &vec![]), 0);
    // A negative stock counts as it stands.
    assert_eq!(total_wealth(-30, 0, 0, 0, &vec![-10]), -20);
}

#[test]
fn turn_counts_at_most_max_actions_successes() {
    // EASY allows five successful actions a turn: of nine attempts, of which
    // two fail, exactly the first five successes count, and the rest are refused.
    let mut bot = HardAi::new(cp_ai::hard_ai::easy_params());
    bot.plan_turn_begin(false);
    let outcomes = [true, false, true, true, false, true, true, true, true];
    let counted: Vec<bool> = outcomes.iter().map(|&ok| bot.do_action(ok)).collect();
    assert_eq!(counted, vec![true, false, true, true, false, true, true, false, false]);
    assert_eq!(counted.iter().filter(|&&c| c).count(), 5);
    assert_eq!(bot.budget(), 0);
    // Panic mode adds twelve: seventeen successes count, the eighteenth does not.
    let mut b = HardAi::new(cp_ai::hard_ai::easy_params());
    b.plan_turn_begin(true);
    let n = (0..20).filter(|_| b.do_action(true)).count();
    assert_eq!(n, 17);
    // Fewer successes than the budget: every success counts.
    let mut c = HardAi::hard();
    c.plan_turn_begin(false);
    let n = [true, false, true].iter().filter(|&&ok| c.do_action(ok)).count();
    assert_eq!(n, 2);
    assert_eq!(c.budget(), 26);
}
