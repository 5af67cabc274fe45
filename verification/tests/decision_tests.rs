use cp_ai::assault::{buyable_soldiers, reinforce_choice, stage_need, AttackTarget, Reinforce};
use cp_ai::defence::{
    defend_order, device_ring_entry, device_ring_member, frontier_order, hq_top_up, ring_spread_due,
    threat_garrison_want, DefendEntry, FrontierTile,
};
use cp_ai::hard_ai::{hard_params, AiParams, HardAi};
use cp_ai::march::{best_march, nearest_dist, MarchDest, MarchSource};
use cp_ai::metrics::TileKind;
use cp_ai::order::{stable_order, OrderKey};
use cp_ai::placement::{expand_target, first_max, hq_site, unblock_count, NeutralTile, SiteTile};
use cp_ai::run::{survived_rounds, win_round, SeatTracker};

fn target(tile: usize, defenders: i64, is_device: bool, is_hq: bool, cut: (i64, i64)) -> AttackTarget {
    AttackTarget { tile, defenders, placed: 0, is_device, is_hq, is_outpost: false, cut_num: cut.0, cut_den: cut.1 }
}

#[test]
fn stable_order_keeps_ties_in_input_order() {
    let k = |rank: i64, num: i64, den: i64, tie: i64| OrderKey { rank, num, den, tie };
    // 1/2 and 2/4 are the same fraction: their order is the input order
    let keys = vec![k(0, 2, 4, 0), k(0, 1, 3, 0), k(0, 1, 2, 0), k(-1, 0, 1, 5)];
    let r = stable_order(&keys, &vec![true, true, true, true]);
    assert_eq!(r, vec![3, 0, 2, 1]);
    let r = stable_order(&keys, &vec![true, false, true, false]);
    assert_eq!(r, vec![0, 2]);
}

#[test]
fn shipped_attack_order_device_hq_defenders() {
    let ts = vec![
        target(0, 0, false, false, (0, 1)),
        target(1, 2, false, true, (0, 1)),
        target(2, 1, true, false, (0, 1)),
        target(3, 0, false, true, (0, 1)),
        AttackTarget { is_outpost: true, ..target(4, 0, true, false, (0, 1)) },
        target(5, 3, true, true, (0, 1)),
    ];
    let order = HardAi::hard().attack_order(&ts);
    assert_eq!(order, vec![2, 3, 1, 0]);
}

#[test]
fn cut_priority_attack_order() {
    let ts = vec![
        target(0, 0, false, false, (1, 3)),
        target(1, 2, false, true, (1, 1)),
        target(2, 1, false, false, (2, 3)),
        target(3, 0, true, false, (0, 1)),
        target(4, 0, false, false, (2, 3)),
    ];
    let order = HardAi::hard_cut().attack_order(&ts);
    // Device first, then cut value 1 > 2/3 = 2/3 (fewer defenders first) > 1/3
    assert_eq!(order, vec![3, 1, 4, 2, 0]);
}

#[test]
fn attack_gate_rules() {
    let hard = HardAi::hard();
    // HARD: reserve 140, assaults 7 — the phase runs; buying needs 390 money
    assert_eq!(hard.attack_gate(false, 389, 0), Some(false));
    assert_eq!(hard.attack_gate(false, 390, 0), Some(true));
    // the device strategist opens no front without an enemy Device
    let dr = HardAi::device_rush();
    assert_eq!(dr.attack_gate(false, 10_000, 0), None);
    // GARRISON (assaults 0): shut without cash, open with it
    let g = HardAi::garrison_fortress();
    assert_eq!(g.attack_gate(true, 0, 0), None);
    assert_eq!(g.attack_gate(true, 10_000, 0), Some(true));
    // STRONG_ARMY waits for 8 massed soldiers unless an enemy Device stands
    let sa = HardAi::strong_army();
    assert_eq!(sa.attack_gate(false, 10_000, 7), None);
    assert_eq!(sa.attack_gate(false, 10_000, 8), Some(true));
    assert_eq!(sa.attack_gate(true, 10_000, 0), Some(true));
    assert_eq!(HardAi::econ_expert().max_assaults(), 1);
    assert_eq!(HardAi::marcher().max_assaults(), 16);
    assert_eq!(HardAi::garrison_fortress().max_assaults(), 1);
}

#[test]
fn staging_arithmetic() {
    // three defenders need four; two placed, one movable, one buyable: feasible
    assert_eq!(stage_need(3, 2, 1, 1), Some(4));
    assert_eq!(stage_need(3, 2, 1, 0), None);
    assert_eq!(stage_need(0, 1, 0, 0), None);
    // min(free 3, metal 120/50 = 2, (1000 - 140)/200 = 4) = 2
    assert_eq!(buyable_soldiers(true, 3, 120, 50, 1000, 140), 2);
    assert_eq!(buyable_soldiers(true, 3, 120, 30, 1000, 140), 3);
    assert_eq!(buyable_soldiers(false, 3, 120, 50, 1000, 140), 0);
    assert_eq!(buyable_soldiers(true, 9, 1000, 50, 539, 140), 1);
}

#[test]
fn reinforce_prefers_moving() {
    assert_eq!(reinforce_choice(true, false, 0, 0, 50, false, false), Reinforce::MoveSoldier);
    assert_eq!(reinforce_choice(false, true, 1, 50, 50, true, true), Reinforce::BuySoldier);
    assert_eq!(reinforce_choice(false, true, 1, 49, 50, true, true), Reinforce::Stop);
    assert_eq!(reinforce_choice(false, true, 1, 30, 30, true, true), Reinforce::BuySoldier);
    assert_eq!(reinforce_choice(false, false, 1, 50, 50, true, true), Reinforce::Stop);
}

#[test]
fn garrison_wants() {
    assert_eq!(threat_garrison_want(0), 1);
    assert_eq!(threat_garrison_want(1), 2);
    assert_eq!(threat_garrison_want(5), 3);
    let hard = HardAi::hard(); // garrison 3
    assert_eq!(hard.hq_garrison_want(false, true, 0), 3);
    assert_eq!(hard.hq_garrison_want(false, false, 0), 1);
    assert_eq!(hard.hq_garrison_want(true, true, 0), 1);
    let expert = HardAi::econ_expert(); // garrison 1
    assert_eq!(expert.hq_garrison_want(false, true, 1), 2);
    assert_eq!(expert.hq_garrison_want(false, true, 7), 3);
}

#[test]
fn defend_and_frontier_orders() {
    let e = |want: i64, soldiers: i64, pressure: i64| DefendEntry { want, soldiers, pressure };
    let es = vec![e(3, 2, 0), e(3, 0, 1), e(2, 0, 1), e(3, 0, 101), e(1, 1, 5)];
    // shortfalls 1, 3, 2, 3, 0; ties by pressure (101 before 1)
    assert_eq!(defend_order(&es), vec![3, 1, 2, 0, 4]);
    let f = |is_outpost: bool, enemy_borders: i64| FrontierTile { is_outpost, enemy_borders };
    let fs = vec![f(false, 1), f(true, 5), f(false, 0), f(false, 3), f(false, 1)];
    assert_eq!(frontier_order(&fs), vec![3, 0, 4]);
}

#[test]
fn strike_force_formulas() {
    let hard = HardAi::hard(); // garrison 3, strike 7
    // not at war: no border guard
    assert_eq!(hard.strike_force(false, false, true, 10, 2, false, false, 0, 0, 0, 0), None);
    assert_eq!(hard.strike_force(true, true, true, 10, 2, false, false, 0, 0, 0, 0), None);
    // enemy Device: min(cap, farms + 3)
    assert_eq!(hard.strike_force(false, true, true, 10, 2, true, false, 0, 0, 0, 0), Some(5));
    // own Device: the whole cap
    assert_eq!(hard.strike_force(false, true, true, 10, 2, false, true, 0, 0, 0, 0), Some(10));
    // ordinary: min(cap, 3 + min(7, max(threat, defenders+1) + 1), farms + 1)
    assert_eq!(hard.strike_force(false, true, true, 10, 20, false, false, 0, 0, 1, 0), Some(5));
    assert_eq!(hard.strike_force(false, true, true, 10, 20, false, false, 0, 0, 2, 0), Some(6));
    assert_eq!(hard.strike_force(false, true, true, 10, 3, false, false, 0, 0, 2, 0), Some(4));
    // STRONG_ARMY: garrison until net ≥ 120 (480 quarters), then within the economy
    let sa = HardAi::strong_army(); // garrison 3, strike 12
    assert_eq!(sa.strike_force(false, true, true, 20, 5, false, false, 479, 2, 0, 0), Some(3));
    assert_eq!(sa.strike_force(false, true, true, 20, 5, false, false, 480, 2, 0, 0), Some(8));
    assert_eq!(hq_top_up(6, 4, 1), Some(3));
    assert_eq!(hq_top_up(6, 5, 0), Some(1));
    assert_eq!(hq_top_up(6, 6, 0), None);
}

#[test]
fn best_march_picks_largest_gain_first_found() {
    let src = |x: i32, y: i32, tile: usize, has_soldier: bool| MarchSource { x, y, tile, on_frontier: false, has_soldier };
    let dst = |x: i32, y: i32, tile: usize| MarchDest { x, y, tile };
    let srcs = vec![src(0, 0, 0, true), src(5, 5, 1, true), src(1, 0, 2, false)];
    let dsts = vec![dst(1, 0, 2), dst(2, 0, 3), dst(3, 0, 4)];
    let hqs = vec![(9, 0)];
    // from (0,0): gains 1, 2, 3; from (5,5): d 9 → 8 / 7 / 6: gains 1, 2, 3 as well
    assert_eq!(best_march(&srcs, &dsts, &hqs), Some((0, 2)));
    // no enemy HQ: nothing to march on
    assert_eq!(best_march(&srcs, &dsts, &vec![]), None);
    // a frontier soldier stays put
    let front = vec![MarchSource { on_frontier: true, ..src(0, 0, 0, true) }];
    assert_eq!(best_march(&front, &dsts, &hqs), None);
    assert_eq!(nearest_dist((0, 0), &vec![(9, 0), (2, 2)]), 4);
}

#[test]
fn hq_site_tiers_and_score() {
    let t = |kind: TileKind, owner: Option<usize>, has_building: bool, x: i32, y: i32| SiteTile {
        kind,
        owner,
        has_building,
        x,
        y,
    };
    // a 3x1 strip: mountain, grassland, grassland (owned by player 1)
    let tiles = vec![
        t(TileKind::Mountain, None, false, 0, 0),
        t(TileKind::Grassland, None, false, 1, 0),
        t(TileKind::Grassland, Some(1), false, 2, 0),
    ];
    let nbs = vec![vec![1], vec![0, 2], vec![1]];
    // only tile 1 is unowned grassland
    assert_eq!(hq_site(&tiles, &nbs), Some(1));
    // no grassland left: the mountain (tier 1)
    let tiles2 = vec![t(TileKind::Mountain, None, false, 0, 0), t(TileKind::River, None, false, 1, 0)];
    assert_eq!(hq_site(&tiles2, &vec![vec![1], vec![0]]), Some(0));
    // nothing unowned and empty
    let tiles3 = vec![t(TileKind::Grassland, Some(0), false, 0, 0), t(TileKind::Grassland, None, true, 1, 0)];
    assert_eq!(hq_site(&tiles3, &vec![vec![1], vec![0]]), None);
    // two grassland candidates: score 3*free + 3*mountain + ... decides
    let tiles4 = vec![
        t(TileKind::Grassland, None, false, 0, 0),
        t(TileKind::Mountain, None, false, 1, 0),
        t(TileKind::Grassland, None, false, 2, 0),
        t(TileKind::Forest, Some(1), false, 3, 0),
    ];
    let nbs4 = vec![vec![1], vec![0, 2], vec![1, 3], vec![2]];
    // tile 0: free 1, mountain 1 → 6 + min(8, 3) = 9; tile 2: free 1, mountain 1, forest 1 → 8 + 1 = 9
    assert_eq!(hq_site(&tiles4, &nbs4), Some(0));
}

#[test]
fn first_max_and_expand_target() {
    assert_eq!(first_max(&vec![3, 5, 5], &vec![true, true, true]), Some(1));
    assert_eq!(first_max(&vec![3, 5, 5], &vec![true, false, true]), Some(2));
    assert_eq!(first_max(&vec![3, 5], &vec![false, false]), None);
    let n = |claim: i64, threatened: bool| NeutralTile { unowned: true, has_space: true, threatened, own_conquering: false, claim };
    assert_eq!(expand_target(&vec![n(4, false), n(7, true), n(5, false), n(5, false)]), Some(2));
}

#[test]
fn bridge_unblocks_enemy_hq() {
    let owners = vec![Some(0), None, Some(1), Some(1)];
    let reachable = vec![true, false, false, true];
    let opp_hq = vec![false, false, true, true];
    // neighbour 2 holds an unreachable enemy HQ; neighbour 3's is already reachable
    assert_eq!(unblock_count(0, &vec![0, 1, 2, 3], &owners, &reachable, &opp_hq), 1);
    let hard = HardAi::hard();
    assert_eq!(hard.bridge_plan(0, 40, true, true, 0, true, true), None);
    let plan = hard.bridge_plan(1, 40, true, true, 0, true, true).unwrap();
    assert!(plan.hydro_first && plan.bridge);
    let plan = hard.bridge_plan(1, 30, true, true, 0, true, false).unwrap();
    assert!(!plan.hydro_first && !plan.bridge);
    assert_eq!(hard.bridge_reserve(), 80);
}

#[test]
fn seat_tracker_records_losses() {
    let mut t = SeatTracker::new(&vec![100, 100, 100], 0);
    // seat 1 goes bankrupt on round 0's turn; no round completes
    let done = t.observe(&vec![true, false, true], &vec![80, -5, 120], &vec![false, true, false], 0);
    assert!(!done);
    assert_eq!(t.seat(0).min_buffer, 80);
    assert_eq!(t.seat(1).lost_round, Some(0));
    assert!(t.seat(1).bankrupt && !t.seat(1).eliminated);
    assert_eq!(t.seat(1).min_buffer, 100);
    // round 1 completes; seat 2 is conquered
    let done = t.observe(&vec![true, false, false], &vec![90, -5, 0], &vec![false, true, false], 1);
    assert!(done);
    assert_eq!(t.seat(0).rounds_counted, 1);
    assert_eq!(t.seat(1).rounds_counted, 0);
    assert!(t.seat(2).eliminated && !t.seat(2).bankrupt);
    assert_eq!(t.seat(2).lost_round, Some(1));
    assert_eq!(survived_rounds(t.seat(2), 7), 1);
    assert_eq!(survived_rounds(t.seat(0), 7), 7);
    assert_eq!(win_round(1, Some(1), 7), Some(7));
    assert_eq!(win_round(2, Some(1), 7), None);
}

#[test]
fn params_struct_literal_matches_preset() {
    let p: AiParams = hard_params();
    assert_eq!(p.reserve, 140);
    assert_eq!(p.assaults_per_turn, 7);
}

#[test]
fn staging_stops_once_the_budget_is_spent() {
    let mut bot = HardAi::new(cp_ai::hard_ai::easy_params());
    // an empty budget: nothing is chosen, even with a free soldier at hand
    assert_eq!(bot.staging_step(true, true, 3, 500, true, true), Reinforce::Stop);
    bot.plan_turn_begin(false);
    assert_eq!(bot.staging_step(true, false, 0, 0, false, false), Reinforce::MoveSoldier);
    assert_eq!(bot.staging_step(false, true, 1, 50, true, true), Reinforce::BuySoldier);
    // the CPU's soldiers need 50 metal
    assert_eq!(bot.staging_step(false, true, 1, 49, true, true), Reinforce::Stop);
    assert_eq!(bot.staging_step(false, true, 0, 50, true, true), Reinforce::Stop);
    for _ in 0..5 {
        assert!(bot.do_action(true));
    }
    assert_eq!(bot.staging_step(true, true, 1, 50, true, true), Reinforce::Stop);
}

#[test]
fn device_ring_entries_outrank_ordinary_defence() {
    assert!(device_ring_member(true, true, false));
    assert!(!device_ring_member(false, true, false));
    assert!(!device_ring_member(true, false, false));
    assert!(!device_ring_member(true, true, true));
    let ring = device_ring_entry(1, 2);
    assert_eq!(ring, DefendEntry { want: 3, soldiers: 1, pressure: 102 });
    // same shortfall (2) as a threatened tile under pressure 5: the ring tile goes first
    let ordinary = DefendEntry { want: 3, soldiers: 1, pressure: 5 };
    assert_eq!(defend_order(&vec![ordinary, ring]), vec![1, 0]);
    assert!(ring_spread_due(true, 0));
    assert!(!ring_spread_due(true, 1));
    assert!(!ring_spread_due(false, 0));
}
