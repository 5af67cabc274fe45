use cp_ai::assault::{attack_candidate_plan, buyable_soldiers, candidate_can_buy, crack_stage, AttackTarget};
use cp_ai::candidates::{
    candidate_target_tile, enemy_tile_coords, expand_move, own_soldier_count, tile_position, Action, AfterExecute,
    ExpandMove, PolicyTurn, UnitAt, UnitKind, ATTACK_CANDIDATE_CAP, MARCH_CANDIDATE_CAP,
};
use cp_ai::intents::{
    bridge_spot, device_spot, expand_can_hire, expand_candidates, farm_spot, find_first, hire_soldier_tile,
    mine_spot, nuclear_spot, outpost_spot, stack_producer_choice, training_rules, village_spot, DeviceGate,
    ExpandTile, OutpostGate, OwnedSlot, ProducerSlot,
};
use cp_ai::march::{enemy_objective, march_candidate_plan, MarchDest, MarchSource};
use cp_ai::metrics::BuildingKind;

fn id(x: i32, y: i32) -> usize {
    (x * 12 + y) as usize
}

fn target(tile: usize, defenders: i64, is_hq: bool) -> AttackTarget {
    AttackTarget {
        tile,
        defenders,
        placed: 0,
        is_device: false,
        is_hq,
        is_outpost: false,
        cut_num: 0,
        cut_den: 1,
    }
}

#[test]
fn bridge_candidate_emits_on_owned_river_no_building() {
    // One owned river, no building, bridgeable; a generous treasury.
    let river = id(5, 5);
    let rivers = vec![true];
    let first = find_first(&rivers).map(|_| river);
    let rules = training_rules();
    let r = bridge_spot(&rules, first, true, true, 1500, -100);
    assert_eq!(r, Some(river), "Bridge candidate must emit");
}

#[test]
fn bridge_candidate_does_not_emit_when_river_has_building() {
    // The river already holds a Bridge: it is no candidate spot.
    let rivers = vec![false];
    let rules = training_rules();
    assert_eq!(
        bridge_spot(&rules, find_first(&rivers), true, true, 1500, -100),
        None,
        "Bridge candidate must not emit when the river already has a building"
    );
}

#[test]
fn crack_device_candidate_emits_when_enemy_device_present_and_reachable() {
    let dev = id(5, 5);
    let t = AttackTarget { is_device: true, ..target(dev, 0, false) };
    // One movable soldier on the staging tile; plenty of money.
    let buyable = buyable_soldiers(true, 2, 2000, 30, 2000, 120);
    let r = crack_stage(&t, 1, buyable).expect("CrackDevice candidate must emit");
    assert_eq!(r, (1, 0));
}

#[test]
fn crack_hq_candidate_emits_when_enemy_hq_present_and_reachable() {
    let hq = id(5, 6);
    let t = target(hq, 0, true);
    let r = crack_stage(&t, 1, 0).expect("CrackHQ candidate must emit");
    assert_eq!(r, (1, 0));
    // Three defenders fill the tile: no crack.
    assert_eq!(crack_stage(&target(hq, 3, true), 9, 9), None);
}

#[test]
fn march_soldier_emits_and_reduces_distance() {
    let me = 0usize;
    let obj = enemy_objective(me, None, &vec![(Some(0), false, (5, 9)), (Some(1), false, (5, 5))])
        .expect("enemy HQ objective");
    assert_eq!(obj, (5, 5));
    let srcs = vec![
        MarchSource { x: 5, y: 9, tile: id(5, 9), on_frontier: false, has_soldier: false },
        MarchSource { x: 5, y: 8, tile: id(5, 8), on_frontier: false, has_soldier: true },
        MarchSource { x: 5, y: 7, tile: id(5, 7), on_frontier: false, has_soldier: false },
    ];
    let dsts = vec![
        MarchDest { x: 5, y: 9, tile: id(5, 9) },
        MarchDest { x: 5, y: 8, tile: id(5, 8) },
        MarchDest { x: 5, y: 7, tile: id(5, 7) },
    ];
    let (choices, order) = march_candidate_plan(&srcs, &dsts, obj, MARCH_CANDIDATE_CAP);
    assert!(!order.is_empty(), "MarchSoldier candidate must emit");
    let from = order[0];
    assert_eq!(srcs[from].tile, id(5, 8));
    let (to, d_to) = choices[from].unwrap();
    let d0 = (srcs[from].x - obj.0).abs() + (srcs[from].y - obj.1).abs();
    assert!((d_to as i32) < d0, "March destination must strictly reduce distance");
    assert_eq!(dsts[to].tile, id(5, 7));
}

#[test]
fn march_soldier_no_candidate_without_objective() {
    let me = 0usize;
    // Only our own HQ stands: no objective, so no march is offered.
    assert!(enemy_objective(me, None, &vec![(Some(0), false, (5, 9))]).is_none());
}

#[test]
fn march_soldier_excludes_enemy_tiles() {
    // The enemy tile (5,6) is never a destination; the own tile (5,7) is chosen.
    let obj = (5, 5);
    let srcs = vec![MarchSource { x: 5, y: 8, tile: id(5, 8), on_frontier: false, has_soldier: true }];
    let dsts = vec![MarchDest { x: 5, y: 9, tile: id(5, 9) }, MarchDest { x: 5, y: 7, tile: id(5, 7) }];
    let (choices, order) = march_candidate_plan(&srcs, &dsts, obj, MARCH_CANDIDATE_CAP);
    assert!(!order.is_empty(), "MarchSoldier candidate must emit");
    let (to, _) = choices[order[0]].unwrap();
    assert_ne!(dsts[to].tile, id(5, 6), "must not march onto an enemy-owned tile");
    assert_eq!(dsts[to].tile, id(5, 7), "must pick the own/neutral closer tile");
}

#[test]
fn march_candidates_sorted_and_capped() {
    let obj = (0, 0);
    let srcs: Vec<MarchSource> = (1..7)
        .map(|k| MarchSource { x: k, y: 0, tile: (10 - k) as usize, on_frontier: false, has_soldier: true })
        .collect();
    let dsts: Vec<MarchDest> = (0..7).map(|k| MarchDest { x: k, y: 0, tile: k as usize }).collect();
    let (choices, order) = march_candidate_plan(&srcs, &dsts, obj, 4);
    assert_eq!(order.len(), 4);
    // every soldier can reach (0,0): nearest result 0 for all, ties by source tile ascending
    for &i in &order {
        assert_eq!(choices[i].unwrap().1, 0);
    }
    let tiles: Vec<usize> = order.iter().map(|&i| srcs[i].tile).collect();
    assert_eq!(tiles, vec![4, 5, 6, 7]);
}

#[test]
fn device_candidate_objective_first() {
    // An enemy Device beats any Headquarters as the objective.
    let obj = enemy_objective(0, Some((Some(1), (3, 4))), &vec![(Some(1), false, (9, 9))]);
    assert_eq!(obj, Some((3, 4)));
    // Our own Device is no objective; a conquered HQ is skipped.
    let obj = enemy_objective(0, Some((Some(0), (3, 4))), &vec![(Some(1), true, (9, 9)), (Some(2), false, (1, 1))]);
    assert_eq!(obj, Some((1, 1)));
}

#[test]
fn attack_candidates_hq_first_then_fewest_defenders_capped() {
    let ts = vec![
        target(30, 2, false),
        target(20, 0, false),
        target(10, 1, true),
        AttackTarget { is_outpost: true, ..target(5, 0, false) },
        target(40, 3, false),
        target(25, 0, false),
        target(15, 1, false),
    ];
    let (order, plan) = attack_candidate_plan(&ts, 5, 0, ATTACK_CANDIDATE_CAP);
    // eligible: not the Outpost, not the full tile
    let tiles: Vec<usize> = order.iter().map(|&i| ts[i].tile).collect();
    assert_eq!(tiles, vec![10, 20, 25, 15, 30]);
    assert_eq!(plan.len(), 4);
    assert_eq!(plan[0], (2, 2, 0));
    assert_eq!(plan[1], (1, 1, 0));
}

#[test]
fn attack_candidates_skip_infeasible_staging() {
    let ts = vec![target(1, 2, false), target(2, 0, false)];
    // one soldier available: only the undefended tile can be staged
    let (_, plan) = attack_candidate_plan(&ts, 1, 0, ATTACK_CANDIDATE_CAP);
    assert_eq!(plan, vec![(1, 1, 0)]);
}

#[test]
fn farm_prefers_staffed_spot() {
    assert_eq!(farm_spot(&vec![false, true, true], true, true), Some(1));
    assert_eq!(farm_spot(&vec![false, false], true, true), Some(0));
    assert_eq!(farm_spot(&vec![], true, true), None);
    assert_eq!(farm_spot(&vec![true], false, true), None);
}

#[test]
fn mine_needs_wood() {
    assert_eq!(mine_spot(299, &vec![true], true, true), None);
    assert_eq!(mine_spot(300, &vec![false, true], true, true), Some(1));
}

#[test]
fn village_gates() {
    // net 10 (40 quarters), wood 300 with no upkeep: 200 ≥ max(100, 50)
    assert_eq!(village_spot(Some(3), true, 40, 300, 0, true), Some(3));
    assert_eq!(village_spot(Some(3), true, 39, 300, 0, true), None);
    assert_eq!(village_spot(Some(3), true, 40, 199, 0, true), None);
    // upkeep 20: buffer (20+10)*5 = 150 → wood must reach 250
    assert_eq!(village_spot(Some(3), true, 40, 249, 20, true), None);
    assert_eq!(village_spot(Some(3), true, 40, 250, 20, true), Some(3));
    assert_eq!(village_spot(Some(3), false, 40, 300, 0, true), None);
}

#[test]
fn outpost_gates() {
    let rules = training_rules();
    let ok = OutpostGate {
        owned_tiles: 8,
        net_q: 200,
        metal_income: 10,
        outposts: 1,
        spot: Some(7),
        has_enough: true,
        money: 700,
        cost_money: -650,
    };
    assert_eq!(outpost_spot(&rules, &ok), Some(7));
    assert_eq!(outpost_spot(&rules, &OutpostGate { owned_tiles: 7, ..ok }), None);
    assert_eq!(outpost_spot(&rules, &OutpostGate { metal_income: 9, ..ok }), None);
    assert_eq!(outpost_spot(&rules, &OutpostGate { net_q: 199, ..ok }), None);
    assert_eq!(outpost_spot(&rules, &OutpostGate { money: 699, ..ok }), None);
}

#[test]
fn nuclear_and_device_gates() {
    let rules = training_rules();
    assert_eq!(nuclear_spot(&rules, 2601, 2, Some(4), true, true), Some(4));
    assert_eq!(nuclear_spot(&rules, 2600, 2, Some(4), true, true), None);
    assert_eq!(nuclear_spot(&rules, 2601, 1, Some(4), true, true), None);
    let v = DeviceGate {
        has_device: false,
        rounds_played: 18,
        not_losing: true,
        has_enough: true,
        net_q: 0,
        money: 1450,
        cost_money: -1300,
    };
    assert_eq!(device_spot(&rules, &v, &vec![2, 0, 1, 0]), Some(1));
    assert_eq!(device_spot(&rules, &DeviceGate { rounds_played: 17, ..v }, &vec![0]), None);
    assert_eq!(device_spot(&rules, &DeviceGate { money: 1449, ..v }, &vec![0]), None);
}

#[test]
fn expand_candidates_by_claim_then_tile() {
    let t = |tile: usize, claim: i64| ExpandTile { tile, unowned: true, has_space: true, threatened: false, claim };
    let tiles = vec![t(9, 4), t(3, 5), t(7, 4), ExpandTile { threatened: true, ..t(1, 7) }, t(2, 4)];
    let r = expand_candidates(&tiles, true, false, false, 6);
    let order: Vec<usize> = r.iter().map(|&i| tiles[i].tile).collect();
    assert_eq!(order, vec![3, 2, 7, 9]);
    assert!(expand_candidates(&tiles, false, false, false, 6).is_empty());
    assert!(expand_can_hire(1, true, 20));
    assert!(!expand_can_hire(1, true, 19));
}

#[test]
fn hire_soldier_prefers_threatened_then_hq() {
    let rules = training_rules();
    let s = |threatened: bool, has_space: bool| OwnedSlot { threatened, has_space };
    let slots = vec![s(false, true), s(true, true), s(true, true)];
    assert_eq!(hire_soldier_tile(&rules, 1, 30, true, true, &slots, Some(1)), Some(2));
    let calm = vec![s(false, true), s(false, true)];
    assert_eq!(hire_soldier_tile(&rules, 1, 30, true, true, &calm, Some(1)), Some(1));
    assert_eq!(hire_soldier_tile(&rules, 1, 30, true, true, &calm, None), Some(0));
    assert_eq!(hire_soldier_tile(&rules, 1, 29, true, true, &calm, None), None);
}

#[test]
fn stack_producer_expert_or_worker() {
    let rules = training_rules();
    let slots = vec![
        ProducerSlot { building: Some(BuildingKind::Farm), has_space: true, has_expert: false },
        ProducerSlot { building: Some(BuildingKind::Mine), has_space: true, has_expert: false },
    ];
    assert_eq!(stack_producer_choice(&rules, 2, &slots, true, true), Some((1, true)));
    assert_eq!(stack_producer_choice(&rules, 1, &slots, true, true), Some((1, false)));
    assert_eq!(stack_producer_choice(&rules, 2, &slots, false, true), None);
    assert_eq!(stack_producer_choice(&rules, 0, &slots, true, true), None);
}

#[test]
fn action_targets_and_expand_moves() {
    assert_eq!(candidate_target_tile(&Action::Build(BuildingKind::Farm, 7)), Some(7));
    assert_eq!(candidate_target_tile(&Action::BuyUnit(UnitKind::Soldier, 3)), Some(3));
    assert_eq!(candidate_target_tile(&Action::March { unit: 1, from: 2, to: 9 }), Some(9));
    assert_eq!(candidate_target_tile(&Action::Pass), None);
    let w = |unit: usize, from: usize| Some(UnitAt { unit, from });
    assert_eq!(expand_move(5, w(1, 2), true, w(3, 4)), ExpandMove::Move(1, 2));
    // an idle worker already on the tile: hire instead
    assert_eq!(expand_move(5, w(1, 5), true, w(3, 4)), ExpandMove::Hire);
    assert_eq!(expand_move(5, w(1, 5), false, w(3, 4)), ExpandMove::Move(3, 4));
    assert_eq!(expand_move(5, None, false, w(3, 5)), ExpandMove::Nothing);
}

#[test]
fn policy_turn_loop() {
    let mut t = PolicyTurn::new(2);
    assert!(t.wants_decision());
    assert_eq!(t.after_execute(true, 5), AfterExecute::Next);
    // a failure with more than one other candidate is retried
    assert_eq!(t.after_execute(false, 3), AfterExecute::Retry);
    assert!(t.after_retry(true));
    assert!(!t.wants_decision());
    let mut u = PolicyTurn::new(4);
    assert_eq!(u.after_execute(false, 2), AfterExecute::Stop);
    assert!(!u.after_retry(false));
    assert!(u.wants_decision());
}

/// A 12x12 board's tiles as `(owner, (x, y))`, index `x * 12 + y`.
fn board_12(owned: &[((i32, i32), usize)]) -> Vec<(Option<usize>, (i32, i32))> {
    (0..144)
        .map(|i| {
            let at = ((i / 12) as i32, (i % 12) as i32);
            (owned.iter().find(|(c, _)| *c == at).map(|(_, o)| *o), at)
        })
        .collect()
}

#[test]
fn tile_spatial_hand_computed() {
    // Target (5,5): enemy (player 1) on (4,4), (5,4), (6,4); own (player 0) on
    // (4,5), (6,5); (4,6), (5,6), (6,6) neutral; player 0's HQ at (5,8).
    let owned = [((4, 4), 1), ((5, 4), 1), ((6, 4), 1), ((4, 5), 0), ((6, 5), 0), ((5, 8), 0)];
    let tiles = board_12(&owned);
    let enemy_coords = enemy_tile_coords(&tiles, 0);
    assert_eq!(enemy_coords.len(), 3);
    let neighbours = [(4, 4), (5, 4), (6, 4), (4, 5), (6, 5), (4, 6), (5, 6), (6, 6)];
    let owners: Vec<Option<usize>> =
        neighbours.iter().map(|&(x, y)| tiles[(x * 12 + y) as usize].0).collect();
    let pos = tile_position(0, (5, 5), &owners, Some((5, 8)), &enemy_coords);
    assert!((pos.enemy_neighbors as f64 / 8.0 - 3.0 / 8.0).abs() < 1e-12);
    assert!((pos.own_neighbors as f64 / 8.0 - 2.0 / 8.0).abs() < 1e-12);
    assert!((pos.neutral_neighbors as f64 / 8.0 - 3.0 / 8.0).abs() < 1e-12);
    assert!((pos.dist_own_hq as f64 / 20.0 - 3.0 / 20.0).abs() < 1e-12);
    assert!((pos.dist_nearest_enemy as f64 / 20.0 - 1.0 / 20.0).abs() < 1e-12);
    // Attack frontier: two of player 0's soldiers and one of player 1's stand next to it.
    let own_soldier_neighbors = own_soldier_count(&vec![Some(0), Some(0), Some(1)], 0);
    assert_eq!(own_soldier_neighbors, 2);
    assert!(((own_soldier_neighbors as f64 / 3.0) - 2.0 / 3.0).abs() < 1e-12);
}

#[test]
fn tile_spatial_sentinels() {
    // No enemy tiles and no Headquarters: both distances are the 99 sentinel.
    let tiles = board_12(&[]);
    let enemy_coords = enemy_tile_coords(&tiles, 0);
    assert!(enemy_coords.is_empty());
    let pos = tile_position(0, (5, 5), &vec![None; 8], None, &enemy_coords);
    assert!((pos.dist_nearest_enemy as f64 / 20.0 - 99.0 / 20.0).abs() < 1e-12);
    assert!((pos.dist_own_hq as f64 / 20.0 - 99.0 / 20.0).abs() < 1e-12);
}

#[test]
fn assault_candidates_buy_above_reserve() {
    assert!(candidate_can_buy(370, 120));
    assert!(!candidate_can_buy(369, 120));
    assert!(candidate_can_buy(i64::MAX, i64::MAX - 250));
    assert!(!candidate_can_buy(i64::MIN, 0));
}
