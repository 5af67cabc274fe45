use cp_ai::hard_ai::HardAi;
use cp_ai::metrics::{BuildingKind, TileKind};
use cp_ai::planes::{enemy_mobile_budget, is_producer, is_producing_producer};
use cp_ai::selfplay::{StallWatch, STALL_ROUNDS};
use cp_ai::spatial::enemy_hq_push_counts;
use cp_ai::staffing::{
    ensure_worker_source, expendable_worker_hard, expendable_worker_policy, farm_step, free_soldier,
    garrison_step, idle_on_plain, idle_worker, plant_minimum, producer_upgrade, rear_soldier, secure_wood_target,
    spare_worker, staff_step, surplus_producer_worker, FarmStep, GarrisonStep, SoldierTile, StaffStep, StaffTile, WorkerSource,
};

fn st(kind: TileKind, building: Option<BuildingKind>, workers: u32) -> StaffTile {
    StaffTile { kind, building, workers, has_expert: false, has_space: true }
}

#[test]
fn worker_searches() {
    let tiles = vec![
        st(TileKind::Forest, None, 1),
        st(TileKind::Grassland, Some(BuildingKind::Farm), 1),
        st(TileKind::Mountain, Some(BuildingKind::Mine), 2),
        st(TileKind::Grassland, None, 1),
        st(TileKind::Grassland, Some(BuildingKind::Farm), 1),
    ];
    assert_eq!(idle_on_plain(&tiles), Some(3));
    assert_eq!(spare_worker(&tiles, 3), Some(0));
    assert_eq!(spare_worker(&tiles, 0), Some(3));
    assert_eq!(surplus_producer_worker(&tiles, 0), Some(2));
    assert_eq!(expendable_worker_hard(&tiles, 0), Some(3));
    let no_idle = vec![tiles[0], tiles[1], tiles[4]];
    // no idle or surplus worker: the last of two staffed Farms
    assert_eq!(expendable_worker_hard(&no_idle, 0), Some(2));
    assert_eq!(expendable_worker_policy(&no_idle), Some(2));
    // with 350 wood a forest harvester is surplus
    assert_eq!(expendable_worker_hard(&no_idle, 350), Some(0));
    assert_eq!(surplus_producer_worker(&vec![tiles[1]], 400), None);
    // idle for expansion: the forest worker only once wood is no longer needed
    assert_eq!(idle_worker(&no_idle, 349), None);
    assert_eq!(idle_worker(&no_idle, 350), Some(0));
    let with_mountain = vec![tiles[0], st(TileKind::Mountain, None, 0)];
    assert_eq!(idle_worker(&with_mountain, 1000), None);
}

#[test]
fn staffing_steps() {
    assert_eq!(staff_step(Some(BuildingKind::Farm), TileKind::Grassland, false), StaffStep::HireWorker);
    assert_eq!(staff_step(Some(BuildingKind::Farm), TileKind::Grassland, true), StaffStep::Nothing);
    assert_eq!(staff_step(Some(BuildingKind::Mine), TileKind::Mountain, true), StaffStep::EnsureWorker);
    assert_eq!(staff_step(Some(BuildingKind::Hydro), TileKind::River, false), StaffStep::StaffPlant);
    assert_eq!(staff_step(None, TileKind::AbundantForest, false), StaffStep::HireWorker);
    assert_eq!(staff_step(None, TileKind::Forest, false), StaffStep::Nothing);
    assert_eq!(ensure_worker_source(true, 0, None, 4), WorkerSource::NotNeeded);
    assert_eq!(ensure_worker_source(false, 1, Some(2), 4), WorkerSource::Hire);
    assert_eq!(ensure_worker_source(false, 0, Some(2), 4), WorkerSource::Relocate(2));
    assert_eq!(ensure_worker_source(false, 0, Some(4), 4), WorkerSource::Unavailable);
}

#[test]
fn plant_staffing_plan() {
    let hard = HardAi::hard();
    // staffed plant: nothing to do
    assert_eq!(hard.plant_worker_plan(true, 1, 5, None, 0), None);
    // missing worker and Expert: two slots needed
    assert_eq!(hard.plant_worker_plan(false, 0, 1, None, 0), None);
    assert_eq!(hard.plant_worker_plan(false, 0, 1, Some(3), 0), Some(WorkerSource::Hire));
    assert_eq!(hard.plant_worker_plan(false, 0, 2, None, 0), Some(WorkerSource::Hire));
    assert_eq!(hard.plant_worker_plan(true, 0, 0, Some(3), 0), Some(WorkerSource::Relocate(3)));
    assert_eq!(hard.plant_worker_plan(false, 1, 1, None, 0), Some(WorkerSource::NotNeeded));
    assert!(HardAi::plant_expert_due(false, 1, 1));
    assert!(!HardAi::plant_expert_due(false, 0, 1));
    // EASY staffs no Experts
    let easy = HardAi::new(cp_ai::hard_ai::easy_params());
    assert_eq!(easy.plant_worker_plan(false, 0, 5, None, 0), None);
    assert!(hard.boost_mine_due(Some(BuildingKind::Mine), true, false, 1));
    assert!(!hard.boost_mine_due(Some(BuildingKind::Mine), true, true, 1));
    assert!(HardAi::can_staff_new_plant(2, false));
    assert!(HardAi::can_staff_new_plant(1, true));
    assert!(!HardAi::can_staff_new_plant(1, false));
}

#[test]
fn nuclear_and_stack_rules() {
    let hard = HardAi::hard();
    // money 5400: 1 + 3000/3000 = 2 plants wanted
    assert!(hard.nuclear_build_due(5400, 1, true, 1, false, 0));
    assert!(!hard.nuclear_build_due(5400, 2, true, 1, false, 0));
    assert!(!hard.nuclear_build_due(2400, 0, true, 1, false, 0));
    assert!(!hard.nuclear_build_due(5400, 1, false, 1, false, 0));
    assert!(hard.nuclear_build_due(5400, 1, true, 0, true, 2));
    assert!(!hard.nuclear_build_due(5400, 1, true, 0, true, 1));
    assert!(hard.stack_wants_expert(Some(BuildingKind::Mine), false, 2));
    assert!(!hard.stack_wants_expert(Some(BuildingKind::Hydro), false, 2));
    assert!(!hard.stack_wants_expert(Some(BuildingKind::Mine), false, 1));
    assert!(HardAi::can_raise_cap(4, true, true));
    assert!(!HardAi::can_raise_cap(5, true, true));
}

#[test]
fn wood_and_farm_steps() {
    // anticipated 500: target 500; wood 600 is enough
    assert_eq!(secure_wood_target(600, 500, 8), None);
    assert_eq!(secure_wood_target(599, 500, 8), Some(1));
    assert_eq!(secure_wood_target(499, 500, 8), Some(2));
    assert_eq!(secure_wood_target(499, 500, 6), Some(1));
    // a small need still keeps 150 in stock
    assert_eq!(secure_wood_target(249, 0, 8), Some(1));
    assert_eq!(secure_wood_target(250, 0, 8), None);
    assert_eq!(farm_step(true, 3, 3, 5, 500, true, true, 1), FarmStep::Stop);
    assert_eq!(farm_step(true, 2, 3, 0, 100, true, true, 1), FarmStep::Build);
    assert_eq!(farm_step(false, 2, 3, 1, 100, true, true, 1), FarmStep::Stop);
    assert_eq!(farm_step(false, 2, 3, 1, 200, true, true, 1), FarmStep::Build);
    assert_eq!(farm_step(false, 2, 3, 1, 200, false, true, 1), FarmStep::Skip);
}

#[test]
fn garrison_and_soldier_searches() {
    assert_eq!(garrison_step(3, 3, true, 5, true, 1, 50, true, true, true), GarrisonStep::Done);
    assert_eq!(garrison_step(1, 3, true, 5, true, 1, 50, true, true, true), GarrisonStep::MoveRear);
    assert_eq!(garrison_step(1, 3, true, 5, false, 1, 50, true, true, true), GarrisonStep::Buy);
    assert_eq!(garrison_step(1, 3, true, 5, false, 1, 50, true, true, false), GarrisonStep::Done);
    assert_eq!(garrison_step(1, 3, false, 5, true, 1, 50, true, true, true), GarrisonStep::Done);
    let s = |threat: i64, enemy_borders: i64, own: bool| SoldierTile {
        threat,
        enemy_borders,
        own_soldier: own,
        any_soldier: own,
    };
    let tiles = vec![s(0, 1, true), s(1, 0, true), s(0, 0, true), s(0, 0, true)];
    assert_eq!(rear_soldier(&tiles, 2), Some(3));
    assert_eq!(rear_soldier(&tiles, 0), Some(2));
    assert_eq!(free_soldier(&tiles, 0), Some(1));
}

#[test]
fn plane_helpers() {
    assert!(is_producer(BuildingKind::Village));
    assert!(!is_producer(BuildingKind::Outpost));
    assert!(is_producing_producer(Some(BuildingKind::Farm), 4, true, false));
    assert!(!is_producing_producer(Some(BuildingKind::Farm), 3, true, false));
    assert!(is_producing_producer(Some(BuildingKind::Hydro), 0, false, true));
    assert!(is_producing_producer(Some(BuildingKind::Outpost), 0, false, false));
    assert!(!is_producing_producer(None, 4, true, true));
    // 3 soldiers + min(600/200 = 3, 100/50 = 2) within 5 free slots
    assert_eq!(enemy_mobile_budget(3, 600, 100, 5), 5);
    assert_eq!(enemy_mobile_budget(3, 600, 100, 1), 4);
    assert_eq!(enemy_mobile_budget(3, 600, 100, -2), 3);
    assert_eq!(enemy_mobile_budget(0, -400, 100, 5), 0);
}

#[test]
fn push_counts_toward_nearest_enemy_hq() {
    let owned = vec![(0, 0), (1, 0), (5, 0), (6, 0)];
    // enemy HQs at (7,0) and (9,9): (7,0) is nearer the own HQ at (0,0)
    assert_eq!(enemy_hq_push_counts(Some((0, 0)), &vec![(9, 9), (7, 0)], &owned, 2), Some((2, 4)));
    assert_eq!(enemy_hq_push_counts(None, &vec![(7, 0)], &owned, 2), None);
    assert_eq!(enemy_hq_push_counts(Some((0, 0)), &vec![], &owned, 2), None);
}

#[test]
fn stall_watch_cuts_frozen_games() {
    let mut w = StallWatch::new(7, 0);
    assert!(!w.observe(7, STALL_ROUNDS - 1, false));
    assert!(w.observe(7, STALL_ROUNDS, false));
    // a standing Device is never cut
    assert!(!w.observe(7, STALL_ROUNDS + 5, true));
    // a board change restarts the count
    assert!(!w.observe(8, STALL_ROUNDS + 6, false));
    assert!(!w.observe(8, 2 * STALL_ROUNDS + 5, false));
    assert!(w.observe(8, 2 * STALL_ROUNDS + 6, false));
}

#[test]
fn policy_staffing_targets() {
    // A bare power plant takes an Expert first, then a worker once it stands.
    assert_eq!(plant_minimum(true, false, false), (true, false));
    assert_eq!(plant_minimum(true, false, true), (false, true));
    assert_eq!(plant_minimum(false, false, false), (false, false));
    assert_eq!(plant_minimum(true, true, true), (false, false));
    // A worked Mine takes an Expert, and workers up to two while it has room.
    assert_eq!(producer_upgrade(Some(BuildingKind::Mine), true, true, false, 1, true), (true, true));
    assert_eq!(producer_upgrade(Some(BuildingKind::Mine), false, true, false, 1, true), (false, true));
    assert_eq!(producer_upgrade(Some(BuildingKind::Mine), true, true, true, 2, true), (false, false));
    assert_eq!(producer_upgrade(Some(BuildingKind::Mine), true, false, false, 0, false), (false, false));
    // A Hydro takes a second worker only behind its Expert.
    assert_eq!(producer_upgrade(Some(BuildingKind::Hydro), true, true, true, 1, true), (false, true));
    assert_eq!(producer_upgrade(Some(BuildingKind::Hydro), true, true, false, 1, true), (false, false));
    assert_eq!(producer_upgrade(Some(BuildingKind::Farm), true, true, false, 1, true), (false, false));
}

#[test]
fn nuclear_phase_and_staffing() {
    let hard = HardAi::hard();
    assert!(hard.nuclear_phase_runs(2401));
    assert!(!hard.nuclear_phase_runs(2400));
    assert!(!HardAi::econ_expert().nuclear_phase_runs(1000));
    assert!(!HardAi::army_rush().nuclear_phase_runs(5000), "ARMY_RUSH runs no Nuclear phase");
    assert!(HardAi::nuclear_worker_due(true, 1, true, 3));
    assert!(!HardAi::nuclear_worker_due(true, 2, true, 3));
    assert!(!HardAi::nuclear_worker_due(false, 0, true, 3));
    assert!(!HardAi::nuclear_worker_due(true, 0, true, 0));
}
