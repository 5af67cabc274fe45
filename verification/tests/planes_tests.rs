use cp_ai::metrics::{BuildingKind, TileKind};
use cp_ai::planes::{
    board_codes, cell_codes, is_producer, is_producing_producer, soldier_balance, CellCodes, CellView, TerrainPlane,
};

fn cell(x: i32, y: i32, owner: Option<usize>, terrain: TileKind, building: Option<BuildingKind>) -> CellView {
    CellView {
        x,
        y,
        owner,
        terrain,
        building,
        growth_phase: 0,
        has_worker: false,
        has_expert: false,
        soldiers: 0,
        attackers: vec![],
    }
}

#[test]
fn plane_producing_distinguishes_staffed_from_unstaffed() {
    // Two owned Farms: one staffed and mature, one empty. Both are producers.
    assert!(is_producer(BuildingKind::Farm));
    assert!(is_producing_producer(Some(BuildingKind::Farm), 4, true, false), "staffed mature farm produces");
    assert!(!is_producing_producer(Some(BuildingKind::Farm), 0, false, false), "empty farm does not");
    // The same staffed Farm while immature.
    assert!(!is_producing_producer(Some(BuildingKind::Farm), 1, true, false), "immature farm does not produce");
    // A Village always produces.
    assert!(is_producing_producer(Some(BuildingKind::Village), 0, false, false), "village always produces");
}

#[test]
fn soldier_balance_is_signed_from_the_viewer() {
    // My tile: one defender against one enemy attacker holds, but only just.
    assert_eq!(soldier_balance(true, false, 1, 0, 1), 0);
    assert_eq!(soldier_balance(true, false, 3, 0, 1), 2);
    // An enemy tile: one attacker of mine against one defender does not take it.
    assert_eq!(soldier_balance(false, true, 1, 1, 0), 0);
    assert_eq!(soldier_balance(false, true, 2, 1, 0), -1);
    // A neutral tile: any attacker of mine suffices.
    assert_eq!(soldier_balance(false, false, 0, 2, 1), 2);
}

#[test]
fn board_codes_split_sides_and_count_only_live_enemies() {
    // Viewer 0; player 1 is live, player 2 has been eliminated.
    let live = vec![true, true, false];
    let mut mine = cell(0, 0, Some(0), TileKind::Grassland, Some(BuildingKind::Farm));
    mine.growth_phase = 4;
    mine.has_worker = true;
    mine.soldiers = 2;
    mine.attackers = vec![Some(1), Some(1), Some(1), Some(2)];
    let mut enemy = cell(3, 0, Some(1), TileKind::AbundantForest, Some(BuildingKind::Mine));
    enemy.has_worker = true;
    enemy.soldiers = 1;
    enemy.attackers = vec![Some(0), Some(0), Some(0)];
    let dead = cell(0, 2, Some(2), TileKind::Mountain, Some(BuildingKind::Outpost));
    let river = cell(1, 1, Some(0), TileKind::River, None);
    let neutral = cell(2, 2, None, TileKind::River, None);
    // Both enemies keep an HQ; only the live one's counts. A Device of the live enemy stands.
    let hqs = vec![(0, (0, 0)), (1, (4, 0)), (2, (0, 4))];
    let codes = board_codes(0, &live, &vec![mine, enemy, dead, river, neutral], &hqs, Some((Some(1), (3, 3))));
    assert_eq!(codes.len(), 5);
    let m = codes[0];
    assert!(m.mine && !m.enemy && !m.neutral);
    assert_eq!(m.terrain, TerrainPlane::Grassland);
    assert!(m.producer && m.producing && !m.river_block);
    assert_eq!((m.my_soldiers, m.enemy_soldiers, m.my_attackers, m.enemy_attackers), (2, 0, 0, 3));
    assert_eq!(m.balance, -1);
    assert_eq!(m.hq_dist, Some(4));
    assert_eq!(m.device_dist, Some(6));
    let e = codes[1];
    assert!(e.enemy && !e.mine && !e.neutral);
    assert_eq!(e.terrain, TerrainPlane::Forest);
    // an enemy's producer is a producer, but its output is not shown
    assert!(e.producer && !e.producing);
    assert_eq!((e.my_soldiers, e.enemy_soldiers, e.my_attackers, e.balance), (0, 1, 3, 2));
    assert_eq!(e.hq_dist, Some(1));
    // an eliminated player's tile is neither mine, enemy nor neutral
    let d = codes[2];
    assert!(!d.mine && !d.enemy && !d.neutral);
    assert!(d.military && !d.producer);
    assert_eq!(d.enemy_soldiers, 0);
    assert_eq!(d.terrain, TerrainPlane::Mountain);
    assert!(codes[3].river_block);
    assert!(codes[4].neutral && !codes[4].river_block);
}

#[test]
fn board_codes_without_enemy_objectives() {
    let live = vec![true, true];
    // Only the viewer's own HQ, and a Device that the viewer owns: no distances.
    let dev = cell(1, 0, Some(0), TileKind::Grassland, Some(BuildingKind::StrangeDevice));
    let codes = board_codes(0, &live, &vec![dev], &vec![(0, (0, 0))], Some((Some(0), (1, 0))));
    assert_eq!(codes[0].hq_dist, None);
    assert_eq!(codes[0].device_dist, None);
    assert!(codes[0].device && !codes[0].producer);
    // A neutral cell with the viewer's attackers: the balance is the attackers alone.
    let mut n = cell(5, 5, None, TileKind::Forest, None);
    n.attackers = vec![Some(0), Some(0), Some(1)];
    let c: CellCodes = cell_codes(0, &live, &n, &vec![(5, 7)], None);
    assert_eq!((c.my_attackers, c.enemy_attackers, c.balance), (2, 1, 2));
    assert_eq!(c.hq_dist, Some(2));
}
