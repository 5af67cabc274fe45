use cp_ai::march::{best_march, MarchDest, MarchSource};
use cp_ai::metrics::{BuildingKind, TileKind};
use cp_ai::hard_ai::{
    army_rush_params, device_rush_params, easy_params, expert_params, fortress_params, garrison_params,
    hard_params, hq_rush_params, marcher_params, medium_params, rusher_params, strong_army_params, AiParams,
    HardAi,
};

#[test]
fn hq_rush_prefers_attacks_near_enemy_hq() {
    let hq = hq_rush_params();
    let army = army_rush_params();
    assert!(
        hq.assaults_per_turn >= army.assaults_per_turn,
        "HQ_RUSH must press as hard as ARMY_RUSH on assaults/turn"
    );
    assert!(
        hq.strike_force >= army.strike_force,
        "HQ_RUSH must field at least as large an offensive army as ARMY_RUSH"
    );
    assert!(hq.warmonger, "HQ_RUSH gears up for war on enemy contact");
    assert!(hq.attack, "HQ_RUSH must have the attack phase ON");
    assert!(!hq.device, "HQ_RUSH commits to the army win, not the Device race");
    let bot = HardAi::hq_rush();
    assert_eq!(bot.params().max_outposts, hq.max_outposts);
    assert_eq!(bot.params().strike_force, hq.strike_force);
}

#[test]
fn garrison_holds_at_war_from_round_1() {
    let p = garrison_params();
    assert!(p.warmonger, "GARRISON forces at_war from round 1 via warmonger");
    assert_eq!(p.garrison, 3, "GARRISON requires ≥ 3 HQ garrison");
    assert_eq!(p.assaults_per_turn, 0, "GARRISON suppresses the assault phase via the <=1 && !can_buy gate");
    assert_eq!(p.strike_force, 0, "GARRISON never goes on the offensive");
    assert!(p.attack, "GARRISON keeps attack: true so the counter-cracker fires");
    assert!(p.military, "GARRISON must allow soldier hires");
    assert!(p.experts, "GARRISON staffs Experts (efficient economy)");
    assert!(!p.device, "GARRISON is a pure fortress, no Device race");

    // Two live players, no contact, no enemy device.
    let bot = HardAi::garrison_fortress();
    assert!(
        bot.should_militarise(false, true, false),
        "GARRISON: should_militarise() must be true at round 0 (warmonger forces at_war)"
    );
    let hard = HardAi::hard();
    assert!(!hard.should_militarise(false, true, false));
}

#[test]
fn econ_expert_hires_experts_when_slots_free() {
    let p = expert_params();
    assert!(p.experts, "EXPERT must front the Expert tier");
    assert!(p.nuclear, "EXPERT must also push Nuclear (Expert-gated production)");
    assert!(!p.military, "EXPERT is pure economic — never strikes");
    assert!(p.attack, "EXPERT keeps attack: true so the counter-cracker fires");
    assert!(!p.warmonger, "EXPERT does NOT pre-emptively militarise");
    assert!(!p.device, "EXPERT does NOT race the Device — pure econ");
    assert_eq!(p.assaults_per_turn, 1, "EXPERT cracker-only (the <= 1 && !can_buy gate suppresses offensives)");
    assert_eq!(p.garrison, 1, "EXPERT bare-minimum garrison (no military emphasis)");
    assert_eq!(p.max_outposts, 1);
    assert_eq!(p.strike_force, 0, "EXPERT no offensive army");
    assert_eq!(p.expand, 4);
    assert_eq!(p.reserve, 200);
    assert_eq!(p.max_actions, 28);

    let bot = HardAi::econ_expert();
    assert_eq!(bot.params().experts, p.experts);
    assert_eq!(bot.params().nuclear, p.nuclear);
    assert!(!bot.params().military, "the wired bot must be pure-econ");

    // The pure-econ gate: without cash to buy soldiers the attack phase stays shut.
    assert_eq!(bot.attack_gate(false, 0, 0), None);
}

#[test]
fn marcher_advances_soldier_toward_enemy_hq() {
    let p = marcher_params();
    assert!(p.warmonger, "MARCHER forces at_war from round 1");
    assert!(p.military, "MARCHER must allow soldier hires");
    assert!(p.attack, "MARCHER keeps attack phase ON");
    assert!(!p.device, "MARCHER commits to the army win, not the Device");
    assert_eq!(p.garrison, 1, "MARCHER minimal home defence (willing to leave HQ)");
    assert_eq!(p.assaults_per_turn, 16, "MARCHER very-aggressive assaults_per_turn");
    assert_eq!(p.strike_force, 14, "MARCHER huge offensive army goal");
    assert_eq!(p.max_outposts, 2, "MARCHER one early Outpost (cap → 4 soldiers)");

    let bot = HardAi::marcher();
    assert_eq!(bot.params().assaults_per_turn, p.assaults_per_turn);
    assert_eq!(bot.params().strike_force, p.strike_force);
    assert!(bot.params().warmonger);

    // Own cluster at (1,1) [HQ with the soldier], (2,1), (1,2); the enemy HQ at
    // (10,10). Destinations: the own tiles and their neutral neighbours.
    let own = [(1, 1), (2, 1), (1, 2)];
    let id = |x: i32, y: i32| (x * 12 + y) as usize;
    let srcs: Vec<MarchSource> = own
        .iter()
        .map(|&(x, y)| MarchSource { x, y, tile: id(x, y), on_frontier: false, has_soldier: (x, y) == (1, 1) })
        .collect();
    let mut dsts: Vec<MarchDest> = Vec::new();
    for x in 0..4 {
        for y in 0..4 {
            dsts.push(MarchDest { x, y, tile: id(x, y) });
        }
    }
    let r = best_march(&srcs, &dsts, &vec![(10, 10)]).expect("soldier still exists after march");
    let to = dsts[r.1];
    let new_d = (10 - to.x).abs() + (10 - to.y).abs();
    assert!(new_d < 18);
    assert_eq!(r.0, 0);
}

#[test]
fn shipped_presets_keep_league_fields_at_noop() {
    let presets: [(&str, AiParams); 10] = [
        ("HARD", hard_params()),
        ("MEDIUM", medium_params()),
        ("EASY", easy_params()),
        ("ARMY_RUSH", army_rush_params()),
        ("HQ_RUSH", hq_rush_params()),
        ("GARRISON", garrison_params()),
        ("EXPERT", expert_params()),
        ("MARCHER", marcher_params()),
        ("DEVICE_RUSH", device_rush_params()),
        ("RUSHER", rusher_params()),
    ];
    for (name, p) in presets {
        assert!(!p.fortress, "{name}: fortress must be false (no-op)");
        assert_eq!(p.attack_ready_soldiers, 0, "{name}: attack_ready_soldiers must be 0 (no-op)");
        assert_eq!(p.econ_ready_net, 0, "{name}: econ_ready_net must be 0 (no-op)");
    }
}

#[test]
fn rusher_param_shape() {
    let p = rusher_params();
    assert_eq!(p.reserve, 220, "RUSHER reserve 220 = the bankruptcy fix (was 80-100)");
    assert_eq!(p.max_actions, 30);
    assert!(p.experts);
    assert!(p.military);
    assert_eq!(p.garrison, 2);
    assert_eq!(p.expand, 4);
    assert!(p.attack);
    assert!(!p.nuclear);
    assert_eq!(p.max_outposts, 2);
    assert_eq!(p.strike_force, 6);
    assert_eq!(p.assaults_per_turn, 8);
    assert!(p.warmonger, "RUSHER warmonger wires build_bridges + march + early attack");
    assert!(!p.cut_priority);
    assert!(!p.device);
    let bot = HardAi::rusher();
    assert_eq!(bot.params().reserve, 220);
}

#[test]
fn fortress_param_shape() {
    let p = fortress_params();
    assert_eq!(p.reserve, 320);
    assert_eq!(p.max_actions, 26);
    assert!(p.experts);
    assert!(p.military);
    assert_eq!(p.garrison, 3);
    assert_eq!(p.expand, 3);
    assert!(p.attack, "FORTRESS keeps attack ON so the counter-cracker fires");
    assert!(!p.nuclear);
    assert_eq!(p.max_outposts, 3);
    assert_eq!(p.strike_force, 0, "FORTRESS never goes on the offensive");
    assert_eq!(p.assaults_per_turn, 0);
    assert!(p.warmonger);
    assert!(!p.cut_priority);
    assert!(!p.device);
    assert!(p.fortress, "FORTRESS: THE point is proactive Outpost building");
    assert_eq!(p.attack_ready_soldiers, 0);
    assert_eq!(p.econ_ready_net, 0);
    let bot = HardAi::fortress();
    assert!(bot.params().fortress);

    assert!(
        HardAi::fortress().proactive_outposts(false, 0),
        "FORTRESS must want proactive Outposts (fortress: true) from round 0"
    );
    assert!(
        !HardAi::hard().proactive_outposts(false, 0),
        "HARD must NOT want proactive Outposts (byte-identical gate)"
    );
}

#[test]
fn strong_army_param_shape() {
    let p = strong_army_params();
    assert_eq!(p.reserve, 350);
    assert_eq!(p.max_actions, 34);
    assert!(p.experts);
    assert!(p.military);
    assert_eq!(p.garrison, 3);
    assert_eq!(p.expand, 7);
    assert!(p.attack);
    assert!(p.nuclear, "STRONG_ARMY pushes Nuclear (rich late-game engine)");
    assert_eq!(p.max_outposts, 5);
    assert_eq!(p.strike_force, 12);
    assert_eq!(p.assaults_per_turn, 8);
    assert!(!p.warmonger, "STRONG_ARMY masses on its own schedule, no pre-militarise");
    assert!(p.cut_priority, "STRONG_ARMY uses the surgical HQ-severing attack order");
    assert!(!p.device);
    assert!(!p.fortress);
    assert_eq!(p.attack_ready_soldiers, 8, "STRONG_ARMY masses ≥ 8 soldiers before a front");
    assert_eq!(p.econ_ready_net, 120, "STRONG_ARMY defense-only until net income ≥ 120");
    let bot = HardAi::strong_army();
    assert_eq!(bot.params().attack_ready_soldiers, 8);
    assert_eq!(bot.params().econ_ready_net, 120);

    let sa = HardAi::strong_army();
    assert!(!sa.assault_ready(false, 0), "STRONG_ARMY must NOT be assault-ready with 0 massed soldiers");
    assert!(sa.assault_ready(false, 8));
    assert!(
        HardAi::hard().assault_ready(false, 0),
        "HARD (attack_ready_soldiers 0) must ALWAYS be assault-ready (byte-identical)"
    );
}

#[test]
fn device_rush_rebuild_param_shape() {
    let p = device_rush_params();
    assert_eq!(p.reserve, 150, "DEVICE_RUSH reserve 150 lets banking spend down to the Device cost");
    assert_eq!(p.max_actions, 28);
    assert!(p.experts);
    assert!(p.military);
    assert_eq!(p.garrison, 3);
    assert_eq!(p.expand, 3);
    assert!(p.attack);
    assert!(!p.nuclear);
    assert_eq!(p.max_outposts, 1, "DEVICE_RUSH: one precursor Outpost (a 2nd starves the build)");
    assert_eq!(p.strike_force, 0, "DEVICE_RUSH: no offensive army — the Device is the win plan");
    assert_eq!(p.assaults_per_turn, 0);
    assert!(p.warmonger, "DEVICE_RUSH warmonger fires proactive_outposts (device precursor)");
    assert!(!p.cut_priority);
    assert!(p.device, "DEVICE_RUSH: THE point is racing the Strange Device");
    assert!(!p.fortress);
    assert_eq!(p.attack_ready_soldiers, 0);
    assert_eq!(p.econ_ready_net, 0);

    let dr = HardAi::device_rush();
    assert!(!dr.proactive_outposts(false, 0), "DEVICE_RUSH proactive_outposts must be FALSE before round 12");
    assert!(dr.proactive_outposts(false, 12), "DEVICE_RUSH proactive_outposts must be TRUE at round >= 12 (no device yet)");
}

#[test]
fn claim_value_prefers_neutral_with_building() {
    let v_bare = HardAi::claim_value(None, TileKind::Grassland, false);
    let farm = HardAi::claim_value(Some(BuildingKind::Farm), TileKind::Grassland, false);
    assert!(farm > v_bare, "neutral Farm must outrank bare grassland; got farm={} bare={}", farm, v_bare);
    let v_mountain_bare = HardAi::claim_value(None, TileKind::Mountain, false);
    let mine = HardAi::claim_value(Some(BuildingKind::Mine), TileKind::Mountain, false);
    assert!(mine > v_mountain_bare, "neutral Mine must outrank bare mountain; got mine={} mountain={}", mine, v_mountain_bare);
    assert!(HardAi::claim_value(Some(BuildingKind::Outpost), TileKind::Grassland, false) > v_bare);
    assert!(HardAi::claim_value(Some(BuildingKind::Village), TileKind::Grassland, false) > v_bare);
    assert_eq!(HardAi::claim_value(Some(BuildingKind::Mikontalo), TileKind::Grassland, false), 6);
    assert_eq!(
        HardAi::claim_value(Some(BuildingKind::StrangeDevice), TileKind::Grassland, false),
        v_bare,
        "neutral StrangeDevice destroys-on-claim → no bonus over bare"
    );
}
