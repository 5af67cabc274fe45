//! Defensive decisions of the heuristic CPU: how many soldiers each tile
//! wants, which shortfalls are filled first, and how large an army to field.

use vstd::prelude::*;
use crate::hard_ai::{HardAi, AiParams, spec_econ_ready};
use crate::order::{OrderKey, keys_wf, lists_kept, is_stably_sorted, stable_order};

verus! {

pub open spec fn min_int(a: int, b: int) -> int {
    if a < b { a } else { b }
}

pub open spec fn max_int(a: int, b: int) -> int {
    if a > b { a } else { b }
}

/// A tile under threat keeps one soldier more than the threat, up to three.
pub open spec fn spec_threat_want(threat: int) -> int {
    min_int(3, threat + 1)
}

/// Soldiers wanted on a threatened tile: one more than the threat, at most
/// three (a tile holds three).
pub fn threat_garrison_want(threat: i64) -> (r: i64)
    requires
        threat < i64::MAX,
    ensures
        r == spec_threat_want(threat as int),
{
    if threat + 1 < 3 {
        threat + 1
    } else {
        3
    }
}

/// Soldiers wanted on the Headquarters.
pub open spec fn spec_hq_want(garrison: int, skip_idle: bool, at_war: bool, threat: int) -> int {
    if skip_idle {
        max_int(0, spec_threat_want(threat))
    } else if at_war {
        min_int(3, max_int(garrison, threat + 1))
    } else {
        spec_threat_want(threat)
    }
}

/// One entry of the defence list: the soldiers a tile wants, holds, and the
/// pressure on it.
#[derive(Clone, Copy, Debug, PartialEq, Eq, Structural)]
pub struct DefendEntry {
    pub want: i64,
    pub soldiers: i64,
    pub pressure: i64,
}

/// An owned tile next to the CPU's own Strange Device guards it, unless it
/// holds an Outpost (which takes no soldiers).
pub fn device_ring_member(device_mine: bool, tile_mine: bool, tile_outpost: bool) -> (r: bool)
    ensures
        r == (device_mine && tile_mine && !tile_outpost),
{
    device_mine && tile_mine && !tile_outpost
}

/// The defence entry of an approach to the CPU's own Device: it wants a full
/// garrison of three, and its pressure is the threat on it plus 100, so that it
/// outranks ordinary defence among equal shortfalls.
pub fn device_ring_entry(soldiers: i64, threat: i64) -> (r: DefendEntry)
    requires
        threat <= i64::MAX - 100,
    ensures
        r == (DefendEntry { want: 3, soldiers, pressure: (threat + 100) as i64 }),
{
    DefendEntry { want: 3, soldiers, pressure: threat + 100 }
}

/// While the CPU holds its own Device, each approach without a soldier gets
/// one before any approach is filled deeper.
pub fn ring_spread_due(holding_own_device: bool, soldiers: i64) -> (r: bool)
    ensures
        r == (holding_own_device && soldiers < 1),
{
    holding_own_device && soldiers < 1
}

/// Largest shortfall first, then highest pressure; equal entries keep their
/// order.
pub open spec fn defend_key(e: DefendEntry) -> OrderKey {
    OrderKey { rank: (e.soldiers - e.want) as i64, num: e.pressure, den: 1, tie: 0 }
}

pub open spec fn defend_keys(es: Seq<DefendEntry>) -> Seq<OrderKey> {
    es.map_values(|e: DefendEntry| defend_key(e))
}

pub open spec fn defend_wf(es: Seq<DefendEntry>) -> bool {
    forall|i: int| 0 <= i < es.len() ==> i64::MIN <= (#[trigger] es[i]).soldiers - es[i].want <= i64::MAX
}

pub open spec fn all_true(n: nat) -> Seq<bool> {
    Seq::new(n, |i: int| true)
}

/// The order in which the defence list is reinforced.
pub fn defend_order(entries: &Vec<DefendEntry>) -> (r: Vec<usize>)
    requires
        defend_wf(entries@),
    ensures
        lists_kept(r@, all_true(entries@.len()), entries@.len() as int),
        is_stably_sorted(defend_keys(entries@), r@),
{
    let mut keys: Vec<OrderKey> = Vec::new();
    let mut keep: Vec<bool> = Vec::new();
    let mut i: usize = 0;
    while i < entries.len()
        invariant
            i <= entries@.len(),
            defend_wf(entries@),
            keys@ == defend_keys(entries@.take(i as int)),
            keep@ == all_true(i as nat),
            keys_wf(keys@),
        decreases entries@.len() - i,
    {
        let e = entries[i];
        assert(i64::MIN <= entries@[i as int].soldiers - entries@[i as int].want <= i64::MAX);
        keys.push(OrderKey { rank: e.soldiers - e.want, num: e.pressure, den: 1, tie: 0 });
        keep.push(true);
        proof {
            assert(entries@.take(i + 1) == entries@.take(i as int).push(entries@[i as int]));
        }
        i = i + 1;
    }
    proof {
        assert(entries@.take(entries@.len() as int) == entries@);
    }
    stable_order(&keys, &keep)
}

/// An owned tile considered for the border guard.
#[derive(Clone, Copy, Debug, PartialEq, Eq, Structural)]
pub struct FrontierTile {
    pub is_outpost: bool,
    /// Enemy-owned neighbours.
    pub enemy_borders: i64,
}

pub open spec fn frontier_key(f: FrontierTile) -> OrderKey {
    OrderKey { rank: 0, num: f.enemy_borders, den: 1, tie: 0 }
}

pub open spec fn frontier_keys(fs: Seq<FrontierTile>) -> Seq<OrderKey> {
    fs.map_values(|f: FrontierTile| frontier_key(f))
}

pub open spec fn frontier_mask(fs: Seq<FrontierTile>) -> Seq<bool> {
    fs.map_values(|f: FrontierTile| !f.is_outpost && f.enemy_borders > 0)
}

/// The border guard's tiles: non-Outpost tiles bordering the enemy, most
/// enemy neighbours first (stable).
pub fn frontier_order(tiles: &Vec<FrontierTile>) -> (r: Vec<usize>)
    ensures
        lists_kept(r@, frontier_mask(tiles@), tiles@.len() as int),
        is_stably_sorted(frontier_keys(tiles@), r@),
{
    let mut keys: Vec<OrderKey> = Vec::new();
    let mut keep: Vec<bool> = Vec::new();
    let mut i: usize = 0;
    while i < tiles.len()
        invariant
            i <= tiles@.len(),
            keys@ == frontier_keys(tiles@.take(i as int)),
            keep@ == frontier_mask(tiles@.take(i as int)),
            keys_wf(keys@),
        decreases tiles@.len() - i,
    {
        let f = tiles[i];
        keys.push(OrderKey { rank: 0, num: f.enemy_borders, den: 1, tie: 0 });
        keep.push(!f.is_outpost && f.enemy_borders > 0);
        proof {
            assert(tiles@.take(i + 1) == tiles@.take(i as int).push(tiles@[i as int]));
        }
        i = i + 1;
    }
    proof {
        assert(tiles@.take(tiles@.len() as int) == tiles@);
    }
    stable_order(&keys, &keep)
}

/// The army goal of the border guard and strike force.
pub open spec fn spec_strike_force(
    p: AiParams,
    cap: int,
    farms: int,
    enemy_has_device: bool,
    owns_device: bool,
    net_q: int,
    expert_producers: int,
    aggression: int,
) -> int {
    if enemy_has_device {
        min_int(cap, farms + 3)
    } else if owns_device {
        cap
    } else if p.attack_ready_soldiers > 0 {
        if !spec_econ_ready(p, enemy_has_device, net_q) {
            min_int(cap, p.garrison as int)
        } else {
            min_int(min_int(cap, p.garrison + p.strike_force), farms + expert_producers + 1)
        }
    } else {
        min_int(min_int(cap, p.garrison + min_int(p.strike_force as int, aggression + 1)), farms + 1)
    }
}

/// How hard the enemy presses: the threat, or one more than the strongest
/// reachable defence, whichever is larger.
pub open spec fn spec_aggression(threat: int, max_defenders: int) -> int {
    max_int(threat, max_defenders + 1)
}

/// The last step of the military phase: while the army is below its goal, the
/// Headquarters takes the room left, at most three.
pub open spec fn spec_hq_top_up(force: int, current: int, on_hq: int) -> Option<int> {
    if current < force {
        Some(min_int(3, force - current + on_hq))
    } else {
        None
    }
}

pub fn hq_top_up(force: i64, current: i64, on_hq: i64) -> (r: Option<i64>)
    requires
        i64::MIN <= force - current + on_hq <= i64::MAX,
    ensures
        match spec_hq_top_up(force as int, current as int, on_hq as int) {
            Some(w) => r == Some(w as i64),
            None => r is None,
        },
{
    if current < force {
        let room: i128 = force as i128 - current as i128 + on_hq as i128;
        if room < 3 {
            Some(room as i64)
        } else {
            Some(3)
        }
    } else {
        None
    }
}

impl HardAi {
    /// The military phase runs: soldiers are fielded at all and the soldier
    /// cap is positive.
    pub fn military_phase_runs(&self, cap: i64) -> (r: bool)
        ensures
            r == (self.spec_params().military && cap > 0),
    {
        self.params().military && cap > 0
    }

    /// Soldiers wanted on the Headquarters: holding its own Device the CPU only
    /// answers a real threat; at war it keeps its garrison (at least one more
    /// than the threat); otherwise one more than the threat; never above three.
    pub fn hq_garrison_want(&self, skip_idle: bool, at_war: bool, threat: i64) -> (r: i64)
        requires
            threat < i64::MAX,
        ensures
            r == spec_hq_want(self.spec_params().garrison as int, skip_idle, at_war, threat as int),
    {
        let base = threat_garrison_want(threat);
        if skip_idle {
            if base > 0 {
                base
            } else {
                0
            }
        } else if at_war {
            let g = self.params().garrison;
            let m = if g > threat + 1 {
                g
            } else {
                threat + 1
            };
            if m < 3 {
                m
            } else {
                3
            }
        } else {
            base
        }
    }

    /// The army goal once defence is done: `None` while banking for the Device,
    /// when not at war, or without a Headquarters; else the goal. Against an
    /// enemy Device the CPU fields what its farms sustain; holding its own
    /// Device, the whole cap; a massing preset holds its garrison until the
    /// economy is ready, then garrison plus strike force within what its staffed
    /// economy underwrites; any other preset its garrison plus a strike force
    /// matched to the enemy's aggression, within its farms.
    pub fn strike_force(
        &self,
        banking: bool,
        at_war: bool,
        has_hq: bool,
        cap: i64,
        farms: i64,
        enemy_has_device: bool,
        owns_device: bool,
        net_q: i128,
        expert_producers: i64,
        threat: i64,
        max_defenders: i64,
    ) -> (r: Option<i64>)
        requires
            farms >= 0,
            expert_producers >= 0,
            farms + expert_producers + 3 <= i64::MAX,
            max_defenders < i64::MAX - 1,
            threat < i64::MAX,
            i64::MIN <= self.spec_params().garrison + self.spec_params().strike_force <= i64::MAX,
            i64::MIN <= self.spec_params().garrison + spec_aggression(threat as int, max_defenders as int) + 1
                <= i64::MAX,
            -0x1_0000_0000_0000_0000_0000 <= net_q <= 0x1_0000_0000_0000_0000_0000,
        ensures
            r == (if banking || !at_war || !has_hq {
                None
            } else {
                Some(
                    spec_strike_force(
                        self.spec_params(),
                        cap as int,
                        farms as int,
                        enemy_has_device,
                        owns_device,
                        net_q as int,
                        expert_producers as int,
                        spec_aggression(threat as int, max_defenders as int),
                    ) as i64,
                )
            }),
    {
        if banking || !at_war || !has_hq {
            return None;
        }
        let p = self.params();
        let aggression = if threat > max_defenders + 1 {
            threat
        } else {
            max_defenders + 1
        };
        let f: i64 = if enemy_has_device {
            if cap < farms + 3 {
                cap
            } else {
                farms + 3
            }
        } else if owns_device {
            cap
        } else if p.attack_ready_soldiers > 0 {
            if !self.econ_ready(enemy_has_device, net_q) {
                if cap < p.garrison {
                    cap
                } else {
                    p.garrison
                }
            } else {
                let a = p.garrison + p.strike_force;
                let b = if cap < a {
                    cap
                } else {
                    a
                };
                let c = farms + expert_producers + 1;
                if b < c {
                    b
                } else {
                    c
                }
            }
        } else {
            let s = if p.strike_force < aggression + 1 {
                p.strike_force
            } else {
                aggression + 1
            };
            let a = p.garrison + s;
            let b = if cap < a {
                cap
            } else {
                a
            };
            if b < farms + 1 {
                b
            } else {
                farms + 1
            }
        };
        Some(f)
    }
}

/// The army goal never exceeds the soldier cap.
pub proof fn lemma_strike_force_within_cap(
    p: AiParams,
    cap: int,
    farms: int,
    enemy_has_device: bool,
    owns_device: bool,
    net_q: int,
    expert_producers: int,
    aggression: int,
)
    ensures
        spec_strike_force(p, cap, farms, enemy_has_device, owns_device, net_q, expert_producers, aggression) <= cap,
{
}

/// A tile never wants more than three soldiers (what a tile holds), and the
/// Headquarters of a CPU holding its own Device never wants a negative number.
pub proof fn lemma_garrison_wants_bounded(garrison: int, skip_idle: bool, at_war: bool, threat: int)
    ensures
        spec_threat_want(threat) <= 3,
        spec_hq_want(garrison, skip_idle, at_war, threat) <= 3,
        skip_idle ==> spec_hq_want(garrison, skip_idle, at_war, threat) >= 0,
{
}

} // verus!
