//! Offensive decisions: which enemy tiles to assault, in what order, and
//! whether enough soldiers can be staged on a tile to take it.
//!
//! A tile falls to an attacker holding strictly more soldiers on it than its
//! defenders, so a target with `d` defenders needs `d + 1` staged soldiers.

use vstd::prelude::*;
use crate::hard_ai::{HardAi, AiParams, spec_assault_ready, trunc_div};
use crate::order::{OrderKey, key_lt, keys_wf, lists_kept, is_stably_sorted, stable_order};

verus! {

/// An enemy-owned tile within reach that has room for conquering units.
#[derive(Clone, Copy, Debug, PartialEq, Eq, Structural)]
pub struct AttackTarget {
    /// The tile's index on the board.
    pub tile: usize,
    /// Soldiers defending the tile.
    pub defenders: i64,
    /// Own soldiers already staged on the tile.
    pub placed: i64,
    /// The tile holds a Strange Device.
    pub is_device: bool,
    /// The tile holds a Headquarters.
    pub is_hq: bool,
    /// The tile holds an Outpost.
    pub is_outpost: bool,
    /// The offensive cut value, as the exact fraction `cut_num / cut_den`.
    pub cut_num: i64,
    pub cut_den: i64,
}

/// A well-formed target: counts are non-negative, the cut fraction has a
/// positive denominator, and the tile index fits an `i64`.
pub open spec fn target_wf(t: AttackTarget) -> bool {
    &&& t.defenders >= 0
    &&& t.placed >= 0
    &&& t.cut_den > 0
    &&& t.tile <= i64::MAX
}

pub open spec fn targets_wf(ts: Seq<AttackTarget>) -> bool {
    forall|i: int| 0 <= i < ts.len() ==> target_wf(#[trigger] ts[i])
}

/// Outposts are impregnable, and three defenders fill a tile: neither is
/// worth an assault.
pub open spec fn assault_eligible(t: AttackTarget) -> bool {
    !t.is_outpost && t.defenders < 3
}

pub open spec fn eligible_mask(ts: Seq<AttackTarget>) -> Seq<bool> {
    ts.map_values(|t: AttackTarget| assault_eligible(t))
}

/// The heuristic CPU's priority. Shipped order: a Strange Device first
/// (cracking it stops the enemy's clock), then a Headquarters, then fewest
/// defenders. With `cut_priority`: a Device first, then the largest cut value,
/// then fewest defenders.
pub open spec fn hard_attack_key(cut_priority: bool, t: AttackTarget) -> OrderKey {
    if cut_priority {
        OrderKey { rank: if t.is_device { 0 } else { 1 }, num: t.cut_num, den: t.cut_den, tie: t.defenders }
    } else {
        OrderKey {
            rank: if t.is_device {
                if t.is_hq { 0 } else { 1 }
            } else {
                if t.is_hq { 2 } else { 3 }
            },
            num: 0,
            den: 1,
            tie: t.defenders,
        }
    }
}

pub open spec fn hard_attack_keys(cut_priority: bool, ts: Seq<AttackTarget>) -> Seq<OrderKey> {
    ts.map_values(|t: AttackTarget| hard_attack_key(cut_priority, t))
}

/// The policy candidates' priority: a Headquarters first, then fewest
/// defenders, then the lower tile index.
pub open spec fn candidate_attack_key(t: AttackTarget) -> OrderKey {
    OrderKey { rank: if t.is_hq { 0 } else { 1 }, num: (-t.defenders) as i64, den: 1, tie: t.tile as i64 }
}

pub open spec fn candidate_attack_keys(ts: Seq<AttackTarget>) -> Seq<OrderKey> {
    ts.map_values(|t: AttackTarget| candidate_attack_key(t))
}

fn hard_key_of(cut_priority: bool, t: &AttackTarget) -> (k: OrderKey)
    ensures
        k == hard_attack_key(cut_priority, *t),
{
    if cut_priority {
        OrderKey { rank: if t.is_device { 0 } else { 1 }, num: t.cut_num, den: t.cut_den, tie: t.defenders }
    } else {
        let rank: i64 = if t.is_device {
            if t.is_hq { 0 } else { 1 }
        } else {
            if t.is_hq { 2 } else { 3 }
        };
        OrderKey { rank, num: 0, den: 1, tie: t.defenders }
    }
}

fn candidate_key_of(t: &AttackTarget) -> (k: OrderKey)
    requires
        target_wf(*t),
    ensures
        k == candidate_attack_key(*t),
{
    OrderKey { rank: if t.is_hq { 0 } else { 1 }, num: -t.defenders, den: 1, tie: t.tile as i64 }
}

/// The keys and eligibility of each target, in input order.
fn keys_and_mask(targets: &Vec<AttackTarget>, shipped: bool, cut_priority: bool) -> (r: (
    Vec<OrderKey>,
    Vec<bool>,
))
    requires
        targets_wf(targets@),
    ensures
        r.0@ == (if shipped {
            hard_attack_keys(cut_priority, targets@)
        } else {
            candidate_attack_keys(targets@)
        }),
        r.1@ == eligible_mask(targets@),
        keys_wf(r.0@),
{
    let mut keys: Vec<OrderKey> = Vec::new();
    let mut keep: Vec<bool> = Vec::new();
    let mut i: usize = 0;
    while i < targets.len()
        invariant
            i <= targets@.len(),
            targets_wf(targets@),
            keys@ == (if shipped {
                hard_attack_keys(cut_priority, targets@.take(i as int))
            } else {
                candidate_attack_keys(targets@.take(i as int))
            }),
            keep@ == eligible_mask(targets@.take(i as int)),
            keys_wf(keys@),
        decreases targets@.len() - i,
    {
        let t = &targets[i];
        assert(target_wf(targets@[i as int]));
        let k = if shipped {
            hard_key_of(cut_priority, t)
        } else {
            candidate_key_of(t)
        };
        keys.push(k);
        keep.push(!t.is_outpost && t.defenders < 3);
        proof {
            assert(targets@.take(i + 1) == targets@.take(i as int).push(targets@[i as int]));
        }
        i = i + 1;
    }
    proof {
        assert(targets@.take(targets@.len() as int) == targets@);
    }
    (keys, keep)
}

impl HardAi {
    /// The assault targets in the order the CPU tries them: the eligible
    /// targets (no Outpost, fewer than three defenders), stably sorted by the
    /// CPU's priority.
    pub fn attack_order(&self, targets: &Vec<AttackTarget>) -> (r: Vec<usize>)
        requires
            targets_wf(targets@),
        ensures
            lists_kept(r@, eligible_mask(targets@), targets@.len() as int),
            is_stably_sorted(hard_attack_keys(self.spec_params().cut_priority, targets@), r@),
    {
        let cut_priority = self.params().cut_priority;
        let (keys, keep) = keys_and_mask(targets, true, cut_priority);
        stable_order(&keys, &keep)
    }

    /// Whether the attack phase runs this turn, and if so whether it may buy
    /// soldiers (`Some(can_buy)`).
    pub fn attack_gate(&self, enemy_has_device: bool, money: i64, soldiers: i64) -> (r: Option<bool>)
        requires
            self.spec_params().reserve <= i64::MAX - 250,
        ensures
            r == spec_attack_gate(self.spec_params(), enemy_has_device, money as int, soldiers as int),
    {
        let p = self.params();
        if !p.attack {
            return None;
        }
        if p.device && p.warmonger && !enemy_has_device {
            return None;
        }
        let can_buy = money >= p.reserve + 250;
        if p.assaults_per_turn <= 1 && !can_buy {
            return None;
        }
        if !self.assault_ready(enemy_has_device, soldiers) {
            return None;
        }
        Some(can_buy)
    }

    /// Assaults completed per turn at most (at least one).
    pub fn max_assaults(&self) -> (r: i64)
        ensures
            r == if self.spec_params().assaults_per_turn > 1 {
                self.spec_params().assaults_per_turn
            } else {
                1
            },
    {
        let a = self.params().assaults_per_turn;
        if a > 1 {
            a
        } else {
            1
        }
    }

    /// Another assault may start: fewer than the per-turn maximum so far and
    /// actions left in the budget.
    pub fn assault_slot_open(&self, assaults: i64) -> (r: bool)
        ensures
            r == (assaults < (if self.spec_params().assaults_per_turn > 1 {
                self.spec_params().assaults_per_turn
            } else {
                1
            }) && self.spec_budget() > 0),
    {
        assaults < self.max_assaults() && self.budget() > 0
    }

    /// One step of staging soldiers on an assault tile by the heuristic CPU,
    /// whose soldiers cost 50 metal: as [`reinforce_choice`] while actions are
    /// left in the budget; once the budget is spent, stop.
    pub fn staging_step(
        &self,
        has_free_soldier: bool,
        can_buy: bool,
        free_slots: i64,
        metal: i64,
        affords_cost: bool,
        upkeep_covered: bool,
    ) -> (r: Reinforce)
        ensures
            r == (if self.spec_budget() <= 0 {
                Reinforce::Stop
            } else {
                spec_reinforce_choice(
                    has_free_soldier,
                    can_buy,
                    free_slots as int,
                    metal as int,
                    50,
                    affords_cost,
                    upkeep_covered,
                )
            }),
            r != Reinforce::Stop ==> self.spec_budget() > 0,
    {
        if self.budget() <= 0 {
            Reinforce::Stop
        } else {
            reinforce_choice(has_free_soldier, can_buy, free_slots, metal, 50, affords_cost, upkeep_covered)
        }
    }
}

/// The attack phase's gate.
pub open spec fn spec_attack_gate(p: AiParams, enemy_has_device: bool, money: int, soldiers: int) -> Option<bool> {
    let can_buy = money >= p.reserve + 250;
    if !p.attack {
        None
    } else if p.device && p.warmonger && !enemy_has_device {
        // the device strategist opens no front while it plays for the Device
        None
    } else if p.assaults_per_turn <= 1 && !can_buy {
        None
    } else if !spec_assault_ready(p, enemy_has_device, soldiers) {
        None
    } else {
        Some(can_buy)
    }
}

/// Soldiers that may be bought for an assault: none unless buying is allowed,
/// else the least of the free soldier slots, the metal over the soldier's metal
/// cost, and the money above the reserve over 200.
pub open spec fn spec_buyable(can_buy: bool, free_slots: int, metal: int, metal_cost: int, money: int, reserve: int) -> int {
    if can_buy {
        let a = free_slots;
        let b = trunc_div(metal, metal_cost);
        let c = trunc_div(money - reserve, 200);
        let ab = if a < b { a } else { b };
        if ab < c { ab } else { c }
    } else {
        0
    }
}

/// Soldiers bought for an assault: none when buying is not allowed; else, with
/// non-negative slots, metal and money above the reserve, the largest number
/// that fits the free slots, whose metal is at hand, and whose price of 200
/// each leaves the reserve untouched.
pub proof fn lemma_buyable_is_largest(free_slots: int, metal: int, metal_cost: int, money: int, reserve: int)
    requires
        free_slots >= 0,
        metal >= 0,
        metal_cost > 0,
        money >= reserve,
    ensures
        spec_buyable(false, free_slots, metal, metal_cost, money, reserve) == 0,
        ({
            let k = spec_buyable(true, free_slots, metal, metal_cost, money, reserve);
            &&& 0 <= k <= free_slots
            &&& k * metal_cost <= metal
            &&& 200 * k <= money - reserve
            &&& (k + 1 > free_slots || (k + 1) * metal_cost > metal || 200 * (k + 1) > money - reserve)
        }),
{
    let b = metal / metal_cost;
    let c = (money - reserve) / 200;
    assert(b * metal_cost <= metal && (b + 1) * metal_cost > metal && b >= 0) by (nonlinear_arith)
        requires
            metal >= 0,
            metal_cost > 0,
            b == metal / metal_cost,
    ;
    assert(200 * c <= money - reserve && 200 * (c + 1) > money - reserve && c >= 0) by (nonlinear_arith)
        requires
            money - reserve >= 0,
            c == (money - reserve) / 200,
    ;
    let k = spec_buyable(true, free_slots, metal, metal_cost, money, reserve);
    assert(k <= b && k <= c && k <= free_slots);
    assert(k * metal_cost <= b * metal_cost) by (nonlinear_arith)
        requires
            k <= b,
            metal_cost > 0,
    ;
    assert(k == free_slots || k == b || k == c);
}

/// A tile is staged for only when more soldiers are needed on it and the
/// movable and buyable soldiers cover the shortfall; the number staged to is
/// one more than its defenders, the least that takes the tile.
pub proof fn lemma_stage_need_rule(defenders: int, placed: int, movable: int, buyable: int)
    ensures
        spec_stage_need(defenders, placed, movable, buyable) is Some <==> (placed <= defenders && movable
            + buyable + placed > defenders),
        spec_stage_need(defenders, placed, movable, buyable) matches Some(n) ==> n > defenders && n - 1
            <= defenders && placed < n,
{
}

/// The attack phase runs only for a preset that attacks, never for the device
/// strategist before an enemy Device stands, never for a single-assault preset
/// that cannot buy, and only once assault-ready; buying is allowed exactly
/// with 250 money above the reserve. More money never closes an open gate.
pub proof fn lemma_attack_gate_rule(p: AiParams, enemy_has_device: bool, money: int, richer: int, soldiers: int)
    requires
        money <= richer,
    ensures
        spec_attack_gate(p, enemy_has_device, money, soldiers) matches Some(b) ==> p.attack && b == (money
            >= p.reserve + 250) && !(p.device && p.warmonger && !enemy_has_device) && (p.assaults_per_turn > 1
            || b) && spec_assault_ready(p, enemy_has_device, soldiers),
        !p.attack ==> spec_attack_gate(p, enemy_has_device, money, soldiers) is None,
        spec_attack_gate(p, enemy_has_device, money, soldiers) is Some ==> spec_attack_gate(
            p,
            enemy_has_device,
            richer,
            soldiers,
        ) is Some,
{
}

pub fn buyable_soldiers(can_buy: bool, free_slots: i64, metal: i64, metal_cost: i64, money: i64, reserve: i64) -> (r:
    i64)
    requires
        metal_cost > 0,
        can_buy ==> i64::MIN <= money - reserve <= i64::MAX,
    ensures
        r == spec_buyable(can_buy, free_slots as int, metal as int, metal_cost as int, money as int, reserve as int),
{
    if !can_buy {
        return 0;
    }
    let b = metal / metal_cost;
    let c = (money - reserve) / 200;
    let ab = if free_slots < b {
        free_slots
    } else {
        b
    };
    if ab < c {
        ab
    } else {
        c
    }
}

/// Staging a target: it needs `defenders + 1` soldiers; when some are still
/// missing and the movable plus buyable soldiers cover the shortfall, the
/// number needed, else nothing to do.
pub open spec fn spec_stage_need(defenders: int, placed: int, movable: int, buyable: int) -> Option<int> {
    let needed = defenders + 1;
    let to_add = needed - placed;
    if to_add > 0 && movable + buyable >= to_add {
        Some(needed)
    } else {
        None
    }
}

pub fn stage_need(defenders: i64, placed: i64, movable: i64, buyable: i64) -> (r: Option<i64>)
    requires
        defenders < i64::MAX,
    ensures
        match spec_stage_need(defenders as int, placed as int, movable as int, buyable as int) {
            Some(n) => r == Some(n as i64),
            None => r is None,
        },
{
    let needed = defenders + 1;
    let to_add: i128 = needed as i128 - placed as i128;
    if to_add > 0 && movable as i128 + buyable as i128 >= to_add {
        Some(needed)
    } else {
        None
    }
}

/// How the CPU brings one more soldier onto an assault tile.
#[derive(Clone, Copy, Debug, PartialEq, Eq, Structural)]
pub enum Reinforce {
    /// Move a soldier from an owned tile.
    MoveSoldier,
    /// Buy a soldier onto the tile.
    BuySoldier,
    /// Give up on this tile.
    Stop,
}

/// The policy's assault candidates may buy soldiers: at least 250 money above
/// the reserve.
pub fn candidate_can_buy(money: i64, reserve: i64) -> (r: bool)
    ensures
        r == (money >= reserve + 250),
{
    (money as i128) >= (reserve as i128) + 250
}

/// How one more soldier is brought onto an assault tile.
pub open spec fn spec_reinforce_choice(
    has_free_soldier: bool,
    can_buy: bool,
    free_slots: int,
    metal: int,
    metal_cost: int,
    affords_cost: bool,
    upkeep_covered: bool,
) -> Reinforce {
    if has_free_soldier {
        Reinforce::MoveSoldier
    } else if can_buy && free_slots > 0 && metal >= metal_cost && affords_cost && upkeep_covered {
        Reinforce::BuySoldier
    } else {
        Reinforce::Stop
    }
}

/// Move a free soldier when one exists; else buy one when buying is allowed, a
/// soldier slot is free, the soldier's metal (`metal_cost`: 50 for the
/// heuristic CPU, 30 for the policy's actions) is at hand, the cost is
/// affordable above the reserve and the treasury still covers the added
/// upkeep; else stop.
pub fn reinforce_choice(
    has_free_soldier: bool,
    can_buy: bool,
    free_slots: i64,
    metal: i64,
    metal_cost: i64,
    affords_cost: bool,
    upkeep_covered: bool,
) -> (r: Reinforce)
    ensures
        r == spec_reinforce_choice(
            has_free_soldier,
            can_buy,
            free_slots as int,
            metal as int,
            metal_cost as int,
            affords_cost,
            upkeep_covered,
        ),
{
    if has_free_soldier {
        Reinforce::MoveSoldier
    } else if can_buy && free_slots > 0 && metal >= metal_cost && affords_cost && upkeep_covered {
        Reinforce::BuySoldier
    } else {
        Reinforce::Stop
    }
}

/// A CrackDevice or CrackHQ candidate on the one target tile: offered when
/// it has fewer than three defenders and its staging is feasible, with the
/// soldiers needed and those already placed.
pub fn crack_stage(t: &AttackTarget, movable: i64, buyable: i64) -> (r: Option<(i64, i64)>)
    requires
        target_wf(*t),
    ensures
        r == (if t.defenders >= 3 {
            None
        } else {
            match spec_stage_need(t.defenders as int, t.placed as int, movable as int, buyable as int) {
                Some(n) => Some((n as i64, t.placed)),
                None => None,
            }
        }),
{
    if t.defenders >= 3 {
        return None;
    }
    match stage_need(t.defenders, t.placed, movable, buyable) {
        Some(n) => Some((n, t.placed)),
        None => None,
    }
}

/// The staged targets of `order`: each target whose staging is feasible, with
/// the soldiers it needs.
pub open spec fn staged(order: Seq<usize>, ts: Seq<AttackTarget>, movable: int, buyable: int) -> Seq<(usize, i64, i64)>
    decreases order.len(),
{
    if order.len() == 0 {
        seq![]
    } else {
        let rest = staged(order.drop_last(), ts, movable, buyable);
        let t = ts[order.last() as int];
        match spec_stage_need(t.defenders as int, t.placed as int, movable, buyable) {
            Some(n) => rest.push((order.last(), n as i64, t.placed)),
            None => rest,
        }
    }
}

pub open spec fn truncate<A>(s: Seq<A>, cap: int) -> Seq<A> {
    if s.len() <= cap {
        s
    } else {
        s.take(cap)
    }
}

/// The Attack candidates offered to the policy: the eligible targets in the
/// candidate order, those whose staging is feasible, at most `cap` of them;
/// each with its target index, soldiers needed and soldiers already placed.
pub fn attack_candidate_plan(targets: &Vec<AttackTarget>, movable: i64, buyable: i64, cap: usize) -> (r: (
    Vec<usize>,
    Vec<(usize, i64, i64)>,
))
    requires
        targets_wf(targets@),
    ensures
        lists_kept(r.0@, eligible_mask(targets@), targets@.len() as int),
        is_stably_sorted(candidate_attack_keys(targets@), r.0@),
        r.1@ == truncate(staged(r.0@, targets@, movable as int, buyable as int), cap as int),
{
    let (keys, keep) = keys_and_mask(targets, false, false);
    let order = stable_order(&keys, &keep);
    let mut out: Vec<(usize, i64, i64)> = Vec::new();
    let mut k: usize = 0;
    while k < order.len()
        invariant
            k <= order@.len(),
            targets_wf(targets@),
            lists_kept(order@, eligible_mask(targets@), targets@.len() as int),
            out@ == truncate(staged(order@.take(k as int), targets@, movable as int, buyable as int), cap as int),
        decreases order@.len() - k,
    {
        let ti = order[k];
        assert(ti < targets@.len() && eligible_mask(targets@)[ti as int]);
        let t = &targets[ti];
        assert(target_wf(targets@[ti as int]));
        let need = stage_need(t.defenders, t.placed, movable, buyable);
        proof {
            assert(order@.take(k + 1).drop_last() == order@.take(k as int));
        }
        if let Some(n) = need {
            if out.len() < cap {
                out.push((ti, n, t.placed));
            }
        }
        k = k + 1;
    }
    proof {
        assert(order@.take(order@.len() as int) == order@);
    }
    (order, out)
}

/// A Strange Device is always assaulted first: whenever an eligible target
/// holds one, the first target of any stable priority order holds one.
pub proof fn lemma_device_first(cut_priority: bool, ts: Seq<AttackTarget>, order: Seq<usize>)
    requires
        targets_wf(ts),
        lists_kept(order, eligible_mask(ts), ts.len() as int),
        is_stably_sorted(hard_attack_keys(cut_priority, ts), order),
        exists|i: int| 0 <= i < ts.len() && assault_eligible(ts[i]) && #[trigger] ts[i].is_device,
    ensures
        order.len() > 0,
        ts[order[0] as int].is_device,
{
    let i = choose|i: int| 0 <= i < ts.len() && assault_eligible(ts[i]) && #[trigger] ts[i].is_device;
    assert(eligible_mask(ts)[i]);
    let a = choose|a: int| 0 <= a < order.len() && order[a] == i;
    assert(order.len() > 0);
    let first = order[0] as int;
    assert(0 <= first < ts.len());
    if a > 0 && !ts[first].is_device {
        let keys = hard_attack_keys(cut_priority, ts);
        assert(!key_lt(keys[order[a] as int], keys[order[0] as int]));
        assert(keys[i] == hard_attack_key(cut_priority, ts[i]));
        assert(keys[first] == hard_attack_key(cut_priority, ts[first]));
        assert(false);
    }
}

/// At most `cap` candidates are offered.
pub proof fn lemma_truncate_len<A>(s: Seq<A>, cap: int)
    requires
        cap >= 0,
    ensures
        truncate(s, cap).len() <= cap,
        truncate(s, cap).len() <= s.len(),
{
}

} // verus!
