//! The gates of the policy's candidate builders: when each macro-action is
//! offered to the network, and on which tile. Affordability checks arrive as
//! the results of the guards in `safety`; everything else is decided here.

use vstd::prelude::*;
use crate::metrics::BuildingKind;
use crate::order::{OrderKey, keys_wf, lists_kept, is_stably_sorted, stable_order};
use crate::assault::truncate;

verus! {

/// The knobs of a difficulty tier that the candidate gates read.
#[derive(Clone, Copy, Debug, PartialEq, Eq, Structural)]
pub struct TierRules {
    /// Max discretionary actions per turn.
    pub budget: i64,
    /// Cash reserve kept before discretionary spend.
    pub reserve: i64,
    /// Allow hiring experts.
    pub experts: bool,
    /// Allow any military.
    pub military: bool,
    /// Allow nuclear plants.
    pub nuclear: bool,
    /// Allow the Strange Device endgame.
    pub device: bool,
}

/// Full strength: training and the hardest tier.
pub open spec fn spec_training_rules() -> TierRules {
    TierRules { budget: 40, reserve: 120, experts: true, military: true, nuclear: true, device: true }
}

pub fn training_rules() -> (r: TierRules)
    ensures
        r == spec_training_rules(),
{
    TierRules { budget: 40, reserve: 120, experts: true, military: true, nuclear: true, device: true }
}

/// The medium tier.
pub open spec fn spec_medium_rules() -> TierRules {
    TierRules { budget: 14, reserve: 160, experts: true, military: true, nuclear: false, device: true }
}

pub fn medium_rules() -> (r: TierRules)
    ensures
        r == spec_medium_rules(),
{
    TierRules { budget: 14, reserve: 160, experts: true, military: true, nuclear: false, device: true }
}

/// The easy tier: no experts, no military, no Device.
pub open spec fn spec_easy_rules() -> TierRules {
    TierRules { budget: 6, reserve: 220, experts: false, military: false, nuclear: false, device: false }
}

pub fn easy_rules() -> (r: TierRules)
    ensures
        r == spec_easy_rules(),
{
    TierRules { budget: 6, reserve: 220, experts: false, military: false, nuclear: false, device: false }
}

/// The first index from `k` on whose flag is set.
pub open spec fn first_true_from(s: Seq<bool>, k: int) -> Option<usize>
    decreases s.len() - k,
{
    if k < 0 || k >= s.len() {
        None
    } else if s[k] {
        Some(k as usize)
    } else {
        first_true_from(s, k + 1)
    }
}

pub open spec fn first_true(s: Seq<bool>) -> Option<usize> {
    first_true_from(s, 0)
}

/// The first set flag.
pub fn find_first(flags: &Vec<bool>) -> (r: Option<usize>)
    ensures
        r == first_true(flags@),
{
    let mut i: usize = 0;
    while i < flags.len()
        invariant
            i <= flags@.len(),
            first_true(flags@) == first_true_from(flags@, i as int),
        decreases flags@.len() - i,
    {
        if flags[i] {
            return Some(i);
        }
        i = i + 1;
    }
    None
}

/// BuildFarm: among the owned empty grassland spots, the first one already
/// worked by a BasicWorker, else the first; offered when the Farm is
/// affordable as an income build and the wood buffer holds.
pub fn farm_spot(spots_staffed: &Vec<bool>, affords_income: bool, wood_buffer: bool) -> (r: Option<usize>)
    ensures
        r == (if spots_staffed@.len() == 0 || !affords_income || !wood_buffer {
            None
        } else {
            match first_true(spots_staffed@) {
                Some(i) => Some(i),
                None => Some(0usize),
            }
        }),
{
    if spots_staffed.len() == 0 || !affords_income || !wood_buffer {
        return None;
    }
    match find_first(spots_staffed) {
        Some(i) => Some(i),
        None => Some(0),
    }
}

/// BuildMine: with at least 300 wood, the first owned free mountain, when
/// the Mine is affordable and the wood buffer holds.
pub fn mine_spot(wood: i64, free_mountains: &Vec<bool>, affords: bool, wood_buffer: bool) -> (r: Option<usize>)
    ensures
        r == (if wood < 300 || !affords || !wood_buffer {
            None
        } else {
            first_true(free_mountains@)
        }),
{
    if wood < 300 || !affords || !wood_buffer {
        return None;
    }
    find_first(free_mountains)
}

/// BuildVillage: the first owned empty grassland, when a forest is free or
/// worked, the net income stays non-negative after the Village's upkeep of
/// 10 (`net_q` in quarter-units), the wood above 100 covers five rounds of the
/// raised wood upkeep (at least 100), and the Village is affordable.
pub fn village_spot(spot: Option<usize>, has_forest: bool, net_q: i128, wood: i64, wood_upkeep: i128, affords: bool) -> (r:
    Option<usize>)
    requires
        -0x1_0000_0000_0000_0000_0000 <= wood_upkeep <= 0x1_0000_0000_0000_0000_0000,
    ensures
        r == (if !has_forest || net_q - 40 < 0 || wood - 100 < (if (wood_upkeep + 10) * 5 > 100 {
            (wood_upkeep + 10) * 5
        } else {
            100
        }) || !affords {
            None::<usize>
        } else {
            spot
        }),
{
    if !has_forest || net_q < 40 {
        return None;
    }
    let post = (wood_upkeep + 10) * 5;
    let buffer: i128 = if post > 100 {
        post
    } else {
        100
    };
    if (wood as i128) - 100 < buffer || !affords {
        return None;
    }
    spot
}

/// What BuildOutpost reads of the game.
#[derive(Clone, Copy, Debug)]
pub struct OutpostGate {
    pub owned_tiles: i64,
    /// Net money per round, in quarter-units.
    pub net_q: i128,
    /// Metal income per round.
    pub metal_income: i128,
    pub outposts: i64,
    /// The first owned empty grassland that can take an Outpost.
    pub spot: Option<usize>,
    /// The raw resources cover the Outpost.
    pub has_enough: bool,
    pub money: i64,
    /// Money entry of the Outpost cost (negative).
    pub cost_money: i64,
}

/// BuildOutpost: with military on, at least 8 tiles, a non-negative net, metal
/// income covering every Outpost's upkeep of 5 after this one, a spot, the raw
/// cost at hand, the net still non-negative after the Outpost's upkeep of 50,
/// and 50 money left after paying.
pub open spec fn spec_outpost_spot(rules: TierRules, v: OutpostGate) -> Option<usize> {
    if !rules.military || v.owned_tiles < 8 || v.net_q < 0 || v.metal_income - (v.outposts + 1) * 5 < 0
        || !v.has_enough || v.net_q - 200 < 0 || v.money + v.cost_money < 50 {
        None
    } else {
        v.spot
    }
}

/// A tier with military off is never offered an Outpost, whatever the board
/// (the easy tier among them). With military on, the Outpost is offered, on
/// the spot found, exactly when the player holds at least 8 tiles, nets at
/// least 50 money per round (its upkeep), has metal income for 5 upkeep per
/// Outpost after this one, the raw cost at hand and 50 money left after paying.
pub proof fn lemma_outpost_offer(rules: TierRules, v: OutpostGate)
    ensures
        !rules.military ==> spec_outpost_spot(rules, v) is None,
        spec_outpost_spot(spec_easy_rules(), v) is None,
        spec_outpost_spot(rules, v) is Some ==> spec_outpost_spot(rules, v) == v.spot,
        (spec_outpost_spot(rules, v) is Some) <==> (rules.military && v.spot is Some && v.owned_tiles >= 8
            && v.net_q >= 4 * 50 && v.metal_income >= 5 * (v.outposts + 1) && v.has_enough && v.money
            + v.cost_money >= 50),
{
}

pub fn outpost_spot(rules: &TierRules, v: &OutpostGate) -> (r: Option<usize>)
    requires
        v.outposts < i64::MAX,
        -0x1_0000_0000_0000_0000_0000 <= v.metal_income <= 0x1_0000_0000_0000_0000_0000,
        -0x1_0000_0000_0000_0000_0000 <= v.net_q <= 0x1_0000_0000_0000_0000_0000,
    ensures
        r == spec_outpost_spot(*rules, *v),
{
    if !rules.military || v.owned_tiles < 8 || v.net_q < 0 {
        return None;
    }
    if v.metal_income - ((v.outposts as i128) + 1) * 5 < 0 {
        return None;
    }
    if !v.has_enough || v.net_q - 200 < 0 {
        return None;
    }
    if (v.money as i128) + (v.cost_money as i128) < 50 {
        return None;
    }
    v.spot
}

/// BuildHydro: with experts on and a positive net, the first buildable owned
/// river, when the plant is affordable (above a reserve of at most 80) and the
/// wood buffer holds.
pub fn hydro_spot(rules: &TierRules, net_q: i128, river: Option<usize>, affords: bool, wood_buffer: bool) -> (r:
    Option<usize>)
    ensures
        r == (if !rules.experts || net_q <= 0 || !affords || !wood_buffer {
            None::<usize>
        } else {
            river
        }),
{
    if !rules.experts || net_q <= 0 || !affords || !wood_buffer {
        return None;
    }
    river
}

/// BuildNuclear: with experts and nuclear on, more than 2600 money and two
/// free unit slots, the first owned empty grassland without a worker, when
/// the plant is affordable and the wood buffer holds.
pub fn nuclear_spot(
    rules: &TierRules,
    money: i64,
    free_units: i64,
    spot: Option<usize>,
    affords: bool,
    wood_buffer: bool,
) -> (r: Option<usize>)
    ensures
        r == (if !rules.experts || !rules.nuclear || money <= 2600 || free_units <= 1 || !affords || !wood_buffer {
            None::<usize>
        } else {
            spot
        }),
{
    if !rules.experts || !rules.nuclear || money <= 2600 || free_units <= 1 || !affords || !wood_buffer {
        return None;
    }
    spot
}

/// The first smallest value (the head of a stable ascending sort).
pub open spec fn is_first_min(values: Seq<i64>, r: Option<usize>) -> bool {
    match r {
        None => values.len() == 0,
        Some(b) => {
            &&& b < values.len()
            &&& forall|i: int|
                0 <= i < values.len() ==> values[b as int] <= #[trigger] values[i] && (i < b ==> values[b as int]
                    < values[i])
        },
    }
}

/// The index of the first smallest value: the safest spot when `values`
/// counts each spot's enemy-bordering neighbours.
pub fn first_min(values: &Vec<i64>) -> (r: Option<usize>)
    ensures
        is_first_min(values@, r),
{
    if values.len() == 0 {
        return None;
    }
    let mut b: usize = 0;
    let mut i: usize = 1;
    while i < values.len()
        invariant
            1 <= i <= values@.len(),
            b < i,
            forall|k: int|
                0 <= k < i ==> values@[b as int] <= #[trigger] values@[k] && (k < b ==> values@[b as int]
                    < values@[k]),
        decreases values@.len() - i,
    {
        if values[i] < values[b] {
            b = i;
        }
        i = i + 1;
    }
    Some(b)
}

/// What BuildStrangeDevice reads of the game.
#[derive(Clone, Copy, Debug)]
pub struct DeviceGate {
    /// A Strange Device stands somewhere (one per game).
    pub has_device: bool,
    pub rounds_played: i64,
    /// No live opponent owns more tiles.
    pub not_losing: bool,
    /// The raw resources cover the Device.
    pub has_enough: bool,
    /// Net money per round, in quarter-units.
    pub net_q: i128,
    pub money: i64,
    /// Money entry of the Device cost (negative).
    pub cost_money: i64,
}

/// BuildStrangeDevice: with the Device on and none standing, from round 18,
/// not losing on tiles, the raw cost at hand, a non-negative net and 150 money
/// left after paying: on the candidate spot (owned, empty, Device-buildable
/// grassland) with the fewest enemy-bordering neighbours, the first among
/// equals.
pub fn device_spot(rules: &TierRules, v: &DeviceGate, spot_borders: &Vec<i64>) -> (r: Option<usize>)
    ensures
        (!rules.device || v.has_device || v.rounds_played < 18 || !v.not_losing || !v.has_enough || v.net_q < 0
            || v.money + v.cost_money < 150) ==> r is None,
        !(!rules.device || v.has_device || v.rounds_played < 18 || !v.not_losing || !v.has_enough || v.net_q < 0
            || v.money + v.cost_money < 150) ==> is_first_min(spot_borders@, r),
{
    if !rules.device || v.has_device || v.rounds_played < 18 || !v.not_losing || !v.has_enough || v.net_q < 0 {
        return None;
    }
    if (v.money as i128) + (v.cost_money as i128) < 150 {
        return None;
    }
    first_min(spot_borders)
}

/// BuildBridge: the first bridgeable owned river, when the raw cost is at
/// hand, the wood buffer holds and the money left covers the reserve.
pub fn bridge_spot(rules: &TierRules, river: Option<usize>, has_enough: bool, wood_buffer: bool, money: i64, cost_money: i64) -> (r:
    Option<usize>)
    ensures
        r == (if !has_enough || !wood_buffer || money + cost_money < rules.reserve {
            None::<usize>
        } else {
            river
        }),
{
    if !has_enough || !wood_buffer || (money as i128) + (cost_money as i128) < (rules.reserve as i128) {
        return None;
    }
    river
}

/// A neutral tile reachable for an Expand candidate.
#[derive(Clone, Copy, Debug, PartialEq, Eq, Structural)]
pub struct ExpandTile {
    pub tile: usize,
    pub unowned: bool,
    pub has_space: bool,
    pub threatened: bool,
    pub claim: i64,
}

pub open spec fn expand_eligible(t: ExpandTile) -> bool {
    t.unowned && t.has_space && !t.threatened
}

/// Highest claim value first, then the lower tile index.
pub open spec fn expand_key(t: ExpandTile) -> OrderKey {
    OrderKey { rank: 0, num: t.claim, den: 1, tie: t.tile as i64 }
}

pub open spec fn expand_keys(ts: Seq<ExpandTile>) -> Seq<OrderKey> {
    ts.map_values(|t: ExpandTile| expand_key(t))
}

pub open spec fn expand_mask(ts: Seq<ExpandTile>) -> Seq<bool> {
    ts.map_values(|t: ExpandTile| expand_eligible(t))
}

/// A fresh scout can be hired: a unit slot is free, the worker is affordable
/// and the net income covers its salary of 5 (`net_q` in quarter-units).
pub fn expand_can_hire(free_units: i64, affords_worker: bool, net_q: i128) -> (r: bool)
    ensures
        r == (free_units > 0 && affords_worker && net_q - 20 >= 0),
{
    free_units > 0 && affords_worker && net_q >= 20
}

/// The Expand candidates: none when no worker can be delivered (no idle
/// worker, no hire, no surplus producer worker); else the eligible tiles
/// (unowned, with room, unthreatened) by claim value, then tile index, at most
/// `cap` of them.
pub fn expand_candidates(tiles: &Vec<ExpandTile>, idle: bool, can_hire: bool, surplus: bool, cap: usize) -> (r: Vec<
    usize,
>)
    requires
        forall|i: int| 0 <= i < tiles@.len() ==> (#[trigger] tiles@[i]).tile <= i64::MAX,
    ensures
        !(idle || can_hire || surplus) ==> r@.len() == 0,
        (idle || can_hire || surplus) ==> exists|full: Seq<usize>|
            lists_kept(full, expand_mask(tiles@), tiles@.len() as int) && is_stably_sorted(expand_keys(tiles@), full)
                && r@ == truncate(full, cap as int),
{
    if !(idle || can_hire || surplus) {
        return Vec::new();
    }
    let mut keys: Vec<OrderKey> = Vec::new();
    let mut keep: Vec<bool> = Vec::new();
    let mut i: usize = 0;
    while i < tiles.len()
        invariant
            i <= tiles@.len(),
            forall|k: int| 0 <= k < tiles@.len() ==> (#[trigger] tiles@[k]).tile <= i64::MAX,
            keys@ == expand_keys(tiles@.take(i as int)),
            keep@ == expand_mask(tiles@.take(i as int)),
            keys_wf(keys@),
        decreases tiles@.len() - i,
    {
        let t = tiles[i];
        assert(tiles@[i as int].tile <= i64::MAX);
        keys.push(OrderKey { rank: 0, num: t.claim, den: 1, tie: t.tile as i64 });
        keep.push(t.unowned && t.has_space && !t.threatened);
        proof {
            assert(tiles@.take(i + 1) == tiles@.take(i as int).push(tiles@[i as int]));
        }
        i = i + 1;
    }
    proof {
        assert(tiles@.take(tiles@.len() as int) == tiles@);
    }
    let full = stable_order(&keys, &keep);
    let mut out: Vec<usize> = Vec::new();
    let mut k: usize = 0;
    while k < full.len() && k < cap
        invariant
            k <= full@.len(),
            k <= cap,
            out@ == full@.take(k as int),
        decreases full@.len() - k,
    {
        out.push(full[k]);
        proof {
            assert(full@.take(k + 1) == full@.take(k as int).push(full@[k as int]));
        }
        k = k + 1;
    }
    proof {
        if full@.len() <= cap {
            assert(full@.take(full@.len() as int) == full@);
        }
        assert(out@ == truncate(full@, cap as int));
    }
    out
}

/// An owned tile as HireSoldier reads it.
#[derive(Clone, Copy, Debug, PartialEq, Eq, Structural)]
pub struct OwnedSlot {
    /// An enemy soldier stands next to it.
    pub threatened: bool,
    /// It has room for a unit.
    pub has_space: bool,
}

/// The first threatened owned tile other than the Headquarters.
pub open spec fn first_threatened_from(slots: Seq<OwnedSlot>, hq: Option<usize>, k: int) -> Option<usize>
    decreases slots.len() - k,
{
    if k < 0 || k >= slots.len() {
        None
    } else if slots[k].threatened && hq != Some(k as usize) {
        Some(k as usize)
    } else {
        first_threatened_from(slots, hq, k + 1)
    }
}

/// The first owned tile with room.
pub open spec fn first_space_from(slots: Seq<OwnedSlot>, k: int) -> Option<usize>
    decreases slots.len() - k,
{
    if k < 0 || k >= slots.len() {
        None
    } else if slots[k].has_space {
        Some(k as usize)
    } else {
        first_space_from(slots, k + 1)
    }
}

/// Where a hired soldier goes: the first threatened tile other than the
/// Headquarters, else the Headquarters, else the first tile with room.
pub open spec fn soldier_tile(slots: Seq<OwnedSlot>, hq: Option<usize>) -> Option<usize> {
    match first_threatened_from(slots, hq, 0) {
        Some(t) => Some(t),
        None => match hq {
            Some(h) => Some(h),
            None => first_space_from(slots, 0),
        },
    }
}

fn first_threatened(slots: &Vec<OwnedSlot>, hq: Option<usize>) -> (r: Option<usize>)
    ensures
        r == first_threatened_from(slots@, hq, 0),
{
    let mut i: usize = 0;
    while i < slots.len()
        invariant
            i <= slots@.len(),
            first_threatened_from(slots@, hq, 0) == first_threatened_from(slots@, hq, i as int),
        decreases slots@.len() - i,
    {
        if slots[i].threatened && hq != Some(i) {
            return Some(i);
        }
        i = i + 1;
    }
    None
}

fn first_space(slots: &Vec<OwnedSlot>) -> (r: Option<usize>)
    ensures
        r == first_space_from(slots@, 0),
{
    let mut i: usize = 0;
    while i < slots.len()
        invariant
            i <= slots@.len(),
            first_space_from(slots@, 0) == first_space_from(slots@, i as int),
        decreases slots@.len() - i,
    {
        if slots[i].has_space {
            return Some(i);
        }
        i = i + 1;
    }
    None
}

proof fn lemma_first_space_in_range(slots: Seq<OwnedSlot>, k: int)
    ensures
        first_space_from(slots, k) matches Some(t) ==> t < slots.len(),
    decreases slots.len() - k,
{
    if 0 <= k < slots.len() && !slots[k].has_space {
        lemma_first_space_in_range(slots, k + 1);
    }
}

proof fn lemma_first_threatened_in_range(slots: Seq<OwnedSlot>, hq: Option<usize>, k: int)
    ensures
        first_threatened_from(slots, hq, k) matches Some(t) ==> t < slots.len(),
    decreases slots.len() - k,
{
    if 0 <= k < slots.len() && !(slots[k].threatened && hq != Some(k as usize)) {
        lemma_first_threatened_in_range(slots, hq, k + 1);
    }
}

/// HireSoldier: with military on, a free soldier slot, 30 metal, the soldier
/// affordable and its salary of 30 covered, the chosen tile when it has room.
pub fn hire_soldier_tile(
    rules: &TierRules,
    free_soldiers: i64,
    metal: i64,
    affords: bool,
    upkeep_ok: bool,
    slots: &Vec<OwnedSlot>,
    hq: Option<usize>,
) -> (r: Option<usize>)
    requires
        hq matches Some(h) ==> h < slots@.len(),
    ensures
        r == (if !rules.military || free_soldiers <= 0 || metal < 30 || !affords || !upkeep_ok {
            None
        } else {
            match soldier_tile(slots@, hq) {
                Some(t) => if slots@[t as int].has_space {
                    Some(t)
                } else {
                    None
                },
                None => None,
            }
        }),
{
    if !rules.military || free_soldiers <= 0 || metal < 30 || !affords || !upkeep_ok {
        return None;
    }
    proof {
        lemma_first_space_in_range(slots@, 0);
        lemma_first_threatened_in_range(slots@, hq, 0);
    }
    let chosen: Option<usize> = match first_threatened(slots, hq) {
        Some(t) => Some(t),
        None => match hq {
            Some(h) => Some(h),
            None => first_space(slots),
        },
    };
    match chosen {
        Some(t) => {
            if slots[t].has_space {
                Some(t)
            } else {
                None
            }
        },
        None => None,
    }
}

/// An owned tile as StackProducer reads it.
#[derive(Clone, Copy, Debug, PartialEq, Eq, Structural)]
pub struct ProducerSlot {
    pub building: Option<BuildingKind>,
    pub has_space: bool,
    pub has_expert: bool,
}

/// A producer that takes more staff: a Mine, Nuclear or Hydro plant with room.
pub open spec fn stackable(s: ProducerSlot) -> bool {
    (s.building == Some(BuildingKind::Mine) || s.building == Some(BuildingKind::Nuclear) || s.building == Some(
        BuildingKind::Hydro,
    )) && s.has_space
}

pub open spec fn first_stackable_from(slots: Seq<ProducerSlot>, k: int) -> Option<usize>
    decreases slots.len() - k,
{
    if k < 0 || k >= slots.len() {
        None
    } else if stackable(slots[k]) {
        Some(k as usize)
    } else {
        first_stackable_from(slots, k + 1)
    }
}

/// StackProducer: with a free unit slot, the first stackable producer; an
/// Expert when experts are on, the plant is not Hydro, has none yet and two
/// slots are free (affordable above the tier's reserve), else a BasicWorker
/// (affordable above the staffing reserve). Returns the tile and whether an
/// Expert is hired.
pub fn stack_producer_choice(
    rules: &TierRules,
    free_units: i64,
    slots: &Vec<ProducerSlot>,
    affords_expert: bool,
    affords_worker: bool,
) -> (r: Option<(usize, bool)>)
    ensures
        r == (if free_units <= 0 {
            None
        } else {
            match first_stackable_from(slots@, 0) {
                None => None,
                Some(t) => {
                    let want_expert = rules.experts && slots@[t as int].building != Some(BuildingKind::Hydro)
                        && !slots@[t as int].has_expert && free_units > 1;
                    if (want_expert && affords_expert) || (!want_expert && affords_worker) {
                        Some((t, want_expert))
                    } else {
                        None
                    }
                },
            }
        }),
{
    if free_units <= 0 {
        return None;
    }
    proof {
        lemma_first_stackable_in_range(slots@, 0);
    }
    match first_stackable(slots) {
        None => None,
        Some(t) => {
            let sl = slots[t];
            let not_hydro = match sl.building {
                Some(BuildingKind::Hydro) => false,
                _ => true,
            };
            let want_expert = rules.experts && not_hydro && !sl.has_expert && free_units > 1;
            if (want_expert && affords_expert) || (!want_expert && affords_worker) {
                Some((t, want_expert))
            } else {
                None
            }
        },
    }
}

fn first_stackable(slots: &Vec<ProducerSlot>) -> (r: Option<usize>)
    ensures
        r == first_stackable_from(slots@, 0),
{
    let mut i: usize = 0;
    while i < slots.len()
        invariant
            i <= slots@.len(),
            first_stackable_from(slots@, 0) == first_stackable_from(slots@, i as int),
        decreases slots@.len() - i,
    {
        let s = slots[i];
        let kind_ok = match s.building {
            Some(BuildingKind::Mine) | Some(BuildingKind::Nuclear) | Some(BuildingKind::Hydro) => true,
            _ => false,
        };
        if kind_ok && s.has_space {
            return Some(i);
        }
        i = i + 1;
    }
    None
}

proof fn lemma_first_stackable_in_range(slots: Seq<ProducerSlot>, k: int)
    ensures
        first_stackable_from(slots, k) matches Some(t) ==> t < slots.len(),
    decreases slots.len() - k,
{
    if 0 <= k < slots.len() && !stackable(slots[k]) {
        lemma_first_stackable_in_range(slots, k + 1);
    }
}

} // verus!
