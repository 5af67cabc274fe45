//! The held-out heuristic opponent (the benchmark CPU): its parameter presets,
//! the per-turn action budget, and the decision rules that gate each phase of
//! its turn, stated over the plain quantities the rules read from the game.

use vstd::prelude::*;
use crate::metrics::{BuildingKind, TileKind};
use crate::safety::{affords, spec_affords};

verus! {

/// Per-difficulty parameters of the heuristic CPU.
#[derive(Debug, Clone, Copy, PartialEq, Eq, Structural)]
pub struct AiParams {
    /// Cash floor kept by every discretionary spend.
    pub reserve: i64,
    /// Successful actions allowed per turn.
    pub max_actions: i64,
    /// Hire Experts (power plants, Mine boosters).
    pub experts: bool,
    /// Field soldiers at all.
    pub military: bool,
    /// HQ garrison size when at war.
    pub garrison: i64,
    /// Neutral tiles claimed per turn.
    pub expand: i64,
    /// Run the attack phase.
    pub attack: bool,
    /// Build Nuclear plants.
    pub nuclear: bool,
    /// Outposts built at most.
    pub max_outposts: i64,
    /// Offensive army goal.
    pub strike_force: i64,
    /// Assaults per turn.
    pub assaults_per_turn: i64,
    /// Gear up for war as soon as any enemy exists.
    pub warmonger: bool,
    /// Order attack targets by the offensive cut value.
    pub cut_priority: bool,
    /// Build the Strange Device when leading.
    pub device: bool,
    /// Build soldier-cap Outposts before first contact.
    pub fortress: bool,
    /// Soldiers massed before opening a front (0 = no gate).
    pub attack_ready_soldiers: i64,
    /// Net money per round required before fielding an army (0 = no gate).
    pub econ_ready_net: i64,
}

/// The HARD preset: the held-out benchmark difficulty.
pub open spec fn spec_hard_params() -> AiParams {
    AiParams { reserve: 140, max_actions: 28, experts: true, military: true, garrison: 3, expand: 5, attack: true, nuclear: true, max_outposts: 5, strike_force: 7, assaults_per_turn: 7, warmonger: false, cut_priority: false, device: true, fortress: false, attack_ready_soldiers: 0, econ_ready_net: 0 }
}

/// The HARD preset: the held-out benchmark difficulty.
pub fn hard_params() -> (r: AiParams)
    ensures
        r == spec_hard_params(),
{
    AiParams { reserve: 140, max_actions: 28, experts: true, military: true, garrison: 3, expand: 5, attack: true, nuclear: true, max_outposts: 5, strike_force: 7, assaults_per_turn: 7, warmonger: false, cut_priority: false, device: true, fortress: false, attack_ready_soldiers: 0, econ_ready_net: 0 }
}

/// The MEDIUM preset.
pub open spec fn spec_medium_params() -> AiParams {
    AiParams { reserve: 110, max_actions: 14, experts: true, military: true, garrison: 2, expand: 3, attack: true, nuclear: false, max_outposts: 2, strike_force: 3, assaults_per_turn: 4, warmonger: false, cut_priority: false, device: true, fortress: false, attack_ready_soldiers: 0, econ_ready_net: 0 }
}

/// The MEDIUM preset.
pub fn medium_params() -> (r: AiParams)
    ensures
        r == spec_medium_params(),
{
    AiParams { reserve: 110, max_actions: 14, experts: true, military: true, garrison: 2, expand: 3, attack: true, nuclear: false, max_outposts: 2, strike_force: 3, assaults_per_turn: 4, warmonger: false, cut_priority: false, device: true, fortress: false, attack_ready_soldiers: 0, econ_ready_net: 0 }
}

/// The EASY preset.
pub open spec fn spec_easy_params() -> AiParams {
    AiParams { reserve: 80, max_actions: 5, experts: false, military: true, garrison: 1, expand: 2, attack: true, nuclear: false, max_outposts: 1, strike_force: 1, assaults_per_turn: 1, warmonger: false, cut_priority: false, device: false, fortress: false, attack_ready_soldiers: 0, econ_ready_net: 0 }
}

/// The EASY preset.
pub fn easy_params() -> (r: AiParams)
    ensures
        r == spec_easy_params(),
{
    AiParams { reserve: 80, max_actions: 5, experts: false, military: true, garrison: 1, expand: 2, attack: true, nuclear: false, max_outposts: 1, strike_force: 1, assaults_per_turn: 1, warmonger: false, cut_priority: false, device: false, fortress: false, attack_ready_soldiers: 0, econ_ready_net: 0 }
}

/// DEVICE-RUSHER: banks a dense economy, lays one precursor Outpost and races the Strange Device.
pub open spec fn spec_device_rush_params() -> AiParams {
    AiParams { reserve: 150, max_actions: 28, experts: true, military: true, garrison: 3, expand: 3, attack: true, nuclear: false, max_outposts: 1, strike_force: 0, assaults_per_turn: 0, warmonger: true, cut_priority: false, device: true, fortress: false, attack_ready_soldiers: 0, econ_ready_net: 0 }
}

/// DEVICE-RUSHER: banks a dense economy, lays one precursor Outpost and races the Strange Device.
pub fn device_rush_params() -> (r: AiParams)
    ensures
        r == spec_device_rush_params(),
{
    AiParams { reserve: 150, max_actions: 28, experts: true, military: true, garrison: 3, expand: 3, attack: true, nuclear: false, max_outposts: 1, strike_force: 0, assaults_per_turn: 0, warmonger: true, cut_priority: false, device: true, fortress: false, attack_ready_soldiers: 0, econ_ready_net: 0 }
}

/// ARMY-RUSHER: maximal soldier capacity, early assaults, no Device.
pub open spec fn spec_army_rush_params() -> AiParams {
    AiParams { reserve: 100, max_actions: 30, experts: true, military: true, garrison: 3, expand: 6, attack: true, nuclear: false, max_outposts: 7, strike_force: 10, assaults_per_turn: 10, warmonger: true, cut_priority: false, device: false, fortress: false, attack_ready_soldiers: 0, econ_ready_net: 0 }
}

/// ARMY-RUSHER: maximal soldier capacity, early assaults, no Device.
pub fn army_rush_params() -> (r: AiParams)
    ensures
        r == spec_army_rush_params(),
{
    AiParams { reserve: 100, max_actions: 30, experts: true, military: true, garrison: 3, expand: 6, attack: true, nuclear: false, max_outposts: 7, strike_force: 10, assaults_per_turn: 10, warmonger: true, cut_priority: false, device: false, fortress: false, attack_ready_soldiers: 0, econ_ready_net: 0 }
}

/// HQ-RUSHER: the army rusher with further-cranked assault knobs.
pub open spec fn spec_hq_rush_params() -> AiParams {
    AiParams { reserve: 80, max_actions: 32, experts: true, military: true, garrison: 2, expand: 5, attack: true, nuclear: false, max_outposts: 7, strike_force: 12, assaults_per_turn: 14, warmonger: true, cut_priority: false, device: false, fortress: false, attack_ready_soldiers: 0, econ_ready_net: 0 }
}

/// HQ-RUSHER: the army rusher with further-cranked assault knobs.
pub fn hq_rush_params() -> (r: AiParams)
    ensures
        r == spec_hq_rush_params(),
{
    AiParams { reserve: 80, max_actions: 32, experts: true, military: true, garrison: 2, expand: 5, attack: true, nuclear: false, max_outposts: 7, strike_force: 12, assaults_per_turn: 14, warmonger: true, cut_priority: false, device: false, fortress: false, attack_ready_soldiers: 0, econ_ready_net: 0 }
}

/// GARRISON-FORTRESS: an unconditional 3-soldier HQ garrison from round 1, no offensive.
pub open spec fn spec_garrison_params() -> AiParams {
    AiParams { reserve: 300, max_actions: 24, experts: true, military: true, garrison: 3, expand: 2, attack: true, nuclear: false, max_outposts: 2, strike_force: 0, assaults_per_turn: 0, warmonger: true, cut_priority: false, device: false, fortress: false, attack_ready_soldiers: 0, econ_ready_net: 0 }
}

/// GARRISON-FORTRESS: an unconditional 3-soldier HQ garrison from round 1, no offensive.
pub fn garrison_params() -> (r: AiParams)
    ensures
        r == spec_garrison_params(),
{
    AiParams { reserve: 300, max_actions: 24, experts: true, military: true, garrison: 3, expand: 2, attack: true, nuclear: false, max_outposts: 2, strike_force: 0, assaults_per_turn: 0, warmonger: true, cut_priority: false, device: false, fortress: false, attack_ready_soldiers: 0, econ_ready_net: 0 }
}

/// MARCHER: marches spare soldiers toward the nearest enemy HQ and assaults hard.
pub open spec fn spec_marcher_params() -> AiParams {
    AiParams { reserve: 80, max_actions: 32, experts: false, military: true, garrison: 1, expand: 4, attack: true, nuclear: false, max_outposts: 2, strike_force: 14, assaults_per_turn: 16, warmonger: true, cut_priority: false, device: false, fortress: false, attack_ready_soldiers: 0, econ_ready_net: 0 }
}

/// MARCHER: marches spare soldiers toward the nearest enemy HQ and assaults hard.
pub fn marcher_params() -> (r: AiParams)
    ensures
        r == spec_marcher_params(),
{
    AiParams { reserve: 80, max_actions: 32, experts: false, military: true, garrison: 1, expand: 4, attack: true, nuclear: false, max_outposts: 2, strike_force: 14, assaults_per_turn: 16, warmonger: true, cut_priority: false, device: false, fortress: false, attack_ready_soldiers: 0, econ_ready_net: 0 }
}

/// EXPERT-STACKED ECONOMY: a pure economy that fronts the Expert tier and Nuclear.
pub open spec fn spec_expert_params() -> AiParams {
    AiParams { reserve: 200, max_actions: 28, experts: true, military: false, garrison: 1, expand: 4, attack: true, nuclear: true, max_outposts: 1, strike_force: 0, assaults_per_turn: 1, warmonger: false, cut_priority: false, device: false, fortress: false, attack_ready_soldiers: 0, econ_ready_net: 0 }
}

/// EXPERT-STACKED ECONOMY: a pure economy that fronts the Expert tier and Nuclear.
pub fn expert_params() -> (r: AiParams)
    ensures
        r == spec_expert_params(),
{
    AiParams { reserve: 200, max_actions: 28, experts: true, military: false, garrison: 1, expand: 4, attack: true, nuclear: true, max_outposts: 1, strike_force: 0, assaults_per_turn: 1, warmonger: false, cut_priority: false, device: false, fortress: false, attack_ready_soldiers: 0, econ_ready_net: 0 }
}

/// RUSHER: the canonical homing missile, with a 220 reserve against soldier upkeep.
pub open spec fn spec_rusher_params() -> AiParams {
    AiParams { reserve: 220, max_actions: 30, experts: true, military: true, garrison: 2, expand: 4, attack: true, nuclear: false, max_outposts: 2, strike_force: 6, assaults_per_turn: 8, warmonger: true, cut_priority: false, device: false, fortress: false, attack_ready_soldiers: 0, econ_ready_net: 0 }
}

/// RUSHER: the canonical homing missile, with a 220 reserve against soldier upkeep.
pub fn rusher_params() -> (r: AiParams)
    ensures
        r == spec_rusher_params(),
{
    AiParams { reserve: 220, max_actions: 30, experts: true, military: true, garrison: 2, expand: 4, attack: true, nuclear: false, max_outposts: 2, strike_force: 6, assaults_per_turn: 8, warmonger: true, cut_priority: false, device: false, fortress: false, attack_ready_soldiers: 0, econ_ready_net: 0 }
}

/// FORTRESS: builds soldier-cap Outposts proactively and never leaves its wall.
pub open spec fn spec_fortress_params() -> AiParams {
    AiParams { reserve: 320, max_actions: 26, experts: true, military: true, garrison: 3, expand: 3, attack: true, nuclear: false, max_outposts: 3, strike_force: 0, assaults_per_turn: 0, warmonger: true, cut_priority: false, device: false, fortress: true, attack_ready_soldiers: 0, econ_ready_net: 0 }
}

/// FORTRESS: builds soldier-cap Outposts proactively and never leaves its wall.
pub fn fortress_params() -> (r: AiParams)
    ensures
        r == spec_fortress_params(),
{
    AiParams { reserve: 320, max_actions: 26, experts: true, military: true, garrison: 3, expand: 3, attack: true, nuclear: false, max_outposts: 3, strike_force: 0, assaults_per_turn: 0, warmonger: true, cut_priority: false, device: false, fortress: true, attack_ready_soldiers: 0, econ_ready_net: 0 }
}

/// STRONG_ARMY: masses 8 soldiers and 120 net income before opening a front.
pub open spec fn spec_strong_army_params() -> AiParams {
    AiParams { reserve: 350, max_actions: 34, experts: true, military: true, garrison: 3, expand: 7, attack: true, nuclear: true, max_outposts: 5, strike_force: 12, assaults_per_turn: 8, warmonger: false, cut_priority: true, device: false, fortress: false, attack_ready_soldiers: 8, econ_ready_net: 120 }
}

/// STRONG_ARMY: masses 8 soldiers and 120 net income before opening a front.
pub fn strong_army_params() -> (r: AiParams)
    ensures
        r == spec_strong_army_params(),
{
    AiParams { reserve: 350, max_actions: 34, experts: true, military: true, garrison: 3, expand: 7, attack: true, nuclear: true, max_outposts: 5, strike_force: 12, assaults_per_turn: 8, warmonger: false, cut_priority: true, device: false, fortress: false, attack_ready_soldiers: 8, econ_ready_net: 120 }
}

/// The cash floor kept when staffing producers.
pub const STAFF_RESERVE: i64 = 20;

/// One call of [`HardAi::do_action`] on a budget: whether the action counts,
/// and the budget left. An action counts when it succeeded and budget remains.
pub open spec fn action_step(budget: int, ok: bool) -> (bool, int) {
    if ok && budget > 0 {
        (true, budget - 1)
    } else {
        (false, budget)
    }
}

/// The actions counted when the outcomes `outcomes` are reported in turn,
/// starting from `budget`.
pub open spec fn actions_counted(budget: int, outcomes: Seq<bool>) -> int
    decreases outcomes.len(),
{
    if outcomes.len() == 0 {
        0
    } else {
        let (r, left) = action_step(budget, outcomes[0]);
        (if r {
            1int
        } else {
            0int
        }) + actions_counted(left, outcomes.drop_first())
    }
}

/// The budget left after the outcomes `outcomes` are reported in turn.
pub open spec fn budget_left(budget: int, outcomes: Seq<bool>) -> int
    decreases outcomes.len(),
{
    if outcomes.len() == 0 {
        budget
    } else {
        budget_left(action_step(budget, outcomes[0]).1, outcomes.drop_first())
    }
}

/// The successful outcomes among `outcomes`.
pub open spec fn successes(outcomes: Seq<bool>) -> int
    decreases outcomes.len(),
{
    if outcomes.len() == 0 {
        0
    } else {
        (if outcomes[0] {
            1int
        } else {
            0int
        }) + successes(outcomes.drop_first())
    }
}

/// The budget is the number of successful actions per turn: whatever actions
/// are attempted and however many of them fail, the actions counted are the
/// successful ones up to the budget (none once it is spent), and the budget
/// left is the budget minus the actions counted.
pub proof fn lemma_budget_counts_successes(budget: int, outcomes: Seq<bool>)
    ensures
        actions_counted(budget, outcomes) == (if budget <= 0 {
            0
        } else if successes(outcomes) < budget {
            successes(outcomes)
        } else {
            budget
        }),
        budget_left(budget, outcomes) == budget - actions_counted(budget, outcomes),
        actions_counted(budget, outcomes) <= (if budget > 0 {
            budget
        } else {
            0
        }),
        0 <= successes(outcomes) <= outcomes.len(),
    decreases outcomes.len(),
{
    if outcomes.len() > 0 {
        lemma_budget_counts_successes(action_step(budget, outcomes[0]).1, outcomes.drop_first());
    }
}

/// The budget a turn starts with: `max_actions`, twelve more in panic mode.
pub open spec fn turn_budget(p: AiParams, enemy_has_device: bool) -> int {
    if enemy_has_device {
        p.max_actions + 12
    } else {
        p.max_actions as int
    }
}

/// `max_actions` is the number of successful actions per turn: after
/// [`HardAi::plan_turn_begin`], a turn counts at most `max_actions` of the
/// actions reported to [`HardAi::do_action`] (twelve more in panic mode), and
/// exactly the successful ones while fewer succeed.
pub proof fn lemma_turn_actions_bounded(p: AiParams, enemy_has_device: bool, outcomes: Seq<bool>)
    ensures
        actions_counted(turn_budget(p, enemy_has_device), outcomes) <= (if turn_budget(
            p,
            enemy_has_device,
        ) > 0 {
            turn_budget(p, enemy_has_device)
        } else {
            0
        }),
        successes(outcomes) < turn_budget(p, enemy_has_device) ==> actions_counted(
            turn_budget(p, enemy_has_device),
            outcomes,
        ) == successes(outcomes),
{
    lemma_budget_counts_successes(turn_budget(p, enemy_has_device), outcomes);
}

/// The heuristic CPU controller: its parameters and the per-turn action budget.
pub struct HardAi {
    params: AiParams,
    budget: i64,
}

impl HardAi {
    /// The controller's parameters.
    pub closed spec fn spec_params(&self) -> AiParams {
        self.params
    }

    /// The actions left this turn.
    pub closed spec fn spec_budget(&self) -> i64 {
        self.budget
    }

    /// The controller's parameters.
    pub fn params(&self) -> (r: AiParams)
        ensures
            r == self.spec_params(),
    {
        self.params
    }

    /// The actions left this turn.
    pub fn budget(&self) -> (r: i64)
        ensures
            r == self.spec_budget(),
    {
        self.budget
    }

    /// A controller with the given parameters and an empty budget.
    pub fn new(params: AiParams) -> (r: Self)
        ensures
            r.spec_params() == params,
            r.spec_budget() == 0,
    {
        HardAi { params, budget: 0 }
    }

    /// The HARD benchmark bot.
    pub fn hard() -> (r: Self)
        ensures
            r.spec_params() == spec_hard_params(),
            r.spec_budget() == 0,
    {
        HardAi::new(hard_params())
    }

    /// HARD with the cut-priority attack ordering.
    pub fn hard_cut() -> (r: Self)
        ensures
            r.spec_params() == (AiParams { cut_priority: true, ..spec_hard_params() }),
            r.spec_budget() == 0,
    {
        let mut p = hard_params();
        p.cut_priority = true;
        HardAi::new(p)
    }

    /// The DEVICE-RUSHER opponent.
    pub fn device_rush() -> (r: Self)
        ensures
            r.spec_params() == spec_device_rush_params(),
            r.spec_budget() == 0,
    {
        HardAi::new(device_rush_params())
    }

    /// The ARMY-RUSHER opponent.
    pub fn army_rush() -> (r: Self)
        ensures
            r.spec_params() == spec_army_rush_params(),
            r.spec_budget() == 0,
    {
        HardAi::new(army_rush_params())
    }

    /// The HQ-RUSHER opponent.
    pub fn hq_rush() -> (r: Self)
        ensures
            r.spec_params() == spec_hq_rush_params(),
            r.spec_budget() == 0,
    {
        HardAi::new(hq_rush_params())
    }

    /// The GARRISON-FORTRESS opponent.
    pub fn garrison_fortress() -> (r: Self)
        ensures
            r.spec_params() == spec_garrison_params(),
            r.spec_budget() == 0,
    {
        HardAi::new(garrison_params())
    }

    /// The EXPERT-STACKED ECONOMY opponent.
    pub fn econ_expert() -> (r: Self)
        ensures
            r.spec_params() == spec_expert_params(),
            r.spec_budget() == 0,
    {
        HardAi::new(expert_params())
    }

    /// The MARCHER opponent.
    pub fn marcher() -> (r: Self)
        ensures
            r.spec_params() == spec_marcher_params(),
            r.spec_budget() == 0,
    {
        HardAi::new(marcher_params())
    }

    /// The canonical RUSHER.
    pub fn rusher() -> (r: Self)
        ensures
            r.spec_params() == spec_rusher_params(),
            r.spec_budget() == 0,
    {
        HardAi::new(rusher_params())
    }

    /// The canonical FORTRESS.
    pub fn fortress() -> (r: Self)
        ensures
            r.spec_params() == spec_fortress_params(),
            r.spec_budget() == 0,
    {
        HardAi::new(fortress_params())
    }

    /// The canonical STRONG_ARMY.
    pub fn strong_army() -> (r: Self)
        ensures
            r.spec_params() == spec_strong_army_params(),
            r.spec_budget() == 0,
    {
        HardAi::new(strong_army_params())
    }


    /// Start of a turn: refill the action budget. In panic mode (an enemy owns
    /// a standing Strange Device) go all-in for the turn: a quarter of the
    /// reserve (at least 40), at least 12 assaults and 12 extra actions. Returns
    /// the parameters to restore with [`HardAi::plan_turn_end`].
    pub fn plan_turn_begin(&mut self, enemy_has_device: bool) -> (saved: AiParams)
        requires
            old(self).spec_params().max_actions <= i64::MAX - 12,
        ensures
            saved == old(self).spec_params(),
            enemy_has_device ==> final(self).spec_params() == (AiParams {
                reserve: if trunc_div(saved.reserve as int, 4) > 40 {
                    trunc_div(saved.reserve as int, 4) as i64
                } else {
                    40
                },
                assaults_per_turn: if saved.assaults_per_turn > 12 {
                    saved.assaults_per_turn
                } else {
                    12
                },
                ..saved
            }) && final(self).spec_budget() == saved.max_actions + 12,
            !enemy_has_device ==> final(self).spec_params() == saved && final(self).spec_budget()
                == saved.max_actions,
            final(self).spec_budget() == turn_budget(saved, enemy_has_device),
    {
        self.budget = self.params.max_actions;
        let saved = self.params;
        if enemy_has_device {
            let quarter = self.params.reserve / 4;
            self.params.reserve = if quarter > 40 {
                quarter
            } else {
                40
            };
            if self.params.assaults_per_turn < 12 {
                self.params.assaults_per_turn = 12;
            }
            self.budget = self.budget + 12;
        }
        saved
    }

    /// End of a turn: restore the parameters saved at the start of the turn
    /// (the controller is reused across turns and games).
    pub fn plan_turn_end(&mut self, saved: AiParams)
        ensures
            final(self).spec_params() == saved,
            final(self).spec_budget() == old(self).spec_budget(),
    {
        self.params = saved;
    }

    /// Count a successful action against the budget. Refuses (and
    /// reports failure) when the budget is exhausted.
    pub fn do_action(&mut self, ok: bool) -> (r: bool)
        ensures
            (r, final(self).spec_budget() as int) == action_step(old(self).spec_budget() as int, ok),
            r == (ok && old(self).spec_budget() > 0),
            final(self).spec_budget() == if r {
                old(self).spec_budget() - 1
            } else {
                old(self).spec_budget() as int
            },
            final(self).spec_params() == old(self).spec_params(),
            old(self).spec_budget() >= 0 ==> final(self).spec_budget() >= 0,
    {
        if self.budget <= 0 {
            return false;
        }
        if ok {
            self.budget = self.budget - 1;
        }
        ok
    }

    /// The turn defers new Farms to bank wood for a Mine: at least two staffed
    /// Farms, a free owned Mountain, and less than 270 wood.
    pub fn saving_for_mine(staffed_farms: i64, free_mountain: bool, wood: i64) -> (r: bool)
        ensures
            r == (staffed_farms >= 2 && free_mountain && wood < 270),
    {
        staffed_farms >= 2 && free_mountain && wood < 270
    }

    /// After the attack phase, march spare soldiers toward the nearest enemy HQ:
    /// for warmongers with a strike force, or for the army-builder once it is
    /// assault-ready.
    pub fn march_phase_due(&self, assault_ready: bool) -> (r: bool)
        ensures
            r == ((self.spec_params().warmonger && self.spec_params().strike_force > 0) || (
            self.spec_params().attack_ready_soldiers > 0 && assault_ready)),
    {
        (self.params.warmonger && self.params.strike_force > 0) || (self.params.attack_ready_soldiers
            > 0 && assault_ready)
    }

    /// Build Outposts before first contact: the turtle always, the device
    /// strategist once the game has matured (round 12) and no Device stands.
    pub fn proactive_outposts(&self, has_strange_device: bool, rounds_played: i64) -> (r: bool)
        ensures
            r == spec_proactive_outposts(self.spec_params(), has_strange_device, rounds_played as int),
    {
        self.params.fortress || (self.params.device && self.params.warmonger && !has_strange_device
            && rounds_played >= 12)
    }

    /// The device strategist's banking window: from round 18, with no Device
    /// standing, not losing on tiles (`not_losing`) and a precursor Outpost
    /// built, discretionary spending is suppressed.
    pub fn banking_for_device(
        &self,
        has_strange_device: bool,
        rounds_played: i64,
        not_losing: bool,
        outposts: i64,
    ) -> (r: bool)
        ensures
            r == (self.spec_params().device && self.spec_params().warmonger && !has_strange_device
                && rounds_played >= 18 && not_losing && outposts >= 1),
    {
        if !(self.params.device && self.params.warmonger) {
            return false;
        }
        if has_strange_device || rounds_played < 18 {
            return false;
        }
        if !not_losing {
            return false;
        }
        outposts >= 1
    }

    /// The device strategist owns a standing Strange Device.
    pub fn holding_own_device(&self, owns_device: bool) -> (r: bool)
        ensures
            r == (self.spec_params().device && self.spec_params().warmonger && owns_device),
    {
        self.params.device && self.params.warmonger && owns_device
    }

    /// Assault-readiness: no gate configured, or an enemy Device stands, or
    /// enough soldiers are massed.
    pub fn assault_ready(&self, enemy_has_device: bool, soldiers: i64) -> (r: bool)
        ensures
            r == spec_assault_ready(self.spec_params(), enemy_has_device, soldiers as int),
    {
        self.params.attack_ready_soldiers <= 0 || enemy_has_device || soldiers
            >= self.params.attack_ready_soldiers
    }

    /// Economy-readiness: no gate configured, or an enemy Device stands, or the
    /// net money per round (`net_q`, quarter-units) reaches the threshold.
    pub fn econ_ready(&self, enemy_has_device: bool, net_q: i128) -> (r: bool)
        ensures
            r == spec_econ_ready(self.spec_params(), enemy_has_device, net_q as int),
    {
        self.params.econ_ready_net <= 0 || enemy_has_device || net_q >= 4 * (
        self.params.econ_ready_net as i128)
    }

    /// Gear up for war: always against an enemy Device; warmongers whenever an
    /// enemy exists, others once an enemy is reachable.
    pub fn should_militarise(&self, enemy_has_device: bool, enemy_exists: bool, reachable_enemy: bool) -> (r:
        bool)
        ensures
            r == spec_should_militarise(self.spec_params(), enemy_has_device, enemy_exists, reachable_enemy),
    {
        if enemy_has_device {
            return true;
        }
        if self.params.warmonger {
            enemy_exists
        } else {
            reachable_enemy
        }
    }

    /// A military is needed: enemy soldiers threaten us, a reachable enemy tile
    /// holds defenders, or an enemy Device stands.
    pub fn military_need(threat: i128, max_defenders: i64, enemy_has_device: bool) -> (r: bool)
        ensures
            r == (threat > 0 || max_defenders > 0 || enemy_has_device),
    {
        threat > 0 || max_defenders > 0 || enemy_has_device
    }

    /// Self-bankruptcy gate: after paying `commit_money_cost`, the money left
    /// covers `buffer_rounds` rounds of the drain including the commit's own new
    /// upkeep.
    pub fn affordable_after_commit(
        money: i64,
        commit_money_cost: i64,
        drain: i64,
        new_upkeep_per_round: i64,
        buffer_rounds: i64,
    ) -> (r: bool)
        requires
            i64::MIN <= money - commit_money_cost <= i64::MAX,
            i64::MIN <= drain + new_upkeep_per_round <= i64::MAX,
            i64::MIN <= buffer_rounds * (drain + new_upkeep_per_round) <= i64::MAX,
        ensures
            r == (money - commit_money_cost >= buffer_rounds * (drain + new_upkeep_per_round)),
    {
        let money_after = money - commit_money_cost;
        let post_drain = drain + new_upkeep_per_round;
        money_after >= buffer_rounds * post_drain
    }

    /// A Farm is affordable: the raw resources suffice and the money left after
    /// the build covers 4 rounds of drain, and at least 40 (80 from the third
    /// Farm on).
    pub fn affords_farm(has_enough: bool, money: i64, cost_money: i64, drain: i128, farm_count: i64) -> (r:
        bool)
        requires
            i64::MIN <= money + cost_money <= i64::MAX,
        ensures
            r == (has_enough && money + cost_money >= (if farm_count < 3 {
                40int
            } else {
                80int
            }) && money + cost_money >= drain * 4),
    {
        if !has_enough {
            return false;
        }
        let after = money + cost_money;
        let floor: i64 = if farm_count < 3 {
            40
        } else {
            80
        };
        if after < floor {
            return false;
        }
        if drain >= 0x1_0000_0000_0000_0000_0000 {
            return false;
        }
        if drain <= -0x1_0000_0000_0000_0000_0000 {
            return true;
        }
        (after as i128) >= drain * 4
    }

    /// Farms built at most: `max(1, unit cap - 2 - Mines)`.
    pub fn max_farms(max_units: i64, mines: i64) -> (r: i64)
        requires
            i64::MIN <= max_units - 2,
            i64::MIN <= max_units - 2 - mines <= i64::MAX,
        ensures
            r == if max_units - 2 - mines > 1 {
                max_units - 2 - mines
            } else {
                1
            },
    {
        let m = max_units - 2 - mines;
        if m > 1 {
            m
        } else {
            1
        }
    }

    /// A new Mine may be started: at least 300 wood and fewer Mines than
    /// `1 + Villages`.
    pub fn mine_slot_open(wood: i64, mines: i64, villages: i64) -> (r: bool)
        requires
            villages < i64::MAX,
        ensures
            r == (wood >= 300 && mines < 1 + villages),
    {
        wood >= 300 && mines < 1 + villages
    }

    /// Nuclear plants wanted once money exceeds 2400: one, plus one per further
    /// 3000.
    pub fn nuclear_want_count(money: i64) -> (r: i64)
        requires
            money > 2400,
        ensures
            r == 1 + (money - 2400) / 3000,
            r >= 1,
    {
        1 + (money - 2400) / 3000
    }

    /// Wood foreseen for pending builds: 250 per Mine-less Mountain, 100 per
    /// empty grassland (at most 4 of them).
    pub fn anticipated_wood_need(mountains_no_mine: i64, empty_grass: i64) -> (r: i64)
        requires
            i64::MIN <= mountains_no_mine * 250 <= i64::MAX,
            i64::MIN <= (if empty_grass < 4 { empty_grass as int } else { 4 }) * 100,
            i64::MIN <= mountains_no_mine * 250 + (if empty_grass < 4 { empty_grass as int } else { 4 })
                * 100 <= i64::MAX,
        ensures
            r == mountains_no_mine * 250 + (if empty_grass < 4 {
                empty_grass as int
            } else {
                4
            }) * 100,
    {
        let g = if empty_grass < 4 {
            empty_grass
        } else {
            4
        };
        mountains_no_mine * 250 + g * 100
    }

    /// Forest harvesters needed for the wood upkeep: one per 40 upkeep (at least
    /// one), plus one more when less than 4 rounds of upkeep are banked.
    /// `upkeep` is positive.
    pub fn wood_harvesters_needed(upkeep: i64, wood: i64) -> (r: i64)
        requires
            0 < upkeep <= i64::MAX / 4,
        ensures
            r == (if (upkeep + 39) / 40 > 1 {
                (upkeep + 39) / 40
            } else {
                1
            }) + if wood < upkeep * 4 {
                1int
            } else {
                0int
            },
    {
        let per = (upkeep + 39) / 40;
        let mut need = if per > 1 {
            per
        } else {
            1
        };
        if wood < upkeep * 4 {
            need = need + 1;
        }
        need
    }

    /// How attractive a neutral tile is to claim: a standing
    /// producer or cap building ranks above bare land; bare land by terrain
    /// (a river that can take a Hydro plant ranks like grassland).
    pub fn claim_value(building: Option<BuildingKind>, tile: TileKind, hydro_buildable: bool) -> (r: i64)
        ensures
            r == spec_claim_value(building, tile, hydro_buildable),
    {
        match building {
            Some(BuildingKind::Mikontalo) => {
                return 6;
            },
            Some(BuildingKind::Mine) => {
                return 7;
            },
            Some(BuildingKind::Nuclear) => {
                return 6;
            },
            Some(BuildingKind::Village) => {
                return 6;
            },
            Some(BuildingKind::Outpost) => {
                return 6;
            },
            Some(BuildingKind::Hydro) => {
                return 5;
            },
            Some(BuildingKind::Farm) => {
                return 5;
            },
            Some(BuildingKind::Bridge) => {
                return 4;
            },
            _ => {},
        }
        match tile {
            TileKind::Mountain => 5,
            TileKind::Grassland => 4,
            TileKind::Forest => 3,
            TileKind::AbundantForest => 2,
            TileKind::River => if hydro_buildable {
                4
            } else {
                1
            },
        }
    }
    /// Whether to build an Outpost this turn. Proactive bots
    /// skip the war gates; every bot needs a free Outpost slot, 8 tiles, net
    /// money of at least 60 per round (50 of it the Outpost's own upkeep), metal
    /// income for one more Outpost's 15 metal, a build spot, the cost with a
    /// reserve of `min(reserve, 100)`, an action left, and cash for 4 rounds of
    /// the drain including the new upkeep.
    pub fn outpost_build_due(&self, v: OutpostView) -> (r: bool)
        requires
            i64::MIN <= v.money + v.cost_money <= i64::MAX,
            i64::MIN <= v.money - (-(v.cost_money as int)) <= i64::MAX,
            v.cost_money > i64::MIN,
            v.drain <= i64::MAX - 50,
            i64::MIN <= 4 * (v.drain + 50) <= i64::MAX,
            v.outposts < i64::MAX,
            i64::MIN <= (v.outposts + 1) * 15 <= i64::MAX,
        ensures
            r == spec_outpost_build_due(self.spec_params(), self.spec_budget() as int, v),
    {
        let p = self.params;
        if p.max_outposts <= 0 || !p.attack {
            return false;
        }
        if !v.proactive {
            if !v.militarise {
                return false;
            }
            if !v.military_need {
                return false;
            }
        }
        if v.outposts >= p.max_outposts {
            return false;
        }
        if v.owned_tiles < 8 {
            return false;
        }
        if v.net_q < 240 {
            return false;
        }
        if v.metal_income < ((v.outposts + 1) * 15) as i128 {
            return false;
        }
        if !v.has_spot {
            return false;
        }
        let reserve = if p.reserve < 100 {
            p.reserve
        } else {
            100
        };
        if !(affords(v.has_enough, v.money, v.cost_money, v.drain as i128, reserve) && self.budget > 0) {
            return false;
        }
        HardAi::affordable_after_commit(v.money, -v.cost_money, v.drain, 50, 4)
    }

    /// Whether to build a Village this turn.
    pub fn village_build_due(&self, v: VillageView) -> (r: bool)
        requires
            i64::MIN <= v.money + v.cost_money <= i64::MAX,
            i64::MIN <= v.money - (-(v.cost_money as int)) <= i64::MAX,
            v.cost_money > i64::MIN,
            v.drain <= i64::MAX - 10,
            i64::MIN <= 4 * (v.drain + 10) <= i64::MAX,
        ensures
            r == spec_village_build_due(self.spec_params(), self.spec_budget() as int, v),
    {
        if v.banking {
            return false;
        }
        if v.free_units > 1 {
            return false;
        }
        if !v.has_spot {
            return false;
        }
        let h3: i128 = 1 + (v.harvesters as i128) * 3;
        let cap: i128 = if h3 < 5 {
            h3
        } else {
            5
        };
        if (v.villages as i128) >= cap {
            return false;
        }
        if !v.has_forest {
            return false;
        }
        if v.net_q < 140 {
            return false;
        }
        let post_upkeep: i128 = (v.wood_upkeep as i128) + 10;
        let wood_buffer: i128 = if post_upkeep * 5 > 100 {
            post_upkeep * 5
        } else {
            100
        };
        if (v.wood as i128) - 200 < wood_buffer {
            return false;
        }
        let stone_upkeep: i128 = ((v.villages as i128) + 1) * 10;
        if v.stone_income < stone_upkeep && (v.stone as i128) - 100 < stone_upkeep * 8 {
            return false;
        }
        if !(affords(v.has_enough, v.money, v.cost_money, v.drain as i128, self.params.reserve)
            && self.budget > 0) {
            return false;
        }
        HardAi::affordable_after_commit(v.money, -v.cost_money, v.drain, 10, 4)
    }

    /// The cash floor demanded before building the Strange Device: for the
    /// device strategist the countdown's net burn (gross drain minus positive
    /// net income, over `countdown` rounds), at least 4 rounds of gross drain and
    /// at least 50; for every other bot 5 rounds of drain. Amounts are rounded up
    /// and saturate at the 64-bit range.
    pub fn device_safety_buffer(&self, drain: i64, net_q: i128, countdown: i64) -> (r: i64)
        ensures
            r == spec_device_safety_buffer(self.spec_params().warmonger, drain as int, net_q as int, countdown as int),
    {
        if self.params.warmonger {
            let pos_q: i128 = if net_q > 0 {
                net_q
            } else {
                0
            };
            let gross_q = 4 * (drain as i128);
            proof {
                assert(gross_q <= 0x2_0000_0000_0000_0000);
            }
            let nd_q: i128 = if gross_q > pos_q {
                gross_q - pos_q
            } else {
                0
            };
            let cushion = sat_ceil_quarter_product(nd_q, countdown);
            let four = sat64_from_i128(4 * (drain as i128));
            let m = if cushion > four {
                cushion
            } else {
                four
            };
            if m > 50 {
                m
            } else {
                50
            }
        } else {
            sat64_from_i128(5 * (drain as i128))
        }
    }

    /// The Device endgame step for this turn: wait, lay
    /// the precursor Outpost, or build the Device.
    pub fn device_step(&self, v: DeviceView) -> (r: DeviceStep)
        requires
            i64::MIN <= v.money + v.device_cost_money <= i64::MAX,
            i64::MIN <= v.money + v.outpost_cost_money <= i64::MAX,
        ensures
            r == spec_device_step(self.spec_params(), self.spec_budget() as int, v),
    {
        if !self.params.device {
            return DeviceStep::Wait;
        }
        if v.has_strange_device {
            return DeviceStep::Wait;
        }
        if v.rounds_played < 18 {
            return DeviceStep::Wait;
        }
        if !v.not_losing {
            return DeviceStep::Wait;
        }
        if !v.has_enough_device {
            return DeviceStep::Wait;
        }
        if v.net_q < 0 {
            return DeviceStep::Wait;
        }
        let after = v.money + v.device_cost_money;
        if after < 150 {
            return DeviceStep::Wait;
        }
        let safety = self.device_safety_buffer(v.drain, v.net_q, v.countdown);
        if after < safety {
            return DeviceStep::Wait;
        }
        if v.outposts < 1 {
            if v.outpost_spot {
                let can_afford = v.has_enough_outpost && v.net_q >= 200 && v.money + v.outpost_cost_money
                    >= 100;
                if can_afford && self.budget > 0 {
                    return DeviceStep::BuildOutpost;
                }
            }
            return DeviceStep::Wait;
        }
        if v.device_spot && self.budget > 0 {
            DeviceStep::BuildDevice
        } else {
            DeviceStep::Wait
        }
    }
}

/// What the Outpost decision reads of the game.
#[derive(Clone, Copy, Debug)]
pub struct OutpostView {
    /// `proactive_outposts` holds.
    pub proactive: bool,
    /// `should_militarise` holds.
    pub militarise: bool,
    /// `military_need` holds.
    pub military_need: bool,
    /// Outposts owned.
    pub outposts: i64,
    /// Tiles owned.
    pub owned_tiles: i64,
    /// Net money per round, in quarter-units.
    pub net_q: i128,
    /// Metal income per round.
    pub metal_income: i128,
    /// An owned empty grassland can take an Outpost.
    pub has_spot: bool,
    /// The raw resources cover an Outpost.
    pub has_enough: bool,
    /// Money held.
    pub money: i64,
    /// Money entry of the Outpost cost (negative).
    pub cost_money: i64,
    /// Money drain per round.
    pub drain: i64,
}

/// What the Village decision reads of the game.
#[derive(Clone, Copy, Debug)]
pub struct VillageView {
    /// `banking_for_device` holds.
    pub banking: bool,
    /// Free unit slots.
    pub free_units: i64,
    /// An owned empty grassland can take a Farm/Village.
    pub has_spot: bool,
    /// Villages owned.
    pub villages: i64,
    /// Owned forests worked by a BasicWorker.
    pub harvesters: i64,
    /// An owned forest is free or worked.
    pub has_forest: bool,
    /// Net money per round, in quarter-units.
    pub net_q: i128,
    /// Wood held.
    pub wood: i64,
    /// Wood upkeep per round.
    pub wood_upkeep: i64,
    /// Stone held.
    pub stone: i64,
    /// Stone income per round.
    pub stone_income: i128,
    /// The raw resources cover a Village.
    pub has_enough: bool,
    /// Money held.
    pub money: i64,
    /// Money entry of the Village cost (negative).
    pub cost_money: i64,
    /// Money drain per round.
    pub drain: i64,
}

/// What the Device decision reads of the game.
#[derive(Clone, Copy, Debug)]
pub struct DeviceView {
    /// A Strange Device stands somewhere.
    pub has_strange_device: bool,
    /// Rounds played.
    pub rounds_played: i64,
    /// No live opponent owns more tiles.
    pub not_losing: bool,
    /// The raw resources cover the Device.
    pub has_enough_device: bool,
    /// Net money per round, in quarter-units.
    pub net_q: i128,
    /// Money held.
    pub money: i64,
    /// Money entry of the Device cost (negative).
    pub device_cost_money: i64,
    /// Money drain per round.
    pub drain: i64,
    /// Rounds of the Device countdown on this board.
    pub countdown: i64,
    /// Outposts owned.
    pub outposts: i64,
    /// A safe empty grassland can take an Outpost.
    pub outpost_spot: bool,
    /// The raw resources cover an Outpost.
    pub has_enough_outpost: bool,
    /// Money entry of the Outpost cost (negative).
    pub outpost_cost_money: i64,
    /// A safe empty grassland can take the Device.
    pub device_spot: bool,
}

/// The Device endgame step.
#[derive(Clone, Copy, Debug, PartialEq, Eq, Structural)]
pub enum DeviceStep {
    Wait,
    BuildOutpost,
    BuildDevice,
}

/// Clamp to the 64-bit signed range (Rust's saturating float-to-int cast).
pub open spec fn sat64(x: int) -> int {
    if x > i64::MAX {
        i64::MAX as int
    } else if x < i64::MIN {
        i64::MIN as int
    } else {
        x
    }
}

/// `ceil(x / 4)`.
pub open spec fn ceil_quarter(x: int) -> int {
    if x >= 0 {
        (x + 3) / 4
    } else {
        -((-x) / 4)
    }
}

fn sat64_from_i128(x: i128) -> (r: i64)
    ensures
        r == sat64(x as int),
{
    if x > i64::MAX as i128 {
        i64::MAX
    } else if x < i64::MIN as i128 {
        i64::MIN
    } else {
        x as i64
    }
}

/// `ceil(nd_q * c / 4)`, saturated.
fn sat_ceil_quarter_product(nd_q: i128, c: i64) -> (r: i64)
    requires
        0 <= nd_q <= 0x2_0000_0000_0000_0000,
    ensures
        r == sat64(ceil_quarter(nd_q * c)),
{
    let big_q: i128 = 0x8000_0000_0000_0000;
    let big_c: i128 = 0x4000_0000_0000_0000;
    let ci = c as i128;
    if nd_q >= big_q && (ci >= big_c || ci <= -big_c) {
        if ci > 0 {
            proof {
                assert(nd_q * c >= big_q * big_c) by (nonlinear_arith)
                    requires
                        nd_q >= big_q,
                        c >= big_c,
                        big_q > 0,
                        big_c > 0,
                ;
                assert(big_q * big_c == 0x2000_0000_0000_0000_0000_0000_0000_0000int);
            }
            return i64::MAX;
        } else {
            proof {
                assert(nd_q * c <= -(big_q * big_c)) by (nonlinear_arith)
                    requires
                        nd_q >= big_q,
                        c <= -big_c,
                        big_q > 0,
                        big_c > 0,
                ;
                assert(big_q * big_c == 0x2000_0000_0000_0000_0000_0000_0000_0000int);
            }
            return i64::MIN;
        }
    }
    proof {
        if nd_q < big_q {
            assert(-(big_q * 0x8000_0000_0000_0000int) <= nd_q * c <= big_q * 0x8000_0000_0000_0000int)
                by (nonlinear_arith)
                requires
                    0 <= nd_q < big_q,
                    -0x8000_0000_0000_0000int <= c < 0x8000_0000_0000_0000int,
            ;
        } else {
            assert(-(0x2_0000_0000_0000_0000int * big_c) < nd_q * c < 0x2_0000_0000_0000_0000int * big_c)
                by (nonlinear_arith)
                requires
                    0 <= nd_q <= 0x2_0000_0000_0000_0000int,
                    -big_c < c < big_c,
                    big_c > 0,
            ;
        }
    }
    let x = nd_q * ci;
    if x >= 0 {
        let q = x / 4;
        let up: i128 = if x % 4 != 0 {
            1
        } else {
            0
        };
        sat64_from_i128(q + up)
    } else {
        sat64_from_i128(-((-x) / 4))
    }
}

/// The Device cash floor.
pub open spec fn spec_device_safety_buffer(warmonger: bool, drain: int, net_q: int, countdown: int) -> int {
    if warmonger {
        let pos_q = if net_q > 0 {
            net_q
        } else {
            0
        };
        let nd_q = if 4 * drain > pos_q {
            4 * drain - pos_q
        } else {
            0
        };
        let cushion = sat64(ceil_quarter(nd_q * countdown));
        let four = sat64(4 * drain);
        let m = if cushion > four {
            cushion
        } else {
            four
        };
        if m > 50 {
            m
        } else {
            50
        }
    } else {
        sat64(5 * drain)
    }
}

/// The Device endgame decision.
pub open spec fn spec_device_step(p: AiParams, budget: int, v: DeviceView) -> DeviceStep {
    let after = v.money + v.device_cost_money;
    if !p.device || v.has_strange_device || v.rounds_played < 18 || !v.not_losing || !v.has_enough_device
        || v.net_q < 0 || after < 150 || after < spec_device_safety_buffer(
        p.warmonger,
        v.drain as int,
        v.net_q as int,
        v.countdown as int,
    ) {
        DeviceStep::Wait
    } else if v.outposts < 1 {
        if v.outpost_spot && v.has_enough_outpost && v.net_q >= 200 && v.money + v.outpost_cost_money >= 100
            && budget > 0 {
            DeviceStep::BuildOutpost
        } else {
            DeviceStep::Wait
        }
    } else if v.device_spot && budget > 0 {
        DeviceStep::BuildDevice
    } else {
        DeviceStep::Wait
    }
}

/// The Outpost build decision.
pub open spec fn spec_outpost_build_due(p: AiParams, budget: int, v: OutpostView) -> bool {
    &&& p.max_outposts > 0 && p.attack
    &&& (v.proactive || (v.militarise && v.military_need))
    &&& v.outposts < p.max_outposts
    &&& v.owned_tiles >= 8
    &&& v.net_q >= 240
    &&& v.metal_income >= (v.outposts + 1) * 15
    &&& v.has_spot
    &&& spec_affords(
        v.has_enough,
        v.money as int,
        v.cost_money as int,
        v.drain as int,
        if p.reserve < 100 {
            p.reserve as int
        } else {
            100
        },
    )
    &&& budget > 0
    &&& v.money + v.cost_money >= 4 * (v.drain + 50)
}

/// The Village build decision.
pub open spec fn spec_village_build_due(p: AiParams, budget: int, v: VillageView) -> bool {
    let cap = if 1 + v.harvesters * 3 < 5 {
        1 + v.harvesters * 3
    } else {
        5
    };
    let post_upkeep = v.wood_upkeep + 10;
    let wood_buffer = if post_upkeep * 5 > 100 {
        post_upkeep * 5
    } else {
        100
    };
    let stone_upkeep = (v.villages + 1) * 10;
    &&& !v.banking
    &&& v.free_units <= 1
    &&& v.has_spot
    &&& v.villages < cap
    &&& v.has_forest
    &&& v.net_q >= 140
    &&& v.wood - 200 >= wood_buffer
    &&& !(v.stone_income < stone_upkeep && v.stone - 100 < stone_upkeep * 8)
    &&& spec_affords(v.has_enough, v.money as int, v.cost_money as int, v.drain as int, p.reserve as int)
    &&& budget > 0
    &&& v.money + v.cost_money >= 4 * (v.drain + 10)
}

/// Outposts before first contact: the turtle always, the device strategist
/// once the game has matured (round 12) while no Device stands.
pub open spec fn spec_proactive_outposts(p: AiParams, has_strange_device: bool, rounds_played: int) -> bool {
    p.fortress || (p.device && p.warmonger && !has_strange_device && rounds_played >= 12)
}

/// Assault-readiness: no gate, an enemy Device, or enough massed soldiers.
pub open spec fn spec_assault_ready(p: AiParams, enemy_has_device: bool, soldiers: int) -> bool {
    p.attack_ready_soldiers <= 0 || enemy_has_device || soldiers >= p.attack_ready_soldiers
}

/// Economy-readiness: no gate, an enemy Device, or enough net income
/// (`net_q` in quarter-units).
pub open spec fn spec_econ_ready(p: AiParams, enemy_has_device: bool, net_q: int) -> bool {
    p.econ_ready_net <= 0 || enemy_has_device || net_q >= 4 * p.econ_ready_net
}

/// Gear up for war.
pub open spec fn spec_should_militarise(p: AiParams, enemy_has_device: bool, enemy_exists: bool, reachable_enemy: bool) -> bool {
    enemy_has_device || if p.warmonger {
        enemy_exists
    } else {
        reachable_enemy
    }
}

/// The shipped presets other than STRONG_ARMY carry no assault or economy gate:
/// they are always assault-ready and economy-ready, whatever the board.
pub proof fn lemma_ungated_presets_always_ready(enemy_has_device: bool, soldiers: int, net_q: int)
    ensures
        forall|p: AiParams|
            #![trigger spec_assault_ready(p, enemy_has_device, soldiers)]
            p == spec_hard_params() || p == spec_medium_params() || p == spec_easy_params() || p
                == spec_device_rush_params() || p == spec_army_rush_params() || p == spec_hq_rush_params() || p
                == spec_garrison_params() || p == spec_marcher_params() || p == spec_expert_params() || p
                == spec_rusher_params() || p == spec_fortress_params() ==> spec_assault_ready(
                p,
                enemy_has_device,
                soldiers,
            ) && spec_econ_ready(p, enemy_has_device, net_q),
{
}

/// STRONG_ARMY opens a front only with 8 massed soldiers or against an enemy
/// Device.
pub proof fn lemma_strong_army_masses_first(enemy_has_device: bool, soldiers: int)
    ensures
        spec_assault_ready(spec_strong_army_params(), enemy_has_device, soldiers) <==> (enemy_has_device
            || soldiers >= 8),
{
}

/// Only the turtle and the device strategist ever build Outposts before first
/// contact: for a bot that is neither, the proactive gate never opens.
pub proof fn lemma_proactive_outposts_gated(p: AiParams, has_strange_device: bool, rounds_played: int)
    requires
        !p.fortress,
        !(p.device && p.warmonger),
    ensures
        !spec_proactive_outposts(p, has_strange_device, rounds_played),
{
}

/// A warmonger is at war whenever any enemy lives; any bot is at war while an
/// enemy Device stands.
pub proof fn lemma_warmonger_always_at_war(p: AiParams, enemy_has_device: bool, reachable_enemy: bool)
    ensures
        p.warmonger ==> spec_should_militarise(p, enemy_has_device, true, reachable_enemy),
        spec_should_militarise(p, true, false, false),
{
}

/// The Device is only ever pursued by a Device bot, from round 18, with no
/// Device standing and while not losing on tiles, with at least 150 money left
/// after its cost and non-negative net income; the Device itself needs a
/// precursor Outpost.
pub proof fn lemma_device_step_gates(p: AiParams, budget: int, v: DeviceView)
    ensures
        spec_device_step(p, budget, v) != DeviceStep::Wait ==> p.device && !v.has_strange_device
            && v.rounds_played >= 18 && v.not_losing && v.has_enough_device && v.net_q >= 0 && v.money
            + v.device_cost_money >= 150 && budget > 0,
        spec_device_step(p, budget, v) == DeviceStep::BuildDevice ==> v.outposts >= 1,
        spec_device_step(p, budget, v) == DeviceStep::BuildOutpost ==> v.outposts < 1,
        spec_device_step(p, budget, v) != DeviceStep::Wait ==> v.money + v.device_cost_money
            >= spec_device_safety_buffer(p.warmonger, v.drain as int, v.net_q as int, v.countdown as int),
        spec_device_step(p, budget, v) == DeviceStep::BuildOutpost ==> v.outpost_spot && v.has_enough_outpost
            && v.net_q >= 200 && v.money + v.outpost_cost_money >= 100,
        spec_device_step(p, budget, v) == DeviceStep::BuildDevice ==> v.device_spot,
        !p.device || v.has_strange_device || budget <= 0 ==> spec_device_step(p, budget, v) == DeviceStep::Wait,
{
}

/// An Outpost is never built beyond the preset's cap, nor without income to
/// carry its upkeep.
pub proof fn lemma_outpost_cap(p: AiParams, budget: int, v: OutpostView)
    ensures
        spec_outpost_build_due(p, budget, v) ==> v.outposts < p.max_outposts && v.net_q >= 240 && budget > 0
            && p.attack && v.owned_tiles >= 8 && v.has_spot && v.has_enough && v.metal_income >= 15 * (v.outposts
            + 1) && v.money + v.cost_money >= 4 * v.drain + 200,
{
}

/// A Village is never built beyond `min(5, 1 + 3 * harvesters)` Villages.
pub proof fn lemma_village_cap(p: AiParams, budget: int, v: VillageView)
    ensures
        spec_village_build_due(p, budget, v) ==> v.villages < 5 && v.villages < 1 + 3 * v.harvesters,
{
}

/// A Village is built exactly when the CPU is not banking for a Device, has at
/// most one free unit slot, an empty grassland and a free or worked forest,
/// stays below its Village cap, earns at least 35 money per round
/// (`net_q >= 140`), keeps 200 wood beyond five rounds of the raised wood
/// upkeep (and at least 300 wood), has the stone income or stock for the new
/// stone upkeep, can pay above its reserve and five rounds of drain and
/// still four rounds of drain plus the new upkeep, and has an action left.
pub proof fn lemma_village_build_rule(p: AiParams, budget: int, v: VillageView)
    ensures
        spec_village_build_due(p, budget, v) <==> {
            &&& !v.banking
            &&& v.free_units <= 1
            &&& v.has_spot
            &&& v.has_forest
            &&& v.villages < 5
            &&& v.villages < 1 + 3 * v.harvesters
            &&& 4 * 35 <= v.net_q
            &&& v.wood >= 300
            &&& v.wood >= 200 + 5 * (v.wood_upkeep + 10)
            &&& (v.stone_income >= 10 * (v.villages + 1) || v.stone >= 100 + 80 * (v.villages + 1))
            &&& v.has_enough
            &&& v.money + v.cost_money >= p.reserve + 5 * v.drain
            &&& v.money + v.cost_money >= 4 * v.drain + 40
            &&& budget > 0
        },
{
}

/// Truncating integer division (Rust's `/` on signed integers).
pub open spec fn trunc_div(x: int, d: int) -> int {
    if x >= 0 {
        x / d
    } else {
        -((-x) / d)
    }
}

/// The claim value of a neutral tile.
pub open spec fn spec_claim_value(building: Option<BuildingKind>, tile: TileKind, hydro_buildable: bool) -> int {
    match building {
        Some(BuildingKind::Mikontalo) => 6,
        Some(BuildingKind::Mine) => 7,
        Some(BuildingKind::Nuclear) => 6,
        Some(BuildingKind::Village) => 6,
        Some(BuildingKind::Outpost) => 6,
        Some(BuildingKind::Hydro) => 5,
        Some(BuildingKind::Farm) => 5,
        Some(BuildingKind::Bridge) => 4,
        _ => match tile {
            TileKind::Mountain => 5,
            TileKind::Grassland => 4,
            TileKind::Forest => 3,
            TileKind::AbundantForest => 2,
            TileKind::River => if hydro_buildable {
                4
            } else {
                1
            },
        },
    }
}

} // verus!
