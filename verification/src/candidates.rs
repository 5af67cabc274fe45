//! The macro-action intents the policy chooses among, and the candidate
//! limits and tile scoring shared by the candidate builders.

use vstd::prelude::*;
use crate::metrics::{BuildingKind, TileKind};
use crate::spatial::{dist_to_enemy_hq, dists_fit, manhattan, manhattan_exec, min_dist_capped};

verus! {

/// Intent of a candidate action; its index (0..=15) is fixed and
/// load-bearing (the network's one-hot intent input).
#[derive(Debug, Clone, Copy, PartialEq, Eq, Structural)]
pub enum Intent {
    BuildFarm,
    BuildMine,
    BuildVillage,
    BuildOutpost,
    BuildHydro,
    BuildNuclear,
    Expand,
    HireSoldier,
    Attack,
    StackProducer,
    Pass,
    /// Build the Strange Device (the decisive endgame).
    BuildStrangeDevice,
    /// Build a Bridge on an owned River tile to unblock expansion.
    BuildBridge,
    /// Attack an enemy-owned Strange Device.
    CrackDevice,
    /// Attack an un-conquered enemy Headquarters.
    CrackHQ,
    /// Relocate one free own Soldier toward the nearest enemy objective.
    MarchSoldier,
}

/// Number of intents.
pub const INTENT_COUNT: usize = 16;
/// Width of a candidate's local feature vector.
pub const LOCAL_DIM: usize = 16;
/// Max distinct Expand target tiles emitted as candidates per turn.
pub const EXPAND_CANDIDATE_CAP: usize = 6;
/// Max distinct feasible Attack target tiles emitted as candidates per turn.
pub const ATTACK_CANDIDATE_CAP: usize = 4;
/// Max distinct MarchSoldier candidates per turn.
pub const MARCH_CANDIDATE_CAP: usize = 4;

/// The fixed index of each intent.
pub open spec fn spec_intent_index(i: Intent) -> int {
    match i {
        Intent::BuildFarm => 0,
        Intent::BuildMine => 1,
        Intent::BuildVillage => 2,
        Intent::BuildOutpost => 3,
        Intent::BuildHydro => 4,
        Intent::BuildNuclear => 5,
        Intent::Expand => 6,
        Intent::HireSoldier => 7,
        Intent::Attack => 8,
        Intent::StackProducer => 9,
        Intent::Pass => 10,
        Intent::BuildStrangeDevice => 11,
        Intent::BuildBridge => 12,
        Intent::CrackDevice => 13,
        Intent::CrackHQ => 14,
        Intent::MarchSoldier => 15,
    }
}

impl Intent {
    /// The intent's fixed index (`intent as usize`).
    pub fn index(&self) -> (r: usize)
        ensures
            r == spec_intent_index(*self),
            r < INTENT_COUNT,
    {
        match self {
            Intent::BuildFarm => 0,
            Intent::BuildMine => 1,
            Intent::BuildVillage => 2,
            Intent::BuildOutpost => 3,
            Intent::BuildHydro => 4,
            Intent::BuildNuclear => 5,
            Intent::Expand => 6,
            Intent::HireSoldier => 7,
            Intent::Attack => 8,
            Intent::StackProducer => 9,
            Intent::Pass => 10,
            Intent::BuildStrangeDevice => 11,
            Intent::BuildBridge => 12,
            Intent::CrackDevice => 13,
            Intent::CrackHQ => 14,
            Intent::MarchSoldier => 15,
        }
    }

    /// The intent with index `i`, if there is one.
    pub fn from_index(i: usize) -> (r: Option<Intent>)
        ensures
            match r {
                Some(it) => spec_intent_index(it) == i,
                None => i >= INTENT_COUNT,
            },
    {
        match i {
            0 => Some(Intent::BuildFarm),
            1 => Some(Intent::BuildMine),
            2 => Some(Intent::BuildVillage),
            3 => Some(Intent::BuildOutpost),
            4 => Some(Intent::BuildHydro),
            5 => Some(Intent::BuildNuclear),
            6 => Some(Intent::Expand),
            7 => Some(Intent::HireSoldier),
            8 => Some(Intent::Attack),
            9 => Some(Intent::StackProducer),
            10 => Some(Intent::Pass),
            11 => Some(Intent::BuildStrangeDevice),
            12 => Some(Intent::BuildBridge),
            13 => Some(Intent::CrackDevice),
            14 => Some(Intent::CrackHQ),
            15 => Some(Intent::MarchSoldier),
            _ => None,
        }
    }
}

/// The index is a bijection between the intents and `0..INTENT_COUNT`.
pub proof fn lemma_intent_index_injective(a: Intent, b: Intent)
    ensures
        0 <= spec_intent_index(a) < INTENT_COUNT,
        spec_intent_index(a) == spec_intent_index(b) ==> a == b,
{
}

/// The claim value of a tile for the Expand candidates: a Mikontalo 6,
/// otherwise by terrain (Mountain 5, Grassland 4, Forest 3, abundant forest 2,
/// River 1).
pub open spec fn spec_claim_value(building: Option<BuildingKind>, tile: TileKind) -> int {
    if building == Some(BuildingKind::Mikontalo) {
        6
    } else {
        match tile {
            TileKind::Mountain => 5,
            TileKind::Grassland => 4,
            TileKind::Forest => 3,
            TileKind::AbundantForest => 2,
            TileKind::River => 1,
        }
    }
}

/// How attractive a tile is to claim.
pub fn claim_value(building: Option<BuildingKind>, tile: TileKind) -> (r: i64)
    ensures
        r == spec_claim_value(building, tile),
{
    match building {
        Some(BuildingKind::Mikontalo) => {
            return 6;
        },
        _ => {},
    }
    match tile {
        TileKind::Mountain => 5,
        TileKind::Grassland => 4,
        TileKind::Forest => 3,
        TileKind::AbundantForest => 2,
        TileKind::River => 1,
    }
}

/// What a candidate does, over tile and unit indices. Build and buy actions
/// name the building or unit by `BuildingKind` or [`UnitKind`].
#[derive(Debug, Clone, Copy, PartialEq, Eq, Structural)]
pub enum Action {
    Build(BuildingKind, usize),
    /// Claim `tile` with an idle worker (unit, from), a fresh hire, or a surplus
    /// producer worker (unit, from).
    Expand { tile: usize, idle: Option<UnitAt>, can_hire: bool, surplus: Option<UnitAt> },
    BuyUnit(UnitKind, usize),
    /// Stage soldiers on `tile` until `needed` stand there (`placed` already do).
    Attack { tile: usize, needed: i64, placed: i64, can_buy: bool },
    March { unit: usize, from: usize, to: usize },
    Pass,
}

/// A unit and the tile it stands on.
#[derive(Debug, Clone, Copy, PartialEq, Eq, Structural)]
pub struct UnitAt {
    pub unit: usize,
    pub from: usize,
}

/// A purchasable unit.
#[derive(Debug, Clone, Copy, PartialEq, Eq, Structural)]
pub enum UnitKind {
    BasicWorker,
    Expert,
    Soldier,
}

/// The tile an action operates on (`None` for Pass).
pub fn candidate_target_tile(a: &Action) -> (r: Option<usize>)
    ensures
        r == match *a {
            Action::Build(_, t) => Some(t),
            Action::Expand { tile, .. } => Some(tile),
            Action::BuyUnit(_, t) => Some(t),
            Action::Attack { tile, .. } => Some(tile),
            Action::March { to, .. } => Some(to),
            Action::Pass => None,
        },
{
    match *a {
        Action::Build(_, t) => Some(t),
        Action::Expand { tile, .. } => Some(tile),
        Action::BuyUnit(_, t) => Some(t),
        Action::Attack { tile, .. } => Some(tile),
        Action::March { to, .. } => Some(to),
        Action::Pass => None,
    }
}

/// How an Expand action reaches its tile.
#[derive(Debug, Clone, Copy, PartialEq, Eq, Structural)]
pub enum ExpandMove {
    /// Move this unit from this tile.
    Move(usize, usize),
    Hire,
    Nothing,
}

/// Executing Expand: move the idle worker unless it already stands on the
/// tile; else hire when allowed; else move the surplus worker unless it
/// already stands there; else nothing.
pub open spec fn spec_expand_move(tile: usize, idle: Option<UnitAt>, can_hire: bool, surplus: Option<UnitAt>) -> ExpandMove {
    let after_idle = if can_hire {
        ExpandMove::Hire
    } else {
        match surplus {
            Some(w) => if w.from != tile {
                ExpandMove::Move(w.unit, w.from)
            } else {
                ExpandMove::Nothing
            },
            None => ExpandMove::Nothing,
        }
    };
    match idle {
        Some(w) => if w.from != tile {
            ExpandMove::Move(w.unit, w.from)
        } else {
            after_idle
        },
        None => after_idle,
    }
}

pub fn expand_move(tile: usize, idle: Option<UnitAt>, can_hire: bool, surplus: Option<UnitAt>) -> (r: ExpandMove)
    ensures
        r == spec_expand_move(tile, idle, can_hire, surplus),
{
    if let Some(w) = idle {
        if w.from != tile {
            return ExpandMove::Move(w.unit, w.from);
        }
    }
    if can_hire {
        return ExpandMove::Hire;
    }
    if let Some(w) = surplus {
        if w.from != tile {
            return ExpandMove::Move(w.unit, w.from);
        }
    }
    ExpandMove::Nothing
}

/// The policy's turn loop: while actions remain it asks for a decision; a
/// Pass ends the turn; a failed action is retried once on the candidates
/// without it (if more than one remain), and a failed retry ends the turn.
pub struct PolicyTurn {
    budget: i64,
}

/// What the turn loop does after an executed choice.
#[derive(Debug, Clone, Copy, PartialEq, Eq, Structural)]
pub enum AfterExecute {
    /// The action counted; staff income and decide again.
    Next,
    /// Choose again without the failed candidate.
    Retry,
    /// End the turn.
    Stop,
}

impl PolicyTurn {
    pub closed spec fn budget_view(&self) -> i64 {
        self.budget
    }

    /// A turn with `budget` discretionary actions.
    pub fn new(budget: i64) -> (r: Self)
        ensures
            r.budget_view() == budget,
    {
        PolicyTurn { budget }
    }

    /// Another decision is made while actions remain.
    pub fn wants_decision(&self) -> (r: bool)
        ensures
            r == (self.budget_view() > 0),
    {
        self.budget > 0
    }

    /// After executing the chosen candidate out of `candidates`: success
    /// spends an action; failure retries when more than one candidate would
    /// remain without it, else ends the turn.
    pub fn after_execute(&mut self, ok: bool, candidates: usize) -> (r: AfterExecute)
        requires
            old(self).budget_view() > i64::MIN,
        ensures
            r == (if ok {
                AfterExecute::Next
            } else if candidates - 1 <= 1 {
                AfterExecute::Stop
            } else {
                AfterExecute::Retry
            }),
            final(self).budget_view() == if ok {
                old(self).budget_view() - 1
            } else {
                old(self).budget_view() as int
            },
    {
        if ok {
            self.budget = self.budget - 1;
            AfterExecute::Next
        } else if candidates <= 2 {
            AfterExecute::Stop
        } else {
            AfterExecute::Retry
        }
    }

    /// After executing the retried candidate: success spends an action and
    /// continues, failure ends the turn.
    pub fn after_retry(&mut self, ok: bool) -> (r: bool)
        requires
            old(self).budget_view() > i64::MIN,
        ensures
            r == ok,
            final(self).budget_view() == if ok {
                old(self).budget_view() - 1
            } else {
                old(self).budget_view() as int
            },
    {
        if ok {
            self.budget = self.budget - 1;
        }
        ok
    }
}

/// How many of `owners` are an enemy's (another player's), `me`'s, or nobody's.
pub open spec fn count_enemy(owners: Seq<Option<usize>>, me: usize) -> int
    decreases owners.len(),
{
    if owners.len() == 0 {
        0
    } else {
        count_enemy(owners.drop_last(), me) + if owners.last() matches Some(o) && o != me {
            1int
        } else {
            0
        }
    }
}

pub open spec fn count_own(owners: Seq<Option<usize>>, me: usize) -> int
    decreases owners.len(),
{
    if owners.len() == 0 {
        0
    } else {
        count_own(owners.drop_last(), me) + if owners.last() == Some(me) {
            1int
        } else {
            0
        }
    }
}

pub open spec fn count_neutral(owners: Seq<Option<usize>>) -> int
    decreases owners.len(),
{
    if owners.len() == 0 {
        0
    } else {
        count_neutral(owners.drop_last()) + if owners.last() is None {
            1int
        } else {
            0
        }
    }
}

proof fn lemma_counts_bounded(owners: Seq<Option<usize>>, me: usize)
    ensures
        0 <= count_enemy(owners, me) <= owners.len(),
        0 <= count_own(owners, me) <= owners.len(),
        0 <= count_neutral(owners) <= owners.len(),
    decreases owners.len(),
{
    if owners.len() > 0 {
        lemma_counts_bounded(owners.drop_last(), me);
    }
}

/// The positional counts of a candidate's target tile for player `me`.
#[derive(Clone, Copy, Debug, PartialEq, Eq, Structural)]
pub struct TilePosition {
    /// Neighbours owned by another player.
    pub enemy_neighbors: i64,
    /// Neighbours owned by `me`.
    pub own_neighbors: i64,
    /// Neighbours owned by nobody.
    pub neutral_neighbors: i64,
    /// Manhattan distance to `me`'s Headquarters; 99 without one.
    pub dist_own_hq: i32,
    /// Manhattan distance to the nearest enemy-owned tile, at most 99; 99
    /// without one.
    pub dist_nearest_enemy: i32,
}

/// The positional counts of the tile at `at`: the owners of its neighbours
/// (`neighbour_owners`), its distance to `me`'s Headquarters (`own_hq`) and to
/// the nearest of the enemy-owned tiles (`enemy_tiles`).
pub fn tile_position(
    me: usize,
    at: (i32, i32),
    neighbour_owners: &Vec<Option<usize>>,
    own_hq: Option<(i32, i32)>,
    enemy_tiles: &Vec<(i32, i32)>,
) -> (r: TilePosition)
    requires
        neighbour_owners@.len() <= i64::MAX,
        own_hq matches Some(h) ==> manhattan(at, h) <= i32::MAX,
        dists_fit(at, enemy_tiles@),
    ensures
        r.enemy_neighbors == count_enemy(neighbour_owners@, me),
        r.own_neighbors == count_own(neighbour_owners@, me),
        r.neutral_neighbors == count_neutral(neighbour_owners@),
        r.dist_own_hq == match own_hq {
            Some(h) => manhattan(at, h),
            None => 99,
        },
        r.dist_nearest_enemy == min_dist_capped(at, enemy_tiles@),
{
    let mut enemy: i64 = 0;
    let mut own: i64 = 0;
    let mut neutral: i64 = 0;
    let mut i: usize = 0;
    while i < neighbour_owners.len()
        invariant
            i <= neighbour_owners@.len(),
            neighbour_owners@.len() <= i64::MAX,
            enemy == count_enemy(neighbour_owners@.take(i as int), me),
            own == count_own(neighbour_owners@.take(i as int), me),
            neutral == count_neutral(neighbour_owners@.take(i as int)),
        decreases neighbour_owners@.len() - i,
    {
        proof {
            let t = neighbour_owners@.take(i as int);
            assert(neighbour_owners@.take(i + 1).drop_last() == t);
            lemma_counts_bounded(t, me);
        }
        match neighbour_owners[i] {
            None => {
                neutral = neutral + 1;
            },
            Some(o) => {
                if o == me {
                    own = own + 1;
                } else {
                    enemy = enemy + 1;
                }
            },
        }
        i = i + 1;
    }
    proof {
        assert(neighbour_owners@.take(neighbour_owners@.len() as int) == neighbour_owners@);
    }
    let dist_own_hq = match own_hq {
        Some(h) => manhattan_exec(at, h),
        None => 99,
    };
    TilePosition {
        enemy_neighbors: enemy,
        own_neighbors: own,
        neutral_neighbors: neutral,
        dist_own_hq,
        dist_nearest_enemy: dist_to_enemy_hq(at.0, at.1, enemy_tiles),
    }
}

/// The positions of the tiles owned by a player other than `me`, in board
/// order (`tiles` lists each tile's owner and position).
pub open spec fn enemy_coords(tiles: Seq<(Option<usize>, (i32, i32))>, me: usize) -> Seq<(i32, i32)>
    decreases tiles.len(),
{
    if tiles.len() == 0 {
        seq![]
    } else {
        let rest = enemy_coords(tiles.drop_last(), me);
        if tiles.last().0 matches Some(o) && o != me {
            rest.push(tiles.last().1)
        } else {
            rest
        }
    }
}

/// The positions of every enemy-owned tile.
pub fn enemy_tile_coords(tiles: &Vec<(Option<usize>, (i32, i32))>, me: usize) -> (r: Vec<(i32, i32)>)
    ensures
        r@ == enemy_coords(tiles@, me),
{
    let mut out: Vec<(i32, i32)> = Vec::new();
    let mut i: usize = 0;
    while i < tiles.len()
        invariant
            i <= tiles@.len(),
            out@ == enemy_coords(tiles@.take(i as int), me),
        decreases tiles@.len() - i,
    {
        proof {
            assert(tiles@.take(i + 1).drop_last() == tiles@.take(i as int));
        }
        let (owner, at) = tiles[i];
        match owner {
            Some(o) => {
                if o != me {
                    out.push(at);
                }
            },
            None => {},
        }
        i = i + 1;
    }
    proof {
        assert(tiles@.take(tiles@.len() as int) == tiles@);
    }
    out
}

/// The own soldiers among the soldiers next to an attack target, given each
/// one's owner: the attack candidates' frontier count.
pub fn own_soldier_count(soldier_owners: &Vec<Option<usize>>, me: usize) -> (r: i64)
    requires
        soldier_owners@.len() <= i64::MAX,
    ensures
        r == count_own(soldier_owners@, me),
{
    let mut n: i64 = 0;
    let mut i: usize = 0;
    while i < soldier_owners.len()
        invariant
            i <= soldier_owners@.len(),
            soldier_owners@.len() <= i64::MAX,
            n == count_own(soldier_owners@.take(i as int), me),
        decreases soldier_owners@.len() - i,
    {
        proof {
            let t = soldier_owners@.take(i as int);
            assert(soldier_owners@.take(i + 1).drop_last() == t);
            lemma_counts_bounded(t, me);
        }
        if soldier_owners[i] == Some(me) {
            n = n + 1;
        }
        i = i + 1;
    }
    proof {
        assert(soldier_owners@.take(soldier_owners@.len() as int) == soldier_owners@);
    }
    n
}

} // verus!
