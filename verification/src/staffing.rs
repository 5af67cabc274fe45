//! Staffing decisions of the heuristic CPU and the policy's safety scaffold:
//! where a spare worker is taken from, what each producer still needs, and
//! when a new Farm, power plant or Nuclear plant is started.

use vstd::prelude::*;
use crate::metrics::{BuildingKind, TileKind};
use crate::hard_ai::HardAi;

verus! {

/// An owned tile as the staffing rules read it.
#[derive(Clone, Copy, Debug, PartialEq, Eq, Structural)]
pub struct StaffTile {
    pub kind: TileKind,
    pub building: Option<BuildingKind>,
    /// BasicWorkers standing on the tile.
    pub workers: u32,
    pub has_expert: bool,
    /// Room for another unit.
    pub has_space: bool,
}

/// The first tile from `k` on that `p` accepts.
pub open spec fn first_match(s: Seq<StaffTile>, p: spec_fn(StaffTile) -> bool, k: int) -> Option<usize>
    decreases s.len() - k,
{
    if k < 0 || k >= s.len() {
        None
    } else if p(s[k]) {
        Some(k as usize)
    } else {
        first_match(s, p, k + 1)
    }
}

/// The last tile that `p` accepts.
pub open spec fn last_match(s: Seq<StaffTile>, p: spec_fn(StaffTile) -> bool, k: int) -> Option<usize>
    decreases k,
{
    if k <= 0 || k > s.len() {
        None
    } else if p(s[k - 1]) {
        Some((k - 1) as usize)
    } else {
        last_match(s, p, k - 1)
    }
}

/// How many tiles among the first `k` that `p` accepts.
pub open spec fn count_match(s: Seq<StaffTile>, p: spec_fn(StaffTile) -> bool, k: int) -> int
    decreases k,
{
    if k <= 0 || k > s.len() {
        0
    } else {
        count_match(s, p, k - 1) + if p(s[k - 1]) {
            1int
        } else {
            0
        }
    }
}

pub open spec fn is_producer_plant(b: Option<BuildingKind>) -> bool {
    b == Some(BuildingKind::Mine) || b == Some(BuildingKind::Nuclear) || b == Some(BuildingKind::Hydro)
}

/// A worker idles on plain land: no building, not a forest.
pub open spec fn idle_plain() -> spec_fn(StaffTile) -> bool {
    |t: StaffTile| t.building is None && t.kind != TileKind::Forest && t.kind != TileKind::AbundantForest && t.workers > 0
}

/// A Mine or power plant holding more than one worker.
pub open spec fn surplus_plant() -> spec_fn(StaffTile) -> bool {
    |t: StaffTile| is_producer_plant(t.building) && t.workers > 1
}

/// A forest with a worker.
pub open spec fn worked_forest() -> spec_fn(StaffTile) -> bool {
    |t: StaffTile| t.kind == TileKind::Forest && t.workers > 0
}

/// Any forest (plain or abundant) with a worker.
pub open spec fn worked_any_forest() -> spec_fn(StaffTile) -> bool {
    |t: StaffTile| (t.kind == TileKind::Forest || t.kind == TileKind::AbundantForest) && t.workers > 0
}

/// A Farm with a worker.
pub open spec fn staffed_farm() -> spec_fn(StaffTile) -> bool {
    |t: StaffTile| t.building == Some(BuildingKind::Farm) && t.workers > 0
}

/// A mountain without a building.
pub open spec fn free_mountain() -> spec_fn(StaffTile) -> bool {
    |t: StaffTile| t.kind == TileKind::Mountain && t.building is None
}

fn idle_plain_at(t: &StaffTile) -> (r: bool)
    ensures
        r == idle_plain()(*t),
{
    t.building.is_none() && t.kind != TileKind::Forest && t.kind != TileKind::AbundantForest && t.workers > 0
}

fn surplus_plant_at(t: &StaffTile) -> (r: bool)
    ensures
        r == surplus_plant()(*t),
{
    let plant = match t.building {
        Some(BuildingKind::Mine) | Some(BuildingKind::Nuclear) | Some(BuildingKind::Hydro) => true,
        _ => false,
    };
    plant && t.workers > 1
}

fn worked_forest_at(t: &StaffTile) -> (r: bool)
    ensures
        r == worked_forest()(*t),
{
    t.kind == TileKind::Forest && t.workers > 0
}

fn worked_any_forest_at(t: &StaffTile) -> (r: bool)
    ensures
        r == worked_any_forest()(*t),
{
    (t.kind == TileKind::Forest || t.kind == TileKind::AbundantForest) && t.workers > 0
}

fn staffed_farm_at(t: &StaffTile) -> (r: bool)
    ensures
        r == staffed_farm()(*t),
{
    t.building == Some(BuildingKind::Farm) && t.workers > 0
}

fn free_mountain_at(t: &StaffTile) -> (r: bool)
    ensures
        r == free_mountain()(*t),
{
    t.kind == TileKind::Mountain && t.building.is_none()
}

/// The tile an idle worker stands on: no building, not a forest.
pub fn idle_on_plain(tiles: &Vec<StaffTile>) -> (r: Option<usize>)
    ensures
        r == first_match(tiles@, idle_plain(), 0),
{
    let mut i: usize = 0;
    while i < tiles.len()
        invariant
            i <= tiles@.len(),
            first_match(tiles@, idle_plain(), 0) == first_match(tiles@, idle_plain(), i as int),
        decreases tiles@.len() - i,
    {
        if idle_plain_at(&tiles[i]) {
            return Some(i);
        }
        i = i + 1;
    }
    None
}

/// A worker that is not staffing a producer, on a tile other than `exclude`.
pub open spec fn spare_at(exclude: usize) -> spec_fn(StaffTile) -> bool {
    |t: StaffTile|
        !(t.building == Some(BuildingKind::Farm) || is_producer_plant(t.building)) && t.workers > 0
}

/// The first tile other than `exclude` whose worker staffs no producer.
pub open spec fn spare_from(s: Seq<StaffTile>, exclude: usize, k: int) -> Option<usize>
    decreases s.len() - k,
{
    if k < 0 || k >= s.len() {
        None
    } else if k != exclude && spare_at(exclude)(s[k]) {
        Some(k as usize)
    } else {
        spare_from(s, exclude, k + 1)
    }
}

/// A worker to relocate onto `exclude`: on another tile, staffing no Farm,
/// Mine or power plant.
pub fn spare_worker(tiles: &Vec<StaffTile>, exclude: usize) -> (r: Option<usize>)
    ensures
        r == spare_from(tiles@, exclude, 0),
{
    let mut i: usize = 0;
    while i < tiles.len()
        invariant
            i <= tiles@.len(),
            spare_from(tiles@, exclude, 0) == spare_from(tiles@, exclude, i as int),
        decreases tiles@.len() - i,
    {
        let t = &tiles[i];
        let producer = match t.building {
            Some(BuildingKind::Farm) | Some(BuildingKind::Mine) | Some(BuildingKind::Nuclear) | Some(
                BuildingKind::Hydro,
            ) => true,
            _ => false,
        };
        if i != exclude && !producer && t.workers > 0 {
            return Some(i);
        }
        i = i + 1;
    }
    None
}

fn first_surplus_plant(tiles: &Vec<StaffTile>) -> (r: Option<usize>)
    ensures
        r == first_match(tiles@, surplus_plant(), 0),
{
    let mut i: usize = 0;
    while i < tiles.len()
        invariant
            i <= tiles@.len(),
            first_match(tiles@, surplus_plant(), 0) == first_match(tiles@, surplus_plant(), i as int),
        decreases tiles@.len() - i,
    {
        if surplus_plant_at(&tiles[i]) {
            return Some(i);
        }
        i = i + 1;
    }
    None
}

fn first_worked_forest(tiles: &Vec<StaffTile>) -> (r: Option<usize>)
    ensures
        r == first_match(tiles@, worked_forest(), 0),
{
    let mut i: usize = 0;
    while i < tiles.len()
        invariant
            i <= tiles@.len(),
            first_match(tiles@, worked_forest(), 0) == first_match(tiles@, worked_forest(), i as int),
        decreases tiles@.len() - i,
    {
        if worked_forest_at(&tiles[i]) {
            return Some(i);
        }
        i = i + 1;
    }
    None
}

/// A worker that can leave its producer: the last worker of a Mine or power
/// plant holding two or more, else (with 350 wood banked) a forest harvester.
pub open spec fn spec_surplus_worker(s: Seq<StaffTile>, wood: i64) -> Option<usize> {
    match first_match(s, surplus_plant(), 0) {
        Some(t) => Some(t),
        None => if wood >= 350 {
            first_match(s, worked_forest(), 0)
        } else {
            None
        },
    }
}

pub fn surplus_producer_worker(tiles: &Vec<StaffTile>, wood: i64) -> (r: Option<usize>)
    ensures
        r == spec_surplus_worker(tiles@, wood),
{
    match first_surplus_plant(tiles) {
        Some(t) => Some(t),
        None => if wood >= 350 {
            first_worked_forest(tiles)
        } else {
            None
        },
    }
}

fn any_free_mountain(tiles: &Vec<StaffTile>) -> (r: bool)
    ensures
        r == (first_match(tiles@, free_mountain(), 0) is Some),
{
    let mut i: usize = 0;
    while i < tiles.len()
        invariant
            i <= tiles@.len(),
            first_match(tiles@, free_mountain(), 0) == first_match(tiles@, free_mountain(), i as int),
        decreases tiles@.len() - i,
    {
        if free_mountain_at(&tiles[i]) {
            return true;
        }
        i = i + 1;
    }
    false
}

fn first_worked_any_forest(tiles: &Vec<StaffTile>) -> (r: Option<usize>)
    ensures
        r == first_match(tiles@, worked_any_forest(), 0),
{
    let mut i: usize = 0;
    while i < tiles.len()
        invariant
            i <= tiles@.len(),
            first_match(tiles@, worked_any_forest(), 0) == first_match(tiles@, worked_any_forest(), i as int),
        decreases tiles@.len() - i,
    {
        if worked_any_forest_at(&tiles[i]) {
            return Some(i);
        }
        i = i + 1;
    }
    None
}

/// An idle worker for expansion: one idling on plain land; failing that, when
/// wood is no longer needed (350 banked and no free mountain awaits a Mine), a
/// forest harvester.
pub open spec fn spec_idle_worker(s: Seq<StaffTile>, wood: i64) -> Option<usize> {
    match first_match(s, idle_plain(), 0) {
        Some(t) => Some(t),
        None => if wood < 350 || first_match(s, free_mountain(), 0) is Some {
            None
        } else {
            first_match(s, worked_any_forest(), 0)
        },
    }
}

pub fn idle_worker(tiles: &Vec<StaffTile>, wood: i64) -> (r: Option<usize>)
    ensures
        r == spec_idle_worker(tiles@, wood),
{
    match idle_on_plain(tiles) {
        Some(t) => Some(t),
        None => if wood < 350 || any_free_mountain(tiles) {
            None
        } else {
            first_worked_any_forest(tiles)
        },
    }
}

fn staffed_farms(tiles: &Vec<StaffTile>) -> (r: (usize, Option<usize>))
    ensures
        r.0 == count_match(tiles@, staffed_farm(), tiles@.len() as int),
        r.1 == last_match(tiles@, staffed_farm(), tiles@.len() as int),
{
    let mut n: usize = 0;
    let mut last: Option<usize> = None;
    let mut i: usize = 0;
    while i < tiles.len()
        invariant
            i <= tiles@.len(),
            n == count_match(tiles@, staffed_farm(), i as int),
            n <= i,
            last == last_match(tiles@, staffed_farm(), i as int),
        decreases tiles@.len() - i,
    {
        if staffed_farm_at(&tiles[i]) {
            n = n + 1;
            last = Some(i);
        }
        i = i + 1;
    }
    (n, last)
}

/// A worker the wood supply may take (the heuristic CPU): an idle one, else a
/// surplus producer worker, else the worker of the last staffed Farm when two
/// or more are staffed.
pub open spec fn spec_expendable_hard(s: Seq<StaffTile>, wood: i64) -> Option<usize> {
    match first_match(s, idle_plain(), 0) {
        Some(t) => Some(t),
        None => match spec_surplus_worker(s, wood) {
            Some(t) => Some(t),
            None => if count_match(s, staffed_farm(), s.len() as int) >= 2 {
                last_match(s, staffed_farm(), s.len() as int)
            } else {
                None
            },
        },
    }
}

pub fn expendable_worker_hard(tiles: &Vec<StaffTile>, wood: i64) -> (r: Option<usize>)
    ensures
        r == spec_expendable_hard(tiles@, wood),
{
    if let Some(t) = idle_on_plain(tiles) {
        return Some(t);
    }
    if let Some(t) = surplus_producer_worker(tiles, wood) {
        return Some(t);
    }
    let (n, last) = staffed_farms(tiles);
    if n >= 2 {
        last
    } else {
        None
    }
}

/// A worker the policy's scaffold may take: an idle one, else the last worker
/// of a Mine or power plant holding two or more, else the worker of the last
/// staffed Farm when two or more are staffed.
pub open spec fn spec_expendable_policy(s: Seq<StaffTile>) -> Option<usize> {
    match first_match(s, idle_plain(), 0) {
        Some(t) => Some(t),
        None => match first_match(s, surplus_plant(), 0) {
            Some(t) => Some(t),
            None => if count_match(s, staffed_farm(), s.len() as int) >= 2 {
                last_match(s, staffed_farm(), s.len() as int)
            } else {
                None
            },
        },
    }
}

pub fn expendable_worker_policy(tiles: &Vec<StaffTile>) -> (r: Option<usize>)
    ensures
        r == spec_expendable_policy(tiles@),
{
    if let Some(t) = idle_on_plain(tiles) {
        return Some(t);
    }
    if let Some(t) = first_surplus_plant(tiles) {
        return Some(t);
    }
    let (n, last) = staffed_farms(tiles);
    if n >= 2 {
        last
    } else {
        None
    }
}

/// What staffing does for one owned tile.
#[derive(Clone, Copy, Debug, PartialEq, Eq, Structural)]
pub enum StaffStep {
    /// Hire a BasicWorker onto it.
    HireWorker,
    /// Make sure one worker stands on it (hire, or relocate a spare one).
    EnsureWorker,
    /// Staff the power plant (worker and Expert).
    StaffPlant,
    Nothing,
}

/// Staffing per tile: a Farm without a worker hires one; a Mine ensures a
/// worker; a power plant is staffed; an unworked abundant forest hires a
/// worker.
pub fn staff_step(building: Option<BuildingKind>, kind: TileKind, has_worker: bool) -> (r: StaffStep)
    ensures
        r == match building {
            Some(BuildingKind::Farm) => if has_worker {
                StaffStep::Nothing
            } else {
                StaffStep::HireWorker
            },
            Some(BuildingKind::Mine) => StaffStep::EnsureWorker,
            Some(BuildingKind::Nuclear) | Some(BuildingKind::Hydro) => StaffStep::StaffPlant,
            _ => if kind == TileKind::AbundantForest && !has_worker {
                StaffStep::HireWorker
            } else {
                StaffStep::Nothing
            },
        },
{
    match building {
        Some(BuildingKind::Farm) => if has_worker {
            StaffStep::Nothing
        } else {
            StaffStep::HireWorker
        },
        Some(BuildingKind::Mine) => StaffStep::EnsureWorker,
        Some(BuildingKind::Nuclear) | Some(BuildingKind::Hydro) => StaffStep::StaffPlant,
        _ => if kind == TileKind::AbundantForest && !has_worker {
            StaffStep::HireWorker
        } else {
            StaffStep::Nothing
        },
    }
}

/// The policy's minimum staffing of a power plant (Nuclear or Hydro produce
/// nothing without both an Expert and a worker): `(hire an Expert, hire a
/// worker)` — an Expert when Experts are allowed and none stands, a worker
/// once an Expert stands and no worker does.
pub fn plant_minimum(experts_on: bool, has_worker: bool, has_expert: bool) -> (r: (bool, bool))
    ensures
        r == (experts_on && !has_expert, has_expert && !has_worker),
{
    (experts_on && !has_expert, has_expert && !has_worker)
}

/// The policy's upgrade of a producer toward full output: `(hire an Expert,
/// hire a worker)`. A worked Mine wants an Expert (when Experts are allowed)
/// and any Mine up to two workers while it has room; a Hydro plant wants up to
/// two workers once its Expert stands; nothing else is upgraded.
pub fn producer_upgrade(
    building: Option<BuildingKind>,
    experts_on: bool,
    has_worker: bool,
    has_expert: bool,
    workers: u32,
    has_space: bool,
) -> (r: (bool, bool))
    ensures
        r == match building {
            Some(BuildingKind::Mine) => (experts_on && has_worker && !has_expert, workers < 2 && has_space),
            Some(BuildingKind::Hydro) => (false, has_expert && workers < 2 && has_space),
            _ => (false, false),
        },
{
    match building {
        Some(BuildingKind::Mine) => (experts_on && has_worker && !has_expert, workers < 2 && has_space),
        Some(BuildingKind::Hydro) => (false, has_expert && workers < 2 && has_space),
        _ => (false, false),
    }
}

/// Where a needed worker comes from.
#[derive(Clone, Copy, Debug, PartialEq, Eq, Structural)]
pub enum WorkerSource {
    /// No worker is needed.
    NotNeeded,
    Hire,
    /// Move the spare worker from this tile.
    Relocate(usize),
    /// No worker can be had.
    Unavailable,
}

/// Ensuring a worker on tile `tid`: none needed when one stands there; a
/// free unit slot hires one; else the spare worker (idle on plain land, else
/// one staffing no producer) moves over unless it already stands there.
pub fn ensure_worker_source(has_worker: bool, free_units: i64, spare: Option<usize>, tid: usize) -> (r: WorkerSource)
    ensures
        r == (if has_worker {
            WorkerSource::NotNeeded
        } else if free_units > 0 {
            WorkerSource::Hire
        } else {
            match spare {
                Some(from) => if from != tid {
                    WorkerSource::Relocate(from)
                } else {
                    WorkerSource::Unavailable
                },
                None => WorkerSource::Unavailable,
            }
        }),
{
    if has_worker {
        WorkerSource::NotNeeded
    } else if free_units > 0 {
        WorkerSource::Hire
    } else {
        match spare {
            Some(from) => if from != tid {
                WorkerSource::Relocate(from)
            } else {
                WorkerSource::Unavailable
            },
            None => WorkerSource::Unavailable,
        }
    }
}

impl HardAi {
    /// Staffing a power plant on `tid` (Experts on): nothing when it has an
    /// Expert and a worker, or when the free slots plus a relocatable worker
    /// (`reloc`, for the worker only) cannot cover what is missing. Else the
    /// worker's source (`NotNeeded` when one stands there); the Expert follows
    /// by [`HardAi::plant_expert_due`].
    pub fn plant_worker_plan(&self, has_expert: bool, workers: i64, free_units: i64, reloc: Option<usize>, tid: usize) -> (r:
        Option<WorkerSource>)
        requires
            free_units < i64::MAX,
        ensures
            r == (if !self.spec_params().experts || (has_expert && workers >= 1) || free_units + (if workers < 1
                && reloc is Some {
                1int
            } else {
                0
            }) < (if has_expert {
                0int
            } else {
                1
            }) + (if workers < 1 {
                1int
            } else {
                0
            }) {
                None
            } else if workers >= 1 {
                Some(WorkerSource::NotNeeded)
            } else if free_units > 0 {
                Some(WorkerSource::Hire)
            } else {
                match reloc {
                    Some(from) => if from != tid {
                        Some(WorkerSource::Relocate(from))
                    } else {
                        Some(WorkerSource::Unavailable)
                    },
                    None => Some(WorkerSource::Unavailable),
                }
            }),
    {
        if !self.params().experts || (has_expert && workers >= 1) {
            return None;
        }
        let need_worker = workers < 1;
        let slots_needed: i64 = (if has_expert {
            0
        } else {
            1
        }) + (if need_worker {
            1
        } else {
            0
        });
        let reloc_for_worker: i64 = if need_worker && reloc.is_some() {
            1
        } else {
            0
        };
        if free_units + reloc_for_worker < slots_needed {
            return None;
        }
        if !need_worker {
            return Some(WorkerSource::NotNeeded);
        }
        if free_units > 0 {
            return Some(WorkerSource::Hire);
        }
        match reloc {
            Some(from) => if from != tid {
                Some(WorkerSource::Relocate(from))
            } else {
                Some(WorkerSource::Unavailable)
            },
            None => Some(WorkerSource::Unavailable),
        }
    }

    /// A plant takes an Expert: none yet, a worker staffs it, and a unit slot
    /// is free.
    pub fn plant_expert_due(has_expert: bool, workers: i64, free_units: i64) -> (r: bool)
        ensures
            r == (!has_expert && workers >= 1 && free_units > 0),
    {
        !has_expert && workers >= 1 && free_units > 0
    }

    /// A Mine is boosted with an Expert: Experts on, the Mine has a worker and
    /// no Expert, and a unit slot is free.
    pub fn boost_mine_due(&self, building: Option<BuildingKind>, has_worker: bool, has_expert: bool, free_units: i64) -> (r:
        bool)
        ensures
            r == (self.spec_params().experts && building == Some(BuildingKind::Mine) && has_worker && !has_expert
                && free_units > 0),
    {
        let mine = match building {
            Some(BuildingKind::Mine) => true,
            _ => false,
        };
        self.params().experts && mine && has_worker && !has_expert && free_units > 0
    }

    /// A new power plant can be staffed: two free slots, or one and a worker
    /// to relocate.
    pub fn can_staff_new_plant(free_units: i64, reloc_exists: bool) -> (r: bool)
        ensures
            r == (free_units >= 2 || (free_units >= 1 && reloc_exists)),
    {
        free_units >= 2 || (free_units >= 1 && reloc_exists)
    }

    /// The power-plant phase runs: Experts on, not banking for the Device, a
    /// positive net income (`net_q` in quarter-units), every Hydro plant
    /// already staffed by an Expert and a worker, and a new plant staffable.
    pub fn power_plant_phase_runs(&self, banking: bool, net_q: i128, hydros_staffed: bool, can_staff: bool) -> (r:
        bool)
        ensures
            r == (self.spec_params().experts && !banking && net_q > 0 && hydros_staffed && can_staff),
    {
        self.params().experts && !banking && net_q > 0 && hydros_staffed && can_staff
    }

    /// The Village cap can still be raised: fewer than five Villages, an
    /// unworked empty grassland, and a forest that is free or worked.
    pub fn can_raise_cap(villages: i64, unworked_grass: bool, forest_ok: bool) -> (r: bool)
        ensures
            r == (villages < 5 && unworked_grass && forest_ok),
    {
        villages < 5 && unworked_grass && forest_ok
    }

    /// The Nuclear phase runs: Nuclear and Experts on, and more than 2400 money.
    pub fn nuclear_phase_runs(&self, money: i64) -> (r: bool)
        ensures
            r == (self.spec_params().nuclear && self.spec_params().experts && money > 2400),
    {
        let p = self.params();
        p.nuclear && p.experts && money > 2400
    }

    /// Another worker goes onto a Nuclear plant: its Expert stands, fewer than
    /// two workers do, it has room and actions remain.
    pub fn nuclear_worker_due(has_expert: bool, workers: i64, has_space: bool, budget: i64) -> (r: bool)
        ensures
            r == (has_expert && workers < 2 && has_space && budget > 0),
    {
        has_expert && workers < 2 && has_space && budget > 0
    }

    /// A new Nuclear plant is started: Nuclear and Experts on, more than 2400
    /// money, fewer plants than wanted (one plus one per further 3000), every
    /// plant fully staffed, and a unit slot free or the cap raisable with two
    /// unworked empty grasslands.
    pub fn nuclear_build_due(
        &self,
        money: i64,
        plants: i64,
        all_staffed: bool,
        free_units: i64,
        can_raise_cap: bool,
        unworked_grass: i64,
    ) -> (r: bool)
        ensures
            r == (self.spec_params().nuclear && self.spec_params().experts && money > 2400 && plants < 1 + (money
                - 2400) / 3000 && all_staffed && (free_units >= 1 || (can_raise_cap && unworked_grass >= 2))),
    {
        let p = self.params();
        if !p.nuclear || !p.experts || money <= 2400 {
            return false;
        }
        let want = HardAi::nuclear_want_count(money);
        plants < want && all_staffed && (free_units >= 1 || (can_raise_cap && unworked_grass >= 2))
    }

    /// Stacking a producer: an Expert first when Experts are on, the plant is
    /// not Hydro, it has none yet and two slots are free.
    pub fn stack_wants_expert(&self, building: Option<BuildingKind>, has_expert: bool, free_units: i64) -> (r: bool)
        ensures
            r == (self.spec_params().experts && building != Some(BuildingKind::Hydro) && !has_expert && free_units
                > 1),
    {
        let hydro = match building {
            Some(BuildingKind::Hydro) => true,
            _ => false,
        };
        self.params().experts && !hydro && !has_expert && free_units > 1
    }
}

/// The wood stock to secure: the anticipated need, between 150 and 700.
pub open spec fn spec_stock_target(anticipated: int) -> int {
    let lo = if anticipated > 150 { anticipated } else { 150 };
    if lo < 700 { lo } else { 700 }
}

/// Forest harvesters to secure: none when the wood exceeds the stock target by
/// 100; else two when short of the target while more than 200 wood is
/// anticipated and the unit cap exceeds six, otherwise one.
pub fn secure_wood_target(wood: i64, anticipated: i64, max_units: i64) -> (r: Option<i64>)
    requires
        wood <= i64::MAX - 100,
    ensures
        r == (if wood >= spec_stock_target(anticipated as int) + 100 {
            None
        } else if wood < spec_stock_target(anticipated as int) && anticipated > 200 && max_units > 6 {
            Some(2i64)
        } else {
            Some(1i64)
        }),
{
    let lo = if anticipated > 150 {
        anticipated
    } else {
        150
    };
    let target = if lo < 700 {
        lo
    } else {
        700
    };
    if wood >= target + 100 {
        None
    } else if wood < target && anticipated > 200 && max_units > 6 {
        Some(2)
    } else {
        Some(1)
    }
}

/// What the Farm phase does next.
#[derive(Clone, Copy, Debug, PartialEq, Eq, Structural)]
pub enum FarmStep {
    /// Stop this pass.
    Stop,
    /// Pass this spot.
    Skip,
    Build,
}

/// The Farm phase on one empty grassland: stop at the Farm cap; on the second
/// pass (spots without a worker) also stop unless a unit slot stays free
/// above the floor (one while wood is under 200); build when the Farm is
/// affordable, the wood buffer holds and actions are left, else pass.
pub fn farm_step(
    worked_spot: bool,
    farm_count: i64,
    max_farms: i64,
    free_units: i64,
    wood: i64,
    affords: bool,
    wood_buffer: bool,
    budget: i64,
) -> (r: FarmStep)
    ensures
        r == (if farm_count >= max_farms {
            FarmStep::Stop
        } else if !worked_spot && free_units <= (if wood < 200 {
            1i64
        } else {
            0
        }) {
            FarmStep::Stop
        } else if affords && wood_buffer && budget > 0 {
            FarmStep::Build
        } else {
            FarmStep::Skip
        }),
{
    if farm_count >= max_farms {
        return FarmStep::Stop;
    }
    let floor: i64 = if wood < 200 {
        1
    } else {
        0
    };
    if !worked_spot && free_units <= floor {
        return FarmStep::Stop;
    }
    if affords && wood_buffer && budget > 0 {
        FarmStep::Build
    } else {
        FarmStep::Skip
    }
}

/// What a garrison does next.
#[derive(Clone, Copy, Debug, PartialEq, Eq, Structural)]
pub enum GarrisonStep {
    Done,
    /// Move a rear soldier in.
    MoveRear,
    /// Buy a soldier onto the tile.
    Buy,
}

/// Garrisoning a tile toward `want` soldiers: done when it holds them, is
/// full or no action is left; else move a rear soldier in when one exists;
/// else buy when a soldier slot is free, 50 metal are at hand, the soldier is
/// affordable, its salary of 30 is covered and four rounds of the raised drain
/// stay covered; else done.
pub fn garrison_step(
    soldiers: i64,
    want: i64,
    has_space: bool,
    budget: i64,
    rear_soldier: bool,
    free_soldiers: i64,
    metal: i64,
    affords: bool,
    upkeep_ok: bool,
    after_commit_ok: bool,
) -> (r: GarrisonStep)
    ensures
        r == (if !(soldiers < want && has_space && budget > 0) {
            GarrisonStep::Done
        } else if rear_soldier {
            GarrisonStep::MoveRear
        } else if free_soldiers > 0 && metal >= 50 && affords && upkeep_ok && after_commit_ok {
            GarrisonStep::Buy
        } else {
            GarrisonStep::Done
        }),
{
    if !(soldiers < want && has_space && budget > 0) {
        GarrisonStep::Done
    } else if rear_soldier {
        GarrisonStep::MoveRear
    } else if free_soldiers > 0 && metal >= 50 && affords && upkeep_ok && after_commit_ok {
        GarrisonStep::Buy
    } else {
        GarrisonStep::Done
    }
}

/// An owned tile as the soldier searches read it.
#[derive(Clone, Copy, Debug, PartialEq, Eq, Structural)]
pub struct SoldierTile {
    /// Enemy soldiers next to it plus enemy soldiers conquering it.
    pub threat: i64,
    /// Enemy-owned neighbours.
    pub enemy_borders: i64,
    /// An own soldier stands on it.
    pub own_soldier: bool,
    /// Any soldier stands on it.
    pub any_soldier: bool,
}

/// The first tile other than `exclude` at peace (no threat, no enemy border)
/// holding an own soldier.
pub open spec fn rear_from(s: Seq<SoldierTile>, exclude: usize, k: int) -> Option<usize>
    decreases s.len() - k,
{
    if k < 0 || k >= s.len() {
        None
    } else if k != exclude && s[k].threat <= 0 && s[k].enemy_borders <= 0 && s[k].own_soldier {
        Some(k as usize)
    } else {
        rear_from(s, exclude, k + 1)
    }
}

/// A rear soldier to pull onto `exclude`.
pub fn rear_soldier(tiles: &Vec<SoldierTile>, exclude: usize) -> (r: Option<usize>)
    ensures
        r == rear_from(tiles@, exclude, 0),
{
    let mut i: usize = 0;
    while i < tiles.len()
        invariant
            i <= tiles@.len(),
            rear_from(tiles@, exclude, 0) == rear_from(tiles@, exclude, i as int),
        decreases tiles@.len() - i,
    {
        let t = tiles[i];
        if i != exclude && t.threat <= 0 && t.enemy_borders <= 0 && t.own_soldier {
            return Some(i);
        }
        i = i + 1;
    }
    None
}

/// The first tile other than `exclude` holding a soldier.
pub open spec fn free_soldier_from(s: Seq<SoldierTile>, exclude: usize, k: int) -> Option<usize>
    decreases s.len() - k,
{
    if k < 0 || k >= s.len() {
        None
    } else if k != exclude && s[k].any_soldier {
        Some(k as usize)
    } else {
        free_soldier_from(s, exclude, k + 1)
    }
}

/// A soldier to move onto an assault tile `exclude`.
pub fn free_soldier(tiles: &Vec<SoldierTile>, exclude: usize) -> (r: Option<usize>)
    ensures
        r == free_soldier_from(tiles@, exclude, 0),
{
    let mut i: usize = 0;
    while i < tiles.len()
        invariant
            i <= tiles@.len(),
            free_soldier_from(tiles@, exclude, 0) == free_soldier_from(tiles@, exclude, i as int),
        decreases tiles@.len() - i,
    {
        if i != exclude && tiles[i].any_soldier {
            return Some(i);
        }
        i = i + 1;
    }
    None
}

} // verus!
