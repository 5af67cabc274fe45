//! Self-play game results: the per-player snapshot, the reason a game ended,
//! and the rules that decide when a game stops and how its outcome reads.

use vstd::prelude::*;
use crate::hard_ai::trunc_div;
use crate::metrics::{BuildingKind, TileKind};

verus! {

/// Final per-player snapshot (resources + alive + tile count).
#[derive(Debug, Clone, Copy)]
pub struct PlayerResult {
    /// 1-based player number.
    pub num: i64,
    pub alive: bool,
    pub money: i64,
    pub wood: i64,
    pub stone: i64,
    pub metal: i64,
    pub tiles: i64,
}

/// Why the game ended.
#[derive(Debug, Clone, Copy, PartialEq, Eq, Structural)]
pub enum GameReason {
    Domination,
    LastStanding,
    Tie,
    Timeout,
}

/// Outcome of a full self-play game.
#[derive(Debug, Clone)]
pub struct GameResult {
    /// 1-based winner player number, or `None` on tie/timeout.
    pub winner_num: Option<i64>,
    pub reason: GameReason,
    /// Final rounds played.
    pub rounds: i64,
    pub players: Vec<PlayerResult>,
}

/// The game loop runs while more than one player lives and the round cap has
/// not been reached.
pub fn game_continues(live_players: usize, rounds_played: i64, round_cap: i64) -> (r: bool)
    ensures
        r == (live_players > 1 && rounds_played < round_cap),
{
    live_players > 1 && rounds_played < round_cap
}

/// The outcome of a finished game. `winner` is the player the last end of turn
/// declared the winner, as `(player number, tiles owned)`; `tie` whether it
/// declared a tie; `total_tiles` the board size; `live_nums` the numbers of
/// the players still alive.
pub open spec fn spec_outcome(winner: Option<(i64, i64)>, tie: bool, total_tiles: i64, live_nums: Seq<i64>) -> (
    Option<i64>,
    GameReason,
) {
    match winner {
        Some((num, owned)) => (
            Some(num),
            if total_tiles > 0 && trunc_div(owned * 100, total_tiles as int) >= 70 {
                GameReason::Domination
            } else {
                GameReason::LastStanding
            },
        ),
        None => if tie {
            (None, GameReason::Tie)
        } else if live_nums.len() == 1 {
            (Some(live_nums[0]), GameReason::LastStanding)
        } else {
            (None, GameReason::Timeout)
        },
    }
}

/// A declared winner always wins the game, by Domination exactly when it holds
/// at least 70% of a non-empty board and as last standing otherwise; so the
/// more tiles it holds, the stronger the reason. Without a declared winner a
/// declared tie is a Tie, a sole survivor wins as last standing, and any other
/// game timed out with no winner.
pub proof fn lemma_outcome_reasons(num: i64, owned: i64, more: i64, tie: bool, total_tiles: i64, live_nums: Seq<i64>)
    requires
        0 <= owned <= more,
    ensures
        spec_outcome(Some((num, owned)), tie, total_tiles, live_nums).0 == Some(num),
        (spec_outcome(Some((num, owned)), tie, total_tiles, live_nums).1 == GameReason::Domination) <==> (
        total_tiles > 0 && 100 * owned >= 70 * total_tiles),
        (spec_outcome(Some((num, owned)), tie, total_tiles, live_nums).1 == GameReason::LastStanding) <==> !(
        total_tiles > 0 && 100 * owned >= 70 * total_tiles),
        spec_outcome(Some((num, owned)), tie, total_tiles, live_nums).1 == GameReason::Domination
            ==> spec_outcome(Some((num, more)), tie, total_tiles, live_nums).1 == GameReason::Domination,
        tie ==> spec_outcome(None, tie, total_tiles, live_nums) == (None::<i64>, GameReason::Tie),
        !tie && live_nums.len() == 1 ==> spec_outcome(None, tie, total_tiles, live_nums) == (
        Some(live_nums[0]),
        GameReason::LastStanding,
        ),
        !tie && live_nums.len() != 1 ==> spec_outcome(None, tie, total_tiles, live_nums) == (
        None::<i64>,
        GameReason::Timeout,
        ),
{
    if total_tiles > 0 {
        let t = total_tiles as int;
        let a = owned * 100;
        let b = more * 100;
        assert((a / t >= 70) <==> (a >= 70 * t)) by (nonlinear_arith)
            requires
                t > 0,
                a >= 0,
        {
            if a / t >= 70 {
                assert(a >= t * (a / t));
                assert(t * (a / t) >= t * 70);
            }
            if a >= 70 * t {
                assert((70 * t) / t == 70);
            }
        }
        assert((b / t >= 70) <==> (b >= 70 * t)) by (nonlinear_arith)
            requires
                t > 0,
                b >= 0,
        {
            if b / t >= 70 {
                assert(b >= t * (b / t));
                assert(t * (b / t) >= t * 70);
            }
            if b >= 70 * t {
                assert((70 * t) / t == 70);
            }
        }
    }
}

/// Resolve a finished game: a declared winner wins by Domination when it owns
/// at least 70% of the tiles, else as last standing; a declared tie is a Tie; a
/// sole survivor wins as last standing; otherwise the game timed out.
pub fn resolve_outcome(winner: Option<(i64, i64)>, tie: bool, total_tiles: i64, live_nums: &Vec<i64>) -> (r: (
    Option<i64>,
    GameReason,
))
    requires
        winner matches Some((num, owned)) ==> i64::MIN <= owned * 100 <= i64::MAX,
    ensures
        r == spec_outcome(winner, tie, total_tiles, live_nums@),
{
    match winner {
        Some((num, owned)) => {
            let reason = if total_tiles > 0 && (owned * 100) / total_tiles >= 70 {
                GameReason::Domination
            } else {
                GameReason::LastStanding
            };
            (Some(num), reason)
        },
        None => {
            if tie {
                (None, GameReason::Tie)
            } else if live_nums.len() == 1 {
                (Some(live_nums[0]), GameReason::LastStanding)
            } else {
                (None, GameReason::Timeout)
            }
        },
    }
}

/// Smallest of the four resources — the solvency buffer.
pub fn min_buffer(money: i64, wood: i64, stone: i64, metal: i64) -> (r: i64)
    ensures
        r <= money && r <= wood && r <= stone && r <= metal,
        r == money || r == wood || r == stone || r == metal,
{
    let a = if money < wood {
        money
    } else {
        wood
    };
    let b = if a < stone {
        a
    } else {
        stone
    };
    if b < metal {
        b
    } else {
        metal
    }
}

/// A staffed producer: the tile holds a BasicWorker and an income building
/// (Farm, Mine, Nuclear, Hydro), or no income building on a forest or abundant
/// forest.
pub open spec fn spec_is_staffed_producer(workers: int, building: Option<BuildingKind>, tile: TileKind) -> bool {
    workers > 0 && match building {
        Some(BuildingKind::Farm) | Some(BuildingKind::Mine) | Some(BuildingKind::Nuclear) | Some(
            BuildingKind::Hydro,
        ) => true,
        _ => tile == TileKind::Forest || tile == TileKind::AbundantForest,
    }
}

/// True if the tile holds an income-producing building staffed by a worker
/// (forests produce wood and abundant forests money without a building).
pub fn is_staffed_producer(workers: u32, building: Option<BuildingKind>, tile: TileKind) -> (r: bool)
    ensures
        r == spec_is_staffed_producer(workers as int, building, tile),
{
    if workers == 0 {
        return false;
    }
    match building {
        Some(BuildingKind::Farm) | Some(BuildingKind::Mine) | Some(BuildingKind::Nuclear) | Some(
            BuildingKind::Hydro,
        ) => true,
        _ => match tile {
            TileKind::Forest | TileKind::AbundantForest => true,
            _ => false,
        },
    }
}

/// What the game loop tracks of one seat while a game runs.
#[derive(Clone, Copy, Debug, PartialEq, Eq, Structural)]
pub struct SeatStatus {
    /// The smallest resource buffer seen while the seat was alive.
    pub min_buffer: i64,
    /// The round the seat dropped out of the game, if it did.
    pub lost_round: Option<i64>,
    /// It dropped out holding a negative resource.
    pub bankrupt: bool,
    /// It dropped out otherwise (reduced to no tiles).
    pub eliminated: bool,
    /// Alive at the last observation.
    pub live: bool,
    /// Completed game rounds it was alive for.
    pub rounds_counted: i64,
}

/// One observation of a seat after an end of turn: the buffer is sampled
/// while alive; dropping out records the round and why; a completed round
/// counts for a living seat.
pub open spec fn spec_observe_seat(
    s: SeatStatus,
    live: bool,
    buffer: i64,
    has_negative: bool,
    round: i64,
    completed: bool,
) -> SeatStatus {
    let dropped = s.live && !live;
    SeatStatus {
        min_buffer: if live && buffer < s.min_buffer {
            buffer
        } else {
            s.min_buffer
        },
        lost_round: if dropped {
            Some(round)
        } else {
            s.lost_round
        },
        bankrupt: s.bankrupt || (dropped && has_negative),
        eliminated: s.eliminated || (dropped && !has_negative),
        live,
        rounds_counted: if completed && live {
            (s.rounds_counted + 1) as i64
        } else {
            s.rounds_counted
        },
    }
}

/// The per-seat trackers of a running game, with the round counter last seen.
pub struct SeatTracker {
    seats: Vec<SeatStatus>,
    prev_round: i64,
}

impl SeatTracker {
    pub closed spec fn seats_view(&self) -> Seq<SeatStatus> {
        self.seats@
    }

    pub closed spec fn prev_round_view(&self) -> i64 {
        self.prev_round
    }

    /// Every seat alive, its buffer the starting one, nothing counted yet.
    pub fn new(buffers: &Vec<i64>, round: i64) -> (r: Self)
        ensures
            r.seats_view().len() == buffers@.len(),
            forall|i: int|
                0 <= i < buffers@.len() ==> #[trigger] r.seats_view()[i] == (SeatStatus {
                    min_buffer: buffers@[i],
                    lost_round: None,
                    bankrupt: false,
                    eliminated: false,
                    live: true,
                    rounds_counted: 0,
                }),
            r.prev_round_view() == round,
    {
        let mut seats: Vec<SeatStatus> = Vec::new();
        let mut i: usize = 0;
        while i < buffers.len()
            invariant
                i <= buffers@.len(),
                seats@.len() == i,
                forall|k: int|
                    0 <= k < i ==> #[trigger] seats@[k] == (SeatStatus {
                        min_buffer: buffers@[k],
                        lost_round: None,
                        bankrupt: false,
                        eliminated: false,
                        live: true,
                        rounds_counted: 0,
                    }),
            decreases buffers@.len() - i,
        {
            seats.push(
                SeatStatus {
                    min_buffer: buffers[i],
                    lost_round: None,
                    bankrupt: false,
                    eliminated: false,
                    live: true,
                    rounds_counted: 0,
                },
            );
            i = i + 1;
        }
        SeatTracker { seats, prev_round: round }
    }

    /// The number of seats.
    pub fn seat_count(&self) -> (r: usize)
        ensures
            r == self.seats_view().len(),
    {
        self.seats.len()
    }

    /// Seat `i`'s status.
    pub fn seat(&self, i: usize) -> (r: SeatStatus)
        requires
            i < self.seats_view().len(),
        ensures
            r == self.seats_view()[i as int],
    {
        self.seats[i]
    }

    /// Record the board after an end of turn: which seats live, their
    /// buffers, which hold a negative resource, and the round counter.
    /// Returns whether a game round completed (the counter moved).
    pub fn observe(&mut self, live_now: &Vec<bool>, buffers: &Vec<i64>, has_negative: &Vec<bool>, round: i64) -> (
        completed: bool)
        requires
            live_now@.len() == old(self).seats_view().len(),
            buffers@.len() == old(self).seats_view().len(),
            has_negative@.len() == old(self).seats_view().len(),
            forall|i: int|
                0 <= i < old(self).seats_view().len() ==> (#[trigger] old(self).seats_view()[i]).rounds_counted
                    < i64::MAX,
        ensures
            completed == (round != old(self).prev_round_view()),
            final(self).prev_round_view() == round,
            final(self).seats_view().len() == old(self).seats_view().len(),
            forall|i: int|
                0 <= i < old(self).seats_view().len() ==> #[trigger] final(self).seats_view()[i]
                    == spec_observe_seat(
                    old(self).seats_view()[i],
                    live_now@[i],
                    buffers@[i],
                    has_negative@[i],
                    round,
                    completed,
                ),
    {
        let completed = round != self.prev_round;
        let n = self.seats.len();
        let ghost old_seats = self.seats@;
        let mut i: usize = 0;
        while i < n
            invariant
                i <= n,
                n == old_seats.len(),
                self.seats@.len() == n,
                live_now@.len() == n,
                buffers@.len() == n,
                has_negative@.len() == n,
                forall|k: int| 0 <= k < n ==> (#[trigger] old_seats[k]).rounds_counted < i64::MAX,
                forall|k: int|
                    0 <= k < i ==> #[trigger] self.seats@[k] == spec_observe_seat(
                        old_seats[k],
                        live_now@[k],
                        buffers@[k],
                        has_negative@[k],
                        round,
                        completed,
                    ),
                forall|k: int| i <= k < n ==> #[trigger] self.seats@[k] == old_seats[k],
            decreases n - i,
        {
            let s = self.seats[i];
            let live = live_now[i];
            let dropped = s.live && !live;
            let neg = has_negative[i];
            let ns = SeatStatus {
                min_buffer: if live && buffers[i] < s.min_buffer {
                    buffers[i]
                } else {
                    s.min_buffer
                },
                lost_round: if dropped {
                    Some(round)
                } else {
                    s.lost_round
                },
                bankrupt: s.bankrupt || (dropped && neg),
                eliminated: s.eliminated || (dropped && !neg),
                live,
                rounds_counted: if completed && live {
                    s.rounds_counted + 1
                } else {
                    s.rounds_counted
                },
            };
            self.seats.set(i, ns);
            i = i + 1;
        }
        self.prev_round = round;
        completed
    }
}

/// A seat's status is consistent: a living seat has lost nothing; a seat
/// out of the game lost at one round, as either bankrupt or eliminated.
pub open spec fn seat_consistent(s: SeatStatus) -> bool {
    if s.live {
        s.lost_round is None && !s.bankrupt && !s.eliminated
    } else {
        s.lost_round is Some && (s.bankrupt != s.eliminated)
    }
}

/// Observing the board keeps a seat consistent as long as no seat comes back
/// to life: a loss is recorded once, as bankruptcy or elimination, never both.
pub proof fn lemma_observe_keeps_consistent(
    s: SeatStatus,
    live: bool,
    buffer: i64,
    has_negative: bool,
    round: i64,
    completed: bool,
)
    requires
        seat_consistent(s),
        live ==> s.live,
    ensures
        seat_consistent(spec_observe_seat(s, live, buffer, has_negative, round, completed)),
{
}

/// The rounds a seat survived: its losing round, else the final round.
pub fn survived_rounds(s: SeatStatus, final_round: i64) -> (r: i64)
    ensures
        r == match s.lost_round {
            Some(l) => l,
            None => final_round,
        },
{
    match s.lost_round {
        Some(l) => l,
        None => final_round,
    }
}

/// The round a seat won at: the final round when its number is the winner's.
pub fn win_round(num: i64, winner_num: Option<i64>, final_round: i64) -> (r: Option<i64>)
    ensures
        r == (if winner_num == Some(num) {
            Some(final_round)
        } else {
            None::<i64>
        }),
{
    match winner_num {
        Some(w) => if w == num {
            Some(final_round)
        } else {
            None
        },
        None => None,
    }
}

} // verus!
