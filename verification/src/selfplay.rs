//! Stall detection for self-play games: a cheap signature of the board that
//! matters for progress, and the Strange Device exemption.

use vstd::prelude::*;
use crate::metrics::BuildingKind;

verus! {

/// A game whose board has not changed for this many rounds (with no Device
/// counting down) is cut as a stalemate.
pub const STALL_ROUNDS: i64 = 40;

/// FNV-1a offset basis.
pub const FNV_OFFSET: u64 = 0xcbf2_9ce4_8422_2325;
/// FNV-1a 64-bit prime.
pub const FNV_PRIME: u64 = 0x0000_0100_0000_01B3;

/// One FNV-1a step: xor in `v`, then multiply by the prime modulo 2^64.
pub open spec fn fnv_mix(h: u64, v: u64) -> u64 {
    (((h ^ v) as nat * FNV_PRIME as nat) % 0x1_0000_0000_0000_0000) as u64
}

/// The word mixed in for tile `i` with owner code `o` and building code `b`.
pub open spec fn tile_word(i: int, o: u64, b: u64) -> u64 {
    ((((i as u64) << 16u64) as u64) | ((o << 8u64) as u64)) | b
}

/// Owner code of a tile: the owner's index + 1, or 0 when unowned.
pub open spec fn owner_code(owner: Option<usize>) -> u64 {
    match owner {
        Some(p) => (p + 1) as u64,
        None => 0,
    }
}

/// Building code of a tile: the building kind's code + 1, or 0 when empty.
pub open spec fn building_code(kind: Option<u64>) -> u64 {
    match kind {
        Some(k) => (k + 1) as u64,
        None => 0,
    }
}

/// The hash after mixing the first `n` tiles.
pub open spec fn hash_tiles(cells: Seq<(Option<usize>, Option<u64>)>, n: int) -> u64
    decreases n,
{
    if n <= 0 {
        FNV_OFFSET
    } else {
        fnv_mix(
            hash_tiles(cells, n - 1),
            tile_word(n - 1, owner_code(cells[n - 1].0), building_code(cells[n - 1].1)),
        )
    }
}

/// The hash after additionally mixing the first `n` soldier counts.
pub open spec fn hash_soldiers(h: u64, soldiers: Seq<i64>, n: int) -> u64
    decreases n,
{
    if n <= 0 {
        h
    } else {
        fnv_mix(hash_soldiers(h, soldiers, n - 1), soldiers[n - 1] as u64)
    }
}

/// Cheap hash of the board state that matters for "is the game progressing":
/// every tile's `(owner, building-kind code)` (`cells[i]`) plus each seat's
/// soldier count. Two equal signatures N rounds apart mean nothing was
/// expanded, built, or fought.
pub fn board_signature(cells: &Vec<(Option<usize>, Option<u64>)>, soldiers: &Vec<i64>) -> (r: u64)
    requires
        forall|i: int|
            0 <= i < cells@.len() ==> ((#[trigger] cells@[i]).0 matches Some(p) ==> p < u64::MAX),
        forall|i: int| 0 <= i < cells@.len() ==> ((#[trigger] cells@[i]).1 matches Some(k) ==> k < u64::MAX),
    ensures
        r == hash_soldiers(hash_tiles(cells@, cells@.len() as int), soldiers@, soldiers@.len() as int),
{
    let mut h: u64 = FNV_OFFSET;
    let mut i: usize = 0;
    while i < cells.len()
        invariant
            i <= cells@.len(),
            h == hash_tiles(cells@, i as int),
            forall|j: int|
                0 <= j < cells@.len() ==> ((#[trigger] cells@[j]).0 matches Some(p) ==> p < u64::MAX),
            forall|j: int| 0 <= j < cells@.len() ==> ((#[trigger] cells@[j]).1 matches Some(k) ==> k < u64::MAX),
        decreases cells@.len() - i,
    {
        let (owner, kind) = cells[i];
        let o: u64 = match owner {
            Some(p) => p as u64 + 1,
            None => 0,
        };
        let b: u64 = match kind {
            Some(k) => k + 1,
            None => 0,
        };
        let word = ((i as u64) << 16) | (o << 8) | b;
        h = (h ^ word).wrapping_mul(FNV_PRIME);
        i = i + 1;
    }
    let mut s: usize = 0;
    while s < soldiers.len()
        invariant
            s <= soldiers@.len(),
            h == hash_soldiers(hash_tiles(cells@, cells@.len() as int), soldiers@, s as int),
        decreases soldiers@.len() - s,
    {
        h = (h ^ (soldiers[s] as u64)).wrapping_mul(FNV_PRIME);
        s = s + 1;
    }
    h
}

/// True if a Strange Device stands anywhere (`buildings` lists every tile's
/// building) — such a game is never cut as a stalemate.
pub fn device_on_board(buildings: &Vec<Option<BuildingKind>>) -> (r: bool)
    ensures
        r == exists|i: int| 0 <= i < buildings@.len() && #[trigger] buildings@[i] == Some(BuildingKind::StrangeDevice),
{
    let mut i: usize = 0;
    while i < buildings.len()
        invariant
            i <= buildings@.len(),
            forall|j: int| 0 <= j < i ==> #[trigger] buildings@[j] != Some(BuildingKind::StrangeDevice),
        decreases buildings@.len() - i,
    {
        match buildings[i] {
            Some(BuildingKind::StrangeDevice) => {
                return true;
            },
            _ => {},
        }
        i = i + 1;
    }
    false
}

/// Progress tracking for the stalemate cut: the last board signature seen and
/// the round at which the board last changed.
pub struct StallWatch {
    last_sig: u64,
    last_progress_round: i64,
}

impl StallWatch {
    pub closed spec fn last_sig_view(&self) -> u64 {
        self.last_sig
    }

    pub closed spec fn last_progress_view(&self) -> i64 {
        self.last_progress_round
    }

    /// Start watching from the board after setup.
    pub fn new(sig: u64, round: i64) -> (r: Self)
        ensures
            r.last_sig_view() == sig,
            r.last_progress_view() == round,
    {
        StallWatch { last_sig: sig, last_progress_round: round }
    }

    /// Record the board after an end of turn. A changed signature is progress;
    /// an unchanged one for `STALL_ROUNDS` rounds or more, with no Device on
    /// the board, ends the game (returns `true`).
    pub fn observe(&mut self, sig: u64, round: i64, device: bool) -> (stop: bool)
        ensures
            sig != old(self).last_sig_view() ==> !stop && final(self).last_sig_view() == sig
                && final(self).last_progress_view() == round,
            sig == old(self).last_sig_view() ==> final(self).last_sig_view() == old(self).last_sig_view()
                && final(self).last_progress_view() == old(self).last_progress_view() && stop == (round
                - old(self).last_progress_view() >= STALL_ROUNDS && !device),
    {
        if sig != self.last_sig {
            self.last_sig = sig;
            self.last_progress_round = round;
            false
        } else {
            (round as i128) - (self.last_progress_round as i128) >= (STALL_ROUNDS as i128) && !device
        }
    }
}

} // verus!
