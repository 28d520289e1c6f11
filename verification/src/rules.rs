//! The rules' fixed numbers and the reasons a command is refused.
use vstd::prelude::*;

use crate::state::GameState;
use crate::types::Seat;

verus! {

/// The most cards a hand holds.
pub const MAX_HAND: usize = 8;
/// Twelve rounds — the Memory keeps a clock. Round 12 is Nightfall.
pub const LAST_ROUND: u8 = 12;
/// The board contracts after this round.
pub const CONTRACTION_AFTER_ROUND: u8 = 8;
/// Echo fires with probability `ECHO_NUM / ECHO_DEN`.
pub const ECHO_NUM: u64 = 1;
pub const ECHO_DEN: u64 = 5;
/// The Attack an Echo adds.
pub const ECHO_BONUS: i16 = 20;
/// The Attack each Momentum chain link adds.
pub const MOMENTUM_PER_LINK: i16 = 10;
/// The Attack a Resonance Edge adds.
pub const EDGE: i16 = 10;

/// Why a command was refused.
#[derive(Debug, Clone, Copy, PartialEq, Eq, Structural)]
pub enum Reject {
    MatchOver,
    NotYourTurn,
    NothingPending,
    ChoicePending,
    WrongCardKind,
    PendingReleaseFirst,
    NotPendingRelease,
    BadHandIndex,
    NotEnoughAnima,
    /// Held Ground: a lingering rim tile accepts no new writing.
    TileHeld,
    BadTile,
    TileFaded,
    TileOccupied,
    TileEmpty,
    NotYourSpirit,
    SpiritFading,
    NotMobile,
    /// Stand Ground: a this-round restriction forbids this spirit from moving.
    MovementRestricted,
    /// This spirit has already used its one free Move this turn (or arrived this turn).
    AlreadyMoved,
    /// Don't Look: this spirit can neither initiate an engage nor intercept.
    EngageRestricted,
    NotAdjacent,
    OutsideProjection,
    FirstPlacementHomeRows,
    TargetNotInReach,
    TargetNotEnemy,
    AlreadyGlimpsedThisTurn,
    /// A Glimpse burns a hand card: an empty hand has nothing to spend.
    NothingToBurn,
    /// An empty page has no top card to glimpse.
    NothingToPeek,
    /// Strict evolution pairing: the base's state does not match the chosen form.
    EvolveConditionUnmet,
    /// The recede conditions of a devolution are unmet.
    DevolveConditionUnmet,
    /// Outside the opening mulligan window.
    MulliganUnavailable,
}


/// Tile `i` holds something of `seat`'s own: a spirit it owns or terrain it laid.
pub open spec fn footprint_at(state: GameState, seat: Seat, i: int) -> bool {
    (state.board@[i].spirit matches Some(sp) && sp.owner == seat)
        || (state.board@[i].terrain matches Some(tr) && tr.owner == seat)
}

/// The opening mulligan window is open for `seat`: a 1v1 match, round 1, its own turn, its
/// once-per-match mulligan unspent, and the seat untouched — no Glimpse taken, its Anima
/// still exactly the opening income, nothing of its own on the board.
pub open spec fn spec_mulligan_window(state: GameState, seat: Seat) -> bool {
    let p = state.spec_player(seat);
    !state.spec_is_2v2() && state.round == 1 && state.active == seat && !state.mulliganed[seat.spec_index()]
        && !p.glimpsed_this_turn
        && p.anima == (if 1 + state.round <= 6 { 1 + state.round } else { 6 })
        && !exists|i: int| 0 <= i < state.board@.len() && #[trigger] footprint_at(state, seat, i)
}

/// Whether `seat` may still take its opening mulligan.
pub fn mulligan_window(state: &GameState, seat: Seat) -> (r: bool)
    ensures
        r == spec_mulligan_window(*state, seat),
{
    if state.is_2v2() {
        return false;
    }
    if state.round != 1 || state.active != seat || state.mulliganed[seat.index()] {
        return false;
    }
    let p = state.player(seat);
    if p.glimpsed_this_turn {
        return false;
    }
    let opening_income: u8 = if 1 + state.round <= 6 { 1 + state.round } else { 6 };
    if p.anima != opening_income {
        return false;
    }
    let n = state.board.len();
    for i in 0..n
        invariant
            n == state.board@.len(),
            forall|j: int| 0 <= j < i ==> !#[trigger] footprint_at(*state, seat, j),
    {
        let t = &state.board[i];
        let mine = match &t.spirit {
            Some(sp) => sp.owner == seat,
            None => false,
        } || match &t.terrain {
            Some(tr) => tr.owner == seat,
            None => false,
        };
        if mine {
            assert(footprint_at(*state, seat, i as int));
            return false;
        }
    }
    true
}

} // verus!
