//! Board setup for scenario checks: stand a plain spirit on a tile.
use vstd::prelude::*;

use crate::state::{GameState, Spirit, TileState};
use crate::types::{CardId, Seat};

verus! {

/// Every part of the match but the board is the same.
pub open spec fn same_but_board(a: GameState, b: GameState) -> bool {
    a == GameState { board: a.board, ..b }
}

/// The plain spirit a scenario stands: 10 Attack, 0 Defense, 40 of 40 HP, face-up,
/// unmarked, with no grants or riders.
pub open spec fn is_plain_spirit(sp: Spirit, card: CardId, owner: Seat) -> bool {
    &&& sp.card == card
    &&& sp.owner == owner
    &&& sp.attack == 10 && sp.defense == 0 && sp.hp == 40 && sp.hp_max == 40
    &&& !sp.replacement_used && !sp.holding && !sp.face_down && !sp.is_token
    &&& sp.placed_by is None
    &&& !sp.fading && sp.banished_by is None && !sp.intercepted_this_round
    &&& !sp.traits_stripped && sp.traits_stripped_until is None
    &&& sp.kw_grants@.len() == 0
    &&& sp.no_engage_until == 0
    &&& !sp.throughline_done
    &&& sp.copied_reach is None
    &&& sp.fade_deadline is None
}

/// Stand a plain spirit of `card`, owned by `owner`, on `tile` (replacing any spirit
/// there); the rest of the tile and the match are untouched.
pub fn put_spirit(st: &mut GameState, tile: u8, card: CardId, owner: Seat)
    requires
        (tile as int) < old(st).board@.len(),
    ensures
        same_but_board(*final(st), *old(st)),
        final(st).board@.len() == old(st).board@.len(),
        forall|j: int| 0 <= j < final(st).board@.len() && j != tile as int ==> #[trigger] final(st).board@[j] == old(st).board@[j],
        final(st).board@[tile as int].spirit matches Some(sp) && is_plain_spirit(sp, card, owner),
        final(st).board@[tile as int].terrain == old(st).board@[tile as int].terrain,
        final(st).board@[tile as int].impressions == old(st).board@[tile as int].impressions,
        final(st).board@[tile as int].faded == old(st).board@[tile as int].faded,
{
    let i = tile as usize;
    let mut t = TileState { spirit: None, terrain: None, impressions: Vec::new(), faded: false };
    st.board.set_and_swap(i, &mut t);
    t.spirit = Some(Spirit {
        replacement_used: false,
        holding: false,
        face_down: false,
        is_token: false,
        placed_by: None,
        card,
        owner,
        attack: 10,
        defense: 0,
        hp: 40,
        hp_max: 40,
        fading: false,
        banished_by: None,
        intercepted_this_round: false,
        traits_stripped: false,
        traits_stripped_until: None,
        kw_grants: Vec::new(),
        no_engage_until: 0,
        throughline_done: false,
        copied_reach: None,
        fade_deadline: None,
    });
    st.board.set(i, t);
}

} // verus!
