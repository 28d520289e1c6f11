//! Applying an event is deterministic: two states reached by applying the same event to
//! the same state agree on every field, each list compared by its contents.
use vstd::prelude::*;

use crate::events::{
    arrives, board_and_moved, board_becomes, bounced, card_played, dissolved, event_ok, first_slot, forgotten, hurt, mark_first_placement, marked,
    overwriter_fade, overwrote, overwrote_stray, sat_add, seat_get, seat_set, set_spirit, shifted, slot_for, slot_step, spec_applied,
    spirit_played, stray_banished, turn_ended, unwritten, Event, PlayerOp,
};
use crate::state::{GameState, Phase, PlayerState, Spirit, Stray, TileState};
use crate::types::{CardId, Seat, SeatSlot};

verus! {

/// Two spirits alike but for how their keyword grants are held: the same grants in order.
pub open spec fn same_spirit(s: Spirit, r: Spirit) -> bool {
    s == Spirit { kw_grants: s.kw_grants, ..r } && s.kw_grants@ == r.kw_grants@
}

/// Two tiles alike, their impressions and any spirit's grants compared by contents.
pub open spec fn same_tile(t: TileState, u: TileState) -> bool {
    &&& t == TileState { impressions: t.impressions, spirit: t.spirit, ..u }
    &&& t.impressions@ == u.impressions@
    &&& match (t.spirit, u.spirit) {
        (None, None) => true,
        (Some(s), Some(r)) => same_spirit(s, r),
        _ => false,
    }
}

/// Two boards alike tile by tile.
pub open spec fn same_board(x: Seq<TileState>, y: Seq<TileState>) -> bool {
    x.len() == y.len() && forall|i: int| 0 <= i < x.len() ==> same_tile(#[trigger] x[i], y[i])
}

/// Two players alike, hand and deck compared by contents.
pub open spec fn same_player(p: PlayerState, q: PlayerState) -> bool {
    p == PlayerState { hand: p.hand, deck: p.deck, ..q } && p.hand@ == q.hand@ && p.deck@ == q.deck@
}

/// Two optional players alike.
pub open spec fn same_opt_player(p: Option<PlayerState>, q: Option<PlayerState>) -> bool {
    match (p, q) {
        (None, None) => true,
        (Some(x), Some(y)) => same_player(x, y),
        _ => false,
    }
}

/// Two match states alike: every field equal, every list compared by its contents. (The
/// logic holds two `Vec`s with the same contents to the same list only through their
/// contents, so this is the equality the contracts of event application can give.)
pub open spec fn same_state(a: GameState, b: GameState) -> bool {
    &&& a == GameState {
        board: a.board,
        player_a: a.player_a,
        player_b: a.player_b,
        player_a2: a.player_a2,
        player_b2: a.player_b2,
        moved_this_turn: a.moved_this_turn,
        temp_mods: a.temp_mods,
        temp_reach: a.temp_reach,
        temp_restrict: a.temp_restrict,
        temp_retaliation: a.temp_retaliation,
        bonds: a.bonds,
        dissolved: a.dissolved,
        fade_delayed: a.fade_delayed,
        peeked_fabs: a.peeked_fabs,
        calm_tiles: a.calm_tiles,
        ..b
    }
    &&& same_board(a.board@, b.board@)
    &&& same_player(a.player_a, b.player_a)
    &&& same_player(a.player_b, b.player_b)
    &&& same_opt_player(a.player_a2, b.player_a2)
    &&& same_opt_player(a.player_b2, b.player_b2)
    &&& a.moved_this_turn@ == b.moved_this_turn@
    &&& a.temp_mods@ == b.temp_mods@
    &&& a.temp_reach@ == b.temp_reach@
    &&& a.temp_restrict@ == b.temp_restrict@
    &&& a.temp_retaliation@ == b.temp_retaliation@
    &&& a.bonds@ == b.bonds@
    &&& a.dissolved@ == b.dissolved@
    &&& a.fade_delayed@ == b.fade_delayed@
    &&& a.peeked_fabs[0]@ == b.peeked_fabs[0]@
    &&& a.peeked_fabs[1]@ == b.peeked_fabs[1]@
    &&& a.calm_tiles@ == b.calm_tiles@
}

/// Every state is alike to itself.
pub proof fn lemma_same_state_refl(a: GameState)
    ensures
        same_state(a, a),
{
    assert forall|i: int| 0 <= i < a.board@.len() implies same_tile(#[trigger] a.board@[i], a.board@[i]) by {
        let t = a.board@[i];
        match t.spirit {
            Some(sp) => assert(same_spirit(sp, sp)),
            None => {},
        }
    }
    match a.player_a2 {
        Some(p) => assert(same_player(p, p)),
        None => {},
    }
    match a.player_b2 {
        Some(p) => assert(same_player(p, p)),
        None => {},
    }
}

proof fn lemma_same_tile_refl(t: TileState)
    ensures
        same_tile(t, t),
{
    match t.spirit {
        Some(sp) => assert(same_spirit(sp, sp)),
        None => {},
    }
}

/// Setting alike spirit slots on one tile of alike boards keeps them alike.
proof fn lemma_set_spirit_same(x: Seq<TileState>, y: Seq<TileState>, i: u8, s: Option<Spirit>, r: Option<Spirit>)
    requires
        same_board(x, y),
        (i as int) < x.len(),
        match (s, r) {
            (None, None) => true,
            (Some(p), Some(q)) => same_spirit(p, q),
            _ => false,
        },
    ensures
        same_board(set_spirit(x, i, s), set_spirit(y, i, r)),
{
    let x2 = set_spirit(x, i, s);
    let y2 = set_spirit(y, i, r);
    assert forall|j: int| 0 <= j < x2.len() implies same_tile(#[trigger] x2[j], y2[j]) by {
        if j != i as int {
            assert(x2[j] == x[j] && y2[j] == y[j]);
            assert(same_tile(x[j], y[j]));
        } else {
            assert(same_tile(x[j], y[j]));
        }
    }
}

/// Two fresh arrivals on the same tile of alike boards leave them alike.
proof fn lemma_arrivals_same(
    x: Seq<TileState>,
    y: Seq<TileState>,
    n1: Seq<TileState>,
    n2: Seq<TileState>,
    tile: u8,
    card: CardId,
    owner: Seat,
    attack: i16,
    defense: i16,
    hp: i16,
    hp_max: i16,
    face_down: bool,
    is_token: bool,
    placed_by: Option<SeatSlot>,
    fade: Option<(Seat, u8)>,
)
    requires
        same_board(x, y),
        (tile as int) < x.len(),
        arrives(x, n1, tile, card, owner, attack, defense, hp, hp_max, face_down, is_token, placed_by, fade),
        arrives(y, n2, tile, card, owner, attack, defense, hp, hp_max, face_down, is_token, placed_by, fade),
    ensures
        same_board(n1, n2),
{
    let s1 = n1[tile as int].spirit->Some_0;
    let s2 = n2[tile as int].spirit->Some_0;
    assert(s1.kw_grants@ =~= s2.kw_grants@);
    assert(same_spirit(s1, s2));
    lemma_set_spirit_same(x, y, tile, Some(s1), Some(s2));
}

/// Marking alike states alike leaves them alike.
proof fn lemma_marked_same(m1: GameState, n1: GameState, m2: GameState, n2: GameState, tile: u8, by: Seat)
    requires
        same_state(m1, m2),
        marked(m1, n1, tile, by),
        marked(m2, n2, tile, by),
    ensures
        same_state(n1, n2),
{
    assert forall|j: int| 0 <= j < n1.board@.len() implies same_tile(#[trigger] n1.board@[j], n2.board@[j]) by {
        assert(same_tile(m1.board@[j], m2.board@[j]));
        if j == tile as int {
            assert(n1.board@[j].impressions@ =~= n2.board@[j].impressions@);
        }
    }
}

/// Clearing a tile's impressions on alike states leaves them alike.
proof fn lemma_unwritten_same(m1: GameState, n1: GameState, m2: GameState, n2: GameState, tile: u8)
    requires
        same_state(m1, m2),
        unwritten(m1, n1, tile),
        unwritten(m2, n2, tile),
    ensures
        same_state(n1, n2),
{
    assert forall|j: int| 0 <= j < n1.board@.len() implies same_tile(#[trigger] n1.board@[j], n2.board@[j]) by {
        assert(same_tile(m1.board@[j], m2.board@[j]));
        if j == tile as int {
            assert(n1.board@[j].impressions@ =~= n2.board@[j].impressions@);
        }
    }
}

proof fn lemma_same_board_refl(x: Seq<TileState>)
    ensures
        same_board(x, x),
{
    assert forall|i: int| 0 <= i < x.len() implies same_tile(#[trigger] x[i], x[i]) by {
        lemma_same_tile_refl(x[i]);
    }
}

proof fn lemma_forgotten_same(s: GameState, a: GameState, b: GameState, tile: u8)
    requires
        forgotten(s, a, tile),
        forgotten(s, b, tile),
    ensures
        same_state(a, b),
{
    let ma = choose|mid: GameState| #![trigger unwritten(s, mid, tile)]
        unwritten(s, mid, tile) && a == GameState { solace_erasures: sat_add(s.solace_erasures, 1), ..mid };
    let mb = choose|mid: GameState| #![trigger unwritten(s, mid, tile)]
        unwritten(s, mid, tile) && b == GameState { solace_erasures: sat_add(s.solace_erasures, 1), ..mid };
    lemma_same_state_refl(s);
    lemma_unwritten_same(s, ma, s, mb, tile);
}

proof fn lemma_stray_banished_same(s: GameState, a: GameState, b: GameState, tile: u8, by: Seat)
    requires
        stray_banished(s, a, tile, by),
        stray_banished(s, b, tile, by),
    ensures
        same_state(a, b),
{
    let ma = choose|mid: GameState| #![trigger marked(s, mid, tile, by)] marked(s, mid, tile, by) && a == GameState { stray: None, ..mid };
    let mb = choose|mid: GameState| #![trigger marked(s, mid, tile, by)] marked(s, mid, tile, by) && b == GameState { stray: None, ..mid };
    lemma_same_state_refl(s);
    lemma_marked_same(s, ma, s, mb, tile, by);
}

proof fn lemma_dissolved_same(s: GameState, a: GameState, b: GameState, tile: u8, by: Seat)
    requires
        dissolved(s, a, tile, by),
        dissolved(s, b, tile, by),
    ensures
        same_state(a, b),
{
    let bd = s.board@;
    let counted = match bd[tile as int].spirit {
        Some(sp) => GameState {
            dissolved_this_turn: seat_set(s.dissolved_this_turn, sp.owner, (seat_get(s.dissolved_this_turn, sp.owner) + 1) as u8),
            ..s
        },
        None => s,
    };
    let ma = choose|mid: GameState| #![trigger marked(mid, a, tile, by)] {
        &&& mid == GameState { dissolved: mid.dissolved, board: mid.board, ..counted }
        &&& mid.dissolved@ == match bd[tile as int].spirit {
            Some(sp) => if sp.is_token { s.dissolved@ } else { s.dissolved@.push((sp.owner, sp.card)) },
            None => s.dissolved@,
        }
        &&& mid.board@ == set_spirit(bd, tile, None)
        &&& marked(mid, a, tile, by)
    };
    let mb = choose|mid: GameState| #![trigger marked(mid, b, tile, by)] {
        &&& mid == GameState { dissolved: mid.dissolved, board: mid.board, ..counted }
        &&& mid.dissolved@ == match bd[tile as int].spirit {
            Some(sp) => if sp.is_token { s.dissolved@ } else { s.dissolved@.push((sp.owner, sp.card)) },
            None => s.dissolved@,
        }
        &&& mid.board@ == set_spirit(bd, tile, None)
        &&& marked(mid, b, tile, by)
    };
    lemma_same_state_refl(counted);
    lemma_same_board_refl(ma.board@);
    assert(same_state(ma, mb));
    lemma_marked_same(ma, a, mb, b, tile, by);
}

proof fn lemma_turn_ended_same(s: GameState, a: GameState, b: GameState, seat: Seat)
    requires
        turn_ended(s, a, seat),
        turn_ended(s, b, seat),
    ensures
        same_state(a, b),
{
    let next_slot = if s.spec_is_2v2() { s.active_slot.spec_next_2v2() } else { first_slot(seat.spec_other()) };
    let next_seat = next_slot.spec_team();
    let ma = choose|mid: GameState| #![trigger slot_step(s, mid, first_slot(seat), PlayerOp::TurnOver)] {
        &&& slot_step(s, mid, first_slot(seat), PlayerOp::TurnOver)
        &&& a == GameState {
            ignore_imprint_this_turn: seat_set(s.ignore_imprint_this_turn, seat, false),
            next_arrival_atk: seat_set(s.next_arrival_atk, seat, 0i16),
            next_arrival_2nd_engage: seat_set(s.next_arrival_2nd_engage, seat, None),
            active_slot: next_slot,
            active: next_seat,
            phase: Phase::Acting,
            moved_this_turn: a.moved_this_turn,
            dissolved_this_turn: seat_set(s.dissolved_this_turn, next_seat, 0u8),
            ..mid
        }
        &&& a.moved_this_turn@.len() == 0
    };
    let mb = choose|mid: GameState| #![trigger slot_step(s, mid, first_slot(seat), PlayerOp::TurnOver)] {
        &&& slot_step(s, mid, first_slot(seat), PlayerOp::TurnOver)
        &&& b == GameState {
            ignore_imprint_this_turn: seat_set(s.ignore_imprint_this_turn, seat, false),
            next_arrival_atk: seat_set(s.next_arrival_atk, seat, 0i16),
            next_arrival_2nd_engage: seat_set(s.next_arrival_2nd_engage, seat, None),
            active_slot: next_slot,
            active: next_seat,
            phase: Phase::Acting,
            moved_this_turn: b.moved_this_turn,
            dissolved_this_turn: seat_set(s.dissolved_this_turn, next_seat, 0u8),
            ..mid
        }
        &&& b.moved_this_turn@.len() == 0
    };
    lemma_same_state_refl(s);
    assert(same_state(ma, mb));
    assert(a.moved_this_turn@ =~= b.moved_this_turn@);
}

proof fn lemma_manifested_same(s: GameState, a: GameState, b: GameState, tile: u8, card: CardId, owner: Seat, attack: i16, defense: i16, hp: i16)
    requires
        (tile as int) < s.board@.len(),
        board_and_moved(s, a, a.board@, tile),
        arrives(s.board@, a.board@, tile, card, owner, attack, defense, hp, hp, false, true, None, None),
        board_and_moved(s, b, b.board@, tile),
        arrives(s.board@, b.board@, tile, card, owner, attack, defense, hp, hp, false, true, None, None),
    ensures
        same_state(a, b),
{
    lemma_same_state_refl(s);
    lemma_same_board_refl(s.board@);
    lemma_arrivals_same(s.board@, s.board@, a.board@, b.board@, tile, card, owner, attack, defense, hp, hp, false, true, None, None);
}

proof fn lemma_befriended_same(s: GameState, a: GameState, b: GameState, tile: u8, card: CardId, seat: Seat, attack: i16, defense: i16, hp: i16)
    requires
        (tile as int) < s.board@.len(),
        a == (GameState { board: a.board, stray: None, ..s }),
        arrives(s.board@, a.board@, tile, card, seat, attack, defense, hp, hp, false, false, None, None),
        b == (GameState { board: b.board, stray: None, ..s }),
        arrives(s.board@, b.board@, tile, card, seat, attack, defense, hp, hp, false, false, None, None),
    ensures
        same_state(a, b),
{
    lemma_same_state_refl(s);
    lemma_same_board_refl(s.board@);
    lemma_arrivals_same(s.board@, s.board@, a.board@, b.board@, tile, card, seat, attack, defense, hp, hp, false, false, None, None);
}

proof fn lemma_played_same(
    s: GameState,
    a: GameState,
    b: GameState,
    seat: Seat,
    card: CardId,
    tile: u8,
    attack: i16,
    defense: i16,
    hp: i16,
    face_down: bool,
)
    requires
        (tile as int) < s.board@.len(),
        spirit_played(s, a, seat, card, tile, attack, defense, hp, face_down),
        spirit_played(s, b, seat, card, tile, attack, defense, hp, face_down),
    ensures
        same_state(a, b),
{
    let placed = if s.spec_is_2v2() { Some(slot_for(s, seat)) } else { None };
    let ma = choose|mid: GameState| #![trigger card_played(s, mid, seat, card)] {
        let m2 = mark_first_placement(mid, seat);
        &&& card_played(s, mid, seat, card)
        &&& board_and_moved(GameState {
            last_played_spirit: if face_down { m2.last_played_spirit } else { seat_set(m2.last_played_spirit, seat, Some(card)) },
            ..m2
        }, a, a.board@, tile)
        &&& arrives(s.board@, a.board@, tile, card, seat, attack, defense, hp, hp, face_down, false, placed, None)
    };
    let mb = choose|mid: GameState| #![trigger card_played(s, mid, seat, card)] {
        let m2 = mark_first_placement(mid, seat);
        &&& card_played(s, mid, seat, card)
        &&& board_and_moved(GameState {
            last_played_spirit: if face_down { m2.last_played_spirit } else { seat_set(m2.last_played_spirit, seat, Some(card)) },
            ..m2
        }, b, b.board@, tile)
        &&& arrives(s.board@, b.board@, tile, card, seat, attack, defense, hp, hp, face_down, false, placed, None)
    };
    lemma_same_state_refl(s);
    lemma_same_board_refl(s.board@);
    assert(same_state(ma, mb));
    lemma_arrivals_same(s.board@, s.board@, a.board@, b.board@, tile, card, seat, attack, defense, hp, hp, face_down, false, placed, None);
}

proof fn lemma_shifted_same(s: GameState, a: GameState, b: GameState, from: u8, to: u8, eats: bool)
    requires
        (from as int) < s.board@.len(),
        (to as int) < s.board@.len(),
        shifted(s, a, from, to, eats),
        shifted(s, b, from, to, eats),
    ensures
        same_state(a, b),
{
    let sp = s.board@[from as int].spirit;
    let tallied = GameState { solace_erasures: sat_add(s.solace_erasures, 1), ..s };
    lemma_same_state_refl(s);
    if eats {
        let ma = choose|mid: GameState| #![trigger unwritten(tallied, mid, to)]
            unwritten(tallied, mid, to) && board_becomes(mid, a, set_spirit(set_spirit(mid.board@, from, None), to, sp));
        let mb = choose|mid: GameState| #![trigger unwritten(tallied, mid, to)]
            unwritten(tallied, mid, to) && board_becomes(mid, b, set_spirit(set_spirit(mid.board@, from, None), to, sp));
        lemma_same_state_refl(tallied);
        lemma_unwritten_same(tallied, ma, tallied, mb, to);
        lemma_set_spirit_same(ma.board@, mb.board@, from, None, None);
        match sp {
            Some(x) => assert(same_spirit(x, x)),
            None => {},
        }
        lemma_set_spirit_same(set_spirit(ma.board@, from, None), set_spirit(mb.board@, from, None), to, sp, sp);
    } else {
        lemma_same_board_refl(a.board@);
    }
}

proof fn lemma_overwrote_same(
    s: GameState,
    a: GameState,
    b: GameState,
    seat: Seat,
    card: CardId,
    tile: u8,
    success: bool,
    dmg: i16,
    attack: i16,
    defense: i16,
    hp_left: i16,
    hp_max: i16,
)
    requires
        (tile as int) < s.board@.len(),
        overwrote(s, a, seat, card, tile, success, dmg, attack, defense, hp_left, hp_max),
        overwrote(s, b, seat, card, tile, success, dmg, attack, defense, hp_left, hp_max),
    ensures
        same_state(a, b),
{
    let ma = choose|mid: GameState| #![trigger slot_step(s, mid, first_slot(seat), PlayerOp::Play(card))] {
        &&& slot_step(s, mid, first_slot(seat), PlayerOp::Play(card))
        &&& if success {
            exists|m2: GameState| #![trigger marked(mid, m2, tile, seat)] {
                &&& marked(mid, m2, tile, seat)
                &&& board_and_moved(mark_first_placement(m2, seat), a, a.board@, tile)
                &&& arrives(m2.board@, a.board@, tile, card, seat, attack, defense, hp_left, hp_max,
                    false, false, None, overwriter_fade(s, seat, hp_left))
            }
        } else {
            board_becomes(mark_first_placement(mid, seat), a, hurt(s.board@, tile, dmg))
        }
    };
    let mb = choose|mid: GameState| #![trigger slot_step(s, mid, first_slot(seat), PlayerOp::Play(card))] {
        &&& slot_step(s, mid, first_slot(seat), PlayerOp::Play(card))
        &&& if success {
            exists|m2: GameState| #![trigger marked(mid, m2, tile, seat)] {
                &&& marked(mid, m2, tile, seat)
                &&& board_and_moved(mark_first_placement(m2, seat), b, b.board@, tile)
                &&& arrives(m2.board@, b.board@, tile, card, seat, attack, defense, hp_left, hp_max,
                    false, false, None, overwriter_fade(s, seat, hp_left))
            }
        } else {
            board_becomes(mark_first_placement(mid, seat), b, hurt(s.board@, tile, dmg))
        }
    };
    lemma_same_state_refl(s);
    assert(same_state(ma, mb));
    if success {
        let m2a = choose|m2: GameState| #![trigger marked(ma, m2, tile, seat)] {
            &&& marked(ma, m2, tile, seat)
            &&& board_and_moved(mark_first_placement(m2, seat), a, a.board@, tile)
            &&& arrives(m2.board@, a.board@, tile, card, seat, attack, defense, hp_left, hp_max,
                false, false, None, overwriter_fade(s, seat, hp_left))
        };
        let m2b = choose|m2: GameState| #![trigger marked(mb, m2, tile, seat)] {
            &&& marked(mb, m2, tile, seat)
            &&& board_and_moved(mark_first_placement(m2, seat), b, b.board@, tile)
            &&& arrives(m2.board@, b.board@, tile, card, seat, attack, defense, hp_left, hp_max,
                false, false, None, overwriter_fade(s, seat, hp_left))
        };
        lemma_marked_same(ma, m2a, mb, m2b, tile, seat);
        lemma_arrivals_same(m2a.board@, m2b.board@, a.board@, b.board@, tile, card, seat, attack, defense, hp_left, hp_max,
            false, false, None, overwriter_fade(s, seat, hp_left));
    } else {
        lemma_same_board_refl(a.board@);
    }
}

proof fn lemma_overwrote_stray_same(
    s: GameState,
    a: GameState,
    b: GameState,
    seat: Seat,
    card: CardId,
    tile: u8,
    success: bool,
    dmg: i16,
    attack: i16,
    defense: i16,
    hp_left: i16,
    hp_max: i16,
)
    requires
        (tile as int) < s.board@.len(),
        overwrote_stray(s, a, seat, card, tile, success, dmg, attack, defense, hp_left, hp_max),
        overwrote_stray(s, b, seat, card, tile, success, dmg, attack, defense, hp_left, hp_max),
    ensures
        same_state(a, b),
{
    let placed = if s.spec_is_2v2() { Some(s.active_slot) } else { None };
    let ma = choose|mid: GameState| #![trigger card_played(s, mid, seat, card)] {
        &&& card_played(s, mid, seat, card)
        &&& if success {
            exists|m2: GameState| #![trigger marked(mid, m2, tile, seat)] {
                &&& marked(mid, m2, tile, seat)
                &&& board_and_moved(mark_first_placement(GameState { stray: None, ..m2 }, seat), a, a.board@, tile)
                &&& arrives(m2.board@, a.board@, tile, card, seat, attack, defense, hp_left, hp_max,
                    false, false, placed, overwriter_fade(s, seat, hp_left))
            }
        } else {
            a == mark_first_placement(GameState {
                stray: match mid.stray {
                    Some(x) => Some(Stray { hp: (x.hp - dmg) as i16, ..x }),
                    None => None,
                },
                ..mid
            }, seat)
        }
    };
    let mb = choose|mid: GameState| #![trigger card_played(s, mid, seat, card)] {
        &&& card_played(s, mid, seat, card)
        &&& if success {
            exists|m2: GameState| #![trigger marked(mid, m2, tile, seat)] {
                &&& marked(mid, m2, tile, seat)
                &&& board_and_moved(mark_first_placement(GameState { stray: None, ..m2 }, seat), b, b.board@, tile)
                &&& arrives(m2.board@, b.board@, tile, card, seat, attack, defense, hp_left, hp_max,
                    false, false, placed, overwriter_fade(s, seat, hp_left))
            }
        } else {
            b == mark_first_placement(GameState {
                stray: match mid.stray {
                    Some(x) => Some(Stray { hp: (x.hp - dmg) as i16, ..x }),
                    None => None,
                },
                ..mid
            }, seat)
        }
    };
    lemma_same_state_refl(s);
    assert(same_state(ma, mb));
    if success {
        let m2a = choose|m2: GameState| #![trigger marked(ma, m2, tile, seat)] {
            &&& marked(ma, m2, tile, seat)
            &&& board_and_moved(mark_first_placement(GameState { stray: None, ..m2 }, seat), a, a.board@, tile)
            &&& arrives(m2.board@, a.board@, tile, card, seat, attack, defense, hp_left, hp_max,
                false, false, placed, overwriter_fade(s, seat, hp_left))
        };
        let m2b = choose|m2: GameState| #![trigger marked(mb, m2, tile, seat)] {
            &&& marked(mb, m2, tile, seat)
            &&& board_and_moved(mark_first_placement(GameState { stray: None, ..m2 }, seat), b, b.board@, tile)
            &&& arrives(m2.board@, b.board@, tile, card, seat, attack, defense, hp_left, hp_max,
                false, false, placed, overwriter_fade(s, seat, hp_left))
        };
        lemma_marked_same(ma, m2a, mb, m2b, tile, seat);
        lemma_arrivals_same(m2a.board@, m2b.board@, a.board@, b.board@, tile, card, seat, attack, defense, hp_left, hp_max,
            false, false, placed, overwriter_fade(s, seat, hp_left));
    }
}

proof fn lemma_bounced_same(s: GameState, a: GameState, b: GameState, tile: u8)
    requires
        bounced(s, a, tile),
        bounced(s, b, tile),
    ensures
        same_state(a, b),
{
    let bd = s.board@;
    lemma_same_state_refl(s);
    match bd[tile as int].spirit {
        Some(sp) => {
            lemma_same_board_refl(set_spirit(bd, tile, None));
            if !sp.is_token {
                let ma = choose|mid: GameState| #![trigger slot_step(s, mid, first_slot(sp.owner), PlayerOp::TakeBack(sp.card))]
                    slot_step(s, mid, first_slot(sp.owner), PlayerOp::TakeBack(sp.card)) && board_becomes(mid, a, set_spirit(bd, tile, None));
                let mb = choose|mid: GameState| #![trigger slot_step(s, mid, first_slot(sp.owner), PlayerOp::TakeBack(sp.card))]
                    slot_step(s, mid, first_slot(sp.owner), PlayerOp::TakeBack(sp.card)) && board_becomes(mid, b, set_spirit(bd, tile, None));
                assert(same_state(ma, mb));
            }
        },
        None => {},
    }
}

spec fn in_part1(ev: Event) -> bool {
    match ev {
        Event::MatchStarted | Event::AnimaGained { .. } | Event::AnimaSpent { .. } => true,
        _ => false,
    }
}

#[verifier::spinoff_prover]
#[verifier::rlimit(100)]
proof fn lemma_deterministic_part1(s: GameState, ev: Event, a: GameState, b: GameState)
    requires
        in_part1(ev),
        event_ok(s, ev),
        spec_applied(s, ev, a),
        spec_applied(s, ev, b),
    ensures
        same_state(a, b),
{
    match ev {
        Event::MatchStarted => { lemma_same_state_refl(a); assert(same_state(a, b)); },
        Event::AnimaGained { .. } => {},
        Event::AnimaSpent { .. } => {},
        _ => {},
    }
}

spec fn in_part2(ev: Event) -> bool {
    match ev {
        Event::CardDrawn { .. } | Event::ReleaseRequired { .. } | Event::CardReleased { .. } => true,
        _ => false,
    }
}

#[verifier::spinoff_prover]
#[verifier::rlimit(100)]
proof fn lemma_deterministic_part2(s: GameState, ev: Event, a: GameState, b: GameState)
    requires
        in_part2(ev),
        event_ok(s, ev),
        spec_applied(s, ev, a),
        spec_applied(s, ev, b),
    ensures
        same_state(a, b),
{
    match ev {
        Event::CardDrawn { .. } => {},
        Event::ReleaseRequired { .. } => {},
        Event::CardReleased { .. } => {},
        _ => {},
    }
}

spec fn in_part3(ev: Event) -> bool {
    match ev {
        Event::Glimpsed { .. } | Event::SpiritPlayed { .. } | Event::SpiritCopiedStats { .. } => true,
        _ => false,
    }
}

#[verifier::spinoff_prover]
#[verifier::rlimit(100)]
proof fn lemma_deterministic_part3(s: GameState, ev: Event, a: GameState, b: GameState)
    requires
        in_part3(ev),
        event_ok(s, ev),
        spec_applied(s, ev, a),
        spec_applied(s, ev, b),
    ensures
        same_state(a, b),
{
    match ev {
        Event::Glimpsed { .. } => {},
        Event::SpiritPlayed { seat, card, tile, attack, defense, hp, face_down } =>
            lemma_played_same(s, a, b, seat, card, tile, attack, defense, hp, face_down),
        Event::SpiritCopiedStats { .. } => {},
        _ => {},
    }
}

spec fn in_part4(ev: Event) -> bool {
    match ev {
        Event::ReachCopied { .. } | Event::Struck { .. } | Event::SpiritPushed { .. } => true,
        _ => false,
    }
}

#[verifier::spinoff_prover]
#[verifier::rlimit(100)]
proof fn lemma_deterministic_part4(s: GameState, ev: Event, a: GameState, b: GameState)
    requires
        in_part4(ev),
        event_ok(s, ev),
        spec_applied(s, ev, a),
        spec_applied(s, ev, b),
    ensures
        same_state(a, b),
{
    match ev {
        Event::ReachCopied { .. } => {},
        Event::Struck { .. } => {},
        Event::SpiritPushed { .. } => {},
        _ => {},
    }
}

spec fn in_part5(ev: Event) -> bool {
    match ev {
        Event::RitualCast { .. } | Event::BondAttached { .. } | Event::BondBroken { .. } => true,
        _ => false,
    }
}

#[verifier::spinoff_prover]
#[verifier::rlimit(100)]
proof fn lemma_deterministic_part5(s: GameState, ev: Event, a: GameState, b: GameState)
    requires
        in_part5(ev),
        event_ok(s, ev),
        spec_applied(s, ev, a),
        spec_applied(s, ev, b),
    ensures
        same_state(a, b),
{
    match ev {
        Event::RitualCast { .. } => {},
        Event::BondAttached { .. } => {},
        Event::BondBroken { .. } => {},
        _ => {},
    }
}

spec fn in_part6(ev: Event) -> bool {
    match ev {
        Event::LandmarkPlaced { .. } | Event::FabricationSet { .. } | Event::FabricationRevealed { .. } => true,
        _ => false,
    }
}

#[verifier::spinoff_prover]
#[verifier::rlimit(100)]
proof fn lemma_deterministic_part6(s: GameState, ev: Event, a: GameState, b: GameState)
    requires
        in_part6(ev),
        event_ok(s, ev),
        spec_applied(s, ev, a),
        spec_applied(s, ev, b),
    ensures
        same_state(a, b),
{
    match ev {
        Event::LandmarkPlaced { .. } => {},
        Event::FabricationSet { .. } => {},
        Event::FabricationRevealed { .. } => {},
        _ => {},
    }
}

spec fn in_part7(ev: Event) -> bool {
    match ev {
        Event::FabricationSpent { .. } | Event::UnwrittenManifested { .. } | Event::ImpressionUnwritten { .. } => true,
        _ => false,
    }
}

#[verifier::spinoff_prover]
#[verifier::rlimit(100)]
proof fn lemma_deterministic_part7(s: GameState, ev: Event, a: GameState, b: GameState)
    requires
        in_part7(ev),
        event_ok(s, ev),
        spec_applied(s, ev, a),
        spec_applied(s, ev, b),
    ensures
        same_state(a, b),
{
    match ev {
        Event::FabricationSpent { .. } => {},
        Event::UnwrittenManifested { card, tile, attack, defense, hp } => lemma_manifested_same(s, a, b, tile, card, Seat::B, attack, defense, hp),
        Event::ImpressionUnwritten { tile } => {
            lemma_same_state_refl(s);
            lemma_unwritten_same(s, a, s, b, tile);
        },
        _ => {},
    }
}

spec fn in_part8(ev: Event) -> bool {
    match ev {
        Event::ImpressionForgotten { .. } | Event::SpiritReleased { .. } | Event::SpiritBounced { .. } => true,
        _ => false,
    }
}

#[verifier::spinoff_prover]
#[verifier::rlimit(100)]
proof fn lemma_deterministic_part8(s: GameState, ev: Event, a: GameState, b: GameState)
    requires
        in_part8(ev),
        event_ok(s, ev),
        spec_applied(s, ev, a),
        spec_applied(s, ev, b),
    ensures
        same_state(a, b),
{
    match ev {
        Event::ImpressionForgotten { tile } => lemma_forgotten_same(s, a, b, tile),
        Event::SpiritReleased { .. } => {},
        Event::SpiritBounced { tile } => lemma_bounced_same(s, a, b, tile),
        _ => {},
    }
}

spec fn in_part9(ev: Event) -> bool {
    match ev {
        Event::UnwrittenShifted { .. } | Event::UnwritingTold { .. } | Event::DeckMilled { .. } => true,
        _ => false,
    }
}

#[verifier::spinoff_prover]
#[verifier::rlimit(100)]
proof fn lemma_deterministic_part9(s: GameState, ev: Event, a: GameState, b: GameState)
    requires
        in_part9(ev),
        event_ok(s, ev),
        spec_applied(s, ev, a),
        spec_applied(s, ev, b),
    ensures
        same_state(a, b),
{
    match ev {
        Event::UnwrittenShifted { from, to, eats_impression } => lemma_shifted_same(s, a, b, from, to, eats_impression),
        Event::UnwritingTold { .. } => {},
        Event::DeckMilled { .. } => {},
        _ => {},
    }
}

spec fn in_part10(ev: Event) -> bool {
    match ev {
        Event::ImpressionsStoppedScoring { .. } | Event::LandmarkSilenced { .. } | Event::TilesGoneCalm { .. } => true,
        _ => false,
    }
}

#[verifier::spinoff_prover]
#[verifier::rlimit(100)]
proof fn lemma_deterministic_part10(s: GameState, ev: Event, a: GameState, b: GameState)
    requires
        in_part10(ev),
        event_ok(s, ev),
        spec_applied(s, ev, a),
        spec_applied(s, ev, b),
    ensures
        same_state(a, b),
{
    match ev {
        Event::ImpressionsStoppedScoring { .. } => {},
        Event::LandmarkSilenced { .. } => {},
        Event::TilesGoneCalm { .. } => {},
        _ => {},
    }
}

spec fn in_part11(ev: Event) -> bool {
    match ev {
        Event::StrayTelegraphed { .. } | Event::StrayTelegraphCleared | Event::StraySurfaced { .. } => true,
        _ => false,
    }
}

#[verifier::spinoff_prover]
#[verifier::rlimit(100)]
proof fn lemma_deterministic_part11(s: GameState, ev: Event, a: GameState, b: GameState)
    requires
        in_part11(ev),
        event_ok(s, ev),
        spec_applied(s, ev, a),
        spec_applied(s, ev, b),
    ensures
        same_state(a, b),
{
    match ev {
        Event::StrayTelegraphed { .. } => {},
        Event::StrayTelegraphCleared => {},
        Event::StraySurfaced { .. } => {},
        _ => {},
    }
}

spec fn in_part12(ev: Event) -> bool {
    match ev {
        Event::StrayStruck { .. } | Event::StrayUnveiled | Event::StrayCourted { .. } => true,
        _ => false,
    }
}

#[verifier::spinoff_prover]
#[verifier::rlimit(100)]
proof fn lemma_deterministic_part12(s: GameState, ev: Event, a: GameState, b: GameState)
    requires
        in_part12(ev),
        event_ok(s, ev),
        spec_applied(s, ev, a),
        spec_applied(s, ev, b),
    ensures
        same_state(a, b),
{
    match ev {
        Event::StrayStruck { .. } => {},
        Event::StrayUnveiled => {},
        Event::StrayCourted { .. } => {},
        _ => {},
    }
}

spec fn in_part13(ev: Event) -> bool {
    match ev {
        Event::StrayBefriended { .. } | Event::StrayBanished { .. } | Event::StrayDenied { .. } => true,
        _ => false,
    }
}

#[verifier::spinoff_prover]
#[verifier::rlimit(100)]
proof fn lemma_deterministic_part13(s: GameState, ev: Event, a: GameState, b: GameState)
    requires
        in_part13(ev),
        event_ok(s, ev),
        spec_applied(s, ev, a),
        spec_applied(s, ev, b),
    ensures
        same_state(a, b),
{
    match ev {
        Event::StrayBefriended { seat, card, tile, attack, defense, hp } => lemma_befriended_same(s, a, b, tile, card, seat, attack, defense, hp),
        Event::StrayBanished { tile, impression } => lemma_stray_banished_same(s, a, b, tile, impression),
        Event::StrayDenied { .. } => {},
        _ => {},
    }
}

spec fn in_part14(ev: Event) -> bool {
    match ev {
        Event::OverwroteStray { .. } | Event::SpiritEvolved { .. } | Event::SpiritDevolved { .. } => true,
        _ => false,
    }
}

#[verifier::spinoff_prover]
#[verifier::rlimit(100)]
proof fn lemma_deterministic_part14(s: GameState, ev: Event, a: GameState, b: GameState)
    requires
        in_part14(ev),
        event_ok(s, ev),
        spec_applied(s, ev, a),
        spec_applied(s, ev, b),
    ensures
        same_state(a, b),
{
    match ev {
        Event::OverwroteStray { seat, card, tile, success, damage_to_stray, attack, defense, attacker_hp_left, attacker_hp_max } =>
            lemma_overwrote_stray_same(s, a, b, seat, card, tile, success, damage_to_stray, attack, defense, attacker_hp_left, attacker_hp_max),
        Event::SpiritEvolved { .. } => {},
        Event::SpiritDevolved { .. } => {},
        _ => {},
    }
}

spec fn in_part15(ev: Event) -> bool {
    match ev {
        Event::SpiritManifested { .. } | Event::TokenDissolved { .. } | Event::SpiritRevealed { .. } => true,
        _ => false,
    }
}

#[verifier::spinoff_prover]
#[verifier::rlimit(100)]
proof fn lemma_deterministic_part15(s: GameState, ev: Event, a: GameState, b: GameState)
    requires
        in_part15(ev),
        event_ok(s, ev),
        spec_applied(s, ev, a),
        spec_applied(s, ev, b),
    ensures
        same_state(a, b),
{
    match ev {
        Event::SpiritManifested { seat, card, tile, attack, defense, hp } => lemma_manifested_same(s, a, b, tile, card, seat, attack, defense, hp),
        Event::TokenDissolved { .. } => {},
        Event::SpiritRevealed { .. } => {},
        _ => {},
    }
}

spec fn in_part16(ev: Event) -> bool {
    match ev {
        Event::OrdersSet { .. } | Event::EffectTempStat { .. } | Event::ReachBuffed { .. } => true,
        _ => false,
    }
}

#[verifier::spinoff_prover]
#[verifier::rlimit(100)]
proof fn lemma_deterministic_part16(s: GameState, ev: Event, a: GameState, b: GameState)
    requires
        in_part16(ev),
        event_ok(s, ev),
        spec_applied(s, ev, a),
        spec_applied(s, ev, b),
    ensures
        same_state(a, b),
{
    match ev {
        Event::OrdersSet { .. } => {},
        Event::EffectTempStat { .. } => {},
        Event::ReachBuffed { .. } => {},
        _ => {},
    }
}

spec fn in_part17(ev: Event) -> bool {
    match ev {
        Event::Restricted { .. } | Event::RetaliationBuffed { .. } | Event::ReplacementSurvived { .. } => true,
        _ => false,
    }
}

#[verifier::spinoff_prover]
#[verifier::rlimit(100)]
proof fn lemma_deterministic_part17(s: GameState, ev: Event, a: GameState, b: GameState)
    requires
        in_part17(ev),
        event_ok(s, ev),
        spec_applied(s, ev, a),
        spec_applied(s, ev, b),
    ensures
        same_state(a, b),
{
    match ev {
        Event::Restricted { .. } => {},
        Event::RetaliationBuffed { .. } => {},
        Event::ReplacementSurvived { .. } => {},
        _ => {},
    }
}

spec fn in_part18(ev: Event) -> bool {
    match ev {
        Event::EffectRestored { .. } | Event::EffectDamaged { .. } | Event::DamageRedirected { .. } => true,
        _ => false,
    }
}

#[verifier::spinoff_prover]
#[verifier::rlimit(100)]
proof fn lemma_deterministic_part18(s: GameState, ev: Event, a: GameState, b: GameState)
    requires
        in_part18(ev),
        event_ok(s, ev),
        spec_applied(s, ev, a),
        spec_applied(s, ev, b),
    ensures
        same_state(a, b),
{
    match ev {
        Event::EffectRestored { .. } => {},
        Event::EffectDamaged { .. } => {},
        Event::DamageRedirected { .. } => {},
        _ => {},
    }
}

spec fn in_part19(ev: Event) -> bool {
    match ev {
        Event::KeywordGranted { .. } | Event::SpiritsSwapped { .. } | Event::EngageRestricted { .. } => true,
        _ => false,
    }
}

#[verifier::spinoff_prover]
#[verifier::rlimit(100)]
proof fn lemma_deterministic_part19(s: GameState, ev: Event, a: GameState, b: GameState)
    requires
        in_part19(ev),
        event_ok(s, ev),
        spec_applied(s, ev, a),
        spec_applied(s, ev, b),
    ensures
        same_state(a, b),
{
    match ev {
        Event::KeywordGranted { .. } => {},
        Event::SpiritsSwapped { .. } => {},
        Event::EngageRestricted { .. } => {},
        _ => {},
    }
}

spec fn in_part20(ev: Event) -> bool {
    match ev {
        Event::FadeDelayed { .. } | Event::FadeDelayConsumed { .. } | Event::FlowAnimaScheduled { .. } => true,
        _ => false,
    }
}

#[verifier::spinoff_prover]
#[verifier::rlimit(100)]
proof fn lemma_deterministic_part20(s: GameState, ev: Event, a: GameState, b: GameState)
    requires
        in_part20(ev),
        event_ok(s, ev),
        spec_applied(s, ev, a),
        spec_applied(s, ev, b),
    ensures
        same_state(a, b),
{
    match ev {
        Event::FadeDelayed { .. } => {},
        Event::FadeDelayConsumed { .. } => {},
        Event::FlowAnimaScheduled { .. } => {},
        _ => {},
    }
}

spec fn in_part21(ev: Event) -> bool {
    match ev {
        Event::FlowAnimaPaid { .. } | Event::EvolveImprintFreed { .. } | Event::SpiritReclaimed { .. } => true,
        _ => false,
    }
}

#[verifier::spinoff_prover]
#[verifier::rlimit(100)]
proof fn lemma_deterministic_part21(s: GameState, ev: Event, a: GameState, b: GameState)
    requires
        in_part21(ev),
        event_ok(s, ev),
        spec_applied(s, ev, a),
        spec_applied(s, ev, b),
    ensures
        same_state(a, b),
{
    match ev {
        Event::FlowAnimaPaid { .. } => {},
        Event::EvolveImprintFreed { .. } => {},
        Event::SpiritReclaimed { .. } => {},
        _ => {},
    }
}

spec fn in_part22(ev: Event) -> bool {
    match ev {
        Event::NextArrivalBuffed { .. } | Event::NextArrivalConsumed { .. } | Event::NextArrivalSecondEngage { .. } => true,
        _ => false,
    }
}

#[verifier::spinoff_prover]
#[verifier::rlimit(100)]
proof fn lemma_deterministic_part22(s: GameState, ev: Event, a: GameState, b: GameState)
    requires
        in_part22(ev),
        event_ok(s, ev),
        spec_applied(s, ev, a),
        spec_applied(s, ev, b),
    ensures
        same_state(a, b),
{
    match ev {
        Event::NextArrivalBuffed { .. } => {},
        Event::NextArrivalConsumed { .. } => {},
        Event::NextArrivalSecondEngage { .. } => {},
        _ => {},
    }
}

spec fn in_part23(ev: Event) -> bool {
    match ev {
        Event::NextArrivalSecondConsumed { .. } | Event::FabricationPeeked { .. } | Event::RitualExtraTargetsArmed { .. } => true,
        _ => false,
    }
}

#[verifier::spinoff_prover]
#[verifier::rlimit(100)]
proof fn lemma_deterministic_part23(s: GameState, ev: Event, a: GameState, b: GameState)
    requires
        in_part23(ev),
        event_ok(s, ev),
        spec_applied(s, ev, a),
        spec_applied(s, ev, b),
    ensures
        same_state(a, b),
{
    match ev {
        Event::NextArrivalSecondConsumed { .. } => {},
        Event::FabricationPeeked { .. } => {},
        Event::RitualExtraTargetsArmed { .. } => {},
        _ => {},
    }
}

spec fn in_part24(ev: Event) -> bool {
    match ev {
        Event::RitualExtraTargetsConsumed | Event::ThroughlineCompleted { .. } | Event::EffectStat { .. } => true,
        _ => false,
    }
}

#[verifier::spinoff_prover]
#[verifier::rlimit(100)]
proof fn lemma_deterministic_part24(s: GameState, ev: Event, a: GameState, b: GameState)
    requires
        in_part24(ev),
        event_ok(s, ev),
        spec_applied(s, ev, a),
        spec_applied(s, ev, b),
    ensures
        same_state(a, b),
{
    match ev {
        Event::RitualExtraTargetsConsumed => {},
        Event::ThroughlineCompleted { .. } => {},
        Event::EffectStat { .. } => {},
        _ => {},
    }
}

spec fn in_part25(ev: Event) -> bool {
    match ev {
        Event::SpiritBecameFading { .. } | Event::Overwrote { .. } | Event::SpiritMoved { .. } => true,
        _ => false,
    }
}

#[verifier::spinoff_prover]
#[verifier::rlimit(100)]
proof fn lemma_deterministic_part25(s: GameState, ev: Event, a: GameState, b: GameState)
    requires
        in_part25(ev),
        event_ok(s, ev),
        spec_applied(s, ev, a),
        spec_applied(s, ev, b),
    ensures
        same_state(a, b),
{
    match ev {
        Event::SpiritBecameFading { .. } => {},
        Event::Overwrote { seat, card, tile, success, damage_to_defender, attack, defense, attacker_hp_left, attacker_hp_max, .. } =>
            lemma_overwrote_same(s, a, b, seat, card, tile, success, damage_to_defender, attack, defense, attacker_hp_left, attacker_hp_max),
        Event::SpiritMoved { .. } => {},
        _ => {},
    }
}

spec fn in_part26(ev: Event) -> bool {
    match ev {
        Event::SpiritDissolved { .. } | Event::ControlTaken { .. } | Event::TraitsStripped { .. } => true,
        _ => false,
    }
}

#[verifier::spinoff_prover]
#[verifier::rlimit(100)]
proof fn lemma_deterministic_part26(s: GameState, ev: Event, a: GameState, b: GameState)
    requires
        in_part26(ev),
        event_ok(s, ev),
        spec_applied(s, ev, a),
        spec_applied(s, ev, b),
    ensures
        same_state(a, b),
{
    match ev {
        Event::SpiritDissolved { tile, impression } => lemma_dissolved_same(s, a, b, tile, impression),
        Event::ControlTaken { .. } => {},
        Event::TraitsStripped { .. } => {},
        _ => {},
    }
}

spec fn in_part27(ev: Event) -> bool {
    match ev {
        Event::TraitsStrippedUntil { .. } | Event::RitualDiscountGranted { .. } | Event::RitualDiscountConsumed { .. } => true,
        _ => false,
    }
}

#[verifier::spinoff_prover]
#[verifier::rlimit(100)]
proof fn lemma_deterministic_part27(s: GameState, ev: Event, a: GameState, b: GameState)
    requires
        in_part27(ev),
        event_ok(s, ev),
        spec_applied(s, ev, a),
        spec_applied(s, ev, b),
    ensures
        same_state(a, b),
{
    match ev {
        Event::TraitsStrippedUntil { .. } => {},
        Event::RitualDiscountGranted { .. } => {},
        Event::RitualDiscountConsumed { .. } => {},
        _ => {},
    }
}

spec fn in_part28(ev: Event) -> bool {
    match ev {
        Event::CardTaxed { .. } | Event::CardTaxSpent { .. } | Event::TurnEnded { .. } => true,
        _ => false,
    }
}

#[verifier::spinoff_prover]
#[verifier::rlimit(100)]
proof fn lemma_deterministic_part28(s: GameState, ev: Event, a: GameState, b: GameState)
    requires
        in_part28(ev),
        event_ok(s, ev),
        spec_applied(s, ev, a),
        spec_applied(s, ev, b),
    ensures
        same_state(a, b),
{
    match ev {
        Event::CardTaxed { .. } => {},
        Event::CardTaxSpent { .. } => {},
        Event::TurnEnded { seat } => lemma_turn_ended_same(s, a, b, seat),
        _ => {},
    }
}

spec fn in_part29(ev: Event) -> bool {
    match ev {
        Event::RoundAdvanced { .. } | Event::TileFaded { .. } | Event::MemoryContracted { .. } => true,
        _ => false,
    }
}

#[verifier::spinoff_prover]
#[verifier::rlimit(100)]
proof fn lemma_deterministic_part29(s: GameState, ev: Event, a: GameState, b: GameState)
    requires
        in_part29(ev),
        event_ok(s, ev),
        spec_applied(s, ev, a),
        spec_applied(s, ev, b),
    ensures
        same_state(a, b),
{
    match ev {
        Event::RoundAdvanced { .. } => {},
        Event::TileFaded { .. } => {},
        Event::MemoryContracted { .. } => {},
        _ => {},
    }
}

spec fn in_part30(ev: Event) -> bool {
    match ev {
        Event::MatchEnded { .. } | Event::MatchAbandoned { .. } | Event::Mulliganed { .. } => true,
        _ => false,
    }
}

#[verifier::spinoff_prover]
#[verifier::rlimit(100)]
proof fn lemma_deterministic_part30(s: GameState, ev: Event, a: GameState, b: GameState)
    requires
        in_part30(ev),
        event_ok(s, ev),
        spec_applied(s, ev, a),
        spec_applied(s, ev, b),
    ensures
        same_state(a, b),
{
    match ev {
        Event::MatchEnded { .. } => {},
        Event::MatchAbandoned { .. } => {},
        Event::Mulliganed { .. } => {},
        _ => {},
    }
}

/// Applying an event is deterministic: applying the same well-formed event to the same
/// state gives states alike in every field, each list compared by its contents
/// (`same_state`).
pub proof fn law_event_application_is_deterministic(s: GameState, ev: Event, a: GameState, b: GameState)
    requires
        event_ok(s, ev),
        spec_applied(s, ev, a),
        spec_applied(s, ev, b),
    ensures
        same_state(a, b),
{
    if in_part1(ev) {
        lemma_deterministic_part1(s, ev, a, b);
    } else if in_part2(ev) {
        lemma_deterministic_part2(s, ev, a, b);
    } else if in_part3(ev) {
        lemma_deterministic_part3(s, ev, a, b);
    } else if in_part4(ev) {
        lemma_deterministic_part4(s, ev, a, b);
    } else if in_part5(ev) {
        lemma_deterministic_part5(s, ev, a, b);
    } else if in_part6(ev) {
        lemma_deterministic_part6(s, ev, a, b);
    } else if in_part7(ev) {
        lemma_deterministic_part7(s, ev, a, b);
    } else if in_part8(ev) {
        lemma_deterministic_part8(s, ev, a, b);
    } else if in_part9(ev) {
        lemma_deterministic_part9(s, ev, a, b);
    } else if in_part10(ev) {
        lemma_deterministic_part10(s, ev, a, b);
    } else if in_part11(ev) {
        lemma_deterministic_part11(s, ev, a, b);
    } else if in_part12(ev) {
        lemma_deterministic_part12(s, ev, a, b);
    } else if in_part13(ev) {
        lemma_deterministic_part13(s, ev, a, b);
    } else if in_part14(ev) {
        lemma_deterministic_part14(s, ev, a, b);
    } else if in_part15(ev) {
        lemma_deterministic_part15(s, ev, a, b);
    } else if in_part16(ev) {
        lemma_deterministic_part16(s, ev, a, b);
    } else if in_part17(ev) {
        lemma_deterministic_part17(s, ev, a, b);
    } else if in_part18(ev) {
        lemma_deterministic_part18(s, ev, a, b);
    } else if in_part19(ev) {
        lemma_deterministic_part19(s, ev, a, b);
    } else if in_part20(ev) {
        lemma_deterministic_part20(s, ev, a, b);
    } else if in_part21(ev) {
        lemma_deterministic_part21(s, ev, a, b);
    } else if in_part22(ev) {
        lemma_deterministic_part22(s, ev, a, b);
    } else if in_part23(ev) {
        lemma_deterministic_part23(s, ev, a, b);
    } else if in_part24(ev) {
        lemma_deterministic_part24(s, ev, a, b);
    } else if in_part25(ev) {
        lemma_deterministic_part25(s, ev, a, b);
    } else if in_part26(ev) {
        lemma_deterministic_part26(s, ev, a, b);
    } else if in_part27(ev) {
        lemma_deterministic_part27(s, ev, a, b);
    } else if in_part28(ev) {
        lemma_deterministic_part28(s, ev, a, b);
    } else if in_part29(ev) {
        lemma_deterministic_part29(s, ev, a, b);
    } else {
        assert(in_part30(ev));
        lemma_deterministic_part30(s, ev, a, b);
    }
}

} // verus!
