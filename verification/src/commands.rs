//! The smaller commands of a turn: standing orders, banishing the Stray and the opening
//! mulligan. Each answers with the events it records or the reason it is refused.
use vstd::prelude::*;

use crate::auras::lemma_wf_small;
use crate::events::{seat_get, Event};
use crate::rules::Reject;
use crate::state::GameState;
use crate::types::{CardId, Seat};

verus! {

// ---------------------------------------------------------------------------
// Standing orders and the Stray
// ---------------------------------------------------------------------------

/// Standing orders (a free action): only a standing spirit of the actor takes them.
pub open spec fn spec_set_orders(st: GameState, actor: Seat, tile: u8, hold: bool) -> Result<Seq<Event>, Reject> {
    if st.spec_spirit_at(tile) matches Some(sp) && sp.owner == actor && !sp.fading {
        Ok(seq![Event::OrdersSet { tile, hold }])
    } else {
        Err(Reject::TileEmpty)
    }
}

/// Set the standing orders of the actor's spirit on `tile`: Held spirits never intercept.
pub fn decide_set_orders(st: &GameState, actor: Seat, tile: u8, hold: bool) -> (r: Result<Vec<Event>, Reject>)
    ensures
        match r {
            Ok(v) => spec_set_orders(*st, actor, tile, hold) == Ok::<Seq<Event>, Reject>(v@),
            Err(e) => spec_set_orders(*st, actor, tile, hold) == Err::<Seq<Event>, Reject>(e),
        },
{
    match st.spirit_at(tile) {
        Some(sp) => {
            if sp.owner == actor && !sp.fading {
                let mut v: Vec<Event> = Vec::new();
                v.push(Event::OrdersSet { tile, hold });
                Ok(v)
            } else {
                Err(Reject::TileEmpty)
            }
        },
        None => Err(Reject::TileEmpty),
    }
}

/// Banishing the Stray: there must be one, and it must be seen; it leaves the banisher's
/// mark.
pub open spec fn spec_banish_stray(st: GameState, actor: Seat) -> Result<Seq<Event>, Reject> {
    match st.stray {
        None => Err(Reject::NothingPending),
        Some(s) => if s.veiled { Err(Reject::BadTile) } else { Ok(seq![Event::StrayBanished { tile: s.tile, impression: actor }]) },
    }
}

/// Banish the Stray (see `spec_banish_stray`).
pub fn decide_banish_stray(st: &GameState, actor: Seat) -> (r: Result<Vec<Event>, Reject>)
    ensures
        match r {
            Ok(v) => spec_banish_stray(*st, actor) == Ok::<Seq<Event>, Reject>(v@),
            Err(e) => spec_banish_stray(*st, actor) == Err::<Seq<Event>, Reject>(e),
        },
{
    match &st.stray {
        None => Err(Reject::NothingPending),
        Some(s) => {
            if s.veiled {
                Err(Reject::BadTile)
            } else {
                let mut v: Vec<Event> = Vec::new();
                v.push(Event::StrayBanished { tile: s.tile, impression: actor });
                Ok(v)
            }
        },
    }
}

// ---------------------------------------------------------------------------
// The opening mulligan
// ---------------------------------------------------------------------------

/// Something of `seat`'s own stands on the board: a spirit or terrain.
pub open spec fn has_footprint(st: GameState, seat: Seat) -> bool {
    exists|i: int| 0 <= i < st.board@.len() && {
        let t = #[trigger] st.board@[i];
        (t.spirit matches Some(sp) && sp.owner == seat) || (t.terrain matches Some(tr) && tr.owner == seat)
    }
}

/// The opening mulligan window for `seat`: a 1v1 match in round 1, on the seat's own turn,
/// its mulligan unspent, and the seat untouched: no Glimpse taken, its Anima exactly the
/// opening income, and nothing of its own on the board.
pub open spec fn spec_mulligan_window(st: GameState, seat: Seat) -> bool {
    let p = st.spec_player(seat);
    &&& !st.spec_is_2v2()
    &&& st.round == 1
    &&& st.active == seat
    &&& !seat_get(st.mulliganed, seat)
    &&& !p.glimpsed_this_turn
    &&& p.anima == 2
    &&& !has_footprint(st, seat)
}

/// Whether `seat` may still take its opening mulligan (see `spec_mulligan_window`).
pub fn mulligan_window(st: &GameState, seat: Seat) -> (r: bool)
    ensures
        r == spec_mulligan_window(*st, seat),
{
    if st.is_2v2() {
        return false;
    }
    let spent = match seat {
        Seat::A => st.mulliganed[0],
        Seat::B => st.mulliganed[1],
    };
    if st.round != 1 || st.active != seat || spent {
        return false;
    }
    let p = st.player(seat);
    if p.glimpsed_this_turn {
        return false;
    }
    let opening_income: u8 = if 1 + st.round < 6 { 1 + st.round } else { 6 };
    if p.anima != opening_income {
        return false;
    }
    let n = st.board.len();
    for i in 0..n
        invariant
            n == st.board@.len(),
            forall|j: int| 0 <= j < i ==> {
                let t = #[trigger] st.board@[j];
                !((t.spirit matches Some(sp) && sp.owner == seat) || (t.terrain matches Some(tr) && tr.owner == seat))
            },
    {
        let t = &st.board[i];
        let mine = match &t.spirit {
            Some(sp) => sp.owner == seat,
            None => false,
        } || match &t.terrain {
            Some(tr) => tr.owner == seat,
            None => false,
        };
        if mine {
            assert(has_footprint(*st, seat)) by {
                let tt = st.board@[i as int];
                assert((tt.spirit matches Some(sp) && sp.owner == seat) || (tt.terrain matches Some(tr) && tr.owner == seat));
            }
            return false;
        }
    }
    true
}

/// The new hand of a mulligan: the first cards of the shuffled `pool`, as many as the
/// old hand held (as far as the pool goes), less the one sent to the bottom.
pub open spec fn mulligan_hand(h: int, pool: Seq<CardId>, bottom: int) -> Seq<CardId> {
    let draw = if h <= pool.len() { h } else { pool.len() as int };
    let dealt = pool.take(draw);
    if dealt.len() > 0 { dealt.remove(bottom) } else { dealt }
}

/// The new deck: the rest of the pool, in its shuffled order, then the card sent to the
/// bottom.
pub open spec fn mulligan_deck(h: int, pool: Seq<CardId>, bottom: int) -> Seq<CardId> {
    let draw = if h <= pool.len() { h } else { pool.len() as int };
    let dealt = pool.take(draw);
    let rest = pool.skip(draw);
    if dealt.len() > 0 { rest.push(dealt[bottom]) } else { rest }
}

/// The deal of a mulligan (see `decide_mulligan`).
pub fn deal_mulligan(h: usize, pool: Vec<CardId>, bottom: usize) -> (r: (Vec<CardId>, Vec<CardId>))
    requires
        (if h <= pool@.len() { h as int } else { pool@.len() as int }) > 0 ==> bottom < (if h <= pool@.len() { h as int } else { pool@.len() as int }),
    ensures
        r.0@ == mulligan_hand(h as int, pool@, bottom as int),
        r.1@ == mulligan_deck(h as int, pool@, bottom as int),
{
    let draw = if h <= pool.len() { h } else { pool.len() };
    let mut hand: Vec<CardId> = Vec::new();
    let mut deck: Vec<CardId> = Vec::new();
    let n = pool.len();
    for i in 0..n
        invariant
            n == pool@.len(),
            draw <= n,
            i <= draw ==> hand@ == pool@.take(i as int) && deck@.len() == 0,
            i > draw ==> hand@ == pool@.take(draw as int) && deck@ == pool@.subrange(draw as int, i as int),
    {
        if i < draw {
            hand.push(pool[i]);
            assert(pool@.take(i + 1) == pool@.take(i as int).push(pool@[i as int]));
        } else {
            deck.push(pool[i]);
            assert(pool@.subrange(draw as int, i + 1) == pool@.subrange(draw as int, i as int).push(pool@[i as int]));
        }
    }
    if draw == n {
        assert(hand@ == pool@.take(draw as int));
    }
    assert(deck@ == pool@.skip(draw as int));
    if hand.len() > 0 {
        let b = hand.remove(bottom);
        deck.push(b);
    }
    (hand, deck)
}

/// The opening mulligan: the command names the actor's own seat, inside its window. The
/// hand goes back into the deck, the caller shuffles the lot (`pool`) and rolls the card
/// sent to the bottom (`bottom`, below the dealt hand's size); a hand of the old size is
/// dealt from the top and the rolled card goes to the bottom.
pub fn decide_mulligan(st: &GameState, actor: Seat, seat: Seat, pool: Vec<CardId>, bottom: usize) -> (r: Result<Vec<Event>, Reject>)
    requires
        ({
            let h = st.spec_player(actor).hand@.len() as int;
            let draw = if h <= pool@.len() { h } else { pool@.len() as int };
            draw > 0 ==> bottom < draw
        }),
    ensures
        seat != actor || !spec_mulligan_window(*st, actor) ==> r == Err::<Vec<Event>, Reject>(Reject::MulliganUnavailable),
        seat == actor && spec_mulligan_window(*st, actor) ==> (r matches Ok(v) && v@.len() == 1 && match v@[0] {
            Event::Mulliganed { seat: s, hand, deck } => {
                &&& s == actor
                &&& hand@ == mulligan_hand(st.spec_player(actor).hand@.len() as int, pool@, bottom as int)
                &&& deck@ == mulligan_deck(st.spec_player(actor).hand@.len() as int, pool@, bottom as int)
            },
            _ => false,
        }),
{
    if seat != actor || !mulligan_window(st, actor) {
        return Err(Reject::MulliganUnavailable);
    }
    let h = st.player(actor).hand.len();
    let (hand, deck) = deal_mulligan(h, pool, bottom);
    let mut v: Vec<Event> = Vec::new();
    v.push(Event::Mulliganed { seat: actor, hand, deck });
    Ok(v)
}

} // verus!
