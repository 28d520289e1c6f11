//! The turn's tail: which fading bases are due to dissolve at their owner's turn-end, and
//! the round's wrap after seat B (the Dusk's contraction, the next round, or the end).
use vstd::prelude::*;

use crate::auras::lemma_wf_small;
use crate::cards::{lookup_card, spec_card_index};
use crate::events::Event;
use crate::flow::{applicable, applies, push_all};
use crate::state::GameState;
use crate::auras::{adjacent_denies_impression, spec_adjacent_carrier, ClauseTest};
use crate::effects::{Canon, RuleException};
use crate::flow::{fade_if_held, held_ground_fades, lemma_applies_push, push};
use crate::projection::cards_known;
use crate::targets::{lacuna_denies_impression, spec_lacuna_denies_impression};
use crate::types::{is_rim_w, spec_is_rim_w, CardDef, Seat};

verus! {

/// The spirit on tile `i` is a base of `actor` whose standing-Faded window closes at this
/// turn-end: fading, with a deadline the round has reached.
pub open spec fn fade_due_at(st: GameState, actor: Seat, i: int) -> bool {
    &&& st.board@[i].spirit matches Some(sp)
    &&& sp.owner == actor
    &&& sp.fading
    &&& sp.fade_deadline matches Some(d)
    &&& st.round >= d
}

/// The mark a due base leaves: its banisher's, else its owner's.
pub open spec fn due_mark(st: GameState, i: int) -> Seat {
    let sp = st.board@[i].spirit->Some_0;
    match sp.banished_by {
        Some(s) => s,
        None => sp.owner,
    }
}

/// The due bases among the first `n` tiles, with the mark each leaves, in board order.
pub open spec fn fades_due(st: GameState, actor: Seat, n: int) -> Seq<(u8, Seat)>
    decreases n,
{
    if n <= 0 {
        Seq::empty()
    } else {
        fades_due(st, actor, n - 1) + if fade_due_at(st, actor, n - 1) { seq![((n - 1) as u8, due_mark(st, n - 1))] } else { Seq::empty() }
    }
}

/// The bases of `actor` due to dissolve at this turn-end (see `fade_due_at`), with the mark
/// each leaves; the caller dissolves each (or spends its delay).
pub fn fade_due(sim: &GameState, actor: Seat) -> (r: Vec<(u8, Seat)>)
    requires
        sim.wf(),
    ensures
        r@ == fades_due(*sim, actor, sim.board@.len() as int),
{
    proof {
        lemma_wf_small(*sim);
    }
    let n = sim.board.len();
    let mut out: Vec<(u8, Seat)> = Vec::new();
    for i in 0..n
        invariant
            n == sim.board@.len() <= 64,
            out@ == fades_due(*sim, actor, i as int),
    {
        match &sim.board[i].spirit {
            Some(sp) => {
                let due = sp.owner == actor && sp.fading && match sp.fade_deadline {
                    Some(d) => sim.round >= d,
                    None => false,
                };
                if due {
                    let mark = match sp.banished_by {
                        Some(s) => s,
                        None => sp.owner,
                    };
                    out.push((i as u8, mark));
                }
            },
            None => {},
        }
    }
    out
}

/// Tile `i` fades at the Dusk: an unfaded rim tile, empty or held by a Solace creature
/// (a player's standing spirit keeps its ground).
pub open spec fn dusk_takes(st: GameState, catalog: Seq<CardDef>, i: int) -> bool {
    &&& spec_is_rim_w(i as u8, st.board_w)
    &&& !st.board@[i].faded
    &&& match st.board@[i].spirit {
        None => true,
        Some(sp) => match spec_card_index(catalog, sp.card) {
            Some(k) => catalog[k].kind.spec_is_antagonist_creature(),
            None => false,
        },
    }
}

/// The tiles among the first `n` the Dusk takes, in board order.
pub open spec fn dusk_tiles(st: GameState, catalog: Seq<CardDef>, n: int) -> Seq<u8>
    decreases n,
{
    if n <= 0 {
        Seq::empty()
    } else {
        dusk_tiles(st, catalog, n - 1) + if dusk_takes(st, catalog, n - 1) { seq![(n - 1) as u8] } else { Seq::empty() }
    }
}

/// `added` is the round's wrap after `actor`'s turn: after seat B, the Dusk's contraction of
/// the tiles it takes when this is the round it is due, then the next round unless this was
/// the last; nothing after seat A.
pub open spec fn wrap_ok(added: Seq<Event>, st: GameState, catalog: Seq<CardDef>, actor: Seat) -> bool {
    if actor == Seat::B {
        let dusk = st.round == st.rules.contraction_after;
        let next = st.round < st.rules.last_round;
        &&& added.len() == (if dusk { 1int } else { 0int }) + (if next { 1int } else { 0int })
        &&& dusk ==> (added[0] matches Event::MemoryContracted { faded_tiles } && faded_tiles@ == dusk_tiles(st, catalog, st.board@.len() as int))
        &&& next ==> added.last() == Event::RoundAdvanced { round: (st.round + 1) as u8 }
    } else {
        added.len() == 0
    }
}

fn dusk_exec(sim: &GameState, catalog: &[CardDef]) -> (r: Vec<u8>)
    requires
        sim.wf(),
    ensures
        r@ == dusk_tiles(*sim, catalog@, sim.board@.len() as int),
{
    proof {
        lemma_wf_small(*sim);
    }
    let n = sim.board.len();
    let mut out: Vec<u8> = Vec::new();
    for i in 0..n
        invariant
            n == sim.board@.len() <= 64,
            crate::types::valid_width(sim.board_w),
            out@ == dusk_tiles(*sim, catalog@, i as int),
    {
        let takes = is_rim_w(i as u8, sim.board_w) && !sim.board[i].faded && match &sim.board[i].spirit {
            None => true,
            Some(sp) => match lookup_card(catalog, sp.card) {
                Some(c) => c.kind.is_antagonist_creature(),
                None => false,
            },
        };
        if takes {
            out.push(i as u8);
        }
    }
    out
}

/// The round's wrap at the end of `actor`'s turn (see `wrap_ok`), recorded and applied.
/// The answer is whether the match is over: seat B has closed the last round, and the
/// caller runs the Nightfall (`finish`) in place of the next turn.
pub fn close_round(sim: &mut GameState, evs: &mut Vec<Event>, catalog: &[CardDef], actor: Seat) -> (ends: bool)
    requires
        old(sim).wf(),
    ensures
        ends == (actor == Seat::B && old(sim).round >= old(sim).rules.last_round),
        exists|added: Seq<Event>| #![trigger wrap_ok(added, *old(sim), catalog@, actor)] {
            &&& wrap_ok(added, *old(sim), catalog@, actor)
            &&& final(evs)@ == old(evs)@ + added
            &&& applies(*old(sim), added, *final(sim))
        },
{
    let ghost s0 = *sim;
    let ghost e0 = evs@;
    proof {
        lemma_wf_small(s0);
        crate::flow::lemma_applies_none(s0);
        assert(e0 + Seq::<Event>::empty() == e0);
    }
    if actor != Seat::B {
        assert(wrap_ok(Seq::<Event>::empty(), s0, catalog@, actor));
        return false;
    }
    let old_round = sim.round;
    let ghost mut added: Seq<Event> = Seq::empty();
    if old_round == sim.rules.contraction_after {
        let faded = dusk_exec(sim, catalog);
        proof {
            lemma_dusk_on_board(s0, catalog@, s0.board@.len() as int);
        }
        let ev = Event::MemoryContracted { faded_tiles: faded };
        let ghost before = *sim;
        crate::flow::push(sim, evs, ev);
        proof {
            crate::flow::lemma_applies_push(s0, added, before, ev, *sim);
            added = added.push(ev);
        }
    }
    let ends = old_round >= sim.rules.last_round;
    if !ends {
        let ev = Event::RoundAdvanced { round: old_round + 1 };
        let ghost before = *sim;
        crate::flow::push(sim, evs, ev);
        proof {
            crate::flow::lemma_applies_push(s0, added, before, ev, *sim);
            added = added.push(ev);
        }
    }
    assert(wrap_ok(added, s0, catalog@, actor));
    assert(evs@ == e0 + added);
    ends
}

proof fn lemma_dusk_on_board(st: GameState, catalog: Seq<CardDef>, n: int)
    requires
        0 <= n <= st.board@.len() <= 64,
    ensures
        forall|k: int| 0 <= k < dusk_tiles(st, catalog, n).len() ==> (#[trigger] dusk_tiles(st, catalog, n)[k] as int) < n,
    decreases n,
{
    if n > 0 {
        lemma_dusk_on_board(st, catalog, n - 1);
        let prev = dusk_tiles(st, catalog, n - 1);
        assert forall|k: int| 0 <= k < dusk_tiles(st, catalog, n).len() implies (#[trigger] dusk_tiles(st, catalog, n)[k] as int) < n by {
            if k < prev.len() {
                assert(dusk_tiles(st, catalog, n)[k] == prev[k]);
            }
        }
    }
}

// ---------------------------------------------------------------------------
// The mark a dissolving spirit leaves
// ---------------------------------------------------------------------------

/// What a fading spirit on `tile` leaves as it dissolves, once its Partings (and an
/// Unwritten's Unwrite) have fired: an Unwritten leaves nothing at all; a player's mark next
/// to a Lacuna is denied, and the denial counts as an erasure; otherwise the banisher's mark
/// is laid, unless a Long Rest beside the tile unwrites it at once.
pub open spec fn mark_events(st: GameState, canon: Canon, catalog: Seq<CardDef>, tile: u8, impression: Seat, unwritten: bool) -> Seq<Event> {
    if unwritten {
        if st.spec_spirit_at(tile) is Some { seq![Event::TokenDissolved { tile }] } else { Seq::empty() }
    } else if impression == Seat::A && spec_lacuna_denies_impression(st, catalog, tile) {
        seq![Event::SpiritReleased { tile }, Event::ImpressionForgotten { tile }]
    } else {
        seq![Event::SpiritDissolved { tile, impression }] + if spec_adjacent_carrier(st, canon, catalog, tile,
            ClauseTest::AnyException(RuleException::NoImpressionOnAdjacentDissolve), None) {
            seq![Event::ImpressionUnwritten { tile }]
        } else {
            Seq::empty()
        }
    }
}

/// The dissolving spirit on `tile` leaves its mark (see `mark_events`), then vacated rim
/// ground fades behind it under the Held Ground law. `unwritten` is whether the spirit that
/// began to dissolve was an Unwritten. The Partings before, and the Faultline and banish
/// witnesses after, are its caller's.
pub fn dissolve_mark(sim: &mut GameState, evs: &mut Vec<Event>, canon: &Canon, catalog: &[CardDef], tile: u8, impression: Seat, unwritten: bool)
    requires
        old(sim).wf(),
        cards_known(*old(sim), catalog@),
        (tile as int) < old(sim).board@.len(),
        crate::events::event_ok(*old(sim), Event::SpiritDissolved { tile, impression }),
    ensures
        exists|mid: GameState| #![trigger applies(*old(sim), mark_events(*old(sim), *canon, catalog@, tile, impression, unwritten), mid)] {
            &&& applies(*old(sim), mark_events(*old(sim), *canon, catalog@, tile, impression, unwritten), mid)
            &&& held_ground_fades(mid, tile) ==> final(evs)@ == old(evs)@ + mark_events(*old(sim), *canon, catalog@, tile, impression, unwritten).push(Event::TileFaded { tile })
                && crate::events::spec_applied(mid, Event::TileFaded { tile }, *final(sim))
            &&& !held_ground_fades(mid, tile) ==> final(evs)@ == old(evs)@ + mark_events(*old(sim), *canon, catalog@, tile, impression, unwritten)
                && *final(sim) == mid
        },
{
    let ghost s0 = *sim;
    let ghost e0 = evs@;
    let ghost list = mark_events(s0, *canon, catalog@, tile, impression, unwritten);
    proof {
        crate::flow::lemma_applies_none(s0);
        assert(e0 + Seq::<Event>::empty() == e0);
    }
    if unwritten {
        if sim.spirit_at(tile).is_some() {
            let ev = Event::TokenDissolved { tile };
            push(sim, evs, ev);
            proof {
                lemma_applies_push(s0, Seq::empty(), s0, ev, *sim);
                assert(Seq::<Event>::empty().push(ev) == list);
            }
        } else {
            assert(list == Seq::<Event>::empty());
        }
    } else if matches!(impression, Seat::A) && lacuna_denies_impression(sim, catalog, tile) {
        let e1 = Event::SpiritReleased { tile };
        push(sim, evs, e1);
        let ghost s1 = *sim;
        proof {
            lemma_applies_push(s0, Seq::empty(), s0, e1, s1);
        }
        let e2 = Event::ImpressionForgotten { tile };
        push(sim, evs, e2);
        proof {
            lemma_applies_push(s0, Seq::empty().push(e1), s1, e2, *sim);
            assert(Seq::empty().push(e1).push(e2) == list);
        }
    } else {
        let unwrite = adjacent_denies_impression(sim, canon, catalog, tile);
        let e1 = Event::SpiritDissolved { tile, impression };
        push(sim, evs, e1);
        let ghost s1 = *sim;
        proof {
            lemma_applies_push(s0, Seq::empty(), s0, e1, s1);
        }
        if unwrite {
            let e2 = Event::ImpressionUnwritten { tile };
            push(sim, evs, e2);
            proof {
                lemma_applies_push(s0, Seq::empty().push(e1), s1, e2, *sim);
                assert(Seq::empty().push(e1).push(e2) == list);
            }
        } else {
            assert(Seq::empty().push(e1) == list);
        }
    }
    let ghost mid = *sim;
    assert(applies(s0, list, mid));
    assert(evs@ == e0 + list);
    fade_if_held(sim, evs, tile);
}

} // verus!
