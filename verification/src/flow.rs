//! Turn-flow steps that decide events from the state alone and apply them as they go:
//! the Held Ground fade, Bond upkeep, the next-arrival buff, and the Nightfall scoring
//! that ends the match.
use vstd::prelude::*;

use crate::auras::{card_carries_static_exception, lemma_wf_small, spec_card_static_has, ClauseTest};
use crate::cards::{card, spec_card};
use crate::conditions::{manhattan, spec_manhattan};
use crate::effects::{Canon, RuleException};
use crate::events::{event_ok, sat_add, seat_get, spec_applied, Event};
use crate::evolve::apply_event;
use crate::projection::cards_known;
use crate::state::{Bond, GameState, MatchResult, Phase};
use crate::targets::{cools_at, erasure_patience_cooled_tiles};
use crate::types::{is_rim_w, spec_adjacent_w, spec_is_rim_w, CardDef, CardId, Seat};

verus! {

// ---------------------------------------------------------------------------
// Event sequences
// ---------------------------------------------------------------------------

/// `states` walks through `evs`: each event takes one state to the next.
pub open spec fn chains(states: Seq<GameState>, evs: Seq<Event>) -> bool {
    &&& states.len() == evs.len() + 1
    &&& forall|i: int| #![trigger evs[i]] 0 <= i < evs.len() ==> spec_applied(states[i], evs[i], states[i + 1])
}

/// `new` is `old` after the events `evs`, applied in order.
pub open spec fn applies(old: GameState, evs: Seq<Event>, new: GameState) -> bool {
    exists|states: Seq<GameState>| #![trigger chains(states, evs)]
        chains(states, evs) && states[0] == old && states.last() == new
}

pub proof fn lemma_applies_none(st: GameState)
    ensures
        applies(st, Seq::<Event>::empty(), st),
{
    assert(chains(seq![st], Seq::<Event>::empty()));
}

pub proof fn lemma_applies_push(old: GameState, evs: Seq<Event>, mid: GameState, ev: Event, new: GameState)
    requires
        applies(old, evs, mid),
        spec_applied(mid, ev, new),
    ensures
        applies(old, evs.push(ev), new),
{
    let states = choose|states: Seq<GameState>| #![trigger chains(states, evs)]
        chains(states, evs) && states[0] == old && states.last() == mid;
    let states2 = states.push(new);
    let evs2 = evs.push(ev);
    assert forall|i: int| #![trigger evs2[i]] 0 <= i < evs2.len() implies spec_applied(states2[i], evs2[i], states2[i + 1]) by {
        if i < evs.len() {
            assert(evs2[i] == evs[i]);
            assert(states2[i] == states[i]);
            assert(states2[i + 1] == states[i + 1]);
        } else {
            assert(states2[i] == mid);
        }
    }
    assert(chains(states2, evs2));
}

/// Each event of `evs` can be applied in turn from `st`: the events name tiles on the
/// board and stay in range as they go.
pub open spec fn applicable(st: GameState, evs: Seq<Event>) -> bool
    decreases evs.len(),
{
    evs.len() == 0 || (event_ok(st, evs[0]) && forall|s2: GameState| #[trigger] spec_applied(st, evs[0], s2)
        ==> applicable(s2, evs.drop_first()))
}

/// Apply `list` in order, recording each event.
pub fn push_all(sim: &mut GameState, evs: &mut Vec<Event>, list: Vec<Event>)
    requires
        applicable(*old(sim), list@),
    ensures
        final(evs)@ == old(evs)@ + list@,
        applies(*old(sim), list@, *final(sim)),
{
    let ghost s0 = *sim;
    let ghost e0 = evs@;
    let ghost all = list@;
    proof {
        lemma_applies_none(s0);
        assert(all.subrange(0, 0) == Seq::<Event>::empty());
        assert(all.subrange(0, all.len() as int) == all);
        assert(e0 + Seq::<Event>::empty() == e0);
    }
    let mut rest = list;
    while rest.len() > 0
        invariant
            rest@ == all.subrange(all.len() - rest@.len(), all.len() as int),
            rest@.len() <= all.len(),
            evs@ == e0 + all.subrange(0, all.len() - rest@.len()),
            applies(s0, all.subrange(0, all.len() - rest@.len()), *sim),
            applicable(*sim, rest@),
        decreases rest@.len(),
    {
        let ghost k = all.len() - rest@.len();
        let ghost before = *sim;
        let ghost r0 = rest@;
        let e = rest.remove(0);
        assert(e == all[k]);
        push(sim, evs, e);
        proof {
            lemma_applies_push(s0, all.subrange(0, k), before, e, *sim);
            assert(all.subrange(0, k).push(e) == all.subrange(0, k + 1));
            assert(r0.drop_first() == rest@);
            assert((e0 + all.subrange(0, k)).push(e) == e0 + all.subrange(0, k + 1));
        }
    }
}

/// Apply `ev` and record it.
pub fn push(sim: &mut GameState, evs: &mut Vec<Event>, ev: Event)
    requires
        event_ok(*old(sim), ev),
    ensures
        spec_applied(*old(sim), ev, *final(sim)),
        final(evs)@ == old(evs)@.push(ev),
{
    apply_event(sim, &ev);
    evs.push(ev);
}

// ---------------------------------------------------------------------------
// Held Ground
// ---------------------------------------------------------------------------

/// Held Ground: vacated rim ground fades behind its keeper once the memory has contracted.
pub open spec fn held_ground_fades(sim: GameState, tile: u8) -> bool {
    &&& sim.contracted
    &&& spec_is_rim_w(tile, sim.board_w)
    &&& !sim.board@[tile as int].faded
    &&& sim.board@[tile as int].spirit is None
}

/// The Held Ground fade of `tile`: vacated rim ground fades once the memory has contracted.
pub fn fade_if_held(sim: &mut GameState, evs: &mut Vec<Event>, tile: u8)
    requires
        old(sim).wf(),
        (tile as int) < old(sim).board@.len(),
    ensures
        held_ground_fades(*old(sim), tile) ==> final(evs)@ == old(evs)@.push(Event::TileFaded { tile })
            && spec_applied(*old(sim), Event::TileFaded { tile }, *final(sim)),
        !held_ground_fades(*old(sim), tile) ==> final(evs)@ == old(evs)@ && *final(sim) == *old(sim),
{
    if sim.contracted && is_rim_w(tile, sim.board_w) && !sim.board[tile as usize].faded
        && sim.board[tile as usize].spirit.is_none() {
        push(sim, evs, Event::TileFaded { tile });
    }
}

// ---------------------------------------------------------------------------
// The next arrival
// ---------------------------------------------------------------------------

/// Kindle: the seat's queued next-arrival Attack goes onto the spirit that just arrived
/// on `tile` for this round, and the offer is spent; nothing happens with none queued.
pub fn apply_next_arrival(sim: &mut GameState, evs: &mut Vec<Event>, actor: Seat, tile: u8)
    ensures
        seat_get(old(sim).next_arrival_atk, actor) == 0 ==> final(evs)@ == old(evs)@ && *final(sim) == *old(sim),
        seat_get(old(sim).next_arrival_atk, actor) != 0 ==> {
            let added = seq![
                Event::EffectTempStat { tile, attack: seat_get(old(sim).next_arrival_atk, actor), defense: 0, until_round: old(sim).round },
                Event::NextArrivalConsumed { seat: actor },
            ];
            final(evs)@ == old(evs)@ + added && applies(*old(sim), added, *final(sim))
        },
{
    let ghost s0 = *sim;
    let atk = match actor {
        Seat::A => sim.next_arrival_atk[0],
        Seat::B => sim.next_arrival_atk[1],
    };
    if atk != 0 {
        let until = sim.round;
        let e1 = Event::EffectTempStat { tile, attack: atk, defense: 0, until_round: until };
        push(sim, evs, e1);
        let ghost s1 = *sim;
        let e2 = Event::NextArrivalConsumed { seat: actor };
        push(sim, evs, e2);
        proof {
            lemma_applies_none(s0);
            lemma_applies_push(s0, Seq::<Event>::empty(), s0, e1, s1);
            lemma_applies_push(s0, seq![e1], s1, e2, *sim);
            assert(seq![e1].push(e2) == seq![e1, e2]);
            assert(Seq::<Event>::empty().push(e1) == seq![e1]);
        }
    }
}

// ---------------------------------------------------------------------------
// Bonds
// ---------------------------------------------------------------------------

/// The tile holds a standing spirit of `owner`.
pub open spec fn holds_for(sim: GameState, t: u8, owner: Seat) -> bool {
    sim.spec_spirit_at(t) matches Some(s) && !s.fading && s.owner == owner
}

/// A Bond is broken once either endpoint no longer holds a standing spirit of the Bond's
/// owner (left play, fading, or taken by an enemy), or the pair has drifted apart: an
/// Unbreakable Bond survives one tile of separation, any other needs the pair adjacent.
pub open spec fn bond_broken(sim: GameState, canon: Canon, catalog: Seq<CardDef>, b: Bond) -> bool {
    let max_dist = if spec_card_static_has(canon, catalog, b.card, ClauseTest::AnyException(RuleException::BondHoldsUnlessSeparated)) {
        2int
    } else {
        1int
    };
    !holds_for(sim, b.tile_a, b.owner) || !holds_for(sim, b.tile_b, b.owner) || spec_manhattan(b.tile_a, b.tile_b) > max_dist
}

/// The `BondBroken` events for the broken Bonds among the first `n`, in order.
pub open spec fn breaks(sim: GameState, canon: Canon, catalog: Seq<CardDef>, n: int) -> Seq<Event>
    decreases n,
{
    if n <= 0 {
        Seq::empty()
    } else {
        let prev = breaks(sim, canon, catalog, n - 1);
        let b = sim.bonds@[n - 1];
        if bond_broken(sim, canon, catalog, b) { prev.push(Event::BondBroken { card: b.card }) } else { prev }
    }
}

/// One `BondBroken` per card, in order.
pub open spec fn bond_events(cards: Seq<CardId>) -> Seq<Event> {
    cards.map_values(|c: CardId| Event::BondBroken { card: c })
}

fn broken_bond_cards(sim: &GameState, canon: &Canon, catalog: &[CardDef]) -> (r: Vec<CardId>)
    ensures
        breaks(*sim, *canon, catalog@, sim.bonds@.len() as int) == bond_events(r@),
{
    let mut broken: Vec<CardId> = Vec::new();
    let n = sim.bonds.len();
    for k in 0..n
        invariant
            n == sim.bonds@.len(),
            breaks(*sim, *canon, catalog@, k as int) == bond_events(broken@),
    {
        let b = sim.bonds[k];
        let held_a = match sim.spirit_at(b.tile_a) {
            Some(s) => !s.fading && s.owner == b.owner,
            None => false,
        };
        let held_b = match sim.spirit_at(b.tile_b) {
            Some(s) => !s.fading && s.owner == b.owner,
            None => false,
        };
        let max_dist: i16 = if card_carries_static_exception(canon, catalog, b.card, RuleException::BondHoldsUnlessSeparated) {
            2
        } else {
            1
        };
        let ghost old_broken = broken@;
        assert(b == sim.bonds@[k as int]);
        assert(bond_broken(*sim, *canon, catalog@, b) == (!held_a || !held_b || spec_manhattan(b.tile_a, b.tile_b) > max_dist));
        if !held_a || !held_b || manhattan(b.tile_a, b.tile_b) > max_dist {
            broken.push(b.card);
            assert(bond_events(broken@) =~= bond_events(old_broken).push(Event::BondBroken { card: b.card }));
        }
    }
    broken
}

/// Every Bond broken now breaks: one `BondBroken` per broken Bond, in Bond order, all read
/// from the state before any of them applies. Safe to run again: a second pass breaks
/// nothing more.
pub fn prune_broken_bonds(sim: &mut GameState, evs: &mut Vec<Event>, canon: &Canon, catalog: &[CardDef])
    ensures
        final(evs)@ == old(evs)@ + breaks(*old(sim), *canon, catalog@, old(sim).bonds@.len() as int),
        applies(*old(sim), breaks(*old(sim), *canon, catalog@, old(sim).bonds@.len() as int), *final(sim)),
{
    let ghost s0 = *sim;
    let broken = broken_bond_cards(sim, canon, catalog);
    let n = sim.bonds.len();
    let ghost all = breaks(s0, *canon, catalog@, n as int);
    let ghost e0 = evs@;
    proof {
        lemma_applies_none(s0);
        assert(all.subrange(0, 0) == Seq::<Event>::empty());
        assert(e0 + all.subrange(0, 0) == e0);
    }
    let m = broken.len();
    for j in 0..m
        invariant
            m == broken@.len() == all.len(),
            all == bond_events(broken@),
            evs@ == e0 + all.subrange(0, j as int),
            applies(s0, all.subrange(0, j as int), *sim),
    {
        let ghost before = *sim;
        let e = Event::BondBroken { card: broken[j] };
        push(sim, evs, e);
        proof {
            lemma_applies_push(s0, all.subrange(0, j as int), before, e, *sim);
            assert(all.subrange(0, j as int).push(e) == all.subrange(0, j + 1));
        }
    }
    assert(all.subrange(0, m as int) == all);
}

// ---------------------------------------------------------------------------
// Nightfall
// ---------------------------------------------------------------------------

/// Erasure's Patience cools tile `t`: it lies one step from a standing spirit carrying
/// `AdjacentImpressionsDontScore`.
pub open spec fn is_cooled(sim: GameState, canon: Canon, catalog: Seq<CardDef>, t: u8) -> bool {
    exists|i: int| 0 <= i < sim.board@.len() && #[trigger] cools_at(sim, canon, catalog, i) && spec_adjacent_w(i as u8, t, sim.board_w)
}

/// Who tile `i` scores for at Nightfall: one point per tile, to whatever is last on it —
/// the standing spirit's owner, else the tile's impression, unless impressions lie dormant
/// this round or Erasure's Patience has cooled the tile.
pub open spec fn tile_scorer(sim: GameState, canon: Canon, catalog: Seq<CardDef>, i: int) -> Option<Seat> {
    let t = sim.board@[i];
    match t.spirit {
        Some(sp) => Some(sp.owner),
        None => if t.impressions@.len() > 0 && sim.impressions_dormant_round != Some(sim.round)
            && !is_cooled(sim, canon, catalog, i as u8) {
            Some(t.impressions@[0])
        } else {
            None
        },
    }
}

/// The points `seat` holds among the first `n` tiles.
pub open spec fn points(sim: GameState, canon: Canon, catalog: Seq<CardDef>, seat: Seat, n: int) -> nat
    decreases n,
{
    if n <= 0 {
        0
    } else {
        points(sim, canon, catalog, seat, n - 1) + if tile_scorer(sim, canon, catalog, n - 1) == Some(seat) { 1nat } else { 0nat }
    }
}

proof fn lemma_points_bound(sim: GameState, canon: Canon, catalog: Seq<CardDef>, seat: Seat, n: int)
    requires
        0 <= n,
    ensures
        points(sim, canon, catalog, seat, n) <= n,
    decreases n,
{
    if n > 0 {
        lemma_points_bound(sim, canon, catalog, seat, n - 1);
    }
}

/// The final score: each seat's tiles, with the Solace's off-board erasure tally joining
/// seat B's (saturating).
pub open spec fn final_score(sim: GameState, canon: Canon, catalog: Seq<CardDef>) -> (u8, u8) {
    let n = sim.board@.len() as int;
    (points(sim, canon, catalog, Seat::A, n) as u8, sat_add(points(sim, canon, catalog, Seat::B, n) as u8, sim.solace_erasures))
}

/// The higher score wins; equal scores draw.
pub open spec fn result_of(a: u8, b: u8) -> MatchResult {
    if a > b {
        MatchResult::Win(Seat::A)
    } else if b > a {
        MatchResult::Win(Seat::B)
    } else {
        MatchResult::Draw
    }
}

/// Tally the score of a square board: each tile scores for its standing spirit's owner,
/// else for its impression where impressions score; the Solace's erasures join seat B.
pub fn score(sim: &GameState, canon: &Canon, catalog: &[CardDef]) -> (r: (u8, u8))
    requires
        sim.wf(),
    ensures
        r == final_score(*sim, *canon, catalog@),
        (r.0 as int) + (r.1 as int) <= sim.board@.len() + sim.solace_erasures,
{
    proof {
        lemma_wf_small(*sim);
        crate::laws::law_one_point_per_tile(*sim, *canon, catalog@, sim.board@.len() as int);
    }
    let cooled = erasure_patience_cooled_tiles(sim, canon, catalog);
    let impressions_score = match sim.impressions_dormant_round {
        Some(r) => r != sim.round,
        None => true,
    };
    let mut a: u8 = 0;
    let mut b: u8 = 0;
    let n = sim.board.len();
    for i in 0..n
        invariant
            n == sim.board@.len() <= 64,
            impressions_score == (sim.impressions_dormant_round != Some(sim.round)),
            forall|t: u8| cooled@.contains(t) <==> is_cooled(*sim, *canon, catalog@, t),
            a == points(*sim, *canon, catalog@, Seat::A, i as int),
            b == points(*sim, *canon, catalog@, Seat::B, i as int),
    {
        proof {
            lemma_points_bound(*sim, *canon, catalog@, Seat::A, i as int);
            lemma_points_bound(*sim, *canon, catalog@, Seat::B, i as int);
        }
        let t = &sim.board[i];
        let scorer: Option<Seat> = match &t.spirit {
            Some(sp) => Some(sp.owner),
            None => {
                if t.impressions.len() > 0 && impressions_score && !crate::evolve::contains_tile(&cooled, i as u8) {
                    Some(t.impressions[0])
                } else {
                    None
                }
            },
        };
        assert(scorer == tile_scorer(*sim, *canon, catalog@, i as int));
        match scorer {
            Some(Seat::A) => {
                a = a + 1;
            },
            Some(Seat::B) => {
                b = b + 1;
            },
            None => {},
        }
    }
    proof {
        lemma_points_bound(*sim, *canon, catalog@, Seat::A, n as int);
        lemma_points_bound(*sim, *canon, catalog@, Seat::B, n as int);
    }
    (a, b.saturating_add(sim.solace_erasures))
}

/// The Nightfall dissolve of tile `i`, if a fading spirit stands there: an Unwritten
/// leaves nothing, any other dissolves leaving its banisher's mark (its owner's if it has
/// none); then vacated contracted rim ground fades behind it.
pub open spec fn nightfall_tile(sim: GameState, catalog: Seq<CardDef>, i: int) -> Seq<Event> {
    match sim.board@[i].spirit {
        Some(sp) => if sp.fading {
            let d = if spec_card(catalog, sp.card).spec_is_unwritten() {
                Event::TokenDissolved { tile: i as u8 }
            } else {
                Event::SpiritDissolved { tile: i as u8, impression: match sp.banished_by { Some(s) => s, None => sp.owner } }
            };
            if sim.contracted && spec_is_rim_w(i as u8, sim.board_w) && !sim.board@[i].faded {
                seq![d, Event::TileFaded { tile: i as u8 }]
            } else {
                seq![d]
            }
        } else {
            Seq::empty()
        },
        None => Seq::empty(),
    }
}

/// The Nightfall dissolves of the first `n` tiles, in board order.
pub open spec fn nightfall(sim: GameState, catalog: Seq<CardDef>, n: int) -> Seq<Event>
    decreases n,
{
    if n <= 0 {
        Seq::empty()
    } else {
        nightfall(sim, catalog, n - 1) + nightfall_tile(sim, catalog, n - 1)
    }
}

/// A fading spirit of `seat`, not an Unwritten, stands on tile `i`: one Nightfall dissolve
/// that counts toward the seat's dissolutions.
pub open spec fn counts_at(sim: GameState, catalog: Seq<CardDef>, seat: Seat, i: int) -> bool {
    sim.board@[i].spirit matches Some(sp) && sp.fading && sp.owner == seat && !spec_card(catalog, sp.card).spec_is_unwritten()
}

/// How many of the first `n` tiles hold such a spirit.
pub open spec fn counted(sim: GameState, catalog: Seq<CardDef>, seat: Seat, n: int) -> int
    decreases n,
{
    if n <= 0 {
        0
    } else {
        counted(sim, catalog, seat, n - 1) + if counts_at(sim, catalog, seat, n - 1) { 1int } else { 0int }
    }
}

proof fn lemma_counted_mono(sim: GameState, catalog: Seq<CardDef>, seat: Seat, i: int, n: int)
    requires
        0 <= i <= n,
    ensures
        counted(sim, catalog, seat, i) <= counted(sim, catalog, seat, n),
    decreases n - i,
{
    if i < n {
        lemma_counted_mono(sim, catalog, seat, i, n - 1);
    }
}

/// The Nightfall step that ends the match: every remaining fading spirit dissolves (see
/// `nightfall_tile`), then the board is scored and the result recorded.
pub fn finish(sim: &mut GameState, evs: &mut Vec<Event>, canon: &Canon, catalog: &[CardDef])
    requires
        old(sim).wf(),
        cards_known(*old(sim), catalog@),
        seat_get(old(sim).dissolved_this_turn, Seat::A) + counted(*old(sim), catalog@, Seat::A, old(sim).board@.len() as int) < 256,
        seat_get(old(sim).dissolved_this_turn, Seat::B) + counted(*old(sim), catalog@, Seat::B, old(sim).board@.len() as int) < 256,
    ensures
        ({
            let dusk = nightfall(*old(sim), catalog@, old(sim).board@.len() as int);
            let mid = GameState { phase: old(sim).phase, ..*final(sim) };
            let (a, b) = final_score(mid, *canon, catalog@);
            &&& applies(*old(sim), dusk, mid)
            &&& final(sim).phase == (Phase::Finished { result: result_of(a, b), score_a: a, score_b: b })
            &&& final(evs)@ == old(evs)@ + dusk.push(Event::MatchEnded { result: result_of(a, b), score_a: a, score_b: b })
        }),
        forall|j: int| 0 <= j < final(sim).board@.len() ==> !(#[trigger] final(sim).board@[j].spirit matches Some(sp) && sp.fading),
{
    let ghost s0 = *sim;
    let ghost e0 = evs@;
    proof {
        lemma_wf_small(s0);
        lemma_applies_none(s0);
        assert(e0 + Seq::<Event>::empty() == e0);
    }
    let n = sim.board.len();
    for i in 0..n
        invariant
            n == s0.board@.len() <= 64,
            s0.wf(),
            cards_known(s0, catalog@),
            seat_get(s0.dissolved_this_turn, Seat::A) + counted(s0, catalog@, Seat::A, n as int) < 256,
            seat_get(s0.dissolved_this_turn, Seat::B) + counted(s0, catalog@, Seat::B, n as int) < 256,
            applies(s0, nightfall(s0, catalog@, i as int), *sim),
            evs@ == e0 + nightfall(s0, catalog@, i as int),
            sim.board@.len() == n,
            sim.board_w == s0.board_w,
            sim.contracted == s0.contracted,
            sim.phase == s0.phase,
            sim.wf(),
            forall|j: int| i <= j < n ==> #[trigger] sim.board@[j] == s0.board@[j],
            forall|j: int| 0 <= j < i ==> !(#[trigger] sim.board@[j].spirit matches Some(sp) && sp.fading),
            seat_get(sim.dissolved_this_turn, Seat::A) == seat_get(s0.dissolved_this_turn, Seat::A) + counted(s0, catalog@, Seat::A, i as int),
            seat_get(sim.dissolved_this_turn, Seat::B) == seat_get(s0.dissolved_this_turn, Seat::B) + counted(s0, catalog@, Seat::B, i as int),
    {
        let ghost before = *sim;
        let ghost done = nightfall(s0, catalog@, i as int);
        proof {
            lemma_counted_mono(s0, catalog@, Seat::A, i + 1, n as int);
            lemma_counted_mono(s0, catalog@, Seat::B, i + 1, n as int);
        }
        let dissolve = match &sim.board[i].spirit {
            Some(sp) => {
                if sp.fading {
                    let impression = match sp.banished_by {
                        Some(s) => s,
                        None => sp.owner,
                    };
                    if card(catalog, sp.card).is_unwritten() {
                        Some(Event::TokenDissolved { tile: i as u8 })
                    } else {
                        Some(Event::SpiritDissolved { tile: i as u8, impression })
                    }
                } else {
                    None
                }
            },
            None => None,
        };
        match dissolve {
            Some(d) => {
                push(sim, evs, d);
                let ghost mid1 = *sim;
                proof {
                    lemma_applies_push(s0, done, before, d, mid1);
                }
                fade_if_held(sim, evs, i as u8);
                proof {
                    let tail = nightfall_tile(s0, catalog@, i as int);
                    if held_ground_fades(mid1, i as u8) {
                        lemma_applies_push(s0, done.push(d), mid1, Event::TileFaded { tile: i as u8 }, *sim);
                        assert(tail == seq![d, Event::TileFaded { tile: i as u8 }]);
                        assert(done.push(d).push(Event::TileFaded { tile: i as u8 }) == done + tail);
                        assert(e0 + done + tail == (e0 + done).push(d).push(Event::TileFaded { tile: i as u8 }));
                    } else {
                        assert(tail == seq![d]);
                        assert(done.push(d) == done + tail);
                        assert(e0 + done + tail == (e0 + done).push(d));
                    }
                }
            },
            None => {
                proof {
                    assert(nightfall_tile(s0, catalog@, i as int) == Seq::<Event>::empty());
                    assert(done + Seq::<Event>::empty() == done);
                    assert(e0 + done + Seq::<Event>::empty() == e0 + done);
                }
            },
        }
    }
    let ghost mid = *sim;
    let (a, b) = score(sim, canon, catalog);
    let result = if a > b {
        MatchResult::Win(Seat::A)
    } else if b > a {
        MatchResult::Win(Seat::B)
    } else {
        MatchResult::Draw
    };
    push(sim, evs, Event::MatchEnded { result, score_a: a, score_b: b });
    assert(mid == GameState { phase: s0.phase, ..*sim });
}

} // verus!
