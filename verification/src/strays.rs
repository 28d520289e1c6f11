//! Courting the Stray: at the end of a turn the acting seat courts an unclaimed Stray it
//! stands beside, and befriends it once the Stray's temperament is satisfied.
use vstd::prelude::*;

use crate::auras::lemma_wf_small;
use crate::cards::{card, catalog_has, spec_card};
use crate::conditions::{manhattan, spec_manhattan};
use crate::events::{on_board, Event};
use crate::evolution::{share_any, shares_imprint};
use crate::flow::{applies, lemma_applies_none, lemma_applies_push, push};
use crate::projection::cards_known;
use crate::state::{GameState, Stray, Temperament};
use crate::targets::{spec_stray_is_echo_wounded, stray_is_echo_wounded};
use crate::types::{CardDef, Seat};

verus! {

/// Tile `i` holds a standing spirit of `seat` one step from `tile`.
pub open spec fn ally_beside(sim: GameState, seat: Seat, tile: u8, i: int) -> bool {
    &&& sim.board@[i].spirit matches Some(sp)
    &&& !sp.fading && sp.owner == seat
    &&& spec_manhattan(tile, i as u8) == 1
}

/// Such an ally also shares an Imprint with the Foundling `stray`.
pub open spec fn kin_beside(sim: GameState, catalog: Seq<CardDef>, seat: Seat, stray: Stray, i: int) -> bool {
    &&& ally_beside(sim, seat, stray.tile, i)
    &&& shares_imprint(spec_card(catalog, sim.board@[i].spirit->Some_0.card).imprints@, spec_card(catalog, stray.card).imprints@)
}

pub open spec fn any_ally_beside(sim: GameState, seat: Seat, tile: u8) -> bool {
    exists|i: int| 0 <= i < sim.board@.len() && #[trigger] ally_beside(sim, seat, tile, i)
}

pub open spec fn any_kin_beside(sim: GameState, catalog: Seq<CardDef>, seat: Seat, stray: Stray) -> bool {
    exists|i: int| 0 <= i < sim.board@.len() && #[trigger] kin_beside(sim, catalog, seat, stray, i)
}

/// The Foundling becomes `seat`'s spirit at its printed numbers, where it stood.
pub open spec fn befriended(catalog: Seq<CardDef>, seat: Seat, stray: Stray) -> Event {
    let d = spec_card(catalog, stray.card);
    Event::StrayBefriended { seat, card: stray.card, tile: stray.tile, attack: d.attack, defense: d.defense, hp: d.hp }
}

/// What the turn's courtship does. A veiled (Wary) Stray unveils when the acting seat ends
/// beside it, which counts as the first courting turn; unseen, it counts the turns and
/// unveils on the second. An unveiled Stray is courted only by an adjacent ally: a Gentle
/// one is befriended by an ally sharing an Imprint; a Wary one by two consecutive turns of
/// the same seat; a Feral one only while Echo-wounded, by an ally sharing an Imprint.
pub open spec fn courtship_events(sim: GameState, catalog: Seq<CardDef>) -> Seq<Event> {
    match sim.stray {
        None => Seq::empty(),
        Some(stray) => {
            let seat = sim.active;
            let beside = any_ally_beside(sim, seat, stray.tile);
            if stray.veiled {
                if beside {
                    seq![Event::StrayUnveiled, Event::StrayCourted { seat, courtship: 1 }]
                } else if stray.courtship + 1 >= 2 {
                    seq![Event::StrayUnveiled]
                } else {
                    seq![Event::StrayCourted { seat, courtship: (stray.courtship + 1) as u8 }]
                }
            } else if !beside {
                Seq::empty()
            } else {
                match stray.temperament {
                    Temperament::Gentle => if any_kin_beside(sim, catalog, seat, stray) {
                        seq![befriended(catalog, seat, stray)]
                    } else {
                        Seq::empty()
                    },
                    Temperament::Wary => {
                        let next = if stray.courted_by == Some(seat) { stray.courtship + 1 } else { 1 };
                        if next >= 2 {
                            seq![befriended(catalog, seat, stray)]
                        } else {
                            seq![Event::StrayCourted { seat, courtship: next as u8 }]
                        }
                    },
                    Temperament::Feral => if spec_stray_is_echo_wounded(stray) && any_kin_beside(sim, catalog, seat, stray) {
                        seq![befriended(catalog, seat, stray)]
                    } else {
                        Seq::empty()
                    },
                }
            }
        },
    }
}

/// This turn's courtship befriends the Stray.
pub open spec fn befriends(sim: GameState, catalog: Seq<CardDef>) -> bool {
    sim.stray matches Some(stray) && {
        let seat = sim.active;
        &&& !stray.veiled
        &&& any_ally_beside(sim, seat, stray.tile)
        &&& match stray.temperament {
            Temperament::Gentle => any_kin_beside(sim, catalog, seat, stray),
            Temperament::Wary => stray.courted_by == Some(seat) && stray.courtship + 1 >= 2,
            Temperament::Feral => spec_stray_is_echo_wounded(stray) && any_kin_beside(sim, catalog, seat, stray),
        }
    }
}

/// The Stray's courtship count can take one more turn where the courtship counts on.
pub open spec fn courtship_fits(sim: GameState) -> bool {
    sim.stray matches Some(s) ==> {
        &&& (s.veiled && !any_ally_beside(sim, sim.active, s.tile)) ==> s.courtship < u8::MAX
        &&& (!s.veiled && s.temperament == Temperament::Wary && s.courted_by == Some(sim.active)) ==> s.courtship < u8::MAX
    }
}

fn ally_or_kin_beside(sim: &GameState, catalog: &[CardDef], seat: Seat, stray: &Stray, kin: bool) -> (r: bool)
    requires
        sim.wf(),
        cards_known(*sim, catalog@),
        kin ==> catalog_has(catalog@, stray.card),
    ensures
        !kin ==> r == any_ally_beside(*sim, seat, stray.tile),
        kin ==> r == any_kin_beside(*sim, catalog@, seat, *stray),
{
    proof {
        lemma_wf_small(*sim);
    }
    let n = sim.board.len();
    for i in 0..n
        invariant
            n == sim.board@.len() <= 64,
            cards_known(*sim, catalog@),
            kin ==> catalog_has(catalog@, stray.card),
            !kin ==> forall|j: int| 0 <= j < i ==> !#[trigger] ally_beside(*sim, seat, stray.tile, j),
            kin ==> forall|j: int| 0 <= j < i ==> !#[trigger] kin_beside(*sim, catalog@, seat, *stray, j),
    {
        match &sim.board[i].spirit {
            Some(sp) => {
                if !sp.fading && sp.owner == seat && manhattan(stray.tile, i as u8) == 1 {
                    assert(ally_beside(*sim, seat, stray.tile, i as int));
                    if !kin {
                        return true;
                    }
                    let mine = &card(catalog, sp.card).imprints;
                    let theirs = &card(catalog, stray.card).imprints;
                    if share_any(mine, theirs) {
                        assert(kin_beside(*sim, catalog@, seat, *stray, i as int));
                        return true;
                    }
                }
            },
            None => {},
        }
    }
    false
}

/// The turn's courtship (see `courtship_events`), applied as it goes. Returns the tile of a
/// Foundling befriended this turn, whose `OnBefriend` doctrine then fires.
pub fn advance_courtship(sim: &mut GameState, evs: &mut Vec<Event>, catalog: &[CardDef]) -> (befriended_at: Option<u8>)
    requires
        old(sim).wf(),
        cards_known(*old(sim), catalog@),
        old(sim).stray matches Some(s) ==> catalog_has(catalog@, s.card) && on_board(*old(sim), s.tile),
        courtship_fits(*old(sim)),
    ensures
        final(evs)@ == old(evs)@ + courtship_events(*old(sim), catalog@),
        applies(*old(sim), courtship_events(*old(sim), catalog@), *final(sim)),
        befriended_at == match old(sim).stray {
            Some(s) => if befriends(*old(sim), catalog@) { Some(s.tile) } else { None },
            None => None,
        },
{
    let ghost s0 = *sim;
    let ghost e0 = evs@;
    proof {
        lemma_applies_none(s0);
    }
    let stray = match sim.stray {
        Some(s) => s,
        None => {
            assert(e0 + Seq::<Event>::empty() == e0);
            return None;
        },
    };
    let seat = sim.active;
    let beside = ally_or_kin_beside(sim, catalog, seat, &stray, false);
    if stray.veiled {
        if beside {
            let e1 = Event::StrayUnveiled;
            push(sim, evs, e1);
            let ghost s1 = *sim;
            let e2 = Event::StrayCourted { seat, courtship: 1 };
            push(sim, evs, e2);
            proof {
                lemma_applies_push(s0, Seq::<Event>::empty(), s0, e1, s1);
                assert(Seq::<Event>::empty().push(e1) == seq![e1]);
                lemma_applies_push(s0, seq![e1], s1, e2, *sim);
                assert(seq![e1].push(e2) == seq![e1, e2]);
                assert(e0 + seq![e1, e2] == e0.push(e1).push(e2));
            }
        } else {
            let seen = stray.courtship + 1;
            let e = if seen >= 2 { Event::StrayUnveiled } else { Event::StrayCourted { seat, courtship: seen } };
            push(sim, evs, e);
            proof {
                lemma_applies_push(s0, Seq::<Event>::empty(), s0, e, *sim);
                assert(Seq::<Event>::empty().push(e) == seq![e]);
                assert(e0 + seq![e] == e0.push(e));
            }
        }
        return None;
    }
    if !beside {
        assert(e0 + Seq::<Event>::empty() == e0);
        return None;
    }
    let befriend = match stray.temperament {
        Temperament::Gentle => ally_or_kin_beside(sim, catalog, seat, &stray, true),
        Temperament::Wary => {
            let next = if stray.courted_by == Some(seat) { stray.courtship + 1 } else { 1 };
            if next < 2 {
                let e = Event::StrayCourted { seat, courtship: next };
                push(sim, evs, e);
                proof {
                    lemma_applies_push(s0, Seq::<Event>::empty(), s0, e, *sim);
                    assert(Seq::<Event>::empty().push(e) == seq![e]);
                    assert(e0 + seq![e] == e0.push(e));
                }
                return None;
            }
            true
        },
        Temperament::Feral => {
            let wounded = stray_is_echo_wounded(&stray, card(catalog, stray.card));
            wounded && ally_or_kin_beside(sim, catalog, seat, &stray, true)
        },
    };
    if !befriend {
        assert(e0 + Seq::<Event>::empty() == e0);
        return None;
    }
    let d = card(catalog, stray.card);
    let e = Event::StrayBefriended { seat, card: stray.card, tile: stray.tile, attack: d.attack, defense: d.defense, hp: d.hp };
    push(sim, evs, e);
    proof {
        lemma_applies_push(s0, Seq::<Event>::empty(), s0, e, *sim);
        assert(Seq::<Event>::empty().push(e) == seq![e]);
        assert(e0 + seq![e] == e0.push(e));
    }
    Some(stray.tile)
}

} // verus!
