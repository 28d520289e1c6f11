//! Playing a spirit from hand onto the board: where it may land, what it may engage on
//! arrival, and what it costs. The decision answers with the events up to and including
//! the spirit's arrival, or the reason it is refused. It stops there: the arrival sequence
//! a match then runs (a queued next-arrival buff, the engage's exchange, interception,
//! Momentum, a second engage, the Throughline, its OnPlay effects) is not in this crate.
use vstd::prelude::*;

use crate::auras::lemma_wf_small;
use crate::cards::{card, spec_card};
use crate::effects::Canon;
use crate::events::Event;
use crate::menu::{calm, calm_exec, first_placement_exec, first_placement_ok, stray_on};
use crate::projection::{any_projected_placement, projectable, projection, spec_any_projected_placement, spec_projected};
use crate::rules::Reject;
use crate::spellbook::{active_player, actor_player, effective_cost, hand_card, hand_known, tax_events, tax_list};
use crate::state::GameState;
use crate::tally::cost_aura;
use crate::targeting::{spec_targeting_reach, targeting_reach};
use crate::types::{CardDef, Seat};

verus! {

/// Seat A's very first placement lies outside its home rows while the memory has not
/// contracted.
pub open spec fn outside_home_rows(st: GameState, actor: Seat, tile: u8) -> bool {
    !st.contracted && !first_placement_ok(st, actor, tile)
}

/// Why the landing on `tile` is refused, if it is: off the board, a faded or calm tile, a
/// spirit, terrain or the Stray on it, a first placement outside the home rows, or a tile
/// outside the actor's projection while it has a projected placement.
pub open spec fn play_landing_refusal(st: GameState, catalog: Seq<CardDef>, actor: Seat, tile: u8) -> Option<Reject> {
    if tile as int >= st.board@.len() {
        Some(Reject::BadTile)
    } else {
        let t = st.board@[tile as int];
        if t.faded || calm(st, tile) {
            Some(Reject::TileFaded)
        } else if t.spirit is Some || t.terrain is Some || stray_on(st, tile) {
            Some(Reject::TileOccupied)
        } else if outside_home_rows(st, actor, tile) {
            Some(Reject::FirstPlacementHomeRows)
        } else if !spec_projected(st, catalog, actor, None, tile as int) && spec_any_projected_placement(st, catalog, actor) {
            Some(Reject::OutsideProjection)
        } else {
            None
        }
    }
}

/// Why an arrival of `def` on `tile` engaging `target` is refused, if it is: a target
/// outside its targeting reach from `tile`, no standing enemy there, or a Lurker, which
/// never strikes on arrival.
pub open spec fn play_engage_refusal(st: GameState, canon: Canon, catalog: Seq<CardDef>, actor: Seat, def: CardDef, tile: u8, target: u8) -> Option<Reject> {
    if !spec_targeting_reach(st, canon, catalog, def.reach, tile, actor, st.board_w).contains(target) {
        Some(Reject::TargetNotInReach)
    } else {
        match st.spec_spirit_at(target) {
            None => Some(Reject::TileEmpty),
            Some(e) => if e.owner != actor && !e.fading {
                if def.lurk { Some(Reject::TargetNotInReach) } else { None }
            } else {
                Some(Reject::TargetNotEnemy)
            },
        }
    }
}

/// Playing the spirit in hand slot `hand_index` onto `tile`, engaging `engage` if given:
/// no choice pending, a hand slot holding a card, an open landing (`play_landing_refusal`),
/// an engage it may make (`play_engage_refusal`), and Anima for its cost with the cost
/// aura. Then the Anima is spent, the surcharge if any, and the spirit arrives at its
/// printed numbers, face down if it is a Lurker.
pub open spec fn spec_play_spirit(st: GameState, canon: Canon, catalog: Seq<CardDef>, actor: Seat, hand_index: u8, tile: u8, engage: Option<u8>) -> Result<Seq<Event>, Reject> {
    if st.pending_choice is Some {
        Err(Reject::ChoicePending)
    } else {
        match hand_card(st, hand_index) {
            None => Err(Reject::BadHandIndex),
            Some(cid) => {
                let def = spec_card(catalog, cid);
                let cost = effective_cost(st, canon, catalog, actor, def.cost, 0);
                match play_landing_refusal(st, catalog, actor, tile) {
                    Some(e) => Err(e),
                    None => match (match engage {
                        Some(t) => play_engage_refusal(st, canon, catalog, actor, def, tile, t),
                        None => None,
                    }) {
                        Some(e) => Err(e),
                        None => if actor_player(st).anima < cost {
                            Err(Reject::NotEnoughAnima)
                        } else {
                            Ok(seq![Event::AnimaSpent { seat: actor, amount: cost }] + tax_events(st, actor) + seq![Event::SpiritPlayed {
                                seat: actor,
                                card: cid,
                                tile,
                                attack: def.attack,
                                defense: def.defense,
                                hp: def.hp,
                                face_down: def.lurk,
                            }])
                        },
                    },
                }
            },
        }
    }
}

/// Play the spirit in hand slot `hand_index` onto `tile`, engaging `engage` if given (see
/// `spec_play_spirit`): the events up to its arrival, or why it is refused.
pub fn decide_play_spirit(st: &GameState, canon: &Canon, catalog: &[CardDef], actor: Seat, hand_index: u8, tile: u8, engage: Option<u8>) -> (r: Result<Vec<Event>, Reject>)
    requires
        projectable(*st, catalog@),
        hand_known(*st, catalog@),
    ensures
        match r {
            Ok(v) => spec_play_spirit(*st, *canon, catalog@, actor, hand_index, tile, engage) == Ok::<Seq<Event>, Reject>(v@),
            Err(e) => spec_play_spirit(*st, *canon, catalog@, actor, hand_index, tile, engage) == Err::<Seq<Event>, Reject>(e),
        },
{
    proof {
        lemma_wf_small(*st);
    }
    if st.pending_choice.is_some() {
        return Err(Reject::ChoicePending);
    }
    let p = active_player(st);
    if hand_index as usize >= p.hand.len() {
        return Err(Reject::BadHandIndex);
    }
    let cid = p.hand[hand_index as usize];
    let def = card(catalog, cid);
    if tile as usize >= st.board.len() {
        return Err(Reject::BadTile);
    }
    let t = &st.board[tile as usize];
    if t.faded || calm_exec(st, tile) {
        return Err(Reject::TileFaded);
    }
    let stray_here = match &st.stray {
        Some(s) => s.tile == tile,
        None => false,
    };
    if t.spirit.is_some() || t.terrain.is_some() || stray_here {
        return Err(Reject::TileOccupied);
    }
    if !st.contracted && !first_placement_exec(st, actor, tile) {
        return Err(Reject::FirstPlacementHomeRows);
    }
    let proj = projection(st, actor, catalog);
    if !proj[tile as usize] && any_projected_placement(st, actor, catalog) {
        return Err(Reject::OutsideProjection);
    }
    match engage {
        Some(target) => {
            let reach = targeting_reach(st, canon, catalog, def.reach, tile, actor, st.board_w);
            if !crate::evolve::contains_tile(&reach, target) {
                return Err(Reject::TargetNotInReach);
            }
            match st.spirit_at(target) {
                Some(e) => {
                    if !(e.owner != actor && !e.fading) {
                        return Err(Reject::TargetNotEnemy);
                    }
                },
                None => return Err(Reject::TileEmpty),
            }
            if def.lurk {
                return Err(Reject::TargetNotInReach);
            }
        },
        None => {},
    }
    let raw: i32 = def.cost as i32 + cost_aura(st, actor, canon, catalog) as i32;
    let cost: u8 = if raw >= 0 { raw as u8 } else { 0 };
    assert(cost == effective_cost(*st, *canon, catalog@, actor, def.cost, 0));
    if p.anima < cost {
        return Err(Reject::NotEnoughAnima);
    }
    let mut list: Vec<Event> = Vec::new();
    list.push(Event::AnimaSpent { seat: actor, amount: cost });
    tax_list(st, actor, &mut list);
    let played = Event::SpiritPlayed {
        seat: actor,
        card: cid,
        tile,
        attack: def.attack,
        defense: def.defense,
        hp: def.hp,
        face_down: def.lurk,
    };
    list.push(played);
    assert(list@ == seq![Event::AnimaSpent { seat: actor, amount: cost }] + tax_events(*st, actor) + seq![played]);
    Ok(list)
}

} // verus!
