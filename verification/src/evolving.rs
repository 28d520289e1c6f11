//! Evolving: a form card from hand is played onto a base of the seat's. A Fabled form is a
//! healthy base's leap, fuelled by a donor ally that dissolves; a Primal form is a fading
//! base's own last becoming. The decision comes in two steps around the Parting that the
//! fuel's departure fires in a match (not in this crate): `decide_evolve` checks the
//! command and fixes its plan and cost, and `evolve_events` records the donor's
//! dissolution, the payment and the form's arrival on the state the Parting left. The
//! arrival sequence that follows (an arrival buff, a queued next-arrival buff, the engage's
//! exchange, interception, Momentum, a second engage, the Throughline, the form's OnPlay
//! effects) is not in this crate either.
use vstd::prelude::*;

use crate::auras::lemma_wf_small;
use crate::cards::{card, spec_card};
use crate::effects::Canon;
use crate::evolution::{legal_evolutions, spec_legal_evolutions};
use crate::events::Event;
use crate::menu::contains_card;
use crate::projection::projectable;
use crate::rules::Reject;
use crate::spellbook::{active_player, actor_player, hand_card, hand_known, tax_events, tax_list};
use crate::state::GameState;
use crate::strike::floor0;
use crate::tally::{cost_aura, spec_cost_aura};
use crate::targeting::{spec_targeting_reach, targeting_reach};
use crate::types::{CardDef, CardId, Seat};

verus! {

/// What an accepted evolution does: the base's and the form's cards, whether the form is
/// Fabled, the discounted cost, and the Fabled donor's tile with the impression it leaves.
#[derive(Debug, Clone, Copy)]
pub struct EvolvePlan {
    pub base: CardId,
    pub form: CardId,
    pub fabled: bool,
    pub cost: u8,
    pub donor: Option<(u8, Seat)>,
}

/// The cost of evolving `base_def` into `form`: the form's cost less half the base's,
/// with the cost aura, never below 0.
pub open spec fn evolve_cost(st: GameState, canon: Canon, catalog: Seq<CardDef>, actor: Seat, base_def: CardDef, form: CardDef) -> u8 {
    floor0(form.cost - (base_def.cost / 2) as int + spec_cost_aura(st, canon, catalog, actor)) as u8
}

/// The fuel of a Fabled evolution onto `tile`: a donor tile other than the base's holding
/// a spirit of the actor's that is not a token; it leaves the impression of whoever
/// banished it, else the actor's.
pub open spec fn fabled_fuel(st: GameState, actor: Seat, tile: u8, fuel: Option<u8>) -> Result<Option<(u8, Seat)>, Reject> {
    match fuel {
        None => Err(Reject::BadTile),
        Some(d) => if d == tile {
            Err(Reject::BadTile)
        } else {
            match st.spec_spirit_at(d) {
                None => Err(Reject::TileEmpty),
                Some(dn) => if dn.owner == actor && !dn.is_token {
                    Ok(Some((d, match dn.banished_by { Some(s) => s, None => actor })))
                } else {
                    Err(Reject::TargetNotEnemy)
                },
            }
        },
    }
}

/// Evolving the actor's base on `tile` with the form in hand slot `form_hand`, fuelled by
/// `fuel` and engaging `engage`: no choice pending; the tiles on the board; a base of the
/// actor's on `tile`; a hand slot holding a form of that base among its legal evolutions;
/// a healthy base that did not arrive or move this turn for a Fabled form, a fading one
/// for a Primal; the discounted cost (`evolve_cost`) in Anima; a Fabled form's donor
/// (`fabled_fuel`), and no fuel for a Primal; and an engage target in the form's reach.
pub open spec fn spec_evolve_plan(
    st: GameState,
    canon: Canon,
    catalog: Seq<CardDef>,
    actor: Seat,
    tile: u8,
    form_hand: u8,
    fuel: Option<u8>,
    engage: Option<u8>,
) -> Result<EvolvePlan, Reject> {
    if st.pending_choice is Some {
        Err(Reject::ChoicePending)
    } else if tile as int >= st.board@.len() || (fuel matches Some(d) && d as int >= st.board@.len())
        || (engage matches Some(t) && t as int >= st.board@.len()) {
        Err(Reject::BadTile)
    } else {
        match st.spec_spirit_at(tile) {
            None => Err(Reject::TileEmpty),
            Some(base) => if base.owner != actor {
                Err(Reject::TargetNotEnemy)
            } else {
                match hand_card(st, form_hand) {
                    None => Err(Reject::BadHandIndex),
                    Some(form_id) => {
                        let base_def = spec_card(catalog, base.card);
                        let form = spec_card(catalog, form_id);
                        let fabled = form.rarity@ == "Fabled"@;
                        let cost = evolve_cost(st, canon, catalog, actor, base_def, form);
                        if !(form.evolves_from matches Some(n) && n@ == base_def.name@) {
                            Err(Reject::EvolveConditionUnmet)
                        } else if !spec_legal_evolutions(st, canon, catalog, base_def, actor).contains(form_id) {
                            Err(Reject::EvolveConditionUnmet)
                        } else if (fabled && (base.fading || st.moved_this_turn@.contains(tile))) || (!fabled && !base.fading) {
                            Err(Reject::EvolveConditionUnmet)
                        } else if actor_player(st).anima < cost {
                            Err(Reject::NotEnoughAnima)
                        } else {
                            let donor = if fabled { fabled_fuel(st, actor, tile, fuel) } else if fuel is Some {
                                Err(Reject::BadTile)
                            } else {
                                Ok(None)
                            };
                            match donor {
                                Err(e) => Err(e),
                                Ok(d) => if engage matches Some(t)
                                    && !spec_targeting_reach(st, canon, catalog, form.reach, tile, actor, st.board_w).contains(t) {
                                    Err(Reject::TargetNotInReach)
                                } else {
                                    Ok(EvolvePlan { base: base.card, form: form_id, fabled, cost, donor: d })
                                },
                            }
                        }
                    },
                }
            },
        }
    }
}

/// Check an evolution and fix its plan (see `spec_evolve_plan`).
#[verifier::rlimit(30)]
pub fn decide_evolve(
    st: &GameState,
    canon: &Canon,
    catalog: &[CardDef],
    actor: Seat,
    tile: u8,
    form_hand: u8,
    fuel: Option<u8>,
    engage: Option<u8>,
) -> (r: Result<EvolvePlan, Reject>)
    requires
        projectable(*st, catalog@),
        hand_known(*st, catalog@),
    ensures
        r == spec_evolve_plan(*st, *canon, catalog@, actor, tile, form_hand, fuel, engage),
{
    proof {
        lemma_wf_small(*st);
    }
    if st.pending_choice.is_some() {
        return Err(Reject::ChoicePending);
    }
    let fuel_off = match fuel {
        Some(d) => d as usize >= st.board.len(),
        None => false,
    };
    let engage_off = match engage {
        Some(t) => t as usize >= st.board.len(),
        None => false,
    };
    if tile as usize >= st.board.len() || fuel_off || engage_off {
        return Err(Reject::BadTile);
    }
    let base = match st.spirit_at(tile) {
        Some(sp) => sp,
        None => return Err(Reject::TileEmpty),
    };
    if base.owner != actor {
        return Err(Reject::TargetNotEnemy);
    }
    proof {
        assert(st.board@[tile as int].spirit == Some(*base));
    }
    let p = active_player(st);
    if form_hand as usize >= p.hand.len() {
        return Err(Reject::BadHandIndex);
    }
    let form_id = p.hand[form_hand as usize];
    let base_def = card(catalog, base.card);
    let form = card(catalog, form_id);
    let fabled_name = crate::text::text_of("Fabled");
    let fabled = form.rarity == fabled_name;
    let raw: i32 = form.cost as i32 - (base_def.cost / 2) as i32 + cost_aura(st, actor, canon, catalog) as i32;
    let cost: u8 = if raw >= 0 { raw as u8 } else { 0 };
    assert(cost == evolve_cost(*st, *canon, catalog@, actor, *base_def, *form));
    let lined = match &form.evolves_from {
        Some(n) => *n == base_def.name,
        None => false,
    };
    if !lined {
        return Err(Reject::EvolveConditionUnmet);
    }
    let forms = legal_evolutions(st, canon, catalog, base_def, actor);
    if !contains_card(&forms, form_id) {
        return Err(Reject::EvolveConditionUnmet);
    }
    if fabled {
        if base.fading || crate::evolve::contains_tile(&st.moved_this_turn, tile) {
            return Err(Reject::EvolveConditionUnmet);
        }
    } else if !base.fading {
        return Err(Reject::EvolveConditionUnmet);
    }
    if p.anima < cost {
        return Err(Reject::NotEnoughAnima);
    }
    let donor = if fabled {
        match fuel {
            None => return Err(Reject::BadTile),
            Some(d) => {
                if d == tile {
                    return Err(Reject::BadTile);
                }
                match st.spirit_at(d) {
                    None => return Err(Reject::TileEmpty),
                    Some(dn) => {
                        if !(dn.owner == actor && !dn.is_token) {
                            return Err(Reject::TargetNotEnemy);
                        }
                        let imp = match dn.banished_by {
                            Some(s) => s,
                            None => actor,
                        };
                        Some((d, imp))
                    },
                }
            },
        }
    } else {
        if fuel.is_some() {
            return Err(Reject::BadTile);
        }
        None
    };
    match engage {
        Some(t) => {
            let reach = targeting_reach(st, canon, catalog, form.reach, tile, actor, st.board_w);
            if !crate::evolve::contains_tile(&reach, t) {
                return Err(Reject::TargetNotInReach);
            }
        },
        None => {},
    }
    Ok(EvolvePlan { base: base.card, form: form_id, fabled, cost, donor })
}

/// The rest of an evolution once the fuel's Parting has fired on `sim`: the Fabled donor
/// dissolves, leaving its impression; the engage target must then be a standing enemy (the
/// donor's tile is empty by then); the cost and any surcharge are paid when there is a
/// cost; and the form arrives on the base at its printed numbers, a Fabled one keeping the
/// base's Throughline, a Primal one arriving able to complete it anew.
pub open spec fn spec_evolve_events(sim: GameState, catalog: Seq<CardDef>, actor: Seat, tile: u8, plan: EvolvePlan, engage: Option<u8>) -> Result<Seq<Event>, Reject> {
    let dissolved = match plan.donor {
        Some((d, imp)) => seq![Event::SpiritDissolved { tile: d, impression: imp }],
        None => Seq::empty(),
    };
    let refusal = match engage {
        None => None,
        Some(t) => if plan.donor matches Some((d, _)) && d == t {
            Some(Reject::TileEmpty)
        } else {
            match sim.spec_spirit_at(t) {
                None => Some(Reject::TileEmpty),
                Some(e) => if e.owner != actor && !e.fading { None } else { Some(Reject::TargetNotEnemy) },
            }
        },
    };
    let form = spec_card(catalog, plan.form);
    match refusal {
        Some(e) => Err(e),
        None => Ok(dissolved
            + (if plan.cost > 0 { seq![Event::AnimaSpent { seat: actor, amount: plan.cost }] + tax_events(sim, actor) } else { Seq::empty() })
            + seq![Event::SpiritEvolved {
                seat: actor,
                tile,
                from: plan.base,
                to: plan.form,
                attack: form.attack,
                defense: form.defense,
                hp: form.hp,
                keeps_throughline: plan.fabled,
            }]),
    }
}

/// Record the rest of an evolution (see `spec_evolve_events`).
pub fn evolve_events(sim: &GameState, catalog: &[CardDef], actor: Seat, tile: u8, plan: &EvolvePlan, engage: Option<u8>) -> (r: Result<Vec<Event>, Reject>)
    requires
        crate::cards::catalog_has(catalog@, plan.form),
    ensures
        match r {
            Ok(v) => spec_evolve_events(*sim, catalog@, actor, tile, *plan, engage) == Ok::<Seq<Event>, Reject>(v@),
            Err(e) => spec_evolve_events(*sim, catalog@, actor, tile, *plan, engage) == Err::<Seq<Event>, Reject>(e),
        },
{
    match engage {
        Some(t) => {
            let donor_here = match plan.donor {
                Some((d, _)) => d == t,
                None => false,
            };
            if donor_here {
                return Err(Reject::TileEmpty);
            }
            match sim.spirit_at(t) {
                None => return Err(Reject::TileEmpty),
                Some(e) => {
                    if !(e.owner != actor && !e.fading) {
                        return Err(Reject::TargetNotEnemy);
                    }
                },
            }
        },
        None => {},
    }
    let form = card(catalog, plan.form);
    let mut v: Vec<Event> = Vec::new();
    match plan.donor {
        Some((d, imp)) => v.push(Event::SpiritDissolved { tile: d, impression: imp }),
        None => {},
    }
    let ghost head = v@;
    if plan.cost > 0 {
        v.push(Event::AnimaSpent { seat: actor, amount: plan.cost });
        tax_list(sim, actor, &mut v);
    }
    let ghost paid = v@;
    let evolved = Event::SpiritEvolved {
        seat: actor,
        tile,
        from: plan.base,
        to: plan.form,
        attack: form.attack,
        defense: form.defense,
        hp: form.hp,
        keeps_throughline: plan.fabled,
    };
    v.push(evolved);
    proof {
        let pay = if plan.cost > 0 { seq![Event::AnimaSpent { seat: actor, amount: plan.cost }] + tax_events(*sim, actor) } else { Seq::<Event>::empty() };
        assert(paid =~= head + pay);
        assert(v@ =~= head + pay + seq![evolved]);
    }
    Ok(v)
}

} // verus!
