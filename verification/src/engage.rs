//! Banishment: what a defeat does to the spirit it takes — a once-per-match Replace that
//! keeps it, a Kindred token's dissolve, or a fade under the banisher's mark. The Parting
//! and the allies' witnessing that follow a banishment are not fired here.
use vstd::prelude::*;

use crate::cards::{card, catalog_has, spec_card};
use crate::effects::{Canon, Clause, Effect, EffectSpec, Replacement, Trigger};
use crate::events::{spec_applied, Event};
use crate::exchange::{named_specs, named_specs_exec};
use crate::flow::push;
use crate::state::GameState;
use crate::types::{CardDef, Seat};

verus! {

// ---------------------------------------------------------------------------
// Banishment
// ---------------------------------------------------------------------------

/// The Form a once-per-match Replace keeps, from the first such clause among `j..`.
pub open spec fn survive_clauses(cls: Seq<Clause>, j: int) -> Option<i16>
    decreases cls.len() - j,
{
    if j < 0 || j >= cls.len() {
        None
    } else {
        match cls[j].effect {
            Effect::Replace(Replacement::SurviveBanishAt { form }) => Some(form),
            _ => survive_clauses(cls, j + 1),
        }
    }
}

/// The Form kept by the first once-per-match Static spec among `i..` that holds a Replace.
pub open spec fn survive_specs(specs: Seq<EffectSpec>, i: int) -> Option<i16>
    decreases specs.len() - i,
{
    if i < 0 || i >= specs.len() {
        None
    } else if specs[i].trigger is Static && specs[i].condition is OncePerMatch
        && survive_clauses(specs[i].clauses@, 0) is Some {
        survive_clauses(specs[i].clauses@, 0)
    } else {
        survive_specs(specs, i + 1)
    }
}

/// Banishing the spirit on `tile` by `by`: a spirit whose card carries an unspent
/// once-per-match Replace survives at the Form it names; a Kindred token (not an Unwritten)
/// dissolves leaving nothing; anything else begins to fade under `by`'s mark. The flag says
/// whether the spirit left play.
#[verifier::opaque]
pub open spec fn banish_event(st: GameState, canon: Canon, catalog: Seq<CardDef>, tile: u8, by: Seat) -> (Event, bool) {
    let fade = Event::SpiritBecameFading { tile, banished_by: Some(by) };
    match st.spec_spirit_at(tile) {
        Some(sp) => {
            let keep = if sp.replacement_used {
                None
            } else {
                match named_specs(canon, catalog, sp.card) {
                    Some(specs) => survive_specs(specs, 0),
                    None => None,
                }
            };
            match keep {
                Some(form) => (Event::ReplacementSurvived { tile, form }, false),
                None => if sp.is_token && !spec_card(catalog, sp.card).spec_is_unwritten() {
                    (Event::TokenDissolved { tile }, true)
                } else {
                    (fade, true)
                },
            }
        },
        None => (fade, true),
    }
}

fn survive_in_clauses(cls: &Vec<Clause>) -> (r: Option<i16>)
    ensures
        r == survive_clauses(cls@, 0),
{
    let m = cls.len();
    for j in 0..m
        invariant
            m == cls@.len(),
            survive_clauses(cls@, 0) == survive_clauses(cls@, j as int),
    {
        match &cls[j].effect {
            Effect::Replace(Replacement::SurviveBanishAt { form }) => {
                return Some(*form);
            },
            _ => {},
        }
    }
    None
}

fn survive_form(specs: &Vec<EffectSpec>) -> (r: Option<i16>)
    ensures
        r == survive_specs(specs@, 0),
{
    let n = specs.len();
    for i in 0..n
        invariant
            n == specs@.len(),
            survive_specs(specs@, 0) == survive_specs(specs@, i as int),
    {
        let s = &specs[i];
        if matches!(s.trigger, Trigger::Static) && matches!(s.condition, crate::effects::Condition::OncePerMatch) {
            match survive_in_clauses(&s.clauses) {
                Some(f) => {
                    return Some(f);
                },
                None => {},
            }
        }
    }
    None
}

/// Banish the spirit on `tile` by `by` (see `banish_event`); the answer is whether it left
/// play.
pub fn banish(sim: &mut GameState, evs: &mut Vec<Event>, canon: &Canon, catalog: &[CardDef], tile: u8, by: Seat) -> (gone: bool)
    requires
        (tile as int) < old(sim).board@.len(),
        old(sim).round < u8::MAX,
        old(sim).spec_spirit_at(tile) matches Some(sp) ==> catalog_has(catalog@, sp.card),
    ensures
        spec_applied(*old(sim), banish_event(*old(sim), *canon, catalog@, tile, by).0, *final(sim)),
        final(evs)@ == old(evs)@.push(banish_event(*old(sim), *canon, catalog@, tile, by).0),
        gone == banish_event(*old(sim), *canon, catalog@, tile, by).1,
{
    proof {
        reveal(banish_event);
    }
    let keep: Option<i16> = match sim.spirit_at(tile) {
        Some(sp) => if sp.replacement_used {
            None
        } else {
            match named_specs_exec(canon, catalog, sp.card) {
                Some(specs) => survive_form(specs),
                None => None,
            }
        },
        None => None,
    };
    let token: bool = match sim.spirit_at(tile) {
        Some(sp) => sp.is_token && !card(catalog, sp.card).is_unwritten(),
        None => false,
    };
    match keep {
        Some(form) => {
            push(sim, evs, Event::ReplacementSurvived { tile, form });
            false
        },
        None => if token {
            push(sim, evs, Event::TokenDissolved { tile });
            true
        } else {
            push(sim, evs, Event::SpiritBecameFading { tile, banished_by: Some(by) });
            true
        },
    }
}

} // verus!
