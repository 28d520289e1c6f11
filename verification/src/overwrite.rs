//! Overwriting: a spirit from hand contests an enemy's tile (or the Stray's) in one
//! simultaneous exchange. The decision answers with the cost and the exchange's record, or
//! the reason it is refused. It stops there: what a match runs after a won tile (pruning
//! the Bonds the loser held, interception, Momentum) is not in this crate. The defender's
//! Echo is a roll drawn for an Echo-eligible defender and handed in.
use vstd::prelude::*;

use crate::auras::lemma_wf_small;
use crate::cards::{card, catalog_has, spec_card};
use crate::effects::{Canon, Keyword};
use crate::events::{fits16, Event};
use crate::keywords::{eff_warded, spec_keyword_active};
use crate::projection::{eff_defense, projectable, projection_slot, spec_eff_defense, spec_projected};
use crate::rules::{Reject, ECHO_BONUS, EDGE};
use crate::spellbook::{active_player, actor_player, effective_cost, hand_card, hand_known};
use crate::tally::cost_aura;
use crate::state::{GameState, Spirit, Stray};
use crate::types::{is_rim_w, spec_is_rim_w, CardDef, CardId, Resonance, Seat};

verus! {

/// The wheel edge `a` holds over `b`.
pub open spec fn edge_of(a: Resonance, b: Resonance) -> int {
    if a.spec_edge_over(b) { EDGE as int } else { 0 }
}

/// The blows of an Overwrite of `occ` by `def`: what the overwriter deals (its Attack and
/// edge against the occupant's effective Defense) and what it takes back (the occupant's
/// Attack, edge and Echo against the overwriter's effective Defense), each never below 0.
pub open spec fn overwrite_blows(def: CardDef, occ: Spirit, occ_def: CardDef, warded: bool, echo: bool) -> (int, int) {
    let dealt = def.attack + edge_of(def.resonance, occ_def.resonance) - spec_eff_defense(occ.defense, def.arcane, warded);
    let taken = occ.attack + edge_of(occ_def.resonance, def.resonance) + (if echo { ECHO_BONUS as int } else { 0 })
        - spec_eff_defense(def.defense, occ_def.arcane, def.warded);
    (if dealt > 0 { dealt } else { 0 }, if taken > 0 { taken } else { 0 })
}

/// The blows of an Overwrite of the Stray of card `sc`: no edges, no Echo.
pub open spec fn stray_blows(def: CardDef, sc: CardDef) -> (int, int) {
    let dealt = def.attack - spec_eff_defense(sc.defense, def.arcane, sc.warded);
    let taken = sc.attack - spec_eff_defense(def.defense, sc.arcane, def.warded);
    (if dealt > 0 { dealt } else { 0 }, if taken > 0 { taken } else { 0 })
}

/// The exchange's 16-bit arithmetic stays in range for an Overwrite of `occ` by `def`.
pub open spec fn overwrite_fits(def: CardDef, occ: Spirit, occ_def: CardDef, warded: bool, echo: bool) -> bool {
    let (dealt, taken) = overwrite_blows(def, occ, occ_def, warded, echo);
    &&& fits16(def.attack + edge_of(def.resonance, occ_def.resonance))
    &&& fits16(def.attack + edge_of(def.resonance, occ_def.resonance) - spec_eff_defense(occ.defense, def.arcane, warded))
    &&& fits16(occ.attack + edge_of(occ_def.resonance, def.resonance))
    &&& fits16(occ.attack + edge_of(occ_def.resonance, def.resonance) + (if echo { ECHO_BONUS as int } else { 0 }))
    &&& fits16(occ.attack + edge_of(occ_def.resonance, def.resonance) + (if echo { ECHO_BONUS as int } else { 0 })
        - spec_eff_defense(def.defense, occ_def.arcane, def.warded))
    &&& fits16(occ.hp - dealt)
    &&& fits16(def.hp - taken)
}

/// The exchange's 16-bit arithmetic stays in range for an Overwrite of a Stray of card
/// `sc` and `hp` by `def`.
pub open spec fn stray_fits(def: CardDef, sc: CardDef, hp: i16) -> bool {
    let (dealt, taken) = stray_blows(def, sc);
    &&& fits16(def.attack - spec_eff_defense(sc.defense, def.arcane, sc.warded))
    &&& fits16(sc.attack - spec_eff_defense(def.defense, sc.arcane, def.warded))
    &&& fits16(hp - dealt)
    &&& fits16(def.hp - taken)
}

/// The acting slot's own projection reaches `tile` (the team's in a 1v1 match).
pub open spec fn slot_projects(st: GameState, catalog: Seq<CardDef>, tile: u8) -> bool {
    spec_projected(st, catalog, st.active_slot.spec_team(), if st.spec_is_2v2() { Some(st.active_slot) } else { None }, tile as int)
}

/// The defender's Echo: an Echo-eligible occupant whose roll came up.
pub open spec fn defender_echo(occ: Spirit, roll: bool) -> bool {
    occ.spec_echo_eligible() && roll
}

/// The numbers an Overwrite needs to stay in range, for the hand card and the tile's
/// occupant (spirit or Stray), where there are both.
pub open spec fn overwrite_in_range(st: GameState, canon: Canon, catalog: Seq<CardDef>, hand_index: u8, tile: u8, roll: bool) -> bool {
    hand_card(st, hand_index) matches Some(cid) ==> {
        let def = spec_card(catalog, cid);
        &&& (st.spec_spirit_at(tile) matches Some(occ) ==> overwrite_fits(def, occ, spec_card(catalog, occ.card),
            spec_keyword_active(st, canon, catalog, tile, Keyword::Warded), defender_echo(occ, roll)))
        &&& (st.stray matches Some(s) ==> stray_fits(def, spec_card(catalog, s.card), s.hp))
    }
}

/// Overwriting the standing enemy `occ` on `tile` with the card `cid`: from the acting
/// slot's projection and off held rim ground, for the card's cost with the cost aura, which
/// the seat must be able to pay; the tile is won when the blow dealt (`overwrite_blows`)
/// leaves the occupant no HP.
pub open spec fn spirit_overwrite(st: GameState, canon: Canon, catalog: Seq<CardDef>, actor: Seat, cid: CardId, tile: u8, occ: Spirit, roll: bool) -> Result<Seq<Event>, Reject> {
    let def = spec_card(catalog, cid);
    if !(occ.owner != actor && !occ.fading) {
        Err(Reject::TargetNotEnemy)
    } else if !slot_projects(st, catalog, tile) {
        Err(Reject::OutsideProjection)
    } else if st.contracted && spec_is_rim_w(tile, st.board_w) {
        Err(Reject::TileHeld)
    } else if actor_player(st).anima < effective_cost(st, canon, catalog, actor, def.cost, 0) {
        Err(Reject::NotEnoughAnima)
    } else {
        let echo = defender_echo(occ, roll);
        let (dealt, taken) = overwrite_blows(def, occ, spec_card(catalog, occ.card),
            spec_keyword_active(st, canon, catalog, tile, Keyword::Warded), echo);
        Ok(seq![Event::AnimaSpent { seat: actor, amount: effective_cost(st, canon, catalog, actor, def.cost, 0) }, Event::Overwrote {
            seat: actor,
            card: cid,
            tile,
            success: occ.hp - dealt <= 0,
            damage_to_defender: dealt as i16,
            defender_echo: echo,
            attack: def.attack,
            defense: def.defense,
            attacker_hp_left: (def.hp - taken) as i16,
            attacker_hp_max: def.hp,
        }])
    }
}

/// Overwriting the Stray `s` on `tile` with the card `cid`: from the acting slot's
/// projection and off held rim ground, for the card's cost with the cost aura, which the
/// seat must be able to pay; a veiled Stray is denied entry and the tile taken unwounded, a
/// seen one fought at its printed numbers.
pub open spec fn stray_overwrite(st: GameState, canon: Canon, catalog: Seq<CardDef>, actor: Seat, cid: CardId, tile: u8, s: Stray) -> Result<Seq<Event>, Reject> {
    let def = spec_card(catalog, cid);
    let cost = effective_cost(st, canon, catalog, actor, def.cost, 0);
    let spent = Event::AnimaSpent { seat: actor, amount: cost };
    if !slot_projects(st, catalog, tile) {
        Err(Reject::OutsideProjection)
    } else if st.contracted && spec_is_rim_w(tile, st.board_w) {
        Err(Reject::TileHeld)
    } else if actor_player(st).anima < cost {
        Err(Reject::NotEnoughAnima)
    } else if s.veiled {
        Ok(seq![spent, Event::StrayDenied { tile }, Event::OverwroteStray {
            seat: actor,
            card: cid,
            tile,
            success: true,
            damage_to_stray: 0,
            attack: def.attack,
            defense: def.defense,
            attacker_hp_left: def.hp,
            attacker_hp_max: def.hp,
        }])
    } else {
        let (dealt, taken) = stray_blows(def, spec_card(catalog, s.card));
        Ok(seq![spent, Event::OverwroteStray {
            seat: actor,
            card: cid,
            tile,
            success: s.hp - dealt <= 0,
            damage_to_stray: dealt as i16,
            attack: def.attack,
            defense: def.defense,
            attacker_hp_left: (def.hp - taken) as i16,
            attacker_hp_max: def.hp,
        }])
    }
}

/// Overwriting with the spirit in hand slot `hand_index` the occupant of `tile`: a hand
/// slot holding a card and a tile on the board; a spirit there is fought
/// (`spirit_overwrite`); with none, the Stray standing on it is contested
/// (`stray_overwrite`); nothing at all is an empty tile.
pub open spec fn spec_overwrite(st: GameState, canon: Canon, catalog: Seq<CardDef>, actor: Seat, hand_index: u8, tile: u8, roll: bool) -> Result<Seq<Event>, Reject> {
    match hand_card(st, hand_index) {
        None => Err(Reject::BadHandIndex),
        Some(cid) => if tile as int >= st.board@.len() {
            Err(Reject::BadTile)
        } else {
            match st.spec_spirit_at(tile) {
                Some(occ) => spirit_overwrite(st, canon, catalog, actor, cid, tile, occ, roll),
                None => match st.stray {
                    Some(s) => if s.tile != tile { Err(Reject::TileEmpty) } else { stray_overwrite(st, canon, catalog, actor, cid, tile, s) },
                    None => Err(Reject::TileEmpty),
                },
            }
        },
    }
}

#[verifier::rlimit(30)]
fn overwrite_spirit(st: &GameState, canon: &Canon, catalog: &[CardDef], actor: Seat, cid: CardId, tile: u8, occ: &Spirit, roll: bool) -> (r: Result<Vec<Event>, Reject>)
    requires
        projectable(*st, catalog@),
        hand_known(*st, catalog@),
        catalog_has(catalog@, cid),
        (tile as int) < st.board@.len(),
        st.board@[tile as int].spirit == Some(*occ),
        overwrite_fits(spec_card(catalog@, cid), *occ, spec_card(catalog@, occ.card),
            spec_keyword_active(*st, *canon, catalog@, tile, Keyword::Warded), defender_echo(*occ, roll)),
    ensures
        match r {
            Ok(v) => spirit_overwrite(*st, *canon, catalog@, actor, cid, tile, *occ, roll) == Ok::<Seq<Event>, Reject>(v@),
            Err(e) => spirit_overwrite(*st, *canon, catalog@, actor, cid, tile, *occ, roll) == Err::<Seq<Event>, Reject>(e),
        },
{
    let def = card(catalog, cid);
    if !(occ.owner != actor && !occ.fading) {
        return Err(Reject::TargetNotEnemy);
    }
    let proj = projection_slot(st, st.active_slot, catalog);
    if !proj[tile as usize] {
        return Err(Reject::OutsideProjection);
    }
    if st.contracted && is_rim_w(tile, st.board_w) {
        return Err(Reject::TileHeld);
    }
    let raw: i32 = def.cost as i32 + cost_aura(st, actor, canon, catalog) as i32;
    let cost: u8 = if raw >= 0 { raw as u8 } else { 0 };
    assert(cost == effective_cost(*st, *canon, catalog@, actor, def.cost, 0));
    if active_player(st).anima < cost {
        return Err(Reject::NotEnoughAnima);
    }
    let occ_def = card(catalog, occ.card);
    let echo = occ.echo_eligible() && roll;
    let warded = eff_warded(st, canon, catalog, tile);
    let a_edge: i32 = if def.resonance.edge_over(occ_def.resonance) { EDGE as i32 } else { 0 };
    let d_edge: i32 = if occ_def.resonance.edge_over(def.resonance) { EDGE as i32 } else { 0 };
    let bonus: i32 = if echo { ECHO_BONUS as i32 } else { 0 };
    let dealt_raw: i32 = def.attack as i32 + a_edge - eff_defense(occ.defense, def.arcane, warded) as i32;
    let taken_raw: i32 = occ.attack as i32 + d_edge + bonus - eff_defense(def.defense, occ_def.arcane, def.warded) as i32;
    let dealt: i32 = if dealt_raw > 0 { dealt_raw } else { 0 };
    let taken: i32 = if taken_raw > 0 { taken_raw } else { 0 };
    proof {
        let blows = overwrite_blows(*def, *occ, *occ_def, warded, echo);
        assert(dealt == blows.0);
        assert(taken == blows.1);
    }
    let spent = Event::AnimaSpent { seat: actor, amount: cost };
    let fought = Event::Overwrote {
        seat: actor,
        card: cid,
        tile,
        success: occ.hp as i32 - dealt <= 0,
        damage_to_defender: dealt as i16,
        defender_echo: echo,
        attack: def.attack,
        defense: def.defense,
        attacker_hp_left: (def.hp as i32 - taken) as i16,
        attacker_hp_max: def.hp,
    };
    let mut v: Vec<Event> = Vec::new();
    v.push(spent);
    v.push(fought);
    assert(v@ =~= seq![spent, fought]);
    Ok(v)
}

#[verifier::rlimit(30)]
fn overwrite_stray(st: &GameState, canon: &Canon, catalog: &[CardDef], actor: Seat, cid: CardId, tile: u8, s: &Stray) -> (r: Result<Vec<Event>, Reject>)
    requires
        projectable(*st, catalog@),
        hand_known(*st, catalog@),
        catalog_has(catalog@, cid),
        catalog_has(catalog@, s.card),
        (tile as int) < st.board@.len(),
        stray_fits(spec_card(catalog@, cid), spec_card(catalog@, s.card), s.hp),
    ensures
        match r {
            Ok(v) => stray_overwrite(*st, *canon, catalog@, actor, cid, tile, *s) == Ok::<Seq<Event>, Reject>(v@),
            Err(e) => stray_overwrite(*st, *canon, catalog@, actor, cid, tile, *s) == Err::<Seq<Event>, Reject>(e),
        },
{
    let def = card(catalog, cid);
    let proj = projection_slot(st, st.active_slot, catalog);
    if !proj[tile as usize] {
        return Err(Reject::OutsideProjection);
    }
    if st.contracted && is_rim_w(tile, st.board_w) {
        return Err(Reject::TileHeld);
    }
    let raw: i32 = def.cost as i32 + cost_aura(st, actor, canon, catalog) as i32;
    let cost: u8 = if raw >= 0 { raw as u8 } else { 0 };
    assert(cost == effective_cost(*st, *canon, catalog@, actor, def.cost, 0));
    if active_player(st).anima < cost {
        return Err(Reject::NotEnoughAnima);
    }
    let spent = Event::AnimaSpent { seat: actor, amount: cost };
    let mut v: Vec<Event> = Vec::new();
    v.push(spent);
    if s.veiled {
        let taken_unwounded = Event::OverwroteStray {
            seat: actor,
            card: cid,
            tile,
            success: true,
            damage_to_stray: 0,
            attack: def.attack,
            defense: def.defense,
            attacker_hp_left: def.hp,
            attacker_hp_max: def.hp,
        };
        v.push(Event::StrayDenied { tile });
        v.push(taken_unwounded);
        assert(v@ =~= seq![spent, Event::StrayDenied { tile }, taken_unwounded]);
        return Ok(v);
    }
    let sc = card(catalog, s.card);
    let dealt_raw: i32 = def.attack as i32 - eff_defense(sc.defense, def.arcane, sc.warded) as i32;
    let taken_raw: i32 = sc.attack as i32 - eff_defense(def.defense, sc.arcane, def.warded) as i32;
    let dealt: i32 = if dealt_raw > 0 { dealt_raw } else { 0 };
    let taken: i32 = if taken_raw > 0 { taken_raw } else { 0 };
    proof {
        let blows = stray_blows(*def, *sc);
        assert(dealt == blows.0);
        assert(taken == blows.1);
    }
    let fought = Event::OverwroteStray {
        seat: actor,
        card: cid,
        tile,
        success: s.hp as i32 - dealt <= 0,
        damage_to_stray: dealt as i16,
        attack: def.attack,
        defense: def.defense,
        attacker_hp_left: (def.hp as i32 - taken) as i16,
        attacker_hp_max: def.hp,
    };
    v.push(fought);
    assert(v@ =~= seq![spent, fought]);
    Ok(v)
}

/// Overwrite the occupant of `tile` with the spirit in hand slot `hand_index` (see
/// `spec_overwrite`); `roll` is the Echo roll drawn for an Echo-eligible defender.
pub fn decide_overwrite(st: &GameState, canon: &Canon, catalog: &[CardDef], actor: Seat, hand_index: u8, tile: u8, roll: bool) -> (r: Result<Vec<Event>, Reject>)
    requires
        projectable(*st, catalog@),
        hand_known(*st, catalog@),
        st.stray matches Some(s) ==> catalog_has(catalog@, s.card),
        overwrite_in_range(*st, *canon, catalog@, hand_index, tile, roll),
    ensures
        match r {
            Ok(v) => spec_overwrite(*st, *canon, catalog@, actor, hand_index, tile, roll) == Ok::<Seq<Event>, Reject>(v@),
            Err(e) => spec_overwrite(*st, *canon, catalog@, actor, hand_index, tile, roll) == Err::<Seq<Event>, Reject>(e),
        },
{
    proof {
        lemma_wf_small(*st);
    }
    let p = active_player(st);
    if hand_index as usize >= p.hand.len() {
        return Err(Reject::BadHandIndex);
    }
    let cid = p.hand[hand_index as usize];
    if tile as usize >= st.board.len() {
        return Err(Reject::BadTile);
    }
    match st.spirit_at(tile) {
        Some(occ) => {
            proof {
                assert(st.board@[tile as int].spirit == Some(*occ));
            }
            overwrite_spirit(st, canon, catalog, actor, cid, tile, occ, roll)
        },
        None => match &st.stray {
            Some(s) => {
                if s.tile != tile {
                    return Err(Reject::TileEmpty);
                }
                overwrite_stray(st, canon, catalog, actor, cid, tile, s)
            },
            None => Err(Reject::TileEmpty),
        },
    }
}

} // verus!
