//! Casting from the spellbook: the legality and the cost of setting a Landmark, a
//! Fabrication or a Bond, casting a Ritual and telling an Unwriting, and the events each
//! command records.
use vstd::prelude::*;

use crate::auras::{exception_active, lemma_wf_small, spec_exception_active, spec_terrain_carries, tile_terrain_exception, ClauseTest};
use crate::cards::{card, catalog_has, spec_card};
use crate::conditions::{manhattan, spec_manhattan};
use crate::effects::{Canon, RuleException};
use crate::events::{seat_get, slot_player, Event};
use crate::projection::{any_projected_placement, projectable, projection, spec_any_projected_placement, spec_projected};
use crate::rules::Reject;
use crate::state::{GameState, PlayerState};
use crate::strike::floor0;
use crate::tally::{adjacent_landmark_fab_delta, cost_aura, spec_board_sum, spec_cost_aura, wrap16, ClauseTally, TileFilter};
use crate::types::{CardDef, CardId, CardKind, Seat, SeatSlot};

verus! {

/// The player of the acting slot.
pub open spec fn actor_player(st: GameState) -> PlayerState {
    slot_player(st, st.active_slot)->Some_0
}

/// The card at `hand_index` of the acting player's hand.
pub open spec fn hand_card(st: GameState, hand_index: u8) -> Option<CardId> {
    let h = actor_player(st).hand@;
    if (hand_index as int) < h.len() { Some(h[hand_index as int]) } else { None }
}

/// Every card in the acting player's hand is in the catalog.
pub open spec fn hand_known(st: GameState, catalog: Seq<CardDef>) -> bool {
    &&& slot_player(st, st.active_slot) is Some
    &&& forall|i: int| 0 <= i < actor_player(st).hand@.len() ==> catalog_has(catalog, #[trigger] actor_player(st).hand@[i])
}

/// Playing a card spends the seat's surcharge when one is in force this round.
pub open spec fn tax_events(st: GameState, seat: Seat) -> Seq<Event> {
    let (tax, until) = seat_get(st.card_tax, seat);
    if tax > 0 && until >= st.round { seq![Event::CardTaxSpent { seat }] } else { Seq::empty() }
}

/// Terrain may not be set on `tile`: it has faded, or a spirit, terrain or the Stray holds it.
pub open spec fn tile_held(st: GameState, tile: u8) -> bool {
    let t = st.board@[tile as int];
    t.faded || t.spirit is Some || t.terrain is Some || (st.stray matches Some(s) && s.tile == tile)
}

/// `actor` may set down on `tile`: it is projected, or `actor` has no projected placement
/// at all and may take the margin.
pub open spec fn placement_allowed(st: GameState, catalog: Seq<CardDef>, actor: Seat, tile: u8) -> bool {
    spec_projected(st, catalog, actor, None, tile as int) || !spec_any_projected_placement(st, catalog, actor)
}

/// A card's effective cost: its printed cost plus the seat's cost aura and `extra`, never
/// below 0, as a `u8`.
pub open spec fn effective_cost(st: GameState, canon: Canon, catalog: Seq<CardDef>, actor: Seat, cost: u8, extra: int) -> u8 {
    floor0(cost + spec_cost_aura(st, canon, catalog, actor) + extra) as u8
}

/// The Long Shadow's cost delta for a Fabrication set on `tile`.
pub open spec fn fab_delta(st: GameState, canon: Canon, catalog: Seq<CardDef>, actor: Seat, tile: u8) -> int {
    wrap16(spec_board_sum(st, canon, catalog, TileFilter::TerrainNear { seat: actor, tile }, ClauseTally::OwnerCostDelta).0) as int
}

/// Setting terrain of `kind` from hand slot `hand_index` on `tile`: a hand slot that holds a
/// card, a card of that kind, a tile nothing holds, a placement the seat may make, and the
/// Anima for the effective cost; then the Anima is spent (with the surcharge) and the terrain
/// laid by `laid`.
pub open spec fn spec_set_terrain(
    st: GameState,
    canon: Canon,
    catalog: Seq<CardDef>,
    actor: Seat,
    hand_index: u8,
    tile: u8,
    kind: CardKind,
    extra: int,
    laid: Event,
) -> Result<Seq<Event>, Reject> {
    match hand_card(st, hand_index) {
        None => Err(Reject::BadHandIndex),
        Some(cid) => {
            let def = spec_card(catalog, cid);
            if def.kind != kind {
                Err(Reject::WrongCardKind)
            } else if tile_held(st, tile) {
                Err(Reject::TileHeld)
            } else if !placement_allowed(st, catalog, actor, tile) {
                Err(Reject::OutsideProjection)
            } else {
                let cost = effective_cost(st, canon, catalog, actor, def.cost, extra);
                if actor_player(st).anima < cost {
                    Err(Reject::NotEnoughAnima)
                } else {
                    Ok(seq![Event::AnimaSpent { seat: actor, amount: cost }] + tax_events(st, actor) + seq![laid])
                }
            }
        },
    }
}

/// The terrain command reaches the tile check: the hand slot holds a card of `kind`.
pub open spec fn reaches_tile(st: GameState, catalog: Seq<CardDef>, hand_index: u8, kind: CardKind) -> bool {
    hand_card(st, hand_index) matches Some(cid) && spec_card(catalog, cid).kind == kind
}

pub(crate) fn active_player(st: &GameState) -> (p: &PlayerState)
    requires
        slot_player(*st, st.active_slot) is Some,
    ensures
        *p == actor_player(*st),
{
    match st.active_slot {
        SeatSlot::A1 => &st.player_a,
        SeatSlot::B1 => &st.player_b,
        SeatSlot::A2 => match &st.player_a2 {
            Some(p) => p,
            None => &st.player_a,
        },
        SeatSlot::B2 => match &st.player_b2 {
            Some(p) => p,
            None => &st.player_b,
        },
    }
}

pub(crate) fn tax_list(st: &GameState, seat: Seat, list: &mut Vec<Event>)
    ensures
        final(list)@ == old(list)@ + tax_events(*st, seat),
{
    let (tax, until) = match seat {
        Seat::A => st.card_tax[0],
        Seat::B => st.card_tax[1],
    };
    if tax > 0 && until >= st.round {
        list.push(Event::CardTaxSpent { seat });
    } else {
        assert(old(list)@ + Seq::<Event>::empty() == old(list)@);
    }
}

fn held_exec(st: &GameState, tile: u8) -> (r: bool)
    requires
        (tile as int) < st.board@.len(),
    ensures
        r == tile_held(*st, tile),
{
    let t = &st.board[tile as usize];
    let stray_here = match &st.stray {
        Some(s) => s.tile == tile,
        None => false,
    };
    t.faded || t.spirit.is_some() || t.terrain.is_some() || stray_here
}

fn allowed_exec(st: &GameState, catalog: &[CardDef], actor: Seat, tile: u8) -> (r: bool)
    requires
        projectable(*st, catalog@),
        (tile as int) < st.board@.len(),
    ensures
        r == placement_allowed(*st, catalog@, actor, tile),
{
    let proj = projection(st, actor, catalog);
    let margin = !any_projected_placement(st, actor, catalog);
    proj[tile as usize] || margin
}

/// The shared body of the terrain commands (see `spec_set_terrain`).
fn set_terrain(
    st: &GameState,
    canon: &Canon,
    catalog: &[CardDef],
    actor: Seat,
    hand_index: u8,
    tile: u8,
    kind: CardKind,
    fab: bool,
) -> (r: Result<Vec<Event>, Reject>)
    requires
        projectable(*st, catalog@),
        hand_known(*st, catalog@),
        reaches_tile(*st, catalog@, hand_index, kind) ==> (tile as int) < st.board@.len(),
    ensures
        ({
            let extra = if fab { fab_delta(*st, *canon, catalog@, actor, tile) } else { 0 };
            let laid = match hand_card(*st, hand_index) {
                Some(cid) => if fab { Event::FabricationSet { seat: actor, card: cid, tile } } else { Event::LandmarkPlaced { seat: actor, card: cid, tile } },
                None => Event::MatchStarted,
            };
            match r {
                Ok(v) => spec_set_terrain(*st, *canon, catalog@, actor, hand_index, tile, kind, extra, laid) == Ok::<Seq<Event>, Reject>(v@),
                Err(e) => spec_set_terrain(*st, *canon, catalog@, actor, hand_index, tile, kind, extra, laid) == Err::<Seq<Event>, Reject>(e),
            }
        }),
{
    proof {
        lemma_wf_small(*st);
    }
    let p = active_player(st);
    if hand_index as usize >= p.hand.len() {
        return Err(Reject::BadHandIndex);
    }
    let cid = p.hand[hand_index as usize];
    let def = card(catalog, cid);
    if def.kind != kind {
        return Err(Reject::WrongCardKind);
    }
    if held_exec(st, tile) {
        return Err(Reject::TileHeld);
    }
    if !allowed_exec(st, catalog, actor, tile) {
        return Err(Reject::OutsideProjection);
    }
    let extra: i32 = if fab { adjacent_landmark_fab_delta(st, canon, catalog, actor, tile) as i32 } else { 0 };
    let raw: i32 = def.cost as i32 + cost_aura(st, actor, canon, catalog) as i32 + extra;
    let cost: u8 = if raw >= 0 { raw as u8 } else { 0 };
    if p.anima < cost {
        return Err(Reject::NotEnoughAnima);
    }
    let ghost extra_spec = if fab { fab_delta(*st, *canon, catalog@, actor, tile) } else { 0 };
    assert(cost == effective_cost(*st, *canon, catalog@, actor, def.cost, extra_spec));
    let mut list: Vec<Event> = Vec::new();
    list.push(Event::AnimaSpent { seat: actor, amount: cost });
    tax_list(st, actor, &mut list);
    let laid = if fab {
        Event::FabricationSet { seat: actor, card: cid, tile }
    } else {
        Event::LandmarkPlaced { seat: actor, card: cid, tile }
    };
    list.push(laid);
    assert(list@ == seq![Event::AnimaSpent { seat: actor, amount: cost }] + tax_events(*st, actor) + seq![laid]);
    Ok(list)
}

/// Place a Landmark from hand slot `hand_index` on `tile` (see `spec_set_terrain`): the
/// events it records, or why it is refused.
pub fn decide_place_landmark(st: &GameState, canon: &Canon, catalog: &[CardDef], actor: Seat, hand_index: u8, tile: u8) -> (r: Result<Vec<Event>, Reject>)
    requires
        projectable(*st, catalog@),
        hand_known(*st, catalog@),
        reaches_tile(*st, catalog@, hand_index, CardKind::Landmark) ==> (tile as int) < st.board@.len(),
    ensures
        ({
            let laid = match hand_card(*st, hand_index) {
                Some(cid) => Event::LandmarkPlaced { seat: actor, card: cid, tile },
                None => Event::MatchStarted,
            };
            match r {
                Ok(v) => spec_set_terrain(*st, *canon, catalog@, actor, hand_index, tile, CardKind::Landmark, 0, laid) == Ok::<Seq<Event>, Reject>(v@),
                Err(e) => spec_set_terrain(*st, *canon, catalog@, actor, hand_index, tile, CardKind::Landmark, 0, laid) == Err::<Seq<Event>, Reject>(e),
            }
        }),
{
    set_terrain(st, canon, catalog, actor, hand_index, tile, CardKind::Landmark, false)
}

/// Set a Fabrication face down from hand slot `hand_index` on `tile` (see
/// `spec_set_terrain`; the Long Shadow's delta joins the cost): the events it records, or
/// why it is refused.
pub fn decide_set_fabrication(st: &GameState, canon: &Canon, catalog: &[CardDef], actor: Seat, hand_index: u8, tile: u8) -> (r: Result<Vec<Event>, Reject>)
    requires
        projectable(*st, catalog@),
        hand_known(*st, catalog@),
        reaches_tile(*st, catalog@, hand_index, CardKind::Fabrication) ==> (tile as int) < st.board@.len(),
    ensures
        ({
            let laid = match hand_card(*st, hand_index) {
                Some(cid) => Event::FabricationSet { seat: actor, card: cid, tile },
                None => Event::MatchStarted,
            };
            let extra = fab_delta(*st, *canon, catalog@, actor, tile);
            match r {
                Ok(v) => spec_set_terrain(*st, *canon, catalog@, actor, hand_index, tile, CardKind::Fabrication, extra, laid) == Ok::<Seq<Event>, Reject>(v@),
                Err(e) => spec_set_terrain(*st, *canon, catalog@, actor, hand_index, tile, CardKind::Fabrication, extra, laid) == Err::<Seq<Event>, Reject>(e),
            }
        }),
{
    set_terrain(st, canon, catalog, actor, hand_index, tile, CardKind::Fabrication, true)
}

/// The spirit on `t` is a standing spirit of `actor`.
pub open spec fn own_standing(st: GameState, actor: Seat, t: u8) -> bool {
    st.spec_spirit_at(t) matches Some(sp) && sp.owner == actor && !sp.fading
}

/// A Bond between `a` and `b` is free: a seat-wide Bonds-cost-nothing exception, or either
/// end on the seat's Common Ground.
pub open spec fn bond_free(st: GameState, canon: Canon, catalog: Seq<CardDef>, actor: Seat, a: u8, b: u8) -> bool {
    ||| spec_exception_active(st, canon, catalog, actor, RuleException::BondsCostZero)
    ||| spec_terrain_carries(st, canon, catalog, a, Some(actor), ClauseTest::OccupantException(RuleException::BondsFreeOnLandmark))
    ||| spec_terrain_carries(st, canon, catalog, b, Some(actor), ClauseTest::OccupantException(RuleException::BondsFreeOnLandmark))
}

/// Attaching the Bond in hand slot `hand_index` to the spirits on `a` and `b`: a hand slot
/// that holds a Bond, two distinct standing spirits of the seat one step apart, and the
/// Anima for its cost (nothing when it is free); then the Anima is spent (with the
/// surcharge) when there is any to spend, and the Bond attached.
pub open spec fn spec_attach_bond(st: GameState, canon: Canon, catalog: Seq<CardDef>, actor: Seat, hand_index: u8, a: u8, b: u8) -> Result<Seq<Event>, Reject> {
    match hand_card(st, hand_index) {
        None => Err(Reject::BadHandIndex),
        Some(cid) => {
            let def = spec_card(catalog, cid);
            if def.kind != CardKind::Bond {
                Err(Reject::WrongCardKind)
            } else if !own_standing(st, actor, a) || !own_standing(st, actor, b) || a == b {
                Err(Reject::BadTile)
            } else if spec_manhattan(a, b) != 1 {
                Err(Reject::TargetNotInReach)
            } else {
                let cost: u8 = if bond_free(st, canon, catalog, actor, a, b) { 0 } else { effective_cost(st, canon, catalog, actor, def.cost, 0) };
                if actor_player(st).anima < cost {
                    Err(Reject::NotEnoughAnima)
                } else {
                    Ok((if cost > 0 { seq![Event::AnimaSpent { seat: actor, amount: cost }] + tax_events(st, actor) } else { Seq::empty() })
                        + seq![Event::BondAttached { seat: actor, card: cid, tile_a: a, tile_b: b }])
                }
            }
        },
    }
}

/// Attach the Bond in hand slot `hand_index` to the spirits on `tile_a` and `tile_b` (see
/// `spec_attach_bond`): the events up to the Bond's attachment, or why it is refused. The
/// seat's spirits that answer a Bond being played act after it, outside this crate.
pub fn decide_attach_bond(st: &GameState, canon: &Canon, catalog: &[CardDef], actor: Seat, hand_index: u8, tile_a: u8, tile_b: u8) -> (r: Result<Vec<Event>, Reject>)
    requires
        projectable(*st, catalog@),
        hand_known(*st, catalog@),
    ensures
        match r {
            Ok(v) => spec_attach_bond(*st, *canon, catalog@, actor, hand_index, tile_a, tile_b) == Ok::<Seq<Event>, Reject>(v@),
            Err(e) => spec_attach_bond(*st, *canon, catalog@, actor, hand_index, tile_a, tile_b) == Err::<Seq<Event>, Reject>(e),
        },
{
    proof {
        lemma_wf_small(*st);
    }
    let p = active_player(st);
    if hand_index as usize >= p.hand.len() {
        return Err(Reject::BadHandIndex);
    }
    let cid = p.hand[hand_index as usize];
    let def = card(catalog, cid);
    if def.kind != CardKind::Bond {
        return Err(Reject::WrongCardKind);
    }
    let ok_a = match st.spirit_at(tile_a) {
        Some(sp) => sp.owner == actor && !sp.fading,
        None => false,
    };
    let ok_b = match st.spirit_at(tile_b) {
        Some(sp) => sp.owner == actor && !sp.fading,
        None => false,
    };
    if !ok_a || !ok_b || tile_a == tile_b {
        return Err(Reject::BadTile);
    }
    if manhattan(tile_a, tile_b) != 1 {
        return Err(Reject::TargetNotInReach);
    }
    let free = exception_active(st, canon, catalog, actor, RuleException::BondsCostZero)
        || tile_terrain_exception(st, canon, catalog, tile_a, actor, RuleException::BondsFreeOnLandmark)
        || tile_terrain_exception(st, canon, catalog, tile_b, actor, RuleException::BondsFreeOnLandmark);
    let cost: u8 = if free {
        0
    } else {
        let raw: i32 = def.cost as i32 + cost_aura(st, actor, canon, catalog) as i32;
        if raw >= 0 { raw as u8 } else { 0 }
    };
    if p.anima < cost {
        return Err(Reject::NotEnoughAnima);
    }
    let mut list: Vec<Event> = Vec::new();
    if cost > 0 {
        list.push(Event::AnimaSpent { seat: actor, amount: cost });
        tax_list(st, actor, &mut list);
    }
    let bond = Event::BondAttached { seat: actor, card: cid, tile_a, tile_b };
    list.push(bond);
    proof {
        if cost > 0 {
            assert(list@ == seq![Event::AnimaSpent { seat: actor, amount: cost }] + tax_events(*st, actor) + seq![bond]);
        } else {
            assert(list@ == Seq::<Event>::empty() + seq![bond]);
        }
    }
    Ok(list)
}

// ---------------------------------------------------------------------------
// Rituals and Unwritings
// ---------------------------------------------------------------------------

/// Casting the Ritual in hand slot `hand_index`: no choice pending, a hand slot holding a
/// Ritual, and Anima for its cost with the cost aura, less the seat's one-shot Ritual
/// discount. Then the discount is spent if there is one, the Anima and any surcharge are
/// spent, and the Ritual is cast.
pub open spec fn spec_cast_ritual(st: GameState, canon: Canon, catalog: Seq<CardDef>, actor: Seat, hand_index: u8) -> Result<Seq<Event>, Reject> {
    if st.pending_choice is Some {
        Err(Reject::ChoicePending)
    } else {
        match hand_card(st, hand_index) {
            None => Err(Reject::BadHandIndex),
            Some(cid) => {
                let def = spec_card(catalog, cid);
                let discount = seat_get(st.next_ritual_discount, actor);
                let cost = effective_cost(st, canon, catalog, actor, def.cost, -(discount as int));
                if def.kind != CardKind::Ritual {
                    Err(Reject::WrongCardKind)
                } else if actor_player(st).anima < cost {
                    Err(Reject::NotEnoughAnima)
                } else {
                    Ok((if discount > 0 { seq![Event::RitualDiscountConsumed { seat: actor }] } else { Seq::empty() })
                        + seq![Event::AnimaSpent { seat: actor, amount: cost }] + tax_events(st, actor)
                        + seq![Event::RitualCast { seat: actor, card: cid }])
                }
            },
        }
    }
}

/// Cast the Ritual in hand slot `hand_index` (see `spec_cast_ritual`): the events up to the
/// cast, or why it is refused. Its clauses then fire as an OnPlay, which may arm an extra
/// target and schedule Flow Anima; that firing is not in this crate.
pub fn decide_cast_ritual(st: &GameState, canon: &Canon, catalog: &[CardDef], actor: Seat, hand_index: u8) -> (r: Result<Vec<Event>, Reject>)
    requires
        projectable(*st, catalog@),
        hand_known(*st, catalog@),
    ensures
        match r {
            Ok(v) => spec_cast_ritual(*st, *canon, catalog@, actor, hand_index) == Ok::<Seq<Event>, Reject>(v@),
            Err(e) => spec_cast_ritual(*st, *canon, catalog@, actor, hand_index) == Err::<Seq<Event>, Reject>(e),
        },
{
    if st.pending_choice.is_some() {
        return Err(Reject::ChoicePending);
    }
    let p = active_player(st);
    if hand_index as usize >= p.hand.len() {
        return Err(Reject::BadHandIndex);
    }
    let cid = p.hand[hand_index as usize];
    let def = card(catalog, cid);
    if def.kind != CardKind::Ritual {
        return Err(Reject::WrongCardKind);
    }
    let discount: u8 = match actor {
        Seat::A => st.next_ritual_discount[0],
        Seat::B => st.next_ritual_discount[1],
    };
    let raw: i32 = def.cost as i32 + cost_aura(st, actor, canon, catalog) as i32 - discount as i32;
    let cost: u8 = if raw >= 0 { raw as u8 } else { 0 };
    assert(cost == effective_cost(*st, *canon, catalog@, actor, def.cost, -(discount as int)));
    if p.anima < cost {
        return Err(Reject::NotEnoughAnima);
    }
    let mut list: Vec<Event> = Vec::new();
    if discount > 0 {
        list.push(Event::RitualDiscountConsumed { seat: actor });
    }
    let ghost head = list@;
    list.push(Event::AnimaSpent { seat: actor, amount: cost });
    tax_list(st, actor, &mut list);
    list.push(Event::RitualCast { seat: actor, card: cid });
    assert(list@ =~= head + seq![Event::AnimaSpent { seat: actor, amount: cost }] + tax_events(*st, actor)
        + seq![Event::RitualCast { seat: actor, card: cid }]);
    Ok(list)
}

/// Telling the Unwriting in hand slot `hand_index`: no choice pending, a hand slot holding
/// an Unwriting, and Anima for its cost with the cost aura. Then the Anima and any
/// surcharge are spent, and the Unwriting is told.
pub open spec fn spec_tell_unwriting(st: GameState, canon: Canon, catalog: Seq<CardDef>, actor: Seat, hand_index: u8) -> Result<Seq<Event>, Reject> {
    if st.pending_choice is Some {
        Err(Reject::ChoicePending)
    } else {
        match hand_card(st, hand_index) {
            None => Err(Reject::BadHandIndex),
            Some(cid) => {
                let def = spec_card(catalog, cid);
                let cost = effective_cost(st, canon, catalog, actor, def.cost, 0);
                if def.kind != CardKind::Unwriting {
                    Err(Reject::WrongCardKind)
                } else if actor_player(st).anima < cost {
                    Err(Reject::NotEnoughAnima)
                } else {
                    Ok(seq![Event::AnimaSpent { seat: actor, amount: cost }] + tax_events(st, actor)
                        + seq![Event::UnwritingTold { seat: actor, card: cid }])
                }
            },
        }
    }
}

/// Tell the Unwriting in hand slot `hand_index` (see `spec_tell_unwriting`): the events up
/// to the telling, or why it is refused. Its clauses then fire as an OnPlay, outside this
/// crate.
pub fn decide_tell_unwriting(st: &GameState, canon: &Canon, catalog: &[CardDef], actor: Seat, hand_index: u8) -> (r: Result<Vec<Event>, Reject>)
    requires
        projectable(*st, catalog@),
        hand_known(*st, catalog@),
    ensures
        match r {
            Ok(v) => spec_tell_unwriting(*st, *canon, catalog@, actor, hand_index) == Ok::<Seq<Event>, Reject>(v@),
            Err(e) => spec_tell_unwriting(*st, *canon, catalog@, actor, hand_index) == Err::<Seq<Event>, Reject>(e),
        },
{
    if st.pending_choice.is_some() {
        return Err(Reject::ChoicePending);
    }
    let p = active_player(st);
    if hand_index as usize >= p.hand.len() {
        return Err(Reject::BadHandIndex);
    }
    let cid = p.hand[hand_index as usize];
    let def = card(catalog, cid);
    if def.kind != CardKind::Unwriting {
        return Err(Reject::WrongCardKind);
    }
    let raw: i32 = def.cost as i32 + cost_aura(st, actor, canon, catalog) as i32;
    let cost: u8 = if raw >= 0 { raw as u8 } else { 0 };
    assert(cost == effective_cost(*st, *canon, catalog@, actor, def.cost, 0));
    if p.anima < cost {
        return Err(Reject::NotEnoughAnima);
    }
    let mut list: Vec<Event> = Vec::new();
    list.push(Event::AnimaSpent { seat: actor, amount: cost });
    tax_list(st, actor, &mut list);
    list.push(Event::UnwritingTold { seat: actor, card: cid });
    assert(list@ == seq![Event::AnimaSpent { seat: actor, amount: cost }] + tax_events(*st, actor)
        + seq![Event::UnwritingTold { seat: actor, card: cid }]);
    Ok(list)
}

} // verus!
