//! Commands on a spirit already on the board: a fading form recedes to its base, a
//! face-down spirit is revealed, a Mobile spirit steps, a spirit strikes a hidden
//! Fabrication, and a spirit is reclaimed for Anima. Each answers with the events it
//! records, or the reason it is refused. Each stops there: what a match then runs (a
//! queued next-arrival buff, the Throughline, an engage's exchange, interception,
//! Momentum, springing a trap, the spirit's own effects, a Parting) is not in this crate.
use vstd::prelude::*;

use crate::auras::{clause_passes, clause_passes_test, exception_active, lemma_wf_small, spec_exception_active, ClauseTest};
use crate::cards::{card, catalog_has, spec_card};
use crate::events::{AnimaReason, Event};
use crate::projection::projectable;
use crate::rules::Reject;
use crate::effects::{spec_specs_for, specs_for, Canon, EffectSpec, Keyword, Restriction, RuleException, Trigger};
use crate::keywords::{keyword_active, spec_keyword_active};
use crate::projection::{restricted, spec_restricted};
use crate::spellbook::{active_player, actor_player, hand_card, hand_known};
use crate::state::{GameState, TerrainKind};
use crate::targeting::{spec_targeting_reach, targeting_reach};
use crate::types::{adjacent4_w, is_rim_w, spec_adjacent4_w, spec_is_rim_w, CardDef, CardId, Seat};

verus! {

// ---------------------------------------------------------------------------
// Devolution
// ---------------------------------------------------------------------------

/// Devolving the fading form on `tile` to the base in hand slot `base_hand`: no choice
/// pending, a tile on the board holding a spirit of the actor's, a form (it has a base)
/// inside its standing-fade window (fading, with a fade deadline), a hand slot holding that
/// very base, and half the form's cost in Anima (no cost aura). Then the Anima is spent, if
/// any, and the base replaces the form at its printed numbers.
pub open spec fn spec_devolve(st: GameState, catalog: Seq<CardDef>, actor: Seat, tile: u8, base_hand: u8) -> Result<Seq<Event>, Reject> {
    if st.pending_choice is Some {
        Err(Reject::ChoicePending)
    } else if tile as int >= st.board@.len() {
        Err(Reject::BadTile)
    } else {
        match st.spec_spirit_at(tile) {
            None => Err(Reject::TileEmpty),
            Some(form) => if form.owner != actor {
                Err(Reject::NotYourSpirit)
            } else if !form.fading || form.fade_deadline is None {
                Err(Reject::DevolveConditionUnmet)
            } else {
                let form_def = spec_card(catalog, form.card);
                match form_def.evolves_from {
                    None => Err(Reject::DevolveConditionUnmet),
                    Some(base_name) => match hand_card(st, base_hand) {
                        None => Err(Reject::BadHandIndex),
                        Some(bid) => {
                            let base = spec_card(catalog, bid);
                            let cost = form_def.cost / 2;
                            if base.name@ != base_name@ {
                                Err(Reject::DevolveConditionUnmet)
                            } else if actor_player(st).anima < cost {
                                Err(Reject::NotEnoughAnima)
                            } else {
                                Ok((if cost > 0 { seq![Event::AnimaSpent { seat: actor, amount: cost }] } else { Seq::empty() })
                                    + seq![Event::SpiritDevolved {
                                        seat: actor,
                                        tile,
                                        from: form.card,
                                        to: bid,
                                        attack: base.attack,
                                        defense: base.defense,
                                        hp: base.hp,
                                    }])
                            }
                        },
                    },
                }
            },
        }
    }
}

/// Devolve the fading form on `tile` to the base in hand slot `base_hand` (see
/// `spec_devolve`): the events up to the base's arrival, or why it is refused.
pub fn decide_devolve(st: &GameState, catalog: &[CardDef], actor: Seat, tile: u8, base_hand: u8) -> (r: Result<Vec<Event>, Reject>)
    requires
        projectable(*st, catalog@),
        hand_known(*st, catalog@),
    ensures
        match r {
            Ok(v) => spec_devolve(*st, catalog@, actor, tile, base_hand) == Ok::<Seq<Event>, Reject>(v@),
            Err(e) => spec_devolve(*st, catalog@, actor, tile, base_hand) == Err::<Seq<Event>, Reject>(e),
        },
{
    if st.pending_choice.is_some() {
        return Err(Reject::ChoicePending);
    }
    if tile as usize >= st.board.len() {
        return Err(Reject::BadTile);
    }
    let form = match st.spirit_at(tile) {
        Some(sp) => sp,
        None => return Err(Reject::TileEmpty),
    };
    if form.owner != actor {
        return Err(Reject::NotYourSpirit);
    }
    if !form.fading || form.fade_deadline.is_none() {
        return Err(Reject::DevolveConditionUnmet);
    }
    proof {
        assert(st.board@[tile as int].spirit == Some(*form));
    }
    let form_def = card(catalog, form.card);
    let base_name = match &form_def.evolves_from {
        Some(n) => n,
        None => return Err(Reject::DevolveConditionUnmet),
    };
    let p = active_player(st);
    if base_hand as usize >= p.hand.len() {
        return Err(Reject::BadHandIndex);
    }
    let bid = p.hand[base_hand as usize];
    let base = card(catalog, bid);
    if base.name != *base_name {
        return Err(Reject::DevolveConditionUnmet);
    }
    let cost = form_def.cost / 2;
    if p.anima < cost {
        return Err(Reject::NotEnoughAnima);
    }
    let mut v: Vec<Event> = Vec::new();
    if cost > 0 {
        v.push(Event::AnimaSpent { seat: actor, amount: cost });
    }
    v.push(Event::SpiritDevolved {
        seat: actor,
        tile,
        from: form.card,
        to: bid,
        attack: base.attack,
        defense: base.defense,
        hp: base.hp,
    });
    proof {
        let ghost head = if cost > 0 { seq![Event::AnimaSpent { seat: actor, amount: cost }] } else { Seq::<Event>::empty() };
        assert(v@ =~= head + seq![Event::SpiritDevolved {
            seat: actor,
            tile,
            from: form.card,
            to: bid,
            attack: base.attack,
            defense: base.defense,
            hp: base.hp,
        }]);
    }
    Ok(v)
}

// ---------------------------------------------------------------------------
// Revealing
// ---------------------------------------------------------------------------

/// Why the engage of a reveal from `tile` onto `target` is refused, if it is: a spirit
/// held back from engaging this round, a target outside its targeting reach, or no
/// standing enemy there.
pub open spec fn reveal_engage_refusal(st: GameState, canon: Canon, catalog: Seq<CardDef>, actor: Seat, tile: u8, target: u8) -> Option<Reject> {
    let sp = st.spec_spirit_at(tile)->Some_0;
    if sp.no_engage_until >= st.round {
        Some(Reject::EngageRestricted)
    } else if !spec_targeting_reach(st, canon, catalog, spec_card(catalog, sp.card).reach, tile, actor, st.board_w).contains(target) {
        Some(Reject::TargetNotInReach)
    } else {
        match st.spec_spirit_at(target) {
            None => Some(Reject::TileEmpty),
            Some(e) => if e.owner != actor && !e.fading { None } else { Some(Reject::TargetNotEnemy) },
        }
    }
}

/// Revealing the face-down spirit on `tile`, engaging `engage` if given: no choice pending,
/// the tile and the target on the board, a face-down standing spirit of the actor's on the
/// tile, and an engage the spirit may make (see `reveal_engage_refusal`). The spirit turns
/// face up.
pub open spec fn spec_reveal(st: GameState, canon: Canon, catalog: Seq<CardDef>, actor: Seat, tile: u8, engage: Option<u8>) -> Result<Seq<Event>, Reject> {
    if st.pending_choice is Some {
        Err(Reject::ChoicePending)
    } else if tile as int >= st.board@.len() || (engage matches Some(t) && t as int >= st.board@.len()) {
        Err(Reject::BadTile)
    } else {
        match st.spec_spirit_at(tile) {
            None => Err(Reject::TileEmpty),
            Some(sp) => if !(sp.owner == actor && sp.face_down && !sp.fading) {
                Err(Reject::TargetNotEnemy)
            } else {
                match engage {
                    Some(t) => match reveal_engage_refusal(st, canon, catalog, actor, tile, t) {
                        Some(e) => Err(e),
                        None => Ok(seq![Event::SpiritRevealed { tile }]),
                    },
                    None => Ok(seq![Event::SpiritRevealed { tile }]),
                }
            },
        }
    }
}

/// Reveal the face-down spirit on `tile`, engaging `engage` if given (see `spec_reveal`):
/// the reveal, or why it is refused. The engage's exchange and the arrival steps that
/// follow are not in this crate.
pub fn decide_reveal(st: &GameState, canon: &Canon, catalog: &[CardDef], actor: Seat, tile: u8, engage: Option<u8>) -> (r: Result<Vec<Event>, Reject>)
    requires
        projectable(*st, catalog@),
    ensures
        match r {
            Ok(v) => spec_reveal(*st, *canon, catalog@, actor, tile, engage) == Ok::<Seq<Event>, Reject>(v@),
            Err(e) => spec_reveal(*st, *canon, catalog@, actor, tile, engage) == Err::<Seq<Event>, Reject>(e),
        },
{
    proof {
        lemma_wf_small(*st);
    }
    if st.pending_choice.is_some() {
        return Err(Reject::ChoicePending);
    }
    if tile as usize >= st.board.len() {
        return Err(Reject::BadTile);
    }
    match engage {
        Some(t) => {
            if t as usize >= st.board.len() {
                return Err(Reject::BadTile);
            }
        },
        None => {},
    }
    let sp = match st.spirit_at(tile) {
        Some(sp) => sp,
        None => return Err(Reject::TileEmpty),
    };
    if !(sp.owner == actor && sp.face_down && !sp.fading) {
        return Err(Reject::TargetNotEnemy);
    }
    proof {
        assert(st.board@[tile as int].spirit == Some(*sp));
    }
    match engage {
        Some(target) => {
            if sp.no_engage_until >= st.round {
                return Err(Reject::EngageRestricted);
            }
            let reach = targeting_reach(st, canon, catalog, card(catalog, sp.card).reach, tile, actor, st.board_w);
            if !crate::evolve::contains_tile(&reach, target) {
                return Err(Reject::TargetNotInReach);
            }
            match st.spirit_at(target) {
                Some(e) => {
                    if !(e.owner != actor && !e.fading) {
                        return Err(Reject::TargetNotEnemy);
                    }
                },
                None => return Err(Reject::TileEmpty),
            }
        },
        None => {},
    }
    let mut v: Vec<Event> = Vec::new();
    v.push(Event::SpiritRevealed { tile });
    Ok(v)
}

// ---------------------------------------------------------------------------
// A Mobile step
// ---------------------------------------------------------------------------

/// Why the engage of a spirit arriving on `to` from `from` onto `target` is refused, if it
/// is: the mover held back from engaging this round, a target outside the reach it has on
/// `to`, or no standing enemy there.
pub open spec fn step_engage_refusal(st: GameState, canon: Canon, catalog: Seq<CardDef>, actor: Seat, from: u8, to: u8, target: u8) -> Option<Reject> {
    let sp = st.spec_spirit_at(from)->Some_0;
    if sp.no_engage_until >= st.round {
        Some(Reject::EngageRestricted)
    } else if !spec_targeting_reach(st, canon, catalog, spec_card(catalog, sp.card).reach, to, actor, st.board_w).contains(target) {
        Some(Reject::TargetNotInReach)
    } else {
        match st.spec_spirit_at(target) {
            None => Some(Reject::TileEmpty),
            Some(e) => if e.owner != actor && !e.fading { None } else { Some(Reject::TargetNotEnemy) },
        }
    }
}

/// The step's landing is refused, if it is: a faded tile, a spirit or the Stray on it, or
/// terrain other than an enemy face-down Fabrication.
pub open spec fn landing_refusal(st: GameState, actor: Seat, to: u8) -> Option<Reject> {
    let t = st.board@[to as int];
    if t.faded {
        Some(Reject::TileFaded)
    } else if t.spirit is Some || (st.stray matches Some(s) && s.tile == to) {
        Some(Reject::TileOccupied)
    } else if t.terrain matches Some(terr) && !(terr.kind is Fabrication && terr.face_down && terr.owner != actor) {
        Some(Reject::TileOccupied)
    } else {
        None
    }
}

/// A Mobile spirit's step from `from` to `to`, engaging `engage` if given: both tiles on
/// the board; a standing spirit of the actor's on `from` that is Mobile, not held in place,
/// and has not moved (or arrived) this turn; a neighbouring landing that is open
/// (`landing_refusal`). Stepping into an enemy face-down Fabrication engages nothing and
/// springs it where the mover stands: `Ok(None)`, the step ends in springing the trap on `to`.
/// Otherwise the engage must be one the mover may make from `to`, and the spirit moves;
/// vacated rim ground fades behind it once the memory has contracted.
pub open spec fn spec_move_spirit(st: GameState, canon: Canon, catalog: Seq<CardDef>, actor: Seat, from: u8, to: u8, engage: Option<u8>) -> Result<Option<Seq<Event>>, Reject> {
    if from as int >= st.board@.len() || to as int >= st.board@.len() {
        Err(Reject::BadTile)
    } else {
        match st.spec_spirit_at(from) {
            None => Err(Reject::TileEmpty),
            Some(sp) => if sp.owner != actor {
                Err(Reject::NotYourSpirit)
            } else if sp.fading {
                Err(Reject::SpiritFading)
            } else if !spec_keyword_active(st, canon, catalog, from, Keyword::Mobile) {
                Err(Reject::NotMobile)
            } else if spec_restricted(st, actor, Restriction::Move) {
                Err(Reject::MovementRestricted)
            } else if st.moved_this_turn@.contains(from) {
                Err(Reject::AlreadyMoved)
            } else if !spec_adjacent4_w(from, st.board_w).contains(to) {
                Err(Reject::NotAdjacent)
            } else {
                match landing_refusal(st, actor, to) {
                    Some(e) => Err(e),
                    None => if st.board@[to as int].terrain is Some {
                        if engage is Some { Err(Reject::TargetNotInReach) } else { Ok(None) }
                    } else {
                        let moved = seq![Event::SpiritMoved { from, to }];
                        let fades = st.contracted && spec_is_rim_w(from, st.board_w) && !st.board@[from as int].faded;
                        let evs = moved + if fades { seq![Event::TileFaded { tile: from }] } else { Seq::empty() };
                        match engage {
                            Some(t) => match step_engage_refusal(st, canon, catalog, actor, from, to, t) {
                                Some(e) => Err(e),
                                None => Ok(Some(evs)),
                            },
                            None => Ok(Some(evs)),
                        }
                    },
                }
            },
        }
    }
}

/// Step the Mobile spirit on `from` to `to`, engaging `engage` if given (see
/// `spec_move_spirit`): the step's events, `None` when it springs an enemy trap instead
/// (the trap on `to` is sprung), or why it is refused. The engage's exchange,
/// interception, Momentum and the Throughline check that follow are not in this crate.
pub fn decide_move_spirit(st: &GameState, canon: &Canon, catalog: &[CardDef], actor: Seat, from: u8, to: u8, engage: Option<u8>) -> (r: Result<Option<Vec<Event>>, Reject>)
    requires
        projectable(*st, catalog@),
    ensures
        match r {
            Ok(Some(v)) => spec_move_spirit(*st, *canon, catalog@, actor, from, to, engage) == Ok::<Option<Seq<Event>>, Reject>(Some(v@)),
            Ok(None) => spec_move_spirit(*st, *canon, catalog@, actor, from, to, engage) == Ok::<Option<Seq<Event>>, Reject>(None),
            Err(e) => spec_move_spirit(*st, *canon, catalog@, actor, from, to, engage) == Err::<Option<Seq<Event>>, Reject>(e),
        },
{
    proof {
        lemma_wf_small(*st);
    }
    if from as usize >= st.board.len() || to as usize >= st.board.len() {
        return Err(Reject::BadTile);
    }
    let sp = match st.spirit_at(from) {
        Some(sp) => sp,
        None => return Err(Reject::TileEmpty),
    };
    if sp.owner != actor {
        return Err(Reject::NotYourSpirit);
    }
    if sp.fading {
        return Err(Reject::SpiritFading);
    }
    proof {
        assert(st.board@[from as int].spirit == Some(*sp));
    }
    if !keyword_active(st, canon, catalog, from, Keyword::Mobile) {
        return Err(Reject::NotMobile);
    }
    if restricted(st, actor, Restriction::Move) {
        return Err(Reject::MovementRestricted);
    }
    if crate::evolve::contains_tile(&st.moved_this_turn, from) {
        return Err(Reject::AlreadyMoved);
    }
    let adj = adjacent4_w(from, st.board_w);
    if !crate::evolve::contains_tile(&adj, to) {
        return Err(Reject::NotAdjacent);
    }
    let t = &st.board[to as usize];
    if t.faded {
        return Err(Reject::TileFaded);
    }
    let stray_here = match &st.stray {
        Some(s) => s.tile == to,
        None => false,
    };
    if t.spirit.is_some() || stray_here {
        return Err(Reject::TileOccupied);
    }
    match &t.terrain {
        Some(terr) => {
            let enemy_trap = match terr.kind {
                TerrainKind::Fabrication => terr.face_down && terr.owner != actor,
                _ => false,
            };
            if !enemy_trap {
                return Err(Reject::TileOccupied);
            }
            if engage.is_some() {
                return Err(Reject::TargetNotInReach);
            }
            return Ok(None);
        },
        None => {},
    }
    match engage {
        Some(target) => {
            if sp.no_engage_until >= st.round {
                return Err(Reject::EngageRestricted);
            }
            let reach = targeting_reach(st, canon, catalog, card(catalog, sp.card).reach, to, actor, st.board_w);
            if !crate::evolve::contains_tile(&reach, target) {
                return Err(Reject::TargetNotInReach);
            }
            match st.spirit_at(target) {
                Some(e) => {
                    if !(e.owner != actor && !e.fading) {
                        return Err(Reject::TargetNotEnemy);
                    }
                },
                None => return Err(Reject::TileEmpty),
            }
        },
        None => {},
    }
    let mut v: Vec<Event> = Vec::new();
    v.push(Event::SpiritMoved { from, to });
    let fades = st.contracted && is_rim_w(from, st.board_w) && !st.board[from as usize].faded;
    if fades {
        v.push(Event::TileFaded { tile: from });
    }
    proof {
        let ghost tail = if fades { seq![Event::TileFaded { tile: from }] } else { Seq::<Event>::empty() };
        assert(v@ =~= seq![Event::SpiritMoved { from, to }] + tail);
    }
    Ok(Some(v))
}

// ---------------------------------------------------------------------------
// Striking a hidden Fabrication
// ---------------------------------------------------------------------------

/// Striking the enemy trap on `tile` from the spirit on `from`: no choice pending, both
/// tiles on the board, a standing face-up spirit of the actor's on `from`, `tile` in its
/// targeting reach, and an enemy face-down Fabrication there. The striker stays put and
/// the trap is then sprung with it as the engager.
pub open spec fn spec_strike_fabrication(st: GameState, canon: Canon, catalog: Seq<CardDef>, actor: Seat, from: u8, tile: u8) -> Result<(), Reject> {
    if st.pending_choice is Some {
        Err(Reject::ChoicePending)
    } else if from as int >= st.board@.len() || tile as int >= st.board@.len() {
        Err(Reject::BadTile)
    } else {
        match st.spec_spirit_at(from) {
            None => Err(Reject::TileEmpty),
            Some(sp) => if !(sp.owner == actor && !sp.fading && !sp.face_down) {
                Err(Reject::NotYourSpirit)
            } else if !spec_targeting_reach(st, canon, catalog, spec_card(catalog, sp.card).reach, from, actor, st.board_w).contains(tile) {
                Err(Reject::TargetNotInReach)
            } else if st.board@[tile as int].terrain matches Some(terr) && terr.kind is Fabrication && terr.face_down && terr.owner != actor {
                Ok(())
            } else {
                Err(Reject::BadTile)
            },
        }
    }
}

/// Whether the spirit on `from` may strike the enemy trap on `tile` (see
/// `spec_strike_fabrication`); springing the trap is not in this crate.
pub fn decide_strike_fabrication(st: &GameState, canon: &Canon, catalog: &[CardDef], actor: Seat, from: u8, tile: u8) -> (r: Result<(), Reject>)
    requires
        projectable(*st, catalog@),
    ensures
        r == spec_strike_fabrication(*st, *canon, catalog@, actor, from, tile),
{
    proof {
        lemma_wf_small(*st);
    }
    if st.pending_choice.is_some() {
        return Err(Reject::ChoicePending);
    }
    if from as usize >= st.board.len() || tile as usize >= st.board.len() {
        return Err(Reject::BadTile);
    }
    let sp = match st.spirit_at(from) {
        Some(sp) => sp,
        None => return Err(Reject::TileEmpty),
    };
    if !(sp.owner == actor && !sp.fading && !sp.face_down) {
        return Err(Reject::NotYourSpirit);
    }
    proof {
        assert(st.board@[from as int].spirit == Some(*sp));
    }
    let reach = targeting_reach(st, canon, catalog, card(catalog, sp.card).reach, from, actor, st.board_w);
    if !crate::evolve::contains_tile(&reach, tile) {
        return Err(Reject::TargetNotInReach);
    }
    match &st.board[tile as usize].terrain {
        Some(terr) => {
            let trap = match terr.kind {
                TerrainKind::Fabrication => terr.face_down && terr.owner != actor,
                _ => false,
            };
            if trap { Ok(()) } else { Err(Reject::BadTile) }
        },
        None => Err(Reject::BadTile),
    }
}

// ---------------------------------------------------------------------------
// Reclaiming
// ---------------------------------------------------------------------------

/// Reclaiming the spirit on `tile`: no choice pending, a tile on the board holding a
/// standing spirit of the actor's. Its Parting then fires (not in this crate), and
/// `reclaim_events` finishes the command.
pub open spec fn spec_reclaim(st: GameState, actor: Seat, tile: u8) -> Result<(), Reject> {
    if st.pending_choice is Some {
        Err(Reject::ChoicePending)
    } else if tile as int >= st.board@.len() {
        Err(Reject::BadTile)
    } else {
        match st.spec_spirit_at(tile) {
            None => Err(Reject::TileEmpty),
            Some(sp) => if sp.owner == actor && !sp.fading { Ok(()) } else { Err(Reject::NotYourSpirit) },
        }
    }
}

/// Whether the actor may reclaim the spirit on `tile` (see `spec_reclaim`).
pub fn decide_reclaim(st: &GameState, actor: Seat, tile: u8) -> (r: Result<(), Reject>)
    ensures
        r == spec_reclaim(*st, actor, tile),
{
    if st.pending_choice.is_some() {
        return Err(Reject::ChoicePending);
    }
    if tile as usize >= st.board.len() {
        return Err(Reject::BadTile);
    }
    match st.spirit_at(tile) {
        Some(sp) => if sp.owner == actor && !sp.fading { Ok(()) } else { Err(Reject::NotYourSpirit) },
        None => Err(Reject::TileEmpty),
    }
}

/// Some Parting spec of `specs` carries an `Exception(which)` clause.
pub open spec fn spec_parting_has(specs: Seq<EffectSpec>, which: RuleException) -> bool {
    exists|i: int, j: int| 0 <= i < specs.len() && specs[i].trigger is Parting
        && 0 <= j < specs[i].clauses@.len() && #[trigger] clause_passes(ClauseTest::AnyException(which), specs[i].clauses@[j])
}

fn parting_has(specs: &[EffectSpec], which: RuleException) -> (r: bool)
    ensures
        r == spec_parting_has(specs@, which),
{
    let t = ClauseTest::AnyException(which);
    let n = specs.len();
    for i in 0..n
        invariant
            n == specs@.len(),
            t == ClauseTest::AnyException(which),
            forall|a: int, b: int| 0 <= a < i && specs@[a].trigger is Parting && 0 <= b < specs@[a].clauses@.len()
                ==> !#[trigger] clause_passes(t, specs@[a].clauses@[b]),
    {
        let s = &specs[i];
        if matches!(s.trigger, Trigger::Parting) {
            let m = s.clauses.len();
            for j in 0..m
                invariant
                    n == specs@.len(),
                    i < n,
                    *s == specs@[i as int],
                    s.trigger is Parting,
                    m == s.clauses@.len(),
                    t == ClauseTest::AnyException(which),
                    forall|b: int| 0 <= b < j ==> !#[trigger] clause_passes(t, s.clauses@[b]),
            {
                if clause_passes_test(t, &s.clauses[j]) {
                    return true;
                }
            }
        }
    }
    false
}

/// What a reclaim regains: half the card's cost, rounded down (all of it when its Parting
/// says so), one more while a Fade-reclaim exception is active for the actor on `sim`.
pub open spec fn reclaim_amount(sim: GameState, canon: Canon, catalog: Seq<CardDef>, actor: Seat, card: CardId) -> int {
    let def = spec_card(catalog, card);
    let full = match spec_specs_for(canon, catalog, card) {
        Some(specs) => spec_parting_has(specs, RuleException::PartingReclaimsFullCost),
        None => false,
    };
    (if full { def.cost as int } else { (def.cost / 2) as int })
        + if spec_exception_active(sim, canon, catalog, actor, RuleException::FadeReclaimsExtraAnima) { 1int } else { 0int }
}

/// The rest of a reclaim of the spirit of `card` on `tile`, once its Parting has fired on
/// `sim`: the spirit leaves, and the actor regains `reclaim_amount` Anima if any.
pub open spec fn spec_reclaim_events(sim: GameState, canon: Canon, catalog: Seq<CardDef>, actor: Seat, tile: u8, card: CardId) -> Seq<Event> {
    let amount = reclaim_amount(sim, canon, catalog, actor, card);
    seq![Event::SpiritReclaimed { tile }] + if amount > 0 {
        seq![Event::AnimaGained { seat: actor, amount: amount as u8, reason: AnimaReason::Effect }]
    } else {
        Seq::empty()
    }
}

/// Finish a reclaim (see `spec_reclaim_events`).
pub fn reclaim_events(sim: &GameState, canon: &Canon, catalog: &[CardDef], actor: Seat, tile: u8, card_id: CardId) -> (r: Vec<Event>)
    requires
        sim.wf(),
        catalog_has(catalog@, card_id),
        spec_card(catalog@, card_id).cost < 255,
    ensures
        r@ == spec_reclaim_events(*sim, *canon, catalog@, actor, tile, card_id),
{
    let def = card(catalog, card_id);
    let full = match specs_for(canon, catalog, card_id) {
        Some(specs) => parting_has(specs, RuleException::PartingReclaimsFullCost),
        None => false,
    };
    let mut amount: u8 = if full { def.cost } else { def.cost / 2 };
    if exception_active(sim, canon, catalog, actor, RuleException::FadeReclaimsExtraAnima) {
        amount = amount + 1;
    }
    let mut v: Vec<Event> = Vec::new();
    v.push(Event::SpiritReclaimed { tile });
    if amount > 0 {
        v.push(Event::AnimaGained { seat: actor, amount, reason: AnimaReason::Effect });
    }
    proof {
        let tail = if amount > 0 {
            seq![Event::AnimaGained { seat: actor, amount, reason: AnimaReason::Effect }]
        } else {
            Seq::<Event>::empty()
        };
        assert(v@ =~= seq![Event::SpiritReclaimed { tile }] + tail);
    }
    v
}

} // verus!
