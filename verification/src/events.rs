//! Match events and what each one does to the state: every event is a self-sufficient
//! fact (a spirit moved, a card drawn, a restriction laid), and applying it changes
//! exactly the part of the state it names. The application itself is in `evolve`.
use vstd::prelude::*;

use crate::effects::{Keyword, Restriction};
use crate::state::{
    Bond, GameState, MatchResult, Phase, PlayerState, Spirit, Stray, StrayTelegraph, Temperament, TempMod, TempReach,
    TempRestrict, Terrain, TerrainKind, TileState,
};
use crate::targets::spec_fade_deadline_round;
use crate::types::{CardId, Faction, Reach, Seat, SeatSlot};

verus! {

/// Why Anima was gained.
#[derive(Debug, Clone, Copy, PartialEq, Eq, Structural)]
pub enum AnimaReason {
    Income,
    Glimpse,
    Effect,
}

/// How a blow was struck.
#[derive(Debug, Clone, Copy, PartialEq, Eq, Structural)]
pub enum StrikeKind {
    Engage,
    Interception,
    Retaliation,
    /// A Momentum chain link, counted from 1.
    Chain(u8),
}

/// A match event.
#[derive(Debug, Clone)]
pub enum Event {
    MatchStarted,
    AnimaGained { seat: Seat, amount: u8, reason: AnimaReason },
    AnimaSpent { seat: Seat, amount: u8 },
    CardDrawn { seat: Seat },
    /// Over the hand cap: the seat must release a card.
    ReleaseRequired { seat: Seat },
    /// A hand card goes to the bottom of the deck.
    CardReleased { seat: Seat, hand_index: u8 },
    /// Glimpse opened: the once-per-turn flag is spent.
    Glimpsed { seat: Seat, peeked: Option<CardId> },
    SpiritPlayed { seat: Seat, card: CardId, tile: u8, attack: i16, defense: i16, hp: i16, face_down: bool },
    /// The spirit takes printed numbers (full Form).
    SpiritCopiedStats { tile: u8, attack: i16, defense: i16, hp_max: i16 },
    /// The spirit copies a Reach.
    ReachCopied { tile: u8, reach: Reach },
    /// A blow lands; an interceptor spends its interception for the round.
    Struck { from_tile: u8, to_tile: u8, damage: i16, echo: bool, kind: StrikeKind },
    /// A spirit is shoved from one tile to another.
    SpiritPushed { from: u8, to: u8 },
    RitualCast { seat: Seat, card: CardId },
    BondAttached { seat: Seat, card: CardId, tile_a: u8, tile_b: u8 },
    /// Every Bond of this card breaks.
    BondBroken { card: CardId },
    LandmarkPlaced { seat: Seat, card: CardId, tile: u8 },
    FabricationSet { seat: Seat, card: CardId, tile: u8 },
    /// A face-down Fabrication is revealed.
    FabricationRevealed { tile: u8 },
    /// A Fabrication is spent.
    FabricationSpent { tile: u8 },
    /// The Solace's Unwritten arrives (a token of seat B).
    UnwrittenManifested { card: CardId, tile: u8, attack: i16, defense: i16, hp: i16 },
    /// The tile's impressions are unwritten: nothing remains.
    ImpressionUnwritten { tile: u8 },
    /// A memory forgotten: the tile is emptied and the erasure tally rises.
    ImpressionForgotten { tile: u8 },
    /// Released: the spirit leaves, leaving nothing.
    SpiritReleased { tile: u8 },
    /// Un-played: back to its owner's hand (a token just ceases).
    SpiritBounced { tile: u8 },
    /// An Unwritten shifts; an eater clears the impressions where it lands.
    UnwrittenShifted { from: u8, to: u8, eats_impression: bool },
    UnwritingTold { seat: Seat, card: CardId },
    /// The top of the deck is unwritten.
    DeckMilled { seat: Seat },
    ImpressionsStoppedScoring { round: u8 },
    /// A Landmark loses its text for a round.
    LandmarkSilenced { tile: u8, round: u8 },
    TilesGoneCalm { tiles: Vec<u8>, round: u8 },
    StrayTelegraphed { tile: u8, surface_round: u8, midnight: bool },
    StrayTelegraphCleared,
    StraySurfaced { card: CardId, tile: u8, temperament: Temperament, veiled: bool, hp: i16 },
    StrayStruck { tile: u8, damage: i16, hp: i16 },
    StrayUnveiled,
    StrayCourted { seat: Seat, courtship: u8 },
    /// The Stray becomes an owned spirit.
    StrayBefriended { seat: Seat, card: CardId, tile: u8, attack: i16, defense: i16, hp: i16 },
    StrayBanished { tile: u8, impression: Seat },
    StrayDenied { tile: u8 },
    OverwroteStray {
        seat: Seat,
        card: CardId,
        tile: u8,
        success: bool,
        damage_to_stray: i16,
        attack: i16,
        defense: i16,
        attacker_hp_left: i16,
        attacker_hp_max: i16,
    },
    SpiritEvolved { seat: Seat, tile: u8, from: CardId, to: CardId, attack: i16, defense: i16, hp: i16, keeps_throughline: bool },
    SpiritDevolved { seat: Seat, tile: u8, from: CardId, to: CardId, attack: i16, defense: i16, hp: i16 },
    /// A token arrives.
    SpiritManifested { seat: Seat, card: CardId, tile: u8, attack: i16, defense: i16, hp: i16 },
    /// A token dissolves, no impression.
    TokenDissolved { tile: u8 },
    /// A face-down spirit is revealed.
    SpiritRevealed { tile: u8 },
    /// Hold or release orders.
    OrdersSet { tile: u8, hold: bool },
    /// A this-round stat modifier on a tile.
    EffectTempStat { tile: u8, attack: i16, defense: i16, until_round: u8 },
    /// A reach buff.
    ReachBuffed { seat: Seat, forward: i8, all_directions: bool, until_round: u8, targeting_only: bool, tile: Option<u8> },
    /// A seat-wide restriction.
    Restricted { seat: Seat, restriction: Restriction, until_round: u8 },
    /// A this-round retaliation shift.
    RetaliationBuffed { tile: u8, delta: i16, until_round: u8 },
    /// A replacement saves the spirit at `form` HP, spending its latch.
    ReplacementSurvived { tile: u8, form: i16 },
    /// A heal: HP rises, never past the maximum (a fading spirit stays fading).
    EffectRestored { tile: u8, amount: i16 },
    /// Damage from an effect.
    EffectDamaged { tile: u8, amount: i16 },
    /// Damage moved to a Bond partner (spending the saved spirit's latch when `consume`).
    DamageRedirected { from_tile: u8, to_tile: u8, amount: i16, consume: bool },
    /// A played-card keyword grant through a round.
    KeywordGranted { tile: u8, keyword: Keyword, until_round: u8 },
    /// Two spirits trade tiles (terrain, impressions and fading stay with the tiles).
    SpiritsSwapped { a: u8, b: u8 },
    /// No engaging or intercepting through a round.
    EngageRestricted { tile: u8, until_round: u8 },
    /// The tile's next Fade is put off once.
    FadeDelayed { tile: u8 },
    FadeDelayConsumed { tile: u8 },
    FlowAnimaScheduled { seat: Seat, amount: u8 },
    FlowAnimaPaid { seat: Seat },
    /// This turn's evolutions ignore the shared-Imprint rule.
    EvolveImprintFreed { seat: Seat },
    /// Reclaimed: the spirit leaves, no impression.
    SpiritReclaimed { tile: u8 },
    NextArrivalBuffed { seat: Seat, attack: i16 },
    NextArrivalConsumed { seat: Seat },
    NextArrivalSecondEngage { seat: Seat, penalty: i16 },
    NextArrivalSecondConsumed { seat: Seat },
    FabricationPeeked { seat: Seat, tile: u8, card: CardId },
    RitualExtraTargetsArmed { count: u8 },
    RitualExtraTargetsConsumed,
    /// The Throughline reward: the buff, a full restore, once.
    ThroughlineCompleted { tile: u8, attack: i16, defense: i16 },
    /// A lasting stat change (Form raises both HP and its maximum).
    EffectStat { tile: u8, attack: i16, defense: i16, form: i16 },
    /// A spirit starts to fade; a combat banish stamps the window's deadline.
    SpiritBecameFading { tile: u8, banished_by: Option<Seat> },
    Overwrote {
        seat: Seat,
        card: CardId,
        tile: u8,
        success: bool,
        damage_to_defender: i16,
        defender_echo: bool,
        attack: i16,
        defense: i16,
        attacker_hp_left: i16,
        attacker_hp_max: i16,
    },
    /// A spirit spends its Move.
    SpiritMoved { from: u8, to: u8 },
    /// A spirit fully dissolves, leaving `impression`'s mark.
    SpiritDissolved { tile: u8, impression: Seat },
    /// Control passes to another seat.
    ControlTaken { tile: u8, new_owner: Seat },
    /// Printed traits stripped for good.
    TraitsStripped { tile: u8 },
    /// Printed traits stripped through a round.
    TraitsStrippedUntil { tile: u8, until_round: u8 },
    RitualDiscountGranted { seat: Seat, amount: u8 },
    RitualDiscountConsumed { seat: Seat },
    /// A card surcharge through a round.
    CardTaxed { seat: Seat, amount: u8, until_round: u8 },
    /// The surcharge is spent.
    CardTaxSpent { seat: Seat },
    TurnEnded { seat: Seat },
    RoundAdvanced { round: u8 },
    /// The tile fades.
    TileFaded { tile: u8 },
    /// The Dusk: the listed rim tiles fade, and whatever stood on them goes.
    MemoryContracted { faded_tiles: Vec<u8> },
    MatchEnded { result: MatchResult, score_a: u8, score_b: u8 },
    /// Absence forfeit: the present player wins.
    MatchAbandoned { seat: Seat, score_a: u8, score_b: u8 },
    /// The seat's recomputed hand and deck.
    Mulliganed { seat: Seat, hand: Vec<CardId>, deck: Vec<CardId> },
}

// ---------------------------------------------------------------------------
// Arithmetic and per-seat pairs
// ---------------------------------------------------------------------------

pub open spec fn fits16(x: int) -> bool {
    i16::MIN <= x <= i16::MAX
}

pub open spec fn sat_add(a: u8, b: u8) -> u8 {
    if a + b > u8::MAX { u8::MAX } else { (a + b) as u8 }
}

pub open spec fn sat_sub(a: u8, b: u8) -> u8 {
    if a >= b { (a - b) as u8 } else { 0 }
}

/// Seat `seat`'s entry of a per-seat pair.
pub open spec fn seat_get<T>(a: [T; 2], seat: Seat) -> T {
    match seat {
        Seat::A => a[0],
        Seat::B => a[1],
    }
}

/// A per-seat pair with seat `seat`'s entry set.
pub open spec fn seat_set<T>(a: [T; 2], seat: Seat, v: T) -> [T; 2] {
    match seat {
        Seat::A => [v, a[1]],
        Seat::B => [a[0], v],
    }
}

// ---------------------------------------------------------------------------
// Players
// ---------------------------------------------------------------------------

/// A seat's first player slot.
pub open spec fn first_slot(seat: Seat) -> SeatSlot {
    match seat {
        Seat::A => SeatSlot::A1,
        Seat::B => SeatSlot::B1,
    }
}

/// The slot a resource event of `seat` lands on: the active slot in a 2v2 match when it
/// plays for `seat`, else the seat's first player.
pub open spec fn slot_for(st: GameState, seat: Seat) -> SeatSlot {
    if st.spec_is_2v2() && st.active_slot.spec_team() == seat {
        st.active_slot
    } else {
        first_slot(seat)
    }
}

/// The player in a slot, if the match seats one there.
pub open spec fn slot_player(st: GameState, s: SeatSlot) -> Option<PlayerState> {
    match s {
        SeatSlot::A1 => Some(st.player_a),
        SeatSlot::B1 => Some(st.player_b),
        SeatSlot::A2 => st.player_a2,
        SeatSlot::B2 => st.player_b2,
    }
}

/// The state with the slot's player replaced.
pub open spec fn with_slot_player(st: GameState, s: SeatSlot, p: PlayerState) -> GameState {
    match s {
        SeatSlot::A1 => GameState { player_a: p, ..st },
        SeatSlot::B1 => GameState { player_b: p, ..st },
        SeatSlot::A2 => GameState { player_a2: Some(p), ..st },
        SeatSlot::B2 => GameState { player_b2: Some(p), ..st },
    }
}

/// One change to a player's cards and Anima.
#[derive(Debug, Clone, Copy)]
pub enum PlayerOp {
    /// Anima rises, saturating.
    Gain(u8),
    /// Anima falls, never below zero.
    Spend(u8),
    /// The top of the deck goes to the hand (if any); the peek no longer holds.
    Draw,
    /// The hand card at the index goes to the bottom of the deck (if there is one).
    Release(u8),
    /// The once-per-turn Glimpse is spent.
    Glimpse,
    /// The first copy of the card leaves the hand.
    Play(CardId),
    /// The top of the deck is lost.
    Mill,
    /// The card returns to the hand.
    TakeBack(CardId),
    /// The turn's Glimpse flag resets.
    TurnOver,
}

/// The index of the first `c` in `h` at or after `k`, or -1.
pub open spec fn first_at<T>(h: Seq<T>, c: T, k: int) -> int
    decreases h.len() - k,
{
    if k < 0 || k >= h.len() {
        -1
    } else if h[k] == c {
        k
    } else {
        first_at(h, c, k + 1)
    }
}

/// The hand after its first copy of `c` leaves it.
pub open spec fn played(h: Seq<CardId>, c: CardId) -> Seq<CardId> {
    let i = first_at(h, c, 0);
    if 0 <= i { h.remove(i) } else { h }
}

/// `q` holds exactly these cards, Anima and flags.
pub open spec fn player_is(
    q: PlayerState,
    hand: Seq<CardId>,
    deck: Seq<CardId>,
    anima: u8,
    glimpsed: bool,
    peeked_top: Option<CardId>,
    first_placement_done: bool,
) -> bool {
    &&& q.hand@ == hand
    &&& q.deck@ == deck
    &&& q.anima == anima
    &&& q.glimpsed_this_turn == glimpsed
    &&& q.peeked_top == peeked_top
    &&& q.first_placement_done == first_placement_done
}

/// `q` is `p` after `op`.
pub open spec fn player_step(op: PlayerOp, p: PlayerState, q: PlayerState) -> bool {
    let (h, d) = (p.hand@, p.deck@);
    match op {
        PlayerOp::Gain(a) => player_is(q, h, d, sat_add(p.anima, a), p.glimpsed_this_turn, p.peeked_top, p.first_placement_done),
        PlayerOp::Spend(a) => player_is(q, h, d, sat_sub(p.anima, a), p.glimpsed_this_turn, p.peeked_top, p.first_placement_done),
        PlayerOp::Draw => if d.len() > 0 {
            player_is(q, h.push(d[0]), d.remove(0), p.anima, p.glimpsed_this_turn, None, p.first_placement_done)
        } else {
            player_is(q, h, d, p.anima, p.glimpsed_this_turn, None, p.first_placement_done)
        },
        PlayerOp::Release(i) => if (i as int) < h.len() {
            player_is(q, h.remove(i as int), d.push(h[i as int]), p.anima, p.glimpsed_this_turn, p.peeked_top, p.first_placement_done)
        } else {
            player_is(q, h, d, p.anima, p.glimpsed_this_turn, p.peeked_top, p.first_placement_done)
        },
        PlayerOp::Glimpse => player_is(q, h, d, p.anima, true, p.peeked_top, p.first_placement_done),
        PlayerOp::Play(c) => player_is(q, played(h, c), d, p.anima, p.glimpsed_this_turn, p.peeked_top, p.first_placement_done),
        PlayerOp::Mill => if d.len() > 0 {
            player_is(q, h, d.remove(0), p.anima, p.glimpsed_this_turn, p.peeked_top, p.first_placement_done)
        } else {
            player_is(q, h, d, p.anima, p.glimpsed_this_turn, p.peeked_top, p.first_placement_done)
        },
        PlayerOp::TakeBack(c) => player_is(q, h.push(c), d, p.anima, p.glimpsed_this_turn, p.peeked_top, p.first_placement_done),
        PlayerOp::TurnOver => player_is(q, h, d, p.anima, false, p.peeked_top, p.first_placement_done),
    }
}

/// `new` is `old` with the slot's player changed by `op` and nothing else.
pub open spec fn slot_step(old: GameState, new: GameState, s: SeatSlot, op: PlayerOp) -> bool {
    &&& slot_player(old, s) is Some
    &&& slot_player(new, s) is Some
    &&& player_step(op, slot_player(old, s)->Some_0, slot_player(new, s)->Some_0)
    &&& new == with_slot_player(old, s, slot_player(new, s)->Some_0)
}

/// Seat A's first player has placed.
pub open spec fn mark_first_placement(st: GameState, seat: Seat) -> GameState {
    if seat == Seat::A {
        GameState { player_a: PlayerState { first_placement_done: true, ..st.player_a }, ..st }
    } else {
        st
    }
}

// ---------------------------------------------------------------------------
// The board
// ---------------------------------------------------------------------------

pub open spec fn on_board(st: GameState, t: u8) -> bool {
    (t as int) < st.board@.len()
}

/// The tile with its spirit slot set.
pub open spec fn with_spirit(t: TileState, s: Option<Spirit>) -> TileState {
    TileState { spirit: s, ..t }
}

/// The board with tile `i`'s spirit slot set.
pub open spec fn set_spirit(b: Seq<TileState>, i: u8, s: Option<Spirit>) -> Seq<TileState> {
    b.update(i as int, with_spirit(b[i as int], s))
}

/// The board after the spirit on `from` goes to `to`.
pub open spec fn moved(b: Seq<TileState>, from: u8, to: u8) -> Seq<TileState> {
    let s = b[from as int].spirit;
    let b1 = set_spirit(b, from, None);
    set_spirit(b1, to, s)
}

/// The board after the spirits on `a` and `b` trade tiles.
pub open spec fn swapped(bd: Seq<TileState>, a: u8, b: u8) -> Seq<TileState> {
    let sa = bd[a as int].spirit;
    let b1 = set_spirit(bd, a, None);
    let sb = b1[b as int].spirit;
    let b2 = set_spirit(b1, b, None);
    let b3 = set_spirit(b2, a, sb);
    set_spirit(b3, b, sa)
}

/// A newly arrived spirit: exactly these numbers and marks, no orders, grants or riders.
pub open spec fn is_fresh_spirit(
    sp: Spirit,
    card: CardId,
    owner: Seat,
    attack: i16,
    defense: i16,
    hp: i16,
    hp_max: i16,
    face_down: bool,
    is_token: bool,
    placed_by: Option<SeatSlot>,
    fade: Option<(Seat, u8)>,
) -> bool {
    &&& sp.card == card && sp.owner == owner
    &&& sp.attack == attack && sp.defense == defense && sp.hp == hp && sp.hp_max == hp_max
    &&& sp.face_down == face_down && sp.is_token == is_token && sp.placed_by == placed_by
    &&& !sp.replacement_used && !sp.holding && !sp.intercepted_this_round
    &&& !sp.traits_stripped && sp.traits_stripped_until is None
    &&& sp.kw_grants@.len() == 0 && sp.no_engage_until == 0
    &&& !sp.throughline_done && sp.copied_reach is None
    &&& match fade {
        None => !sp.fading && sp.banished_by is None && sp.fade_deadline is None,
        Some((by, deadline)) => sp.fading && sp.banished_by == Some(by) && sp.fade_deadline == Some(deadline),
    }
}

/// `nb` is `b` with a fresh spirit standing on `tile` (see `is_fresh_spirit`).
pub open spec fn arrives(
    b: Seq<TileState>,
    nb: Seq<TileState>,
    tile: u8,
    card: CardId,
    owner: Seat,
    attack: i16,
    defense: i16,
    hp: i16,
    hp_max: i16,
    face_down: bool,
    is_token: bool,
    placed_by: Option<SeatSlot>,
    fade: Option<(Seat, u8)>,
) -> bool {
    &&& nb[tile as int].spirit matches Some(sp)
        && is_fresh_spirit(sp, card, owner, attack, defense, hp, hp_max, face_down, is_token, placed_by, fade)
    &&& nb == set_spirit(b, tile, nb[tile as int].spirit)
}

/// The fade an overwriter carries in: one spent in the exchange stands Faded, banished by
/// the other seat, to its owner's next turn-end.
pub open spec fn overwriter_fade(st: GameState, seat: Seat, hp_left: i16) -> Option<(Seat, u8)> {
    if hp_left <= 0 {
        Some((seat.spec_other(), spec_fade_deadline_round(st.round, st.active, seat) as u8))
    } else {
        None
    }
}

/// What a per-spirit event makes of the spirit it touches (`round` and `active` stamp a
/// combat fade's deadline).
pub open spec fn spirit_after(ev: Event, sp: Spirit, round: u8, active: Seat) -> Spirit {
    match ev {
        Event::SpiritRevealed { .. } => Spirit { face_down: false, ..sp },
        Event::OrdersSet { hold, .. } => Spirit { holding: hold, ..sp },
        Event::SpiritCopiedStats { attack, defense, hp_max, .. } => Spirit { attack, defense, hp_max, hp: hp_max, ..sp },
        Event::ReachCopied { reach, .. } => Spirit { copied_reach: Some(reach), ..sp },
        Event::ReplacementSurvived { form, .. } => Spirit { hp: form, replacement_used: true, ..sp },
        Event::EffectRestored { amount, .. } => Spirit {
            hp: if sp.hp + amount <= sp.hp_max { (sp.hp + amount) as i16 } else { sp.hp_max },
            ..sp
        },
        Event::EffectDamaged { amount, .. } => Spirit { hp: (sp.hp - amount) as i16, ..sp },
        Event::EngageRestricted { until_round, .. } => Spirit { no_engage_until: until_round, ..sp },
        Event::ThroughlineCompleted { attack, defense, .. } => Spirit {
            attack: (sp.attack + attack) as i16,
            defense: (sp.defense + defense) as i16,
            hp: sp.hp_max,
            throughline_done: true,
            ..sp
        },
        Event::EffectStat { attack, defense, form, .. } => Spirit {
            attack: (sp.attack + attack) as i16,
            defense: (sp.defense + defense) as i16,
            hp_max: (sp.hp_max + form) as i16,
            hp: (sp.hp + form) as i16,
            ..sp
        },
        Event::ControlTaken { new_owner, .. } => Spirit { owner: new_owner, placed_by: None, ..sp },
        Event::TraitsStripped { .. } => Spirit { traits_stripped: true, ..sp },
        Event::TraitsStrippedUntil { until_round, .. } => Spirit { traits_stripped_until: Some(until_round), ..sp },
        Event::SpiritBecameFading { banished_by, .. } => Spirit {
            fading: true,
            banished_by,
            fade_deadline: match banished_by {
                Some(_) => Some(spec_fade_deadline_round(round, active, sp.owner) as u8),
                None => None,
            },
            throughline_done: false,
            ..sp
        },
        Event::SpiritEvolved { to, attack, defense, hp, keeps_throughline, .. } => Spirit {
            card: to,
            attack,
            defense,
            hp,
            hp_max: hp,
            fading: false,
            banished_by: None,
            fade_deadline: None,
            throughline_done: if keeps_throughline { sp.throughline_done } else { false },
            ..sp
        },
        Event::SpiritDevolved { to, attack, defense, hp, .. } => Spirit {
            card: to,
            attack,
            defense,
            hp,
            hp_max: hp,
            fading: false,
            banished_by: None,
            fade_deadline: None,
            throughline_done: false,
            ..sp
        },
        _ => sp,
    }
}

/// The spirit-editing events and the tile each edits.
pub open spec fn edit_tile(ev: Event) -> Option<u8> {
    match ev {
        Event::SpiritRevealed { tile } | Event::OrdersSet { tile, .. } | Event::SpiritCopiedStats { tile, .. }
        | Event::ReachCopied { tile, .. } | Event::ReplacementSurvived { tile, .. } | Event::EffectRestored { tile, .. }
        | Event::EffectDamaged { tile, .. } | Event::EngageRestricted { tile, .. } | Event::ThroughlineCompleted { tile, .. }
        | Event::EffectStat { tile, .. } | Event::ControlTaken { tile, .. } | Event::TraitsStripped { tile }
        | Event::TraitsStrippedUntil { tile, .. } | Event::SpiritBecameFading { tile, .. } => Some(tile),
        _ => None,
    }
}

/// The spirit's numbers stay in `i16` under the event.
pub open spec fn spirit_edit_fits(ev: Event, sp: Spirit) -> bool {
    match ev {
        Event::EffectRestored { amount, .. } => fits16(sp.hp + amount),
        Event::EffectDamaged { amount, .. } => fits16(sp.hp - amount),
        Event::ThroughlineCompleted { attack, defense, .. } => fits16(sp.attack + attack) && fits16(sp.defense + defense),
        Event::EffectStat { attack, defense, form, .. } => fits16(sp.attack + attack) && fits16(sp.defense + defense)
            && fits16(sp.hp_max + form) && fits16(sp.hp + form),
        _ => true,
    }
}

/// The board after a per-spirit event on `tile` (nothing happens on an empty tile).
pub open spec fn edited(b: Seq<TileState>, tile: u8, ev: Event, round: u8, active: Seat) -> Seq<TileState> {
    match b[tile as int].spirit {
        Some(sp) => set_spirit(b, tile, Some(spirit_after(ev, sp, round, active))),
        None => b,
    }
}

/// The board after tile `t`'s spirit, if any, loses `amount` HP.
pub open spec fn hurt(b: Seq<TileState>, t: u8, amount: i16) -> Seq<TileState> {
    match b[t as int].spirit {
        Some(sp) => set_spirit(b, t, Some(Spirit { hp: (sp.hp - amount) as i16, ..sp })),
        None => b,
    }
}

/// The board after tile `t`'s spirit, if any, spends its replacement latch.
pub open spec fn latched(b: Seq<TileState>, t: u8) -> Seq<TileState> {
    match b[t as int].spirit {
        Some(sp) => set_spirit(b, t, Some(Spirit { replacement_used: true, ..sp })),
        None => b,
    }
}

/// The board after tile `t`'s spirit, if any, spends its interception for the round.
pub open spec fn intercepted(b: Seq<TileState>, t: u8) -> Seq<TileState> {
    match b[t as int].spirit {
        Some(sp) => set_spirit(b, t, Some(Spirit { intercepted_this_round: true, ..sp })),
        None => b,
    }
}

/// `spirit`'s HP stays in `i16` after losing `amount`.
pub open spec fn hurt_fits(b: Seq<TileState>, t: u8, amount: i16) -> bool {
    b[t as int].spirit matches Some(sp) ==> fits16(sp.hp - amount)
}

/// The tile with its impressions replaced: `Some(seat)` marks it for that seat alone,
/// `None` leaves it bare.
pub open spec fn impressions_are(t: TileState, u: TileState, mark: Option<Seat>) -> bool {
    &&& u == TileState { impressions: u.impressions, ..t }
    &&& match mark {
        Some(s) => u.impressions@ == seq![s],
        None => u.impressions@.len() == 0,
    }
}

/// The banisher's mark: the Solace leaves none on the board and tallies the erasure
/// instead; any other faction marks the tile for itself alone.
pub open spec fn marked(old: GameState, new: GameState, tile: u8, by: Seat) -> bool {
    let solace = seat_get(old.rules.factions, by) == Faction::Solace;
    &&& new == GameState { board: new.board, solace_erasures: new.solace_erasures, ..old }
    &&& new.board@.len() == old.board@.len()
    &&& forall|j: int| 0 <= j < old.board@.len() && j != tile ==> #[trigger] new.board@[j] == old.board@[j]
    &&& impressions_are(old.board@[tile as int], new.board@[tile as int], if solace { None } else { Some(by) })
    &&& new.solace_erasures == if solace { sat_add(old.solace_erasures, 1) } else { old.solace_erasures }
}

/// `new` is `old` with the tile's impressions gone and nothing else changed.
pub open spec fn unwritten(old: GameState, new: GameState, tile: u8) -> bool {
    &&& new == GameState { board: new.board, ..old }
    &&& new.board@.len() == old.board@.len()
    &&& forall|j: int| 0 <= j < old.board@.len() && j != tile ==> #[trigger] new.board@[j] == old.board@[j]
    &&& impressions_are(old.board@[tile as int], new.board@[tile as int], None)
}

/// The Bonds of `bonds` not of `card`, in order.
pub open spec fn keep_bonds(bonds: Seq<Bond>, card: CardId) -> Seq<Bond>
    decreases bonds.len(),
{
    if bonds.len() == 0 {
        bonds
    } else {
        let prev = keep_bonds(bonds.drop_last(), card);
        if bonds.last().card != card { prev.push(bonds.last()) } else { prev }
    }
}

/// `new` is `old` with only the board changed, to `b`.
pub open spec fn board_becomes(old: GameState, new: GameState, b: Seq<TileState>) -> bool {
    new == GameState { board: new.board, ..old } && new.board@ == b
}

/// `new` is `old` with only the board and the turn's moved list changed: the board to `b`,
/// `tile` added to the moved list.
pub open spec fn board_and_moved(old: GameState, new: GameState, b: Seq<TileState>, tile: u8) -> bool {
    &&& new == GameState { board: new.board, moved_this_turn: new.moved_this_turn, ..old }
    &&& new.board@ == b
    &&& new.moved_this_turn@ == old.moved_this_turn@.push(tile)
}

// ---------------------------------------------------------------------------
// Dated lists
// ---------------------------------------------------------------------------

/// An entry that lapses after a round.
pub trait Dated {
    spec fn spec_until(&self) -> u8;

    fn until(&self) -> (r: u8)
        ensures
            r == self.spec_until(),
    ;
}

impl Dated for TempMod {
    open spec fn spec_until(&self) -> u8 {
        self.until_round
    }

    fn until(&self) -> (r: u8) {
        self.until_round
    }
}

impl Dated for TempReach {
    open spec fn spec_until(&self) -> u8 {
        self.until_round
    }

    fn until(&self) -> (r: u8) {
        self.until_round
    }
}

impl Dated for TempRestrict {
    open spec fn spec_until(&self) -> u8 {
        self.until_round
    }

    fn until(&self) -> (r: u8) {
        self.until_round
    }
}

impl Dated for (u8, i16, u8) {
    open spec fn spec_until(&self) -> u8 {
        self.2
    }

    fn until(&self) -> (r: u8) {
        self.2
    }
}

impl Dated for (Keyword, u8) {
    open spec fn spec_until(&self) -> u8 {
        self.1
    }

    fn until(&self) -> (r: u8) {
        self.1
    }
}

/// The entries of `s` still running in round `r`, in order.
pub open spec fn lasting<T: Dated>(s: Seq<T>, r: u8) -> Seq<T>
    decreases s.len(),
{
    if s.len() == 0 {
        s
    } else {
        let prev = lasting(s.drop_last(), r);
        if s.last().spec_until() >= r { prev.push(s.last()) } else { prev }
    }
}

/// The spirit at the turn of round `r`: its interception is back, lapsed grants and a
/// lapsed blanking are gone.
pub open spec fn spirit_at_round(sp: Spirit, ns: Spirit, r: u8) -> bool {
    &&& ns == Spirit {
        intercepted_this_round: false,
        kw_grants: ns.kw_grants,
        traits_stripped_until: match sp.traits_stripped_until {
            Some(u) => if u < r { None } else { Some(u) },
            None => None,
        },
        ..sp
    }
    &&& ns.kw_grants@ == lasting(sp.kw_grants@, r)
}

/// The tile at the turn of round `r`.
pub open spec fn tile_at_round(t: TileState, u: TileState, r: u8) -> bool {
    &&& u == TileState { spirit: u.spirit, ..t }
    &&& match t.spirit {
        None => u.spirit is None,
        Some(sp) => u.spirit matches Some(ns) && spirit_at_round(sp, ns, r),
    }
}

/// The surcharge pair at the turn of round `r`: a lapsed tax is cleared.
pub open spec fn tax_at_round(t: (u8, u8), r: u8) -> (u8, u8) {
    if t.1 < r { (0, 0) } else { t }
}

/// Tile `j` is one of `tiles`.
pub open spec fn lists_tile(tiles: Seq<u8>, j: int) -> bool {
    exists|k: int| 0 <= k < tiles.len() && tiles[k] as int == j
}

/// Every one of `tiles` is on the board.
pub open spec fn tiles_on_board(st: GameState, tiles: Seq<u8>) -> bool {
    forall|k: int| 0 <= k < tiles.len() ==> on_board(st, #[trigger] tiles[k])
}

/// The tile after the Dusk darkens it: faded, with no spirit and no terrain.
pub open spec fn darkened(t: TileState) -> TileState {
    TileState { faded: true, spirit: None, terrain: None, ..t }
}

// ---------------------------------------------------------------------------
// Well-formed events
// ---------------------------------------------------------------------------

/// The event can be applied to this state: its tiles are on the board, the players it
/// names are seated, and its arithmetic stays in range.
pub open spec fn event_ok(st: GameState, ev: Event) -> bool {
    let b = st.board@;
    match ev {
        Event::AnimaGained { seat, .. } | Event::AnimaSpent { seat, .. } | Event::CardDrawn { seat }
        | Event::CardReleased { seat, .. } | Event::Glimpsed { seat, .. } | Event::RitualCast { seat, .. }
        | Event::UnwritingTold { seat, .. } => slot_player(st, slot_for(st, seat)) is Some,
        Event::SpiritPlayed { seat, tile, .. } => slot_player(st, slot_for(st, seat)) is Some && on_board(st, tile),
        Event::BondAttached { seat, .. } => slot_player(st, slot_for(st, seat)) is Some,
        Event::LandmarkPlaced { seat, tile, .. } | Event::FabricationSet { seat, tile, .. } =>
            slot_player(st, slot_for(st, seat)) is Some && on_board(st, tile),
        Event::OverwroteStray { seat, tile, success, damage_to_stray, .. } =>
            slot_player(st, slot_for(st, seat)) is Some && on_board(st, tile)
                && (success ==> st.round < u8::MAX)
                && (!success ==> (st.stray matches Some(s) ==> fits16(s.hp - damage_to_stray))),
        Event::SpiritEvolved { seat, tile, .. } | Event::SpiritDevolved { seat, tile, .. } =>
            slot_player(st, slot_for(st, seat)) is Some && on_board(st, tile),
        Event::Overwrote { tile, success, damage_to_defender, .. } => on_board(st, tile)
            && (success ==> st.round < u8::MAX)
            && (!success ==> hurt_fits(b, tile, damage_to_defender)),
        Event::Struck { from_tile, to_tile, damage, .. } => on_board(st, from_tile) && on_board(st, to_tile)
            && hurt_fits(b, to_tile, damage),
        Event::DamageRedirected { from_tile, to_tile, amount, .. } => on_board(st, from_tile) && on_board(st, to_tile)
            && hurt_fits(b, to_tile, amount),
        Event::SpiritPushed { from, to } | Event::SpiritMoved { from, to } | Event::UnwrittenShifted { from, to, .. } =>
            on_board(st, from) && on_board(st, to),
        Event::SpiritsSwapped { a, b: t } => on_board(st, a) && on_board(st, t),
        Event::SpiritReleased { tile } | Event::SpiritReclaimed { tile } | Event::TokenDissolved { tile }
        | Event::FabricationRevealed { tile } | Event::FabricationSpent { tile } | Event::ImpressionUnwritten { tile }
        | Event::ImpressionForgotten { tile } | Event::TileFaded { tile } | Event::KeywordGranted { tile, .. }
        | Event::UnwrittenManifested { tile, .. } | Event::SpiritManifested { tile, .. } | Event::StrayBefriended { tile, .. }
        | Event::StrayBanished { tile, .. } => on_board(st, tile),
        Event::SpiritBounced { tile } => on_board(st, tile),
        Event::SpiritDissolved { tile, .. } => on_board(st, tile)
            && (b[tile as int].spirit matches Some(sp) ==> seat_get(st.dissolved_this_turn, sp.owner) < u8::MAX),
        Event::NextArrivalBuffed { seat, attack } => fits16(seat_get(st.next_arrival_atk, seat) + attack),
        Event::RitualDiscountGranted { seat, amount } => seat_get(st.next_ritual_discount, seat) + amount <= u8::MAX,
        Event::MemoryContracted { faded_tiles } => tiles_on_board(st, faded_tiles@),
        _ => match edit_tile(ev) {
            Some(tile) => on_board(st, tile) && (b[tile as int].spirit matches Some(sp) ==> spirit_edit_fits(ev, sp))
                && (ev is SpiritBecameFading ==> st.round < u8::MAX),
            None => true,
        },
    }
}

// ---------------------------------------------------------------------------
// What each event does
// ---------------------------------------------------------------------------

/// What a card-playing event does beyond the board: the card leaves the acting slot's
/// hand.
pub open spec fn card_played(old: GameState, mid: GameState, seat: Seat, card: CardId) -> bool {
    slot_step(old, mid, slot_for(old, seat), PlayerOp::Play(card))
}

/// A hand card goes to the bottom of the deck, and a pending release is settled.
pub open spec fn card_released(old: GameState, new: GameState, seat: Seat, hand_index: u8) -> bool {
    exists|mid: GameState| #![trigger slot_step(old, mid, slot_for(old, seat), PlayerOp::Release(hand_index))] {
        &&& slot_step(old, mid, slot_for(old, seat), PlayerOp::Release(hand_index))
        &&& new == GameState { phase: if mid.phase is PendingRelease { Phase::Acting } else { mid.phase }, ..mid }
    }
}

/// The Anima owed at the flow is paid to the seat's player and the debt cleared.
pub open spec fn flow_paid(old: GameState, new: GameState, seat: Seat) -> bool {
    exists|mid: GameState| #![trigger slot_step(old, mid, first_slot(seat), PlayerOp::Gain(seat_get(old.pending_flow_anima, seat)))] {
        &&& slot_step(old, mid, first_slot(seat), PlayerOp::Gain(seat_get(old.pending_flow_anima, seat)))
        &&& new == GameState { pending_flow_anima: seat_set(old.pending_flow_anima, seat, 0u8), ..mid }
    }
}

/// The spirit on `tile` is un-played: a card returns to its owner's hand, a token just
/// ceases.
pub open spec fn bounced(old: GameState, new: GameState, tile: u8) -> bool {
    let b = old.board@;
    match b[tile as int].spirit {
        Some(sp) => if sp.is_token {
            board_becomes(old, new, set_spirit(b, tile, None))
        } else {
            exists|mid: GameState| #![trigger slot_step(old, mid, first_slot(sp.owner), PlayerOp::TakeBack(sp.card))] {
                &&& slot_step(old, mid, first_slot(sp.owner), PlayerOp::TakeBack(sp.card))
                &&& board_becomes(mid, new, set_spirit(b, tile, None))
            }
        },
        None => new == old,
    }
}

/// A Bond card leaves the hand and binds the two tiles.
pub open spec fn bond_attached(old: GameState, new: GameState, seat: Seat, card: CardId, tile_a: u8, tile_b: u8) -> bool {
    exists|mid: GameState| #![trigger card_played(old, mid, seat, card)] {
        &&& card_played(old, mid, seat, card)
        &&& new == GameState { bonds: new.bonds, ..mid }
        &&& new.bonds@ == old.bonds@.push(Bond { card, owner: seat, tile_a, tile_b })
    }
}

/// A terrain card leaves the hand and lies on `tile`.
pub open spec fn terrain_placed(old: GameState, new: GameState, seat: Seat, card: CardId, tile: u8, terrain: Terrain) -> bool {
    let b = old.board@;
    exists|mid: GameState| #![trigger card_played(old, mid, seat, card)] {
        &&& card_played(old, mid, seat, card)
        &&& board_becomes(mid, new, b.update(tile as int, TileState { terrain: Some(terrain), ..b[tile as int] }))
    }
}

/// The form card `to` leaves the hand and the spirit on `tile` takes it (a devolved base is
/// summoning-sick).
pub open spec fn form_changed(old: GameState, new: GameState, seat: Seat, tile: u8, to: CardId, ev: Event, sick: bool) -> bool {
    let nb = edited(old.board@, tile, ev, old.round, old.active);
    exists|mid: GameState| #![trigger card_played(old, mid, seat, to)] {
        &&& card_played(old, mid, seat, to)
        &&& if sick { board_and_moved(mid, new, nb, tile) } else { board_becomes(mid, new, nb) }
    }
}

/// An Overwrite from seat's first player: on success the banisher's mark goes down and the
/// overwriter stands on the tile (faded if it was spent); on failure the defender keeps
/// the wound. Seat A's first placement is marked either way.
pub open spec fn overwrote(
    old: GameState,
    new: GameState,
    seat: Seat,
    card: CardId,
    tile: u8,
    success: bool,
    damage_to_defender: i16,
    attack: i16,
    defense: i16,
    attacker_hp_left: i16,
    attacker_hp_max: i16,
) -> bool {
    exists|mid: GameState| #![trigger slot_step(old, mid, first_slot(seat), PlayerOp::Play(card))] {
        &&& slot_step(old, mid, first_slot(seat), PlayerOp::Play(card))
        &&& if success {
            exists|m2: GameState| #![trigger marked(mid, m2, tile, seat)] {
                &&& marked(mid, m2, tile, seat)
                &&& board_and_moved(mark_first_placement(m2, seat), new, new.board@, tile)
                &&& arrives(m2.board@, new.board@, tile, card, seat, attack, defense, attacker_hp_left, attacker_hp_max,
                    false, false, None, overwriter_fade(old, seat, attacker_hp_left))
            }
        } else {
            board_becomes(mark_first_placement(mid, seat), new, hurt(old.board@, tile, damage_to_defender))
        }
    }
}

/// An Overwrite of the Stray from the acting slot: on success the mark goes down, the
/// Stray is gone and the overwriter stands on the tile; on failure the Stray keeps the
/// wound.
pub open spec fn overwrote_stray(
    old: GameState,
    new: GameState,
    seat: Seat,
    card: CardId,
    tile: u8,
    success: bool,
    damage_to_stray: i16,
    attack: i16,
    defense: i16,
    attacker_hp_left: i16,
    attacker_hp_max: i16,
) -> bool {
    let placed = if old.spec_is_2v2() { Some(old.active_slot) } else { None };
    exists|mid: GameState| #![trigger card_played(old, mid, seat, card)] {
        &&& card_played(old, mid, seat, card)
        &&& if success {
            exists|m2: GameState| #![trigger marked(mid, m2, tile, seat)] {
                &&& marked(mid, m2, tile, seat)
                &&& board_and_moved(mark_first_placement(GameState { stray: None, ..m2 }, seat), new, new.board@, tile)
                &&& arrives(m2.board@, new.board@, tile, card, seat, attack, defense, attacker_hp_left, attacker_hp_max,
                    false, false, placed, overwriter_fade(old, seat, attacker_hp_left))
            }
        } else {
            new == mark_first_placement(GameState {
                stray: match mid.stray {
                    Some(s) => Some(Stray { hp: (s.hp - damage_to_stray) as i16, ..s }),
                    None => None,
                },
                ..mid
            }, seat)
        }
    }
}

/// The tile's memory is forgotten: its impressions go and the erasure tally rises.
pub open spec fn forgotten(old: GameState, new: GameState, tile: u8) -> bool {
    exists|mid: GameState| #![trigger unwritten(old, mid, tile)] {
        &&& unwritten(old, mid, tile)
        &&& new == GameState { solace_erasures: sat_add(old.solace_erasures, 1), ..mid }
    }
}

/// An Unwritten shifts from `from` to `to`; an eater first clears the impressions at `to`
/// and tallies the erasure.
pub open spec fn shifted(old: GameState, new: GameState, from: u8, to: u8, eats_impression: bool) -> bool {
    let s = old.board@[from as int].spirit;
    let tallied = GameState { solace_erasures: sat_add(old.solace_erasures, 1), ..old };
    if eats_impression {
        exists|mid: GameState| #![trigger unwritten(tallied, mid, to)] {
            &&& unwritten(tallied, mid, to)
            &&& board_becomes(mid, new, set_spirit(set_spirit(mid.board@, from, None), to, s))
        }
    } else {
        board_becomes(old, new, moved(old.board@, from, to))
    }
}

/// A spirit fully dissolves: its owner's this-turn count rises, a non-token joins the
/// Recover pool, the tile empties, and the banisher's mark goes down.
pub open spec fn dissolved(old: GameState, new: GameState, tile: u8, impression: Seat) -> bool {
    let b = old.board@;
    let counted = match b[tile as int].spirit {
        Some(sp) => GameState {
            dissolved_this_turn: seat_set(old.dissolved_this_turn, sp.owner, (seat_get(old.dissolved_this_turn, sp.owner) + 1) as u8),
            ..old
        },
        None => old,
    };
    exists|mid: GameState| #![trigger marked(mid, new, tile, impression)] {
        &&& mid == GameState { dissolved: mid.dissolved, board: mid.board, ..counted }
        &&& mid.dissolved@ == match b[tile as int].spirit {
            Some(sp) => if sp.is_token { old.dissolved@ } else { old.dissolved@.push((sp.owner, sp.card)) },
            None => old.dissolved@,
        }
        &&& mid.board@ == set_spirit(b, tile, None)
        &&& marked(mid, new, tile, impression)
    }
}

/// The Stray is banished: the mark goes down and the Stray is gone.
pub open spec fn stray_banished(old: GameState, new: GameState, tile: u8, impression: Seat) -> bool {
    exists|mid: GameState| #![trigger marked(old, mid, tile, impression)] {
        &&& marked(old, mid, tile, impression)
        &&& new == GameState { stray: None, ..mid }
    }
}

/// The turn ends: the seat's Glimpse, evolution exception and next-arrival offers lapse,
/// the next slot acts, the moved list empties and the incoming seat's dissolution count
/// starts over.
pub open spec fn turn_ended(old: GameState, new: GameState, seat: Seat) -> bool {
    let next_slot = if old.spec_is_2v2() { old.active_slot.spec_next_2v2() } else { first_slot(seat.spec_other()) };
    let next_seat = next_slot.spec_team();
    exists|mid: GameState| #![trigger slot_step(old, mid, first_slot(seat), PlayerOp::TurnOver)] {
        &&& slot_step(old, mid, first_slot(seat), PlayerOp::TurnOver)
        &&& new == GameState {
            ignore_imprint_this_turn: seat_set(old.ignore_imprint_this_turn, seat, false),
            next_arrival_atk: seat_set(old.next_arrival_atk, seat, 0i16),
            next_arrival_2nd_engage: seat_set(old.next_arrival_2nd_engage, seat, None),
            active_slot: next_slot,
            active: next_seat,
            phase: Phase::Acting,
            moved_this_turn: new.moved_this_turn,
            dissolved_this_turn: seat_set(old.dissolved_this_turn, next_seat, 0u8),
            ..mid
        }
        &&& new.moved_this_turn@.len() == 0
    }
}

/// A spirit played from the acting slot's hand onto `tile`: the card leaves the hand, seat
/// A's first placement is marked, a face-up play is remembered as the seat's last, and the
/// fresh arrival is summoning-sick.
pub open spec fn spirit_played(
    old: GameState,
    new: GameState,
    seat: Seat,
    card: CardId,
    tile: u8,
    attack: i16,
    defense: i16,
    hp: i16,
    face_down: bool,
) -> bool {
    exists|mid: GameState| #![trigger card_played(old, mid, seat, card)] {
        let placed = if old.spec_is_2v2() { Some(slot_for(old, seat)) } else { None };
        let m2 = mark_first_placement(mid, seat);
        &&& card_played(old, mid, seat, card)
        &&& board_and_moved(GameState {
            last_played_spirit: if face_down { m2.last_played_spirit } else { seat_set(m2.last_played_spirit, seat, Some(card)) },
            ..m2
        }, new, new.board@, tile)
        &&& arrives(old.board@, new.board@, tile, card, seat, attack, defense, hp, hp, face_down, false, placed, None)
    }
}

/// The state after applying `ev` to `old`, as a relation on the final state.
pub open spec fn spec_applied(old: GameState, ev: Event, new: GameState) -> bool {
    let b = old.board@;
    match ev {
        Event::MatchStarted => new == old,
        // ---- players ----
        Event::AnimaGained { seat, amount, .. } => slot_step(old, new, slot_for(old, seat), PlayerOp::Gain(amount)),
        Event::AnimaSpent { seat, amount } => slot_step(old, new, slot_for(old, seat), PlayerOp::Spend(amount)),
        Event::CardDrawn { seat } => slot_step(old, new, slot_for(old, seat), PlayerOp::Draw),
        Event::ReleaseRequired { seat } =>
            new == GameState { phase: if old.phase == Phase::Acting { Phase::PendingRelease { seat } } else { old.phase }, ..old },
        Event::CardReleased { seat, hand_index } => card_released(old, new, seat, hand_index),
        Event::Glimpsed { seat, .. } => slot_step(old, new, slot_for(old, seat), PlayerOp::Glimpse),
        Event::RitualCast { seat, card } => card_played(old, new, seat, card),
        Event::UnwritingTold { seat, card } => card_played(GameState { unwriting_told_this_round: true, ..old }, new, seat, card),
        Event::DeckMilled { seat } => slot_step(old, new, first_slot(seat), PlayerOp::Mill),
        Event::FlowAnimaPaid { seat } => flow_paid(old, new, seat),
        Event::Mulliganed { seat, hand, deck } => {
            let p = slot_player(old, first_slot(seat))->Some_0;
            &&& slot_player(new, first_slot(seat)) matches Some(q)
            &&& player_is(q, hand@, deck@, p.anima, p.glimpsed_this_turn, None, p.first_placement_done)
            &&& new == GameState {
                mulliganed: seat_set(old.mulliganed, seat, true),
                ..with_slot_player(old, first_slot(seat), q)
            }
        },
        Event::SpiritBounced { tile } => bounced(old, new, tile),
        // ---- cards from hand onto the board ----
        Event::SpiritPlayed { seat, card, tile, attack, defense, hp, face_down } =>
            spirit_played(old, new, seat, card, tile, attack, defense, hp, face_down),
        Event::BondAttached { seat, card, tile_a, tile_b } => bond_attached(old, new, seat, card, tile_a, tile_b),
        Event::LandmarkPlaced { seat, card, tile } =>
            terrain_placed(old, new, seat, card, tile, Terrain { card, owner: seat, kind: TerrainKind::Landmark, face_down: false }),
        Event::FabricationSet { seat, card, tile } =>
            terrain_placed(old, new, seat, card, tile, Terrain { card, owner: seat, kind: TerrainKind::Fabrication, face_down: true }),
        Event::SpiritEvolved { seat, tile, to, .. } => form_changed(old, new, seat, tile, to, ev, false),
        Event::SpiritDevolved { seat, tile, to, .. } => form_changed(old, new, seat, tile, to, ev, true),
        Event::Overwrote { seat, card, tile, success, damage_to_defender, attack, defense, attacker_hp_left, attacker_hp_max, .. } =>
            overwrote(old, new, seat, card, tile, success, damage_to_defender, attack, defense, attacker_hp_left, attacker_hp_max),
        Event::OverwroteStray { seat, card, tile, success, damage_to_stray, attack, defense, attacker_hp_left, attacker_hp_max } =>
            overwrote_stray(old, new, seat, card, tile, success, damage_to_stray, attack, defense, attacker_hp_left, attacker_hp_max),
        // ---- arrivals without a card from hand ----
        Event::UnwrittenManifested { card, tile, attack, defense, hp } => {
            &&& board_and_moved(old, new, new.board@, tile)
            &&& arrives(b, new.board@, tile, card, Seat::B, attack, defense, hp, hp, false, true, None, None)
        },
        Event::SpiritManifested { seat, card, tile, attack, defense, hp } => {
            &&& board_and_moved(old, new, new.board@, tile)
            &&& arrives(b, new.board@, tile, card, seat, attack, defense, hp, hp, false, true, None, None)
        },
        Event::StrayBefriended { seat, card, tile, attack, defense, hp } => {
            &&& new == GameState { board: new.board, stray: None, ..old }
            &&& arrives(b, new.board@, tile, card, seat, attack, defense, hp, hp, false, false, None, None)
        },
        // ---- the board ----
        Event::SpiritPushed { from, to } => board_becomes(old, new, moved(b, from, to)),
        Event::SpiritMoved { from, to } => board_and_moved(old, new, moved(b, from, to), to),
        Event::SpiritsSwapped { a, b: bt } => board_becomes(old, new, swapped(b, a, bt)),
        Event::SpiritReleased { tile } | Event::SpiritReclaimed { tile } | Event::TokenDissolved { tile } =>
            board_becomes(old, new, set_spirit(b, tile, None)),
        Event::Struck { from_tile, to_tile, damage, kind, .. } => {
            let b1 = hurt(b, to_tile, damage);
            board_becomes(old, new, if kind == StrikeKind::Interception { intercepted(b1, from_tile) } else { b1 })
        },
        Event::DamageRedirected { from_tile, to_tile, amount, consume } => {
            let b1 = hurt(b, to_tile, amount);
            board_becomes(old, new, if consume { latched(b1, from_tile) } else { b1 })
        },
        Event::KeywordGranted { tile, keyword, until_round } => {
            &&& new == GameState { board: new.board, ..old }
            &&& new.board@.len() == b.len()
            &&& forall|j: int| 0 <= j < b.len() && j != tile as int ==> #[trigger] new.board@[j] == b[j]
            &&& match b[tile as int].spirit {
                None => new.board@[tile as int] == b[tile as int],
                Some(sp) => new.board@[tile as int].spirit matches Some(ns)
                    && ns == Spirit { kw_grants: ns.kw_grants, ..sp }
                    && ns.kw_grants@ == sp.kw_grants@.push((keyword, until_round))
                    && new.board@[tile as int] == with_spirit(b[tile as int], Some(ns)),
            }
        },
        Event::FabricationRevealed { tile } => board_becomes(old, new, b.update(tile as int, TileState {
            terrain: match b[tile as int].terrain {
                Some(t) => Some(Terrain { face_down: false, ..t }),
                None => None,
            },
            ..b[tile as int]
        })),
        Event::FabricationSpent { tile } => board_becomes(old, new, b.update(tile as int, TileState { terrain: None, ..b[tile as int] })),
        Event::TileFaded { tile } => board_becomes(old, new, b.update(tile as int, TileState { faded: true, ..b[tile as int] })),
        Event::ImpressionUnwritten { tile } => unwritten(old, new, tile),
        Event::ImpressionForgotten { tile } => forgotten(old, new, tile),
        Event::UnwrittenShifted { from, to, eats_impression } => shifted(old, new, from, to, eats_impression),
        Event::SpiritDissolved { tile, impression } => dissolved(old, new, tile, impression),
        Event::StrayBanished { tile, impression } => stray_banished(old, new, tile, impression),
        Event::MemoryContracted { faded_tiles } => {
            &&& new == GameState { board: new.board, contracted: true, ..old }
            &&& new.board@.len() == b.len()
            &&& forall|j: int| 0 <= j < b.len() ==> #[trigger] new.board@[j]
                == if lists_tile(faded_tiles@, j) { darkened(b[j]) } else { b[j] }
        },
        // ---- per-spirit edits ----
        Event::SpiritRevealed { tile } | Event::OrdersSet { tile, .. } | Event::SpiritCopiedStats { tile, .. }
        | Event::ReachCopied { tile, .. } | Event::ReplacementSurvived { tile, .. } | Event::EffectRestored { tile, .. }
        | Event::EffectDamaged { tile, .. } | Event::EngageRestricted { tile, .. } | Event::ThroughlineCompleted { tile, .. }
        | Event::EffectStat { tile, .. } | Event::ControlTaken { tile, .. } | Event::TraitsStripped { tile }
        | Event::TraitsStrippedUntil { tile, .. } | Event::SpiritBecameFading { tile, .. } =>
            board_becomes(old, new, edited(b, tile, ev, old.round, old.active)),
        // ---- dated lists ----
        Event::EffectTempStat { tile, attack, defense, until_round } =>
            new == GameState { temp_mods: new.temp_mods, ..old }
                && new.temp_mods@ == old.temp_mods@.push(TempMod { tile, attack, defense, until_round }),
        Event::ReachBuffed { seat, forward, all_directions, until_round, targeting_only, tile } =>
            new == GameState { temp_reach: new.temp_reach, ..old }
                && new.temp_reach@ == old.temp_reach@.push(TempReach { seat, tile, forward, all_directions, targeting_only, until_round }),
        Event::Restricted { seat, restriction, until_round } =>
            new == GameState { temp_restrict: new.temp_restrict, ..old }
                && new.temp_restrict@ == old.temp_restrict@.push(TempRestrict { seat, restriction, until_round }),
        Event::RetaliationBuffed { tile, delta, until_round } =>
            new == GameState { temp_retaliation: new.temp_retaliation, ..old }
                && new.temp_retaliation@ == old.temp_retaliation@.push((tile, delta, until_round)),
        Event::BondBroken { card } => new == GameState { bonds: new.bonds, ..old } && new.bonds@ == keep_bonds(old.bonds@, card),
        Event::TilesGoneCalm { tiles, round } =>
            new == GameState { calm_tiles: new.calm_tiles, ..old }
                && new.calm_tiles@ == old.calm_tiles@ + tiles@.map_values(|t: u8| (t, round)),
        Event::FadeDelayed { tile } =>
            new == GameState { fade_delayed: new.fade_delayed, ..old }
                && new.fade_delayed@ == if old.fade_delayed@.contains(tile) { old.fade_delayed@ } else { old.fade_delayed@.push(tile) },
        Event::FadeDelayConsumed { tile } => {
            &&& new == GameState { fade_delayed: new.fade_delayed, ..old }
            &&& {
                let i = first_at(old.fade_delayed@, tile, 0);
                new.fade_delayed@ == if 0 <= i {
                    old.fade_delayed@.update(i, old.fade_delayed@.last()).drop_last()
                } else {
                    old.fade_delayed@
                }
            }
        },
        Event::FabricationPeeked { seat, tile, card } => {
            let known = seat_get(old.peeked_fabs, seat)@;
            &&& new == GameState { peeked_fabs: new.peeked_fabs, ..old }
            &&& seat_get(new.peeked_fabs, seat.spec_other())@ == seat_get(old.peeked_fabs, seat.spec_other())@
            &&& seat_get(new.peeked_fabs, seat)@ == if known.contains((tile, card)) { known } else { known.push((tile, card)) }
        },
        // ---- per-seat pairs ----
        Event::EvolveImprintFreed { seat } =>
            new == GameState { ignore_imprint_this_turn: seat_set(old.ignore_imprint_this_turn, seat, true), ..old },
        Event::CardTaxed { seat, amount, until_round } =>
            new == GameState { card_tax: seat_set(old.card_tax, seat, (amount, until_round)), ..old },
        Event::CardTaxSpent { seat } => new == GameState { card_tax: seat_set(old.card_tax, seat, (0u8, 0u8)), ..old },
        Event::FlowAnimaScheduled { seat, amount } => new == GameState {
            pending_flow_anima: seat_set(old.pending_flow_anima, seat, sat_add(seat_get(old.pending_flow_anima, seat), amount)),
            ..old
        },
        Event::NextArrivalBuffed { seat, attack } => new == GameState {
            next_arrival_atk: seat_set(old.next_arrival_atk, seat, (seat_get(old.next_arrival_atk, seat) + attack) as i16),
            ..old
        },
        Event::NextArrivalConsumed { seat } => new == GameState { next_arrival_atk: seat_set(old.next_arrival_atk, seat, 0i16), ..old },
        Event::NextArrivalSecondEngage { seat, penalty } =>
            new == GameState { next_arrival_2nd_engage: seat_set(old.next_arrival_2nd_engage, seat, Some(penalty)), ..old },
        Event::NextArrivalSecondConsumed { seat } =>
            new == GameState { next_arrival_2nd_engage: seat_set(old.next_arrival_2nd_engage, seat, None), ..old },
        Event::RitualDiscountGranted { seat, amount } => new == GameState {
            next_ritual_discount: seat_set(old.next_ritual_discount, seat, (seat_get(old.next_ritual_discount, seat) + amount) as u8),
            ..old
        },
        Event::RitualDiscountConsumed { seat } =>
            new == GameState { next_ritual_discount: seat_set(old.next_ritual_discount, seat, 0u8), ..old },
        // ---- single fields ----
        Event::ImpressionsStoppedScoring { round } => new == GameState { impressions_dormant_round: Some(round), ..old },
        Event::LandmarkSilenced { tile, round } => new == GameState { silenced_terrain: Some((tile, round)), ..old },
        Event::StrayTelegraphed { tile, surface_round, midnight } =>
            new == GameState { stray_telegraph: Some(StrayTelegraph { tile, surface_round, midnight }), ..old },
        Event::StrayTelegraphCleared => new == GameState { stray_telegraph: None, ..old },
        Event::StraySurfaced { card, tile, temperament, veiled, hp } => new == GameState {
            stray: Some(Stray { card, tile, temperament, veiled, courtship: 0, courted_by: None, hp, hp_max: hp }),
            stray_telegraph: None,
            ..old
        },
        Event::StrayStruck { hp, .. } => new == GameState {
            stray: match old.stray {
                Some(s) => Some(Stray { hp, ..s }),
                None => None,
            },
            ..old
        },
        Event::StrayUnveiled => new == GameState {
            stray: match old.stray {
                Some(s) => Some(Stray { veiled: false, ..s }),
                None => None,
            },
            ..old
        },
        Event::StrayCourted { seat, courtship } => new == GameState {
            stray: match old.stray {
                Some(s) => Some(Stray { courtship, courted_by: Some(seat), ..s }),
                None => None,
            },
            ..old
        },
        Event::StrayDenied { .. } => new == GameState { stray: None, ..old },
        Event::RitualExtraTargetsArmed { count } => new == GameState { ritual_extra_targets: count, ..old },
        Event::RitualExtraTargetsConsumed => new == GameState { ritual_extra_targets: 0, ..old },
        Event::MatchEnded { result, score_a, score_b } => new == GameState { phase: Phase::Finished { result, score_a, score_b }, ..old },
        Event::MatchAbandoned { seat, score_a, score_b } =>
            new == GameState { phase: Phase::Finished { result: MatchResult::Win(seat.spec_other()), score_a, score_b }, ..old },
        // ---- the turn and the round ----
        Event::TurnEnded { seat } => turn_ended(old, new, seat),
        Event::RoundAdvanced { round } => {
            &&& new == GameState {
                temp_mods: new.temp_mods,
                temp_reach: new.temp_reach,
                temp_retaliation: new.temp_retaliation,
                temp_restrict: new.temp_restrict,
                card_tax: [tax_at_round(old.card_tax[0], round), tax_at_round(old.card_tax[1], round)],
                round,
                unwriting_told_this_round: false,
                board: new.board,
                ..old
            }
            &&& new.temp_mods@ == lasting(old.temp_mods@, round)
            &&& new.temp_reach@ == lasting(old.temp_reach@, round)
            &&& new.temp_retaliation@ == lasting(old.temp_retaliation@, round)
            &&& new.temp_restrict@ == lasting(old.temp_restrict@, round)
            &&& new.board@.len() == b.len()
            &&& forall|j: int| 0 <= j < b.len() ==> tile_at_round(b[j], #[trigger] new.board@[j], round)
        },
    }
}

} // verus!
