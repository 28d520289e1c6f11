//! Applying events to the match state: `apply_event` carries out, mechanically, what
//! `events::spec_applied` says each event does.
use vstd::prelude::*;

use crate::effects::Keyword;
use crate::events::{
    lists_tile, tiles_on_board, spirit_played, board_and_moved, seat_set, edit_tile, Dated, Event, PlayerOp, StrikeKind, arrives, board_becomes, card_played, darkened, edited, event_ok, first_at, first_slot, hurt, hurt_fits, impressions_are, intercepted, is_fresh_spirit, keep_bonds, lasting, latched, mark_first_placement, marked, moved, on_board, player_step, seat_get, set_spirit, slot_for, slot_player, slot_step, spec_applied, spirit_after, spirit_edit_fits, swapped, tile_at_round, unwritten,
};
use crate::state::{
    Bond, GameState, MatchResult, Phase, PlayerState, Spirit, Stray, StrayTelegraph, TempMod, TempReach, TempRestrict,
    Terrain, TerrainKind, TileState,
};
use crate::targets::fade_deadline_round;
use crate::types::{CardId, Faction, Seat, SeatSlot};

verus! {

// ---------------------------------------------------------------------------
// Tiles
// ---------------------------------------------------------------------------

fn take_tile(st: &mut GameState, i: usize) -> (t: TileState)
    requires
        i < old(st).board@.len(),
    ensures
        t == old(st).board@[i as int],
        *final(st) == (GameState { board: final(st).board, ..*old(st) }),
        final(st).board@.len() == old(st).board@.len(),
        forall|j: int| 0 <= j < old(st).board@.len() && j != i ==> #[trigger] final(st).board@[j] == old(st).board@[j],
{
    let mut t = TileState { spirit: None, terrain: None, impressions: Vec::new(), faded: false };
    st.board.set_and_swap(i, &mut t);
    t
}

fn give_tile(st: &mut GameState, i: usize, t: TileState)
    requires
        i < old(st).board@.len(),
    ensures
        *final(st) == (GameState { board: final(st).board, ..*old(st) }),
        final(st).board@ == old(st).board@.update(i as int, t),
{
    st.board.set(i, t);
}

/// Set the spirit slot of tile `i`, returning what stood there.
fn swap_spirit(st: &mut GameState, i: u8, s: Option<Spirit>) -> (prev: Option<Spirit>)
    requires
        (i as int) < old(st).board@.len(),
    ensures
        prev == old(st).board@[i as int].spirit,
        board_becomes(*old(st), *final(st), set_spirit(old(st).board@, i, s)),
{
    let ghost b0 = st.board@;
    let mut t = take_tile(st, i as usize);
    let prev = t.spirit.take();
    t.spirit = s;
    give_tile(st, i as usize, t);
    assert(st.board@ =~= set_spirit(b0, i, s));
    prev
}

/// Replace the tile's impressions: `Some(seat)` marks it for that seat alone, `None`
/// leaves it bare.
fn set_impressions(st: &mut GameState, tile: u8, mark: Option<Seat>)
    requires
        (tile as int) < old(st).board@.len(),
    ensures
        *final(st) == (GameState { board: final(st).board, ..*old(st) }),
        final(st).board@.len() == old(st).board@.len(),
        forall|j: int| 0 <= j < old(st).board@.len() && j != tile ==> #[trigger] final(st).board@[j] == old(st).board@[j],
        impressions_are(old(st).board@[tile as int], final(st).board@[tile as int], mark),
{
    let ghost b0 = st.board@;
    let mut t = take_tile(st, tile as usize);
    let mut v: Vec<Seat> = Vec::new();
    match mark {
        Some(s) => {
            v.push(s);
        },
        None => {},
    }
    t.impressions = v;
    give_tile(st, tile as usize, t);
    assert(st.board@[tile as int] == t);
}

/// Lay the banisher's mark (see `marked`).
fn lay_mark(st: &mut GameState, tile: u8, by: Seat)
    requires
        (tile as int) < old(st).board@.len(),
    ensures
        marked(*old(st), *final(st), tile, by),
{
    let faction = match by {
        Seat::A => st.rules.factions[0],
        Seat::B => st.rules.factions[1],
    };
    if faction == Faction::Solace {
        set_impressions(st, tile, None);
        st.solace_erasures = st.solace_erasures.saturating_add(1);
    } else {
        set_impressions(st, tile, Some(by));
    }
}

fn hurt_spirit(st: &mut GameState, t: u8, amount: i16)
    requires
        (t as int) < old(st).board@.len(),
        hurt_fits(old(st).board@, t, amount),
    ensures
        board_becomes(*old(st), *final(st), hurt(old(st).board@, t, amount)),
{
    let ghost b0 = st.board@;
    match swap_spirit(st, t, None) {
        Some(sp) => {
            let mut sp = sp;
            sp.hp = sp.hp - amount;
            swap_spirit(st, t, Some(sp));
            assert(st.board@ =~= set_spirit(b0, t, Some(sp)));
        },
        None => {
            swap_spirit(st, t, None);
            assert(st.board@ =~= b0);
        },
    }
}

fn latch_spirit(st: &mut GameState, t: u8)
    requires
        (t as int) < old(st).board@.len(),
    ensures
        board_becomes(*old(st), *final(st), latched(old(st).board@, t)),
{
    let ghost b0 = st.board@;
    match swap_spirit(st, t, None) {
        Some(sp) => {
            let mut sp = sp;
            sp.replacement_used = true;
            swap_spirit(st, t, Some(sp));
            assert(st.board@ =~= set_spirit(b0, t, Some(sp)));
        },
        None => {
            swap_spirit(st, t, None);
            assert(st.board@ =~= b0);
        },
    }
}

fn intercept_spirit(st: &mut GameState, t: u8)
    requires
        (t as int) < old(st).board@.len(),
    ensures
        board_becomes(*old(st), *final(st), intercepted(old(st).board@, t)),
{
    let ghost b0 = st.board@;
    match swap_spirit(st, t, None) {
        Some(sp) => {
            let mut sp = sp;
            sp.intercepted_this_round = true;
            swap_spirit(st, t, Some(sp));
            assert(st.board@ =~= set_spirit(b0, t, Some(sp)));
        },
        None => {
            swap_spirit(st, t, None);
            assert(st.board@ =~= b0);
        },
    }
}

// ---------------------------------------------------------------------------
// Spirits
// ---------------------------------------------------------------------------

fn fresh_spirit(
    card: CardId,
    owner: Seat,
    attack: i16,
    defense: i16,
    hp: i16,
    hp_max: i16,
    face_down: bool,
    is_token: bool,
    placed_by: Option<SeatSlot>,
    fade: Option<(Seat, u8)>,
) -> (sp: Spirit)
    ensures
        is_fresh_spirit(sp, card, owner, attack, defense, hp, hp_max, face_down, is_token, placed_by, fade),
{
    let (fading, banished_by, fade_deadline) = match fade {
        Some((by, deadline)) => (true, Some(by), Some(deadline)),
        None => (false, None, None),
    };
    Spirit {
        replacement_used: false,
        holding: false,
        face_down,
        is_token,
        placed_by,
        card,
        owner,
        attack,
        defense,
        hp,
        hp_max,
        fading,
        banished_by,
        intercepted_this_round: false,
        traits_stripped: false,
        traits_stripped_until: None,
        kw_grants: Vec::new(),
        no_engage_until: 0,
        throughline_done: false,
        copied_reach: None,
        fade_deadline,
    }
}

/// Stand a fresh spirit on `tile`.
fn arrive(
    st: &mut GameState,
    tile: u8,
    card: CardId,
    owner: Seat,
    attack: i16,
    defense: i16,
    hp: i16,
    hp_max: i16,
    face_down: bool,
    is_token: bool,
    placed_by: Option<SeatSlot>,
    fade: Option<(Seat, u8)>,
)
    requires
        (tile as int) < old(st).board@.len(),
    ensures
        *final(st) == (GameState { board: final(st).board, ..*old(st) }),
        arrives(old(st).board@, final(st).board@, tile, card, owner, attack, defense, hp, hp_max, face_down, is_token, placed_by, fade),
{
    let sp = fresh_spirit(card, owner, attack, defense, hp, hp_max, face_down, is_token, placed_by, fade);
    swap_spirit(st, tile, Some(sp));
}

fn spirit_after_plain(ev: &Event, sp: Spirit) -> (r: Spirit)
    requires
        ev is SpiritRevealed || ev is OrdersSet || ev is SpiritCopiedStats || ev is ReachCopied
            || ev is ReplacementSurvived || ev is EngageRestricted || ev is ControlTaken || ev is TraitsStripped
            || ev is TraitsStrippedUntil,
    ensures
        r == spirit_after(*ev, sp, 0, Seat::A),
{
    let mut sp = sp;
    match *ev {
        Event::SpiritRevealed { .. } => {
            sp.face_down = false;
        },
        Event::OrdersSet { hold, .. } => {
            sp.holding = hold;
        },
        Event::SpiritCopiedStats { attack, defense, hp_max, .. } => {
            sp.attack = attack;
            sp.defense = defense;
            sp.hp_max = hp_max;
            sp.hp = hp_max;
        },
        Event::ReachCopied { reach, .. } => {
            sp.copied_reach = Some(reach);
        },
        Event::ReplacementSurvived { form, .. } => {
            sp.hp = form;
            sp.replacement_used = true;
        },
        Event::EngageRestricted { until_round, .. } => {
            sp.no_engage_until = until_round;
        },
        Event::ControlTaken { new_owner, .. } => {
            sp.owner = new_owner;
            sp.placed_by = None;
        },
        Event::TraitsStripped { .. } => {
            sp.traits_stripped = true;
        },
        Event::TraitsStrippedUntil { until_round, .. } => {
            sp.traits_stripped_until = Some(until_round);
        },
        _ => {},
    }
    sp
}

fn spirit_after_numbers(ev: &Event, sp: Spirit) -> (r: Spirit)
    requires
        ev is EffectRestored || ev is EffectDamaged || ev is ThroughlineCompleted || ev is EffectStat,
        spirit_edit_fits(*ev, sp),
    ensures
        r == spirit_after(*ev, sp, 0, Seat::A),
{
    let mut sp = sp;
    match *ev {
        Event::EffectRestored { amount, .. } => {
            let healed = sp.hp + amount;
            sp.hp = if healed <= sp.hp_max { healed } else { sp.hp_max };
        },
        Event::EffectDamaged { amount, .. } => {
            sp.hp = sp.hp - amount;
        },
        Event::ThroughlineCompleted { attack, defense, .. } => {
            sp.attack = sp.attack + attack;
            sp.defense = sp.defense + defense;
            sp.hp = sp.hp_max;
            sp.throughline_done = true;
        },
        Event::EffectStat { attack, defense, form, .. } => {
            sp.attack = sp.attack + attack;
            sp.defense = sp.defense + defense;
            sp.hp_max = sp.hp_max + form;
            sp.hp = sp.hp + form;
        },
        _ => {},
    }
    sp
}

fn spirit_after_forms(ev: &Event, sp: Spirit, round: u8, active: Seat) -> (r: Spirit)
    requires
        ev is SpiritBecameFading || ev is SpiritEvolved || ev is SpiritDevolved,
        ev is SpiritBecameFading ==> round < u8::MAX,
    ensures
        r == spirit_after(*ev, sp, round, active),
{
    let mut sp = sp;
    match *ev {
        Event::SpiritBecameFading { banished_by, .. } => {
            sp.fading = true;
            sp.banished_by = banished_by;
            sp.fade_deadline = match banished_by {
                Some(_) => Some(fade_deadline_round(round, active, sp.owner)),
                None => None,
            };
            sp.throughline_done = false;
        },
        Event::SpiritEvolved { to, attack, defense, hp, keeps_throughline, .. } => {
            sp.card = to;
            sp.attack = attack;
            sp.defense = defense;
            sp.hp = hp;
            sp.hp_max = hp;
            sp.fading = false;
            sp.banished_by = None;
            sp.fade_deadline = None;
            if !keeps_throughline {
                sp.throughline_done = false;
            }
        },
        Event::SpiritDevolved { to, attack, defense, hp, .. } => {
            sp.card = to;
            sp.attack = attack;
            sp.defense = defense;
            sp.hp = hp;
            sp.hp_max = hp;
            sp.fading = false;
            sp.banished_by = None;
            sp.fade_deadline = None;
            sp.throughline_done = false;
        },
        _ => {},
    }
    sp
}

fn spirit_after_exec(ev: &Event, sp: Spirit, round: u8, active: Seat) -> (r: Spirit)
    requires
        edit_tile(*ev) is Some || ev is SpiritEvolved || ev is SpiritDevolved,
        spirit_edit_fits(*ev, sp),
        ev is SpiritBecameFading ==> round < u8::MAX,
    ensures
        r == spirit_after(*ev, sp, round, active),
{
    match *ev {
        Event::EffectRestored { .. } | Event::EffectDamaged { .. } | Event::ThroughlineCompleted { .. }
        | Event::EffectStat { .. } => spirit_after_numbers(ev, sp),
        Event::SpiritBecameFading { .. } | Event::SpiritEvolved { .. } | Event::SpiritDevolved { .. } =>
            spirit_after_forms(ev, sp, round, active),
        _ => spirit_after_plain(ev, sp),
    }
}

fn edit_spirit(st: &mut GameState, tile: u8, ev: &Event)
    requires
        edit_tile(*ev) is Some || ev is SpiritEvolved || ev is SpiritDevolved,
        (tile as int) < old(st).board@.len(),
        old(st).board@[tile as int].spirit matches Some(sp) ==> spirit_edit_fits(*ev, sp),
        ev is SpiritBecameFading ==> old(st).round < u8::MAX,
    ensures
        board_becomes(*old(st), *final(st), edited(old(st).board@, tile, *ev, old(st).round, old(st).active)),
{
    let ghost b0 = st.board@;
    let round = st.round;
    let active = st.active;
    let prev = swap_spirit(st, tile, None);
    match prev {
        Some(sp) => {
            let ns = spirit_after_exec(ev, sp, round, active);
            swap_spirit(st, tile, Some(ns));
            assert(st.board@ =~= edited(b0, tile, *ev, round, active));
        },
        None => {
            swap_spirit(st, tile, None);
            assert(st.board@ =~= b0);
        },
    }
}

// ---------------------------------------------------------------------------
// Players
// ---------------------------------------------------------------------------

fn card_index(h: &Vec<CardId>, c: CardId) -> (r: Option<usize>)
    ensures
        match r {
            Some(i) => first_at(h@, c, 0) == i as int && i < h@.len(),
            None => first_at(h@, c, 0) == -1,
        },
{
    let n = h.len();
    for i in 0..n
        invariant
            n == h@.len(),
            first_at(h@, c, 0) == first_at(h@, c, i as int),
    {
        if h[i] == c {
            return Some(i);
        }
    }
    None
}

fn tile_index(h: &Vec<u8>, c: u8) -> (r: Option<usize>)
    ensures
        match r {
            Some(i) => first_at(h@, c, 0) == i as int && i < h@.len(),
            None => first_at(h@, c, 0) == -1,
        },
{
    let n = h.len();
    for i in 0..n
        invariant
            n == h@.len(),
            first_at(h@, c, 0) == first_at(h@, c, i as int),
    {
        if h[i] == c {
            return Some(i);
        }
    }
    None
}

fn step_player(p: &mut PlayerState, op: PlayerOp)
    ensures
        player_step(op, *old(p), *final(p)),
{
    match op {
        PlayerOp::Gain(a) => {
            p.anima = p.anima.saturating_add(a);
        },
        PlayerOp::Spend(a) => {
            p.anima = p.anima.saturating_sub(a);
        },
        PlayerOp::Draw => {
            if p.deck.len() > 0 {
                let c = p.deck.remove(0);
                p.hand.push(c);
            }
            p.peeked_top = None;
        },
        PlayerOp::Release(i) => {
            if (i as usize) < p.hand.len() {
                let c = p.hand.remove(i as usize);
                p.deck.push(c);
            }
        },
        PlayerOp::Glimpse => {
            p.glimpsed_this_turn = true;
        },
        PlayerOp::Play(c) => {
            match card_index(&p.hand, c) {
                Some(i) => {
                    p.hand.remove(i);
                },
                None => {},
            }
        },
        PlayerOp::Mill => {
            if p.deck.len() > 0 {
                p.deck.remove(0);
            }
        },
        PlayerOp::TakeBack(c) => {
            p.hand.push(c);
        },
        PlayerOp::TurnOver => {
            p.glimpsed_this_turn = false;
        },
    }
}

pub(crate) fn slot_for_exec(st: &GameState, seat: Seat) -> (s: SeatSlot)
    ensures
        s == slot_for(*st, seat),
{
    if st.is_2v2() && st.active_slot.team() == seat {
        st.active_slot
    } else {
        match seat {
            Seat::A => SeatSlot::A1,
            Seat::B => SeatSlot::B1,
        }
    }
}

pub(crate) fn first_slot_exec(seat: Seat) -> (s: SeatSlot)
    ensures
        s == first_slot(seat),
{
    match seat {
        Seat::A => SeatSlot::A1,
        Seat::B => SeatSlot::B1,
    }
}

fn step_slot(st: &mut GameState, s: SeatSlot, op: PlayerOp)
    requires
        slot_player(*old(st), s) is Some,
    ensures
        slot_step(*old(st), *final(st), s, op),
{
    match s {
        SeatSlot::A1 => step_player(&mut st.player_a, op),
        SeatSlot::B1 => step_player(&mut st.player_b, op),
        SeatSlot::A2 => match &mut st.player_a2 {
            Some(p) => step_player(p, op),
            None => {},
        },
        SeatSlot::B2 => match &mut st.player_b2 {
            Some(p) => step_player(p, op),
            None => {},
        },
    }
}

fn mark_first_placement_exec(st: &mut GameState, seat: Seat)
    ensures
        *final(st) == mark_first_placement(*old(st), seat),
{
    if seat == Seat::A {
        st.player_a.first_placement_done = true;
    }
}

fn copy_cards(v: &Vec<CardId>) -> (r: Vec<CardId>)
    ensures
        r@ == v@,
{
    let mut r: Vec<CardId> = Vec::new();
    let n = v.len();
    for i in 0..n
        invariant
            n == v@.len(),
            r@ == v@.subrange(0, i as int),
    {
        r.push(v[i]);
    }
    assert(r@ == v@.subrange(0, n as int));
    r
}

fn apply_mulligan(st: &mut GameState, seat: Seat, hand: &Vec<CardId>, deck: &Vec<CardId>)
    ensures
        spec_applied(*old(st), Event::Mulliganed { seat, hand: *hand, deck: *deck }, *final(st)),
{
    let h = copy_cards(hand);
    let d = copy_cards(deck);
    match seat {
        Seat::A => {
            st.player_a.hand = h;
            st.player_a.deck = d;
            st.player_a.peeked_top = None;
            st.mulliganed = [true, st.mulliganed[1]];
        },
        Seat::B => {
            st.player_b.hand = h;
            st.player_b.deck = d;
            st.player_b.peeked_top = None;
            st.mulliganed = [st.mulliganed[0], true];
        },
    }
}

// ---------------------------------------------------------------------------
// Lists
// ---------------------------------------------------------------------------

fn keep_lasting<T: Dated + Copy>(v: &mut Vec<T>, r: u8)
    ensures
        final(v)@ == lasting(old(v)@, r),
{
    let ghost v0 = v@;
    let mut kept: Vec<T> = Vec::new();
    let n = v.len();
    for k in 0..n
        invariant
            n == v0.len(),
            v@ == v0,
            kept@ == lasting(v0.subrange(0, k as int), r),
    {
        assert(v0.subrange(0, k + 1).drop_last() == v0.subrange(0, k as int));
        let x = v[k];
        if x.until() >= r {
            kept.push(x);
        }
    }
    assert(v0.subrange(0, n as int) == v0);
    *v = kept;
}

pub(crate) fn contains_tile(v: &Vec<u8>, x: u8) -> (r: bool)
    ensures
        r == v@.contains(x),
{
    let n = v.len();
    for i in 0..n
        invariant
            n == v@.len(),
            forall|j: int| 0 <= j < i ==> v@[j] != x,
    {
        if v[i] == x {
            return true;
        }
    }
    false
}

fn knows_fab(v: &Vec<(u8, CardId)>, tile: u8, card: CardId) -> (r: bool)
    ensures
        r == v@.contains((tile, card)),
{
    let n = v.len();
    for i in 0..n
        invariant
            n == v@.len(),
            forall|j: int| 0 <= j < i ==> v@[j] != (tile, card),
    {
        let (t, c) = v[i];
        if t == tile && c == card {
            assert(v@[i as int] == (tile, card));
            return true;
        }
    }
    false
}

fn copy_fabs(v: &Vec<(u8, CardId)>) -> (r: Vec<(u8, CardId)>)
    ensures
        r@ == v@,
{
    let mut r: Vec<(u8, CardId)> = Vec::new();
    let n = v.len();
    for i in 0..n
        invariant
            n == v@.len(),
            r@ == v@.subrange(0, i as int),
    {
        r.push(v[i]);
    }
    assert(r@ == v@.subrange(0, n as int));
    r
}

fn apply_peek(st: &mut GameState, seat: Seat, tile: u8, card: CardId)
    ensures
        spec_applied(*old(st), Event::FabricationPeeked { seat, tile, card }, *final(st)),
{
    let mut a = copy_fabs(&st.peeked_fabs[0]);
    let mut b = copy_fabs(&st.peeked_fabs[1]);
    match seat {
        Seat::A => {
            if !knows_fab(&a, tile, card) {
                a.push((tile, card));
            }
        },
        Seat::B => {
            if !knows_fab(&b, tile, card) {
                b.push((tile, card));
            }
        },
    }
    st.peeked_fabs = [a, b];
}

fn apply_calm(st: &mut GameState, tiles: &Vec<u8>, round: u8)
    ensures
        spec_applied(*old(st), Event::TilesGoneCalm { tiles: *tiles, round }, *final(st)),
{
    let ghost c0 = st.calm_tiles@;
    let n = tiles.len();
    for k in 0..n
        invariant
            n == tiles@.len(),
            *st == (GameState { calm_tiles: st.calm_tiles, ..*old(st) }),
            c0 == old(st).calm_tiles@,
            st.calm_tiles@ == c0 + tiles@.subrange(0, k as int).map_values(|t: u8| (t, round)),
    {
        st.calm_tiles.push((tiles[k], round));
        assert(tiles@.subrange(0, k + 1).map_values(|t: u8| (t, round))
            =~= tiles@.subrange(0, k as int).map_values(|t: u8| (t, round)).push((tiles@[k as int], round)));
    }
    assert(tiles@.subrange(0, n as int) == tiles@);
}

fn apply_fade_delay(st: &mut GameState, tile: u8, consumed: bool)
    ensures
        consumed ==> spec_applied(*old(st), Event::FadeDelayConsumed { tile }, *final(st)),
        !consumed ==> spec_applied(*old(st), Event::FadeDelayed { tile }, *final(st)),
{
    if consumed {
        match tile_index(&st.fade_delayed, tile) {
            Some(i) => {
                st.fade_delayed.swap_remove(i);
            },
            None => {},
        }
    } else if !contains_tile(&st.fade_delayed, tile) {
        st.fade_delayed.push(tile);
    }
}

fn apply_bond_broken(st: &mut GameState, card: CardId)
    ensures
        spec_applied(*old(st), Event::BondBroken { card }, *final(st)),
{
    let mut kept: Vec<Bond> = Vec::new();
    let n = st.bonds.len();
    for k in 0..n
        invariant
            n == st.bonds@.len(),
            kept@ == keep_bonds(st.bonds@.subrange(0, k as int), card),
    {
        assert(st.bonds@.subrange(0, k + 1).drop_last() == st.bonds@.subrange(0, k as int));
        let b = st.bonds[k];
        if b.card != card {
            kept.push(b);
        }
    }
    assert(st.bonds@.subrange(0, n as int) == st.bonds@);
    st.bonds = kept;
}

// ---------------------------------------------------------------------------
// Event groups
// ---------------------------------------------------------------------------

fn apply_move(st: &mut GameState, ev: &Event)
    requires
        event_ok(*old(st), *ev),
        ev is SpiritPushed || ev is SpiritMoved || ev is SpiritsSwapped,
    ensures
        spec_applied(*old(st), *ev, *final(st)),
{
    let ghost b0 = st.board@;
    match *ev {
        Event::SpiritPushed { from, to } => {
            let s = swap_spirit(st, from, None);
            swap_spirit(st, to, s);
            assert(st.board@ =~= moved(b0, from, to));
        },
        Event::SpiritMoved { from, to } => {
            let s = swap_spirit(st, from, None);
            swap_spirit(st, to, s);
            st.moved_this_turn.push(to);
            assert(st.board@ =~= moved(b0, from, to));
        },
        Event::SpiritsSwapped { a, b } => {
            let sa = swap_spirit(st, a, None);
            let sb = swap_spirit(st, b, None);
            swap_spirit(st, a, sb);
            swap_spirit(st, b, sa);
            assert(st.board@ =~= swapped(b0, a, b));
        },
        _ => {},
    }
}

fn apply_keyword(st: &mut GameState, tile: u8, keyword: Keyword, until_round: u8)
    requires
        event_ok(*old(st), Event::KeywordGranted { tile, keyword, until_round }),
    ensures
        spec_applied(*old(st), Event::KeywordGranted { tile, keyword, until_round }, *final(st)),
{
    let mut t = take_tile(st, tile as usize);
    match t.spirit.take() {
        Some(sp) => {
            let mut sp = sp;
            sp.kw_grants.push((keyword, until_round));
            t.spirit = Some(sp);
        },
        None => {},
    }
    give_tile(st, tile as usize, t);
    assert(st.board@[tile as int] == t);
}

fn apply_tile(st: &mut GameState, ev: &Event)
    requires
        event_ok(*old(st), *ev),
        ev is FabricationRevealed || ev is FabricationSpent || ev is TileFaded,
    ensures
        spec_applied(*old(st), *ev, *final(st)),
{
    let ghost b0 = st.board@;
    match *ev {
        Event::FabricationRevealed { tile } => {
            let mut t = take_tile(st, tile as usize);
            match t.terrain {
                Some(tr) => {
                    t.terrain = Some(Terrain { face_down: false, ..tr });
                },
                None => {},
            }
            give_tile(st, tile as usize, t);
            assert(st.board@ =~= b0.update(tile as int, t));
        },
        Event::FabricationSpent { tile } => {
            let mut t = take_tile(st, tile as usize);
            t.terrain = None;
            give_tile(st, tile as usize, t);
            assert(st.board@ =~= b0.update(tile as int, t));
        },
        Event::TileFaded { tile } => {
            let mut t = take_tile(st, tile as usize);
            t.faded = true;
            give_tile(st, tile as usize, t);
            assert(st.board@ =~= b0.update(tile as int, t));
        },
        _ => {},
    }
}

fn set_terrain(st: &mut GameState, tile: u8, terrain: Terrain)
    requires
        (tile as int) < old(st).board@.len(),
    ensures
        board_becomes(*old(st), *final(st), old(st).board@.update(tile as int, TileState {
            terrain: Some(terrain),
            ..old(st).board@[tile as int]
        })),
{
    let ghost b0 = st.board@;
    let mut t = take_tile(st, tile as usize);
    t.terrain = Some(terrain);
    give_tile(st, tile as usize, t);
    assert(st.board@ =~= b0.update(tile as int, t));
}

fn play_spirit(st: &mut GameState, seat: Seat, card: CardId, tile: u8, attack: i16, defense: i16, hp: i16, face_down: bool)
    requires
        event_ok(*old(st), Event::SpiritPlayed { seat, card, tile, attack, defense, hp, face_down }),
    ensures
        spec_applied(*old(st), Event::SpiritPlayed { seat, card, tile, attack, defense, hp, face_down }, *final(st)),
{
    let ghost s0 = *st;
    let s = slot_for_exec(st, seat);
    let placed = if st.is_2v2() { Some(s) } else { None };
    step_slot(st, s, PlayerOp::Play(card));
    let ghost mid = *st;
    assert(mid.board == s0.board && mid.moved_this_turn == s0.moved_this_turn) by {
        match s {
            SeatSlot::A1 => {},
            SeatSlot::B1 => {},
            SeatSlot::A2 => {},
            SeatSlot::B2 => {},
        }
    }
    mark_first_placement_exec(st, seat);
    if !face_down {
        st.last_played_spirit = match seat {
            Seat::A => [Some(card), st.last_played_spirit[1]],
            Seat::B => [st.last_played_spirit[0], Some(card)],
        };
    }
    let ghost x = *st;
    assert(x == GameState {
        last_played_spirit: if face_down { mark_first_placement(mid, seat).last_played_spirit }
            else { seat_set(mark_first_placement(mid, seat).last_played_spirit, seat, Some(card)) },
        ..mark_first_placement(mid, seat)
    });
    st.moved_this_turn.push(tile);
    arrive(st, tile, card, seat, attack, defense, hp, hp, face_down, false, placed, None);
    assert(card_played(s0, mid, seat, card));
    assert(spirit_played(s0, *st, seat, card, tile, attack, defense, hp, face_down));
}

/// The card-from-hand events that stand something on the board or bind it.
fn apply_card_play(st: &mut GameState, ev: &Event)
    requires
        event_ok(*old(st), *ev),
        ev is SpiritPlayed || ev is BondAttached || ev is LandmarkPlaced || ev is FabricationSet
            || ev is SpiritEvolved || ev is SpiritDevolved,
    ensures
        spec_applied(*old(st), *ev, *final(st)),
{
    let ghost s0 = *st;
    match *ev {
        Event::SpiritPlayed { seat, card, tile, attack, defense, hp, face_down } => {
            play_spirit(st, seat, card, tile, attack, defense, hp, face_down);
        },
        Event::BondAttached { seat, card, tile_a, tile_b } => {
            let s = slot_for_exec(st, seat);
            step_slot(st, s, PlayerOp::Play(card));
            let ghost mid = *st;
            st.bonds.push(Bond { card, owner: seat, tile_a, tile_b });
            assert(card_played(s0, mid, seat, card));
        },
        Event::LandmarkPlaced { seat, card, tile } => {
            let s = slot_for_exec(st, seat);
            step_slot(st, s, PlayerOp::Play(card));
            let ghost mid = *st;
            set_terrain(st, tile, Terrain { card, owner: seat, kind: TerrainKind::Landmark, face_down: false });
            assert(card_played(s0, mid, seat, card));
        },
        Event::FabricationSet { seat, card, tile } => {
            let s = slot_for_exec(st, seat);
            step_slot(st, s, PlayerOp::Play(card));
            let ghost mid = *st;
            set_terrain(st, tile, Terrain { card, owner: seat, kind: TerrainKind::Fabrication, face_down: true });
            assert(card_played(s0, mid, seat, card));
        },
        Event::SpiritEvolved { seat, tile, to, .. } => {
            let s = slot_for_exec(st, seat);
            step_slot(st, s, PlayerOp::Play(to));
            let ghost mid = *st;
            edit_spirit(st, tile, ev);
            assert(card_played(s0, mid, seat, to));
        },
        Event::SpiritDevolved { seat, tile, to, .. } => {
            let s = slot_for_exec(st, seat);
            step_slot(st, s, PlayerOp::Play(to));
            let ghost mid = *st;
            st.moved_this_turn.push(tile);
            edit_spirit(st, tile, ev);
            assert(card_played(s0, mid, seat, to));
        },
        _ => {},
    }
}

fn apply_overwrote(
    st: &mut GameState,
    seat: Seat,
    card: CardId,
    tile: u8,
    success: bool,
    damage_to_defender: i16,
    defender_echo: bool,
    attack: i16,
    defense: i16,
    attacker_hp_left: i16,
    attacker_hp_max: i16,
)
    requires
        event_ok(*old(st), Event::Overwrote {
            seat, card, tile, success, damage_to_defender, defender_echo, attack, defense, attacker_hp_left, attacker_hp_max,
        }),
    ensures
        spec_applied(*old(st), Event::Overwrote {
            seat, card, tile, success, damage_to_defender, defender_echo, attack, defense, attacker_hp_left, attacker_hp_max,
        }, *final(st)),
{
    let ghost s0 = *st;
    step_slot(st, first_slot_exec(seat), PlayerOp::Play(card));
    let ghost mid = *st;
    if success {
        let fade = if attacker_hp_left <= 0 {
            Some((seat.other(), fade_deadline_round(st.round, st.active, seat)))
        } else {
            None
        };
        lay_mark(st, tile, seat);
        let ghost m2 = *st;
        mark_first_placement_exec(st, seat);
        st.moved_this_turn.push(tile);
        arrive(st, tile, card, seat, attack, defense, attacker_hp_left, attacker_hp_max, false, false, None, fade);
        assert(slot_step(s0, mid, first_slot(seat), PlayerOp::Play(card)) && marked(mid, m2, tile, seat));
    } else {
        mark_first_placement_exec(st, seat);
        hurt_spirit(st, tile, damage_to_defender);
        assert(slot_step(s0, mid, first_slot(seat), PlayerOp::Play(card)));
    }
}

fn apply_overwrote_stray(
    st: &mut GameState,
    seat: Seat,
    card: CardId,
    tile: u8,
    success: bool,
    damage_to_stray: i16,
    attack: i16,
    defense: i16,
    attacker_hp_left: i16,
    attacker_hp_max: i16,
)
    requires
        event_ok(*old(st), Event::OverwroteStray {
            seat, card, tile, success, damage_to_stray, attack, defense, attacker_hp_left, attacker_hp_max,
        }),
    ensures
        spec_applied(*old(st), Event::OverwroteStray {
            seat, card, tile, success, damage_to_stray, attack, defense, attacker_hp_left, attacker_hp_max,
        }, *final(st)),
{
    let ghost s0 = *st;
    let placed = if st.is_2v2() { Some(st.active_slot) } else { None };
    let s = slot_for_exec(st, seat);
    step_slot(st, s, PlayerOp::Play(card));
    let ghost mid = *st;
    if success {
        let fade = if attacker_hp_left <= 0 {
            Some((seat.other(), fade_deadline_round(st.round, st.active, seat)))
        } else {
            None
        };
        lay_mark(st, tile, seat);
        let ghost m2 = *st;
        st.stray = None;
        mark_first_placement_exec(st, seat);
        st.moved_this_turn.push(tile);
        arrive(st, tile, card, seat, attack, defense, attacker_hp_left, attacker_hp_max, false, false, placed, fade);
        assert(card_played(s0, mid, seat, card) && marked(mid, m2, tile, seat));
    } else {
        st.stray = match st.stray {
            Some(s) => Some(Stray { hp: s.hp - damage_to_stray, ..s }),
            None => None,
        };
        mark_first_placement_exec(st, seat);
        assert(card_played(s0, mid, seat, card));
    }
}

fn apply_bounce(st: &mut GameState, tile: u8)
    requires
        on_board(*old(st), tile),
    ensures
        spec_applied(*old(st), Event::SpiritBounced { tile }, *final(st)),
{
    let ghost s0 = *st;
    let info = match &st.board[tile as usize].spirit {
        Some(sp) => Some((sp.is_token, sp.owner, sp.card)),
        None => None,
    };
    match info {
        Some((token, owner, card)) => {
            if !token {
                let s = first_slot_exec(owner);
                step_slot(st, s, PlayerOp::TakeBack(card));
                let ghost mid = *st;
                assert(mid.board == s0.board) by {
                    match s {
                        SeatSlot::A1 => {},
                        SeatSlot::B1 => {},
                        SeatSlot::A2 => {},
                        SeatSlot::B2 => {},
                    }
                }
                swap_spirit(st, tile, None);
                assert(slot_step(s0, mid, first_slot(owner), PlayerOp::TakeBack(card)));
            } else {
                swap_spirit(st, tile, None);
            }
        },
        None => {},
    }
}

fn apply_dissolved(st: &mut GameState, tile: u8, impression: Seat)
    requires
        event_ok(*old(st), Event::SpiritDissolved { tile, impression }),
    ensures
        spec_applied(*old(st), Event::SpiritDissolved { tile, impression }, *final(st)),
{
    match &st.board[tile as usize].spirit {
        Some(sp) => {
            let (owner, card, token) = (sp.owner, sp.card, sp.is_token);
            st.dissolved_this_turn = match owner {
                Seat::A => [st.dissolved_this_turn[0] + 1, st.dissolved_this_turn[1]],
                Seat::B => [st.dissolved_this_turn[0], st.dissolved_this_turn[1] + 1],
            };
            if !token {
                st.dissolved.push((owner, card));
            }
        },
        None => {},
    }
    swap_spirit(st, tile, None);
    let ghost mid = *st;
    lay_mark(st, tile, impression);
    assert(marked(mid, *st, tile, impression));
}

fn apply_shift(st: &mut GameState, from: u8, to: u8, eats_impression: bool)
    requires
        event_ok(*old(st), Event::UnwrittenShifted { from, to, eats_impression }),
    ensures
        spec_applied(*old(st), Event::UnwrittenShifted { from, to, eats_impression }, *final(st)),
{
    let ghost b0 = st.board@;
    if eats_impression {
        st.solace_erasures = st.solace_erasures.saturating_add(1);
        let ghost before = *st;
        set_impressions(st, to, None);
        let ghost mid = *st;
        assert(unwritten(before, mid, to));
        assert(mid.board@[from as int].spirit == b0[from as int].spirit);
        let s = swap_spirit(st, from, None);
        swap_spirit(st, to, s);
    } else {
        let s = swap_spirit(st, from, None);
        swap_spirit(st, to, s);
        assert(st.board@ =~= moved(b0, from, to));
    }
}

fn apply_contracted(st: &mut GameState, faded_tiles: &Vec<u8>)
    requires
        event_ok(*old(st), Event::MemoryContracted { faded_tiles: *faded_tiles }),
    ensures
        spec_applied(*old(st), Event::MemoryContracted { faded_tiles: *faded_tiles }, *final(st)),
{
    let ghost b0 = st.board@;
    st.contracted = true;
    let ghost s1 = *st;
    let n = faded_tiles.len();
    for k in 0..n
        invariant
            n == faded_tiles@.len(),
            b0 == old(st).board@,
            s1 == (GameState { contracted: true, ..*old(st) }),
            *st == (GameState { board: st.board, ..s1 }),
            st.board@.len() == b0.len(),
            tiles_on_board(*old(st), faded_tiles@),
            forall|j: int| 0 <= j < b0.len() ==> #[trigger] st.board@[j]
                == if lists_tile(faded_tiles@.subrange(0, k as int), j) { darkened(b0[j]) } else { b0[j] },
    {
        let t = faded_tiles[k];
        let mut tl = take_tile(st, t as usize);
        tl.faded = true;
        tl.spirit = None;
        tl.terrain = None;
        give_tile(st, t as usize, tl);
        assert forall|j: int| 0 <= j < b0.len() implies #[trigger] st.board@[j]
            == if lists_tile(faded_tiles@.subrange(0, k + 1), j) { darkened(b0[j]) } else { b0[j] } by {
            let sub = faded_tiles@.subrange(0, k as int);
            let sub1 = faded_tiles@.subrange(0, k + 1);
            if j == t as int {
                assert(sub1[k as int] == t);
                assert(lists_tile(sub1, j));
            } else {
                if lists_tile(sub1, j) {
                    let w = choose|w: int| 0 <= w < sub1.len() && sub1[w] as int == j;
                    assert(sub1[k as int] == t);
                    assert(w < k);
                    assert(sub[w] == sub1[w]);
                    assert(lists_tile(sub, j));
                }
                if lists_tile(sub, j) {
                    let w = choose|w: int| 0 <= w < sub.len() && sub[w] as int == j;
                    assert(sub1[w] == sub[w]);
                    assert(lists_tile(sub1, j));
                }
            }
        }
    }
    assert(faded_tiles@.subrange(0, n as int) == faded_tiles@);
}

fn apply_round(st: &mut GameState, round: u8)
    ensures
        spec_applied(*old(st), Event::RoundAdvanced { round }, *final(st)),
{
    keep_lasting(&mut st.temp_mods, round);
    keep_lasting(&mut st.temp_reach, round);
    keep_lasting(&mut st.temp_retaliation, round);
    keep_lasting(&mut st.temp_restrict, round);
    let t0 = st.card_tax[0];
    let t1 = st.card_tax[1];
    st.card_tax = [if t0.1 < round { (0, 0) } else { t0 }, if t1.1 < round { (0, 0) } else { t1 }];
    st.round = round;
    st.unwriting_told_this_round = false;
    let ghost s1 = *st;
    let ghost b0 = st.board@;
    let n = st.board.len();
    for j in 0..n
        invariant
            n == b0.len(),
            *st == (GameState { board: st.board, ..s1 }),
            st.board@.len() == b0.len(),
            forall|k: int| 0 <= k < j ==> tile_at_round(b0[k], #[trigger] st.board@[k], round),
            forall|k: int| j <= k < b0.len() ==> #[trigger] st.board@[k] == b0[k],
    {
        let mut t = take_tile(st, j);
        match t.spirit.take() {
            Some(sp) => {
                let mut sp = sp;
                sp.intercepted_this_round = false;
                keep_lasting(&mut sp.kw_grants, round);
                sp.traits_stripped_until = match sp.traits_stripped_until {
                    Some(u) => if u < round { None } else { Some(u) },
                    None => None,
                };
                t.spirit = Some(sp);
            },
            None => {},
        }
        give_tile(st, j, t);
        assert(tile_at_round(b0[j as int], st.board@[j as int], round));
    }
}

fn apply_turn_end(st: &mut GameState, seat: Seat)
    ensures
        spec_applied(*old(st), Event::TurnEnded { seat }, *final(st)),
{
    let ghost s0 = *st;
    step_slot(st, first_slot_exec(seat), PlayerOp::TurnOver);
    let ghost mid = *st;
    match seat {
        Seat::A => {
            st.ignore_imprint_this_turn = [false, st.ignore_imprint_this_turn[1]];
            st.next_arrival_atk = [0, st.next_arrival_atk[1]];
            st.next_arrival_2nd_engage = [None, st.next_arrival_2nd_engage[1]];
        },
        Seat::B => {
            st.ignore_imprint_this_turn = [st.ignore_imprint_this_turn[0], false];
            st.next_arrival_atk = [st.next_arrival_atk[0], 0];
            st.next_arrival_2nd_engage = [st.next_arrival_2nd_engage[0], None];
        },
    }
    if st.is_2v2() {
        st.active_slot = st.active_slot.next_2v2();
        st.active = st.active_slot.team();
    } else {
        st.active = seat.other();
        st.active_slot = first_slot_exec(st.active);
    }
    st.phase = Phase::Acting;
    st.moved_this_turn = Vec::new();
    st.dissolved_this_turn = match st.active {
        Seat::A => [0, st.dissolved_this_turn[1]],
        Seat::B => [st.dissolved_this_turn[0], 0],
    };
    assert(slot_step(s0, mid, first_slot(seat), PlayerOp::TurnOver));
}

// ---------------------------------------------------------------------------
// Applying one event
// ---------------------------------------------------------------------------

#[verifier::rlimit(40)]
fn apply_players(st: &mut GameState, ev: &Event)
    requires
        event_ok(*old(st), *ev),
        ev is MatchStarted
            || ev is AnimaGained
            || ev is AnimaSpent
            || ev is CardDrawn
            || ev is ReleaseRequired
            || ev is CardReleased
            || ev is Glimpsed
            || ev is RitualCast
            || ev is UnwritingTold
            || ev is DeckMilled
            || ev is FlowAnimaPaid
            || ev is Mulliganed
            || ev is SpiritBounced,
    ensures
        spec_applied(*old(st), *ev, *final(st)),
{
    let ghost s0 = *st;
    match ev {
        Event::MatchStarted => {},
        Event::AnimaGained { seat, amount, .. } => {
            let s = slot_for_exec(st, *seat);
            step_slot(st, s, PlayerOp::Gain(*amount));
        },
        Event::AnimaSpent { seat, amount } => {
            let s = slot_for_exec(st, *seat);
            step_slot(st, s, PlayerOp::Spend(*amount));
        },
        Event::CardDrawn { seat } => {
            let s = slot_for_exec(st, *seat);
            step_slot(st, s, PlayerOp::Draw);
        },
        Event::ReleaseRequired { seat } => {
            if st.phase == Phase::Acting {
                st.phase = Phase::PendingRelease { seat: *seat };
            }
        },
        Event::CardReleased { seat, hand_index } => {
            let s = slot_for_exec(st, *seat);
            step_slot(st, s, PlayerOp::Release(*hand_index));
            let ghost mid = *st;
            match st.phase {
                Phase::PendingRelease { .. } => {
                    st.phase = Phase::Acting;
                },
                _ => {},
            }
            assert(slot_step(s0, mid, slot_for(s0, *seat), PlayerOp::Release(*hand_index)));
        },
        Event::Glimpsed { seat, .. } => {
            let s = slot_for_exec(st, *seat);
            step_slot(st, s, PlayerOp::Glimpse);
        },
        Event::RitualCast { seat, card } => {
            let s = slot_for_exec(st, *seat);
            step_slot(st, s, PlayerOp::Play(*card));
        },
        Event::UnwritingTold { seat, card } => {
            st.unwriting_told_this_round = true;
            let s = slot_for_exec(st, *seat);
            step_slot(st, s, PlayerOp::Play(*card));
        },
        Event::DeckMilled { seat } => {
            step_slot(st, first_slot_exec(*seat), PlayerOp::Mill);
        },
        Event::FlowAnimaPaid { seat } => {
            let owed = match seat {
                Seat::A => st.pending_flow_anima[0],
                Seat::B => st.pending_flow_anima[1],
            };
            step_slot(st, first_slot_exec(*seat), PlayerOp::Gain(owed));
            let ghost mid = *st;
            st.pending_flow_anima = match seat {
                Seat::A => [0, st.pending_flow_anima[1]],
                Seat::B => [st.pending_flow_anima[0], 0],
            };
            assert(slot_step(s0, mid, first_slot(*seat), PlayerOp::Gain(seat_get(s0.pending_flow_anima, *seat))));
        },
        Event::Mulliganed { seat, hand, deck } => {
            apply_mulligan(st, *seat, hand, deck);
        },
        Event::SpiritBounced { tile } => {
            apply_bounce(st, *tile);
        },
        _ => {},
    }
}

#[verifier::rlimit(40)]
fn apply_arrivals(st: &mut GameState, ev: &Event)
    requires
        event_ok(*old(st), *ev),
        ev is SpiritPlayed
            || ev is BondAttached
            || ev is LandmarkPlaced
            || ev is FabricationSet
            || ev is SpiritEvolved
            || ev is SpiritDevolved
            || ev is Overwrote
            || ev is OverwroteStray
            || ev is UnwrittenManifested
            || ev is SpiritManifested
            || ev is StrayBefriended,
    ensures
        spec_applied(*old(st), *ev, *final(st)),
{
    let ghost s0 = *st;
    match ev {
        Event::SpiritPlayed { .. } | Event::BondAttached { .. } | Event::LandmarkPlaced { .. } | Event::FabricationSet { .. }
        | Event::SpiritEvolved { .. } | Event::SpiritDevolved { .. } => {
            apply_card_play(st, ev);
        },
        Event::Overwrote {
            seat, card, tile, success, damage_to_defender, defender_echo, attack, defense, attacker_hp_left, attacker_hp_max,
        } => {
            apply_overwrote(
                st, *seat, *card, *tile, *success, *damage_to_defender, *defender_echo, *attack, *defense, *attacker_hp_left,
                *attacker_hp_max,
            );
        },
        Event::OverwroteStray {
            seat, card, tile, success, damage_to_stray, attack, defense, attacker_hp_left, attacker_hp_max,
        } => {
            apply_overwrote_stray(
                st, *seat, *card, *tile, *success, *damage_to_stray, *attack, *defense, *attacker_hp_left, *attacker_hp_max,
            );
        },
        Event::UnwrittenManifested { card, tile, attack, defense, hp } => {
            st.moved_this_turn.push(*tile);
            arrive(st, *tile, *card, Seat::B, *attack, *defense, *hp, *hp, false, true, None, None);
        },
        Event::SpiritManifested { seat, card, tile, attack, defense, hp } => {
            st.moved_this_turn.push(*tile);
            arrive(st, *tile, *card, *seat, *attack, *defense, *hp, *hp, false, true, None, None);
        },
        Event::StrayBefriended { seat, card, tile, attack, defense, hp } => {
            arrive(st, *tile, *card, *seat, *attack, *defense, *hp, *hp, false, false, None, None);
            st.stray = None;
        },
        _ => {},
    }
}

#[verifier::rlimit(40)]
fn apply_board(st: &mut GameState, ev: &Event)
    requires
        event_ok(*old(st), *ev),
        ev is SpiritPushed
            || ev is SpiritMoved
            || ev is SpiritsSwapped
            || ev is SpiritReleased
            || ev is SpiritReclaimed
            || ev is TokenDissolved
            || ev is Struck
            || ev is DamageRedirected
            || ev is KeywordGranted
            || ev is FabricationRevealed
            || ev is FabricationSpent
            || ev is TileFaded
            || ev is ImpressionUnwritten
            || ev is ImpressionForgotten
            || ev is UnwrittenShifted
            || ev is SpiritDissolved
            || ev is StrayBanished
            || ev is MemoryContracted
            || ev is SpiritRevealed
            || ev is OrdersSet
            || ev is SpiritCopiedStats
            || ev is ReachCopied
            || ev is ReplacementSurvived
            || ev is EffectRestored
            || ev is EffectDamaged
            || ev is EngageRestricted
            || ev is ThroughlineCompleted
            || ev is EffectStat
            || ev is ControlTaken
            || ev is TraitsStripped
            || ev is TraitsStrippedUntil
            || ev is SpiritBecameFading,
    ensures
        spec_applied(*old(st), *ev, *final(st)),
{
    let ghost s0 = *st;
    match ev {
        Event::SpiritPushed { .. } | Event::SpiritMoved { .. } | Event::SpiritsSwapped { .. } => {
            apply_move(st, ev);
        },
        Event::SpiritReleased { tile } | Event::SpiritReclaimed { tile } | Event::TokenDissolved { tile } => {
            swap_spirit(st, *tile, None);
        },
        Event::Struck { from_tile, to_tile, damage, kind, .. } => {
            hurt_spirit(st, *to_tile, *damage);
            if *kind == StrikeKind::Interception {
                intercept_spirit(st, *from_tile);
            }
        },
        Event::DamageRedirected { from_tile, to_tile, amount, consume } => {
            hurt_spirit(st, *to_tile, *amount);
            if *consume {
                latch_spirit(st, *from_tile);
            }
        },
        Event::KeywordGranted { tile, keyword, until_round } => {
            apply_keyword(st, *tile, *keyword, *until_round);
        },
        Event::FabricationRevealed { .. } | Event::FabricationSpent { .. } | Event::TileFaded { .. } => {
            apply_tile(st, ev);
        },
        Event::ImpressionUnwritten { tile } => {
            set_impressions(st, *tile, None);
        },
        Event::ImpressionForgotten { tile } => {
            set_impressions(st, *tile, None);
            let ghost mid = *st;
            st.solace_erasures = st.solace_erasures.saturating_add(1);
            assert(unwritten(s0, mid, *tile));
        },
        Event::UnwrittenShifted { from, to, eats_impression } => {
            apply_shift(st, *from, *to, *eats_impression);
        },
        Event::SpiritDissolved { tile, impression } => {
            apply_dissolved(st, *tile, *impression);
        },
        Event::StrayBanished { tile, impression } => {
            lay_mark(st, *tile, *impression);
            let ghost mid = *st;
            st.stray = None;
            assert(marked(s0, mid, *tile, *impression));
        },
        Event::MemoryContracted { faded_tiles } => {
            apply_contracted(st, faded_tiles);
        },
        Event::SpiritRevealed { tile } | Event::OrdersSet { tile, .. } | Event::SpiritCopiedStats { tile, .. }
        | Event::ReachCopied { tile, .. } | Event::ReplacementSurvived { tile, .. } | Event::EffectRestored { tile, .. }
        | Event::EffectDamaged { tile, .. } | Event::EngageRestricted { tile, .. } | Event::ThroughlineCompleted { tile, .. }
        | Event::EffectStat { tile, .. } | Event::ControlTaken { tile, .. } | Event::TraitsStripped { tile }
        | Event::TraitsStrippedUntil { tile, .. } | Event::SpiritBecameFading { tile, .. } => {
            edit_spirit(st, *tile, ev);
        },
        _ => {},
    }
}

#[verifier::rlimit(40)]
fn apply_records(st: &mut GameState, ev: &Event)
    requires
        event_ok(*old(st), *ev),
        ev is EffectTempStat
            || ev is ReachBuffed
            || ev is Restricted
            || ev is RetaliationBuffed
            || ev is BondBroken
            || ev is TilesGoneCalm
            || ev is FadeDelayed
            || ev is FadeDelayConsumed
            || ev is FabricationPeeked
            || ev is EvolveImprintFreed
            || ev is CardTaxed
            || ev is CardTaxSpent
            || ev is FlowAnimaScheduled
            || ev is NextArrivalBuffed
            || ev is NextArrivalConsumed
            || ev is NextArrivalSecondEngage
            || ev is NextArrivalSecondConsumed
            || ev is RitualDiscountGranted
            || ev is RitualDiscountConsumed
            || ev is ImpressionsStoppedScoring
            || ev is LandmarkSilenced
            || ev is StrayTelegraphed
            || ev is StrayTelegraphCleared
            || ev is StraySurfaced
            || ev is StrayStruck
            || ev is StrayUnveiled
            || ev is StrayCourted
            || ev is StrayDenied
            || ev is RitualExtraTargetsArmed
            || ev is RitualExtraTargetsConsumed
            || ev is MatchEnded
            || ev is MatchAbandoned
            || ev is TurnEnded
            || ev is RoundAdvanced,
    ensures
        spec_applied(*old(st), *ev, *final(st)),
{
    let ghost s0 = *st;
    match ev {
        Event::EffectTempStat { tile, attack, defense, until_round } => {
            st.temp_mods.push(TempMod { tile: *tile, attack: *attack, defense: *defense, until_round: *until_round });
        },
        Event::ReachBuffed { seat, forward, all_directions, until_round, targeting_only, tile } => {
            st.temp_reach.push(TempReach {
                seat: *seat,
                tile: *tile,
                forward: *forward,
                all_directions: *all_directions,
                targeting_only: *targeting_only,
                until_round: *until_round,
            });
        },
        Event::Restricted { seat, restriction, until_round } => {
            st.temp_restrict.push(TempRestrict { seat: *seat, restriction: *restriction, until_round: *until_round });
        },
        Event::RetaliationBuffed { tile, delta, until_round } => {
            st.temp_retaliation.push((*tile, *delta, *until_round));
        },
        Event::BondBroken { card } => {
            apply_bond_broken(st, *card);
        },
        Event::TilesGoneCalm { tiles, round } => {
            apply_calm(st, tiles, *round);
        },
        Event::FadeDelayed { tile } => {
            apply_fade_delay(st, *tile, false);
        },
        Event::FadeDelayConsumed { tile } => {
            apply_fade_delay(st, *tile, true);
        },
        Event::FabricationPeeked { seat, tile, card } => {
            apply_peek(st, *seat, *tile, *card);
        },
        Event::EvolveImprintFreed { seat } => {
            st.ignore_imprint_this_turn = match seat {
                Seat::A => [true, st.ignore_imprint_this_turn[1]],
                Seat::B => [st.ignore_imprint_this_turn[0], true],
            };
        },
        Event::CardTaxed { seat, amount, until_round } => {
            st.card_tax = match seat {
                Seat::A => [(*amount, *until_round), st.card_tax[1]],
                Seat::B => [st.card_tax[0], (*amount, *until_round)],
            };
        },
        Event::CardTaxSpent { seat } => {
            st.card_tax = match seat {
                Seat::A => [(0, 0), st.card_tax[1]],
                Seat::B => [st.card_tax[0], (0, 0)],
            };
        },
        Event::FlowAnimaScheduled { seat, amount } => {
            st.pending_flow_anima = match seat {
                Seat::A => [st.pending_flow_anima[0].saturating_add(*amount), st.pending_flow_anima[1]],
                Seat::B => [st.pending_flow_anima[0], st.pending_flow_anima[1].saturating_add(*amount)],
            };
        },
        Event::NextArrivalBuffed { seat, attack } => {
            st.next_arrival_atk = match seat {
                Seat::A => [st.next_arrival_atk[0] + *attack, st.next_arrival_atk[1]],
                Seat::B => [st.next_arrival_atk[0], st.next_arrival_atk[1] + *attack],
            };
        },
        Event::NextArrivalConsumed { seat } => {
            st.next_arrival_atk = match seat {
                Seat::A => [0, st.next_arrival_atk[1]],
                Seat::B => [st.next_arrival_atk[0], 0],
            };
        },
        Event::NextArrivalSecondEngage { seat, penalty } => {
            st.next_arrival_2nd_engage = match seat {
                Seat::A => [Some(*penalty), st.next_arrival_2nd_engage[1]],
                Seat::B => [st.next_arrival_2nd_engage[0], Some(*penalty)],
            };
        },
        Event::NextArrivalSecondConsumed { seat } => {
            st.next_arrival_2nd_engage = match seat {
                Seat::A => [None, st.next_arrival_2nd_engage[1]],
                Seat::B => [st.next_arrival_2nd_engage[0], None],
            };
        },
        Event::RitualDiscountGranted { seat, amount } => {
            st.next_ritual_discount = match seat {
                Seat::A => [st.next_ritual_discount[0] + *amount, st.next_ritual_discount[1]],
                Seat::B => [st.next_ritual_discount[0], st.next_ritual_discount[1] + *amount],
            };
        },
        Event::RitualDiscountConsumed { seat } => {
            st.next_ritual_discount = match seat {
                Seat::A => [0, st.next_ritual_discount[1]],
                Seat::B => [st.next_ritual_discount[0], 0],
            };
        },
        Event::ImpressionsStoppedScoring { round } => {
            st.impressions_dormant_round = Some(*round);
        },
        Event::LandmarkSilenced { tile, round } => {
            st.silenced_terrain = Some((*tile, *round));
        },
        Event::StrayTelegraphed { tile, surface_round, midnight } => {
            st.stray_telegraph = Some(StrayTelegraph { tile: *tile, surface_round: *surface_round, midnight: *midnight });
        },
        Event::StrayTelegraphCleared => {
            st.stray_telegraph = None;
        },
        Event::StraySurfaced { card, tile, temperament, veiled, hp } => {
            st.stray = Some(Stray {
                card: *card,
                tile: *tile,
                temperament: *temperament,
                veiled: *veiled,
                courtship: 0,
                courted_by: None,
                hp: *hp,
                hp_max: *hp,
            });
            st.stray_telegraph = None;
        },
        Event::StrayStruck { hp, .. } => {
            st.stray = match st.stray {
                Some(s) => Some(Stray { hp: *hp, ..s }),
                None => None,
            };
        },
        Event::StrayUnveiled => {
            st.stray = match st.stray {
                Some(s) => Some(Stray { veiled: false, ..s }),
                None => None,
            };
        },
        Event::StrayCourted { seat, courtship } => {
            st.stray = match st.stray {
                Some(s) => Some(Stray { courtship: *courtship, courted_by: Some(*seat), ..s }),
                None => None,
            };
        },
        Event::StrayDenied { .. } => {
            st.stray = None;
        },
        Event::RitualExtraTargetsArmed { count } => {
            st.ritual_extra_targets = *count;
        },
        Event::RitualExtraTargetsConsumed => {
            st.ritual_extra_targets = 0;
        },
        Event::MatchEnded { result, score_a, score_b } => {
            st.phase = Phase::Finished { result: *result, score_a: *score_a, score_b: *score_b };
        },
        Event::MatchAbandoned { seat, score_a, score_b } => {
            st.phase = Phase::Finished { result: MatchResult::Win(seat.other()), score_a: *score_a, score_b: *score_b };
        },
        Event::TurnEnded { seat } => {
            apply_turn_end(st, *seat);
        },
        Event::RoundAdvanced { round } => {
            apply_round(st, *round);
        },

        _ => {},
    }
}

/// Apply one event: a mechanical change of exactly the part of the state it names.
pub fn apply_event(st: &mut GameState, ev: &Event)
    requires
        event_ok(*old(st), *ev),
    ensures
        spec_applied(*old(st), *ev, *final(st)),
{
    match ev {
        Event::MatchStarted | Event::AnimaGained { .. } | Event::AnimaSpent { .. } | Event::CardDrawn { .. } | Event::ReleaseRequired { .. } | Event::CardReleased { .. } | Event::Glimpsed { .. } | Event::RitualCast { .. } | Event::UnwritingTold { .. } | Event::DeckMilled { .. } | Event::FlowAnimaPaid { .. } | Event::Mulliganed { .. } | Event::SpiritBounced { .. } => apply_players(st, ev),
        Event::SpiritPlayed { .. } | Event::BondAttached { .. } | Event::LandmarkPlaced { .. } | Event::FabricationSet { .. } | Event::SpiritEvolved { .. } | Event::SpiritDevolved { .. } | Event::Overwrote { .. } | Event::OverwroteStray { .. } | Event::UnwrittenManifested { .. } | Event::SpiritManifested { .. } | Event::StrayBefriended { .. } => apply_arrivals(st, ev),
        Event::SpiritPushed { .. } | Event::SpiritMoved { .. } | Event::SpiritsSwapped { .. } | Event::SpiritReleased { .. } | Event::SpiritReclaimed { .. } | Event::TokenDissolved { .. } | Event::Struck { .. } | Event::DamageRedirected { .. } | Event::KeywordGranted { .. } | Event::FabricationRevealed { .. } | Event::FabricationSpent { .. } | Event::TileFaded { .. } | Event::ImpressionUnwritten { .. } | Event::ImpressionForgotten { .. } | Event::UnwrittenShifted { .. } | Event::SpiritDissolved { .. } | Event::StrayBanished { .. } | Event::MemoryContracted { .. } | Event::SpiritRevealed { .. } | Event::OrdersSet { .. } | Event::SpiritCopiedStats { .. } | Event::ReachCopied { .. } | Event::ReplacementSurvived { .. } | Event::EffectRestored { .. } | Event::EffectDamaged { .. } | Event::EngageRestricted { .. } | Event::ThroughlineCompleted { .. } | Event::EffectStat { .. } | Event::ControlTaken { .. } | Event::TraitsStripped { .. } | Event::TraitsStrippedUntil { .. } | Event::SpiritBecameFading { .. } => apply_board(st, ev),
        Event::EffectTempStat { .. } | Event::ReachBuffed { .. } | Event::Restricted { .. } | Event::RetaliationBuffed { .. } | Event::BondBroken { .. } | Event::TilesGoneCalm { .. } | Event::FadeDelayed { .. } | Event::FadeDelayConsumed { .. } | Event::FabricationPeeked { .. } | Event::EvolveImprintFreed { .. } | Event::CardTaxed { .. } | Event::CardTaxSpent { .. } | Event::FlowAnimaScheduled { .. } | Event::NextArrivalBuffed { .. } | Event::NextArrivalConsumed { .. } | Event::NextArrivalSecondEngage { .. } | Event::NextArrivalSecondConsumed { .. } | Event::RitualDiscountGranted { .. } | Event::RitualDiscountConsumed { .. } | Event::ImpressionsStoppedScoring { .. } | Event::LandmarkSilenced { .. } | Event::StrayTelegraphed { .. } | Event::StrayTelegraphCleared | Event::StraySurfaced { .. } | Event::StrayStruck { .. } | Event::StrayUnveiled | Event::StrayCourted { .. } | Event::StrayDenied { .. } | Event::RitualExtraTargetsArmed { .. } | Event::RitualExtraTargetsConsumed | Event::MatchEnded { .. } | Event::MatchAbandoned { .. } | Event::TurnEnded { .. } | Event::RoundAdvanced { .. } => apply_records(st, ev),
    }
}

} // verus!
