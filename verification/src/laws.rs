//! The library's laws: what holds of every input, across the functions' contracts.
use vstd::prelude::*;

use crate::cards::{catalog_has, loose_bad_at, spec_count, spec_loose_bad_from, spec_loose_issue, DECK_SIZE};
use crate::combat::{spec_combat_stats, zero_stats};
use crate::effects::{Canon, Keyword, Restriction};
use crate::events::{
    event_ok, first_slot, keep_bonds, lasting, marked, on_board, player_step, sat_add, seat_get, slot_for, slot_player, spec_applied, Dated, Event,
    PlayerOp,
};
use crate::evolution::{evolutions_prefix, spec_legal_evolutions, spec_name_from};
use crate::projection::{spec_append_new, spec_oriented_w, spec_offset_tiles, spec_widen_oriented, spec_widen_prefix};
use crate::state::{GameState, MatchResult};
use crate::targeting::{drop_tile, effective_base, spec_reach_aura_delta, spec_targeting_reach};
use crate::types::{spec_tile_xy_w, spec_xy_tile_w, valid_width, CardDef, CardId, Faction, Reach, Seat, SeatSlot};

verus! {

// ---------------------------------------------------------------------------
// Deck legality
// ---------------------------------------------------------------------------

proof fn lemma_count_bound(deck: Seq<CardId>, cat: Seq<CardDef>, n: int, x: CardId)
    requires
        0 <= n <= deck.len(),
        forall|i: int| 0 <= i < n ==> !#[trigger] loose_bad_at(deck, cat, i),
    ensures
        spec_count(deck, x, n) <= 2,
    decreases n,
{
    if n > 0 {
        assert(!loose_bad_at(deck, cat, n - 1));
        if deck[n - 1] != x {
            lemma_count_bound(deck, cat, n - 1, x);
        }
    }
}

proof fn lemma_loose_clean_from(deck: Seq<CardId>, cat: Seq<CardDef>, k: int)
    requires
        0 <= k,
        spec_loose_bad_from(deck, cat, k) is None,
    ensures
        forall|i: int| k <= i < deck.len() ==> !#[trigger] loose_bad_at(deck, cat, i),
    decreases deck.len() - k,
{
    if k < deck.len() {
        lemma_loose_clean_from(deck, cat, k + 1);
    }
}

/// A deck passing the loose check holds exactly `DECK_SIZE` cards, every one of them in the
/// catalog, and no card more than twice.
pub proof fn law_legal_deck_shape(deck: Seq<CardId>, cat: Seq<CardDef>)
    requires
        spec_loose_issue(deck, cat) is None,
    ensures
        deck.len() == DECK_SIZE,
        forall|i: int| 0 <= i < deck.len() ==> catalog_has(cat, #[trigger] deck[i]),
        forall|x: CardId| spec_count(deck, x, deck.len() as int) <= 2,
{
    lemma_loose_clean_from(deck, cat, 0);
    assert forall|i: int| 0 <= i < deck.len() implies catalog_has(cat, #[trigger] deck[i]) by {
        assert(!loose_bad_at(deck, cat, i));
    }
    assert forall|x: CardId| spec_count(deck, x, deck.len() as int) <= 2 by {
        lemma_count_bound(deck, cat, deck.len() as int, x);
    }
}

// ---------------------------------------------------------------------------
// Reach
// ---------------------------------------------------------------------------

proof fn lemma_offset_not_self(x: int, y: int, dx: int, dy: int, f: int, w: int)
    requires
        2 <= w <= 16,
        0 <= x < w,
        0 <= x + dx < w,
        0 <= y + dy * f < w,
        f == 1 || f == -1,
        dx != 0 || dy != 0,
    ensures
        (y + dy * f) * w + (x + dx) != y * w + x,
{
    if (y + dy * f) * w + (x + dx) == y * w + x {
        assert(dy * f * w + dx == 0) by (nonlinear_arith)
            requires
                (y + dy * f) * w + (x + dx) == y * w + x,
        ;
        assert(-w < dx < w);
        if dy * f >= 1 {
            assert(dy * f * w >= w) by (nonlinear_arith)
                requires
                    dy * f >= 1,
                    w >= 2,
            ;
        } else if dy * f <= -1 {
            assert(dy * f * w <= -w) by (nonlinear_arith)
                requires
                    dy * f <= -1,
                    w >= 2,
            ;
        } else {
            assert(dy * f == 0);
            assert(dy == 0) by (nonlinear_arith)
                requires
                    dy * f == 0,
                    f == 1 || f == -1,
            ;
        }
    }
}

proof fn lemma_offsets_skip_self(offs: Seq<(i8, i8)>, tile: u8, f: int, w: i8)
    requires
        valid_width(w),
        f == 1 || f == -1,
        forall|k: int| 0 <= k < offs.len() ==> (#[trigger] offs[k]).0 != 0 || offs[k].1 != 0,
    ensures
        !spec_offset_tiles(offs, spec_tile_xy_w(tile, w).0 as int, spec_tile_xy_w(tile, w).1 as int, f, w).contains(tile),
    decreases offs.len(),
{
    let x = spec_tile_xy_w(tile, w).0 as int;
    let y = spec_tile_xy_w(tile, w).1 as int;
    if offs.len() > 0 {
        lemma_offsets_skip_self(offs.drop_last(), tile, f, w);
        let prev = spec_offset_tiles(offs.drop_last(), x, y, f, w);
        let (dx, dy) = offs.last();
        assert(offs.last() == offs[offs.len() - 1]);
        vstd::arithmetic::div_mod::lemma_fundamental_div_mod(tile as int, w as int);
        vstd::arithmetic::div_mod::lemma_mod_bound(tile as int, w as int);
        vstd::arithmetic::div_mod::lemma_div_pos_is_pos(tile as int, w as int);
        assert(tile as int / w as int <= 127) by (nonlinear_arith)
            requires
                tile <= 255,
                w >= 2,
        ;
        assert(x == tile as int % w as int);
        assert(y == tile as int / w as int);
        assert(tile as int == y * w + x) by (nonlinear_arith)
            requires
                tile as int == w * (tile as int / w as int) + (tile as int % w as int),
                x == tile as int % w as int,
                y == tile as int / w as int,
        ;
        match spec_xy_tile_w(x + dx, y + dy * f, w) {
            Some(t) => {
                let v = (y + dy * f) * w + (x + dx);
                assert(0 <= v < w * w) by (nonlinear_arith)
                    requires
                        0 <= x + dx < w,
                        0 <= y + dy * f < w,
                        v == (y + dy * f) * w + (x + dx),
                ;
                assert(w * w <= 256) by (nonlinear_arith)
                    requires
                        valid_width(w),
                ;
                lemma_offset_not_self(x, y, dx as int, dy as int, f, w as int);
                assert(t as int == v);
                assert(t != tile);
                assert forall|q: int| 0 <= q < prev.push(t).len() implies prev.push(t)[q] != tile by {
                    if q < prev.len() {
                        assert(prev[q] != tile);
                    }
                }
            },
            None => {},
        }
    }
}

/// The tiles a Reach covers never include the spirit's own tile.
pub proof fn law_reach_excludes_own_tile(reach: Reach, tile: u8, seat: Seat, w: i8)
    requires
        valid_width(w),
    ensures
        !spec_oriented_w(reach, tile, seat, w).contains(tile),
{
    let offs = reach.spec_offsets();
    assert forall|k: int| 0 <= k < offs.len() implies (#[trigger] offs[k]).0 != 0 || offs[k].1 != 0 by {
        match reach {
            Reach::Cross => {},
            Reach::Slant => {},
            Reach::Lance => {},
        }
    }
    lemma_offsets_skip_self(offs, tile, seat.spec_forward() as int, w);
}

proof fn lemma_drop_absent(s: Seq<u8>, t: u8)
    requires
        !s.contains(t),
    ensures
        drop_tile(s, t) == s,
    decreases s.len(),
{
    if s.len() > 0 {
        assert(!s.drop_last().contains(t)) by {
            if s.drop_last().contains(t) {
                let q = choose|q: int| 0 <= q < s.drop_last().len() && s.drop_last()[q] == t;
                assert(s[q] == t);
            }
        }
        lemma_drop_absent(s.drop_last(), t);
        assert(s.last() != t) by {
            assert(s[s.len() - 1] == s.last());
        }
        assert(s.drop_last().push(s.last()) =~= s);
    }
}

/// With no reach aura or buff covering the spirit, its targeting reach is exactly its
/// (copied or given) Reach — a call site is behaviour-identical absent a reach aura.
pub proof fn law_targeting_reach_without_aura(sim: GameState, canon: Canon, catalog: Seq<CardDef>, base: Reach, tile: u8, seat: Seat, w: i8)
    requires
        valid_width(w),
        spec_reach_aura_delta(sim, canon, catalog, tile) == (0i8, false),
    ensures
        spec_targeting_reach(sim, canon, catalog, base, tile, seat, w) == spec_oriented_w(effective_base(sim, base, tile), tile, seat, w),
{
    let o = spec_oriented_w(effective_base(sim, base, tile), tile, seat, w);
    law_reach_excludes_own_tile(effective_base(sim, base, tile), tile, seat, w);
    assert(spec_widen_oriented(o, 0, false, seat, w) == o);
    lemma_drop_absent(o, tile);
}

proof fn lemma_append_new_grows(acc: Seq<u8>, cands: Seq<u8>)
    ensures
        acc.len() <= spec_append_new(acc, cands).len(),
        spec_append_new(acc, cands).subrange(0, acc.len() as int) == acc,
        acc.no_duplicates() ==> spec_append_new(acc, cands).no_duplicates(),
    decreases cands.len(),
{
    if cands.len() > 0 {
        lemma_append_new_grows(acc, cands.drop_last());
        let a = spec_append_new(acc, cands.drop_last());
        if !a.contains(cands.last()) {
            assert(a.push(cands.last()).subrange(0, acc.len() as int) =~= a.subrange(0, acc.len() as int));
            if acc.no_duplicates() {
                assert forall|i: int, j: int| 0 <= i < a.push(cands.last()).len() && 0 <= j < a.push(cands.last()).len() && i != j
                    implies a.push(cands.last())[i] != a.push(cands.last())[j] by {
                    if i == a.len() {
                        assert(a[j] != cands.last());
                    } else if j == a.len() {
                        assert(a[i] != cands.last());
                    }
                }
            }
        }
    }
}

proof fn lemma_widen_prefix_grows(base: Seq<u8>, k: int, forward: i8, all_dirs: bool, f: int, w: i8)
    requires
        0 <= k <= base.len(),
    ensures
        base.len() <= spec_widen_prefix(base, k, forward, all_dirs, f, w).len(),
        spec_widen_prefix(base, k, forward, all_dirs, f, w).subrange(0, base.len() as int) == base,
        base.no_duplicates() ==> spec_widen_prefix(base, k, forward, all_dirs, f, w).no_duplicates(),
    decreases k,
{
    if k > 0 {
        lemma_widen_prefix_grows(base, k - 1, forward, all_dirs, f, w);
        let prev = spec_widen_prefix(base, k - 1, forward, all_dirs, f, w);
        let cands = crate::projection::spec_frontier(base[k - 1], forward, all_dirs, f, w);
        lemma_append_new_grows(prev, cands);
        let next = spec_append_new(prev, cands);
        assert(next.subrange(0, base.len() as int) =~= next.subrange(0, prev.len() as int).subrange(0, base.len() as int));
    }
}

/// Widening a reach keeps the base tiles first and in order, and repeats no tile: only the
/// base tiles spawn neighbours, and a tile already listed is not listed again.
pub proof fn law_widen_keeps_base_first(tiles: Seq<u8>, forward: i8, all_dirs: bool, seat: Seat, w: i8)
    ensures
        tiles.len() <= spec_widen_oriented(tiles, forward, all_dirs, seat, w).len(),
        spec_widen_oriented(tiles, forward, all_dirs, seat, w).subrange(0, tiles.len() as int) == tiles,
        tiles.no_duplicates() ==> spec_widen_oriented(tiles, forward, all_dirs, seat, w).no_duplicates(),
{
    if forward == 0 && !all_dirs {
        assert(tiles.subrange(0, tiles.len() as int) =~= tiles);
    } else {
        lemma_widen_prefix_grows(tiles, tiles.len() as int, forward, all_dirs, seat.spec_forward() as int, w);
    }
}

// ---------------------------------------------------------------------------
// Combat
// ---------------------------------------------------------------------------

/// An empty tile's combat numbers are all zero, with no Resonance and no flags.
pub proof fn law_empty_tile_has_no_stats(sim: GameState, canon: Canon, catalog: Seq<CardDef>, tile: u8, vs: Option<u8>)
    requires
        sim.spec_spirit_at(tile) is None,
    ensures
        spec_combat_stats(sim, canon, catalog, tile, vs) == zero_stats(),
{
}

// ---------------------------------------------------------------------------
// Evolution
// ---------------------------------------------------------------------------

proof fn lemma_name_from(cat: Seq<CardDef>, name: Seq<char>, i: int)
    requires
        0 <= i,
    ensures
        spec_name_from(cat, name, i) matches Some(k) ==> i <= k < cat.len() && cat[k].name@ == name,
    decreases cat.len() - i,
{
    if i < cat.len() && cat[i].name@ != name {
        lemma_name_from(cat, name, i + 1);
    }
}

/// Form `id` is a card of the catalog named by one of the base's listed forms.
pub open spec fn listed_form(catalog: Seq<CardDef>, base: CardDef, id: CardId) -> bool {
    exists|c: int, j: int| 0 <= c < catalog.len() && 0 <= j < base.evolves_to@.len()
        && #[trigger] catalog[c].id == id && catalog[c].name@ == #[trigger] base.evolves_to@[j]@
}

proof fn lemma_evolutions_listed(catalog: Seq<CardDef>, base: CardDef, ignore: bool, n: int)
    requires
        0 <= n <= base.evolves_to@.len(),
    ensures
        forall|k: int| 0 <= k < evolutions_prefix(catalog, base, ignore, n).len()
            ==> listed_form(catalog, base, #[trigger] evolutions_prefix(catalog, base, ignore, n)[k]),
    decreases n,
{
    if n > 0 {
        lemma_evolutions_listed(catalog, base, ignore, n - 1);
        let name = base.evolves_to@[n - 1]@;
        lemma_name_from(catalog, name, 0);
        let prev = evolutions_prefix(catalog, base, ignore, n - 1);
        match crate::evolution::evolution_for(catalog, base, ignore, name) {
            Some(id) => {
                let c = spec_name_from(catalog, name, 0)->0;
                assert(catalog[c].id == id);
                assert(listed_form(catalog, base, id)) by {
                    assert(catalog[c].name@ == base.evolves_to@[n - 1]@);
                }
                let cur = prev.push(id);
                assert forall|k: int| 0 <= k < cur.len() implies listed_form(catalog, base, #[trigger] cur[k]) by {
                    if k < prev.len() {
                        assert(cur[k] == prev[k]);
                    }
                }
            },
            None => {},
        }
    }
}

/// Only a true base evolves, and every form it may become is one its card lists, found in
/// the catalog.
pub proof fn law_evolutions_are_listed_forms(st: GameState, canon: Canon, catalog: Seq<CardDef>, base: CardDef, owner: Seat)
    ensures
        base.evolves_from is Some ==> spec_legal_evolutions(st, canon, catalog, base, owner).len() == 0,
        forall|k: int| 0 <= k < spec_legal_evolutions(st, canon, catalog, base, owner).len()
            ==> listed_form(catalog, base, #[trigger] spec_legal_evolutions(st, canon, catalog, base, owner)[k]),
{
    if base.evolves_from is None {
        lemma_evolutions_listed(catalog, base, crate::evolution::spec_ignore_imprint(st, canon, catalog, owner), base.evolves_to@.len() as int);
    }
}


// ---------------------------------------------------------------------------
// The exchange
// ---------------------------------------------------------------------------

/// The forecast never deals negative damage either way; a defender the Forgiven Debt
/// protects, struck by an attacker at Echo, is never banished while it has HP; the
/// attacker's Echo is live exactly at half its Form or less.
pub proof fn law_forecast_shape(
    canon: Canon,
    ac: CardDef,
    att_attack: i16,
    att_defense: i16,
    att_hp: i16,
    att_hp_max: i16,
    dfn: crate::state::Spirit,
    dc: CardDef,
    bonus: i16,
    def_warded: bool,
)
    requires
        crate::combat::forecast_in_range(canon, ac, att_attack, att_defense, att_hp, att_hp_max, dfn, dc, bonus, def_warded),
    ensures
        crate::combat::spec_forecast(canon, ac, att_attack, att_defense, att_hp, att_hp_max, dfn, dc, bonus, def_warded).to_defender >= 0,
        crate::combat::spec_forecast(canon, ac, att_attack, att_defense, att_hp, att_hp_max, dfn, dc, bonus, def_warded).to_attacker >= 0,
        crate::combat::echo_capped(canon, dc, att_hp, att_hp_max) && dfn.hp >= 1
            ==> !crate::combat::spec_forecast(canon, ac, att_attack, att_defense, att_hp, att_hp_max, dfn, dc, bonus, def_warded).banishes_defender,
        crate::combat::spec_forecast(canon, ac, att_attack, att_defense, att_hp, att_hp_max, dfn, dc, bonus, def_warded).attacker_echo_live
            == (att_hp * 2 <= att_hp_max),
{
}

/// The forecast shows the exchange's own numbers: when the two sides' effective combat
/// stats are the forecast's numbers (no Attuned Resonance, no negated Edge, no damage
/// reduction or retaliation bonus), the blow is no chain link, no Echo is rolled, and the
/// Forgiven Debt holds exactly when the forecast caps the blow, the blows the exchange
/// strikes are the forecast's.
pub proof fn law_forecast_matches_exchange(
    canon: Canon,
    acs: crate::combat::CombatStats,
    dcs: crate::combat::CombatStats,
    ac: CardDef,
    dc: CardDef,
    att_hp: i16,
    att_hp_max: i16,
    dfn: crate::state::Spirit,
    bonus: i16,
    def_warded: bool,
    unbanishable: bool,
)
    requires
        acs.resonance is None,
        dcs.resonance is None,
        !acs.edge_negated_against,
        !dcs.edge_negated_against,
        acs.dmg_reduction == 0,
        dcs.dmg_reduction == 0,
        dcs.retaliation == 0,
        dcs.atk == dfn.attack,
        dcs.def == dfn.defense,
        unbanishable == crate::combat::echo_capped(canon, dc, att_hp, att_hp_max),
        crate::combat::forecast_in_range(canon, ac, acs.atk, acs.def, att_hp, att_hp_max, dfn, dc, bonus, def_warded),
    ensures
        crate::strike::strike_numbers(acs, dcs, ac, dc, dfn.hp, 0, 0, def_warded, unbanishable, bonus, false, false)
            == (crate::combat::spec_forecast(canon, ac, acs.atk, acs.def, att_hp, att_hp_max, dfn, dc, bonus, def_warded).to_defender as int,
                crate::combat::spec_forecast(canon, ac, acs.atk, acs.def, att_hp, att_hp_max, dfn, dc, bonus, def_warded).to_attacker as int),
{
}

/// A redirect comes only for a lethal blow: the Promise moves the whole blow to the partner;
/// Grief Split moves just the overflow, so the saved spirit keeps exactly 1 HP.
pub proof fn law_redirect_amounts(sim: GameState, canon: Canon, catalog: Seq<CardDef>, def_tile: u8, hp: i16, dmg: i16)
    requires
        dmg >= hp ==> hp > i16::MIN && dmg - hp + 1 <= i16::MAX,
    ensures
        crate::exchange::spec_damage_redirect(sim, canon, catalog, def_tile, hp, dmg) matches Some((p, r, spent))
            ==> dmg >= hp && (spent ==> r == dmg) && (!spent ==> hp - (dmg - r) == 1),
{
}

// ---------------------------------------------------------------------------
// Projection
// ---------------------------------------------------------------------------

/// In a 1v1 match a slot's Overwrite projection is its team's placement projection.
pub proof fn law_slot_projection_is_team_projection_in_1v1(st: GameState, catalog: Seq<CardDef>, slot: crate::types::SeatSlot, t: int)
    requires
        !st.spec_is_2v2(),
    ensures
        crate::projection::spec_projected(st, catalog, slot.spec_team(), if st.spec_is_2v2() { Some(slot) } else { None }, t)
            == crate::projection::spec_projected(st, catalog, slot.spec_team(), None, t),
{
}

// ---------------------------------------------------------------------------
// State validity
// ---------------------------------------------------------------------------

proof fn lemma_no_tile_violation(st: GameState, k: int)
    requires
        0 <= k,
        crate::invariants::first_tile_violation(st, k) is None,
    ensures
        forall|i: int| k <= i < st.board@.len() ==> (#[trigger] crate::invariants::tile_violation(st, i)) is None,
    decreases st.board@.len() - k,
{
    if k < st.board@.len() {
        lemma_no_tile_violation(st, k + 1);
    }
}

/// A state that passes the check holds every invariant: no tile holds a spirit with terrain
/// or shares the Stray's tile, no terrain lies on a faded tile, HP never exceeds its
/// maximum, a standing spirit has HP left, a spirit is Fading exactly when it carries a fade
/// deadline, the standing spirits fit on the board, and the round is at most one past the
/// last.
pub proof fn law_checked_state_is_sound(st: GameState)
    requires
        crate::invariants::spec_check(st) is None,
    ensures
        forall|i: int| 0 <= i < st.board@.len() ==> !((#[trigger] st.board@[i]).spirit is Some && st.board@[i].terrain is Some),
        forall|i: int| 0 <= i < st.board@.len() ==> ((#[trigger] st.board@[i]).spirit is Some || st.board@[i].terrain is Some)
            ==> !crate::invariants::stray_on(st, i),
        forall|i: int| 0 <= i < st.board@.len() ==> (#[trigger] st.board@[i]).faded ==> st.board@[i].terrain is None,
        forall|i: int| 0 <= i < st.board@.len() ==> ((#[trigger] st.board@[i]).spirit matches Some(sp)
            ==> sp.hp <= sp.hp_max && (!sp.fading ==> sp.hp > 0) && (sp.fading <==> sp.fade_deadline is Some)),
        crate::invariants::standing_count(st, Seat::A, st.board@.len() as int)
            + crate::invariants::standing_count(st, Seat::B, st.board@.len() as int) <= st.board@.len(),
        st.round <= st.rules.last_round + 1,
{
    lemma_no_tile_violation(st, 0);
    assert forall|i: int| 0 <= i < st.board@.len() implies !((#[trigger] st.board@[i]).spirit is Some && st.board@[i].terrain is Some)
        && ((st.board@[i].spirit is Some || st.board@[i].terrain is Some) ==> !crate::invariants::stray_on(st, i)) by {
        assert(crate::invariants::tile_violation(st, i) is None);
    }
    assert forall|i: int| 0 <= i < st.board@.len() implies ((#[trigger] st.board@[i]).faded ==> st.board@[i].terrain is None) by {
        assert(crate::invariants::tile_violation(st, i) is None);
    }
    assert forall|i: int| 0 <= i < st.board@.len() implies ((#[trigger] st.board@[i]).spirit matches Some(sp)
        ==> sp.hp <= sp.hp_max && (!sp.fading ==> sp.hp > 0) && (sp.fading <==> sp.fade_deadline is Some)) by {
        assert(crate::invariants::tile_violation(st, i) is None);
    }
}

// ---------------------------------------------------------------------------
// Board events
// ---------------------------------------------------------------------------

/// Swapping the same two spirits twice gives the board back as it was, and nothing else
/// in the state moves.
pub proof fn law_swap_twice_restores(s0: GameState, s1: GameState, s2: GameState, a: u8, b: u8)
    requires
        on_board(s0, a),
        on_board(s0, b),
        spec_applied(s0, Event::SpiritsSwapped { a, b }, s1),
        spec_applied(s1, Event::SpiritsSwapped { a, b }, s2),
    ensures
        s2.board@ == s0.board@,
        s2 == (GameState { board: s2.board, ..s0 }),
{
    assert(s2.board@ =~= s0.board@);
}

/// A push carries the spirit on `from` to `to`, empties `from`, and leaves every other
/// tile as it was.
pub proof fn law_push_moves_spirit(s0: GameState, s1: GameState, from: u8, to: u8)
    requires
        on_board(s0, from),
        on_board(s0, to),
        from != to,
        spec_applied(s0, Event::SpiritPushed { from, to }, s1),
    ensures
        s1.board@.len() == s0.board@.len(),
        s1.board@[to as int].spirit == s0.board@[from as int].spirit,
        s1.board@[from as int].spirit is None,
        s1.board@[to as int].terrain == s0.board@[to as int].terrain,
        forall|j: int| 0 <= j < s0.board@.len() && j != from && j != to ==> #[trigger] s1.board@[j] == s0.board@[j],
{
}

/// A heal of a non-negative amount never lifts HP past the maximum, never lowers it, and
/// lands on the lesser of the healed value and the maximum.
pub proof fn law_restore_caps_at_max(s0: GameState, s1: GameState, tile: u8, amount: i16)
    requires
        on_board(s0, tile),
        amount >= 0,
        spec_applied(s0, Event::EffectRestored { tile, amount }, s1),
        s0.board@[tile as int].spirit matches Some(sp) && sp.hp <= sp.hp_max,
    ensures
        s1.board@[tile as int].spirit matches Some(ns) && {
            let sp = s0.board@[tile as int].spirit->Some_0;
            &&& ns.hp == if sp.hp + amount <= sp.hp_max { sp.hp + amount } else { sp.hp_max as int }
            &&& sp.hp <= ns.hp <= ns.hp_max
            &&& ns.hp_max == sp.hp_max
            &&& ns.fading == sp.fading
        },
{
}

/// A keyword granted through this round or later is active on the spirit that took it.
pub proof fn law_granted_keyword_is_active(
    s0: GameState,
    s1: GameState,
    canon: Canon,
    catalog: Seq<CardDef>,
    tile: u8,
    keyword: Keyword,
    until_round: u8,
)
    requires
        on_board(s0, tile),
        s0.board@[tile as int].spirit is Some,
        until_round >= s0.round,
        spec_applied(s0, Event::KeywordGranted { tile, keyword, until_round }, s1),
    ensures
        crate::keywords::spec_keyword_active(s1, canon, catalog, tile, keyword),
{
    let ns = s1.board@[tile as int].spirit->Some_0;
    let k = ns.kw_grants@.len() - 1;
    assert(ns.kw_grants@[k] == (keyword, until_round));
    assert(crate::keywords::spec_played_grant(ns, keyword, s1.round));
}

/// A restriction laid through this round or later is in force for its seat, and every
/// restriction in force before stays in force.
pub proof fn law_restriction_is_in_force(s0: GameState, s1: GameState, seat: Seat, restriction: Restriction, until_round: u8)
    requires
        until_round >= s0.round,
        spec_applied(s0, Event::Restricted { seat, restriction, until_round }, s1),
    ensures
        crate::projection::spec_restricted(s1, seat, restriction),
        forall|o: Seat, r: Restriction| crate::projection::spec_restricted(s0, o, r) ==> #[trigger] crate::projection::spec_restricted(s1, o, r),
{
    let n = s0.temp_restrict@.len();
    assert(s1.temp_restrict@[n as int].seat == seat);
    assert forall|o: Seat, r: Restriction| crate::projection::spec_restricted(s0, o, r) implies #[trigger] crate::projection::spec_restricted(s1, o, r) by {
        let i = choose|i: int| 0 <= i < s0.temp_restrict@.len() && {
            let t = #[trigger] s0.temp_restrict@[i];
            t.seat == o && t.restriction == r && t.until_round >= s0.round
        };
        assert(s1.temp_restrict@[i] == s0.temp_restrict@[i]);
    }
}

proof fn lemma_keep_bonds(bonds: Seq<crate::state::Bond>, card: CardId)
    ensures
        forall|i: int| 0 <= i < keep_bonds(bonds, card).len() ==> (#[trigger] keep_bonds(bonds, card)[i]).card != card,
        forall|i: int| 0 <= i < keep_bonds(bonds, card).len() ==> bonds.contains(#[trigger] keep_bonds(bonds, card)[i]),
        forall|i: int| 0 <= i < bonds.len() && (#[trigger] bonds[i]).card != card ==> keep_bonds(bonds, card).contains(bonds[i]),
    decreases bonds.len(),
{
    if bonds.len() > 0 {
        let init = bonds.drop_last();
        lemma_keep_bonds(init, card);
        let prev = keep_bonds(init, card);
        assert forall|i: int| 0 <= i < keep_bonds(bonds, card).len() implies bonds.contains(#[trigger] keep_bonds(bonds, card)[i]) by {
            if i < prev.len() {
                let j = choose|j: int| 0 <= j < init.len() && init[j] == prev[i];
                assert(bonds[j] == init[j]);
            } else {
                assert(bonds[bonds.len() - 1] == bonds.last());
            }
        }
        assert forall|i: int| 0 <= i < bonds.len() && (#[trigger] bonds[i]).card != card implies keep_bonds(bonds, card).contains(bonds[i]) by {
            if i < bonds.len() - 1 {
                assert(init[i] == bonds[i]);
                let j = choose|j: int| 0 <= j < prev.len() && prev[j] == init[i];
                assert(keep_bonds(bonds, card)[j] == prev[j]);
            } else {
                assert(keep_bonds(bonds, card)[prev.len() as int] == bonds[i]);
            }
        }
    }
}

/// Breaking a card's Bonds leaves none of that card's Bonds and keeps every other Bond.
pub proof fn law_bond_break_removes_only_that_card(s0: GameState, s1: GameState, card: CardId)
    requires
        spec_applied(s0, Event::BondBroken { card }, s1),
    ensures
        forall|i: int| 0 <= i < s1.bonds@.len() ==> (#[trigger] s1.bonds@[i]).card != card,
        forall|i: int| 0 <= i < s1.bonds@.len() ==> s0.bonds@.contains(#[trigger] s1.bonds@[i]),
        forall|i: int| 0 <= i < s0.bonds@.len() && (#[trigger] s0.bonds@[i]).card != card ==> s1.bonds@.contains(s0.bonds@[i]),
{
    lemma_keep_bonds(s0.bonds@, card);
}

/// An event that edits one spirit touches only that tile's spirit: every other tile, and
/// that tile's terrain, impressions and fading, stay as they were.
pub proof fn law_spirit_edit_is_local(s0: GameState, s1: GameState, ev: Event, tile: u8)
    requires
        on_board(s0, tile),
        (ev matches Event::EffectDamaged { tile: t, .. } && t == tile)
            || (ev matches Event::EffectRestored { tile: t, .. } && t == tile)
            || (ev matches Event::EffectStat { tile: t, .. } && t == tile)
            || (ev matches Event::ControlTaken { tile: t, .. } && t == tile)
            || (ev matches Event::OrdersSet { tile: t, .. } && t == tile)
            || (ev matches Event::SpiritCopiedStats { tile: t, .. } && t == tile),
        spec_applied(s0, ev, s1),
    ensures
        s1.board@.len() == s0.board@.len(),
        forall|j: int| 0 <= j < s0.board@.len() && j != tile ==> #[trigger] s1.board@[j] == s0.board@[j],
        s1.board@[tile as int].terrain == s0.board@[tile as int].terrain,
        s1.board@[tile as int].impressions == s0.board@[tile as int].impressions,
        s1.board@[tile as int].faded == s0.board@[tile as int].faded,
        s1.board@[tile as int].spirit is Some == s0.board@[tile as int].spirit is Some,
{
}

/// Evolving or devolving redeems a fading spirit: the new form stands at full HP with no
/// fade, no banisher and no deadline.
pub proof fn law_form_change_redeems_fading(s0: GameState, s1: GameState, ev: Event)
    requires
        ev is SpiritEvolved || ev is SpiritDevolved,
        event_ok(s0, ev),
        spec_applied(s0, ev, s1),
    ensures
        match ev {
            Event::SpiritEvolved { tile, hp, .. } | Event::SpiritDevolved { tile, hp, .. } =>
                s0.board@[tile as int].spirit is Some ==> (s1.board@[tile as int].spirit matches Some(sp)
                    && !sp.fading && sp.banished_by is None && sp.fade_deadline is None && sp.hp == hp && sp.hp_max == hp),
            _ => true,
        },
{
}

/// What the Solace banishes leaves nothing on the board but still scores: its mark clears
/// the tile's impressions and raises the erasure tally; any other faction's mark leaves
/// exactly its own impression.
pub proof fn law_solace_mark_leaves_nothing_but_scores(s0: GameState, s1: GameState, tile: u8, by: Seat)
    requires
        on_board(s0, tile),
        marked(s0, s1, tile, by),
    ensures
        seat_get(s0.rules.factions, by) == Faction::Solace ==> s1.board@[tile as int].impressions@.len() == 0
            && s1.solace_erasures == sat_add(s0.solace_erasures, 1),
        seat_get(s0.rules.factions, by) != Faction::Solace ==> s1.board@[tile as int].impressions@ == seq![by]
            && s1.solace_erasures == s0.solace_erasures,
        s1.board@[tile as int].spirit == s0.board@[tile as int].spirit,
{
}

/// Drawing and releasing move cards between hand and deck and never lose or make one.
pub proof fn law_draw_and_release_conserve_cards(op: PlayerOp, p: crate::state::PlayerState, q: crate::state::PlayerState)
    requires
        op is Draw || op is Release,
        player_step(op, p, q),
    ensures
        q.hand@.len() + q.deck@.len() == p.hand@.len() + p.deck@.len(),
        q.hand@.to_multiset().add(q.deck@.to_multiset()) == p.hand@.to_multiset().add(p.deck@.to_multiset()),
{
    broadcast use vstd::seq_lib::group_to_multiset_ensures;
    match op {
        PlayerOp::Draw => {
            if p.deck@.len() > 0 {
                let d = p.deck@;
                assert(d == seq![d[0]] + d.remove(0));
                vstd::seq_lib::lemma_multiset_commutative(seq![d[0]], d.remove(0));
                vstd::seq_lib::lemma_multiset_commutative(p.hand@, seq![d[0]]);
                assert(p.hand@.push(d[0]) == p.hand@ + seq![d[0]]);
            }
        },
        PlayerOp::Release(i) => {
            if (i as int) < p.hand@.len() {
                let h = p.hand@;
                let c = h[i as int];
                assert(h == h.subrange(0, i as int) + seq![c] + h.subrange(i + 1, h.len() as int));
                assert(h.remove(i as int) == h.subrange(0, i as int) + h.subrange(i + 1, h.len() as int));
                vstd::seq_lib::lemma_multiset_commutative(h.subrange(0, i as int) + seq![c], h.subrange(i + 1, h.len() as int));
                vstd::seq_lib::lemma_multiset_commutative(h.subrange(0, i as int), seq![c]);
                vstd::seq_lib::lemma_multiset_commutative(h.subrange(0, i as int), h.subrange(i + 1, h.len() as int));
                vstd::seq_lib::lemma_multiset_commutative(p.deck@, seq![c]);
                assert(p.deck@.push(c) == p.deck@ + seq![c]);
            }
        },
        _ => {},
    }
}

proof fn lemma_lasting<T: Dated>(s: Seq<T>, r: u8)
    ensures
        forall|i: int| 0 <= i < lasting(s, r).len() ==> (#[trigger] lasting(s, r)[i]).spec_until() >= r,
        forall|i: int| 0 <= i < lasting(s, r).len() ==> s.contains(#[trigger] lasting(s, r)[i]),
        forall|i: int| 0 <= i < s.len() && (#[trigger] s[i]).spec_until() >= r ==> lasting(s, r).contains(s[i]),
    decreases s.len(),
{
    if s.len() > 0 {
        let init = s.drop_last();
        lemma_lasting(init, r);
        let prev = lasting(init, r);
        assert forall|i: int| 0 <= i < lasting(s, r).len() implies s.contains(#[trigger] lasting(s, r)[i]) by {
            if i < prev.len() {
                let j = choose|j: int| 0 <= j < init.len() && init[j] == prev[i];
                assert(s[j] == init[j]);
            } else {
                assert(s[s.len() - 1] == s.last());
            }
        }
        assert forall|i: int| 0 <= i < s.len() && (#[trigger] s[i]).spec_until() >= r implies lasting(s, r).contains(s[i]) by {
            if i < s.len() - 1 {
                assert(init[i] == s[i]);
                let j = choose|j: int| 0 <= j < prev.len() && prev[j] == init[i];
                assert(lasting(s, r)[j] == prev[j]);
            } else {
                assert(lasting(s, r)[prev.len() as int] == s[i]);
            }
        }
    }
}

/// At the turn of a round every this-round entry whose round has passed lapses and every
/// other one stays: no stat modifier, reach buff, restriction or retaliation shift left
/// runs out before the new round.
pub proof fn law_round_turn_keeps_exactly_the_running_entries(s0: GameState, s1: GameState, round: u8)
    requires
        spec_applied(s0, Event::RoundAdvanced { round }, s1),
    ensures
        s1.round == round,
        forall|i: int| 0 <= i < s1.temp_mods@.len() ==> (#[trigger] s1.temp_mods@[i]).until_round >= round,
        forall|i: int| 0 <= i < s0.temp_mods@.len() && (#[trigger] s0.temp_mods@[i]).until_round >= round
            ==> s1.temp_mods@.contains(s0.temp_mods@[i]),
        forall|i: int| 0 <= i < s1.temp_reach@.len() ==> (#[trigger] s1.temp_reach@[i]).until_round >= round,
        forall|i: int| 0 <= i < s1.temp_restrict@.len() ==> (#[trigger] s1.temp_restrict@[i]).until_round >= round,
        forall|i: int| 0 <= i < s0.temp_restrict@.len() && (#[trigger] s0.temp_restrict@[i]).until_round >= round
            ==> s1.temp_restrict@.contains(s0.temp_restrict@[i]),
        forall|i: int| 0 <= i < s1.temp_retaliation@.len() ==> (#[trigger] s1.temp_retaliation@[i]).2 >= round,
{
    lemma_lasting(s0.temp_mods@, round);
    lemma_lasting(s0.temp_reach@, round);
    lemma_lasting(s0.temp_restrict@, round);
    lemma_lasting(s0.temp_retaliation@, round);
    assert forall|i: int| 0 <= i < s1.temp_mods@.len() implies (#[trigger] s1.temp_mods@[i]).until_round >= round by {
        assert(s1.temp_mods@[i].spec_until() >= round);
    }
    assert forall|i: int| 0 <= i < s0.temp_mods@.len() && (#[trigger] s0.temp_mods@[i]).until_round >= round
        implies s1.temp_mods@.contains(s0.temp_mods@[i]) by {
        assert(s0.temp_mods@[i].spec_until() >= round);
    }
    assert forall|i: int| 0 <= i < s1.temp_reach@.len() implies (#[trigger] s1.temp_reach@[i]).until_round >= round by {
        assert(s1.temp_reach@[i].spec_until() >= round);
    }
    assert forall|i: int| 0 <= i < s1.temp_restrict@.len() implies (#[trigger] s1.temp_restrict@[i]).until_round >= round by {
        assert(s1.temp_restrict@[i].spec_until() >= round);
    }
    assert forall|i: int| 0 <= i < s0.temp_restrict@.len() && (#[trigger] s0.temp_restrict@[i]).until_round >= round
        implies s1.temp_restrict@.contains(s0.temp_restrict@[i]) by {
        assert(s0.temp_restrict@[i].spec_until() >= round);
    }
    assert forall|i: int| 0 <= i < s1.temp_retaliation@.len() implies (#[trigger] s1.temp_retaliation@[i]).2 >= round by {
        assert(s1.temp_retaliation@[i].spec_until() >= round);
    }
}

/// Ending a turn hands play to the other team: in 1v1 the other seat's first player acts;
/// in 2v2 the next slot of the A1 → B1 → A2 → B2 cycle, which always plays for the other
/// team, and four turns bring the cycle back round.
pub proof fn law_turns_alternate_teams(s0: GameState, s1: GameState, seat: Seat)
    requires
        s0.active == seat,
        s0.active_slot.spec_team() == seat,
        spec_applied(s0, Event::TurnEnded { seat }, s1),
    ensures
        s1.active == seat.spec_other(),
        s1.active_slot.spec_team() == s1.active,
        !s0.spec_is_2v2() ==> s1.active_slot == first_slot(seat.spec_other()),
        s0.spec_is_2v2() ==> s1.active_slot == s0.active_slot.spec_next_2v2(),
        s1.moved_this_turn@.len() == 0,
        s1.phase == crate::state::Phase::Acting,
        forall|x: SeatSlot| #[trigger] x.spec_next_2v2().spec_next_2v2().spec_next_2v2().spec_next_2v2() == x,
{
}

/// A resource event lands on the acting slot's player when it plays for that seat, and
/// otherwise on the seat's first player; there is always such a player in a 1v1 match.
pub proof fn law_resources_follow_the_acting_slot(st: GameState, seat: Seat)
    ensures
        st.spec_is_2v2() && st.active_slot.spec_team() == seat ==> slot_for(st, seat) == st.active_slot,
        !(st.spec_is_2v2() && st.active_slot.spec_team() == seat) ==> slot_for(st, seat) == first_slot(seat),
        !st.spec_is_2v2() ==> slot_player(st, slot_for(st, seat)) is Some,
{
}

/// One point per tile, to whatever is last on it: no tile scores for both seats, so the
/// board points of the two seats never add up to more than the board holds.
pub proof fn law_one_point_per_tile(sim: GameState, canon: Canon, catalog: Seq<CardDef>, n: int)
    requires
        0 <= n,
    ensures
        crate::flow::points(sim, canon, catalog, Seat::A, n) + crate::flow::points(sim, canon, catalog, Seat::B, n) <= n,
    decreases n,
{
    if n > 0 {
        law_one_point_per_tile(sim, canon, catalog, n - 1);
    }
}

/// The match result follows the score: the higher score wins, equal scores draw.
pub proof fn law_higher_score_wins(a: u8, b: u8)
    ensures
        crate::flow::result_of(a, b) == MatchResult::Win(Seat::A) <==> a > b,
        crate::flow::result_of(a, b) == MatchResult::Win(Seat::B) <==> b > a,
        crate::flow::result_of(a, b) == MatchResult::Draw <==> a == b,
{
}

/// A befriended Foundling becomes the courting seat's own spirit where it stood, at its
/// printed numbers, and the Stray slot empties: a spirit never shares a tile with a Stray.
pub proof fn law_befriending_turns_the_stray_into_an_ally(s0: GameState, s1: GameState, catalog: Seq<CardDef>)
    requires
        s0.stray is Some,
        on_board(s0, s0.stray->Some_0.tile),
        crate::strays::befriends(s0, catalog),
        crate::flow::applies(s0, crate::strays::courtship_events(s0, catalog), s1),
    ensures
        s1.stray is None,
        s1.board@[s0.stray->Some_0.tile as int].spirit matches Some(sp)
            && sp.owner == s0.active && sp.card == s0.stray->Some_0.card && !sp.is_token && !sp.fading,
{
    let stray = s0.stray->Some_0;
    let e = crate::strays::befriended(catalog, s0.active, stray);
    let evs = crate::strays::courtship_events(s0, catalog);
    assert(evs == seq![e]);
    let states = choose|states: Seq<GameState>| #![trigger crate::flow::chains(states, evs)]
        crate::flow::chains(states, evs) && states[0] == s0 && states.last() == s1;
    assert(evs[0] == e);
    assert(spec_applied(states[0], evs[0], states[1]));
}

// ---------------------------------------------------------------------------
// Exchanges, interception and Momentum
// ---------------------------------------------------------------------------

/// Echo is merciful variance: rolling it never weakens the striker's blow, on either side.
pub proof fn law_echo_never_weakens_a_blow(
    st: GameState,
    canon: Canon,
    catalog: Seq<CardDef>,
    att: u8,
    def: u8,
    kind: crate::events::StrikeKind,
    bonus: i16,
    a_echo: bool,
    d_echo: bool,
)
    requires
        crate::strike::spec_strikes(st, canon, catalog, att, def, kind, bonus, a_echo, d_echo) is Some,
    ensures
        crate::strike::spec_strikes(st, canon, catalog, att, def, kind, bonus, true, d_echo)->Some_0.0
            >= crate::strike::spec_strikes(st, canon, catalog, att, def, kind, bonus, false, d_echo)->Some_0.0,
        crate::strike::spec_strikes(st, canon, catalog, att, def, kind, bonus, a_echo, true)->Some_0.1
            >= crate::strike::spec_strikes(st, canon, catalog, att, def, kind, bonus, a_echo, false)->Some_0.1,
{
}

proof fn lemma_best_interceptor_strongest(st: GameState, catalog: Seq<CardDef>, defender: Seat, arrival: u8, n: int, i: int)
    requires
        0 <= i < n <= st.board@.len() <= 64,
        crate::strike::can_intercept(st, i, defender),
        crate::strike::bite_zone(st, catalog, i, defender).contains(arrival),
    ensures
        crate::strike::best_interceptor(st, catalog, defender, arrival, n) matches Some(t)
            && (t as int) < n
            && st.board@[t as int].spirit is Some
            && st.board@[t as int].spirit->Some_0.attack >= st.board@[i].spirit->Some_0.attack,
    decreases n,
{
    lemma_best_interceptor_holds(st, catalog, defender, arrival, n);
    if i < n - 1 {
        lemma_best_interceptor_strongest(st, catalog, defender, arrival, n - 1, i);
    }
}

proof fn lemma_best_interceptor_holds(st: GameState, catalog: Seq<CardDef>, defender: Seat, arrival: u8, n: int)
    requires
        n <= st.board@.len() <= 64,
    ensures
        crate::strike::best_interceptor(st, catalog, defender, arrival, n) matches Some(t) ==> {
            &&& 0 <= t < n
            &&& crate::strike::can_intercept(st, t as int, defender)
            &&& crate::strike::bite_zone(st, catalog, t as int, defender).contains(arrival)
        },
    decreases n,
{
    if n > 0 {
        lemma_best_interceptor_holds(st, catalog, defender, arrival, n - 1);
    }
}

/// The interception policy: the interceptor chosen is one that may intercept and
/// has the arrival in its bite, and no other such defender has a higher Attack.
pub proof fn law_the_strongest_coverer_intercepts(st: GameState, catalog: Seq<CardDef>, defender: Seat, arrival: u8, i: int)
    requires
        st.wf(),
        0 <= i < st.board@.len(),
        crate::strike::can_intercept(st, i, defender),
        crate::strike::bite_zone(st, catalog, i, defender).contains(arrival),
    ensures
        crate::strike::best_interceptor(st, catalog, defender, arrival, st.board@.len() as int) matches Some(t) && {
            &&& crate::strike::can_intercept(st, t as int, defender)
            &&& crate::strike::bite_zone(st, catalog, t as int, defender).contains(arrival)
            &&& st.board@[t as int].spirit->Some_0.attack >= st.board@[i].spirit->Some_0.attack
        },
{
    crate::auras::lemma_wf_small(st);
    lemma_best_interceptor_strongest(st, catalog, defender, arrival, st.board@.len() as int, i);
    lemma_best_interceptor_holds(st, catalog, defender, arrival, st.board@.len() as int);
}

pub(crate) proof fn lemma_last_best_tops(
    st: GameState,
    canon: Canon,
    catalog: Seq<CardDef>,
    sp: crate::state::Spirit,
    def: CardDef,
    bonus: int,
    ts: Seq<u8>,
    n: int,
    k: int,
)
    requires
        0 <= k < n <= ts.len(),
    ensures
        crate::momentum::rank_le(
            crate::momentum::rank(st, canon, catalog, sp, def, bonus, ts[k]),
            crate::momentum::rank(st, canon, catalog, sp, def, bonus, crate::momentum::last_best(st, canon, catalog, sp, def, bonus, ts, n)),
        ),
    decreases n,
{
    if n > 1 && k < n - 1 {
        lemma_last_best_tops(st, canon, catalog, sp, def, bonus, ts, n - 1, k);
    }
}

/// Momentum goes for the kill: with no stated preference, when any enemy in reach would
/// fall to the link's blow, the enemy chosen falls too; among equals it has the higher Form.
pub proof fn law_momentum_prefers_a_kill(
    st: GameState,
    canon: Canon,
    catalog: Seq<CardDef>,
    sp: crate::state::Spirit,
    def: CardDef,
    bonus: int,
    ts: Seq<u8>,
    k: int,
)
    requires
        0 <= k < ts.len(),
    ensures
        ({
            let pick = crate::momentum::last_best(st, canon, catalog, sp, def, bonus, ts, ts.len() as int);
            let r = crate::momentum::rank(st, canon, catalog, sp, def, bonus, ts[k]);
            let p = crate::momentum::rank(st, canon, catalog, sp, def, bonus, pick);
            &&& r.0 ==> p.0
            &&& r.0 == p.0 ==> r.1 <= p.1
        }),
{
    lemma_last_best_tops(st, canon, catalog, sp, def, bonus, ts, ts.len() as int, k);
}

} // verus!
