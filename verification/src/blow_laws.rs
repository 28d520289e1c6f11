//! Laws on the blows the combat decisions deal, stated from their inputs: what each blow
//! is made of, and how a blow moves when one of its parts does.
use vstd::prelude::*;

use crate::arrival::spec_play_spirit;
use crate::auras::{spec_card_static_has, ClauseTest};
use crate::cards::spec_card;
use crate::combat::{spec_combat_stats, CombatStats};
use crate::effects::{Canon, Keyword, RuleException};
use crate::events::{Event, StrikeKind};
use crate::keywords::spec_keyword_active;
use crate::momentum::{enemies_in, first_pref, last_best, spec_momentum_link};
use crate::overwrite::{overwrite_in_range, spec_overwrite};
use crate::projection::spec_eff_defense;
use crate::rules::{ECHO_BONUS, EDGE};
use crate::spellbook::hand_card;
use crate::state::GameState;
use crate::strike::{chain_link, spec_interception, spec_strikes, strike_numbers};
use crate::targeting::spec_targeting_reach;
use crate::types::{CardDef, Resonance, Seat};

verus! {

// ---------------------------------------------------------------------------
// The exchange's blow back
// ---------------------------------------------------------------------------

/// The defender of an exchange strikes back with its effective Attack plus its retaliation,
/// its Edge over the attacker (the Resonance each strikes with: an Attuned one, else its
/// card's) unless negated, and the Echo bonus when it rolled Echo, less the attacker's
/// effective Defense (Arcane against the attacker's printed Warded) and damage reduction,
/// never below nothing; a chain that spares its attacker from the second link on takes no
/// blow back at all.
pub proof fn law_blow_back_of_an_exchange(
    st: GameState,
    canon: Canon,
    catalog: Seq<CardDef>,
    att: u8,
    def: u8,
    kind: StrikeKind,
    bonus: i16,
    a_echo: bool,
    d_echo: bool,
)
    ensures
        spec_strikes(st, canon, catalog, att, def, kind, bonus, a_echo, d_echo) matches Some((_, back)) ==> {
            let acs = spec_combat_stats(st, canon, catalog, att, Some(def));
            let dcs = spec_combat_stats(st, canon, catalog, def, Some(att));
            let ac = spec_card(catalog, st.spec_spirit_at(att)->Some_0.card);
            let dc = spec_card(catalog, st.spec_spirit_at(def)->Some_0.card);
            let ares: Resonance = match acs.resonance { Some(r) => r, None => ac.resonance };
            let dres: Resonance = match dcs.resonance { Some(r) => r, None => dc.resonance };
            let edge: int = if dres.spec_edge_over(ares) && !dcs.edge_negated_against { EDGE as int } else { 0 };
            let raw: int = dcs.atk + dcs.retaliation + edge + (if d_echo { ECHO_BONUS as int } else { 0 })
                - spec_eff_defense(acs.def, dc.arcane, ac.warded) - acs.dmg_reduction;
            back == if chain_link(kind) >= 2 && acs.chain_no_retaliation { 0 } else if raw > 0 { raw } else { 0 }
        },
{
}

/// The attacker of an exchange deals its effective Attack plus its Edge over the defender
/// (unless negated), the bonus and the Echo bonus when it rolled Echo, less the defender's
/// effective Defense (Arcane against its effective Warded, unless the attacker's strikes
/// ignore Warded), its damage reduction and, on a chain link, its allies' chain reduction,
/// never below nothing; when the attacker is at Echo and the defender's card cannot be
/// banished by Echo, the blow leaves the defender at least 1 Form.
pub proof fn law_attackers_blow_of_an_exchange(
    st: GameState,
    canon: Canon,
    catalog: Seq<CardDef>,
    att: u8,
    def: u8,
    kind: StrikeKind,
    bonus: i16,
    a_echo: bool,
    d_echo: bool,
)
    ensures
        spec_strikes(st, canon, catalog, att, def, kind, bonus, a_echo, d_echo) matches Some((dealt, _)) ==> {
            let a = st.spec_spirit_at(att)->Some_0;
            let d = st.spec_spirit_at(def)->Some_0;
            let acs = spec_combat_stats(st, canon, catalog, att, Some(def));
            let dcs = spec_combat_stats(st, canon, catalog, def, Some(att));
            let ac = spec_card(catalog, a.card);
            let dc = spec_card(catalog, d.card);
            let ares: Resonance = match acs.resonance { Some(r) => r, None => ac.resonance };
            let dres: Resonance = match dcs.resonance { Some(r) => r, None => dc.resonance };
            let edge: int = if ares.spec_edge_over(dres) && !acs.edge_negated_against { EDGE as int } else { 0 };
            let warded = spec_keyword_active(st, canon, catalog, def, Keyword::Warded)
                && !spec_card_static_has(canon, catalog, a.card, ClauseTest::AnyException(RuleException::StrikesIgnoreWarded));
            let reduction: int = if chain_link(kind) > 0 { crate::tally::spec_chain_damage_reduction(st, canon, catalog, def) as int } else { 0 };
            let raw: int = acs.atk + edge + bonus + (if a_echo { ECHO_BONUS as int } else { 0 })
                - spec_eff_defense(dcs.def, ac.arcane, warded) - dcs.dmg_reduction - reduction;
            let full: int = if raw > 0 { raw } else { 0 };
            let keep: int = if d.hp - 1 > 0 { d.hp - 1 } else { 0 };
            dealt == if a.spec_echo_eligible()
                && spec_card_static_has(canon, catalog, d.card, ClauseTest::AnyException(RuleException::UnbanishableByEcho))
                && full > keep { keep } else { full }
        },
{
}

/// Raising the defender's retaliation by `k` raises the blow it strikes back by exactly `k`,
/// whenever that blow lands for more than nothing.
pub proof fn law_retaliation_adds_to_the_blow_back(
    acs: CombatStats,
    dcs: CombatStats,
    ac: CardDef,
    dc: CardDef,
    d_hp: i16,
    link: int,
    reduction: int,
    warded: bool,
    unbanishable: bool,
    bonus: i16,
    a_echo: bool,
    d_echo: bool,
    k: i16,
)
    requires
        k >= 0,
        dcs.retaliation + k <= i16::MAX,
        strike_numbers(acs, dcs, ac, dc, d_hp, link, reduction, warded, unbanishable, bonus, a_echo, d_echo).1 > 0,
    ensures
        strike_numbers(acs, CombatStats { retaliation: (dcs.retaliation + k) as i16, ..dcs }, ac, dc, d_hp, link, reduction,
            warded, unbanishable, bonus, a_echo, d_echo).1
            == strike_numbers(acs, dcs, ac, dc, d_hp, link, reduction, warded, unbanishable, bonus, a_echo, d_echo).1 + k,
{
}

// ---------------------------------------------------------------------------
// Playing a spirit
// ---------------------------------------------------------------------------

/// An accepted play ends with the played card's arrival on the chosen tile for the acting
/// seat, at its printed numbers, face down exactly when the card is a Lurker.
pub proof fn law_a_played_spirit_arrives_as_printed(
    st: GameState,
    canon: Canon,
    catalog: Seq<CardDef>,
    actor: Seat,
    hand_index: u8,
    tile: u8,
    engage: Option<u8>,
)
    ensures
        spec_play_spirit(st, canon, catalog, actor, hand_index, tile, engage) matches Ok(evs) ==> {
            &&& hand_card(st, hand_index) is Some
            &&& evs.len() >= 2
            &&& evs.last() matches Event::SpiritPlayed { seat, card, tile: t, attack, defense, hp, face_down }
            &&& seat == actor
            &&& card == hand_card(st, hand_index)->Some_0
            &&& t == tile
            &&& attack == spec_card(catalog, card).attack
            &&& defense == spec_card(catalog, card).defense
            &&& hp == spec_card(catalog, card).hp
            &&& face_down == spec_card(catalog, card).lurk
        },
{
    match spec_play_spirit(st, canon, catalog, actor, hand_index, tile, engage) {
        Ok(evs) => {
            let cid = hand_card(st, hand_index)->Some_0;
            let c = spec_card(catalog, cid);
            let cost = crate::spellbook::effective_cost(st, canon, catalog, actor, c.cost, 0);
            let head = seq![Event::AnimaSpent { seat: actor, amount: cost }] + crate::spellbook::tax_events(st, actor);
            let last = Event::SpiritPlayed { seat: actor, card: cid, tile, attack: c.attack, defense: c.defense, hp: c.hp, face_down: c.lurk };
            assert(evs == head + seq![last]);
            assert((head + seq![last]).last() == last);
        },
        Err(_) => {},
    }
}

// ---------------------------------------------------------------------------
// The Overwrite's blow
// ---------------------------------------------------------------------------

/// An accepted Overwrite of a standing spirit deals it the overwriter's Attack plus its
/// Edge (the card's Resonance over the occupant card's), less the occupant's effective
/// Defense (Arcane against its effective Warded), never below nothing; the tile is won
/// exactly when that leaves the occupant no Form. The occupant strikes back with its Attack,
/// its Edge and, when it is at Echo and the roll came up, the Echo bonus, less the
/// overwriter's effective Defense; the overwriter keeps its printed Form less that.
pub proof fn law_overwrite_blow(
    st: GameState,
    canon: Canon,
    catalog: Seq<CardDef>,
    actor: Seat,
    hand_index: u8,
    tile: u8,
    roll: bool,
)
    requires
        overwrite_in_range(st, canon, catalog, hand_index, tile, roll),
    ensures
        spec_overwrite(st, canon, catalog, actor, hand_index, tile, roll) matches Ok(evs) ==> (st.spec_spirit_at(tile) matches Some(occ) ==> {
            let c = spec_card(catalog, hand_card(st, hand_index)->Some_0);
            let oc = spec_card(catalog, occ.card);
            let w = spec_keyword_active(st, canon, catalog, tile, Keyword::Warded);
            let raw: int = c.attack + (if c.resonance.spec_edge_over(oc.resonance) { EDGE as int } else { 0 })
                - spec_eff_defense(occ.defense, c.arcane, w);
            let dealt: int = if raw > 0 { raw } else { 0 };
            let echo = occ.spec_echo_eligible() && roll;
            let back: int = occ.attack + (if oc.resonance.spec_edge_over(c.resonance) { EDGE as int } else { 0 })
                + (if echo { ECHO_BONUS as int } else { 0 }) - spec_eff_defense(c.defense, oc.arcane, c.warded);
            &&& evs.len() == 2
            &&& evs[1] matches Event::Overwrote { damage_to_defender, success, .. }
            &&& damage_to_defender == dealt
            &&& success == (occ.hp - dealt <= 0)
            &&& evs[1] matches Event::Overwrote { defender_echo, attacker_hp_left, attacker_hp_max, .. }
            &&& defender_echo == echo
            &&& attacker_hp_max == c.hp
            &&& attacker_hp_left == c.hp - (if back > 0 { back } else { 0 })
        }),
{
}

// ---------------------------------------------------------------------------
// The interception's bite
// ---------------------------------------------------------------------------

/// An interception bites with the interceptor's Attack plus its Edge (its card's Resonance
/// over the arrival card's), less the arrival's effective Defense (Arcane against the
/// arrival's Warded, unless the interceptor's strikes ignore Warded), never below nothing;
/// it may Echo exactly when it is at Echo and no enemy Lullaby stands beside it.
pub proof fn law_interception_bite(st: GameState, canon: Canon, catalog: Seq<CardDef>, arrival: u8, actor: Seat)
    ensures
        spec_interception(st, canon, catalog, arrival, actor) matches Some((it, base, echo_possible)) ==> {
            let icp = st.board@[it as int].spirit->Some_0;
            let arr = st.spec_spirit_at(arrival)->Some_0;
            let ic = spec_card(catalog, icp.card);
            let w = spec_keyword_active(st, canon, catalog, arrival, Keyword::Warded)
                && !spec_card_static_has(canon, catalog, icp.card, ClauseTest::AnyException(RuleException::StrikesIgnoreWarded));
            let raw: int = icp.attack + (if ic.resonance.spec_edge_over(spec_card(catalog, arr.card).resonance) { EDGE as int } else { 0 })
                - spec_eff_defense(arr.defense, ic.arcane, w);
            &&& base == if raw > 0 { raw } else { 0 }
            &&& echo_possible == (icp.spec_echo_eligible() && !crate::auras::spec_echo_suppressed(st, canon, catalog, it))
        },
{
}

// ---------------------------------------------------------------------------
// Momentum's target
// ---------------------------------------------------------------------------

/// The enemy on `t` falls to a chain blow of the spirit on `tile` at `bonus`: its Form is
/// no more than the chaining spirit's Attack plus the bonus and its Edge (card Resonance over
/// card Resonance), less the enemy's effective Defense (Arcane against its effective
/// Warded), never below nothing.
pub open spec fn chain_fells(st: GameState, canon: Canon, catalog: Seq<CardDef>, tile: u8, bonus: int, t: u8) -> bool {
    &&& st.spec_spirit_at(tile) matches Some(sp)
    &&& st.spec_spirit_at(t) matches Some(e)
    &&& {
        let c = spec_card(catalog, sp.card);
        let raw: int = sp.attack + bonus
            + (if c.resonance.spec_edge_over(spec_card(catalog, e.card).resonance) { EDGE as int } else { 0 })
            - spec_eff_defense(e.defense, c.arcane, spec_keyword_active(st, canon, catalog, t, Keyword::Warded));
        e.hp <= if raw > 0 { raw } else { 0 }
    }
}

proof fn lemma_enemies_stand(st: GameState, actor: Seat, ts: Seq<u8>, n: int)
    requires
        0 <= n <= ts.len(),
    ensures
        forall|k: int| 0 <= k < enemies_in(st, actor, ts, n).len()
            ==> (#[trigger] st.spec_spirit_at(enemies_in(st, actor, ts, n)[k])) is Some,
    decreases n,
{
    if n > 0 {
        lemma_enemies_stand(st, actor, ts, n - 1);
        let p = enemies_in(st, actor, ts, n - 1);
        assert forall|k: int| 0 <= k < enemies_in(st, actor, ts, n).len()
            implies (#[trigger] st.spec_spirit_at(enemies_in(st, actor, ts, n)[k])) is Some by {
            if k < p.len() {
                assert(enemies_in(st, actor, ts, n)[k] == p[k]);
            }
        }
    }
}

proof fn lemma_last_best_in(st: GameState, canon: Canon, catalog: Seq<CardDef>, sp: crate::state::Spirit, def: CardDef, bonus: int, ts: Seq<u8>, n: int)
    requires
        1 <= n <= ts.len(),
    ensures
        exists|j: int| 0 <= j < n && ts[j] == last_best(st, canon, catalog, sp, def, bonus, ts, n),
    decreases n,
{
    if n > 1 {
        lemma_last_best_in(st, canon, catalog, sp, def, bonus, ts, n - 1);
        let m = last_best(st, canon, catalog, sp, def, bonus, ts, n);
        if m == ts[n - 1] {
            assert(ts[n - 1] == m);
        }
    } else {
        assert(ts[0] == last_best(st, canon, catalog, sp, def, bonus, ts, n));
    }
}

/// Momentum goes for the kill: with no stated preference, when any enemy in the chaining
/// spirit's reach would fall to the link's blow (`chain_fells`, counting its Edge), the
/// enemy the link takes falls too; among enemies that fall alike, it takes one of the highest
/// Form.
pub proof fn law_chain_takes_a_felling_target(
    st: GameState,
    canon: Canon,
    catalog: Seq<CardDef>,
    tile: u8,
    actor: Seat,
    link: int,
    u: u8,
)
    ensures
        spec_momentum_link(st, canon, catalog, tile, actor, link, Seq::empty()) matches Some((t, bonus)) ==> {
            let sp = st.spec_spirit_at(tile)->Some_0;
            let reach = spec_targeting_reach(st, canon, catalog, spec_card(catalog, sp.card).reach, tile, actor, st.board_w);
            let ts = enemies_in(st, actor, reach, reach.len() as int);
            &&& ts.contains(u) && chain_fells(st, canon, catalog, tile, bonus, u) ==> chain_fells(st, canon, catalog, tile, bonus, t)
            &&& ts.contains(u) && chain_fells(st, canon, catalog, tile, bonus, u) == chain_fells(st, canon, catalog, tile, bonus, t)
                ==> st.spec_spirit_at(u)->Some_0.hp <= st.spec_spirit_at(t)->Some_0.hp
        },
{
    match spec_momentum_link(st, canon, catalog, tile, actor, link, Seq::empty()) {
        Some((t, bonus)) => {
            let sp = st.spec_spirit_at(tile)->Some_0;
            let def = spec_card(catalog, sp.card);
            let reach = spec_targeting_reach(st, canon, catalog, def.reach, tile, actor, st.board_w);
            let ts = enemies_in(st, actor, reach, reach.len() as int);
            assert(first_pref(Seq::<u8>::empty(), ts, 0) is None);
            if ts.contains(u) {
                let k = choose|k: int| 0 <= k < ts.len() && ts[k] == u;
                lemma_enemies_stand(st, actor, reach, reach.len() as int);
                lemma_last_best_in(st, canon, catalog, sp, def, bonus, ts, ts.len() as int);
                crate::laws::lemma_last_best_tops(st, canon, catalog, sp, def, bonus, ts, ts.len() as int, k);
                assert(t == last_best(st, canon, catalog, sp, def, bonus, ts, ts.len() as int));
                let j = choose|j: int| 0 <= j < ts.len() && ts[j] == t;
                assert(st.spec_spirit_at(ts[j]) is Some);
                assert(st.spec_spirit_at(ts[k]) is Some);
                assert(crate::momentum::falls_to(st, canon, catalog, sp, def, bonus, u) == chain_fells(st, canon, catalog, tile, bonus, u));
                assert(crate::momentum::falls_to(st, canon, catalog, sp, def, bonus, t) == chain_fells(st, canon, catalog, tile, bonus, t));
            }
        },
        None => {},
    }
}

} // verus!
