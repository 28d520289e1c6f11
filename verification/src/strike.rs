//! The numbers of one exchange: what the attacker deals, what the defender strikes back,
//! from the two spirits' effective combat stats, Edges, Echo, Warded and the chain's
//! context. Whether each side rolled Echo is a random draw, handed in.
use vstd::prelude::*;

use crate::auras::{card_carries_static_exception, echo_suppressed, lemma_wf_small, spec_card_static_has, spec_echo_suppressed, ClauseTest};
use crate::cards::{card, catalog_has, spec_card};
use crate::combat::{combat_stats, spec_combat_stats, CombatStats};
use crate::effects::{Canon, Keyword, RuleException};
use crate::events::StrikeKind;
use crate::keywords::{eff_warded, spec_keyword_active};
use crate::projection::{cards_known, eff_defense, spec_eff_defense};
use crate::rules::{ECHO_BONUS, EDGE};
use crate::state::{GameState, Temperament};
use crate::tally::{chain_damage_reduction, spec_chain_damage_reduction};
use crate::events::Event;
use crate::projection::{full_reach_delta, oriented_w, spec_full_reach_delta, spec_oriented_w, spec_widen_oriented, widen_oriented};
use crate::types::{is_rim_w, spec_is_rim_w, CardDef, Reach, Resonance, Seat, BOARD_W};

verus! {

/// The spirit on `tile` may Echo this exchange: it is down to half its Form or less and
/// no enemy Lullaby stands beside it. Whether it does is a random roll.
pub open spec fn spec_echo_live(st: GameState, canon: Canon, catalog: Seq<CardDef>, tile: u8) -> bool {
    &&& st.spec_spirit_at(tile) matches Some(sp)
    &&& sp.spec_echo_eligible()
    &&& !spec_echo_suppressed(st, canon, catalog, tile)
}

pub fn echo_live(sim: &GameState, canon: &Canon, catalog: &[CardDef], tile: u8) -> (r: bool)
    requires
        sim.wf(),
    ensures
        r == spec_echo_live(*sim, *canon, catalog@, tile),
{
    match sim.spirit_at(tile) {
        Some(sp) => sp.echo_eligible() && !echo_suppressed(sim, canon, catalog, tile),
        None => false,
    }
}

/// The Resonance a spirit strikes with: its Attuned one, else its card's.
pub open spec fn strike_resonance(cs: CombatStats, printed: Resonance) -> Resonance {
    match cs.resonance {
        Some(r) => r,
        None => printed,
    }
}

/// The Edge a striker of `mine` has against `theirs`, unless an aura negates it.
pub open spec fn strike_edge(mine: Resonance, theirs: Resonance, negated: bool) -> int {
    if mine.spec_edge_over(theirs) && !negated { EDGE as int } else { 0 }
}

/// The link of a Momentum chain (0 off a chain).
pub open spec fn chain_link(kind: StrikeKind) -> int {
    match kind {
        StrikeKind::Chain(l) => l as int,
        _ => 0,
    }
}

/// At least zero.
pub open spec fn floor0(x: int) -> int {
    if x >= 0 { x } else { 0 }
}

/// The two blows from the sides' effective stats (`acs`, `dcs`), cards (`ac`, `dc`) and
/// spirits' Form: the attacker's Attack, Edge, the bonus and its Echo bonus, less the
/// defender's effective Defense (`warded` for the Warded it counts), damage reduction and
/// `reduction` on a chain link, kept to leave 1 Form when `unbanishable`; the defender's
/// Attack, retaliation, Edge and Echo bonus, less the attacker's effective Defense and
/// damage reduction, or nothing on a later link of a chain that takes no retaliation.
pub open spec fn strike_numbers(
    acs: CombatStats,
    dcs: CombatStats,
    ac: CardDef,
    dc: CardDef,
    d_hp: i16,
    link: int,
    reduction: int,
    warded: bool,
    unbanishable: bool,
    bonus: i16,
    a_echo: bool,
    d_echo: bool,
) -> (int, int) {
    let ares = strike_resonance(acs, ac.resonance);
    let dres = strike_resonance(dcs, dc.resonance);
    let dealt = floor0(acs.atk + strike_edge(ares, dres, acs.edge_negated_against) + bonus
        + (if a_echo { ECHO_BONUS as int } else { 0 })
        - spec_eff_defense(dcs.def, ac.arcane, warded) - dcs.dmg_reduction - reduction);
    let capped = if unbanishable {
        let keep = floor0(d_hp - 1);
        if dealt <= keep { dealt } else { keep }
    } else {
        dealt
    };
    let back = if link >= 2 && acs.chain_no_retaliation {
        0
    } else {
        floor0(dcs.atk + dcs.retaliation + strike_edge(dres, ares, dcs.edge_negated_against)
            + (if d_echo { ECHO_BONUS as int } else { 0 })
            - spec_eff_defense(acs.def, dc.arcane, ac.warded) - acs.dmg_reduction)
    };
    (capped, back)
}

/// What the attacker on `att` deals the defender on `def` and what it takes back, when both
/// stand (`None` otherwise): `strike_numbers` over their effective stats, with the chain
/// reduction of the defender's allies on a chain link, the defender's effective Warded
/// unless the attacker's strikes ignore it, and the Forgiven Debt when the attacker is at
/// Echo and the defender's card cannot be banished by Echo.
pub open spec fn spec_strikes(
    st: GameState,
    canon: Canon,
    catalog: Seq<CardDef>,
    att: u8,
    def: u8,
    kind: StrikeKind,
    bonus: i16,
    a_echo: bool,
    d_echo: bool,
) -> Option<(int, int)> {
    match (st.spec_spirit_at(att), st.spec_spirit_at(def)) {
        (Some(a), Some(d)) => {
            let link = chain_link(kind);
            Some(strike_numbers(
                spec_combat_stats(st, canon, catalog, att, Some(def)),
                spec_combat_stats(st, canon, catalog, def, Some(att)),
                spec_card(catalog, a.card),
                spec_card(catalog, d.card),
                d.hp,
                link,
                if link > 0 { spec_chain_damage_reduction(st, canon, catalog, def) as int } else { 0 },
                spec_keyword_active(st, canon, catalog, def, Keyword::Warded)
                    && !spec_card_static_has(canon, catalog, a.card, ClauseTest::AnyException(RuleException::StrikesIgnoreWarded)),
                a.spec_echo_eligible()
                    && spec_card_static_has(canon, catalog, d.card, ClauseTest::AnyException(RuleException::UnbanishableByEcho)),
                bonus,
                a_echo,
                d_echo,
            ))
        },
        _ => None,
    }
}

#[verifier::rlimit(40)]
#[verifier::spinoff_prover]
fn strike_numbers_exec(
    acs: &CombatStats,
    dcs: &CombatStats,
    ac: &CardDef,
    dc: &CardDef,
    d_hp: i16,
    link: u8,
    reduction: i16,
    warded: bool,
    unbanishable: bool,
    bonus: i16,
    a_echo: bool,
    d_echo: bool,
) -> (r: (i32, i32))
    ensures
        (r.0 as int, r.1 as int) == strike_numbers(*acs, *dcs, *ac, *dc, d_hp, link as int, reduction as int, warded,
            unbanishable, bonus, a_echo, d_echo),
{
    let ares = match acs.resonance {
        Some(r) => r,
        None => ac.resonance,
    };
    let dres = match dcs.resonance {
        Some(r) => r,
        None => dc.resonance,
    };
    let a_edge: i32 = if ares.edge_over(dres) && !acs.edge_negated_against { EDGE as i32 } else { 0 };
    let d_edge: i32 = if dres.edge_over(ares) && !dcs.edge_negated_against { EDGE as i32 } else { 0 };
    let a_bonus: i32 = if a_echo { ECHO_BONUS as i32 } else { 0 };
    let d_bonus: i32 = if d_echo { ECHO_BONUS as i32 } else { 0 };
    let raw: i32 = acs.atk as i32 + a_edge + bonus as i32 + a_bonus - eff_defense(dcs.def, ac.arcane, warded) as i32
        - dcs.dmg_reduction as i32 - reduction as i32;
    let dealt: i32 = if raw >= 0 { raw } else { 0 };
    let capped: i32 = if unbanishable {
        let keep: i32 = if d_hp as i32 - 1 >= 0 { d_hp as i32 - 1 } else { 0 };
        if dealt <= keep { dealt } else { keep }
    } else {
        dealt
    };
    let back: i32 = if link >= 2 && acs.chain_no_retaliation {
        0
    } else {
        let v: i32 = dcs.atk as i32 + dcs.retaliation as i32 + d_edge + d_bonus
            - eff_defense(acs.def, dc.arcane, ac.warded) as i32 - acs.dmg_reduction as i32;
        if v >= 0 { v } else { 0 }
    };
    (capped, back)
}

/// The two blows of an exchange.
#[derive(Debug, Clone, Copy)]
pub struct Strikes {
    /// What the attacker deals the defender.
    pub to_defender: i16,
    /// What the defender strikes back.
    pub to_attacker: i16,
}

/// The numbers of the exchange between the attacker on `att` and the defender on `def`
/// (see `spec_strikes`); `None` when either tile holds no spirit.
#[verifier::rlimit(30)]
pub fn exchange_strikes(
    sim: &GameState,
    canon: &Canon,
    catalog: &[CardDef],
    att: u8,
    def: u8,
    kind: StrikeKind,
    bonus: i16,
    a_echo: bool,
    d_echo: bool,
) -> (r: Option<Strikes>)
    requires
        sim.wf(),
        cards_known(*sim, catalog@),
        spec_strikes(*sim, *canon, catalog@, att, def, kind, bonus, a_echo, d_echo) matches Some(p)
            ==> p.0 <= i16::MAX && p.1 <= i16::MAX,
    ensures
        match r {
            Some(s) => spec_strikes(*sim, *canon, catalog@, att, def, kind, bonus, a_echo, d_echo)
                == Some((s.to_defender as int, s.to_attacker as int)),
            None => spec_strikes(*sim, *canon, catalog@, att, def, kind, bonus, a_echo, d_echo) is None,
        },
{
    proof {
        lemma_wf_small(*sim);
    }
    let a = match sim.spirit_at(att) {
        Some(a) => a,
        None => return None,
    };
    let d = match sim.spirit_at(def) {
        Some(d) => d,
        None => return None,
    };
    let ac = card(catalog, a.card);
    let dc = card(catalog, d.card);
    let acs = combat_stats(sim, canon, catalog, att, Some(def));
    let dcs = combat_stats(sim, canon, catalog, def, Some(att));
    let link: u8 = match kind {
        StrikeKind::Chain(l) => l,
        _ => 0,
    };
    let reduction: i16 = if link > 0 { chain_damage_reduction(sim, canon, catalog, def) } else { 0 };
    let warded = eff_warded(sim, canon, catalog, def)
        && !card_carries_static_exception(canon, catalog, a.card, RuleException::StrikesIgnoreWarded);
    let unbanishable = a.echo_eligible()
        && card_carries_static_exception(canon, catalog, d.card, RuleException::UnbanishableByEcho);
    let (capped, back) = strike_numbers_exec(&acs, &dcs, ac, dc, d.hp, link, reduction, warded, unbanishable, bonus, a_echo, d_echo);
    Some(Strikes { to_defender: capped as i16, to_attacker: back as i16 })
}

// ---------------------------------------------------------------------------
// Interception
// ---------------------------------------------------------------------------

/// The spirit on tile `i` may intercept for `defender`: standing, not Held, face up, not
/// yet intercepting this round, free to engage, and not on a dark rim.
pub open spec fn can_intercept(st: GameState, i: int, defender: Seat) -> bool {
    &&& st.board@[i].spirit matches Some(sp)
    &&& sp.owner == defender
    &&& !sp.fading
    &&& !sp.holding
    &&& !sp.face_down
    &&& !sp.intercepted_this_round
    &&& sp.no_engage_until < st.round
    &&& !(st.contracted && spec_is_rim_w(i as u8, st.board_w))
}

/// The tiles the spirit on tile `i` bites, facing for `defender`: its Reach (or the one it
/// copied) on the 1v1 grid, widened by this round's full reach buffs.
pub open spec fn bite_zone(st: GameState, catalog: Seq<CardDef>, i: int, defender: Seat) -> Seq<u8> {
    let sp = st.board@[i].spirit->Some_0;
    let reach = match sp.copied_reach {
        Some(r) => r,
        None => spec_card(catalog, sp.card).reach,
    };
    let (fwd, all) = spec_full_reach_delta(st, i as u8, defender);
    spec_widen_oriented(spec_oriented_w(reach, i as u8, defender, BOARD_W), fwd, all, defender, st.board_w)
}

/// The best-placed interceptor among the first `n` tiles: the highest Attack among those
/// that may intercept and bite the arrival, the first of them on a tie.
pub open spec fn best_interceptor(st: GameState, catalog: Seq<CardDef>, defender: Seat, arrival: u8, n: int) -> Option<u8>
    decreases n,
{
    if n <= 0 {
        None
    } else {
        let prev = best_interceptor(st, catalog, defender, arrival, n - 1);
        if can_intercept(st, n - 1, defender) && bite_zone(st, catalog, n - 1, defender).contains(arrival) {
            match prev {
                None => Some((n - 1) as u8),
                Some(t) => if st.board@[n - 1].spirit->Some_0.attack > st.board@[t as int].spirit->Some_0.attack {
                    Some((n - 1) as u8)
                } else {
                    prev
                },
            }
        } else {
            prev
        }
    }
}

/// The interception an arrival on `arrival` (played by `actor`) draws: the interceptor's
/// tile, its bite before Echo, and whether it may Echo. None when the arrival is gone or
/// fading, immune to interception, out of every enemy's reach, or there is nothing to bite
/// with and no Echo to roll.
pub open spec fn spec_interception(st: GameState, canon: Canon, catalog: Seq<CardDef>, arrival: u8, actor: Seat) -> Option<(u8, int, bool)> {
    match st.spec_spirit_at(arrival) {
        Some(arr) => if arr.fading
            || spec_card_static_has(canon, catalog, arr.card, ClauseTest::AnyException(RuleException::ImmuneToInterception)) {
            None
        } else {
            match best_interceptor(st, catalog, actor.spec_other(), arrival, st.board@.len() as int) {
                Some(it) => {
                    let icp = st.board@[it as int].spirit->Some_0;
                    let ic = spec_card(catalog, icp.card);
                    let echo_possible = icp.spec_echo_eligible() && !spec_echo_suppressed(st, canon, catalog, it);
                    let edge = if ic.resonance.spec_edge_over(spec_card(catalog, arr.card).resonance) { EDGE as int } else { 0 };
                    let warded = spec_keyword_active(st, canon, catalog, arrival, Keyword::Warded)
                        && !spec_card_static_has(canon, catalog, icp.card, ClauseTest::AnyException(RuleException::StrikesIgnoreWarded));
                    let base = floor0(icp.attack + edge - spec_eff_defense(arr.defense, ic.arcane, warded));
                    if base == 0 && !echo_possible { None } else { Some((it, base, echo_possible)) }
                },
                None => None,
            }
        },
        None => None,
    }
}

/// An interception's bite, before the Echo roll.
#[derive(Debug, Clone, Copy)]
pub struct Bite {
    /// The interceptor's tile.
    pub tile: u8,
    /// The damage before Echo.
    pub base: i16,
    /// The interceptor may Echo: the caller rolls for it.
    pub echo_possible: bool,
}

fn bites(st: &GameState, catalog: &[CardDef], i: usize, defender: Seat, arrival: u8) -> (r: bool)
    requires
        st.wf(),
        5 <= st.board_w,
        cards_known(*st, catalog@),
        i < st.board@.len(),
        st.board@[i as int].spirit is Some,
    ensures
        r == bite_zone(*st, catalog@, i as int, defender).contains(arrival),
{
    proof {
        lemma_wf_small(*st);
        assert(25 <= st.board_w * st.board_w) by (nonlinear_arith)
            requires 5 <= st.board_w;
    }
    let sp = match &st.board[i].spirit {
        Some(sp) => sp,
        None => return false,
    };
    let reach = match sp.copied_reach {
        Some(r) => r,
        None => card(catalog, sp.card).reach,
    };
    let (fwd, all) = full_reach_delta(st, i as u8, defender);
    let base = oriented_w(reach, i as u8, defender, BOARD_W);
    let zone = widen_oriented(base, fwd, all, defender, st.board_w);
    assert(zone@ == bite_zone(*st, catalog@, i as int, defender));
    let m = zone.len();
    for k in 0..m
        invariant
            m == zone@.len(),
            zone@ == bite_zone(*st, catalog@, i as int, defender),
            forall|j: int| 0 <= j < k ==> zone@[j] != arrival,
    {
        if zone[k] == arrival {
            assert(zone@[k as int] == arrival);
            return true;
        }
    }
    false
}

fn interceptor_exec(st: &GameState, catalog: &[CardDef], defender: Seat, arrival: u8) -> (r: Option<u8>)
    requires
        st.wf(),
        5 <= st.board_w,
        cards_known(*st, catalog@),
    ensures
        r == best_interceptor(*st, catalog@, defender, arrival, st.board@.len() as int),
        r matches Some(t) ==> (t as int) < st.board@.len() && st.board@[t as int].spirit is Some,
{
    proof {
        lemma_wf_small(*st);
    }
    let n = st.board.len();
    let mut best: Option<(u8, i16)> = None;
    for i in 0..n
        invariant
            n == st.board@.len() <= 64,
            st.wf(),
            5 <= st.board_w,
            cards_known(*st, catalog@),
            match best {
                Some((t, a)) => {
                    &&& best_interceptor(*st, catalog@, defender, arrival, i as int) == Some(t)
                    &&& (t as int) < i
                    &&& st.board@[t as int].spirit is Some
                    &&& st.board@[t as int].spirit->Some_0.attack == a
                },
                None => best_interceptor(*st, catalog@, defender, arrival, i as int) is None,
            },
    {
        let ok = match &st.board[i].spirit {
            Some(sp) => sp.owner == defender && !sp.fading && !sp.holding && !sp.face_down && !sp.intercepted_this_round
                && sp.no_engage_until < st.round && !(st.contracted && is_rim_w(i as u8, st.board_w)),
            None => false,
        };
        if ok && bites(st, catalog, i, defender, arrival) {
            let atk = match &st.board[i].spirit {
                Some(sp) => sp.attack,
                None => 0,
            };
            let better = match best {
                None => true,
                Some((_, a)) => atk > a,
            };
            if better {
                best = Some((i as u8, atk));
            }
        }
    }
    match best {
        Some((t, _)) => Some(t),
        None => None,
    }
}

/// The Arrival Law's middle step, up to the Echo roll: the best-placed enemy of the arrival
/// on `arrival` that may intercept it and has it in reach, with the bite it deals before
/// Echo and whether it may Echo (see `spec_interception`). The caller rolls the Echo and
/// strikes with `strike_interception`.
#[verifier::rlimit(30)]
pub fn interception(sim: &GameState, canon: &Canon, catalog: &[CardDef], arrival: u8, actor: Seat) -> (r: Option<Bite>)
    requires
        sim.wf(),
        5 <= sim.board_w,
        cards_known(*sim, catalog@),
        spec_interception(*sim, *canon, catalog@, arrival, actor) matches Some(p) ==> p.1 <= i16::MAX,
    ensures
        match r {
            Some(b) => spec_interception(*sim, *canon, catalog@, arrival, actor)
                == Some((b.tile, b.base as int, b.echo_possible)),
            None => spec_interception(*sim, *canon, catalog@, arrival, actor) is None,
        },
{
    proof {
        lemma_wf_small(*sim);
    }
    let arr = match sim.spirit_at(arrival) {
        Some(a) => a,
        None => return None,
    };
    if arr.fading || card_carries_static_exception(canon, catalog, arr.card, RuleException::ImmuneToInterception) {
        return None;
    }
    let it = match interceptor_exec(sim, catalog, actor.other(), arrival) {
        Some(t) => t,
        None => return None,
    };
    let icp = match &sim.board[it as usize].spirit {
        Some(sp) => sp,
        None => return None,
    };
    let ic = card(catalog, icp.card);
    let echo_possible = icp.echo_eligible() && !echo_suppressed(sim, canon, catalog, it);
    let edge: i32 = if ic.resonance.edge_over(card(catalog, arr.card).resonance) { EDGE as i32 } else { 0 };
    let warded = eff_warded(sim, canon, catalog, arrival)
        && !card_carries_static_exception(canon, catalog, icp.card, RuleException::StrikesIgnoreWarded);
    let raw: i32 = icp.attack as i32 + edge - eff_defense(arr.defense, ic.arcane, warded) as i32;
    let base: i32 = if raw >= 0 { raw } else { 0 };
    if base == 0 && !echo_possible {
        return None;
    }
    Some(Bite { tile: it, base: base as i16, echo_possible })
}

/// The interceptor bites: one strike, no retaliation, with the Echo bonus when it rolled
/// Echo. The answer is whether the blow fells the arrival, for the caller to banish it.
pub fn strike_interception(sim: &mut GameState, evs: &mut Vec<Event>, arrival: u8, bite: &Bite, echo: bool) -> (felled: bool)
    requires
        bite.base + (if echo { ECHO_BONUS as int } else { 0 }) <= i16::MAX,
        bite.base >= 0,
        crate::events::event_ok(*old(sim), Event::Struck {
            from_tile: bite.tile,
            to_tile: arrival,
            damage: (bite.base + if echo { ECHO_BONUS as int } else { 0 }) as i16,
            echo,
            kind: StrikeKind::Interception,
        }),
    ensures
        ({
            let dmg = (bite.base + if echo { ECHO_BONUS as int } else { 0 }) as i16;
            &&& crate::events::spec_applied(*old(sim), Event::Struck { from_tile: bite.tile, to_tile: arrival, damage: dmg, echo, kind: StrikeKind::Interception }, *final(sim))
            &&& final(evs)@ == old(evs)@.push(Event::Struck { from_tile: bite.tile, to_tile: arrival, damage: dmg, echo, kind: StrikeKind::Interception })
            &&& felled == (old(sim).spec_spirit_at(arrival) matches Some(a) && a.hp - dmg <= 0)
        }),
{
    let dmg: i16 = if echo { bite.base + ECHO_BONUS } else { bite.base };
    let felled = match sim.spirit_at(arrival) {
        Some(a) => a.hp as i32 - dmg as i32 <= 0,
        None => false,
    };
    crate::flow::push(sim, evs, Event::Struck { from_tile: bite.tile, to_tile: arrival, damage: dmg, echo, kind: StrikeKind::Interception });
    felled
}

// ---------------------------------------------------------------------------
// A Feral Stray defends its tile
// ---------------------------------------------------------------------------

/// A Feral Stray meets an arrival of `actor` on `arrival` in its reach: its tile, the bite
/// it deals (its Attack less the arrival's effective Defense) and the arrival's answer (the
/// arrival's Attack less the Stray's), each at least 0. None for a veiled, Gentle or Wary
/// Stray, an arrival gone, fading or not `actor`'s, or one out of the Stray's reach.
pub open spec fn spec_feral_plan(st: GameState, catalog: Seq<CardDef>, arrival: u8, actor: Seat) -> Option<(u8, int, int)> {
    match st.stray {
        Some(s) => if s.veiled || s.temperament != Temperament::Feral {
            None
        } else {
            match st.spec_spirit_at(arrival) {
                Some(a) => if a.fading || a.owner != actor {
                    None
                } else {
                    let sc = spec_card(catalog, s.card);
                    let ac = spec_card(catalog, a.card);
                    if !spec_oriented_w(sc.reach, s.tile, actor.spec_other(), st.board_w).contains(arrival) {
                        None
                    } else {
                        Some((
                            s.tile,
                            floor0(sc.attack - spec_eff_defense(a.defense, sc.arcane, ac.warded)),
                            floor0(a.attack - spec_eff_defense(sc.defense, ac.arcane, sc.warded)),
                        ))
                    }
                },
                None => None,
            }
        },
        None => None,
    }
}

/// A Feral Stray's meeting with an arrival.
#[derive(Debug, Clone, Copy)]
pub struct FeralPlan {
    /// The Stray's tile.
    pub tile: u8,
    /// What the Stray bites.
    pub bite: i16,
    /// What the arrival wounds it back.
    pub counter: i16,
}

/// Whether and how a Feral Stray meets the arrival on `arrival` (see `spec_feral_plan`).
pub fn feral_stray_plan(sim: &GameState, catalog: &[CardDef], arrival: u8, actor: Seat) -> (r: Option<FeralPlan>)
    requires
        sim.wf(),
        cards_known(*sim, catalog@),
        sim.stray matches Some(s) ==> catalog_has(catalog@, s.card),
        spec_feral_plan(*sim, catalog@, arrival, actor) matches Some(p) ==> p.1 <= i16::MAX && p.2 <= i16::MAX,
    ensures
        match r {
            Some(p) => spec_feral_plan(*sim, catalog@, arrival, actor) == Some((p.tile, p.bite as int, p.counter as int)),
            None => spec_feral_plan(*sim, catalog@, arrival, actor) is None,
        },
{
    let s = match &sim.stray {
        Some(s) => s,
        None => return None,
    };
    if s.veiled || !matches!(s.temperament, Temperament::Feral) {
        return None;
    }
    let a = match sim.spirit_at(arrival) {
        Some(a) => a,
        None => return None,
    };
    if a.fading || a.owner != actor {
        return None;
    }
    proof {
        assert(sim.board@[arrival as int].spirit == Some(*a));
    }
    let sc = card(catalog, s.card);
    let ac = card(catalog, a.card);
    let zone = oriented_w(sc.reach, s.tile, actor.other(), sim.board_w);
    let m = zone.len();
    let mut covered = false;
    for k in 0..m
        invariant
            m == zone@.len(),
            covered == (exists|j: int| 0 <= j < k && zone@[j] == arrival),
    {
        if zone[k] == arrival {
            covered = true;
        }
    }
    assert(covered == zone@.contains(arrival));
    if !covered {
        return None;
    }
    let bite: i32 = sc.attack as i32 - eff_defense(a.defense, sc.arcane, ac.warded) as i32;
    let counter: i32 = a.attack as i32 - eff_defense(sc.defense, ac.arcane, sc.warded) as i32;
    let bite: i32 = if bite >= 0 { bite } else { 0 };
    let counter: i32 = if counter >= 0 { counter } else { 0 };
    Some(FeralPlan { tile: s.tile, bite: bite as i16, counter: counter as i16 })
}

/// The Stray bites the arrival (when its bite is positive): a single strike that cannot
/// Echo. The answer is whether the caller must banish the arrival: the Form it keeps after
/// the blow, less the bite once more, is no more than zero.
pub fn stray_bite(sim: &mut GameState, evs: &mut Vec<Event>, arrival: u8, plan: &FeralPlan) -> (felled: bool)
    requires
        plan.bite > 0 ==> crate::events::event_ok(*old(sim), Event::Struck {
            from_tile: plan.tile,
            to_tile: arrival,
            damage: plan.bite,
            echo: false,
            kind: StrikeKind::Interception,
        }),
    ensures
        plan.bite > 0 ==> {
            &&& crate::events::spec_applied(*old(sim), Event::Struck { from_tile: plan.tile, to_tile: arrival, damage: plan.bite, echo: false, kind: StrikeKind::Interception }, *final(sim))
            &&& final(evs)@ == old(evs)@.push(Event::Struck { from_tile: plan.tile, to_tile: arrival, damage: plan.bite, echo: false, kind: StrikeKind::Interception })
            &&& felled == (final(sim).spec_spirit_at(arrival) matches Some(a) && a.hp - plan.bite <= 0)
        },
        plan.bite <= 0 ==> *final(sim) == *old(sim) && final(evs)@ == old(evs)@ && !felled,
{
    if plan.bite <= 0 {
        return false;
    }
    crate::flow::push(sim, evs, Event::Struck { from_tile: plan.tile, to_tile: arrival, damage: plan.bite, echo: false, kind: StrikeKind::Interception });
    match sim.spirit_at(arrival) {
        Some(a) => a.hp as i32 - plan.bite as i32 <= 0,
        None => false,
    }
}

/// The events of the arrival's answer: the Stray's wound (its Form never shown below 0)
/// and, when that takes its last Form, its banishment under `actor`'s mark.
pub open spec fn counter_events(st: GameState, plan: FeralPlan, actor: Seat) -> Seq<Event> {
    if plan.counter > 0 && st.stray is Some {
        let s = st.stray->Some_0;
        let left = s.hp - plan.counter;
        seq![Event::StrayStruck { tile: s.tile, damage: plan.counter, hp: floor0(left) as i16 }]
            + if left <= 0 { seq![Event::StrayBanished { tile: s.tile, impression: actor }] } else { Seq::empty() }
    } else {
        Seq::empty()
    }
}

/// The arrival wounds the Stray back: the path by which a Feral Stray comes to bear its Echo
/// and, at last, to trust.
pub fn stray_counter(sim: &mut GameState, evs: &mut Vec<Event>, plan: &FeralPlan, actor: Seat)
    requires
        old(sim).stray matches Some(s) ==> i16::MIN <= s.hp - plan.counter,
        crate::flow::applicable(*old(sim), counter_events(*old(sim), *plan, actor)),
    ensures
        final(evs)@ == old(evs)@ + counter_events(*old(sim), *plan, actor),
        crate::flow::applies(*old(sim), counter_events(*old(sim), *plan, actor), *final(sim)),
{
    let mut list: Vec<Event> = Vec::new();
    if plan.counter > 0 {
        match &sim.stray {
            Some(s) => {
                let left: i16 = s.hp - plan.counter;
                list.push(Event::StrayStruck { tile: s.tile, damage: plan.counter, hp: if left >= 0 { left } else { 0 } });
                if left <= 0 {
                    list.push(Event::StrayBanished { tile: s.tile, impression: actor });
                }
            },
            None => {},
        }
    }
    assert(list@ == counter_events(*sim, *plan, actor));
    crate::flow::push_all(sim, evs, list);
}

} // verus!
