//! Momentum: after a defeat on arrival the spirit may engage again, at a rising bonus; a
//! Relentless spirit (or one granted the chain) keeps going while its blows keep felling.
//! This is the decision of each link: whether it comes, at what bonus, against whom.
use vstd::prelude::*;

use crate::auras::lemma_wf_small;
use crate::cards::{card, spec_card};
use crate::combat::{combat_stats, spec_combat_stats, CombatStats};
use crate::effects::{Canon, Keyword};
use crate::keywords::{eff_warded, spec_keyword_active};
use crate::projection::{cards_known, eff_defense, spec_eff_defense};
use crate::rules::{EDGE, MOMENTUM_PER_LINK};
use crate::state::{GameState, Spirit};
use crate::strike::floor0;
use crate::targeting::{spec_targeting_reach, targeting_reach};
use crate::events::{seat_get, Event};
use crate::types::{CardDef, Seat};

verus! {

/// The standing enemies of `actor` among the first `n` of `ts`, in order.
pub open spec fn enemies_in(st: GameState, actor: Seat, ts: Seq<u8>, n: int) -> Seq<u8>
    decreases n,
{
    if n <= 0 {
        Seq::empty()
    } else {
        enemies_in(st, actor, ts, n - 1) + if st.spec_spirit_at(ts[n - 1]) matches Some(e) && e.owner != actor && !e.fading {
            seq![ts[n - 1]]
        } else {
            Seq::empty()
        }
    }
}

/// The bonus of chain link `link`: the per-link Momentum (plus the spirit's extra per link)
/// times the link, counting one more on the first link for a first-engage bonus.
pub open spec fn link_bonus(cs: CombatStats, link: int) -> int {
    (MOMENTUM_PER_LINK + cs.momentum_per_link_bonus) * (link + if cs.momentum_first_bonus && link == 1 { 1int } else { 0int })
}

/// The enemy on `t` would fall to the chaining spirit `sp` (of card `def`) striking at
/// `bonus`: its Form is no more than the blow, counting the Edge and its effective Defense.
pub open spec fn falls_to(st: GameState, canon: Canon, catalog: Seq<CardDef>, sp: Spirit, def: CardDef, bonus: int, t: u8) -> bool {
    let e = st.spec_spirit_at(t)->Some_0;
    let ec = spec_card(catalog, e.card);
    let edge = if def.resonance.spec_edge_over(ec.resonance) { EDGE as int } else { 0 };
    e.hp <= floor0(sp.attack + bonus + edge - spec_eff_defense(e.defense, def.arcane, spec_keyword_active(st, canon, catalog, t, Keyword::Warded)))
}

/// The ranking of a chain target: those it would fell first, then the higher Form.
pub open spec fn rank(st: GameState, canon: Canon, catalog: Seq<CardDef>, sp: Spirit, def: CardDef, bonus: int, t: u8) -> (bool, i16) {
    (falls_to(st, canon, catalog, sp, def, bonus, t), st.spec_spirit_at(t)->Some_0.hp)
}

/// `a` ranks no higher than `b`.
pub open spec fn rank_le(a: (bool, i16), b: (bool, i16)) -> bool {
    (!a.0 && b.0) || (a.0 == b.0 && a.1 <= b.1)
}

/// The highest-ranked of the first `n` targets, the last of them on a tie.
pub open spec fn last_best(st: GameState, canon: Canon, catalog: Seq<CardDef>, sp: Spirit, def: CardDef, bonus: int, ts: Seq<u8>, n: int) -> u8
    decreases n,
{
    if n <= 1 {
        ts[0]
    } else {
        let m = last_best(st, canon, catalog, sp, def, bonus, ts, n - 1);
        if rank_le(rank(st, canon, catalog, sp, def, bonus, m), rank(st, canon, catalog, sp, def, bonus, ts[n - 1])) {
            ts[n - 1]
        } else {
            m
        }
    }
}

/// The first of `prefs` from `k` on that is among `ts`.
pub open spec fn first_pref(prefs: Seq<u8>, ts: Seq<u8>, k: int) -> Option<u8>
    decreases prefs.len() - k,
{
    if k < 0 || k >= prefs.len() {
        None
    } else if ts.contains(prefs[k]) {
        Some(prefs[k])
    } else {
        first_pref(prefs, ts, k + 1)
    }
}

/// Chain link `link` of the spirit on `tile` (playing for `actor`): `None` when the spirit
/// is gone or fading, when a later link finds it neither Relentless nor granted the chain,
/// or when no standing enemy is in its reach; else the target (the first preferred one in
/// reach, or the highest-ranked) and the link's bonus.
pub open spec fn spec_momentum_link(st: GameState, canon: Canon, catalog: Seq<CardDef>, tile: u8, actor: Seat, link: int, prefs: Seq<u8>) -> Option<(u8, int)> {
    match st.spec_spirit_at(tile) {
        Some(sp) => if sp.fading {
            None
        } else {
            let def = spec_card(catalog, sp.card);
            let cs = spec_combat_stats(st, canon, catalog, tile, None);
            if link > 1 && !def.relentless && !cs.chain_while_defeating {
                None
            } else {
                let bonus = link_bonus(cs, link);
                let reach = spec_targeting_reach(st, canon, catalog, def.reach, tile, actor, st.board_w);
                let ts = enemies_in(st, actor, reach, reach.len() as int);
                if ts.len() == 0 {
                    None
                } else {
                    match first_pref(prefs, ts, 0) {
                        Some(p) => Some((p, bonus)),
                        None => Some((last_best(st, canon, catalog, sp, def, bonus, ts, ts.len() as int), bonus)),
                    }
                }
            }
        },
        None => None,
    }
}

pub(crate) fn enemies_exec(st: &GameState, actor: Seat, ts: &Vec<u8>) -> (r: Vec<u8>)
    ensures
        r@ == enemies_in(*st, actor, ts@, ts@.len() as int),
        forall|k: int| 0 <= k < r@.len() ==> (#[trigger] st.spec_spirit_at(r@[k])) is Some,
{
    let n = ts.len();
    let mut out: Vec<u8> = Vec::new();
    for i in 0..n
        invariant
            n == ts@.len(),
            out@ == enemies_in(*st, actor, ts@, i as int),
            forall|k: int| 0 <= k < out@.len() ==> (#[trigger] st.spec_spirit_at(out@[k])) is Some,
    {
        let t = ts[i];
        let hit = match st.spirit_at(t) {
            Some(e) => e.owner != actor && !e.fading,
            None => false,
        };
        if hit {
            out.push(t);
        }
    }
    out
}

fn contains_u8(v: &Vec<u8>, x: u8) -> (r: bool)
    ensures
        r == v@.contains(x),
{
    let n = v.len();
    for i in 0..n
        invariant
            n == v@.len(),
            forall|j: int| 0 <= j < i ==> v@[j] != x,
    {
        if v[i] == x {
            assert(v@[i as int] == x);
            return true;
        }
    }
    false
}

fn first_pref_exec(prefs: &[u8], ts: &Vec<u8>) -> (r: Option<u8>)
    ensures
        r == first_pref(prefs@, ts@, 0),
{
    let n = prefs.len();
    for k in 0..n
        invariant
            n == prefs@.len(),
            first_pref(prefs@, ts@, 0) == first_pref(prefs@, ts@, k as int),
    {
        if contains_u8(ts, prefs[k]) {
            return Some(prefs[k]);
        }
    }
    None
}

fn rank_exec(st: &GameState, canon: &Canon, catalog: &[CardDef], sp: &Spirit, def: &CardDef, bonus: i16, t: u8) -> (r: (bool, i16))
    requires
        st.wf(),
        cards_known(*st, catalog@),
        st.spec_spirit_at(t) is Some,
    ensures
        r == rank(*st, *canon, catalog@, *sp, *def, bonus as int, t),
{
    let e = match st.spirit_at(t) {
        Some(e) => e,
        None => return (false, 0),
    };
    proof {
        assert(st.board@[t as int].spirit == Some(*e));
    }
    let ec = card(catalog, e.card);
    let edge: i32 = if def.resonance.edge_over(ec.resonance) { EDGE as i32 } else { 0 };
    let warded = eff_warded(st, canon, catalog, t);
    let blow: i32 = sp.attack as i32 + bonus as i32 + edge - eff_defense(e.defense, def.arcane, warded) as i32;
    let blow: i32 = if blow >= 0 { blow } else { 0 };
    (e.hp as i32 <= blow, e.hp)
}

/// Decide chain link `link` of the spirit on `tile` (see `spec_momentum_link`): the target
/// the link engages and its bonus, or `None` when the chain ends. The caller resolves the
/// exchange and asks for the next link after a defeat.
#[verifier::rlimit(40)]
pub fn momentum_link(sim: &GameState, canon: &Canon, catalog: &[CardDef], tile: u8, actor: Seat, link: i16, prefs: &[u8]) -> (r: Option<(u8, i16)>)
    requires
        sim.wf(),
        cards_known(*sim, catalog@),
        1 <= link < i16::MAX,
        i16::MIN <= link_bonus(spec_combat_stats(*sim, *canon, catalog@, tile, None), link as int) <= i16::MAX,
    ensures
        match r {
            Some((t, b)) => spec_momentum_link(*sim, *canon, catalog@, tile, actor, link as int, prefs@) == Some((t, b as int)),
            None => spec_momentum_link(*sim, *canon, catalog@, tile, actor, link as int, prefs@) is None,
        },
{
    proof {
        lemma_wf_small(*sim);
    }
    let sp = match sim.spirit_at(tile) {
        Some(sp) => sp,
        None => return None,
    };
    if sp.fading {
        return None;
    }
    proof {
        assert(sim.board@[tile as int].spirit == Some(*sp));
    }
    let def = card(catalog, sp.card);
    let cs = combat_stats(sim, canon, catalog, tile, None);
    if link > 1 && !def.relentless && !cs.chain_while_defeating {
        return None;
    }
    let first: i32 = if cs.momentum_first_bonus && link == 1 { 1 } else { 0 };
    let per: i32 = MOMENTUM_PER_LINK as i32 + cs.momentum_per_link_bonus as i32;
    let times: i32 = link as i32 + first;
    assert(per * times == link_bonus(cs, link as int));
    assert(i16::MIN <= per * times <= i16::MAX);
    let bonus: i16 = (per * times) as i16;
    let reach = targeting_reach(sim, canon, catalog, def.reach, tile, actor, sim.board_w);
    let ts = enemies_exec(sim, actor, &reach);
    if ts.len() == 0 {
        return None;
    }
    match first_pref_exec(prefs, &ts) {
        Some(p) => return Some((p, bonus)),
        None => {},
    }
    let mut best: u8 = ts[0];
    let mut best_rank = rank_exec(sim, canon, catalog, sp, def, bonus, best);
    let n = ts.len();
    for i in 1..n
        invariant
            n == ts@.len() >= 1,
            sim.wf(),
            cards_known(*sim, catalog@),
            forall|k: int| 0 <= k < ts@.len() ==> (#[trigger] sim.spec_spirit_at(ts@[k])) is Some,
            best == last_best(*sim, *canon, catalog@, *sp, *def, bonus as int, ts@, i as int),
            best_rank == rank(*sim, *canon, catalog@, *sp, *def, bonus as int, best),
    {
        let t = ts[i];
        let r = rank_exec(sim, canon, catalog, sp, def, bonus, t);
        if (!best_rank.0 && r.0) || (best_rank.0 == r.0 && best_rank.1 <= r.1) {
            best = t;
            best_rank = r;
        }
    }
    Some((best, bonus))
}

// ---------------------------------------------------------------------------
// Again!: a second engage for the next arrival
// ---------------------------------------------------------------------------

/// The enemies the arrival on `tile` may engage a second time: the standing enemies of
/// `actor` in its targeting reach, but not the one it first engaged.
pub open spec fn second_options(st: GameState, canon: Canon, catalog: Seq<CardDef>, actor: Seat, tile: u8, first: Option<u8>) -> Seq<u8> {
    let sp = st.spec_spirit_at(tile)->Some_0;
    let reach = spec_targeting_reach(st, canon, catalog, spec_card(catalog, sp.card).reach, tile, actor, st.board_w);
    let ts = enemies_in(st, actor, reach, reach.len() as int);
    not_first(ts, first, ts.len() as int)
}

/// The first `n` of `ts` without `first`.
pub open spec fn not_first(ts: Seq<u8>, first: Option<u8>, n: int) -> Seq<u8>
    decreases n,
{
    if n <= 0 {
        Seq::empty()
    } else {
        not_first(ts, first, n - 1) + if Some(ts[n - 1]) != first { seq![ts[n - 1]] } else { Seq::empty() }
    }
}

/// Again!: after the next arrival's first engage, a queued offer of a second engage is
/// spent (`NextArrivalSecondConsumed`) and, when the arrival still stands, comes back as
/// the enemies it may strike (see `second_options`) with the offer's Attack penalty, for
/// the caller to offer as a choice; `None` when nothing was queued, the arrival is gone or
/// fading, or no enemy is left to strike.
pub fn offer_second_engage(
    sim: &mut GameState,
    evs: &mut Vec<Event>,
    canon: &Canon,
    catalog: &[CardDef],
    actor: Seat,
    tile: u8,
    first: Option<u8>,
) -> (r: Option<(Vec<u8>, i16)>)
    requires
        old(sim).wf(),
        cards_known(*old(sim), catalog@),
    ensures
        seat_get(old(sim).next_arrival_2nd_engage, actor) is None ==> *final(sim) == *old(sim) && final(evs)@ == old(evs)@ && r is None,
        seat_get(old(sim).next_arrival_2nd_engage, actor) matches Some(penalty) ==> {
            &&& crate::events::spec_applied(*old(sim), Event::NextArrivalSecondConsumed { seat: actor }, *final(sim))
            &&& final(evs)@ == old(evs)@.push(Event::NextArrivalSecondConsumed { seat: actor })
            &&& match r {
                Some((opts, b)) => {
                    &&& b == penalty
                    &&& final(sim).spec_spirit_at(tile) matches Some(sp) && !sp.fading
                    &&& opts@ == second_options(*final(sim), *canon, catalog@, actor, tile, first)
                    &&& opts@.len() > 0
                },
                None => !(final(sim).spec_spirit_at(tile) matches Some(sp) && !sp.fading)
                    || second_options(*final(sim), *canon, catalog@, actor, tile, first).len() == 0,
            }
        },
{
    let penalty = match actor {
        Seat::A => sim.next_arrival_2nd_engage[0],
        Seat::B => sim.next_arrival_2nd_engage[1],
    };
    let penalty = match penalty {
        Some(p) => p,
        None => return None,
    };
    crate::flow::push(sim, evs, Event::NextArrivalSecondConsumed { seat: actor });
    proof {
        lemma_wf_small(*sim);
    }
    let sp = match sim.spirit_at(tile) {
        Some(sp) => sp,
        None => return None,
    };
    if sp.fading {
        return None;
    }
    proof {
        assert(sim.board@[tile as int].spirit == Some(*sp));
    }
    let reach = targeting_reach(sim, canon, catalog, card(catalog, sp.card).reach, tile, actor, sim.board_w);
    let ts = enemies_exec(sim, actor, &reach);
    let mut opts: Vec<u8> = Vec::new();
    let n = ts.len();
    for i in 0..n
        invariant
            n == ts@.len(),
            opts@ == not_first(ts@, first, i as int),
    {
        if Some(ts[i]) != first {
            opts.push(ts[i]);
        }
    }
    if opts.len() == 0 {
        return None;
    }
    Some((opts, penalty))
}

} // verus!
