//! Arrival-targeting reach: a spirit's (or its copied) Reach widened by the reach auras
//! and this-round reach buffs that cover it. Projection and interception read only the
//! full buffs; targeting reads them all.
use vstd::prelude::*;

use crate::auras::lemma_wf_small;
use crate::cards::{card, catalog_has, spec_card};
use crate::conditions::{manhattan, spec_manhattan};
use crate::effects::{spec_specs_for, specs_for, Canon, Clause, Effect, EffectSpec, Selector, Trigger};
use crate::keywords::{pair_live, spec_pair_live};
use crate::projection::{
    cards_known, lemma_wrap8_add, oriented_w, reach_buff_covers, spec_oriented_w, spec_reach_fold,
    spec_widen_oriented, widen_oriented, wrap8,
};
use crate::state::{GameState, Spirit};
use crate::types::{valid_width, CardDef, CardId, Reach, Seat};

verus! {

/// The selector a reach-aura source grants through.
#[derive(Debug, Clone, Copy)]
pub enum ReachSel {
    /// The Landmark the spirit stands on.
    OccupantHere,
    /// A live Bond the spirit belongs to.
    BondedPair,
    /// A standing ally one step away.
    AdjacentAlliesAll,
    /// Any standing ally, itself included.
    AlliesAll,
}

pub open spec fn reach_sel_matches(w: ReachSel, s: Selector) -> bool {
    match w {
        ReachSel::OccupantHere => s is OccupantHere,
        ReachSel::BondedPair => s is BondedPair,
        ReachSel::AdjacentAlliesAll => s is AdjacentAlliesAll,
        ReachSel::AlliesAll => s is AlliesAll,
    }
}

/// The (forward steps, all directions) a clause grants through selector `w`.
pub open spec fn reach_clause(w: ReachSel, c: Clause) -> (int, bool) {
    match c.effect {
        Effect::ReachDelta { forward, all_directions, .. } => if reach_sel_matches(w, c.selector) { (forward as int, all_directions) } else { (0, false) },
        _ => (0, false),
    }
}

pub open spec fn add_reach(a: (int, bool), b: (int, bool)) -> (int, bool) {
    (a.0 + b.0, a.1 || b.1)
}

/// The first `n` clauses' reach grants, summed.
pub open spec fn reach_clauses_sum(w: ReachSel, cls: Seq<Clause>, n: int) -> (int, bool)
    decreases n,
{
    if n <= 0 {
        (0, false)
    } else {
        add_reach(reach_clauses_sum(w, cls, n - 1), reach_clause(w, cls[n - 1]))
    }
}

/// The reach grants of the Static specs among the first `n`, summed.
pub open spec fn reach_specs_sum(w: ReachSel, specs: Seq<EffectSpec>, n: int) -> (int, bool)
    decreases n,
{
    if n <= 0 {
        (0, false)
    } else {
        let prev = reach_specs_sum(w, specs, n - 1);
        if specs[n - 1].trigger is Static {
            add_reach(prev, reach_clauses_sum(w, specs[n - 1].clauses@, specs[n - 1].clauses@.len() as int))
        } else {
            prev
        }
    }
}

/// A card's Static reach grants through selector `w` (nothing for a card without specs).
pub open spec fn reach_card_sum(canon: Canon, catalog: Seq<CardDef>, id: CardId, w: ReachSel) -> (int, bool) {
    match spec_specs_for(canon, catalog, id) {
        Some(specs) => reach_specs_sum(w, specs, specs.len() as int),
        None => (0, false),
    }
}

/// Candidate `i` of a reach-source family (0: Bonds, 1: adjacent allies, 2: allies).
pub open spec fn reach_source_at(sim: GameState, tile: u8, me: Spirit, part: int, i: int) -> Option<(CardId, ReachSel)> {
    if part == 0 {
        let b = sim.bonds@[i];
        if (b.tile_a == tile || b.tile_b == tile) && spec_pair_live(sim, b) { Some((b.card, ReachSel::BondedPair)) } else { None }
    } else if part == 1 {
        match sim.board@[i].spirit {
            Some(sp) => if !sp.fading && sp.owner == me.owner && i != tile as int && spec_manhattan(i as u8, tile) == 1 {
                Some((sp.card, ReachSel::AdjacentAlliesAll))
            } else {
                None
            },
            None => None,
        }
    } else {
        match sim.board@[i].spirit {
            Some(sp) => if !sp.fading && sp.owner == me.owner { Some((sp.card, ReachSel::AlliesAll)) } else { None },
            None => None,
        }
    }
}

/// The sources of family `part` among its first `n` candidates.
pub open spec fn reach_sources_prefix(sim: GameState, tile: u8, me: Spirit, part: int, n: int) -> Seq<(CardId, ReachSel)>
    decreases n,
{
    if n <= 0 {
        Seq::empty()
    } else {
        let prev = reach_sources_prefix(sim, tile, me, part, n - 1);
        match reach_source_at(sim, tile, me, part, n - 1) {
            Some(x) => prev.push(x),
            None => prev,
        }
    }
}

/// Every reach-aura source of the spirit `me` on `tile`, in the order they are read: the
/// face-up Landmark underfoot, its live Bonds, its adjacent standing allies, then every
/// standing ally (itself included) for seat-wide grants.
pub open spec fn reach_sources(sim: GameState, tile: u8, me: Spirit) -> Seq<(CardId, ReachSel)> {
    let landmark = match sim.board@[tile as int].terrain {
        Some(terr) => if !terr.face_down { seq![(terr.card, ReachSel::OccupantHere)] } else { Seq::empty() },
        None => Seq::empty(),
    };
    landmark + reach_sources_prefix(sim, tile, me, 0, sim.bonds@.len() as int)
        + reach_sources_prefix(sim, tile, me, 1, sim.board@.len() as int)
        + reach_sources_prefix(sim, tile, me, 2, sim.board@.len() as int)
}

/// The first `n` listed sources' reach grants, summed.
pub open spec fn reach_list_sum(canon: Canon, catalog: Seq<CardDef>, srcs: Seq<(CardId, ReachSel)>, n: int) -> (int, bool)
    decreases n,
{
    if n <= 0 {
        (0, false)
    } else {
        add_reach(reach_list_sum(canon, catalog, srcs, n - 1), reach_card_sum(canon, catalog, srcs[n - 1].0, srcs[n - 1].1))
    }
}

/// The reach extension covering the spirit on `tile`: the forward steps (wrapping at the
/// `i8` boundary) and the "all directions" flag summed over its reach-aura sources and
/// every this-round reach buff of its owner covering it (targeting-only ones included).
pub open spec fn spec_reach_aura_delta(sim: GameState, canon: Canon, catalog: Seq<CardDef>, tile: u8) -> (i8, bool) {
    match sim.spec_spirit_at(tile) {
        None => (0, false),
        Some(me) => {
            let srcs = reach_sources(sim, tile, me);
            let a = reach_list_sum(canon, catalog, srcs, srcs.len() as int);
            let b = spec_reach_fold(sim.temp_reach@, sim.temp_reach@.len() as int, sim.round, tile, me.owner, false);
            (wrap8(a.0 + b.0), a.1 || b.1)
        },
    }
}

/// Add a card's reach grants through `w` to the running (forward, all) pair.
fn add_card_reach(canon: &Canon, catalog: &[CardDef], id: CardId, w: ReachSel, fwd: &mut i8, all: &mut bool, Ghost(acc): Ghost<(int, bool)>)
    requires
        *old(fwd) == wrap8(acc.0),
        *old(all) == acc.1,
    ensures
        *final(fwd) == wrap8(add_reach(acc, reach_card_sum(*canon, catalog@, id, w)).0),
        *final(all) == add_reach(acc, reach_card_sum(*canon, catalog@, id, w)).1,
{
    let specs = match specs_for(canon, catalog, id) {
        Some(s) => s,
        None => return,
    };
    let n = specs.len();
    for i in 0..n
        invariant
            n == specs@.len(),
            *fwd == wrap8(add_reach(acc, reach_specs_sum(w, specs@, i as int)).0),
            *all == add_reach(acc, reach_specs_sum(w, specs@, i as int)).1,
    {
        let s = &specs[i];
        if matches!(s.trigger, Trigger::Static) {
            let ghost before = add_reach(acc, reach_specs_sum(w, specs@, i as int));
            let m = s.clauses.len();
            for j in 0..m
                invariant
                    m == s.clauses@.len(),
                    *fwd == wrap8(add_reach(before, reach_clauses_sum(w, s.clauses@, j as int)).0),
                    *all == add_reach(before, reach_clauses_sum(w, s.clauses@, j as int)).1,
            {
                let c = &s.clauses[j];
                let hit = match w {
                    ReachSel::OccupantHere => matches!(c.selector, Selector::OccupantHere),
                    ReachSel::BondedPair => matches!(c.selector, Selector::BondedPair),
                    ReachSel::AdjacentAlliesAll => matches!(c.selector, Selector::AdjacentAlliesAll),
                    ReachSel::AlliesAll => matches!(c.selector, Selector::AlliesAll),
                };
                match &c.effect {
                    Effect::ReachDelta { forward, all_directions, .. } => {
                        if hit {
                            proof {
                                lemma_wrap8_add(add_reach(before, reach_clauses_sum(w, s.clauses@, j as int)).0, *forward);
                            }
                            *fwd = fwd.wrapping_add(*forward);
                            *all = *all || *all_directions;
                        }
                    },
                    _ => {},
                }
            }
        }
    }
}

fn reach_part(sim: &GameState, tile: u8, me: &Spirit, part: u8, out: &mut Vec<(CardId, ReachSel)>)
    requires
        part <= 2,
    ensures
        final(out)@ == old(out)@ + reach_sources_prefix(*sim, tile, *me, part as int,
            if part == 0 { sim.bonds@.len() as int } else { sim.board@.len() as int }),
{
    let ghost start = out@;
    let n = if part == 0 { sim.bonds.len() } else { sim.board.len() };
    for i in 0..n
        invariant
            n == (if part == 0 { sim.bonds@.len() as int } else { sim.board@.len() as int }),
            part <= 2,
            out@ == start + reach_sources_prefix(*sim, tile, *me, part as int, i as int),
    {
        let got: Option<(CardId, ReachSel)> = if part == 0 {
            let b = &sim.bonds[i];
            if (b.tile_a == tile || b.tile_b == tile) && pair_live(sim, b) { Some((b.card, ReachSel::BondedPair)) } else { None }
        } else if part == 1 {
            match &sim.board[i].spirit {
                Some(sp) => if !sp.fading && sp.owner == me.owner && i as u8 != tile && manhattan(i as u8, tile) == 1 {
                    Some((sp.card, ReachSel::AdjacentAlliesAll))
                } else {
                    None
                },
                None => None,
            }
        } else {
            match &sim.board[i].spirit {
                Some(sp) => if !sp.fading && sp.owner == me.owner { Some((sp.card, ReachSel::AlliesAll)) } else { None },
                None => None,
            }
        };
        assert(got == reach_source_at(*sim, tile, *me, part as int, i as int)) by {
            if part != 0 {
                assert(sim.board@.len() <= 256 ==> (i as u8) as int == i as int);
            }
        }
        match got {
            Some(x) => {
                out.push(x);
            },
            None => {},
        }
    }
}

/// The aura-granted reach extension reaching the spirit at `tile`, plus this round's reach
/// buffs covering it: summed forward steps and whether any grants all directions.
pub fn reach_aura_delta(sim: &GameState, canon: &Canon, catalog: &[CardDef], tile: u8) -> (r: (i8, bool))
    requires
        sim.wf(),
    ensures
        r == spec_reach_aura_delta(*sim, *canon, catalog@, tile),
{
    proof {
        lemma_wf_small(*sim);
    }
    let me = match sim.spirit_at(tile) {
        Some(me) => me,
        None => return (0, false),
    };
    let mut srcs: Vec<(CardId, ReachSel)> = Vec::new();
    match &sim.board[tile as usize].terrain {
        Some(terr) => {
            if !terr.face_down {
                srcs.push((terr.card, ReachSel::OccupantHere));
            }
        },
        None => {},
    }
    reach_part(sim, tile, me, 0, &mut srcs);
    reach_part(sim, tile, me, 1, &mut srcs);
    reach_part(sim, tile, me, 2, &mut srcs);
    assert(srcs@ =~= reach_sources(*sim, tile, *me));
    let mut forward: i8 = 0;
    let mut all_dirs = false;
    let n = srcs.len();
    for k in 0..n
        invariant
            n == srcs@.len(),
            forward == wrap8(reach_list_sum(*canon, catalog@, srcs@, k as int).0),
            all_dirs == reach_list_sum(*canon, catalog@, srcs@, k as int).1,
    {
        let (id, w) = srcs[k];
        add_card_reach(canon, catalog, id, w, &mut forward, &mut all_dirs, Ghost(reach_list_sum(*canon, catalog@, srcs@, k as int)));
    }
    let ghost a = reach_list_sum(*canon, catalog@, srcs@, n as int);
    let m = sim.temp_reach.len();
    for i in 0..m
        invariant
            m == sim.temp_reach@.len(),
            forward == wrap8(a.0 + spec_reach_fold(sim.temp_reach@, i as int, sim.round, tile, me.owner, false).0),
            all_dirs == (a.1 || spec_reach_fold(sim.temp_reach@, i as int, sim.round, tile, me.owner, false).1),
    {
        let tr = &sim.temp_reach[i];
        let covers = match tr.tile {
            Some(t) => t == tile,
            None => true,
        };
        if tr.seat == me.owner && tr.until_round >= sim.round && covers {
            proof {
                lemma_wrap8_add(a.0 + spec_reach_fold(sim.temp_reach@, i as int, sim.round, tile, me.owner, false).0, tr.forward);
            }
            forward = forward.wrapping_add(tr.forward);
            all_dirs = all_dirs || tr.all_directions;
        }
    }
    (forward, all_dirs)
}

/// The tiles of `s` other than `t`, in order.
pub open spec fn drop_tile(s: Seq<u8>, t: u8) -> Seq<u8>
    decreases s.len(),
{
    if s.len() == 0 {
        s
    } else {
        let prev = drop_tile(s.drop_last(), t);
        if s.last() != t { prev.push(s.last()) } else { prev }
    }
}

/// The Reach the spirit on `tile` targets with: a Reach it copied from an engager, else
/// `base`.
pub open spec fn effective_base(sim: GameState, base: Reach, tile: u8) -> Reach {
    match sim.spec_spirit_at(tile) {
        Some(s) => match s.copied_reach {
            Some(r) => r,
            None => base,
        },
        None => base,
    }
}

/// Reach for arrival targeting: the (copied or given) Reach oriented for `seat`, widened by
/// the reach extension covering the spirit, its own tile dropped.
pub open spec fn spec_targeting_reach(sim: GameState, canon: Canon, catalog: Seq<CardDef>, base: Reach, tile: u8, seat: Seat, w: i8) -> Seq<u8> {
    let (f, a) = spec_reach_aura_delta(sim, canon, catalog, tile);
    drop_tile(spec_widen_oriented(spec_oriented_w(effective_base(sim, base, tile), tile, seat, w), f, a, seat, w), tile)
}

/// Reach for arrival targeting (engage/strike): the base oriented reach — or the Reach the
/// spirit copied from an engager — widened by any reach aura or buff at `tile`; the
/// spirit's own tile never counts.
pub fn targeting_reach(sim: &GameState, canon: &Canon, catalog: &[CardDef], base: Reach, tile: u8, seat: Seat, w: i8) -> (r: Vec<u8>)
    requires
        sim.wf(),
        valid_width(w),
        w <= 8,
    ensures
        r@ == spec_targeting_reach(*sim, *canon, catalog@, base, tile, seat, w),
        forall|i: int| 0 <= i < r@.len() ==> (#[trigger] r@[i] as int) < w * w,
{
    let b = match sim.spirit_at(tile) {
        Some(s) => match s.copied_reach {
            Some(r) => r,
            None => base,
        },
        None => base,
    };
    let tiles = oriented_w(b, tile, seat, w);
    let (forward, all_dirs) = reach_aura_delta(sim, canon, catalog, tile);
    let wide = widen_oriented(tiles, forward, all_dirs, seat, w);
    let mut out: Vec<u8> = Vec::new();
    let n = wide.len();
    for i in 0..n
        invariant
            n == wide@.len(),
            out@ == drop_tile(wide@.subrange(0, i as int), tile),
            forall|k: int| 0 <= k < wide@.len() ==> (#[trigger] wide@[k] as int) < w * w,
            forall|k: int| 0 <= k < out@.len() ==> (#[trigger] out@[k] as int) < w * w,
    {
        assert(wide@.subrange(0, i + 1).drop_last() == wide@.subrange(0, i as int));
        if wide[i] != tile {
            out.push(wide[i]);
        }
    }
    assert(wide@.subrange(0, n as int) == wide@);
    out
}

/// The arrival-targeting reach of the spirit standing on `tile` (its own card's Reach,
/// widened by any reach aura), for `seat`'s facing.
pub fn targeting_reach_for_test(sim: &GameState, canon: &Canon, catalog: &[CardDef], tile: u8, seat: Seat) -> (r: Vec<u8>)
    requires
        sim.wf(),
        cards_known(*sim, catalog@),
        sim.spec_spirit_at(tile) is Some,
    ensures
        r@ == spec_targeting_reach(*sim, *canon, catalog@, spec_card(catalog@, sim.spec_spirit_at(tile)->0.card).reach, tile, seat, sim.board_w),
{
    let sp = sim.spirit_at(tile).unwrap();
    proof {
        assert(sim.board@[tile as int].spirit == Some(*sp));
        assert(catalog_has(catalog@, sp.card));
    }
    let base = card(catalog, sp.card).reach;
    targeting_reach(sim, canon, catalog, base, tile, seat, sim.board_w)
}

} // verus!
