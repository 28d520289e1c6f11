//! Summed auras: the stat, cost and damage amounts a seat's standing Static clauses add
//! up to. Sums are `i16` and wrap at its boundary.
use vstd::prelude::*;
use vstd::arithmetic::div_mod::{
    lemma_fundamental_div_mod, lemma_fundamental_div_mod_converse, lemma_mod_bound,
    lemma_mod_multiples_vanish,
};

use crate::conditions::{manhattan, spec_manhattan};
use crate::effects::{spec_specs_for, specs_for, Canon, Clause, Effect, EffectSpec, Selector, Trigger};
use crate::state::GameState;
use crate::types::{CardDef, CardId, Seat};

verus! {

/// Wrap an integer into `i16` (two's complement).
pub open spec fn wrap16(v: int) -> i16 {
    (((v + 32768) % 65536) - 32768) as i16
}

proof fn lemma_wrap16_shift(acc: int, b: int)
    ensures
        wrap16(acc + b) == wrap16((acc + 32768) % 65536 - 32768 + b),
{
    lemma_fundamental_div_mod(acc + 32768, 65536);
    let q = (acc + 32768) / 65536;
    let m = (acc + 32768) % 65536;
    assert(acc + b + 32768 == 65536 * q + (m + b));
    lemma_mod_multiples_vanish(q, m + b, 65536);
}

/// Wrapping `i16` addition tracks the integer sum modulo 65536.
pub proof fn lemma_wrap16_add(acc: int, x: i16)
    ensures
        vstd::wrapping::i16_specs::wrapping_add(wrap16(acc), x) == wrap16(acc + x),
{
    let m = (acc + 32768) % 65536;
    lemma_fundamental_div_mod(acc + 32768, 65536);
    lemma_mod_bound(acc + 32768, 65536);
    lemma_wrap16_shift(acc, x as int);
    let b = m + x;
    if b >= 65536 {
        lemma_fundamental_div_mod_converse(b, 65536, 1, b - 65536);
    } else if b < 0 {
        lemma_fundamental_div_mod_converse(b, 65536, -1, b + 65536);
    } else {
        lemma_fundamental_div_mod_converse(b, 65536, 0, b);
    }
}

/// Wrapping a wrapped addend changes nothing modulo 65536.
pub proof fn lemma_wrap16_sum(a: int, b: int)
    ensures
        vstd::wrapping::i16_specs::wrapping_add(wrap16(a), wrap16(b)) == wrap16(a + b),
{
    lemma_wrap16_add(a, wrap16(b));
    lemma_fundamental_div_mod(b + 32768, 65536);
    lemma_mod_bound(b + 32768, 65536);
    let wb = (b + 32768) % 65536 - 32768;
    assert(wrap16(b) as int == wb);
    lemma_wrap16_shift(a, wb);
    lemma_wrap16_shift(b, a);
    assert(wrap16(a + wb) == wrap16(a + b)) by {
        lemma_fundamental_div_mod(b + 32768, 65536);
        let q = (b + 32768) / 65536;
        assert(a + b + 32768 == 65536 * q + (a + wb + 32768));
        lemma_mod_multiples_vanish(q, a + wb + 32768, 65536);
    }
}

/// An i16 value wraps to itself.
pub proof fn lemma_wrap16_id(x: i16)
    ensures
        wrap16(x as int) == x,
{
    lemma_fundamental_div_mod_converse(x + 32768, 65536, 0, x + 32768);
}

/// Which authored amount an aura sum collects.
#[derive(Debug, Clone, Copy, PartialEq, Eq, Structural)]
pub enum ClauseTally {
    /// `Owner / BondStatGrant` — (attack, defense) for the owner's bonded spirits.
    OwnerBondStat,
    /// Any `CostDelta` — the seat's cost aura.
    AnyCostDelta,
    /// `Owner / CostDelta` — a Landmark's Fabrication discount.
    OwnerCostDelta,
    /// `AdjacentAlliesAll / ChainDamageReductionAura`.
    AdjacentChainReduction,
    /// Any `ImpressionPushDamage`.
    AnyImpressionPushDamage,
    /// Any `ThroughlineGrant` — (attack, defense).
    AnyThroughlineGrant,
}

/// The (first, second) amounts a clause contributes to a tally.
pub open spec fn clause_tally(k: ClauseTally, c: Clause) -> (int, int) {
    match k {
        ClauseTally::OwnerBondStat => match c.effect {
            Effect::BondStatGrant { attack, defense } => if c.selector is Owner { (attack as int, defense as int) } else { (0, 0) },
            _ => (0, 0),
        },
        ClauseTally::AnyCostDelta => match c.effect {
            Effect::CostDelta { delta } => (delta as int, 0),
            _ => (0, 0),
        },
        ClauseTally::OwnerCostDelta => match c.effect {
            Effect::CostDelta { delta } => if c.selector is Owner { (delta as int, 0) } else { (0, 0) },
            _ => (0, 0),
        },
        ClauseTally::AdjacentChainReduction => match c.effect {
            Effect::ChainDamageReductionAura { amount } => if c.selector is AdjacentAlliesAll { (amount as int, 0) } else { (0, 0) },
            _ => (0, 0),
        },
        ClauseTally::AnyImpressionPushDamage => match c.effect {
            Effect::ImpressionPushDamage { amount } => (amount as int, 0),
            _ => (0, 0),
        },
        ClauseTally::AnyThroughlineGrant => match c.effect {
            Effect::ThroughlineGrant { attack, defense } => (attack as int, defense as int),
            _ => (0, 0),
        },
    }
}

fn clause_tally_exec(k: ClauseTally, c: &Clause) -> (r: (i16, i16))
    ensures
        r.0 as int == clause_tally(k, *c).0,
        r.1 as int == clause_tally(k, *c).1,
{
    match k {
        ClauseTally::OwnerBondStat => match &c.effect {
            Effect::BondStatGrant { attack, defense } => if matches!(c.selector, Selector::Owner) { (*attack, *defense) } else { (0, 0) },
            _ => (0, 0),
        },
        ClauseTally::AnyCostDelta => match &c.effect {
            Effect::CostDelta { delta } => (*delta as i16, 0),
            _ => (0, 0),
        },
        ClauseTally::OwnerCostDelta => match &c.effect {
            Effect::CostDelta { delta } => if matches!(c.selector, Selector::Owner) { (*delta as i16, 0) } else { (0, 0) },
            _ => (0, 0),
        },
        ClauseTally::AdjacentChainReduction => match &c.effect {
            Effect::ChainDamageReductionAura { amount } => if matches!(c.selector, Selector::AdjacentAlliesAll) { (*amount, 0) } else { (0, 0) },
            _ => (0, 0),
        },
        ClauseTally::AnyImpressionPushDamage => match &c.effect {
            Effect::ImpressionPushDamage { amount } => (*amount, 0),
            _ => (0, 0),
        },
        ClauseTally::AnyThroughlineGrant => match &c.effect {
            Effect::ThroughlineGrant { attack, defense } => (*attack, *defense),
            _ => (0, 0),
        },
    }
}

/// The summed tally of the first `n` clauses.
pub open spec fn spec_tally_clauses(cs: Seq<Clause>, k: ClauseTally, n: int) -> (int, int)
    decreases n,
{
    if n <= 0 {
        (0, 0)
    } else {
        let (a, b) = spec_tally_clauses(cs, k, n - 1);
        let (x, y) = clause_tally(k, cs[n - 1]);
        (a + x, b + y)
    }
}

/// The summed tally of the Static specs among the first `n`.
pub open spec fn spec_tally_specs(specs: Seq<EffectSpec>, k: ClauseTally, n: int) -> (int, int)
    decreases n,
{
    if n <= 0 {
        (0, 0)
    } else {
        let (a, b) = spec_tally_specs(specs, k, n - 1);
        let s = specs[n - 1];
        if s.trigger is Static {
            let (x, y) = spec_tally_clauses(s.clauses@, k, s.clauses@.len() as int);
            (a + x, b + y)
        } else {
            (a, b)
        }
    }
}

/// The summed tally over a card's Static specs (nothing for a card without specs).
pub open spec fn spec_card_tally(canon: Canon, catalog: Seq<CardDef>, id: CardId, k: ClauseTally) -> (int, int) {
    match spec_specs_for(canon, catalog, id) {
        Some(specs) => spec_tally_specs(specs, k, specs.len() as int),
        None => (0, 0),
    }
}

/// A pair of sums, each wrapped to `i16`.
pub open spec fn wrap_pair(p: (int, int)) -> (i16, i16) {
    (wrap16(p.0), wrap16(p.1))
}

/// The wrapped tally over a card's Static specs.
pub fn card_tally(canon: &Canon, catalog: &[CardDef], id: CardId, k: ClauseTally) -> (r: (i16, i16))
    ensures
        r == wrap_pair(spec_card_tally(*canon, catalog@, id, k)),
{
    let specs = match specs_for(canon, catalog, id) {
        Some(s) => s,
        None => {
            proof {
                lemma_wrap16_id(0);
            }
            return (0, 0);
        },
    };
    let mut a: i16 = 0;
    let mut d: i16 = 0;
    proof {
        lemma_wrap16_id(0);
    }
    let n = specs.len();
    for i in 0..n
        invariant
            n == specs@.len(),
            (a, d) == wrap_pair(spec_tally_specs(specs@, k, i as int)),
    {
        let s = &specs[i];
        if matches!(s.trigger, Trigger::Static) {
            let ghost before = spec_tally_specs(specs@, k, i as int);
            let m = s.clauses.len();
            let ghost a0 = a;
            let ghost d0 = d;
            for j in 0..m
                invariant
                    m == s.clauses@.len(),
                    a == wrap16(before.0 + spec_tally_clauses(s.clauses@, k, j as int).0),
                    d == wrap16(before.1 + spec_tally_clauses(s.clauses@, k, j as int).1),
            {
                let (x, y) = clause_tally_exec(k, &s.clauses[j]);
                proof {
                    lemma_wrap16_add(before.0 + spec_tally_clauses(s.clauses@, k, j as int).0, x);
                    lemma_wrap16_add(before.1 + spec_tally_clauses(s.clauses@, k, j as int).1, y);
                }
                a = a.wrapping_add(x);
                d = d.wrapping_add(y);
            }
        }
    }
    (a, d)
}

/// Which board sources a board-wide sum reads.
#[derive(Debug, Clone, Copy)]
pub enum TileFilter {
    /// Standing spirits of `seat` (face-up ones only when `face_up`).
    SpiritsOf { seat: Seat, face_up: bool },
    /// Face-up terrain of `seat` one step from `tile`.
    TerrainNear { seat: Seat, tile: u8 },
    /// Standing spirits of `owner` one step from `tile` (not on it).
    AlliesNear { owner: Seat, tile: u8 },
}

/// The card whose aura tile `i` contributes under filter `f`, if it is selected.
pub open spec fn tile_source(sim: GameState, f: TileFilter, i: int) -> Option<CardId> {
    let t = sim.board@[i];
    match f {
        TileFilter::SpiritsOf { seat, face_up } => match t.spirit {
            Some(sp) => if sp.owner == seat && !sp.fading && (!face_up || !sp.face_down) { Some(sp.card) } else { None },
            None => None,
        },
        TileFilter::TerrainNear { seat, tile } => match t.terrain {
            Some(tr) => if spec_manhattan(tile, i as u8) == 1 && !tr.face_down && tr.owner == seat { Some(tr.card) } else { None },
            None => None,
        },
        TileFilter::AlliesNear { owner, tile } => match t.spirit {
            Some(sp) => if i != tile as int && spec_manhattan(i as u8, tile) == 1 && sp.owner == owner && !sp.fading { Some(sp.card) } else { None },
            None => None,
        },
    }
}

/// The summed tally of the selected sources among the first `n` tiles.
pub open spec fn spec_board_tally(sim: GameState, canon: Canon, catalog: Seq<CardDef>, f: TileFilter, k: ClauseTally, n: int) -> (int, int)
    decreases n,
{
    if n <= 0 {
        (0, 0)
    } else {
        let (a, b) = spec_board_tally(sim, canon, catalog, f, k, n - 1);
        match tile_source(sim, f, n - 1) {
            Some(id) => {
                let (x, y) = spec_card_tally(canon, catalog, id, k);
                (a + x, b + y)
            },
            None => (a, b),
        }
    }
}

/// The board-wide sum, over every tile.
pub open spec fn spec_board_sum(sim: GameState, canon: Canon, catalog: Seq<CardDef>, f: TileFilter, k: ClauseTally) -> (int, int) {
    spec_board_tally(sim, canon, catalog, f, k, sim.board@.len() as int)
}

fn tile_source_exec(sim: &GameState, f: TileFilter, i: usize) -> (r: Option<CardId>)
    requires
        i < sim.board@.len() <= 256,
    ensures
        r == tile_source(*sim, f, i as int),
{
    let t = &sim.board[i];
    match f {
        TileFilter::SpiritsOf { seat, face_up } => match &t.spirit {
            Some(sp) => if sp.owner == seat && !sp.fading && (!face_up || !sp.face_down) { Some(sp.card) } else { None },
            None => None,
        },
        TileFilter::TerrainNear { seat, tile } => match &t.terrain {
            Some(tr) => if manhattan(tile, i as u8) == 1 && !tr.face_down && tr.owner == seat { Some(tr.card) } else { None },
            None => None,
        },
        TileFilter::AlliesNear { owner, tile } => match &t.spirit {
            Some(sp) => if i as u8 != tile && manhattan(i as u8, tile) == 1 && sp.owner == owner && !sp.fading { Some(sp.card) } else { None },
            None => None,
        },
    }
}

/// The wrapped board-wide sum of the selected sources' tallies.
pub fn board_tally(sim: &GameState, canon: &Canon, catalog: &[CardDef], f: TileFilter, k: ClauseTally) -> (r: (i16, i16))
    requires
        sim.board@.len() <= 256,
    ensures
        r == wrap_pair(spec_board_sum(*sim, *canon, catalog@, f, k)),
{
    let mut a: i16 = 0;
    let mut d: i16 = 0;
    proof {
        lemma_wrap16_id(0);
    }
    let n = sim.board.len();
    for i in 0..n
        invariant
            n == sim.board@.len() <= 256,
            (a, d) == wrap_pair(spec_board_tally(*sim, *canon, catalog@, f, k, i as int)),
    {
        match tile_source_exec(sim, f, i) {
            Some(id) => {
                let (x, y) = card_tally(canon, catalog, id, k);
                proof {
                    let prev = spec_board_tally(*sim, *canon, catalog@, f, k, i as int);
                    let c = spec_card_tally(*canon, catalog@, id, k);
                    lemma_wrap16_sum(prev.0, c.0);
                    lemma_wrap16_sum(prev.1, c.1);
                }
                a = a.wrapping_add(x);
                d = d.wrapping_add(y);
            },
            None => {},
        }
    }
    (a, d)
}

/// Duet Ascendant: the flat bond stat `seat` grants its bonded spirits, summed over its
/// standing face-up spirits' `Owner / BondStatGrant` auras.
pub fn owner_grants_bond_stat(sim: &GameState, canon: &Canon, catalog: &[CardDef], seat: Seat) -> (r: (i16, i16))
    requires
        sim.wf(),
    ensures
        r == wrap_pair(spec_board_sum(*sim, *canon, catalog@, TileFilter::SpiritsOf { seat, face_up: true }, ClauseTally::OwnerBondStat)),
{
    proof {
        crate::auras::lemma_wf_small(*sim);
    }
    board_tally(sim, canon, catalog, TileFilter::SpiritsOf { seat, face_up: true }, ClauseTally::OwnerBondStat)
}

/// The seat's card surcharge still in force this round (0 once lapsed).
pub open spec fn spec_card_tax(st: GameState, seat: Seat) -> int {
    let (tax, until) = st.card_tax[seat.spec_index()];
    if until >= st.round { tax as int } else { 0 }
}

/// The seat's cost aura: this round's card surcharge plus every `CostDelta` its standing
/// spirits carry (face-down ones too). Negative is cheaper.
pub open spec fn spec_cost_aura(st: GameState, canon: Canon, catalog: Seq<CardDef>, seat: Seat) -> i16 {
    wrap16(spec_card_tax(st, seat) + spec_board_sum(st, canon, catalog, TileFilter::SpiritsOf { seat, face_up: false }, ClauseTally::AnyCostDelta).0)
}

/// Sum of the cost auras a seat controls plus its this-round card surcharge.
pub fn cost_aura(st: &GameState, seat: Seat, canon: &Canon, catalog: &[CardDef]) -> (r: i16)
    requires
        st.wf(),
    ensures
        r == spec_cost_aura(*st, *canon, catalog@, seat),
{
    proof {
        crate::auras::lemma_wf_small(*st);
    }
    let (tax, until) = st.card_tax[seat.index()];
    let base: i16 = if until >= st.round { tax as i16 } else { 0 };
    let (sum, _) = board_tally(st, canon, catalog, TileFilter::SpiritsOf { seat, face_up: false }, ClauseTally::AnyCostDelta);
    proof {
        lemma_wrap16_id(base);
        lemma_wrap16_sum(base as int, spec_board_sum(*st, *canon, catalog@, TileFilter::SpiritsOf { seat, face_up: false }, ClauseTally::AnyCostDelta).0);
    }
    base.wrapping_add(sum)
}

/// The Long Shadow: the cost delta the face-up `Owner / CostDelta` Landmarks of `seat`, one
/// step from `tile`, give a Fabrication placed there.
pub fn adjacent_landmark_fab_delta(st: &GameState, canon: &Canon, catalog: &[CardDef], seat: Seat, tile: u8) -> (r: i16)
    requires
        st.wf(),
    ensures
        r == wrap16(spec_board_sum(*st, *canon, catalog@, TileFilter::TerrainNear { seat, tile }, ClauseTally::OwnerCostDelta).0),
{
    proof {
        crate::auras::lemma_wf_small(*st);
    }
    board_tally(st, canon, catalog, TileFilter::TerrainNear { seat, tile }, ClauseTally::OwnerCostDelta).0
}

/// Badgermarshal: the chain-damage reduction the spirit on `tile` receives from standing
/// allies one step away carrying `AdjacentAlliesAll / ChainDamageReductionAura`.
pub open spec fn spec_chain_damage_reduction(sim: GameState, canon: Canon, catalog: Seq<CardDef>, tile: u8) -> i16 {
    match sim.spec_spirit_at(tile) {
        None => 0,
        Some(me) => wrap16(spec_board_sum(sim, canon, catalog, TileFilter::AlliesNear { owner: me.owner, tile }, ClauseTally::AdjacentChainReduction).0),
    }
}

/// The chain-damage reduction the defender on `tile` receives from its allied neighbours.
pub fn chain_damage_reduction(sim: &GameState, canon: &Canon, catalog: &[CardDef], tile: u8) -> (r: i16)
    requires
        sim.wf(),
    ensures
        r == spec_chain_damage_reduction(*sim, *canon, catalog@, tile),
{
    proof {
        crate::auras::lemma_wf_small(*sim);
    }
    let owner = match sim.spirit_at(tile) {
        Some(me) => me.owner,
        None => return 0,
    };
    board_tally(sim, canon, catalog, TileFilter::AlliesNear { owner, tile }, ClauseTally::AdjacentChainReduction).0
}

/// Herald of the Ill Intent: the push damage the standing face-up enemies of `owner` deal a
/// spirit of `owner` shoved onto an impression — `None` unless positive.
pub open spec fn spec_impression_push_damage(sim: GameState, canon: Canon, catalog: Seq<CardDef>, owner: Seat) -> Option<i16> {
    let dmg = wrap16(spec_board_sum(sim, canon, catalog, TileFilter::SpiritsOf { seat: owner.spec_other(), face_up: true }, ClauseTally::AnyImpressionPushDamage).0);
    if dmg > 0 { Some(dmg) } else { None }
}

/// The damage the enemies' `ImpressionPushDamage` auras deal a spirit of `owner` pushed onto
/// an impression-bearing tile, if any.
pub fn impression_push_damage(sim: &GameState, canon: &Canon, catalog: &[CardDef], owner: Seat) -> (r: Option<i16>)
    requires
        sim.wf(),
    ensures
        r == spec_impression_push_damage(*sim, *canon, catalog@, owner),
{
    proof {
        crate::auras::lemma_wf_small(*sim);
    }
    let foe = owner.other();
    let dmg = board_tally(sim, canon, catalog, TileFilter::SpiritsOf { seat: foe, face_up: true }, ClauseTally::AnyImpressionPushDamage).0;
    if dmg > 0 { Some(dmg) } else { None }
}

/// Queen of the Quiet Garden: the extra Throughline buff `seat` grants, summed over the
/// `ThroughlineGrant` auras of its standing face-up spirits.
pub fn throughline_grant(sim: &GameState, canon: &Canon, catalog: &[CardDef], seat: Seat) -> (r: (i16, i16))
    requires
        sim.wf(),
    ensures
        r == wrap_pair(spec_board_sum(*sim, *canon, catalog@, TileFilter::SpiritsOf { seat, face_up: true }, ClauseTally::AnyThroughlineGrant)),
{
    proof {
        crate::auras::lemma_wf_small(*sim);
    }
    board_tally(sim, canon, catalog, TileFilter::SpiritsOf { seat, face_up: true }, ClauseTally::AnyThroughlineGrant)
}

} // verus!
