//! Derived combat numbers: a spirit's Attack, Defense, retaliation, damage reduction,
//! Resonance and Momentum flags once this round's modifiers and every standing aura that
//! reaches it are folded in. Sums are `i16` and wrap at its boundary.
use vstd::prelude::*;

use crate::auras::{card_static_has, lemma_wf_small, spec_card_static_has, spec_trait_silenced, trait_silenced, ClauseTest};
use crate::cards::{card, catalog_has, lookup_card, spec_card, spec_card_index};
use crate::conditions::{
    condition_holds, manhattan, shared_adjacent_resonance, spec_condition_holds, spec_has_adjacent_ally,
    spec_manhattan, spec_shared_adjacent_resonance,
};
use crate::effects::{spec_specs_for, specs_for, Canon, Clause, Condition, Duration, Effect, EffectSpec, Selector, Trigger};
use crate::keywords::{pair_live, spec_pair_live};
use crate::projection::{cards_known, oriented, spec_oriented_w};
use crate::state::{GameState, Spirit};
use crate::tally::{owner_grants_bond_stat, spec_board_sum, wrap_pair, ClauseTally, TileFilter};
use crate::throughline::{spec_unbreakable_bridges, unbreakable_bridges};
use crate::types::{CardDef, CardId, Resonance, Seat, BOARD_W};

verus! {

/// A spirit's effective combat numbers.
#[derive(Debug, Clone, Copy)]
pub struct CombatStats {
    pub atk: i16,
    pub def: i16,
    pub retaliation: i16,
    pub dmg_reduction: i16,
    pub resonance: Option<Resonance>,
    /// An enemy edge-negating aura stands against it.
    pub edge_negated_against: bool,
    pub momentum_first_bonus: bool,
    pub chain_while_defeating: bool,
    /// Extra Attack per Momentum chain link.
    pub momentum_per_link_bonus: i16,
    /// No retaliation on chain links past the first.
    pub chain_no_retaliation: bool,
}

/// The numbers of an empty tile: all zero, no Resonance, no flags.
pub open spec fn zero_stats() -> CombatStats {
    CombatStats {
        atk: 0,
        def: 0,
        retaliation: 0,
        dmg_reduction: 0,
        resonance: None,
        edge_negated_against: false,
        momentum_first_bonus: false,
        chain_while_defeating: false,
        momentum_per_link_bonus: 0,
        chain_no_retaliation: false,
    }
}

/// `i16` addition wrapping at the type's boundary.
pub open spec fn wadd(a: i16, b: i16) -> i16 {
    vstd::wrapping::i16_specs::wrapping_add(a, b)
}

/// `i16` multiplication wrapping at the type's boundary.
pub open spec fn wmul(a: i16, b: i16) -> i16 {
    vstd::wrapping::i16_specs::wrapping_mul(a, b)
}

pub open spec fn min16(a: i16, b: i16) -> i16 {
    if a <= b { a } else { b }
}

pub open spec fn max16(a: i16, b: i16) -> i16 {
    if a >= b { a } else { b }
}

/// Add a (attack, defense) delta.
pub open spec fn add_stats(cs: CombatStats, attack: i16, defense: i16) -> CombatStats {
    CombatStats { atk: wadd(cs.atk, attack), def: wadd(cs.def, defense), ..cs }
}

/// The Chorus bonus: +10 Attack per counted ally, capped at `max` allies.
pub open spec fn chorus_bonus(count: i16, max: u8) -> i16 {
    (10 * min16(count, max as i16)) as i16
}

/// What a standing source's Static auras see of the spirit they might reach.
#[derive(Debug, Clone, Copy)]
pub struct ScanFacts {
    /// The source is the spirit itself.
    pub on_self: bool,
    /// The source is allied to the spirit.
    pub ally: bool,
    /// The source stands one step from the spirit.
    pub adjacent: bool,
    /// Row-plus-column distance from the source to the spirit.
    pub dist: i16,
    /// The spirit's tile lies in the source card's Reach.
    pub in_reach: bool,
    /// The spirit's printed traits (Imprints) are not blanked.
    pub imprints_open: bool,
    /// The spirit is striking an ally of the source that stands one step from the source.
    pub engaging: bool,
    /// The spirit's Chorus count (0 while trait-silenced).
    pub chorus: i16,
    /// The Resonance its Attune would share, if any.
    pub shared: Option<Resonance>,
    /// The source is damaged.
    pub src_damaged: bool,
    /// The source has a standing ally one step away.
    pub src_adj_ally: bool,
    /// The source's once-per-match latch is spent.
    pub src_latched: bool,
    /// The source lurks face-down.
    pub src_face_down: bool,
}

/// Which aura family a source contributes through, with the facts that family reads.
#[derive(Debug, Clone, Copy)]
pub enum AuraPass {
    /// A standing spirit's Static auras (self, allied, enemy selectors).
    Scan(ScanFacts),
    /// The face-up Landmark underfoot.
    Landmark { allied: bool },
    /// A live Bond the spirit belongs to; the partner's (attack, defense).
    BondPair { both_damaged: bool, partner: Option<(i16, i16)> },
    /// Momentum modifiers from the spirit itself or an allied standing spirit.
    Momentum { on_self: bool, ally: bool },
    /// The spirit's own board-reading auras.
    SelfAuras { impressions: i16, highest_enemy: Option<i16> },
    /// An enemy Bond's pair-adjacent debuff on its neighbours.
    Conspiracy,
    /// An allied Landmark one step away.
    Trellis,
    /// The struck enemy's engage aura.
    Engaged,
}

/// The facts are in range: a Chorus count is a tile count.
pub open spec fn pass_ok(p: AuraPass) -> bool {
    match p {
        AuraPass::Scan(f) => 0 <= f.chorus <= 64,
        _ => true,
    }
}

/// A source spirit's spec condition, read from the facts.
pub open spec fn scan_condition(f: ScanFacts, c: Condition) -> bool {
    match c {
        Condition::Always => true,
        Condition::WhileDamaged => f.src_damaged,
        Condition::WhileUndamaged => !f.src_damaged,
        Condition::WhileAdjacentToAlly => f.src_adj_ally,
        Condition::AdjacentAlliesShareResonance { .. } => f.src_adj_ally,
        Condition::OncePerMatch => !f.src_latched,
        Condition::WhileFaceDown => f.src_face_down,
        _ => false,
    }
}

/// Which of a source's specs a pass reads.
pub open spec fn pass_gate(p: AuraPass, s: EffectSpec) -> bool {
    match p {
        AuraPass::Scan(f) => s.trigger is Static && scan_condition(f, s.condition),
        AuraPass::Conspiracy => s.trigger is Static && s.condition is PairAdjacent,
        AuraPass::Trellis => s.trigger is Static || s.trigger is OnReveal,
        _ => s.trigger is Static,
    }
}

/// The spirit carries an Imprint with this name.
pub open spec fn has_imprint(imprints: Seq<String>, im: Seq<char>) -> bool {
    exists|i: int| 0 <= i < imprints.len() && (#[trigger] imprints[i])@ == im
}

/// A standing source's clause reaches the spirit.
pub open spec fn scan_applies(f: ScanFacts, imprints: Seq<String>, sel: Selector) -> bool {
    match sel {
        Selector::SelfSpirit => f.on_self,
        Selector::AdjacentAlliesAll => f.ally && !f.on_self && f.adjacent,
        Selector::AlliesAll => f.ally,
        Selector::AlliesInReach => f.ally && !f.on_self && f.in_reach,
        Selector::AlliesWithImprint { imprint } => f.ally && f.imprints_open && has_imprint(imprints, imprint@),
        Selector::EnemiesWithinTiles { tiles } => !f.ally && f.dist <= tiles as i16,
        Selector::AdjacentEnemiesAll => !f.ally && !f.on_self && f.adjacent,
        Selector::EnemiesEngagingAdjacentAllies => !f.ally && f.engaging,
        Selector::EnemiesAll => !f.ally,
        _ => false,
    }
}

/// What a reaching standing-source clause does to the numbers.
pub open spec fn scan_effect(f: ScanFacts, e: Effect, cs: CombatStats) -> CombatStats {
    match e {
        Effect::StatDelta { attack, defense, .. } => add_stats(cs, attack, defense),
        Effect::RetaliationDelta { amount } => if f.on_self { CombatStats { retaliation: wadd(cs.retaliation, amount), ..cs } } else { cs },
        Effect::DamageReduction { amount } => CombatStats { dmg_reduction: wadd(cs.dmg_reduction, amount), ..cs },
        Effect::CounterAura { max, .. } => if f.on_self { CombatStats { atk: wadd(cs.atk, chorus_bonus(f.chorus, max)), ..cs } } else { cs },
        Effect::GrantSharedResonance => if f.on_self && f.shared is Some { CombatStats { resonance: f.shared, ..cs } } else { cs },
        Effect::EdgeNegate => CombatStats { edge_negated_against: true, ..cs },
        _ => cs,
    }
}

/// One clause of a source's gated spec `s`, folded into the numbers under pass `p`.
pub open spec fn pass_clause(p: AuraPass, imprints: Seq<String>, s: EffectSpec, c: Clause, cs: CombatStats) -> CombatStats {
    match p {
        AuraPass::Scan(f) => if scan_applies(f, imprints, c.selector) { scan_effect(f, c.effect, cs) } else { cs },
        AuraPass::Landmark { allied } => {
            if c.selector is OccupantHere || (c.selector is OccupantAndAdjacentAllies && allied) {
                match c.effect {
                    Effect::StatDelta { attack, defense, .. } => add_stats(cs, attack, defense),
                    Effect::RetaliationDelta { amount } => CombatStats { retaliation: wadd(cs.retaliation, amount), ..cs },
                    _ => cs,
                }
            } else {
                cs
            }
        },
        AuraPass::BondPair { both_damaged, partner } => {
            if c.selector is BondedPair {
                match c.effect {
                    Effect::StatDelta { attack, defense, .. } =>
                        if !(s.condition is WhileDamaged) || both_damaged { add_stats(cs, attack, defense) } else { cs },
                    Effect::StatShareHigher { attack, defense } => match partner {
                        Some((pa, pd)) => CombatStats {
                            atk: if attack { max16(cs.atk, pa) } else { cs.atk },
                            def: if defense { max16(cs.def, pd) } else { cs.def },
                            ..cs
                        },
                        None => cs,
                    },
                    _ => cs,
                }
            } else {
                cs
            }
        },
        AuraPass::Momentum { on_self, ally } => match c.effect {
            Effect::MomentumMod { first_engage_bonus, chain_while_defeating, per_link_bonus, chain_no_retaliation } =>
                if (c.selector is SelfSpirit && on_self) || (c.selector is AlliesAll && ally) {
                    CombatStats {
                        momentum_first_bonus: cs.momentum_first_bonus || first_engage_bonus,
                        chain_while_defeating: cs.chain_while_defeating || chain_while_defeating,
                        momentum_per_link_bonus: wadd(cs.momentum_per_link_bonus, per_link_bonus),
                        chain_no_retaliation: cs.chain_no_retaliation || chain_no_retaliation,
                        ..cs
                    }
                } else {
                    cs
                },
            _ => cs,
        },
        AuraPass::SelfAuras { impressions, highest_enemy } => {
            if c.selector is SelfSpirit {
                match c.effect {
                    Effect::AttackPerEnemyImpression { amount } => CombatStats { atk: wadd(cs.atk, wmul(amount, impressions)), ..cs },
                    Effect::CopyHighestEnemyAttack => match highest_enemy {
                        Some(h) => CombatStats { atk: h, ..cs },
                        None => cs,
                    },
                    _ => cs,
                }
            } else {
                cs
            }
        },
        AuraPass::Conspiracy => match c.effect {
            Effect::StatDelta { attack, defense, .. } => if c.selector is AdjacentEnemiesAll { add_stats(cs, attack, defense) } else { cs },
            _ => cs,
        },
        AuraPass::Trellis => match c.effect {
            Effect::StatDelta { attack, defense, .. } =>
                if (c.selector is OccupantAndAdjacentAllies || c.selector is AdjacentAlliesAll) && c.duration == Duration::WhilePresent {
                    add_stats(cs, attack, defense)
                } else {
                    cs
                },
            _ => cs,
        },
        AuraPass::Engaged => match c.effect {
            Effect::EngagerAttackDelta { attack } => if c.selector is SelfSpirit { CombatStats { atk: wadd(cs.atk, attack), ..cs } } else { cs },
            _ => cs,
        },
    }
}

/// The first `n` clauses of spec `s`, folded in order.
pub open spec fn fold_clauses(p: AuraPass, imprints: Seq<String>, s: EffectSpec, n: int, cs: CombatStats) -> CombatStats
    decreases n,
{
    if n <= 0 {
        cs
    } else {
        pass_clause(p, imprints, s, s.clauses@[n - 1], fold_clauses(p, imprints, s, n - 1, cs))
    }
}

/// The gated specs among the first `n`, each folded clause by clause.
pub open spec fn fold_specs(p: AuraPass, imprints: Seq<String>, specs: Seq<EffectSpec>, n: int, cs: CombatStats) -> CombatStats
    decreases n,
{
    if n <= 0 {
        cs
    } else {
        let prev = fold_specs(p, imprints, specs, n - 1, cs);
        if pass_gate(p, specs[n - 1]) {
            fold_clauses(p, imprints, specs[n - 1], specs[n - 1].clauses@.len() as int, prev)
        } else {
            prev
        }
    }
}

/// A source card's authored specs folded in under pass `p` (nothing for a card without).
pub open spec fn fold_card(p: AuraPass, imprints: Seq<String>, canon: Canon, catalog: Seq<CardDef>, id: CardId, cs: CombatStats) -> CombatStats {
    match spec_specs_for(canon, catalog, id) {
        Some(specs) => fold_specs(p, imprints, specs, specs.len() as int, cs),
        None => cs,
    }
}

/// The first `n` sources folded in order.
pub open spec fn fold_sources(srcs: Seq<(AuraPass, CardId)>, imprints: Seq<String>, canon: Canon, catalog: Seq<CardDef>, n: int, cs: CombatStats) -> CombatStats
    decreases n,
{
    if n <= 0 {
        cs
    } else {
        let prev = fold_sources(srcs, imprints, canon, catalog, n - 1, cs);
        fold_card(srcs[n - 1].0, imprints, canon, catalog, srcs[n - 1].1, prev)
    }
}

/// Every source folded in order.
pub open spec fn fold_all(srcs: Seq<(AuraPass, CardId)>, imprints: Seq<String>, canon: Canon, catalog: Seq<CardDef>, cs: CombatStats) -> CombatStats {
    fold_sources(srcs, imprints, canon, catalog, srcs.len() as int, cs)
}

fn add16(a: i16, b: i16) -> (r: i16)
    ensures
        r == wadd(a, b),
{
    a.wrapping_add(b)
}

pub(crate) fn imprints_contain(imprints: &Vec<String>, im: &String) -> (r: bool)
    ensures
        r == has_imprint(imprints@, im@),
{
    let n = imprints.len();
    for i in 0..n
        invariant
            n == imprints@.len(),
            forall|k: int| 0 <= k < i ==> (#[trigger] imprints@[k])@ != im@,
    {
        if imprints[i] == *im {
            return true;
        }
    }
    false
}

fn scan_condition_exec(f: ScanFacts, c: &Condition) -> (r: bool)
    ensures
        r == scan_condition(f, *c),
{
    match c {
        Condition::Always => true,
        Condition::WhileDamaged => f.src_damaged,
        Condition::WhileUndamaged => !f.src_damaged,
        Condition::WhileAdjacentToAlly => f.src_adj_ally,
        Condition::AdjacentAlliesShareResonance { .. } => f.src_adj_ally,
        Condition::OncePerMatch => !f.src_latched,
        Condition::WhileFaceDown => f.src_face_down,
        _ => false,
    }
}

fn pass_gate_exec(p: AuraPass, s: &EffectSpec) -> (r: bool)
    ensures
        r == pass_gate(p, *s),
{
    match p {
        AuraPass::Scan(f) => matches!(s.trigger, Trigger::Static) && scan_condition_exec(f, &s.condition),
        AuraPass::Conspiracy => matches!(s.trigger, Trigger::Static) && matches!(s.condition, Condition::PairAdjacent),
        AuraPass::Trellis => matches!(s.trigger, Trigger::Static) || matches!(s.trigger, Trigger::OnReveal),
        _ => matches!(s.trigger, Trigger::Static),
    }
}

fn scan_applies_exec(f: ScanFacts, imprints: &Vec<String>, sel: &Selector) -> (r: bool)
    ensures
        r == scan_applies(f, imprints@, *sel),
{
    match sel {
        Selector::SelfSpirit => f.on_self,
        Selector::AdjacentAlliesAll => f.ally && !f.on_self && f.adjacent,
        Selector::AlliesAll => f.ally,
        Selector::AlliesInReach => f.ally && !f.on_self && f.in_reach,
        Selector::AlliesWithImprint { imprint } => f.ally && f.imprints_open && imprints_contain(imprints, imprint),
        Selector::EnemiesWithinTiles { tiles } => !f.ally && f.dist <= *tiles as i16,
        Selector::AdjacentEnemiesAll => !f.ally && !f.on_self && f.adjacent,
        Selector::EnemiesEngagingAdjacentAllies => !f.ally && f.engaging,
        Selector::EnemiesAll => !f.ally,
        _ => false,
    }
}

fn apply_clause(p: AuraPass, imprints: &Vec<String>, s: &EffectSpec, c: &Clause, cs: &mut CombatStats)
    requires
        pass_ok(p),
    ensures
        *final(cs) == pass_clause(p, imprints@, *s, *c, *old(cs)),
{
    match p {
        AuraPass::Scan(f) => {
            if scan_applies_exec(f, imprints, &c.selector) {
                match &c.effect {
                    Effect::StatDelta { attack, defense, .. } => {
                        cs.atk = add16(cs.atk, *attack);
                        cs.def = add16(cs.def, *defense);
                    },
                    Effect::RetaliationDelta { amount } => {
                        if f.on_self {
                            cs.retaliation = add16(cs.retaliation, *amount);
                        }
                    },
                    Effect::DamageReduction { amount } => {
                        cs.dmg_reduction = add16(cs.dmg_reduction, *amount);
                    },
                    Effect::CounterAura { max, .. } => {
                        if f.on_self {
                            let cap: i16 = *max as i16;
                            let n: i16 = if f.chorus <= cap { f.chorus } else { cap };
                            cs.atk = add16(cs.atk, 10 * n);
                        }
                    },
                    Effect::GrantSharedResonance => {
                        if f.on_self && f.shared.is_some() {
                            cs.resonance = f.shared;
                        }
                    },
                    Effect::EdgeNegate => {
                        cs.edge_negated_against = true;
                    },
                    _ => {},
                }
            }
        },
        AuraPass::Landmark { allied } => {
            if matches!(c.selector, Selector::OccupantHere) || (matches!(c.selector, Selector::OccupantAndAdjacentAllies) && allied) {
                match &c.effect {
                    Effect::StatDelta { attack, defense, .. } => {
                        cs.atk = add16(cs.atk, *attack);
                        cs.def = add16(cs.def, *defense);
                    },
                    Effect::RetaliationDelta { amount } => {
                        cs.retaliation = add16(cs.retaliation, *amount);
                    },
                    _ => {},
                }
            }
        },
        AuraPass::BondPair { both_damaged, partner } => {
            if matches!(c.selector, Selector::BondedPair) {
                match &c.effect {
                    Effect::StatDelta { attack, defense, .. } => {
                        if !matches!(s.condition, Condition::WhileDamaged) || both_damaged {
                            cs.atk = add16(cs.atk, *attack);
                            cs.def = add16(cs.def, *defense);
                        }
                    },
                    Effect::StatShareHigher { attack, defense } => {
                        match partner {
                            Some((pa, pd)) => {
                                if *attack && pa > cs.atk {
                                    cs.atk = pa;
                                }
                                if *defense && pd > cs.def {
                                    cs.def = pd;
                                }
                            },
                            None => {},
                        }
                    },
                    _ => {},
                }
            }
        },
        AuraPass::Momentum { on_self, ally } => {
            match &c.effect {
                Effect::MomentumMod { first_engage_bonus, chain_while_defeating, per_link_bonus, chain_no_retaliation } => {
                    if (matches!(c.selector, Selector::SelfSpirit) && on_self) || (matches!(c.selector, Selector::AlliesAll) && ally) {
                        cs.momentum_first_bonus = cs.momentum_first_bonus || *first_engage_bonus;
                        cs.chain_while_defeating = cs.chain_while_defeating || *chain_while_defeating;
                        cs.momentum_per_link_bonus = add16(cs.momentum_per_link_bonus, *per_link_bonus);
                        cs.chain_no_retaliation = cs.chain_no_retaliation || *chain_no_retaliation;
                    }
                },
                _ => {},
            }
        },
        AuraPass::SelfAuras { impressions, highest_enemy } => {
            if matches!(c.selector, Selector::SelfSpirit) {
                match &c.effect {
                    Effect::AttackPerEnemyImpression { amount } => {
                        cs.atk = add16(cs.atk, amount.wrapping_mul(impressions));
                    },
                    Effect::CopyHighestEnemyAttack => {
                        match highest_enemy {
                            Some(h) => {
                                cs.atk = h;
                            },
                            None => {},
                        }
                    },
                    _ => {},
                }
            }
        },
        AuraPass::Conspiracy => {
            match &c.effect {
                Effect::StatDelta { attack, defense, .. } => {
                    if matches!(c.selector, Selector::AdjacentEnemiesAll) {
                        cs.atk = add16(cs.atk, *attack);
                        cs.def = add16(cs.def, *defense);
                    }
                },
                _ => {},
            }
        },
        AuraPass::Trellis => {
            match &c.effect {
                Effect::StatDelta { attack, defense, .. } => {
                    if (matches!(c.selector, Selector::OccupantAndAdjacentAllies) || matches!(c.selector, Selector::AdjacentAlliesAll))
                        && c.duration == Duration::WhilePresent
                    {
                        cs.atk = add16(cs.atk, *attack);
                        cs.def = add16(cs.def, *defense);
                    }
                },
                _ => {},
            }
        },
        AuraPass::Engaged => {
            match &c.effect {
                Effect::EngagerAttackDelta { attack } => {
                    if matches!(c.selector, Selector::SelfSpirit) {
                        cs.atk = add16(cs.atk, *attack);
                    }
                },
                _ => {},
            }
        },
    }
}

/// Fold a source card's authored specs into the numbers under pass `p`.
fn apply_card(p: AuraPass, imprints: &Vec<String>, canon: &Canon, catalog: &[CardDef], id: CardId, cs: &mut CombatStats)
    requires
        pass_ok(p),
    ensures
        *final(cs) == fold_card(p, imprints@, *canon, catalog@, id, *old(cs)),
{
    let specs = match specs_for(canon, catalog, id) {
        Some(s) => s,
        None => return,
    };
    let ghost start = *cs;
    let n = specs.len();
    for i in 0..n
        invariant
            n == specs@.len(),
            pass_ok(p),
            *cs == fold_specs(p, imprints@, specs@, i as int, start),
    {
        let s = &specs[i];
        if pass_gate_exec(p, s) {
            let ghost before = *cs;
            let m = s.clauses.len();
            for j in 0..m
                invariant
                    m == s.clauses@.len(),
                    pass_ok(p),
                    *cs == fold_clauses(p, imprints@, *s, j as int, before),
            {
                apply_clause(p, imprints, s, &s.clauses[j], cs);
            }
        }
    }
}

/// Fold every listed source into the numbers, in order.
fn apply_sources(srcs: &Vec<(AuraPass, CardId)>, imprints: &Vec<String>, canon: &Canon, catalog: &[CardDef], cs: &mut CombatStats)
    requires
        forall|i: int| 0 <= i < srcs@.len() ==> pass_ok(#[trigger] srcs@[i].0),
    ensures
        *final(cs) == fold_all(srcs@, imprints@, *canon, catalog@, *old(cs)),
{
    let ghost start = *cs;
    let n = srcs.len();
    for i in 0..n
        invariant
            n == srcs@.len(),
            forall|k: int| 0 <= k < srcs@.len() ==> pass_ok(#[trigger] srcs@[k].0),
            *cs == fold_sources(srcs@, imprints@, *canon, catalog@, i as int, start),
    {
        let (p, id) = srcs[i];
        assert(pass_ok(srcs@[i as int].0));
        apply_card(p, imprints, canon, catalog, id, cs);
    }
}


// ---------------------------------------------------------------------------
// Board facts the passes read
// ---------------------------------------------------------------------------

/// Tile `i` holds a standing ally of `owner` (not on `tile`) one step from `tile` — or,
/// when `bridged`, joined to `tile` by an Unbreakable Bond.
pub open spec fn counts_for_chorus(sim: GameState, canon: Canon, catalog: Seq<CardDef>, tile: u8, owner: Seat, bridged: bool, i: int) -> bool {
    i != tile as int && (sim.board@[i].spirit matches Some(o) && !o.fading && o.owner == owner)
        && (spec_manhattan(i as u8, tile) == 1 || (bridged && spec_unbreakable_bridges(sim, canon, catalog, tile, i as u8)))
}

/// How many of the first `n` tiles count for the Chorus of `tile`.
pub open spec fn spec_chorus_count(sim: GameState, canon: Canon, catalog: Seq<CardDef>, tile: u8, owner: Seat, bridged: bool, n: int) -> nat
    decreases n,
{
    if n <= 0 {
        0
    } else {
        spec_chorus_count(sim, canon, catalog, tile, owner, bridged, n - 1)
            + if counts_for_chorus(sim, canon, catalog, tile, owner, bridged, n - 1) { 1nat } else { 0nat }
    }
}

/// The spirit's own Chorus count: its standing allies one step away or Unbreakable-bridged,
/// none while an adjacent enemy silences its traits.
pub open spec fn spec_chorus(sim: GameState, canon: Canon, catalog: Seq<CardDef>, tile: u8, me: Spirit) -> int {
    if spec_trait_silenced(sim, canon, catalog, tile) {
        0
    } else {
        spec_chorus_count(sim, canon, catalog, tile, me.owner, true, sim.board@.len() as int) as int
    }
}

/// What the standing spirit `ssp` on tile `i` sees of the spirit `me` on `tile`.
pub open spec fn scan_facts(sim: GameState, canon: Canon, catalog: Seq<CardDef>, tile: u8, me: Spirit, vs: Option<u8>, i: int, ssp: Spirit) -> ScanFacts {
    ScanFacts {
        on_self: i == tile as int,
        ally: ssp.owner == me.owner,
        adjacent: spec_manhattan(i as u8, tile) == 1,
        dist: spec_manhattan(i as u8, tile) as i16,
        in_reach: spec_oriented_w(spec_card(catalog, ssp.card).reach, i as u8, ssp.owner, BOARD_W).contains(tile),
        imprints_open: !me.spec_traits_blanked(sim.round),
        engaging: match vs {
            Some(v) => spec_manhattan(i as u8, v) == 1 && (sim.spec_spirit_at(v) matches Some(d) && d.owner == ssp.owner),
            None => false,
        },
        chorus: spec_chorus(sim, canon, catalog, tile, me) as i16,
        shared: spec_shared_adjacent_resonance(sim, catalog, tile, me, 2),
        src_damaged: ssp.hp < ssp.hp_max,
        src_adj_ally: spec_has_adjacent_ally(sim, i as u8, ssp.owner),
        src_latched: ssp.replacement_used,
        src_face_down: ssp.face_down,
    }
}

/// The families of aura sources that range over the board's tiles or its Bonds.
#[derive(Debug, Clone, Copy)]
pub enum SourceKind {
    /// Every standing spirit.
    Scan,
    /// The spirit itself and its standing face-up allies.
    Momentum,
    /// Face-up Landmarks of the spirit's owner one step away.
    Trellis,
    /// Live Bonds the spirit belongs to.
    BondPair,
    /// Live enemy Bonds with an end one step away.
    Conspiracy,
}

/// Tiles or Bonds: how many candidates a source family ranges over.
pub open spec fn source_domain(sim: GameState, k: SourceKind) -> int {
    match k {
        SourceKind::BondPair | SourceKind::Conspiracy => sim.bonds@.len() as int,
        _ => sim.board@.len() as int,
    }
}

/// The source candidate `i` of family `k` contributes, with its pass, if any.
pub open spec fn aura_source_at(sim: GameState, canon: Canon, catalog: Seq<CardDef>, tile: u8, me: Spirit, vs: Option<u8>, k: SourceKind, i: int) -> Option<(AuraPass, CardId)> {
    match k {
        SourceKind::Scan => match sim.board@[i].spirit {
            Some(ssp) => if !ssp.fading { Some((AuraPass::Scan(scan_facts(sim, canon, catalog, tile, me, vs, i, ssp)), ssp.card)) } else { None },
            None => None,
        },
        SourceKind::Momentum => match sim.board@[i].spirit {
            Some(ssp) => if !ssp.fading && !ssp.face_down && (i == tile as int || ssp.owner == me.owner) {
                Some((AuraPass::Momentum { on_self: i == tile as int, ally: ssp.owner == me.owner }, ssp.card))
            } else {
                None
            },
            None => None,
        },
        SourceKind::Trellis => match sim.board@[i].terrain {
            Some(terr) => if spec_manhattan(tile, i as u8) == 1 && !terr.face_down && me.owner == terr.owner { Some((AuraPass::Trellis, terr.card)) } else { None },
            None => None,
        },
        SourceKind::BondPair => {
            let b = sim.bonds@[i];
            if (b.tile_a == tile || b.tile_b == tile) && spec_pair_live(sim, b) {
                let other = if b.tile_a == tile { b.tile_b } else { b.tile_a };
                let partner = sim.spec_spirit_at(other);
                Some((AuraPass::BondPair {
                    both_damaged: me.hp < me.hp_max && (partner matches Some(o) && o.hp < o.hp_max),
                    partner: match partner { Some(o) => Some((o.attack, o.defense)), None => None },
                }, b.card))
            } else {
                None
            }
        },
        SourceKind::Conspiracy => {
            let b = sim.bonds@[i];
            if me.owner != b.owner && (spec_manhattan(b.tile_a, tile) == 1 || spec_manhattan(b.tile_b, tile) == 1) && spec_pair_live(sim, b) {
                Some((AuraPass::Conspiracy, b.card))
            } else {
                None
            }
        },
    }
}

/// The sources of family `k` among its first `n` candidates, in order.
pub open spec fn spec_sources(sim: GameState, canon: Canon, catalog: Seq<CardDef>, tile: u8, me: Spirit, vs: Option<u8>, k: SourceKind, n: int) -> Seq<(AuraPass, CardId)>
    decreases n,
{
    if n <= 0 {
        Seq::empty()
    } else {
        let prev = spec_sources(sim, canon, catalog, tile, me, vs, k, n - 1);
        match aura_source_at(sim, canon, catalog, tile, me, vs, k, n - 1) {
            Some(x) => prev.push(x),
            None => prev,
        }
    }
}

/// Every source of family `k`, in board (or Bond) order.
pub open spec fn all_sources(sim: GameState, canon: Canon, catalog: Seq<CardDef>, tile: u8, me: Spirit, vs: Option<u8>, k: SourceKind) -> Seq<(AuraPass, CardId)> {
    spec_sources(sim, canon, catalog, tile, me, vs, k, source_domain(sim, k))
}

/// The face-up Landmark on the spirit's tile, as a source.
pub open spec fn landmark_sources(sim: GameState, tile: u8, me: Spirit) -> Seq<(AuraPass, CardId)> {
    match sim.board@[tile as int].terrain {
        Some(terr) => if !terr.face_down { seq![(AuraPass::Landmark { allied: me.owner == terr.owner }, terr.card)] } else { Seq::empty() },
        None => Seq::empty(),
    }
}

/// Tiles among the first `n` carrying an impression of `seat`.
pub open spec fn spec_impression_count(sim: GameState, seat: Seat, n: int) -> nat
    decreases n,
{
    if n <= 0 {
        0
    } else {
        spec_impression_count(sim, seat, n - 1) + if sim.board@[n - 1].impressions@.contains(seat) { 1nat } else { 0nat }
    }
}

/// The highest Attack among the standing enemies of `owner` on the first `n` tiles.
pub open spec fn spec_highest_enemy(sim: GameState, owner: Seat, n: int) -> Option<i16>
    decreases n,
{
    if n <= 0 {
        None
    } else {
        let prev = spec_highest_enemy(sim, owner, n - 1);
        match sim.board@[n - 1].spirit {
            Some(s) => if s.owner != owner && !s.fading {
                match prev {
                    Some(h) => Some(max16(h, s.attack)),
                    None => Some(s.attack),
                }
            } else {
                prev
            },
            None => prev,
        }
    }
}

/// The spirit's own card, read as its own board-reading source.
pub open spec fn self_sources(sim: GameState, me: Spirit) -> Seq<(AuraPass, CardId)> {
    let n = sim.board@.len() as int;
    seq![(AuraPass::SelfAuras {
        impressions: spec_impression_count(sim, me.owner.spec_other(), n) as i16,
        highest_enemy: spec_highest_enemy(sim, me.owner, n),
    }, me.card)]
}

/// The standing enemy being struck, as a source of engage auras.
pub open spec fn engaged_sources(sim: GameState, vs: Option<u8>) -> Seq<(AuraPass, CardId)> {
    match vs {
        Some(v) => match sim.spec_spirit_at(v) {
            Some(d) => if !d.fading { seq![(AuraPass::Engaged, d.card)] } else { Seq::empty() },
            None => Seq::empty(),
        },
        None => Seq::empty(),
    }
}

// ---------------------------------------------------------------------------
// Seat-wide and this-round stages
// ---------------------------------------------------------------------------

/// The first `n` this-round stat modifiers on `tile`, added.
pub open spec fn fold_temp_mods(sim: GameState, tile: u8, n: int, cs: CombatStats) -> CombatStats
    decreases n,
{
    if n <= 0 {
        cs
    } else {
        let prev = fold_temp_mods(sim, tile, n - 1, cs);
        let m = sim.temp_mods@[n - 1];
        if m.tile == tile { add_stats(prev, m.attack, m.defense) } else { prev }
    }
}

/// The first `n` retaliation shifts on `tile` still in force this round, added.
pub open spec fn fold_temp_retaliation(sim: GameState, tile: u8, n: int, cs: CombatStats) -> CombatStats
    decreases n,
{
    if n <= 0 {
        cs
    } else {
        let prev = fold_temp_retaliation(sim, tile, n - 1, cs);
        let (t, delta, until) = sim.temp_retaliation@[n - 1];
        if t == tile && until >= sim.round { CombatStats { retaliation: wadd(prev.retaliation, delta), ..prev } } else { prev }
    }
}

/// Tile `i` holds a standing face-up spirit of `seat` whose aura shares the pair's higher
/// Defense (`defense`) or Attack.
pub open spec fn pair_share_at(sim: GameState, canon: Canon, catalog: Seq<CardDef>, seat: Seat, defense: bool, i: int) -> bool {
    sim.board@[i].spirit matches Some(sp) && sp.owner == seat && !sp.fading && !sp.face_down
        && spec_card_static_has(canon, catalog, sp.card, ClauseTest::PairShareHigher { defense })
}

/// Rondel, the Joining: whether `seat` shares its bonded pairs' higher (Attack, Defense).
pub open spec fn spec_owner_grants_pair_share(sim: GameState, canon: Canon, catalog: Seq<CardDef>, seat: Seat) -> (bool, bool) {
    (exists|i: int| 0 <= i < sim.board@.len() && #[trigger] pair_share_at(sim, canon, catalog, seat, false, i),
     exists|i: int| 0 <= i < sim.board@.len() && #[trigger] pair_share_at(sim, canon, catalog, seat, true, i))
}

/// Rondel, the Joining: the (attack, defense) share flags a standing face-up spirit of
/// `seat` grants every one of the seat's bonded pairs.
pub fn owner_grants_pair_share(sim: &GameState, canon: &Canon, catalog: &[CardDef], seat: Seat) -> (r: (bool, bool))
    ensures
        r == spec_owner_grants_pair_share(*sim, *canon, catalog@, seat),
{
    let mut share_atk = false;
    let mut share_def = false;
    let n = sim.board.len();
    for i in 0..n
        invariant
            n == sim.board@.len(),
            share_atk == exists|j: int| 0 <= j < i && #[trigger] pair_share_at(*sim, *canon, catalog@, seat, false, j),
            share_def == exists|j: int| 0 <= j < i && #[trigger] pair_share_at(*sim, *canon, catalog@, seat, true, j),
    {
        match &sim.board[i].spirit {
            Some(sp) => {
                if sp.owner == seat && !sp.fading && !sp.face_down {
                    if card_static_has(canon, catalog, sp.card, ClauseTest::PairShareHigher { defense: false }) {
                        share_atk = true;
                    }
                    if card_static_has(canon, catalog, sp.card, ClauseTest::PairShareHigher { defense: true }) {
                        share_def = true;
                    }
                }
            },
            None => {},
        }
        assert(share_atk == exists|j: int| 0 <= j < i + 1 && #[trigger] pair_share_at(*sim, *canon, catalog@, seat, false, j)) by {
            if pair_share_at(*sim, *canon, catalog@, seat, false, i as int) {
                assert(share_atk);
            }
        }
        assert(share_def == exists|j: int| 0 <= j < i + 1 && #[trigger] pair_share_at(*sim, *canon, catalog@, seat, true, j)) by {
            if pair_share_at(*sim, *canon, catalog@, seat, true, i as int) {
                assert(share_def);
            }
        }
    }
    (share_atk, share_def)
}

/// Bond `b` in the Rondel share: the partner's higher numbers, for a live pair holding
/// `tile`.
pub open spec fn rondel_step(sim: GameState, tile: u8, share: (bool, bool), b: crate::state::Bond, cs: CombatStats) -> CombatStats {
    let other = if b.tile_a == tile { Some(b.tile_b) } else if b.tile_b == tile { Some(b.tile_a) } else { None };
    match other {
        Some(ot) => match sim.spec_spirit_at(ot) {
            Some(o) => if spec_manhattan(b.tile_a, b.tile_b) == 1 && !o.fading {
                CombatStats {
                    atk: if share.0 { max16(cs.atk, o.attack) } else { cs.atk },
                    def: if share.1 { max16(cs.def, o.defense) } else { cs.def },
                    ..cs
                }
            } else {
                cs
            },
            None => cs,
        },
        None => cs,
    }
}

/// The first `n` Bonds folded through the Rondel share.
pub open spec fn fold_rondel(sim: GameState, tile: u8, share: (bool, bool), n: int, cs: CombatStats) -> CombatStats
    decreases n,
{
    if n <= 0 {
        cs
    } else {
        rondel_step(sim, tile, share, sim.bonds@[n - 1], fold_rondel(sim, tile, share, n - 1, cs))
    }
}

/// Bond `k` holds `tile` in a live pair.
pub open spec fn live_bond_holds(sim: GameState, tile: u8, k: int) -> bool {
    let b = sim.bonds@[k];
    (b.tile_a == tile || b.tile_b == tile) && spec_pair_live(sim, b)
}

/// Duet Ascendant: the seat's flat bond stat, for a spirit in a live pair.
pub open spec fn duet_stage(sim: GameState, canon: Canon, catalog: Seq<CardDef>, tile: u8, me: Spirit, cs: CombatStats) -> CombatStats {
    let (da, dd) = wrap_pair(spec_board_sum(sim, canon, catalog, TileFilter::SpiritsOf { seat: me.owner, face_up: true }, ClauseTally::OwnerBondStat));
    if (da != 0 || dd != 0) && exists|k: int| 0 <= k < sim.bonds@.len() && #[trigger] live_bond_holds(sim, tile, k) {
        add_stats(cs, da, dd)
    } else {
        cs
    }
}

/// The first `AdjacentAlliesAll / CounterAura` cap among clauses `j..`.
pub open spec fn first_grant_clauses(cls: Seq<Clause>, j: int) -> Option<u8>
    decreases cls.len() - j,
{
    if j < 0 || j >= cls.len() {
        None
    } else {
        match cls[j].effect {
            Effect::CounterAura { max, .. } => if cls[j].selector is AdjacentAlliesAll { Some(max) } else { first_grant_clauses(cls, j + 1) },
            _ => first_grant_clauses(cls, j + 1),
        }
    }
}

/// The first Chorus-granting cap among the Static specs `i..`.
pub open spec fn first_grant_specs(specs: Seq<EffectSpec>, i: int) -> Option<u8>
    decreases specs.len() - i,
{
    if i < 0 || i >= specs.len() {
        None
    } else if specs[i].trigger is Static && first_grant_clauses(specs[i].clauses@, 0) is Some {
        first_grant_clauses(specs[i].clauses@, 0)
    } else {
        first_grant_specs(specs, i + 1)
    }
}

/// The Chorus cap tile `i` grants the spirit on `tile`: a standing ally one step away whose
/// card grants Chorus to its adjacent allies.
pub open spec fn grant_at(sim: GameState, canon: Canon, catalog: Seq<CardDef>, tile: u8, owner: Seat, i: int) -> Option<u8> {
    match sim.board@[i].spirit {
        Some(sp) => if i != tile as int && spec_manhattan(i as u8, tile) == 1 && sp.owner == owner && !sp.fading {
            match spec_specs_for(canon, catalog, sp.card) {
                Some(specs) => first_grant_specs(specs, 0),
                None => None,
            }
        } else {
            None
        },
        None => None,
    }
}

pub open spec fn opt_max(a: Option<u8>, b: Option<u8>) -> Option<u8> {
    match (a, b) {
        (Some(x), Some(y)) => Some(if x >= y { x } else { y }),
        (Some(x), None) => Some(x),
        (None, y) => y,
    }
}

/// The highest Chorus cap granted among the first `n` tiles.
pub open spec fn spec_max_grant(sim: GameState, canon: Canon, catalog: Seq<CardDef>, tile: u8, owner: Seat, n: int) -> Option<u8>
    decreases n,
{
    if n <= 0 {
        None
    } else {
        opt_max(spec_max_grant(sim, canon, catalog, tile, owner, n - 1), grant_at(sim, canon, catalog, tile, owner, n - 1))
    }
}

/// Maestra Vole: a Chorus granted by an adjacent ally, counting the spirit's own adjacent
/// standing allies up to the highest cap granted — silenced beside a trait silence.
pub open spec fn granted_chorus_stage(sim: GameState, canon: Canon, catalog: Seq<CardDef>, tile: u8, me: Spirit, cs: CombatStats) -> CombatStats {
    match spec_max_grant(sim, canon, catalog, tile, me.owner, sim.board@.len() as int) {
        Some(g) => if !spec_trait_silenced(sim, canon, catalog, tile) {
            let adj = spec_chorus_count(sim, canon, catalog, tile, me.owner, false, sim.board@.len() as int) as i16;
            CombatStats { atk: wadd(cs.atk, chorus_bonus(adj, g)), ..cs }
        } else {
            cs
        },
        None => cs,
    }
}

/// The spirit's base numbers: printed-and-settled Attack and Defense, its card's Resonance.
pub open spec fn base_stats(catalog: Seq<CardDef>, me: Spirit) -> CombatStats {
    CombatStats { atk: me.attack, def: me.defense, resonance: Some(spec_card(catalog, me.card).resonance), ..zero_stats() }
}

/// The effective combat numbers of the spirit on `tile` (striking `vs`, when given), in
/// the order the rules apply them: this round's stat and retaliation modifiers; every
/// standing spirit's Static auras that reach it; the Landmark underfoot; its live Bonds'
/// pair auras; the Rondel share and the Duet stat of its owner; a granted Chorus; Momentum
/// modifiers; its own board-reading auras; enemy Bonds' debuffs; allied Landmarks one step
/// away; the struck enemy's engage aura. An empty tile reads all zero.
pub open spec fn spec_combat_stats(sim: GameState, canon: Canon, catalog: Seq<CardDef>, tile: u8, vs: Option<u8>) -> CombatStats {
    match sim.spec_spirit_at(tile) {
        None => zero_stats(),
        Some(me) => {
            let ims = spec_card(catalog, me.card).imprints@;
            let cs1 = fold_temp_mods(sim, tile, sim.temp_mods@.len() as int, base_stats(catalog, me));
            let cs2 = fold_temp_retaliation(sim, tile, sim.temp_retaliation@.len() as int, cs1);
            let cs3 = fold_all(all_sources(sim, canon, catalog, tile, me, vs, SourceKind::Scan), ims, canon, catalog, cs2);
            let cs4 = fold_all(landmark_sources(sim, tile, me), ims, canon, catalog, cs3);
            let cs5 = fold_all(all_sources(sim, canon, catalog, tile, me, vs, SourceKind::BondPair), ims, canon, catalog, cs4);
            let cs6 = fold_rondel(sim, tile, spec_owner_grants_pair_share(sim, canon, catalog, me.owner), sim.bonds@.len() as int, cs5);
            let cs7 = duet_stage(sim, canon, catalog, tile, me, cs6);
            let cs8 = granted_chorus_stage(sim, canon, catalog, tile, me, cs7);
            let cs9 = fold_all(all_sources(sim, canon, catalog, tile, me, vs, SourceKind::Momentum), ims, canon, catalog, cs8);
            let cs10 = fold_all(self_sources(sim, me), ims, canon, catalog, cs9);
            let cs11 = fold_all(all_sources(sim, canon, catalog, tile, me, vs, SourceKind::Conspiracy), ims, canon, catalog, cs10);
            let cs12 = fold_all(all_sources(sim, canon, catalog, tile, me, vs, SourceKind::Trellis), ims, canon, catalog, cs11);
            fold_all(engaged_sources(sim, vs), ims, canon, catalog, cs12)
        },
    }
}


// ---------------------------------------------------------------------------
// Computing the stages
// ---------------------------------------------------------------------------

fn tiles_contain(v: &Vec<u8>, t: u8) -> (r: bool)
    ensures
        r == v@.contains(t),
{
    let n = v.len();
    for i in 0..n
        invariant
            n == v@.len(),
            forall|k: int| 0 <= k < i ==> v@[k] != t,
    {
        if v[i] == t {
            assert(v@[i as int] == t);
            return true;
        }
    }
    false
}

fn chorus_count(sim: &GameState, canon: &Canon, catalog: &[CardDef], tile: u8, owner: Seat, bridged: bool) -> (r: i16)
    requires
        sim.wf(),
    ensures
        r as int == spec_chorus_count(*sim, *canon, catalog@, tile, owner, bridged, sim.board@.len() as int),
        0 <= r <= 64,
{
    proof {
        lemma_wf_small(*sim);
    }
    let mut c: i16 = 0;
    let n = sim.board.len();
    for i in 0..n
        invariant
            n == sim.board@.len() <= 64,
            c as int == spec_chorus_count(*sim, *canon, catalog@, tile, owner, bridged, i as int),
            0 <= c <= i,
    {
        let mut counts = false;
        if i as u8 != tile {
            match &sim.board[i].spirit {
                Some(o) => {
                    if !o.fading && o.owner == owner {
                        counts = manhattan(i as u8, tile) == 1 || (bridged && unbreakable_bridges(sim, canon, catalog, tile, i as u8));
                    }
                },
                None => {},
            }
        }
        assert(counts == counts_for_chorus(*sim, *canon, catalog@, tile, owner, bridged, i as int));
        if counts {
            c = c + 1;
        }
    }
    c
}

fn scan_source(sim: &GameState, canon: &Canon, catalog: &[CardDef], tile: u8, me: &Spirit, vs: Option<u8>, i: usize, ssp: &Spirit, chorus: i16, shared: Option<Resonance>) -> (f: ScanFacts)
    requires
        sim.wf(),
        cards_known(*sim, catalog@),
        i < sim.board@.len(),
        sim.board@[i as int].spirit == Some(*ssp),
        chorus == spec_chorus(*sim, *canon, catalog@, tile, *me) as i16,
        shared == spec_shared_adjacent_resonance(*sim, catalog@, tile, *me, 2),
    ensures
        f == scan_facts(*sim, *canon, catalog@, tile, *me, vs, i as int, *ssp),
{
    proof {
        lemma_wf_small(*sim);
        assert(catalog_has(catalog@, ssp.card));
    }
    let t = i as u8;
    let d = manhattan(t, tile);
    let reach = oriented(card(catalog, ssp.card).reach, t, ssp.owner);
    let in_reach = tiles_contain(&reach, tile);
    let engaging = match vs {
        Some(v) => manhattan(t, v) == 1 && match sim.spirit_at(v) {
            Some(dd) => dd.owner == ssp.owner,
            None => false,
        },
        None => false,
    };
    let adj_ally = crate::conditions::shared_adjacent_resonance_cond(sim, t, ssp, 0);
    ScanFacts {
        on_self: t == tile,
        ally: ssp.owner == me.owner,
        adjacent: d == 1,
        dist: d,
        in_reach,
        imprints_open: !me.traits_blanked(sim.round),
        engaging,
        chorus,
        shared,
        src_damaged: ssp.hp < ssp.hp_max,
        src_adj_ally: adj_ally,
        src_latched: ssp.replacement_used,
        src_face_down: ssp.face_down,
    }
}

fn source_at(sim: &GameState, canon: &Canon, catalog: &[CardDef], tile: u8, me: &Spirit, vs: Option<u8>, k: SourceKind, i: usize, chorus: i16, shared: Option<Resonance>) -> (r: Option<(AuraPass, CardId)>)
    requires
        sim.wf(),
        cards_known(*sim, catalog@),
        i < source_domain(*sim, k),
        chorus == spec_chorus(*sim, *canon, catalog@, tile, *me) as i16,
        0 <= chorus <= 64,
        shared == spec_shared_adjacent_resonance(*sim, catalog@, tile, *me, 2),
    ensures
        r == aura_source_at(*sim, *canon, catalog@, tile, *me, vs, k, i as int),
        r matches Some(x) ==> pass_ok(x.0),
{
    proof {
        lemma_wf_small(*sim);
    }
    match k {
        SourceKind::Scan => match &sim.board[i].spirit {
            Some(ssp) => if !ssp.fading {
                let f = scan_source(sim, canon, catalog, tile, me, vs, i, ssp, chorus, shared);
                Some((AuraPass::Scan(f), ssp.card))
            } else {
                None
            },
            None => None,
        },
        SourceKind::Momentum => match &sim.board[i].spirit {
            Some(ssp) => if !ssp.fading && !ssp.face_down && (i as u8 == tile || ssp.owner == me.owner) {
                Some((AuraPass::Momentum { on_self: i as u8 == tile, ally: ssp.owner == me.owner }, ssp.card))
            } else {
                None
            },
            None => None,
        },
        SourceKind::Trellis => match &sim.board[i].terrain {
            Some(terr) => if manhattan(tile, i as u8) == 1 && !terr.face_down && me.owner == terr.owner {
                Some((AuraPass::Trellis, terr.card))
            } else {
                None
            },
            None => None,
        },
        SourceKind::BondPair => {
            let b = &sim.bonds[i];
            if (b.tile_a == tile || b.tile_b == tile) && pair_live(sim, b) {
                let other = if b.tile_a == tile { b.tile_b } else { b.tile_a };
                let (both_damaged, partner) = match sim.spirit_at(other) {
                    Some(o) => (me.hp < me.hp_max && o.hp < o.hp_max, Some((o.attack, o.defense))),
                    None => (false, None),
                };
                Some((AuraPass::BondPair { both_damaged, partner }, b.card))
            } else {
                None
            }
        },
        SourceKind::Conspiracy => {
            let b = &sim.bonds[i];
            if me.owner != b.owner && (manhattan(b.tile_a, tile) == 1 || manhattan(b.tile_b, tile) == 1) && pair_live(sim, b) {
                Some((AuraPass::Conspiracy, b.card))
            } else {
                None
            }
        },
    }
}

fn collect_sources(sim: &GameState, canon: &Canon, catalog: &[CardDef], tile: u8, me: &Spirit, vs: Option<u8>, k: SourceKind, chorus: i16, shared: Option<Resonance>) -> (r: Vec<(AuraPass, CardId)>)
    requires
        sim.wf(),
        cards_known(*sim, catalog@),
        chorus == spec_chorus(*sim, *canon, catalog@, tile, *me) as i16,
        0 <= chorus <= 64,
        shared == spec_shared_adjacent_resonance(*sim, catalog@, tile, *me, 2),
    ensures
        r@ == all_sources(*sim, *canon, catalog@, tile, *me, vs, k),
        forall|i: int| 0 <= i < r@.len() ==> pass_ok(#[trigger] r@[i].0),
{
    let n = match k {
        SourceKind::BondPair | SourceKind::Conspiracy => sim.bonds.len(),
        _ => sim.board.len(),
    };
    let mut out: Vec<(AuraPass, CardId)> = Vec::new();
    for i in 0..n
        invariant
            n == source_domain(*sim, k),
            sim.wf(),
            cards_known(*sim, catalog@),
            chorus == spec_chorus(*sim, *canon, catalog@, tile, *me) as i16,
            0 <= chorus <= 64,
            shared == spec_shared_adjacent_resonance(*sim, catalog@, tile, *me, 2),
            out@ == spec_sources(*sim, *canon, catalog@, tile, *me, vs, k, i as int),
            forall|j: int| 0 <= j < out@.len() ==> pass_ok(#[trigger] out@[j].0),
    {
        match source_at(sim, canon, catalog, tile, me, vs, k, i, chorus, shared) {
            Some(x) => {
                out.push(x);
            },
            None => {},
        }
    }
    out
}

fn impression_count(sim: &GameState, seat: Seat) -> (r: i16)
    requires
        sim.wf(),
    ensures
        r as int == spec_impression_count(*sim, seat, sim.board@.len() as int),
{
    proof {
        lemma_wf_small(*sim);
    }
    let mut c: i16 = 0;
    let n = sim.board.len();
    for i in 0..n
        invariant
            n == sim.board@.len() <= 64,
            c as int == spec_impression_count(*sim, seat, i as int),
            0 <= c <= i,
    {
        if crate::projection::seats_contain(&sim.board[i].impressions, seat) {
            c = c + 1;
        }
    }
    c
}

fn highest_enemy(sim: &GameState, owner: Seat) -> (r: Option<i16>)
    ensures
        r == spec_highest_enemy(*sim, owner, sim.board@.len() as int),
{
    let mut h: Option<i16> = None;
    let n = sim.board.len();
    for i in 0..n
        invariant
            n == sim.board@.len(),
            h == spec_highest_enemy(*sim, owner, i as int),
    {
        match &sim.board[i].spirit {
            Some(s) => {
                if s.owner != owner && !s.fading {
                    h = match h {
                        Some(x) => Some(if x >= s.attack { x } else { s.attack }),
                        None => Some(s.attack),
                    };
                }
            },
            None => {},
        }
    }
    h
}

fn first_grant_in_clauses(cls: &Vec<Clause>) -> (r: Option<u8>)
    ensures
        r == first_grant_clauses(cls@, 0),
{
    let m = cls.len();
    for j in 0..m
        invariant
            m == cls@.len(),
            first_grant_clauses(cls@, 0) == first_grant_clauses(cls@, j as int),
    {
        let c = &cls[j];
        match &c.effect {
            Effect::CounterAura { max, .. } => {
                if matches!(c.selector, Selector::AdjacentAlliesAll) {
                    return Some(*max);
                }
            },
            _ => {},
        }
    }
    None
}

fn first_grant_in(specs: &[EffectSpec]) -> (r: Option<u8>)
    ensures
        r == first_grant_specs(specs@, 0),
{
    let n = specs.len();
    for i in 0..n
        invariant
            n == specs@.len(),
            first_grant_specs(specs@, 0) == first_grant_specs(specs@, i as int),
    {
        let s = &specs[i];
        if matches!(s.trigger, Trigger::Static) {
            let found = first_grant_in_clauses(&s.clauses);
            if found.is_some() {
                return found;
            }
        }
    }
    None
}

fn max_grant(sim: &GameState, canon: &Canon, catalog: &[CardDef], tile: u8, owner: Seat) -> (r: Option<u8>)
    requires
        sim.wf(),
    ensures
        r == spec_max_grant(*sim, *canon, catalog@, tile, owner, sim.board@.len() as int),
{
    proof {
        lemma_wf_small(*sim);
    }
    let mut best: Option<u8> = None;
    let n = sim.board.len();
    for i in 0..n
        invariant
            n == sim.board@.len() <= 64,
            best == spec_max_grant(*sim, *canon, catalog@, tile, owner, i as int),
    {
        let g: Option<u8> = match &sim.board[i].spirit {
            Some(sp) => if i as u8 != tile && manhattan(i as u8, tile) == 1 && sp.owner == owner && !sp.fading {
                match specs_for(canon, catalog, sp.card) {
                    Some(specs) => first_grant_in(specs),
                    None => None,
                }
            } else {
                None
            },
            None => None,
        };
        assert(g == grant_at(*sim, *canon, catalog@, tile, owner, i as int));
        best = match (best, g) {
            (Some(x), Some(y)) => Some(if x >= y { x } else { y }),
            (Some(x), None) => Some(x),
            (None, y) => y,
        };
    }
    best
}

fn modifier_stage(sim: &GameState, tile: u8, cs: &mut CombatStats)
    ensures
        *final(cs) == fold_temp_retaliation(*sim, tile, sim.temp_retaliation@.len() as int,
            fold_temp_mods(*sim, tile, sim.temp_mods@.len() as int, *old(cs))),
{
    let ghost c0 = *cs;
    let nm = sim.temp_mods.len();
    for i in 0..nm
        invariant
            nm == sim.temp_mods@.len(),
            *cs == fold_temp_mods(*sim, tile, i as int, c0),
    {
        let m = sim.temp_mods[i];
        if m.tile == tile {
            cs.atk = add16(cs.atk, m.attack);
            cs.def = add16(cs.def, m.defense);
        }
    }
    let ghost c1 = *cs;
    let nr = sim.temp_retaliation.len();
    for i in 0..nr
        invariant
            nr == sim.temp_retaliation@.len(),
            *cs == fold_temp_retaliation(*sim, tile, i as int, c1),
    {
        let (t, delta, until) = sim.temp_retaliation[i];
        if t == tile && until >= sim.round {
            cs.retaliation = add16(cs.retaliation, delta);
        }
    }
}

fn rondel_stage(sim: &GameState, tile: u8, share: (bool, bool), cs: &mut CombatStats)
    ensures
        *final(cs) == fold_rondel(*sim, tile, share, sim.bonds@.len() as int, *old(cs)),
{
    let ghost c5 = *cs;
    let nb = sim.bonds.len();
    for k in 0..nb
        invariant
            nb == sim.bonds@.len(),
            *cs == fold_rondel(*sim, tile, share, k as int, c5),
    {
        let b = sim.bonds[k];
        let other: Option<u8> = if b.tile_a == tile { Some(b.tile_b) } else if b.tile_b == tile { Some(b.tile_a) } else { None };
        match other {
            Some(ot) => match sim.spirit_at(ot) {
                Some(o) => {
                    if manhattan(b.tile_a, b.tile_b) == 1 && !o.fading {
                        if share.0 && o.attack > cs.atk {
                            cs.atk = o.attack;
                        }
                        if share.1 && o.defense > cs.def {
                            cs.def = o.defense;
                        }
                    }
                },
                None => {},
            },
            None => {},
        }
    }
}

fn duet_stage_exec(sim: &GameState, canon: &Canon, catalog: &[CardDef], tile: u8, me: &Spirit, cs: &mut CombatStats)
    requires
        sim.wf(),
    ensures
        *final(cs) == duet_stage(*sim, *canon, catalog@, tile, *me, *old(cs)),
{
    let (da, dd) = owner_grants_bond_stat(sim, canon, catalog, me.owner);
    if da != 0 || dd != 0 {
        let mut bonded = false;
        let nb = sim.bonds.len();
        for k in 0..nb
            invariant
                nb == sim.bonds@.len(),
                bonded == exists|j: int| 0 <= j < k && #[trigger] live_bond_holds(*sim, tile, j),
        {
            let b = &sim.bonds[k];
            if (b.tile_a == tile || b.tile_b == tile) && pair_live(sim, b) {
                bonded = true;
            }
            assert(bonded == exists|j: int| 0 <= j < k + 1 && #[trigger] live_bond_holds(*sim, tile, j)) by {
                if live_bond_holds(*sim, tile, k as int) {
                    assert(bonded);
                }
            }
        }
        if bonded {
            cs.atk = add16(cs.atk, da);
            cs.def = add16(cs.def, dd);
        }
    }
}

fn granted_chorus_exec(sim: &GameState, canon: &Canon, catalog: &[CardDef], tile: u8, me: &Spirit, cs: &mut CombatStats)
    requires
        sim.wf(),
    ensures
        *final(cs) == granted_chorus_stage(*sim, *canon, catalog@, tile, *me, *old(cs)),
{
    match max_grant(sim, canon, catalog, tile, me.owner) {
        Some(g) => {
            if !trait_silenced(sim, canon, catalog, tile) {
                let adj = chorus_count(sim, canon, catalog, tile, me.owner, false);
                let cap: i16 = g as i16;
                let n: i16 = if adj <= cap { adj } else { cap };
                cs.atk = add16(cs.atk, 10 * n);
            }
        },
        None => {},
    }
}

fn single_sources(sim: &GameState, tile: u8, me: &Spirit, vs: Option<u8>) -> (r: (Vec<(AuraPass, CardId)>, Vec<(AuraPass, CardId)>, Vec<(AuraPass, CardId)>))
    requires
        sim.wf(),
        (tile as int) < sim.board@.len(),
    ensures
        r.0@ == landmark_sources(*sim, tile, *me),
        r.1@ == self_sources(*sim, *me),
        r.2@ == engaged_sources(*sim, vs),
{
    let mut landmark: Vec<(AuraPass, CardId)> = Vec::new();
    match &sim.board[tile as usize].terrain {
        Some(terr) => {
            if !terr.face_down {
                landmark.push((AuraPass::Landmark { allied: me.owner == terr.owner }, terr.card));
            }
        },
        None => {},
    }
    let mut own: Vec<(AuraPass, CardId)> = Vec::new();
    own.push((AuraPass::SelfAuras {
        impressions: impression_count(sim, me.owner.other()),
        highest_enemy: highest_enemy(sim, me.owner),
    }, me.card));
    let mut engaged: Vec<(AuraPass, CardId)> = Vec::new();
    match vs {
        Some(v) => match sim.spirit_at(v) {
            Some(d) => {
                if !d.fading {
                    engaged.push((AuraPass::Engaged, d.card));
                }
            },
            None => {},
        },
        None => {},
    }
    assert(landmark@ == landmark_sources(*sim, tile, *me));
    assert(own@ == self_sources(*sim, *me));
    assert(engaged@ == engaged_sources(*sim, vs));
    (landmark, own, engaged)
}

/// The effective combat numbers of the spirit on `tile`, striking `vs` when given.
#[verifier::rlimit(30)]
pub fn combat_stats(sim: &GameState, canon: &Canon, catalog: &[CardDef], tile: u8, vs: Option<u8>) -> (cs: CombatStats)
    requires
        sim.wf(),
        cards_known(*sim, catalog@),
    ensures
        cs == spec_combat_stats(*sim, *canon, catalog@, tile, vs),
{
    proof {
        lemma_wf_small(*sim);
    }
    let me = match sim.spirit_at(tile) {
        Some(me) => me,
        None => {
            return CombatStats {
                atk: 0,
                def: 0,
                retaliation: 0,
                dmg_reduction: 0,
                resonance: None,
                edge_negated_against: false,
                momentum_first_bonus: false,
                chain_while_defeating: false,
                momentum_per_link_bonus: 0,
                chain_no_retaliation: false,
            };
        },
    };
    proof {
        assert(sim.board@[tile as int].spirit == Some(*me));
        assert(catalog_has(catalog@, me.card));
    }
    let def = card(catalog, me.card);
    let imprints = &def.imprints;
    let mut cs = CombatStats {
        atk: me.attack,
        def: me.defense,
        retaliation: 0,
        dmg_reduction: 0,
        resonance: Some(def.resonance),
        edge_negated_against: false,
        momentum_first_bonus: false,
        chain_while_defeating: false,
        momentum_per_link_bonus: 0,
        chain_no_retaliation: false,
    };
    modifier_stage(sim, tile, &mut cs);
    let chorus: i16 = if trait_silenced(sim, canon, catalog, tile) {
        0
    } else {
        chorus_count(sim, canon, catalog, tile, me.owner, true)
    };
    let shared = shared_adjacent_resonance(sim, catalog, tile, me, 2);
    let (landmark, own, engaged) = single_sources(sim, tile, me, vs);
    let scan = collect_sources(sim, canon, catalog, tile, me, vs, SourceKind::Scan, chorus, shared);
    apply_sources(&scan, imprints, canon, catalog, &mut cs);
    apply_sources(&landmark, imprints, canon, catalog, &mut cs);
    let pairs = collect_sources(sim, canon, catalog, tile, me, vs, SourceKind::BondPair, chorus, shared);
    apply_sources(&pairs, imprints, canon, catalog, &mut cs);
    let share = owner_grants_pair_share(sim, canon, catalog, me.owner);
    rondel_stage(sim, tile, share, &mut cs);
    duet_stage_exec(sim, canon, catalog, tile, me, &mut cs);
    granted_chorus_exec(sim, canon, catalog, tile, me, &mut cs);
    let momentum = collect_sources(sim, canon, catalog, tile, me, vs, SourceKind::Momentum, chorus, shared);
    apply_sources(&momentum, imprints, canon, catalog, &mut cs);
    apply_sources(&own, imprints, canon, catalog, &mut cs);
    let plots = collect_sources(sim, canon, catalog, tile, me, vs, SourceKind::Conspiracy, chorus, shared);
    apply_sources(&plots, imprints, canon, catalog, &mut cs);
    let trellis = collect_sources(sim, canon, catalog, tile, me, vs, SourceKind::Trellis, chorus, shared);
    apply_sources(&trellis, imprints, canon, catalog, &mut cs);
    apply_sources(&engaged, imprints, canon, catalog, &mut cs);
    cs
}


/// The derived combat numbers of a tile as callers see them.
#[derive(Debug, Clone, Copy)]
pub struct CombatStatsView {
    pub attack: i16,
    pub defense: i16,
    pub resonance: Option<Resonance>,
    pub retaliation: i16,
    pub dmg_reduction: i16,
    pub momentum_first_bonus: bool,
    pub chain_while_defeating: bool,
    pub momentum_per_link_bonus: i16,
}

/// The caller-visible part of a spirit's combat numbers.
pub open spec fn view_of(cs: CombatStats) -> CombatStatsView {
    CombatStatsView {
        attack: cs.atk,
        defense: cs.def,
        resonance: cs.resonance,
        retaliation: cs.retaliation,
        dmg_reduction: cs.dmg_reduction,
        momentum_first_bonus: cs.momentum_first_bonus,
        chain_while_defeating: cs.chain_while_defeating,
        momentum_per_link_bonus: cs.momentum_per_link_bonus,
    }
}

/// The derived combat numbers of the spirit at `tile` outside any strike (Attune
/// resonance, retaliation, Momentum flags and the aura-folded Attack and Defense).
pub fn combat_stats_for_test(sim: &GameState, canon: &Canon, catalog: &[CardDef], tile: u8) -> (v: CombatStatsView)
    requires
        sim.wf(),
        cards_known(*sim, catalog@),
    ensures
        v == view_of(spec_combat_stats(*sim, *canon, catalog@, tile, None)),
{
    let cs = combat_stats(sim, canon, catalog, tile, None);
    CombatStatsView {
        attack: cs.atk,
        defense: cs.def,
        resonance: cs.resonance,
        retaliation: cs.retaliation,
        dmg_reduction: cs.dmg_reduction,
        momentum_first_bonus: cs.momentum_first_bonus,
        chain_while_defeating: cs.chain_while_defeating,
        momentum_per_link_bonus: cs.momentum_per_link_bonus,
    }
}

/// Whether the spirit at `tile` has keyword `kw` — printed, granted by a played card, or
/// granted by a standing aura.
pub fn keyword_active_for_test(sim: &GameState, canon: &Canon, catalog: &[CardDef], tile: u8, kw: crate::effects::Keyword) -> (r: bool)
    requires
        sim.wf(),
        cards_known(*sim, catalog@),
    ensures
        r == crate::keywords::spec_keyword_active(*sim, *canon, catalog@, tile, kw),
{
    crate::keywords::keyword_active(sim, canon, catalog, tile, kw)
}


// ---------------------------------------------------------------------------
// The exchange forecast
// ---------------------------------------------------------------------------

/// The numbers every client shows before a commitment: damage each way, who is banished,
/// and whose Echo is live (reported as eligibility, never rolled).
#[derive(Debug, Clone, Copy)]
pub struct Forecast {
    pub to_defender: i16,
    pub to_attacker: i16,
    pub banishes_defender: bool,
    pub banishes_attacker: bool,
    pub attacker_echo_live: bool,
    pub defender_echo_live: bool,
}

/// A value fits in `i16`.
pub open spec fn fits16(x: int) -> bool {
    i16::MIN <= x <= i16::MAX
}

/// The Edge bonus a striker of Resonance `a` has against Resonance `b`.
pub open spec fn edge_bonus(a: Resonance, b: Resonance) -> int {
    if a.spec_edge_over(b) { crate::rules::EDGE as int } else { 0 }
}

/// The damage the attacker deals before the Echo cap: Attack plus Edge plus the bonus,
/// less the defender's effective Defense, never below 0.
pub open spec fn forecast_raw_to_defender(ac: CardDef, att_attack: i16, dfn: Spirit, dc: CardDef, bonus: i16, def_warded: bool) -> int {
    let v = att_attack + edge_bonus(ac.resonance, dc.resonance) + bonus
        - crate::projection::spec_eff_defense(dfn.defense, ac.arcane, def_warded);
    if v >= 0 { v } else { 0 }
}

/// The attacker is at Echo (down to half its Form or less).
pub open spec fn attacker_at_echo(att_hp: i16, att_hp_max: i16) -> bool {
    att_hp * 2 <= att_hp_max
}

/// The Forgiven Debt: a defender that cannot be banished by an attacker at Echo.
pub open spec fn echo_capped(canon: Canon, dc: CardDef, att_hp: i16, att_hp_max: i16) -> bool {
    attacker_at_echo(att_hp, att_hp_max)
        && crate::auras::spec_name_carries_static_exception(canon, dc.name@, crate::effects::RuleException::UnbanishableByEcho)
}

/// The damage the attacker deals: the raw damage, capped (when the Forgiven Debt holds) to
/// leave the defender at 1 HP.
pub open spec fn forecast_to_defender(canon: Canon, ac: CardDef, att_attack: i16, att_hp: i16, att_hp_max: i16, dfn: Spirit, dc: CardDef, bonus: i16, def_warded: bool) -> int {
    let raw = forecast_raw_to_defender(ac, att_attack, dfn, dc, bonus, def_warded);
    if echo_capped(canon, dc, att_hp, att_hp_max) {
        let cap = if dfn.hp - 1 >= 0 { dfn.hp - 1 } else { 0 };
        if raw <= cap { raw } else { cap }
    } else {
        raw
    }
}

/// The retaliation the defender deals: its Attack plus Edge, less the attacker's effective
/// Defense (the attacker's printed Warded), never below 0.
pub open spec fn forecast_to_attacker(ac: CardDef, att_defense: i16, dfn: Spirit, dc: CardDef) -> int {
    let v = dfn.attack + edge_bonus(dc.resonance, ac.resonance) - crate::projection::spec_eff_defense(att_defense, dc.arcane, ac.warded);
    if v >= 0 { v } else { 0 }
}

/// Every intermediate `i16` value of the forecast stays in range.
pub open spec fn forecast_in_range(canon: Canon, ac: CardDef, att_attack: i16, att_defense: i16, att_hp: i16, att_hp_max: i16, dfn: Spirit, dc: CardDef, bonus: i16, def_warded: bool) -> bool {
    let a_edge = edge_bonus(ac.resonance, dc.resonance);
    let d_edge = edge_bonus(dc.resonance, ac.resonance);
    &&& fits16(att_attack + a_edge)
    &&& fits16(att_attack + a_edge + bonus)
    &&& fits16(att_attack + a_edge + bonus - crate::projection::spec_eff_defense(dfn.defense, ac.arcane, def_warded))
    &&& fits16(att_hp * 2)
    &&& (echo_capped(canon, dc, att_hp, att_hp_max) ==> fits16(dfn.hp - 1))
    &&& fits16(dfn.attack + d_edge)
    &&& fits16(dfn.attack + d_edge - crate::projection::spec_eff_defense(att_defense, dc.arcane, ac.warded))
    &&& fits16(dfn.hp - forecast_to_defender(canon, ac, att_attack, att_hp, att_hp_max, dfn, dc, bonus, def_warded))
    &&& fits16(att_hp - forecast_to_attacker(ac, att_defense, dfn, dc))
}

/// The forecast of an exchange between an attacker of card `ac` (with the given numbers)
/// and the defender `dfn` of card `dc`.
pub open spec fn spec_forecast(canon: Canon, ac: CardDef, att_attack: i16, att_defense: i16, att_hp: i16, att_hp_max: i16, dfn: Spirit, dc: CardDef, bonus: i16, def_warded: bool) -> Forecast {
    let to_d = forecast_to_defender(canon, ac, att_attack, att_hp, att_hp_max, dfn, dc, bonus, def_warded);
    let to_a = forecast_to_attacker(ac, att_defense, dfn, dc);
    Forecast {
        to_defender: to_d as i16,
        to_attacker: to_a as i16,
        banishes_defender: dfn.hp - to_d <= 0,
        banishes_attacker: att_hp - to_a <= 0,
        attacker_echo_live: attacker_at_echo(att_hp, att_hp_max),
        defender_echo_live: dfn.spec_echo_eligible(),
    }
}

/// The pure exchange forecast — the single source of the numbers every client shows before
/// a commitment. `def_warded` is the defender's effective Warded (intrinsic or granted).
pub fn forecast_exchange(
    canon: &Canon,
    ac: &CardDef,
    att_attack: i16,
    att_defense: i16,
    att_hp: i16,
    att_hp_max: i16,
    dfn: &Spirit,
    dc: &CardDef,
    bonus: i16,
    def_warded: bool,
) -> (f: Forecast)
    requires
        forecast_in_range(*canon, *ac, att_attack, att_defense, att_hp, att_hp_max, *dfn, *dc, bonus, def_warded),
    ensures
        f == spec_forecast(*canon, *ac, att_attack, att_defense, att_hp, att_hp_max, *dfn, *dc, bonus, def_warded),
{
    let a_edge: i16 = if ac.resonance.edge_over(dc.resonance) { crate::rules::EDGE } else { 0 };
    let d_edge: i16 = if dc.resonance.edge_over(ac.resonance) { crate::rules::EDGE } else { 0 };
    let raw = att_attack + a_edge + bonus - crate::projection::eff_defense(dfn.defense, ac.arcane, def_warded);
    let raw = if raw >= 0 { raw } else { 0 };
    let at_echo = att_hp * 2 <= att_hp_max;
    let to_defender = if at_echo && crate::auras::name_carries_static_exception(canon, dc.name.as_str(), crate::effects::RuleException::UnbanishableByEcho) {
        let cap = if dfn.hp - 1 >= 0 { dfn.hp - 1 } else { 0 };
        if raw <= cap { raw } else { cap }
    } else {
        raw
    };
    let back = dfn.attack + d_edge - crate::projection::eff_defense(att_defense, dc.arcane, ac.warded);
    let to_attacker = if back >= 0 { back } else { 0 };
    Forecast {
        to_defender,
        to_attacker,
        banishes_defender: dfn.hp - to_defender <= 0,
        banishes_attacker: att_hp - to_attacker <= 0,
        attacker_echo_live: at_echo,
        defender_echo_live: dfn.echo_eligible(),
    }
}

} // verus!
