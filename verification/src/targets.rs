//! Selector resolution: the concrete tiles an effect's `Selector` hits — for ordinary
//! effects (standing spirits only), for Release and Banish (any owner, the dying or any
//! state), and for restores (allies, the dying included).
use vstd::prelude::*;

use crate::auras::{card_carries_static_exception, lemma_wf_small, spec_card_static_has, ClauseTest};
use crate::cards::{card, catalog_has, spec_card};
use crate::conditions::{manhattan, spec_manhattan};
use crate::effects::{spec_specs_for, specs_for, Canon, Clause, Effect, EffectSpec, RuleException, Selector, Trigger};
use crate::exchange::first_bond_from;
use crate::projection::cards_known;
use crate::state::{GameState, Spirit};
use crate::types::{adjacent4_w, spec_adjacent_w, CardDef, CardId, Seat};

verus! {

/// Which spirits a rule admits by their state.
#[derive(Debug, Clone, Copy)]
pub enum Scope {
    /// Standing (non-fading) spirits.
    Standing,
    /// Fading spirits only.
    FadingOnly,
    /// Any spirit.
    AnyState,
}

/// Which side a rule admits, relative to the acting owner.
#[derive(Debug, Clone, Copy)]
pub enum Side {
    Allies,
    Enemies,
    Either,
}

/// A board filter: spirits of a scope and side, optionally one step from `near` and not on
/// `exclude`.
#[derive(Debug, Clone, Copy)]
pub struct TileRule {
    pub scope: Scope,
    pub side: Side,
    pub near: Option<u8>,
    pub exclude: Option<u8>,
}

/// Tile `i` holds a spirit the rule admits for `owner`.
pub open spec fn rule_holds(sim: GameState, r: TileRule, owner: Seat, i: int) -> bool {
    sim.board@[i].spirit matches Some(sp) && (match r.scope {
        Scope::Standing => !sp.fading,
        Scope::FadingOnly => sp.fading,
        Scope::AnyState => true,
    }) && (match r.side {
        Side::Allies => sp.owner == owner,
        Side::Enemies => sp.owner != owner,
        Side::Either => true,
    }) && (r.near matches Some(s) ==> spec_manhattan(s, i as u8) == 1)
      && (r.exclude matches Some(x) ==> i != x as int)
}

/// The tiles among the first `n` the rule admits, in board order.
pub open spec fn tiles_where(sim: GameState, r: TileRule, owner: Seat, n: int) -> Seq<u8>
    decreases n,
{
    if n <= 0 {
        Seq::empty()
    } else {
        let prev = tiles_where(sim, r, owner, n - 1);
        if rule_holds(sim, r, owner, n - 1) { prev.push((n - 1) as u8) } else { prev }
    }
}

/// Every tile the rule admits, in board order.
pub open spec fn all_where(sim: GameState, r: TileRule, owner: Seat) -> Seq<u8> {
    tiles_where(sim, r, owner, sim.board@.len() as int)
}

/// At most the first element.
pub open spec fn first_only(s: Seq<u8>) -> Seq<u8> {
    if s.len() == 0 { s } else { seq![s[0]] }
}

/// A present tile as a one-element list.
pub open spec fn opt_list(o: Option<u8>) -> Seq<u8> {
    match o {
        Some(t) => seq![t],
        None => Seq::empty(),
    }
}

pub open spec fn rule(scope: Scope, side: Side, near: Option<u8>, exclude: Option<u8>) -> TileRule {
    TileRule { scope, side, near, exclude }
}

fn collect_where(sim: &GameState, r: TileRule, owner: Seat) -> (v: Vec<u8>)
    requires
        sim.board@.len() <= 256,
    ensures
        v@ == all_where(*sim, r, owner),
{
    let mut out: Vec<u8> = Vec::new();
    let n = sim.board.len();
    for i in 0..n
        invariant
            n == sim.board@.len() <= 256,
            out@ == tiles_where(*sim, r, owner, i as int),
    {
        let hit = match &sim.board[i].spirit {
            Some(sp) => {
                let scope_ok = match r.scope {
                    Scope::Standing => !sp.fading,
                    Scope::FadingOnly => sp.fading,
                    Scope::AnyState => true,
                };
                let side_ok = match r.side {
                    Side::Allies => sp.owner == owner,
                    Side::Enemies => sp.owner != owner,
                    Side::Either => true,
                };
                let near_ok = match r.near {
                    Some(s) => manhattan(s, i as u8) == 1,
                    None => true,
                };
                let excl_ok = match r.exclude {
                    Some(x) => i != x as usize,
                    None => true,
                };
                scope_ok && side_ok && near_ok && excl_ok
            },
            None => false,
        };
        assert(hit == rule_holds(*sim, r, owner, i as int));
        if hit {
            out.push(i as u8);
        }
    }
    out
}

fn keep_first(v: Vec<u8>) -> (r: Vec<u8>)
    ensures
        r@ == first_only(v@),
{
    if v.len() == 0 {
        v
    } else {
        let mut out: Vec<u8> = Vec::new();
        out.push(v[0]);
        out
    }
}

/// The tiles an ordinary effect aimed by `sel` hits: the source itself, the engager, the
/// engaged enemy (the first adjacent enemy absent an engager), the first adjacent enemy for
/// an owner's choice, or the standing allies, enemies, others, adjacent enemies or adjacent
/// allies of the source. Other selectors hit nothing here.
pub open spec fn spec_effect_targets(sim: GameState, sel: Selector, source: Option<u8>, owner: Seat, engager: Option<u8>) -> Seq<u8> {
    match sel {
        Selector::SelfSpirit => opt_list(source),
        Selector::Engager => opt_list(engager),
        Selector::EngagedEnemy => match engager {
            Some(en) => seq![en],
            None => match source {
                Some(src) => first_only(all_where(sim, rule(Scope::Standing, Side::Enemies, Some(src), None), owner)),
                None => Seq::empty(),
            },
        },
        Selector::AdjacentEnemyChoose => match source {
            Some(src) => first_only(all_where(sim, rule(Scope::Standing, Side::Enemies, Some(src), None), owner)),
            None => Seq::empty(),
        },
        Selector::AlliesAll => all_where(sim, rule(Scope::Standing, Side::Allies, None, None), owner),
        Selector::EnemiesAll => all_where(sim, rule(Scope::Standing, Side::Enemies, None, None), owner),
        Selector::AllOtherSpirits => all_where(sim, rule(Scope::Standing, Side::Either, None, source), owner),
        Selector::AdjacentEnemiesAll => match source {
            Some(src) => all_where(sim, rule(Scope::Standing, Side::Enemies, Some(src), None), owner),
            None => Seq::empty(),
        },
        Selector::AdjacentAlliesAll => match source {
            Some(src) => all_where(sim, rule(Scope::Standing, Side::Allies, Some(src), Some(src)), owner),
            None => Seq::empty(),
        },
        _ => Seq::empty(),
    }
}

fn one(t: u8) -> (r: Vec<u8>)
    ensures
        r@ == seq![t],
{
    let mut v: Vec<u8> = Vec::new();
    v.push(t);
    v
}

fn from_opt(o: Option<u8>) -> (r: Vec<u8>)
    ensures
        r@ == opt_list(o),
{
    match o {
        Some(t) => one(t),
        None => Vec::new(),
    }
}

/// Resolve an effect's `Selector` to the concrete tiles it hits — the single place selector
/// semantics live, so every effect targets consistently.
pub fn effect_targets(sim: &GameState, sel: &Selector, source: Option<u8>, owner: Seat, engager: Option<u8>) -> (r: Vec<u8>)
    requires
        sim.board@.len() <= 256,
    ensures
        r@ == spec_effect_targets(*sim, *sel, source, owner, engager),
{
    match sel {
        Selector::SelfSpirit => from_opt(source),
        Selector::Engager => from_opt(engager),
        Selector::EngagedEnemy => match engager {
            Some(en) => one(en),
            None => match source {
                Some(src) => keep_first(collect_where(sim, TileRule { scope: Scope::Standing, side: Side::Enemies, near: Some(src), exclude: None }, owner)),
                None => Vec::new(),
            },
        },
        Selector::AdjacentEnemyChoose => match source {
            Some(src) => keep_first(collect_where(sim, TileRule { scope: Scope::Standing, side: Side::Enemies, near: Some(src), exclude: None }, owner)),
            None => Vec::new(),
        },
        Selector::AlliesAll => collect_where(sim, TileRule { scope: Scope::Standing, side: Side::Allies, near: None, exclude: None }, owner),
        Selector::EnemiesAll => collect_where(sim, TileRule { scope: Scope::Standing, side: Side::Enemies, near: None, exclude: None }, owner),
        Selector::AllOtherSpirits => collect_where(sim, TileRule { scope: Scope::Standing, side: Side::Either, near: None, exclude: source }, owner),
        Selector::AdjacentEnemiesAll => match source {
            Some(src) => collect_where(sim, TileRule { scope: Scope::Standing, side: Side::Enemies, near: Some(src), exclude: None }, owner),
            None => Vec::new(),
        },
        Selector::AdjacentAlliesAll => match source {
            Some(src) => collect_where(sim, TileRule { scope: Scope::Standing, side: Side::Allies, near: Some(src), exclude: Some(src) }, owner),
            None => Vec::new(),
        },
        _ => Vec::new(),
    }
}

/// The removal scope shared by Release (the dying only) and Banish (any state): any owner's
/// spirits adjacent to the source (never the source itself), the first of them for an
/// owner's choice, or the allies, enemies, or every other spirit on the board.
pub open spec fn spec_targets_in_scope(sim: GameState, sel: Selector, source: Option<u8>, owner: Seat, fading_only: bool) -> Seq<u8> {
    let scope = if fading_only { Scope::FadingOnly } else { Scope::AnyState };
    let adj = |side: Side| match source {
        Some(src) => all_where(sim, rule(scope, side, Some(src), Some(src)), owner),
        None => Seq::<u8>::empty(),
    };
    match sel {
        Selector::AdjacentAlliesAll => adj(Side::Allies),
        Selector::AdjacentAllyChoose => first_only(adj(Side::Allies)),
        Selector::AdjacentEnemiesAll => adj(Side::Enemies),
        Selector::AdjacentEnemyChoose => first_only(adj(Side::Enemies)),
        Selector::AlliesAll => all_where(sim, rule(scope, Side::Allies, None, None), owner),
        Selector::EnemiesAll => all_where(sim, rule(scope, Side::Enemies, None, None), owner),
        Selector::AllOtherSpirits => all_where(sim, rule(scope, Side::Either, None, source), owner),
        _ => Seq::empty(),
    }
}

fn targets_in_scope(sim: &GameState, sel: &Selector, source: Option<u8>, owner: Seat, fading_only: bool) -> (r: Vec<u8>)
    requires
        sim.board@.len() <= 256,
    ensures
        r@ == spec_targets_in_scope(*sim, *sel, source, owner, fading_only),
{
    let scope = if fading_only { Scope::FadingOnly } else { Scope::AnyState };
    match sel {
        Selector::AdjacentAlliesAll | Selector::AdjacentAllyChoose | Selector::AdjacentEnemiesAll | Selector::AdjacentEnemyChoose => {
            let src = match source {
                Some(s) => s,
                None => return Vec::new(),
            };
            let side = match sel {
                Selector::AdjacentAlliesAll | Selector::AdjacentAllyChoose => Side::Allies,
                _ => Side::Enemies,
            };
            let all = collect_where(sim, TileRule { scope, side, near: Some(src), exclude: Some(src) }, owner);
            match sel {
                Selector::AdjacentAllyChoose | Selector::AdjacentEnemyChoose => keep_first(all),
                _ => all,
            }
        },
        Selector::AlliesAll => collect_where(sim, TileRule { scope, side: Side::Allies, near: None, exclude: None }, owner),
        Selector::EnemiesAll => collect_where(sim, TileRule { scope, side: Side::Enemies, near: None, exclude: None }, owner),
        Selector::AllOtherSpirits => collect_where(sim, TileRule { scope, side: Side::Either, near: None, exclude: source }, owner),
        _ => Vec::new(),
    }
}

/// Targets for Release (the Solace's mercy): the dying only, of either side, in the
/// selector's scope.
pub fn release_targets(sim: &GameState, sel: &Selector, source: Option<u8>, owner: Seat) -> (r: Vec<u8>)
    requires
        sim.board@.len() <= 256,
    ensures
        r@ == spec_targets_in_scope(*sim, *sel, source, owner, true),
{
    targets_in_scope(sim, sel, source, owner, true)
}

/// Targets for Banish (the erasure): any owner, any state, in the selector's scope.
pub fn banish_targets(sim: &GameState, sel: &Selector, source: Option<u8>, owner: Seat) -> (r: Vec<u8>)
    requires
        sim.board@.len() <= 256,
    ensures
        r@ == spec_targets_in_scope(*sim, *sel, source, owner, false),
{
    targets_in_scope(sim, sel, source, owner, false)
}

/// Targets for a restore: allies of every state (a heal must reach the dying) — all of
/// them, or those adjacent to the source; the source itself; the other end of the source's
/// first Bond when a spirit stands there; every other selector as an ordinary effect.
pub open spec fn spec_restore_targets(sim: GameState, sel: Selector, source: Option<u8>, owner: Seat, engager: Option<u8>) -> Seq<u8> {
    match sel {
        Selector::AlliesAll => all_where(sim, rule(Scope::AnyState, Side::Allies, None, None), owner),
        Selector::AdjacentAlliesAll => match source {
            Some(src) => all_where(sim, rule(Scope::AnyState, Side::Allies, Some(src), Some(src)), owner),
            None => Seq::empty(),
        },
        Selector::SelfSpirit => opt_list(source),
        Selector::BondedPartner => match source {
            Some(src) => match first_bond_from(sim.bonds@, src, 0) {
                Some(k) => {
                    let b = sim.bonds@[k];
                    let t = if b.tile_a == src { b.tile_b } else { b.tile_a };
                    if sim.spec_spirit_at(t) is Some { seq![t] } else { Seq::empty() }
                },
                None => Seq::empty(),
            },
            None => Seq::empty(),
        },
        _ => spec_effect_targets(sim, sel, source, owner, engager),
    }
}

/// Resolve a restore's `Selector`: fading-inclusive for allies, so a restore can save a
/// dissolving ally.
#[verifier::loop_isolation(false)]
pub fn restore_targets(sim: &GameState, sel: &Selector, source: Option<u8>, owner: Seat, engager: Option<u8>) -> (r: Vec<u8>)
    requires
        sim.board@.len() <= 256,
    ensures
        r@ == spec_restore_targets(*sim, *sel, source, owner, engager),
{
    match sel {
        Selector::AlliesAll => collect_where(sim, TileRule { scope: Scope::AnyState, side: Side::Allies, near: None, exclude: None }, owner),
        Selector::AdjacentAlliesAll => match source {
            Some(src) => collect_where(sim, TileRule { scope: Scope::AnyState, side: Side::Allies, near: Some(src), exclude: Some(src) }, owner),
            None => Vec::new(),
        },
        Selector::SelfSpirit => from_opt(source),
        Selector::BondedPartner => {
            let src = match source {
                Some(s) => s,
                None => return Vec::new(),
            };
            let n = sim.bonds.len();
            for k in 0..n
                invariant
                    n == sim.bonds@.len(),
                    first_bond_from(sim.bonds@, src, 0) == first_bond_from(sim.bonds@, src, k as int),
            {
                let b = &sim.bonds[k];
                if b.tile_a == src || b.tile_b == src {
                    let t = if b.tile_a == src { b.tile_b } else { b.tile_a };
                    if sim.spirit_at(t).is_some() {
                        return one(t);
                    } else {
                        return Vec::new();
                    }
                }
            }
            Vec::new()
        },
        _ => effect_targets(sim, sel, source, owner, engager),
    }
}

// ---------------------------------------------------------------------------
// Card riders read by the board shifts and the Nightfall score
// ---------------------------------------------------------------------------

/// Some spec of the card carries an `ImpressionEat` clause.
pub open spec fn spec_card_eats_impression(canon: Canon, catalog: Seq<CardDef>, id: CardId) -> bool {
    spec_specs_for(canon, catalog, id) matches Some(specs) && exists|i: int, j: int| 0 <= i < specs.len()
        && 0 <= j < specs[i].clauses@.len() && (#[trigger] specs[i].clauses@[j]).effect is ImpressionEat
}

/// The Devouring Margin: whether this card eats impressions (carries an `ImpressionEat`
/// clause, whatever its trigger).
#[verifier::loop_isolation(false)]
pub fn card_eats_impression(canon: &Canon, catalog: &[CardDef], id: CardId) -> (r: bool)
    ensures
        r == spec_card_eats_impression(*canon, catalog@, id),
{
    let specs = match specs_for(canon, catalog, id) {
        Some(s) => s,
        None => return false,
    };
    let n = specs.len();
    for i in 0..n
        invariant
            n == specs@.len(),
            forall|a: int, b: int| 0 <= a < i && 0 <= b < specs@[a].clauses@.len() ==> !((#[trigger] specs@[a].clauses@[b]).effect is ImpressionEat),
    {
        let s = &specs[i];
        let m = s.clauses.len();
        for j in 0..m
            invariant
                n == specs@.len(),
                0 <= i < n,
                *s == specs@[i as int],
                m == s.clauses@.len(),
                forall|b: int| 0 <= b < j ==> !((#[trigger] specs@[i as int].clauses@[b]).effect is ImpressionEat),
        {
            if matches!(s.clauses[j].effect, Effect::ImpressionEat) {
                assert(specs@[i as int].clauses@[j as int].effect is ImpressionEat);
                return true;
            }
        }
    }
    false
}

/// The first `RestoreForm` amount among clauses `j..`.
pub open spec fn first_heal_clauses(cls: Seq<Clause>, j: int) -> Option<i16>
    decreases cls.len() - j,
{
    if j < 0 || j >= cls.len() {
        None
    } else {
        match cls[j].effect {
            Effect::RestoreForm { amount } => Some(amount),
            _ => first_heal_clauses(cls, j + 1),
        }
    }
}

/// The first `RestoreForm` amount among the `OnMove` specs `i..`.
pub open spec fn first_heal_specs(specs: Seq<EffectSpec>, i: int) -> Option<i16>
    decreases specs.len() - i,
{
    if i < 0 || i >= specs.len() {
        None
    } else if specs[i].trigger is OnMove && first_heal_clauses(specs[i].clauses@, 0) is Some {
        first_heal_clauses(specs[i].clauses@, 0)
    } else {
        first_heal_specs(specs, i + 1)
    }
}

/// How much the card heals when it eats on the inward shift: the first `RestoreForm` on its
/// `OnMove` specs, 0 if none.
pub open spec fn spec_card_move_heal(canon: Canon, catalog: Seq<CardDef>, id: CardId) -> i16 {
    match spec_specs_for(canon, catalog, id) {
        Some(specs) => match first_heal_specs(specs, 0) {
            Some(a) => a,
            None => 0,
        },
        None => 0,
    }
}

fn heal_in_clauses(cls: &Vec<Clause>) -> (r: Option<i16>)
    ensures
        r == first_heal_clauses(cls@, 0),
{
    let m = cls.len();
    for j in 0..m
        invariant
            m == cls@.len(),
            first_heal_clauses(cls@, 0) == first_heal_clauses(cls@, j as int),
    {
        match &cls[j].effect {
            Effect::RestoreForm { amount } => return Some(*amount),
            _ => {},
        }
    }
    None
}

/// The Devouring Margin: how much it heals when it eats on the inward shift — the
/// `RestoreForm` rider on its `OnMove` spec; 0 if none.
#[verifier::loop_isolation(false)]
pub fn card_move_heal(canon: &Canon, catalog: &[CardDef], id: CardId) -> (r: i16)
    ensures
        r == spec_card_move_heal(*canon, catalog@, id),
{
    let specs = match specs_for(canon, catalog, id) {
        Some(s) => s,
        None => return 0,
    };
    let n = specs.len();
    for i in 0..n
        invariant
            n == specs@.len(),
            first_heal_specs(specs@, 0) == first_heal_specs(specs@, i as int),
    {
        let s = &specs[i];
        if matches!(s.trigger, Trigger::OnMove) {
            match heal_in_clauses(&s.clauses) {
                Some(a) => return a,
                None => {},
            }
        }
    }
    0
}

/// The round a fading spirit's window closes: the next round for a spirit of the active
/// seat or of seat A, this round otherwise (seat B's turn closes the round).
pub open spec fn spec_fade_deadline_round(round: u8, active: Seat, owner: Seat) -> int {
    if owner == active || owner == Seat::A { round + 1 } else { round as int }
}

/// The last round a spirit banished now lingers standing-Faded.
pub fn fade_deadline_round(round: u8, active: Seat, owner: Seat) -> (r: u8)
    requires
        round < 255,
    ensures
        r == spec_fade_deadline_round(round, active, owner),
{
    if owner == active || owner == Seat::A { round + 1 } else { round }
}

/// Tile `i` holds a standing spirit whose card cools the impressions beside it.
pub open spec fn cools_at(sim: GameState, canon: Canon, catalog: Seq<CardDef>, i: int) -> bool {
    sim.board@[i].spirit matches Some(sp) && !sp.fading
        && spec_card_static_has(canon, catalog, sp.card, ClauseTest::AnyException(RuleException::AdjacentImpressionsDontScore))
}

fn append_all(out: &mut Vec<u8>, more: &Vec<u8>)
    ensures
        final(out)@ == old(out)@ + more@,
{
    let ghost start = out@;
    let m = more.len();
    for k in 0..m
        invariant
            m == more@.len(),
            out@ == start + more@.subrange(0, k as int),
    {
        out.push(more[k]);
        assert(out@ =~= start + more@.subrange(0, k + 1));
    }
    assert(more@.subrange(0, m as int) =~= more@);
}

proof fn lemma_concat_contains(a: Seq<u8>, b: Seq<u8>, t: u8)
    ensures
        (a + b).contains(t) <==> (a.contains(t) || b.contains(t)),
{
    if (a + b).contains(t) {
        let q = choose|q: int| 0 <= q < (a + b).len() && (a + b)[q] == t;
        if q < a.len() {
            assert(a[q] == t);
        } else {
            assert(b[q - a.len()] == t);
        }
    }
    if a.contains(t) {
        let q = choose|q: int| 0 <= q < a.len() && a[q] == t;
        assert((a + b)[q] == t);
    }
    if b.contains(t) {
        let q = choose|q: int| 0 <= q < b.len() && b[q] == t;
        assert((a + b)[a.len() + q] == t);
    }
}

/// Erasure's Patience: the tiles whose impressions do not score at Nightfall — those one
/// step from a standing spirit carrying `AdjacentImpressionsDontScore`, whoever's mark
/// sits there. Listed in board order of the cooling spirits.
pub fn erasure_patience_cooled_tiles(sim: &GameState, canon: &Canon, catalog: &[CardDef]) -> (r: Vec<u8>)
    requires
        sim.wf(),
    ensures
        forall|t: u8| r@.contains(t) <==> exists|i: int| 0 <= i < sim.board@.len() && #[trigger] cools_at(*sim, *canon, catalog@, i)
            && spec_adjacent_w(i as u8, t, sim.board_w),
{
    proof {
        lemma_wf_small(*sim);
    }
    let mut cooled: Vec<u8> = Vec::new();
    let n = sim.board.len();
    for i in 0..n
        invariant
            n == sim.board@.len() <= 64,
            sim.wf(),
            forall|t: u8| cooled@.contains(t) <==> exists|j: int| 0 <= j < i && #[trigger] cools_at(*sim, *canon, catalog@, j)
                && spec_adjacent_w(j as u8, t, sim.board_w),
    {
        let cools = match &sim.board[i].spirit {
            Some(sp) => !sp.fading && card_carries_static_exception(canon, catalog, sp.card, RuleException::AdjacentImpressionsDontScore),
            None => false,
        };
        assert(cools == cools_at(*sim, *canon, catalog@, i as int));
        let ghost before = cooled@;
        if cools {
            let adj = adjacent4_w(i as u8, sim.board_w);
            append_all(&mut cooled, &adj);
            assert forall|t: u8| cooled@.contains(t) <==> exists|j: int| 0 <= j < i + 1 && #[trigger] cools_at(*sim, *canon, catalog@, j)
                && spec_adjacent_w(j as u8, t, sim.board_w) by {
                lemma_concat_contains(before, adj@, t);
                if spec_adjacent_w(i as u8, t, sim.board_w) {
                    assert(adj@.contains(t));
                }
                if adj@.contains(t) {
                    assert(spec_adjacent_w(i as u8, t, sim.board_w));
                    assert(cools_at(*sim, *canon, catalog@, i as int));
                }
            }
        } else {
            assert forall|t: u8| cooled@.contains(t) <==> exists|j: int| 0 <= j < i + 1 && #[trigger] cools_at(*sim, *canon, catalog@, j)
                && spec_adjacent_w(j as u8, t, sim.board_w) by {
                assert(!cools_at(*sim, *canon, catalog@, i as int));
            }
        }
    }
    cooled
}

/// Lacuna: a standing spirit of the card keyed `lacuna` stands one step from `tile` — a
/// spirit dissolving there leaves no impression.
pub open spec fn spec_lacuna_denies_impression(sim: GameState, catalog: Seq<CardDef>, tile: u8) -> bool {
    exists|a: int| 0 <= a < sim.board@.len() && spec_adjacent_w(tile, a as u8, sim.board_w)
        && #[trigger] lacuna_at(sim, catalog, a)
}

/// Tile `a` holds a standing spirit of the card keyed `lacuna`.
pub open spec fn lacuna_at(sim: GameState, catalog: Seq<CardDef>, a: int) -> bool {
    sim.board@[a].spirit matches Some(sp) && !sp.fading && spec_card(catalog, sp.card).key@ == "lacuna"@
}

/// Whether a Lacuna stands beside `tile`.
pub fn lacuna_denies_impression(sim: &GameState, catalog: &[CardDef], tile: u8) -> (r: bool)
    requires
        sim.wf(),
        cards_known(*sim, catalog@),
        (tile as int) < sim.board@.len(),
    ensures
        r == spec_lacuna_denies_impression(*sim, catalog@, tile),
{
    proof {
        lemma_wf_small(*sim);
    }
    let adj = adjacent4_w(tile, sim.board_w);
    let lacuna = crate::text::text_of("lacuna");
    let m = adj.len();
    for k in 0..m
        invariant
            m == adj@.len(),
            sim.wf(),
            cards_known(*sim, catalog@),
            lacuna@ == "lacuna"@,
            forall|t: u8| adj@.contains(t) <==> spec_adjacent_w(tile, t, sim.board_w),
            forall|i: int| 0 <= i < adj@.len() ==> (#[trigger] adj@[i] as int) < sim.board_w * sim.board_w,
            forall|j: int| 0 <= j < k ==> !#[trigger] lacuna_at(*sim, catalog@, adj@[j] as int),
    {
        let a = adj[k];
        assert(adj@.contains(a));
        match &sim.board[a as usize].spirit {
            Some(sp) => {
                if !sp.fading {
                    proof {
                        assert(catalog_has(catalog@, sp.card));
                    }
                    if card(catalog, sp.card).key == lacuna {
                        assert(lacuna_at(*sim, catalog@, a as int));
                        return true;
                    }
                }
            },
            None => {},
        }
    }
    assert forall|a: int| 0 <= a < sim.board@.len() && spec_adjacent_w(tile, a as u8, sim.board_w) implies !#[trigger] lacuna_at(*sim, catalog@, a) by {
        assert(adj@.contains(a as u8));
        let j = choose|j: int| 0 <= j < adj@.len() && adj@[j] == a as u8;
        assert(!lacuna_at(*sim, catalog@, adj@[j] as int));
    }
    false
}

/// A wild Stray is down to under half its Form (and has a Form at all).
pub open spec fn spec_stray_is_echo_wounded(stray: crate::state::Stray) -> bool {
    stray.hp_max > 0 && stray.hp * 2 < stray.hp_max
}

/// Whether the Stray is Echo-wounded.
pub fn stray_is_echo_wounded(stray: &crate::state::Stray, _card: &CardDef) -> (r: bool)
    ensures
        r == spec_stray_is_echo_wounded(*stray),
{
    stray.hp_max > 0 && (stray.hp as i32) * 2 < stray.hp_max as i32
}

} // verus!
