//! The active seat's Flow: its face-up terrain, Bonds and standing spirits tithe Anima,
//! heal, grow, erode an enemy mark and draw, each by its `AtFlow` (or `OnAttuned`) clauses.
use vstd::prelude::*;

use crate::auras::lemma_wf_small;
use crate::cards::{card, catalog_has, spec_card};
use crate::conditions::{manhattan, shared_adjacent_resonance, spec_manhattan, spec_shared_adjacent_resonance};
use crate::effects::{spec_specs_for, specs_for, Canon, Clause, Condition, Effect, EffectSpec, Selector, Trigger};
use crate::events::{seat_get, Event};
use crate::flow::{applicable, applies, push_all};
use crate::projection::cards_known;
use crate::state::{GameState, Spirit};
use crate::types::{adjacent4_w, spec_adjacent4_w, CardDef, CardId, Faction, Seat};

verus! {

// ---------------------------------------------------------------------------
// What a clause does at the Flow
// ---------------------------------------------------------------------------

/// The shape of one `AtFlow` clause, as far as the Flow reads it.
#[derive(Debug, Clone, Copy)]
pub enum FlowEffect {
    /// Owner / AnimaDelta: a tithe of Anima.
    OwnerAnima(i8),
    /// OccupantHere / RestoreForm: a terrain heals the spirit standing on it.
    OccupantHeal(i16),
    /// BondedPair / RestoreForm: a Bond heals both partners.
    PairHeal(i16),
    /// AdjacentAlliesAll / RestoreForm: a spirit heals its neighbouring allies.
    NeighbourHeal(i16),
    /// SelfSpirit / RestoreForm: a spirit heals itself.
    SelfHeal(i16),
    /// SelfSpirit / GrowEachFlow: a spirit grows by `step`, up to `max` above its print.
    Grow(i16, i16),
    /// Owner / ImpressionRemoveTarget: one adjacent enemy mark fades.
    Page,
    /// A Glimpse opened at the Flow.
    Peek,
    Other,
}

pub open spec fn flow_effect(c: Clause) -> FlowEffect {
    match c.effect {
        Effect::AnimaDelta { amount } => if c.selector == Selector::Owner { FlowEffect::OwnerAnima(amount) } else { FlowEffect::Other },
        Effect::RestoreForm { amount } => match c.selector {
            Selector::OccupantHere => FlowEffect::OccupantHeal(amount),
            Selector::BondedPair => FlowEffect::PairHeal(amount),
            Selector::AdjacentAlliesAll => FlowEffect::NeighbourHeal(amount),
            Selector::SelfSpirit => FlowEffect::SelfHeal(amount),
            _ => FlowEffect::Other,
        },
        Effect::GrowEachFlow { step, max } => if c.selector == Selector::SelfSpirit { FlowEffect::Grow(step, max) } else { FlowEffect::Other },
        Effect::ImpressionRemoveTarget => if c.selector == Selector::Owner { FlowEffect::Page } else { FlowEffect::Other },
        Effect::PeekDeck { .. } => FlowEffect::Peek,
        _ => FlowEffect::Other,
    }
}

fn flow_effect_of(c: &Clause) -> (r: FlowEffect)
    ensures
        r == flow_effect(*c),
{
    match &c.effect {
        Effect::AnimaDelta { amount } => match c.selector {
            Selector::Owner => FlowEffect::OwnerAnima(*amount),
            _ => FlowEffect::Other,
        },
        Effect::RestoreForm { amount } => match c.selector {
            Selector::OccupantHere => FlowEffect::OccupantHeal(*amount),
            Selector::BondedPair => FlowEffect::PairHeal(*amount),
            Selector::AdjacentAlliesAll => FlowEffect::NeighbourHeal(*amount),
            Selector::SelfSpirit => FlowEffect::SelfHeal(*amount),
            _ => FlowEffect::Other,
        },
        Effect::GrowEachFlow { step, max } => match c.selector {
            Selector::SelfSpirit => FlowEffect::Grow(*step, *max),
            _ => FlowEffect::Other,
        },
        Effect::ImpressionRemoveTarget => match c.selector {
            Selector::Owner => FlowEffect::Page,
            _ => FlowEffect::Other,
        },
        Effect::PeekDeck { .. } => FlowEffect::Peek,
        _ => FlowEffect::Other,
    }
}

/// The clauses of the first `n` specs under trigger `t`, in order.
pub open spec fn clauses_under(specs: Seq<EffectSpec>, t: Trigger, n: int) -> Seq<Clause>
    decreases n,
{
    if n <= 0 {
        Seq::empty()
    } else {
        clauses_under(specs, t, n - 1) + if specs[n - 1].trigger == t { specs[n - 1].clauses@ } else { Seq::empty() }
    }
}

/// What a card's `AtFlow` clauses do, clause by clause.
pub open spec fn flow_effects(canon: Canon, catalog: Seq<CardDef>, id: CardId) -> Seq<FlowEffect> {
    match spec_specs_for(canon, catalog, id) {
        Some(specs) => clauses_under(specs, Trigger::AtFlow, specs.len() as int).map_values(|c: Clause| flow_effect(c)),
        None => Seq::empty(),
    }
}

fn card_flow_effects(canon: &Canon, catalog: &[CardDef], id: CardId) -> (r: Vec<FlowEffect>)
    ensures
        r@ == flow_effects(*canon, catalog@, id),
{
    let mut out: Vec<FlowEffect> = Vec::new();
    match specs_for(canon, catalog, id) {
        None => out,
        Some(specs) => {
            let n = specs.len();
            for k in 0..n
                invariant
                    n == specs@.len(),
                    out@ == clauses_under(specs@, Trigger::AtFlow, k as int).map_values(|c: Clause| flow_effect(c)),
            {
                let s = &specs[k];
                let ghost before = out@;
                if s.trigger == Trigger::AtFlow {
                    let m = s.clauses.len();
                    for j in 0..m
                        invariant
                            m == s.clauses@.len(),
                            out@ == before + s.clauses@.subrange(0, j as int).map_values(|c: Clause| flow_effect(c)),
                    {
                        let e = flow_effect_of(&s.clauses[j]);
                        out.push(e);
                        assert(s.clauses@.subrange(0, j + 1).map_values(|c: Clause| flow_effect(c))
                            =~= s.clauses@.subrange(0, j as int).map_values(|c: Clause| flow_effect(c)).push(e));
                    }
                    assert(s.clauses@.subrange(0, m as int) == s.clauses@);
                }
                assert(clauses_under(specs@, Trigger::AtFlow, k + 1).map_values(|c: Clause| flow_effect(c))
                    =~= clauses_under(specs@, Trigger::AtFlow, k as int).map_values(|c: Clause| flow_effect(c))
                        + (if specs@[k as int].trigger == Trigger::AtFlow { specs@[k as int].clauses@ } else { Seq::empty() })
                            .map_values(|c: Clause| flow_effect(c)));
            }
            out
        },
    }
}

// ---------------------------------------------------------------------------
// Attunement
// ---------------------------------------------------------------------------

/// The Owner / Draw counts among `cls`, summed.
pub open spec fn draw_count(cls: Seq<Clause>, n: int) -> int
    decreases n,
{
    if n <= 0 {
        0
    } else {
        draw_count(cls, n - 1) + match cls[n - 1].effect {
            Effect::Draw { count } => if cls[n - 1].selector == Selector::Owner { count as int } else { 0 },
            _ => 0,
        }
    }
}

/// The spirit `sp` on `tile` is attuned: one of its card's specs conditions on adjacent
/// allies sharing a Resonance, and enough such allies stand beside it.
pub open spec fn attuned(sim: GameState, canon: Canon, catalog: Seq<CardDef>, tile: u8, sp: Spirit) -> bool {
    spec_specs_for(canon, catalog, sp.card) matches Some(specs) && exists|k: int| 0 <= k < specs.len() && {
        let c = #[trigger] specs[k].condition;
        c matches Condition::AdjacentAlliesShareResonance { n } && spec_shared_adjacent_resonance(sim, catalog, tile, sp, n) is Some
    }
}

/// The cards an attuned spirit draws at its owner's Flow: its `OnAttuned` Owner / Draw
/// counts.
pub open spec fn attuned_draws(sim: GameState, canon: Canon, catalog: Seq<CardDef>, tile: u8, sp: Spirit) -> int {
    match spec_specs_for(canon, catalog, sp.card) {
        Some(specs) => if attuned(sim, canon, catalog, tile, sp) {
            let cls = clauses_under(specs, Trigger::OnAttuned, specs.len() as int);
            draw_count(cls, cls.len() as int)
        } else {
            0
        },
        None => 0,
    }
}

proof fn lemma_clauses_under_step(specs: Seq<EffectSpec>, t: Trigger, k: int)
    requires
        0 <= k < specs.len(),
    ensures
        clauses_under(specs, t, k + 1) == clauses_under(specs, t, k) + if specs[k].trigger == t { specs[k].clauses@ } else { Seq::empty() },
{
}

proof fn lemma_draw_count_concat(a: Seq<Clause>, b: Seq<Clause>, n: int)
    requires
        0 <= n <= b.len(),
    ensures
        draw_count(a + b, a.len() + n) == draw_count(a, a.len() as int) + draw_count(b, n),
    decreases n,
{
    if n == 0 {
        lemma_draw_count_prefix(a, b, a.len() as int);
    } else {
        lemma_draw_count_concat(a, b, n - 1);
        assert((a + b)[a.len() + n - 1] == b[n - 1]);
    }
}

proof fn lemma_draw_count_prefix(a: Seq<Clause>, b: Seq<Clause>, n: int)
    requires
        0 <= n <= a.len(),
    ensures
        draw_count(a + b, n) == draw_count(a, n),
    decreases n,
{
    if n > 0 {
        lemma_draw_count_prefix(a, b, n - 1);
        assert((a + b)[n - 1] == a[n - 1]);
    }
}

proof fn lemma_draw_count_mono(cls: Seq<Clause>, i: int, n: int)
    requires
        0 <= i <= n <= cls.len(),
    ensures
        draw_count(cls, i) <= draw_count(cls, n),
    decreases n - i,
{
    if i < n {
        lemma_draw_count_mono(cls, i, n - 1);
    }
}

proof fn lemma_under_mono(specs: Seq<EffectSpec>, k: int, n: int)
    requires
        0 <= k <= n <= specs.len(),
    ensures
        draw_count(clauses_under(specs, Trigger::OnAttuned, k), clauses_under(specs, Trigger::OnAttuned, k).len() as int)
            <= draw_count(clauses_under(specs, Trigger::OnAttuned, n), clauses_under(specs, Trigger::OnAttuned, n).len() as int),
    decreases n - k,
{
    if k < n {
        lemma_under_mono(specs, k, n - 1);
        let pre = clauses_under(specs, Trigger::OnAttuned, n - 1);
        let add = if specs[n - 1].trigger == Trigger::OnAttuned { specs[n - 1].clauses@ } else { Seq::<Clause>::empty() };
        lemma_clauses_under_step(specs, Trigger::OnAttuned, n - 1);
        lemma_draw_count_concat(pre, add, add.len() as int);
        lemma_draw_count_mono(add, 0, add.len() as int);
    }
}

/// The `OnAttuned` draws of a card's specs can be counted in a `u64`.
pub open spec fn draws_fit(canon: Canon, catalog: Seq<CardDef>, id: CardId) -> bool {
    spec_specs_for(canon, catalog, id) matches Some(specs) ==> {
        let cls = clauses_under(specs, Trigger::OnAttuned, specs.len() as int);
        draw_count(cls, cls.len() as int) <= u64::MAX
    }
}

fn card_attuned_draws(sim: &GameState, canon: &Canon, catalog: &[CardDef], tile: u8, sp: &Spirit) -> (r: u64)
    requires
        sim.board@.len() <= 256,
        cards_known(*sim, catalog@),
        draws_fit(*canon, catalog@, sp.card),
    ensures
        r as int == attuned_draws(*sim, *canon, catalog@, tile, *sp),
{
    let specs = match specs_for(canon, catalog, sp.card) {
        Some(specs) => specs,
        None => {
            return 0;
        },
    };
    let n = specs.len();
    let mut on = false;
    for k in 0..n
        invariant
            n == specs@.len(),
            sim.board@.len() <= 256,
            cards_known(*sim, catalog@),
            on <==> exists|j: int| 0 <= j < k && {
                let c = #[trigger] specs@[j].condition;
                c matches Condition::AdjacentAlliesShareResonance { n } && spec_shared_adjacent_resonance(*sim, catalog@, tile, *sp, n) is Some
            },
    {
        match specs[k].condition {
            Condition::AdjacentAlliesShareResonance { n } => {
                if shared_adjacent_resonance(sim, catalog, tile, sp, n).is_some() {
                    on = true;
                }
            },
            _ => {},
        }
    }
    if !on {
        return 0;
    }
    let ghost whole = clauses_under(specs@, Trigger::OnAttuned, n as int);
    let mut total: u64 = 0;
    for k in 0..n
        invariant
            n == specs@.len(),
            whole == clauses_under(specs@, Trigger::OnAttuned, n as int),
            draw_count(whole, whole.len() as int) <= u64::MAX,
            total as int == draw_count(clauses_under(specs@, Trigger::OnAttuned, k as int),
                clauses_under(specs@, Trigger::OnAttuned, k as int).len() as int),
    {
        let s = &specs[k];
        let ghost pre = clauses_under(specs@, Trigger::OnAttuned, k as int);
        let ghost add = if s.trigger == Trigger::OnAttuned { s.clauses@ } else { Seq::<Clause>::empty() };
        proof {
            lemma_clauses_under_step(specs@, Trigger::OnAttuned, k as int);
            lemma_draw_count_concat(pre, add, add.len() as int);
            lemma_under_mono(specs@, k + 1, n as int);
        }
        if s.trigger == Trigger::OnAttuned {
            let m = s.clauses.len();
            let ghost base = total as int;
            for j in 0..m
                invariant
                    m == s.clauses@.len(),
                    add == s.clauses@,
                    base == draw_count(pre, pre.len() as int),
                    base + draw_count(add, m as int) <= u64::MAX,
                    total as int == base + draw_count(s.clauses@, j as int),
            {
                proof {
                    lemma_draw_count_mono(s.clauses@, j + 1, m as int);
                }
                let c = &s.clauses[j];
                match c.effect {
                    Effect::Draw { count } => match c.selector {
                        Selector::Owner => {
                            total = total + count as u64;
                        },
                        _ => {},
                    },
                    _ => {},
                }
            }
        } else {
            assert(pre + Seq::<Clause>::empty() == pre);
        }
    }
    total
}

// ---------------------------------------------------------------------------
// Reading the board
// ---------------------------------------------------------------------------

/// Which heal a clause list is read for.
#[derive(Debug, Clone, Copy, PartialEq, Eq, Structural)]
pub enum HealFrom {
    Occupant,
    Pair,
    Neighbour,
    Own,
}

pub open spec fn heal_amount(e: FlowEffect, which: HealFrom) -> Option<i16> {
    match (e, which) {
        (FlowEffect::OccupantHeal(a), HealFrom::Occupant) => Some(a),
        (FlowEffect::PairHeal(a), HealFrom::Pair) => Some(a),
        (FlowEffect::NeighbourHeal(a), HealFrom::Neighbour) => Some(a),
        (FlowEffect::SelfHeal(a), HealFrom::Own) => Some(a),
        _ => None,
    }
}

/// The heal amounts of kind `which` among the first `n` effects, in order.
pub open spec fn amounts(effs: Seq<FlowEffect>, which: HealFrom, n: int) -> Seq<i16>
    decreases n,
{
    if n <= 0 {
        Seq::empty()
    } else {
        amounts(effs, which, n - 1) + match heal_amount(effs[n - 1], which) {
            Some(a) => seq![a],
            None => Seq::empty(),
        }
    }
}

/// The Anima tithed by the first `n` effects.
pub open spec fn anima_of(effs: Seq<FlowEffect>, n: int) -> int
    decreases n,
{
    if n <= 0 {
        0
    } else {
        anima_of(effs, n - 1) + match effs[n - 1] {
            FlowEffect::OwnerAnima(a) => a as int,
            _ => 0,
        }
    }
}

fn heal_amounts(effs: &Vec<FlowEffect>, which: HealFrom) -> (r: Vec<i16>)
    ensures
        r@ == amounts(effs@, which, effs@.len() as int),
{
    let mut out: Vec<i16> = Vec::new();
    let n = effs.len();
    for k in 0..n
        invariant
            n == effs@.len(),
            out@ == amounts(effs@, which, k as int),
    {
        let a = match (effs[k], which) {
            (FlowEffect::OccupantHeal(a), HealFrom::Occupant) => Some(a),
            (FlowEffect::PairHeal(a), HealFrom::Pair) => Some(a),
            (FlowEffect::NeighbourHeal(a), HealFrom::Neighbour) => Some(a),
            (FlowEffect::SelfHeal(a), HealFrom::Own) => Some(a),
            _ => None,
        };
        assert(a == heal_amount(effs@[k as int], which));
        match a {
            Some(x) => {
                out.push(x);
                assert(amounts(effs@, which, k + 1) == amounts(effs@, which, k as int) + seq![x]);
            },
            None => {
                assert(amounts(effs@, which, k + 1) == amounts(effs@, which, k as int) + Seq::<i16>::empty());
            },
        }
    }
    out
}

/// Each amount, as a heal of `tile`.
pub open spec fn on_tile(tile: u8, xs: Seq<i16>) -> Seq<(u8, i16)> {
    xs.map_values(|a: i16| (tile, a))
}

fn heals_on(tile: u8, xs: &Vec<i16>, out: &mut Vec<(u8, i16)>)
    ensures
        final(out)@ == old(out)@ + on_tile(tile, xs@),
{
    let ghost start = out@;
    let n = xs.len();
    for k in 0..n
        invariant
            n == xs@.len(),
            out@ == start + on_tile(tile, xs@.subrange(0, k as int)),
    {
        out.push((tile, xs[k]));
        assert(on_tile(tile, xs@.subrange(0, k + 1)) =~= on_tile(tile, xs@.subrange(0, k as int)).push((tile, xs@[k as int])));
    }
    assert(xs@.subrange(0, n as int) == xs@);
}

/// The tile holds a standing spirit.
pub open spec fn standing(sim: GameState, i: int) -> bool {
    sim.board@[i].spirit matches Some(sp) && !sp.fading
}

/// The tile holds a standing spirit of `seat`.
pub open spec fn ally_standing(sim: GameState, seat: Seat, i: int) -> bool {
    sim.board@[i].spirit matches Some(sp) && !sp.fading && sp.owner == seat
}

/// The tile holds a standing, face-up spirit of `seat`: one whose own clauses act.
pub open spec fn acting(sim: GameState, seat: Seat, i: int) -> bool {
    sim.board@[i].spirit matches Some(sp) && !sp.fading && sp.owner == seat && !sp.face_down
}

/// What the face-up terrain of `seat` on tile `i` does at the Flow.
pub open spec fn terrain_effects(sim: GameState, canon: Canon, catalog: Seq<CardDef>, seat: Seat, i: int) -> Seq<FlowEffect> {
    match sim.board@[i].terrain {
        Some(t) => if !t.face_down && t.owner == seat { flow_effects(canon, catalog, t.card) } else { Seq::empty() },
        None => Seq::empty(),
    }
}

/// What the standing spirit on tile `i` does at the Flow.
pub open spec fn spirit_effects(sim: GameState, canon: Canon, catalog: Seq<CardDef>, i: int) -> Seq<FlowEffect> {
    match sim.board@[i].spirit {
        Some(sp) => flow_effects(canon, catalog, sp.card),
        None => Seq::empty(),
    }
}

/// The Anima the seat's terrain on the first `n` tiles tithes.
pub open spec fn terrain_anima(sim: GameState, canon: Canon, catalog: Seq<CardDef>, seat: Seat, n: int) -> int
    decreases n,
{
    if n <= 0 {
        0
    } else {
        let effs = terrain_effects(sim, canon, catalog, seat, n - 1);
        terrain_anima(sim, canon, catalog, seat, n - 1) + anima_of(effs, effs.len() as int)
    }
}

/// The heals the seat's terrain on the first `n` tiles gives the spirits standing on it.
pub open spec fn terrain_heals(sim: GameState, canon: Canon, catalog: Seq<CardDef>, seat: Seat, n: int) -> Seq<(u8, i16)>
    decreases n,
{
    if n <= 0 {
        Seq::empty()
    } else {
        let effs = terrain_effects(sim, canon, catalog, seat, n - 1);
        terrain_heals(sim, canon, catalog, seat, n - 1) + if standing(sim, n - 1) {
            on_tile((n - 1) as u8, amounts(effs, HealFrom::Occupant, effs.len() as int))
        } else {
            Seq::empty()
        }
    }
}

/// Each amount, as a heal of both partners.
pub open spec fn on_pair(a: u8, b: u8, xs: Seq<i16>, n: int) -> Seq<(u8, i16)>
    decreases n,
{
    if n <= 0 {
        Seq::empty()
    } else {
        on_pair(a, b, xs, n - 1) + seq![(a, xs[n - 1]), (b, xs[n - 1])]
    }
}

/// A Bond of `seat` whose partners stand adjacent.
pub open spec fn bond_tends(sim: GameState, seat: Seat, b: crate::state::Bond) -> bool {
    &&& b.owner == seat
    &&& spec_manhattan(b.tile_a, b.tile_b) == 1
    &&& sim.spec_spirit_at(b.tile_a) matches Some(x) && !x.fading
    &&& sim.spec_spirit_at(b.tile_b) matches Some(y) && !y.fading
}

/// The heals the seat's intact, adjacent Bonds among the first `k` give their partners.
pub open spec fn bond_heals(sim: GameState, canon: Canon, catalog: Seq<CardDef>, seat: Seat, k: int) -> Seq<(u8, i16)>
    decreases k,
{
    if k <= 0 {
        Seq::empty()
    } else {
        let b = sim.bonds@[k - 1];
        let effs = flow_effects(canon, catalog, b.card);
        let xs = amounts(effs, HealFrom::Pair, effs.len() as int);
        bond_heals(sim, canon, catalog, seat, k - 1) + if bond_tends(sim, seat, b) {
            on_pair(b.tile_a, b.tile_b, xs, xs.len() as int)
        } else {
            Seq::empty()
        }
    }
}

/// The allies of `seat` one step from tile `i` among the first `m` tiles, each healed by `x`.
pub open spec fn allies_healed(sim: GameState, seat: Seat, i: int, x: i16, m: int) -> Seq<(u8, i16)>
    decreases m,
{
    if m <= 0 {
        Seq::empty()
    } else {
        allies_healed(sim, seat, i, x, m - 1) + if m - 1 != i && spec_manhattan(i as u8, (m - 1) as u8) == 1
            && ally_standing(sim, seat, m - 1) {
            seq![((m - 1) as u8, x)]
        } else {
            Seq::empty()
        }
    }
}

/// For each of the first `n` amounts, the allies beside tile `i` it heals.
pub open spec fn neighbours_healed(sim: GameState, seat: Seat, i: int, xs: Seq<i16>, n: int) -> Seq<(u8, i16)>
    decreases n,
{
    if n <= 0 {
        Seq::empty()
    } else {
        neighbours_healed(sim, seat, i, xs, n - 1) + allies_healed(sim, seat, i, xs[n - 1], sim.board@.len() as int)
    }
}

/// The heals the seat's acting spirits on the first `n` tiles give their neighbouring allies.
pub open spec fn elder_heals(sim: GameState, canon: Canon, catalog: Seq<CardDef>, seat: Seat, n: int) -> Seq<(u8, i16)>
    decreases n,
{
    if n <= 0 {
        Seq::empty()
    } else {
        elder_heals(sim, canon, catalog, seat, n - 1) + elder_tile(sim, canon, catalog, seat, n - 1)
    }
}

/// The heals the spirit on tile `i` gives itself, if it acts for `seat`.
pub open spec fn own_tile(sim: GameState, canon: Canon, catalog: Seq<CardDef>, seat: Seat, i: int) -> Seq<(u8, i16)> {
    let effs = spirit_effects(sim, canon, catalog, i);
    if acting(sim, seat, i) { on_tile(i as u8, amounts(effs, HealFrom::Own, effs.len() as int)) } else { Seq::empty() }
}

/// The heals the seat's acting spirits on the first `n` tiles give themselves.
pub open spec fn own_heals(sim: GameState, canon: Canon, catalog: Seq<CardDef>, seat: Seat, n: int) -> Seq<(u8, i16)>
    decreases n,
{
    if n <= 0 {
        Seq::empty()
    } else {
        own_heals(sim, canon, catalog, seat, n - 1) + own_tile(sim, canon, catalog, seat, n - 1)
    }
}

/// Every heal of the seat's Flow, in order: terrain, Bonds, neighbours, then self.
pub open spec fn flow_heals(sim: GameState, canon: Canon, catalog: Seq<CardDef>, seat: Seat) -> Seq<(u8, i16)> {
    let n = sim.board@.len() as int;
    terrain_heals(sim, canon, catalog, seat, n) + bond_heals(sim, canon, catalog, seat, sim.bonds@.len() as int)
        + elder_heals(sim, canon, catalog, seat, n) + own_heals(sim, canon, catalog, seat, n)
}

// ---------------------------------------------------------------------------
// Growth, pages, Glimpses, attunement
// ---------------------------------------------------------------------------

pub open spec fn min_int(a: int, b: int) -> int {
    if a <= b { a } else { b }
}

pub open spec fn max_int(a: int, b: int) -> int {
    if a >= b { a } else { b }
}

/// A growing spirit's step this Flow: at most `step` on each stat, never past `max` above
/// its printed number; `None` once both have reached the cap.
pub open spec fn grow_step(sp: Spirit, printed: CardDef, step: i16, max: i16) -> Option<(i16, i16)> {
    let a = min_int(step as int, max_int(max - (sp.attack - printed.attack), 0));
    let d = min_int(step as int, max_int(max - (sp.defense - printed.defense), 0));
    if a > 0 || d > 0 { Some((a as i16, d as i16)) } else { None }
}

/// The growth arithmetic stays in `i16`.
pub open spec fn grow_fits(sp: Spirit, printed: CardDef, max: i16) -> bool {
    &&& i16::MIN <= sp.attack - printed.attack <= i16::MAX
    &&& i16::MIN <= max - (sp.attack - printed.attack) <= i16::MAX
    &&& i16::MIN <= sp.defense - printed.defense <= i16::MAX
    &&& i16::MIN <= max - (sp.defense - printed.defense) <= i16::MAX
}

/// The growth steps of the first `n` effects of the spirit `sp` on `tile`.
pub open spec fn grows_of(sp: Spirit, printed: CardDef, tile: u8, effs: Seq<FlowEffect>, n: int) -> Seq<(u8, i16, i16)>
    decreases n,
{
    if n <= 0 {
        Seq::empty()
    } else {
        grows_of(sp, printed, tile, effs, n - 1) + match effs[n - 1] {
            FlowEffect::Grow(step, max) => match grow_step(sp, printed, step, max) {
                Some((a, d)) => seq![(tile, a, d)],
                None => Seq::empty(),
            },
            _ => Seq::empty(),
        }
    }
}

/// The tile once per Page effect among the first `n`.
pub open spec fn pages_of(tile: u8, effs: Seq<FlowEffect>, n: int) -> Seq<u8>
    decreases n,
{
    if n <= 0 {
        Seq::empty()
    } else {
        pages_of(tile, effs, n - 1) + if effs[n - 1] is Page { seq![tile] } else { Seq::empty() }
    }
}

/// The growth steps of the spirit on tile `i`, if it acts for `seat`.
pub open spec fn grows_tile(sim: GameState, canon: Canon, catalog: Seq<CardDef>, seat: Seat, i: int) -> Seq<(u8, i16, i16)> {
    let effs = spirit_effects(sim, canon, catalog, i);
    if acting(sim, seat, i) {
        let sp = sim.board@[i].spirit->Some_0;
        grows_of(sp, spec_card(catalog, sp.card), i as u8, effs, effs.len() as int)
    } else {
        Seq::empty()
    }
}

/// The growth of the seat's acting spirits on the first `n` tiles.
pub open spec fn flow_grows(sim: GameState, canon: Canon, catalog: Seq<CardDef>, seat: Seat, n: int) -> Seq<(u8, i16, i16)>
    decreases n,
{
    if n <= 0 {
        Seq::empty()
    } else {
        flow_grows(sim, canon, catalog, seat, n - 1) + grows_tile(sim, canon, catalog, seat, n - 1)
    }
}

/// The page entries of the spirit on tile `i`, if it acts for `seat`.
pub open spec fn pages_tile(sim: GameState, canon: Canon, catalog: Seq<CardDef>, seat: Seat, i: int) -> Seq<u8> {
    let effs = spirit_effects(sim, canon, catalog, i);
    if acting(sim, seat, i) { pages_of(i as u8, effs, effs.len() as int) } else { Seq::empty() }
}

/// The pages (Last Warm Page carriers) among the seat's acting spirits on the first `n` tiles.
pub open spec fn flow_pages(sim: GameState, canon: Canon, catalog: Seq<CardDef>, seat: Seat, n: int) -> Seq<u8>
    decreases n,
{
    if n <= 0 {
        Seq::empty()
    } else {
        flow_pages(sim, canon, catalog, seat, n - 1) + pages_tile(sim, canon, catalog, seat, n - 1)
    }
}

/// The spirit on tile `i` acts for `seat` and opens a Glimpse at the Flow.
pub open spec fn sage_at(sim: GameState, canon: Canon, catalog: Seq<CardDef>, seat: Seat, i: int) -> bool {
    let effs = spirit_effects(sim, canon, catalog, i);
    acting(sim, seat, i) && exists|k: int| 0 <= k < effs.len() && #[trigger] effs[k] is Peek
}

/// The seat's acting spirits on the first `n` tiles that open a Glimpse at the Flow.
pub open spec fn flow_sages(sim: GameState, canon: Canon, catalog: Seq<CardDef>, seat: Seat, n: int) -> Seq<u8>
    decreases n,
{
    if n <= 0 {
        Seq::empty()
    } else {
        flow_sages(sim, canon, catalog, seat, n - 1) + if sage_at(sim, canon, catalog, seat, n - 1) {
            seq![(n - 1) as u8]
        } else {
            Seq::empty()
        }
    }
}

/// The cards the spirit on tile `i` draws, if it acts for `seat` and is attuned.
pub open spec fn draws_tile(sim: GameState, canon: Canon, catalog: Seq<CardDef>, seat: Seat, i: int) -> int {
    if acting(sim, seat, i) { attuned_draws(sim, canon, catalog, i as u8, sim.board@[i].spirit->Some_0) } else { 0 }
}

/// The cards the seat's attuned acting spirits on the first `n` tiles draw.
pub open spec fn flow_draws(sim: GameState, canon: Canon, catalog: Seq<CardDef>, seat: Seat, n: int) -> int
    decreases n,
{
    if n <= 0 {
        0
    } else {
        flow_draws(sim, canon, catalog, seat, n - 1) + draws_tile(sim, canon, catalog, seat, n - 1)
    }
}

/// The running Anima tithe of the seat's terrain stays in `i16`.
pub open spec fn anima_fits(sim: GameState, canon: Canon, catalog: Seq<CardDef>, seat: Seat) -> bool {
    forall|i: int, k: int| 0 <= i < sim.board@.len() && 0 <= k <= terrain_effects(sim, canon, catalog, seat, i).len()
        ==> i16::MIN <= terrain_anima(sim, canon, catalog, seat, i) + #[trigger] anima_of(terrain_effects(sim, canon, catalog, seat, i), k) <= i16::MAX
}

/// Every growing acting spirit's step arithmetic stays in `i16`, and every acting spirit's
/// card counts its attuned draws in a `u64`.
pub open spec fn spirits_fit(sim: GameState, canon: Canon, catalog: Seq<CardDef>, seat: Seat) -> bool {
    forall|i: int| 0 <= i < sim.board@.len() && #[trigger] acting(sim, seat, i) ==> {
        let sp = sim.board@[i].spirit->Some_0;
        let effs = flow_effects(canon, catalog, sp.card);
        &&& draws_fit(canon, catalog, sp.card)
        &&& forall|k: int| 0 <= k < effs.len() ==> (#[trigger] effs[k] matches FlowEffect::Grow(_, max)
            ==> grow_fits(sp, spec_card(catalog, sp.card), max))
    }
}

/// The Flow's reading arithmetic stays in range: the running Anima tithe in `i16`, each
/// growing spirit's step in `i16`, each card's and the total attuned draw count in `u64`.
pub open spec fn flow_fits(sim: GameState, canon: Canon, catalog: Seq<CardDef>, seat: Seat) -> bool {
    &&& anima_fits(sim, canon, catalog, seat)
    &&& spirits_fit(sim, canon, catalog, seat)
    &&& flow_draws(sim, canon, catalog, seat, sim.board@.len() as int) <= u64::MAX
}

// ---------------------------------------------------------------------------
// Reading the Flow
// ---------------------------------------------------------------------------

/// Everything the Flow reads off the board before it acts.
pub struct FlowReads {
    /// The Anima the seat's terrain tithes.
    pub anima: i16,
    /// The heals, in order: terrain, Bonds, neighbours, self.
    pub heals: Vec<(u8, i16)>,
    /// The growing spirits' steps: (tile, attack, defense).
    pub grows: Vec<(u8, i16, i16)>,
    /// The Last Warm Page carriers, once per such clause.
    pub pages: Vec<u8>,
    /// The spirits that open a Glimpse at the Flow.
    pub sages: Vec<u8>,
    /// The cards the attuned spirits draw.
    pub draws: u64,
}

/// `base` plus the Anima tithed by `effs`.
fn add_anima(effs: &Vec<FlowEffect>, base: i16) -> (r: i16)
    requires
        forall|k: int| 0 <= k <= effs@.len() ==> i16::MIN <= base + #[trigger] anima_of(effs@, k) <= i16::MAX,
    ensures
        r as int == base + anima_of(effs@, effs@.len() as int),
{
    let m = effs.len();
    let mut anima = base;
    for k in 0..m
        invariant
            m == effs@.len(),
            forall|k: int| 0 <= k <= effs@.len() ==> i16::MIN <= base + #[trigger] anima_of(effs@, k) <= i16::MAX,
            anima as int == base + anima_of(effs@, k as int),
    {
        assert(i16::MIN <= base + anima_of(effs@, k + 1) <= i16::MAX);
        match effs[k] {
            FlowEffect::OwnerAnima(a) => {
                anima = anima + a as i16;
            },
            _ => {},
        }
    }
    anima
}

#[verifier::rlimit(80)]
#[verifier::spinoff_prover]
fn terrain_pass(sim: &GameState, canon: &Canon, catalog: &[CardDef], seat: Seat, heals: &mut Vec<(u8, i16)>) -> (anima: i16)
    requires
        sim.wf(),
        anima_fits(*sim, *canon, catalog@, seat),
    ensures
        anima as int == terrain_anima(*sim, *canon, catalog@, seat, sim.board@.len() as int),
        final(heals)@ == old(heals)@ + terrain_heals(*sim, *canon, catalog@, seat, sim.board@.len() as int),
{
    proof {
        lemma_wf_small(*sim);
    }
    let ghost h0 = heals@;
    let n = sim.board.len();
    let mut anima: i16 = 0;
    for i in 0..n
        invariant
            n == sim.board@.len() <= 64,
            anima_fits(*sim, *canon, catalog@, seat),
            anima as int == terrain_anima(*sim, *canon, catalog@, seat, i as int),
            heals@ == h0 + terrain_heals(*sim, *canon, catalog@, seat, i as int),
    {
        let ghost base = anima as int;
        let effs: Vec<FlowEffect> = match &sim.board[i].terrain {
            Some(t) => if !t.face_down && t.owner == seat { card_flow_effects(canon, catalog, t.card) } else { Vec::new() },
            None => Vec::new(),
        };
        assert(effs@ == terrain_effects(*sim, *canon, catalog@, seat, i as int));
        proof {
            assert forall|k: int| 0 <= k <= effs@.len() implies
                i16::MIN <= base + #[trigger] anima_of(effs@, k) <= i16::MAX by {
            }
        }
        anima = add_anima(&effs, anima);
        let standing_here = match &sim.board[i].spirit {
            Some(sp) => !sp.fading,
            None => false,
        };
        if standing_here {
            let xs = heal_amounts(&effs, HealFrom::Occupant);
            heals_on(i as u8, &xs, heals);
            assert(h0 + terrain_heals(*sim, *canon, catalog@, seat, i + 1)
                == h0 + terrain_heals(*sim, *canon, catalog@, seat, i as int) + on_tile(i as u8, xs@));
        } else {
            assert(terrain_heals(*sim, *canon, catalog@, seat, i + 1) == terrain_heals(*sim, *canon, catalog@, seat, i as int) + Seq::<(u8, i16)>::empty());
        }
    }
    anima
}

fn bond_pass(sim: &GameState, canon: &Canon, catalog: &[CardDef], seat: Seat, heals: &mut Vec<(u8, i16)>)
    ensures
        final(heals)@ == old(heals)@ + bond_heals(*sim, *canon, catalog@, seat, sim.bonds@.len() as int),
{
    let ghost h0 = heals@;
    let n = sim.bonds.len();
    for k in 0..n
        invariant
            n == sim.bonds@.len(),
            heals@ == h0 + bond_heals(*sim, *canon, catalog@, seat, k as int),
    {
        let b = sim.bonds[k];
        let live_a = match sim.spirit_at(b.tile_a) {
            Some(x) => !x.fading,
            None => false,
        };
        let live_b = match sim.spirit_at(b.tile_b) {
            Some(y) => !y.fading,
            None => false,
        };
        assert(b == sim.bonds@[k as int]);
        if b.owner == seat && manhattan(b.tile_a, b.tile_b) == 1 && live_a && live_b {
            let effs = card_flow_effects(canon, catalog, b.card);
            let xs = heal_amounts(&effs, HealFrom::Pair);
            let ghost before = heals@;
            let m = xs.len();
            for j in 0..m
                invariant
                    m == xs@.len(),
                    heals@ == before + on_pair(b.tile_a, b.tile_b, xs@, j as int),
            {
                heals.push((b.tile_a, xs[j]));
                heals.push((b.tile_b, xs[j]));
                assert(on_pair(b.tile_a, b.tile_b, xs@, j + 1)
                    == on_pair(b.tile_a, b.tile_b, xs@, j as int) + seq![(b.tile_a, xs@[j as int]), (b.tile_b, xs@[j as int])]);
                assert(before + on_pair(b.tile_a, b.tile_b, xs@, j + 1)
                    =~= (before + on_pair(b.tile_a, b.tile_b, xs@, j as int)).push((b.tile_a, xs@[j as int])).push((b.tile_b, xs@[j as int])));
            }
            assert(bond_tends(*sim, seat, b));
            assert(h0 + bond_heals(*sim, *canon, catalog@, seat, k + 1)
                == h0 + bond_heals(*sim, *canon, catalog@, seat, k as int) + on_pair(b.tile_a, b.tile_b, xs@, m as int));
        } else {
            assert(!bond_tends(*sim, seat, b));
            assert(bond_heals(*sim, *canon, catalog@, seat, k + 1)
                == bond_heals(*sim, *canon, catalog@, seat, k as int) + Seq::<(u8, i16)>::empty());
        }
    }
}

fn heal_allies_beside(sim: &GameState, seat: Seat, i: usize, x: i16, heals: &mut Vec<(u8, i16)>)
    requires
        sim.board@.len() <= 64,
        i < sim.board@.len(),
    ensures
        final(heals)@ == old(heals)@ + allies_healed(*sim, seat, i as int, x, sim.board@.len() as int),
{
    let ghost h0 = heals@;
    let n = sim.board.len();
    for j in 0..n
        invariant
            n == sim.board@.len() <= 64,
            i < n,
            heals@ == h0 + allies_healed(*sim, seat, i as int, x, j as int),
    {
        let ally = match &sim.board[j].spirit {
            Some(o) => !o.fading && o.owner == seat,
            None => false,
        };
        if j != i && manhattan(i as u8, j as u8) == 1 && ally {
            heals.push((j as u8, x));
            assert(allies_healed(*sim, seat, i as int, x, j + 1) == allies_healed(*sim, seat, i as int, x, j as int) + seq![(j as u8, x)]);
        } else {
            assert(allies_healed(*sim, seat, i as int, x, j + 1) == allies_healed(*sim, seat, i as int, x, j as int) + Seq::<(u8, i16)>::empty());
        }
    }
}

/// The heals the spirit on tile `i` gives its neighbouring allies, if it acts for `seat`.
pub open spec fn elder_tile(sim: GameState, canon: Canon, catalog: Seq<CardDef>, seat: Seat, i: int) -> Seq<(u8, i16)> {
    let effs = spirit_effects(sim, canon, catalog, i);
    let xs = amounts(effs, HealFrom::Neighbour, effs.len() as int);
    if acting(sim, seat, i) { neighbours_healed(sim, seat, i, xs, xs.len() as int) } else { Seq::empty() }
}

fn elder_at(sim: &GameState, canon: &Canon, catalog: &[CardDef], seat: Seat, i: usize, heals: &mut Vec<(u8, i16)>)
    requires
        sim.board@.len() <= 64,
        i < sim.board@.len(),
    ensures
        final(heals)@ == old(heals)@ + elder_tile(*sim, *canon, catalog@, seat, i as int),
{
    let acts = match &sim.board[i].spirit {
        Some(sp) => if sp.owner == seat && !sp.fading && !sp.face_down { Some(sp.card) } else { None },
        None => None,
    };
    match acts {
        Some(c) => {
            let effs = card_flow_effects(canon, catalog, c);
            assert(effs@ == spirit_effects(*sim, *canon, catalog@, i as int));
            let xs = heal_amounts(&effs, HealFrom::Neighbour);
            let ghost before = heals@;
            let m = xs.len();
            for k in 0..m
                invariant
                    m == xs@.len(),
                    sim.board@.len() <= 64,
                    i < sim.board@.len(),
                    heals@ == before + neighbours_healed(*sim, seat, i as int, xs@, k as int),
            {
                heal_allies_beside(sim, seat, i, xs[k], heals);
            }
        },
        None => {
            assert(heals@ == heals@ + Seq::<(u8, i16)>::empty());
        },
    }
}

#[verifier::rlimit(50)]
#[verifier::spinoff_prover]
fn elder_pass(sim: &GameState, canon: &Canon, catalog: &[CardDef], seat: Seat, heals: &mut Vec<(u8, i16)>)
    requires
        sim.wf(),
    ensures
        final(heals)@ == old(heals)@ + elder_heals(*sim, *canon, catalog@, seat, sim.board@.len() as int),
{
    proof {
        lemma_wf_small(*sim);
    }
    let ghost h0 = heals@;
    let n = sim.board.len();
    for i in 0..n
        invariant
            n == sim.board@.len() <= 64,
            heals@ == h0 + elder_heals(*sim, *canon, catalog@, seat, i as int),
    {
        elder_at(sim, canon, catalog, seat, i, heals);
        assert(elder_heals(*sim, *canon, catalog@, seat, i + 1)
            == elder_heals(*sim, *canon, catalog@, seat, i as int) + elder_tile(*sim, *canon, catalog@, seat, i as int));
    }
}

fn grow_of(sp: &Spirit, printed: &CardDef, step: i16, max: i16) -> (r: Option<(i16, i16)>)
    requires
        grow_fits(*sp, *printed, max),
    ensures
        r == grow_step(*sp, *printed, step, max),
{
    let room_a = max - (sp.attack - printed.attack);
    let room_d = max - (sp.defense - printed.defense);
    let room_a = if room_a >= 0 { room_a } else { 0 };
    let room_d = if room_d >= 0 { room_d } else { 0 };
    let a = if step <= room_a { step } else { room_a };
    let d = if step <= room_d { step } else { room_d };
    if a > 0 || d > 0 { Some((a, d)) } else { None }
}

/// The self-acting reads of the spirit on tile `i`: its own heals, growth and pages, whether
/// it opens a Glimpse, and its attuned draws.
#[verifier::rlimit(30)]
fn self_at(
    sim: &GameState,
    canon: &Canon,
    catalog: &[CardDef],
    seat: Seat,
    i: usize,
    heals: &mut Vec<(u8, i16)>,
    grows: &mut Vec<(u8, i16, i16)>,
    pages: &mut Vec<u8>,
) -> (r: (bool, u64))
    requires
        sim.board@.len() <= 64,
        i < sim.board@.len(),
        cards_known(*sim, catalog@),
        spirits_fit(*sim, *canon, catalog@, seat),
    ensures
        final(heals)@ == old(heals)@ + own_tile(*sim, *canon, catalog@, seat, i as int),
        final(grows)@ == old(grows)@ + grows_tile(*sim, *canon, catalog@, seat, i as int),
        final(pages)@ == old(pages)@ + pages_tile(*sim, *canon, catalog@, seat, i as int),
        r.0 == sage_at(*sim, *canon, catalog@, seat, i as int),
        r.1 as int == draws_tile(*sim, *canon, catalog@, seat, i as int),
{
    let sp = match &sim.board[i].spirit {
        Some(sp) => if sp.owner == seat && !sp.fading && !sp.face_down { sp } else {
            assert(heals@ == heals@ + Seq::<(u8, i16)>::empty());
            assert(grows@ == grows@ + Seq::<(u8, i16, i16)>::empty());
            assert(pages@ == pages@ + Seq::<u8>::empty());
            return (false, 0);
        },
        None => {
            assert(heals@ == heals@ + Seq::<(u8, i16)>::empty());
            assert(grows@ == grows@ + Seq::<(u8, i16, i16)>::empty());
            assert(pages@ == pages@ + Seq::<u8>::empty());
            return (false, 0);
        },
    };
    assert(acting(*sim, seat, i as int));
    let effs = card_flow_effects(canon, catalog, sp.card);
    assert(effs@ == spirit_effects(*sim, *canon, catalog@, i as int));
    let xs = heal_amounts(&effs, HealFrom::Own);
    heals_on(i as u8, &xs, heals);
    let printed = card(catalog, sp.card);
    let ghost g0 = grows@;
    let ghost p0 = pages@;
    let m = effs.len();
    let mut sage = false;
    for k in 0..m
        invariant
            m == effs@.len(),
            effs@ == flow_effects(*canon, catalog@, sp.card),
            *printed == spec_card(catalog@, sp.card),
            forall|j: int| 0 <= j < effs@.len() ==> (#[trigger] effs@[j] matches FlowEffect::Grow(_, max)
                ==> grow_fits(*sp, *printed, max)),
            grows@ == g0 + grows_of(*sp, *printed, i as u8, effs@, k as int),
            pages@ == p0 + pages_of(i as u8, effs@, k as int),
            sage <==> exists|j: int| 0 <= j < k && #[trigger] effs@[j] is Peek,
    {
        match effs[k] {
            FlowEffect::Grow(step, max) => {
                match grow_of(sp, printed, step, max) {
                    Some((a, d)) => {
                        grows.push((i as u8, a, d));
                    },
                    None => {},
                }
            },
            FlowEffect::Page => {
                pages.push(i as u8);
            },
            FlowEffect::Peek => {
                sage = true;
            },
            _ => {},
        }
        assert(grows_of(*sp, *printed, i as u8, effs@, k + 1) == grows_of(*sp, *printed, i as u8, effs@, k as int) + match effs@[k as int] {
            FlowEffect::Grow(step, max) => match grow_step(*sp, *printed, step, max) {
                Some((a, d)) => seq![(i as u8, a, d)],
                None => Seq::empty(),
            },
            _ => Seq::empty(),
        });
    }
    let draws = card_attuned_draws(sim, canon, catalog, i as u8, sp);
    (sage, draws)
}

#[verifier::rlimit(50)]
#[verifier::spinoff_prover]
fn self_pass(
    sim: &GameState,
    canon: &Canon,
    catalog: &[CardDef],
    seat: Seat,
    heals: &mut Vec<(u8, i16)>,
) -> (r: (Vec<(u8, i16, i16)>, Vec<u8>, Vec<u8>, u64))
    requires
        sim.wf(),
        cards_known(*sim, catalog@),
        spirits_fit(*sim, *canon, catalog@, seat),
        flow_draws(*sim, *canon, catalog@, seat, sim.board@.len() as int) <= u64::MAX,
    ensures
        final(heals)@ == old(heals)@ + own_heals(*sim, *canon, catalog@, seat, sim.board@.len() as int),
        r.0@ == flow_grows(*sim, *canon, catalog@, seat, sim.board@.len() as int),
        r.1@ == flow_pages(*sim, *canon, catalog@, seat, sim.board@.len() as int),
        r.2@ == flow_sages(*sim, *canon, catalog@, seat, sim.board@.len() as int),
        r.3 as int == flow_draws(*sim, *canon, catalog@, seat, sim.board@.len() as int),
{
    proof {
        lemma_wf_small(*sim);
    }
    let ghost h0 = heals@;
    let mut grows: Vec<(u8, i16, i16)> = Vec::new();
    let mut pages: Vec<u8> = Vec::new();
    let mut sages: Vec<u8> = Vec::new();
    let mut draws: u64 = 0;
    let n = sim.board.len();
    for i in 0..n
        invariant
            n == sim.board@.len() <= 64,
            cards_known(*sim, catalog@),
            spirits_fit(*sim, *canon, catalog@, seat),
            flow_draws(*sim, *canon, catalog@, seat, n as int) <= u64::MAX,
            heals@ == h0 + own_heals(*sim, *canon, catalog@, seat, i as int),
            grows@ == flow_grows(*sim, *canon, catalog@, seat, i as int),
            pages@ == flow_pages(*sim, *canon, catalog@, seat, i as int),
            sages@ == flow_sages(*sim, *canon, catalog@, seat, i as int),
            draws as int == flow_draws(*sim, *canon, catalog@, seat, i as int),
    {
        let (sage, d) = self_at(sim, canon, catalog, seat, i, heals, &mut grows, &mut pages);
        if sage {
            sages.push(i as u8);
        }
        proof {
            lemma_flow_draws_mono(*sim, *canon, catalog@, seat, i + 1, n as int);
        }
        draws = draws + d;
    }
    (grows, pages, sages, draws)
}

proof fn lemma_attuned_draws_nonneg(sim: GameState, canon: Canon, catalog: Seq<CardDef>, tile: u8, sp: Spirit)
    ensures
        attuned_draws(sim, canon, catalog, tile, sp) >= 0,
{
    match spec_specs_for(canon, catalog, sp.card) {
        Some(specs) => {
            let cls = clauses_under(specs, Trigger::OnAttuned, specs.len() as int);
            lemma_draw_count_mono(cls, 0, cls.len() as int);
        },
        None => {},
    }
}

proof fn lemma_flow_draws_mono(sim: GameState, canon: Canon, catalog: Seq<CardDef>, seat: Seat, i: int, n: int)
    requires
        0 <= i <= n,
    ensures
        flow_draws(sim, canon, catalog, seat, i) <= flow_draws(sim, canon, catalog, seat, n),
    decreases n - i,
{
    if i < n {
        lemma_flow_draws_mono(sim, canon, catalog, seat, i, n - 1);
        if acting(sim, seat, n - 1) {
            lemma_attuned_draws_nonneg(sim, canon, catalog, (n - 1) as u8, sim.board@[n - 1].spirit->Some_0);
        }
    }
}

/// Read everything the seat's Flow acts on, before it acts.
pub fn read_flow(sim: &GameState, canon: &Canon, catalog: &[CardDef], seat: Seat) -> (r: FlowReads)
    requires
        sim.wf(),
        cards_known(*sim, catalog@),
        flow_fits(*sim, *canon, catalog@, seat),
    ensures
        r.anima as int == terrain_anima(*sim, *canon, catalog@, seat, sim.board@.len() as int),
        r.heals@ == flow_heals(*sim, *canon, catalog@, seat),
        r.grows@ == flow_grows(*sim, *canon, catalog@, seat, sim.board@.len() as int),
        r.pages@ == flow_pages(*sim, *canon, catalog@, seat, sim.board@.len() as int),
        r.sages@ == flow_sages(*sim, *canon, catalog@, seat, sim.board@.len() as int),
        r.draws as int == flow_draws(*sim, *canon, catalog@, seat, sim.board@.len() as int),
{
    let mut heals: Vec<(u8, i16)> = Vec::new();
    let anima = terrain_pass(sim, canon, catalog, seat, &mut heals);
    bond_pass(sim, canon, catalog, seat, &mut heals);
    elder_pass(sim, canon, catalog, seat, &mut heals);
    let (grows, pages, sages, draws) = self_pass(sim, canon, catalog, seat, &mut heals);
    assert(Seq::<(u8, i16)>::empty() + terrain_heals(*sim, *canon, catalog@, seat, sim.board@.len() as int)
        == terrain_heals(*sim, *canon, catalog@, seat, sim.board@.len() as int));
    FlowReads { anima, heals, grows, pages, sages, draws }
}

// ---------------------------------------------------------------------------
// Acting on the Flow
// ---------------------------------------------------------------------------

/// The growth, as lasting stat changes.
pub open spec fn grow_events(gs: Seq<(u8, i16, i16)>) -> Seq<Event> {
    gs.map_values(|g: (u8, i16, i16)| Event::EffectStat { tile: g.0, attack: g.1, defense: g.2, form: 0 })
}

/// A page erodes the mark on `t`: the Solace forgets it (and tallies), anyone else
/// unwrites it.
pub open spec fn erase(solace: bool, t: u8) -> Event {
    if solace { Event::ImpressionForgotten { tile: t } } else { Event::ImpressionUnwritten { tile: t } }
}

/// Tile `t` still bears the other seat's mark, none of the erasures `done` having taken it.
pub open spec fn still_marked(sim: GameState, seat: Seat, solace: bool, t: u8, done: Seq<Event>) -> bool {
    &&& (t as int) < sim.board@.len()
    &&& sim.board@[t as int].impressions@.contains(seat.spec_other())
    &&& !done.contains(erase(solace, t))
}

/// The first of `cands` from `j` on that still bears the other seat's mark.
pub open spec fn first_marked(sim: GameState, seat: Seat, solace: bool, cands: Seq<u8>, done: Seq<Event>, j: int) -> Option<u8>
    decreases cands.len() - j,
{
    if j < 0 || j >= cands.len() {
        None
    } else if still_marked(sim, seat, solace, cands[j], done) {
        Some(cands[j])
    } else {
        first_marked(sim, seat, solace, cands, done, j + 1)
    }
}

/// The Last Warm Page erosions of the first `k` pages: each erases the first neighbouring
/// tile (right, left, below, above) that still bears the other seat's mark.
pub open spec fn page_erasures(sim: GameState, seat: Seat, pages: Seq<u8>, k: int) -> Seq<Event>
    decreases k,
{
    if k <= 0 {
        Seq::empty()
    } else {
        let prev = page_erasures(sim, seat, pages, k - 1);
        let solace = seat_get(sim.rules.factions, seat) == Faction::Solace;
        match first_marked(sim, seat, solace, spec_adjacent4_w(pages[k - 1], sim.board_w), prev, 0) {
            Some(t) => prev.push(erase(solace, t)),
            None => prev,
        }
    }
}

/// What the Flow does before any Glimpse opens: the growth, then the pages' erosions.
pub open spec fn tithe_events(sim: GameState, canon: Canon, catalog: Seq<CardDef>, seat: Seat) -> Seq<Event> {
    let n = sim.board@.len() as int;
    let pages = flow_pages(sim, canon, catalog, seat, n);
    grow_events(flow_grows(sim, canon, catalog, seat, n)) + page_erasures(sim, seat, pages, pages.len() as int)
}

fn bears(impressions: &Vec<Seat>, s: Seat) -> (r: bool)
    ensures
        r == impressions@.contains(s),
{
    let n = impressions.len();
    for i in 0..n
        invariant
            n == impressions@.len(),
            forall|j: int| 0 <= j < i ==> impressions@[j] != s,
    {
        if impressions[i] == s {
            return true;
        }
    }
    false
}

proof fn lemma_erased(solace: bool, erased: Seq<u8>, t: u8)
    ensures
        erased.map_values(|u: u8| erase(solace, u)).contains(erase(solace, t)) <==> erased.contains(t),
{
    let done = erased.map_values(|u: u8| erase(solace, u));
    if done.contains(erase(solace, t)) {
        let j = choose|j: int| 0 <= j < done.len() && done[j] == erase(solace, t);
        assert(erased[j] == t);
    }
    if erased.contains(t) {
        let j = choose|j: int| 0 <= j < erased.len() && erased[j] == t;
        assert(done[j] == erase(solace, t));
    }
}

fn page_events(sim: &GameState, seat: Seat, pages: &Vec<u8>) -> (r: Vec<Event>)
    requires
        sim.wf(),
        forall|k: int| 0 <= k < pages@.len() ==> (#[trigger] pages@[k] as int) < sim.board@.len(),
    ensures
        r@ == page_erasures(*sim, seat, pages@, pages@.len() as int),
{
    let solace = match seat {
        Seat::A => sim.rules.factions[0],
        Seat::B => sim.rules.factions[1],
    } == Faction::Solace;
    let other = seat.other();
    let mut erased: Vec<u8> = Vec::new();
    let mut out: Vec<Event> = Vec::new();
    let m = pages.len();
    for k in 0..m
        invariant
            m == pages@.len(),
            sim.wf(),
            solace == (seat_get(sim.rules.factions, seat) == Faction::Solace),
            other == seat.spec_other(),
            forall|k: int| 0 <= k < pages@.len() ==> (#[trigger] pages@[k] as int) < sim.board@.len(),
            out@ == erased@.map_values(|u: u8| erase(solace, u)),
            out@ == page_erasures(*sim, seat, pages@, k as int),
    {
        let cands = adjacent4_w(pages[k], sim.board_w);
        let c = cands.len();
        let mut found: Option<u8> = None;
        let mut j: usize = 0;
        while j < c && found.is_none()
            invariant
                c == cands@.len(),
                cands@ == spec_adjacent4_w(pages@[k as int], sim.board_w),
                sim.wf(),
                other == seat.spec_other(),
                out@ == erased@.map_values(|u: u8| erase(solace, u)),
                j <= c,
                found is None ==> first_marked(*sim, seat, solace, cands@, out@, 0) == first_marked(*sim, seat, solace, cands@, out@, j as int),
                found matches Some(t) ==> first_marked(*sim, seat, solace, cands@, out@, 0) == Some(t),
            decreases c - j,
        {
            let t = cands[j];
            proof {
                lemma_erased(solace, erased@, t);
            }
            let here = (t as usize) < sim.board.len() && bears(&sim.board[t as usize].impressions, other)
                && !crate::evolve::contains_tile(&erased, t);
            assert(here == still_marked(*sim, seat, solace, t, out@));
            if here {
                found = Some(t);
            }
            j = j + 1;
        }
        match found {
            Some(t) => {
                out.push(if solace { Event::ImpressionForgotten { tile: t } } else { Event::ImpressionUnwritten { tile: t } });
                erased.push(t);
                assert(out@ =~= erased@.map_values(|u: u8| erase(solace, u)));
            },
            None => {},
        }
    }
    out
}

/// The seat's Flow up to its Glimpses: it reads the board, then its spirits grow and its
/// pages erode the enemy marks beside them. What it read comes back: the Sages whose
/// Glimpses open next (opening them is not in this crate), and the draws, Anima and heals
/// that `fire_at_flow_gifts` then grants.
pub fn fire_at_flow(
    sim: &mut GameState,
    evs: &mut Vec<Event>,
    canon: &Canon,
    catalog: &[CardDef],
    seat: Seat,
) -> (r: FlowReads)
    requires
        old(sim).wf(),
        cards_known(*old(sim), catalog@),
        flow_fits(*old(sim), *canon, catalog@, seat),
        applicable(*old(sim), tithe_events(*old(sim), *canon, catalog@, seat)),
    ensures
        final(evs)@ == old(evs)@ + tithe_events(*old(sim), *canon, catalog@, seat),
        applies(*old(sim), tithe_events(*old(sim), *canon, catalog@, seat), *final(sim)),
        r.anima as int == terrain_anima(*old(sim), *canon, catalog@, seat, old(sim).board@.len() as int),
        r.heals@ == flow_heals(*old(sim), *canon, catalog@, seat),
        r.grows@ == flow_grows(*old(sim), *canon, catalog@, seat, old(sim).board@.len() as int),
        r.pages@ == flow_pages(*old(sim), *canon, catalog@, seat, old(sim).board@.len() as int),
        r.sages@ == flow_sages(*old(sim), *canon, catalog@, seat, old(sim).board@.len() as int),
        r.draws as int == flow_draws(*old(sim), *canon, catalog@, seat, old(sim).board@.len() as int),
{
    let reads = read_flow(sim, canon, catalog, seat);
    let mut list: Vec<Event> = Vec::new();
    let g = reads.grows.len();
    for k in 0..g
        invariant
            g == reads.grows@.len(),
            list@ == grow_events(reads.grows@.take(k as int)),
    {
        let (tile, attack, defense) = reads.grows[k];
        list.push(Event::EffectStat { tile, attack, defense, form: 0 });
        assert(reads.grows@.take(k + 1) == reads.grows@.take(k as int).push(reads.grows@[k as int]));
    }
    assert(reads.grows@.take(g as int) == reads.grows@);
    proof {
        lemma_pages_on_board(*sim, *canon, catalog@, seat, sim.board@.len() as int);
    }
    let mut erosions = page_events(sim, seat, &reads.pages);
    list.append(&mut erosions);
    push_all(sim, evs, list);
    reads
}

proof fn lemma_pages_of_tile(tile: u8, effs: Seq<FlowEffect>, n: int)
    ensures
        forall|k: int| 0 <= k < pages_of(tile, effs, n).len() ==> #[trigger] pages_of(tile, effs, n)[k] == tile,
    decreases n,
{
    if n > 0 {
        lemma_pages_of_tile(tile, effs, n - 1);
        let prev = pages_of(tile, effs, n - 1);
        assert forall|k: int| 0 <= k < pages_of(tile, effs, n).len() implies #[trigger] pages_of(tile, effs, n)[k] == tile by {
            if k < prev.len() {
                assert(pages_of(tile, effs, n)[k] == prev[k]);
            }
        }
    }
}

proof fn lemma_pages_on_board(sim: GameState, canon: Canon, catalog: Seq<CardDef>, seat: Seat, n: int)
    requires
        sim.wf(),
        0 <= n <= sim.board@.len(),
    ensures
        forall|k: int| 0 <= k < flow_pages(sim, canon, catalog, seat, n).len()
            ==> (#[trigger] flow_pages(sim, canon, catalog, seat, n)[k] as int) < sim.board@.len(),
    decreases n,
{
    lemma_wf_small(sim);
    if n > 0 {
        lemma_pages_on_board(sim, canon, catalog, seat, n - 1);
        let effs = spirit_effects(sim, canon, catalog, n - 1);
        lemma_pages_of_tile((n - 1) as u8, effs, effs.len() as int);
        let prev = flow_pages(sim, canon, catalog, seat, n - 1);
        let here = pages_tile(sim, canon, catalog, seat, n - 1);
        assert forall|k: int| 0 <= k < flow_pages(sim, canon, catalog, seat, n).len()
            implies (#[trigger] flow_pages(sim, canon, catalog, seat, n)[k] as int) < sim.board@.len() by {
            if k >= prev.len() {
                assert(flow_pages(sim, canon, catalog, seat, n)[k] == here[k - prev.len()]);
            } else {
                assert(flow_pages(sim, canon, catalog, seat, n)[k] == prev[k]);
            }
        }
    }
}

/// How many attuned draws land: each needs a card in the seat's first deck, which the
/// draws deplete only when they land on that player.
pub open spec fn drawn_count(sim: GameState, seat: Seat, draws: u64) -> int {
    let deck = sim.spec_player(seat).deck@.len() as int;
    if crate::events::slot_for(sim, seat) == crate::events::first_slot(seat) {
        min_int(draws as int, deck)
    } else if deck > 0 {
        draws as int
    } else {
        0
    }
}

/// What the Flow grants once its Glimpses are open: the attuned draws, the Anima tithe
/// (when it comes out positive) and the heals, in that order.
pub open spec fn gift_events(sim: GameState, seat: Seat, anima: i16, heals: Seq<(u8, i16)>, draws: u64) -> Seq<Event> {
    Seq::new(drawn_count(sim, seat, draws) as nat, |k: int| Event::CardDrawn { seat })
        + (if anima > 0 {
        seq![Event::AnimaGained { seat, amount: anima as u8, reason: crate::events::AnimaReason::Effect }]
    } else {
        Seq::empty()
    }) + heals.map_values(|h: (u8, i16)| Event::EffectRestored { tile: h.0, amount: h.1 })
}

/// The rest of the seat's Flow: the draws, Anima and heals read by `fire_at_flow`.
pub fn fire_at_flow_gifts(sim: &mut GameState, evs: &mut Vec<Event>, reads: &FlowReads, seat: Seat)
    requires
        applicable(*old(sim), gift_events(*old(sim), seat, reads.anima, reads.heals@, reads.draws)),
    ensures
        final(evs)@ == old(evs)@ + gift_events(*old(sim), seat, reads.anima, reads.heals@, reads.draws),
        applies(*old(sim), gift_events(*old(sim), seat, reads.anima, reads.heals@, reads.draws), *final(sim)),
{
    let deck = sim.player(seat).deck.len() as u64;
    let first = crate::evolve::slot_for_exec(sim, seat) == crate::evolve::first_slot_exec(seat);
    let count: u64 = if first {
        if reads.draws < deck { reads.draws } else { deck }
    } else if deck > 0 {
        reads.draws
    } else {
        0
    };
    let ghost all = gift_events(*sim, seat, reads.anima, reads.heals@, reads.draws);
    let mut list: Vec<Event> = Vec::new();
    let mut k: u64 = 0;
    while k < count
        invariant
            k <= count,
            count as int == drawn_count(*sim, seat, reads.draws),
            list@ == Seq::new(k as nat, |j: int| Event::CardDrawn { seat }),
        decreases count - k,
    {
        list.push(Event::CardDrawn { seat });
        k = k + 1;
        assert(list@ == Seq::new(k as nat, |j: int| Event::CardDrawn { seat }));
    }
    if reads.anima > 0 {
        list.push(Event::AnimaGained { seat, amount: reads.anima as u8, reason: crate::events::AnimaReason::Effect });
    }
    let ghost head = list@;
    let h = reads.heals.len();
    for i in 0..h
        invariant
            h == reads.heals@.len(),
            list@ == head + reads.heals@.take(i as int).map_values(|x: (u8, i16)| Event::EffectRestored { tile: x.0, amount: x.1 }),
    {
        let (tile, amount) = reads.heals[i];
        list.push(Event::EffectRestored { tile, amount });
        assert(reads.heals@.take(i + 1) == reads.heals@.take(i as int).push(reads.heals@[i as int]));
        assert(list@ == head + reads.heals@.take(i + 1).map_values(|x: (u8, i16)| Event::EffectRestored { tile: x.0, amount: x.1 }));
    }
    assert(reads.heals@.take(h as int) == reads.heals@);
    assert(list@ == all);
    push_all(sim, evs, list);
}

} // verus!
