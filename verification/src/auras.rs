//! Standing-aura reads: which authored Static clauses a card carries, and the board-level
//! aura queries built on them (exceptions in force, push immunity, cost and bond auras,
//! keyword grants, silences).
use vstd::prelude::*;

use crate::cards::{catalog_has, key_of, spec_key_of};
use crate::effects::{
    spec_specs_for, spec_specs_get, specs_for, Canon, Clause, Effect, EffectSpec, Keyword,
    Restriction, RuleException, Selector, Trigger,
};
use crate::conditions::{manhattan, spec_manhattan};
use crate::state::{GameState, TerrainKind};
use crate::types::{adjacent4_w, spec_adjacent_w, CardDef, CardId, Seat};

verus! {

/// Where a keyword grant is authored from.
#[derive(Debug, Clone, Copy, PartialEq, Eq, Structural)]
pub enum GrantSource {
    /// A Bond's pair aura.
    BondedPair,
    /// A Landmark's occupant aura.
    OccupantHere,
    /// A standing spirit's adjacent-ally aura.
    AdjacentAlliesAll,
}

/// A shape of Static clause an aura query looks for.
#[derive(Debug, Clone, Copy)]
pub enum ClauseTest {
    /// An `Exception(which)` clause, whatever its selector.
    AnyException(RuleException),
    /// A `SelfSpirit` restriction.
    SelfRestrict(Restriction),
    /// An `AlliesAll` restriction.
    AlliesRestrict(Restriction),
    /// An `OccupantHere` restriction.
    OccupantRestrict(Restriction),
    /// An `OccupantHere` exception.
    OccupantException(RuleException),
    /// A `RevealFabrication` clause, whatever its selector.
    AnyRevealFabrication,
    /// A keyword grant from the given source.
    Grant(GrantSource, Keyword),
    /// An `AdjacentEnemiesAll` trait silence.
    AdjacentEnemyTraitSilence,
    /// A `BondedPair` immediate counter-engage grant.
    PairCounterEngage,
    /// A `BondedPair / StatShareHigher` sharing the higher Defense (`defense`) or Attack.
    PairShareHigher { defense: bool },
}

pub open spec fn source_selector(g: GrantSource, s: Selector) -> bool {
    match g {
        GrantSource::BondedPair => s is BondedPair,
        GrantSource::OccupantHere => s is OccupantHere,
        GrantSource::AdjacentAlliesAll => s is AdjacentAlliesAll,
    }
}

/// Whether a clause has the shape `t` looks for.
pub open spec fn clause_passes(t: ClauseTest, c: Clause) -> bool {
    match t {
        ClauseTest::AnyException(x) => c.effect == Effect::Exception(x),
        ClauseTest::SelfRestrict(r) => c.selector is SelfSpirit && c.effect == Effect::Restrict(r),
        ClauseTest::AlliesRestrict(r) => c.selector is AlliesAll && c.effect == Effect::Restrict(r),
        ClauseTest::OccupantRestrict(r) => c.selector is OccupantHere && c.effect == Effect::Restrict(r),
        ClauseTest::OccupantException(x) => c.selector is OccupantHere && c.effect == Effect::Exception(x),
        ClauseTest::AnyRevealFabrication => c.effect is RevealFabrication,
        ClauseTest::Grant(g, k) => source_selector(g, c.selector) && c.effect == Effect::GrantKeyword { keyword: k },
        ClauseTest::AdjacentEnemyTraitSilence => c.selector is AdjacentEnemiesAll && c.effect is TraitSilence,
        ClauseTest::PairCounterEngage => c.selector is BondedPair && (c.effect matches Effect::GrantEngage { immediate, .. } && immediate),
        ClauseTest::PairShareHigher { defense } => c.selector is BondedPair
            && (c.effect matches Effect::StatShareHigher { attack: a, defense: d } && (if defense { d } else { a })),
    }
}

fn selector_from(g: GrantSource, s: &Selector) -> (r: bool)
    ensures
        r == source_selector(g, *s),
{
    match g {
        GrantSource::BondedPair => matches!(s, Selector::BondedPair),
        GrantSource::OccupantHere => matches!(s, Selector::OccupantHere),
        GrantSource::AdjacentAlliesAll => matches!(s, Selector::AdjacentAlliesAll),
    }
}

/// Whether a clause has the shape `t` looks for.
pub fn clause_passes_test(t: ClauseTest, c: &Clause) -> (r: bool)
    ensures
        r == clause_passes(t, *c),
{
    match t {
        ClauseTest::AnyException(x) => match &c.effect {
            Effect::Exception(y) => *y == x,
            _ => false,
        },
        ClauseTest::SelfRestrict(r) => matches!(c.selector, Selector::SelfSpirit) && match &c.effect {
            Effect::Restrict(y) => *y == r,
            _ => false,
        },
        ClauseTest::AlliesRestrict(r) => matches!(c.selector, Selector::AlliesAll) && match &c.effect {
            Effect::Restrict(y) => *y == r,
            _ => false,
        },
        ClauseTest::OccupantRestrict(r) => matches!(c.selector, Selector::OccupantHere) && match &c.effect {
            Effect::Restrict(y) => *y == r,
            _ => false,
        },
        ClauseTest::OccupantException(x) => matches!(c.selector, Selector::OccupantHere) && match &c.effect {
            Effect::Exception(y) => *y == x,
            _ => false,
        },
        ClauseTest::AnyRevealFabrication => matches!(c.effect, Effect::RevealFabrication),
        ClauseTest::Grant(g, k) => selector_from(g, &c.selector) && match &c.effect {
            Effect::GrantKeyword { keyword } => *keyword == k,
            _ => false,
        },
        ClauseTest::AdjacentEnemyTraitSilence => matches!(c.selector, Selector::AdjacentEnemiesAll)
            && matches!(c.effect, Effect::TraitSilence),
        ClauseTest::PairCounterEngage => matches!(c.selector, Selector::BondedPair)
            && matches!(c.effect, Effect::GrantEngage { immediate: true, .. }),
        ClauseTest::PairShareHigher { defense } => matches!(c.selector, Selector::BondedPair) && match &c.effect {
            Effect::StatShareHigher { attack: a, defense: d } => if defense { *d } else { *a },
            _ => false,
        },
    }
}

/// Some Static spec of `specs` carries a clause of shape `t`.
pub open spec fn spec_static_has(specs: Seq<EffectSpec>, t: ClauseTest) -> bool {
    exists|i: int, j: int| 0 <= i < specs.len() && specs[i].trigger is Static
        && 0 <= j < specs[i].clauses@.len() && #[trigger] clause_passes(t, specs[i].clauses@[j])
}

/// Whether some Static spec of `specs` carries a clause of shape `t`.
pub fn static_has(specs: &[EffectSpec], t: ClauseTest) -> (r: bool)
    ensures
        r == spec_static_has(specs@, t),
{
    let n = specs.len();
    for i in 0..n
        invariant
            n == specs@.len(),
            forall|a: int, b: int| 0 <= a < i && specs@[a].trigger is Static && 0 <= b < specs@[a].clauses@.len()
                ==> !#[trigger] clause_passes(t, specs@[a].clauses@[b]),
    {
        let s = &specs[i];
        if matches!(s.trigger, Trigger::Static) {
            let m = s.clauses.len();
            for j in 0..m
                invariant
                    n == specs@.len(),
                    0 <= i < n,
                    specs@[i as int].trigger is Static,
                    m == specs@[i as int].clauses@.len(),
                    *s == specs@[i as int],
                    forall|b: int| 0 <= b < j ==> !#[trigger] clause_passes(t, specs@[i as int].clauses@[b]),
            {
                if clause_passes_test(t, &s.clauses[j]) {
                    assert(clause_passes(t, specs@[i as int].clauses@[j as int]));
                    return true;
                }
            }
        }
    }
    false
}

/// The card `id` of `catalog` carries a Static clause of shape `t`.
pub open spec fn spec_card_static_has(canon: Canon, catalog: Seq<CardDef>, id: CardId, t: ClauseTest) -> bool {
    match spec_specs_for(canon, catalog, id) {
        Some(specs) => spec_static_has(specs, t),
        None => false,
    }
}

/// Whether the card `id` carries a Static clause of shape `t`.
pub fn card_static_has(canon: &Canon, catalog: &[CardDef], id: CardId, t: ClauseTest) -> (r: bool)
    ensures
        r == spec_card_static_has(*canon, catalog@, id, t),
{
    match specs_for(canon, catalog, id) {
        Some(specs) => static_has(specs, t),
        None => false,
    }
}

/// A card carries a Static `Exception(which)` clause.
pub fn card_carries_static_exception(canon: &Canon, catalog: &[CardDef], card_id: CardId, which: RuleException) -> (r: bool)
    ensures
        r == spec_card_static_has(*canon, catalog@, card_id, ClauseTest::AnyException(which)),
{
    card_static_has(canon, catalog, card_id, ClauseTest::AnyException(which))
}

/// The card named `name` carries a Static `Exception(which)` clause — the catalog-free
/// path (by canon name) the forecast uses.
pub open spec fn spec_name_carries_static_exception(canon: Canon, name: Seq<char>, which: RuleException) -> bool {
    match spec_specs_get(canon.effects, spec_key_of(canon.catalog@, name)) {
        Some(specs) => spec_static_has(specs, ClauseTest::AnyException(which)),
        None => false,
    }
}

/// Whether the card with this canon name has a Static `Exception(which)` clause.
pub fn name_carries_static_exception(canon: &Canon, name: &str, which: RuleException) -> (r: bool)
    ensures
        r == spec_name_carries_static_exception(*canon, name@, which),
{
    let key = key_of(canon.catalog.as_slice(), name);
    match canon.effects.get(&key) {
        Some(specs) => static_has(specs.as_slice(), ClauseTest::AnyException(which)),
        None => false,
    }
}

/// A spirit whose Static aura carries `SelfSpirit / Restrict(BeTargetedByRituals)` cannot be
/// chosen as a Ritual's (or any free-target effect's) target.
pub fn ritual_untargetable(canon: &Canon, catalog: &[CardDef], card_id: CardId) -> (r: bool)
    ensures
        r == spec_card_static_has(*canon, catalog@, card_id, ClauseTest::SelfRestrict(Restriction::BeTargetedByRituals)),
{
    card_static_has(canon, catalog, card_id, ClauseTest::SelfRestrict(Restriction::BeTargetedByRituals))
}

/// The board facts every aura scan relies on: a well-formed board.
pub open spec fn scan_ok(sim: GameState) -> bool {
    sim.wf() && sim.board@.len() <= 64
}

pub proof fn lemma_wf_small(sim: GameState)
    requires
        sim.wf(),
    ensures
        sim.board@.len() <= 64,
{
    assert(sim.board_w * sim.board_w <= 64) by (nonlinear_arith)
        requires
            2 <= sim.board_w <= 8,
    ;
}

/// Tile `i` carries a standing carrier of `test` for `seat`: a face-up, non-fading own
/// spirit, or face-up owned terrain not silenced this round.
pub open spec fn exception_carrier_at(sim: GameState, canon: Canon, catalog: Seq<CardDef>, seat: Seat, test: ClauseTest, i: int) -> bool {
    let t = sim.board@[i];
    (t.spirit matches Some(sp) && sp.owner == seat && !sp.fading && !sp.face_down
        && spec_card_static_has(canon, catalog, sp.card, test))
    || (sim.silenced_terrain != Some((i as u8, sim.round)) && (t.terrain matches Some(tr)
        && tr.owner == seat && !tr.face_down && spec_card_static_has(canon, catalog, tr.card, test)))
}

/// A RuleException is active for `seat`: one of its standing (non-fading, face-up)
/// spirits, or its face-up terrain not silenced this round, carries it as a Static clause.
pub open spec fn spec_exception_active(sim: GameState, canon: Canon, catalog: Seq<CardDef>, seat: Seat, which: RuleException) -> bool {
    exists|i: int| 0 <= i < sim.board@.len()
        && #[trigger] exception_carrier_at(sim, canon, catalog, seat, ClauseTest::AnyException(which), i)
}

/// Is a given RuleException active for `seat`? The single chokepoint every rule that can be
/// excepted consults.
pub fn exception_active(sim: &GameState, canon: &Canon, catalog: &[CardDef], seat: Seat, which: RuleException) -> (r: bool)
    requires
        sim.wf(),
    ensures
        r == spec_exception_active(*sim, *canon, catalog@, seat, which),
{
    proof {
        lemma_wf_small(*sim);
    }
    let test = ClauseTest::AnyException(which);
    let n = sim.board.len();
    for i in 0..n
        invariant
            n == sim.board@.len() <= 64,
            test == ClauseTest::AnyException(which),
            forall|j: int| 0 <= j < i ==> !#[trigger] exception_carrier_at(*sim, *canon, catalog@, seat, test, j),
    {
        let t = &sim.board[i];
        let spirit_hit = match &t.spirit {
            Some(sp) => sp.owner == seat && !sp.fading && !sp.face_down && card_static_has(canon, catalog, sp.card, test),
            None => false,
        };
        let silenced = match sim.silenced_terrain {
            Some((st, sr)) => st == i as u8 && sr == sim.round,
            None => false,
        };
        let terrain_hit = !silenced && match &t.terrain {
            Some(tr) => tr.owner == seat && !tr.face_down && card_static_has(canon, catalog, tr.card, test),
            None => false,
        };
        if spirit_hit || terrain_hit {
            assert(exception_carrier_at(*sim, *canon, catalog@, seat, test, i as int));
            return true;
        }
    }
    false
}

/// Tile `i` holds a face-up, standing spirit of `seat` carrying a clause of shape `test`.
pub open spec fn standing_carrier_at(sim: GameState, canon: Canon, catalog: Seq<CardDef>, seat: Seat, test: ClauseTest, i: int) -> bool {
    sim.board@[i].spirit matches Some(sp) && sp.owner == seat && !sp.fading && !sp.face_down
        && spec_card_static_has(canon, catalog, sp.card, test)
}

/// `seat` controls a standing spirit whose Static aura makes its allies unpushable
/// (`AlliesAll / Restrict(BePushed)`).
pub open spec fn spec_seat_grants_push_immunity(sim: GameState, canon: Canon, catalog: Seq<CardDef>, seat: Seat) -> bool {
    exists|i: int| 0 <= i < sim.board@.len()
        && #[trigger] standing_carrier_at(sim, canon, catalog, seat, ClauseTest::AlliesRestrict(Restriction::BePushed), i)
}

/// Does `seat` control a standing spirit whose Static aura makes its allies unpushable?
pub fn seat_grants_push_immunity(sim: &GameState, canon: &Canon, catalog: &[CardDef], seat: Seat) -> (r: bool)
    ensures
        r == spec_seat_grants_push_immunity(*sim, *canon, catalog@, seat),
{
    let test = ClauseTest::AlliesRestrict(Restriction::BePushed);
    let n = sim.board.len();
    for i in 0..n
        invariant
            n == sim.board@.len(),
            test == ClauseTest::AlliesRestrict(Restriction::BePushed),
            forall|j: int| 0 <= j < i ==> !#[trigger] standing_carrier_at(*sim, *canon, catalog@, seat, test, j),
    {
        match &sim.board[i].spirit {
            Some(sp) => {
                if sp.owner == seat && !sp.fading && !sp.face_down && card_static_has(canon, catalog, sp.card, test) {
                    assert(standing_carrier_at(*sim, *canon, catalog@, seat, test, i as int));
                    return true;
                }
            },
            None => {},
        }
    }
    false
}

/// Tile `i`, one step from `tile`, holds a face-up Landmark of `seat` whose Static aura
/// reveals Fabrications.
pub open spec fn beacon_at(st: GameState, canon: Canon, catalog: Seq<CardDef>, seat: Seat, tile: u8, i: int) -> bool {
    spec_manhattan(tile, i as u8) == 1 && (st.board@[i].terrain matches Some(tr) && !tr.face_down
        && tr.owner == seat && tr.kind == TerrainKind::Landmark
        && spec_card_static_has(canon, catalog, tr.card, ClauseTest::AnyRevealFabrication))
}

/// Beacon: `seat` controls a face-up Landmark carrying a Static `RevealFabrication` one step
/// from `tile`.
pub open spec fn spec_beacon_reveals_fab(st: GameState, canon: Canon, catalog: Seq<CardDef>, seat: Seat, tile: u8) -> bool {
    exists|i: int| 0 <= i < st.board@.len() && #[trigger] beacon_at(st, canon, catalog, seat, tile, i)
}

/// Beacon: does `seat` control a face-up Landmark carrying Static RevealFabrication adjacent
/// to `tile`? Such a landmark reveals adjacent enemy Fabrications to its owner.
pub fn beacon_reveals_fab(st: &GameState, canon: &Canon, catalog: &[CardDef], seat: Seat, tile: u8) -> (r: bool)
    requires
        st.wf(),
    ensures
        r == spec_beacon_reveals_fab(*st, *canon, catalog@, seat, tile),
{
    proof {
        lemma_wf_small(*st);
    }
    let n = st.board.len();
    for i in 0..n
        invariant
            n == st.board@.len() <= 64,
            forall|j: int| 0 <= j < i ==> !#[trigger] beacon_at(*st, *canon, catalog@, seat, tile, j),
    {
        if manhattan(tile, i as u8) == 1 {
            match &st.board[i].terrain {
                Some(tr) => {
                    if !tr.face_down && tr.owner == seat && tr.kind == TerrainKind::Landmark
                        && card_static_has(canon, catalog, tr.card, ClauseTest::AnyRevealFabrication) {
                        assert(beacon_at(*st, *canon, catalog@, seat, tile, i as int));
                        return true;
                    }
                },
                None => {},
            }
        }
    }
    false
}

/// Tile `i` holds a face-up Landmark of `owner` carrying `FadingFuelIgnoresImprint`, with a
/// fading spirit of `owner` resting on it.
pub open spec fn shrine_at(st: GameState, canon: Canon, catalog: Seq<CardDef>, owner: Seat, i: int) -> bool {
    let t = st.board@[i];
    (t.terrain matches Some(tr) && !tr.face_down && tr.owner == owner
        && spec_card_static_has(canon, catalog, tr.card, ClauseTest::AnyException(RuleException::FadingFuelIgnoresImprint)))
    && (t.spirit matches Some(sp) && sp.owner == owner && sp.fading)
}

/// Shrine of the Nameless: the owner controls such a Landmark with a fading owned spirit on
/// it — that lingering memory fuels imprint-free evolution.
pub open spec fn spec_shrine_fading_fuel(st: GameState, canon: Canon, catalog: Seq<CardDef>, owner: Seat) -> bool {
    exists|i: int| 0 <= i < st.board@.len() && #[trigger] shrine_at(st, canon, catalog, owner, i)
}

/// Shrine of the Nameless: a face-up owned Landmark carrying FadingFuelIgnoresImprint whose
/// tile holds a fading owned spirit.
pub fn shrine_fading_fuel(st: &GameState, canon: &Canon, catalog: &[CardDef], owner: Seat) -> (r: bool)
    ensures
        r == spec_shrine_fading_fuel(*st, *canon, catalog@, owner),
{
    let n = st.board.len();
    for i in 0..n
        invariant
            n == st.board@.len(),
            forall|j: int| 0 <= j < i ==> !#[trigger] shrine_at(*st, *canon, catalog@, owner, j),
    {
        let t = &st.board[i];
        let terr_ok = match &t.terrain {
            Some(tr) => !tr.face_down && tr.owner == owner
                && card_carries_static_exception(canon, catalog, tr.card, RuleException::FadingFuelIgnoresImprint),
            None => false,
        };
        let fading_here = match &t.spirit {
            Some(sp) => sp.owner == owner && sp.fading,
            None => false,
        };
        if terr_ok && fading_here {
            assert(shrine_at(*st, *canon, catalog@, owner, i as int));
            return true;
        }
    }
    false
}

/// Tile `a`, orthogonally adjacent to `tile` on the board, holds a standing spirit carrying
/// `test` — and, when `foe_of` names a seat, it is that seat's enemy.
pub open spec fn adjacent_carrier_at(sim: GameState, canon: Canon, catalog: Seq<CardDef>, tile: u8, test: ClauseTest, foe_of: Option<Seat>, a: int) -> bool {
    spec_adjacent_w(tile, a as u8, sim.board_w) && (sim.board@[a].spirit matches Some(sp) && !sp.fading
        && (foe_of matches Some(o) ==> sp.owner != o)
        && spec_card_static_has(canon, catalog, sp.card, test))
}

pub open spec fn spec_adjacent_carrier(sim: GameState, canon: Canon, catalog: Seq<CardDef>, tile: u8, test: ClauseTest, foe_of: Option<Seat>) -> bool {
    exists|a: int| 0 <= a < sim.board@.len() && #[trigger] adjacent_carrier_at(sim, canon, catalog, tile, test, foe_of, a)
}

/// Whether a standing spirit orthogonally adjacent to `tile` carries `test` (an enemy of
/// `foe_of`, when given).
fn adjacent_carrier(sim: &GameState, canon: &Canon, catalog: &[CardDef], tile: u8, test: ClauseTest, foe_of: Option<Seat>) -> (r: bool)
    requires
        sim.wf(),
        (tile as int) < sim.board@.len(),
    ensures
        r == spec_adjacent_carrier(*sim, *canon, catalog@, tile, test, foe_of),
{
    proof {
        lemma_wf_small(*sim);
    }
    let adj = adjacent4_w(tile, sim.board_w);
    let m = adj.len();
    for k in 0..m
        invariant
            m == adj@.len(),
            sim.wf(),
            sim.board@.len() <= 64,
            forall|t: u8| adj@.contains(t) <==> spec_adjacent_w(tile, t, sim.board_w),
            forall|i: int| 0 <= i < adj@.len() ==> (#[trigger] adj@[i] as int) < sim.board_w * sim.board_w,
            forall|j: int| 0 <= j < k ==> !#[trigger] adjacent_carrier_at(*sim, *canon, catalog@, tile, test, foe_of, adj@[j] as int),
    {
        let a = adj[k];
        assert(adj@.contains(a));
        match &sim.board[a as usize].spirit {
            Some(sp) => {
                let side_ok = match foe_of {
                    Some(o) => sp.owner != o,
                    None => true,
                };
                if !sp.fading && side_ok && card_static_has(canon, catalog, sp.card, test) {
                    assert(adjacent_carrier_at(*sim, *canon, catalog@, tile, test, foe_of, a as int));
                    return true;
                }
            },
            None => {},
        }
    }
    assert forall|a: int| 0 <= a < sim.board@.len() implies !#[trigger] adjacent_carrier_at(*sim, *canon, catalog@, tile, test, foe_of, a) by {
        if adjacent_carrier_at(*sim, *canon, catalog@, tile, test, foe_of, a) {
            assert(adj@.contains(a as u8));
            let j = choose|j: int| 0 <= j < adj@.len() && adj@[j] == a as u8;
            assert(!adjacent_carrier_at(*sim, *canon, catalog@, tile, test, foe_of, adj@[j] as int));
        }
    }
    false
}

/// The Smudge / Null Choir: the spirit on `tile` stands beside an enemy whose Static aura
/// carries `AdjacentEnemiesAll / TraitSilence`.
pub open spec fn spec_trait_silenced(sim: GameState, canon: Canon, catalog: Seq<CardDef>, tile: u8) -> bool {
    match sim.spec_spirit_at(tile) {
        Some(me) => spec_adjacent_carrier(sim, canon, catalog, tile, ClauseTest::AdjacentEnemyTraitSilence, Some(me.owner)),
        None => false,
    }
}

/// Whether the spirit on `tile` is adjacent to an enemy trait-silence aura — its trait-borne
/// combat value is blurred to nothing.
pub fn trait_silenced(sim: &GameState, canon: &Canon, catalog: &[CardDef], tile: u8) -> (r: bool)
    requires
        sim.wf(),
    ensures
        r == spec_trait_silenced(*sim, *canon, catalog@, tile),
{
    match sim.spirit_at(tile) {
        Some(me) => adjacent_carrier(sim, canon, catalog, tile, ClauseTest::AdjacentEnemyTraitSilence, Some(me.owner)),
        None => false,
    }
}

/// The Lullaby: the spirit on `tile` stands beside an enemy carrying
/// `SuppressesAdjacentEnemyEcho` — too calm to Echo.
pub open spec fn spec_echo_suppressed(sim: GameState, canon: Canon, catalog: Seq<CardDef>, tile: u8) -> bool {
    match sim.spec_spirit_at(tile) {
        Some(me) => spec_adjacent_carrier(sim, canon, catalog, tile,
            ClauseTest::AnyException(RuleException::SuppressesAdjacentEnemyEcho), Some(me.owner)),
        None => false,
    }
}

/// Whether the spirit on `tile` is adjacent to an enemy Lullaby.
pub fn echo_suppressed(sim: &GameState, canon: &Canon, catalog: &[CardDef], tile: u8) -> (r: bool)
    requires
        sim.wf(),
    ensures
        r == spec_echo_suppressed(*sim, *canon, catalog@, tile),
{
    match sim.spirit_at(tile) {
        Some(me) => adjacent_carrier(sim, canon, catalog, tile,
            ClauseTest::AnyException(RuleException::SuppressesAdjacentEnemyEcho), Some(me.owner)),
        None => false,
    }
}

/// Hush: a standing spirit adjacent to `tile` carries `SuppressesAdjacentParting`.
pub fn hush_suppresses_parting(sim: &GameState, canon: &Canon, catalog: &[CardDef], tile: u8) -> (r: bool)
    requires
        sim.wf(),
        (tile as int) < sim.board@.len(),
    ensures
        r == spec_adjacent_carrier(*sim, *canon, catalog@, tile,
            ClauseTest::AnyException(RuleException::SuppressesAdjacentParting), None),
{
    adjacent_carrier(sim, canon, catalog, tile, ClauseTest::AnyException(RuleException::SuppressesAdjacentParting), None)
}

/// The Long Rest: a standing spirit adjacent to `tile` carries
/// `NoImpressionOnAdjacentDissolve` — a spirit dissolving here leaves no impression.
pub fn adjacent_denies_impression(sim: &GameState, canon: &Canon, catalog: &[CardDef], tile: u8) -> (r: bool)
    requires
        sim.wf(),
        (tile as int) < sim.board@.len(),
    ensures
        r == spec_adjacent_carrier(*sim, *canon, catalog@, tile,
            ClauseTest::AnyException(RuleException::NoImpressionOnAdjacentDissolve), None),
{
    adjacent_carrier(sim, canon, catalog, tile, ClauseTest::AnyException(RuleException::NoImpressionOnAdjacentDissolve), None)
}

/// The face-up terrain on `tile` (owned by `seat`, when given) carries a clause of shape
/// `test`.
pub open spec fn spec_terrain_carries(sim: GameState, canon: Canon, catalog: Seq<CardDef>, tile: u8, seat: Option<Seat>, test: ClauseTest) -> bool {
    sim.board@[tile as int].terrain matches Some(terr) && !terr.face_down
        && (seat matches Some(s) ==> terr.owner == s)
        && spec_card_static_has(canon, catalog, terr.card, test)
}

/// The Threshold: does the face-up terrain on `tile` grant its occupant restriction `r`
/// (a Static `OccupantHere / Restrict(r)`)?
pub fn occupant_restricted(sim: &GameState, canon: &Canon, catalog: &[CardDef], tile: u8, r: Restriction) -> (b: bool)
    requires
        (tile as int) < sim.board@.len(),
    ensures
        b == spec_terrain_carries(*sim, *canon, catalog@, tile, None, ClauseTest::OccupantRestrict(r)),
{
    match &sim.board[tile as usize].terrain {
        Some(terr) => !terr.face_down && card_static_has(canon, catalog, terr.card, ClauseTest::OccupantRestrict(r)),
        None => false,
    }
}

/// Common Ground: does the face-up terrain on `tile`, owned by `seat`, declare the positional
/// exception `which` (a Static `OccupantHere / Exception(which)`)?
pub fn tile_terrain_exception(sim: &GameState, canon: &Canon, catalog: &[CardDef], tile: u8, seat: Seat, which: RuleException) -> (b: bool)
    requires
        (tile as int) < sim.board@.len(),
    ensures
        b == spec_terrain_carries(*sim, *canon, catalog@, tile, Some(seat), ClauseTest::OccupantException(which)),
{
    match &sim.board[tile as usize].terrain {
        Some(terr) => !terr.face_down && terr.owner == seat
            && card_static_has(canon, catalog, terr.card, ClauseTest::OccupantException(which)),
        None => false,
    }
}

} // verus!
