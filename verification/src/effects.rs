//! The effect IR. Data only: these types describe what cards DO — the authored effects
//! table maps every canon card onto them, and the rules core interprets them (no per-card
//! branches).
//!
//! Shape: an [`EffectSpec`] binds a [`Trigger`] (when), a [`Condition`] (gate), and a list
//! of [`Clause`]s — each clause aims an [`Effect`] (what) at a [`Selector`] (whom) for a
//! [`Duration`] (how long).
use vstd::prelude::*;

use crate::cards::{lookup_card, key_of, spec_card_index, spec_key_of};
use crate::types::{CardDef, CardId, Resonance};

verus! {

/// When an effect fires. `Static` effects don't fire — they hold while the source is
/// present (auras), gated by their [`Condition`].
#[derive(Debug, Clone, Copy, PartialEq, Eq, Structural)]
pub enum Trigger {
    /// Resolves on arrival (spirit enters) or on cast (Ritual / Unwriting).
    OnPlay,
    /// The source leaves the board — banished, Faded, or released.
    Parting,
    /// After the source's engage resolves (both strikes settled).
    OnEngageResolved,
    /// The source (or its bonded pair) defeats an enemy.
    OnDefeat,
    /// Any spirit fully dissolves, anywhere.
    OnAnyBanish,
    /// Unwritten only: the source Unwrites something.
    OnUnwrite,
    /// The source moves.
    OnMove,
    /// At the owner's Flow (economy step).
    AtFlow,
    /// A face-down Fabrication is revealed by an engager (Traps).
    OnReveal,
    /// No firing moment: holds while present (aura), per [`Condition`].
    Static,
    /// An ally begins Fading.
    OnAllyFading,
    /// You play a Bond.
    OnYouPlayBond,
    /// Attune's condition becomes true.
    OnAttuned,
    /// A Foundling is befriended.
    OnBefriend,
    /// One of the owner's Throughlines completes.
    OnThroughlineComplete,
    /// Any Fabrication is revealed anywhere.
    OnFabricationRevealed,
    /// This spirit defeats a Warded enemy.
    OnDefeatWarded,
    /// An allied spirit Parts within this spirit's Reach.
    OnAllyPartsInReach,
}

/// Gates on a spec or clause. `Always` for unconditional.
#[derive(Debug, Clone, Copy, PartialEq, Eq, Structural)]
pub enum Condition {
    Always,
    WhileDamaged,
    /// Attune: adjacent to `n`+ allies sharing a Resonance.
    AdjacentAlliesShareResonance { n: u8 },
    /// Bond clauses that require the pair adjacent.
    PairAdjacent,
    /// Target/engager cost gate.
    CostAtMost { cost: u8 },
    /// Fires at most once per match.
    OncePerMatch,
    /// Fires at most once per round.
    OncePerRound,
    /// May-pay gates (pay `amount` HP to …).
    PayForm { amount: i16 },
    /// While undamaged.
    WhileUndamaged,
    /// While adjacent to at least one ally.
    WhileAdjacentToAlly,
    /// The source still lurks face-down.
    WhileFaceDown,
    /// Bonus clause if you control a Bond.
    YouControlABond,
}

/// Whom a clause touches.
#[derive(Debug, Clone, PartialEq, Eq)]
pub enum Selector {
    SelfSpirit,
    Owner,
    BothNarrators,
    /// The spirit that engaged the source.
    Engager,
    /// The enemy the source engaged.
    EngagedEnemy,
    /// Either surviving party of the source's engage.
    Survivor,
    /// Owner picks one adjacent ally.
    AdjacentAllyChoose,
    /// Owner picks one adjacent enemy.
    AdjacentEnemyChoose,
    AdjacentAlliesAll,
    AdjacentEnemiesAll,
    AllOtherSpirits,
    AlliesAll,
    EnemiesAll,
    AlliesInReach,
    /// The other spirit of this Bond.
    BondedPartner,
    /// Spirits standing on this Landmark's tile.
    OccupantsHere,
    /// Enemies adjacent to any allied spirit of a Resonance.
    EnemiesAdjacentToAlliesOf { resonance: Resonance },
    /// Enemies within `tiles` of the source.
    EnemiesWithinTiles { tiles: u8 },
    /// Allied spirits carrying an Imprint.
    AlliesWithImprint { imprint: String },
    /// Bonds: the two spirits this Bond joins.
    BondedPair,
    /// Landmarks: the spirit standing on this terrain's tile.
    OccupantHere,
    /// Landmarks: occupant plus orthogonally adjacent allies.
    OccupantAndAdjacentAllies,
    /// Enemies while engaging the source's adjacent allies.
    EnemiesEngagingAdjacentAllies,
    /// Ritual targeting (caster chooses).
    TargetSpirit,
    TargetAllySpirit,
    TargetEnemySpirit,
    TargetTwoAdjacentAllies,
    TargetBondedPair,
    TargetFadingSpirit,
    /// Your next spirit to arrive this turn.
    NextArrivalThisTurn,
}

/// How long a clause's effect lasts.
#[derive(Debug, Clone, Copy, PartialEq, Eq, Structural)]
pub enum Duration {
    Instant,
    ThisRound,
    NextRound,
    /// While the source remains on the board (auras, Bonds, Landmarks).
    WhilePresent,
    Permanent,
}

/// Displacement family: who moves whom, how.
#[derive(Debug, Clone, Copy, PartialEq, Eq, Structural)]
pub enum Displacement {
    Push { tiles: u8 },
    Pull { tiles: u8 },
    /// Controller moves the target any direction.
    MoveAny { tiles: u8 },
    /// Swap two spirits' positions.
    Swap,
}

/// What an action may no longer do.
#[derive(Debug, Clone, Copy, PartialEq, Eq, Structural)]
pub enum Restriction {
    Engage,
    Move,
    BePushed,
    BeTargetedByRituals,
    GainImpressions,
}

/// Named rule exceptions: each variant is one card's (or one small family's) license to
/// bend a named rule.
#[derive(Debug, Clone, Copy, PartialEq, Eq, Structural)]
pub enum RuleException {
    /// Evolutions ignore the shared-Imprint rule this turn.
    EvolveIgnoresSharedImprint,
    /// Your Rituals affect one extra target.
    RitualsExtraTarget,
    /// Spirits you evolve arrive +10/+10.
    EvolveArrivesBuffed,
    /// ALL Imprints count as shared.
    AllImprintsShared,
    /// Each of the pair counts as having the other's Imprints.
    PairSharesImprints,
    /// The Bond persists unless separated by more than 1 tile.
    BondHoldsUnlessSeparated,
    /// Mobile spirits may move 2 from here.
    MobileMovesTwoFromHere,
    /// Parting reclaims full Cost instead of half.
    PartingReclaimsFullCost,
    /// A fading owned spirit resting on this Landmark frees evolutions from the
    /// shared-Imprint rule (positional).
    FadingFuelIgnoresImprint,
    /// Spirits that fully dissolve adjacent to it leave no impression.
    NoImpressionOnAdjacentDissolve,
    /// Cannot be intercepted on arrival.
    ImmuneToInterception,
    /// Cannot be banished by an attacker at Echo: the lethal blow leaves it at 1 HP.
    UnbanishableByEcho,
    /// The owner's Fade reclaim regains +1 Anima.
    FadeReclaimsExtraAnima,
    /// Its strikes ignore the defender's Warded.
    StrikesIgnoreWarded,
    /// A spirit adjacent to it cannot trigger its Parting.
    SuppressesAdjacentParting,
    /// Enemy spirits adjacent to it lose Echo eligibility.
    SuppressesAdjacentEnemyEcho,
    /// Parting effects trigger twice.
    PartingTriggersTwice,
    /// Your Glimpses look at one extra card.
    GlimpseLooksOneMore,
    /// Your Bonds cost 0.
    BondsCostZero,
    /// A Bond is free if either endpoint stands on this Landmark (positional).
    BondsFreeOnLandmark,
    /// Impressions on tiles orthogonally adjacent to it do not score (positional).
    AdjacentImpressionsDontScore,
}

/// What happens instead — the replacement-effect family.
#[derive(Debug, Clone, Copy, PartialEq, Eq, Structural)]
pub enum Replacement {
    /// The first time the source would be banished: survives at `form` HP.
    SurviveBanishAt { form: i16 },
    /// If the source would Fade/take lethal, the bonded partner takes it.
    PartnerTakesIt,
    /// A Fading spirit dissolves one Fade step later.
    DelayFadeOneStep,
}

/// The big-five keywords plus Lurk.
#[derive(Debug, Clone, Copy, PartialEq, Eq, Structural)]
pub enum Keyword {
    Arcane,
    Warded,
    Mobile,
    Steadfast,
    Relentless,
    Lurk,
}

/// The primitives every rules text resolves to.
#[derive(Debug, Clone, PartialEq, Eq)]
pub enum Effect {
    StatDelta { attack: i16, defense: i16, form: i16 },
    /// The pair shares the higher stat.
    StatShareHigher { attack: bool, defense: bool },
    /// Reach auras are targeting-only unless stated.
    ReachDelta { forward: i8, all_directions: bool, targeting_only: bool },
    AnimaDelta { amount: i8 },
    RestoreForm { amount: i16 },
    Damage { amount: i16 },
    /// Glimpse: look at `look`, take `take`, bottom the rest.
    PeekDeck { look: u8, take: u8 },
    Draw { count: u8 },
    Displace(Displacement),
    /// Return to its owner's hand.
    Bounce,
    /// From the banished, into your hand.
    Recover,
    CostDelta { delta: i8 },
    GrantKeyword { keyword: Keyword },
    /// Attune resolution: gains the shared Resonance.
    GrantSharedResonance,
    RetaliationDelta { amount: i16 },
    /// An out-of-turn engage or pre-chip.
    GrantEngage { immediate: bool, pre_chip: i16 },
    /// An additional engage this arrival.
    ExtraEngage,
    /// Momentum rule modifiers.
    MomentumMod {
        first_engage_bonus: bool,
        chain_while_defeating: bool,
        per_link_bonus: i16,
        chain_no_retaliation: bool,
    },
    /// Adjacent allies take `amount` less damage from enemy Momentum chains.
    ChainDamageReductionAura { amount: i16 },
    /// +`amount` Attack for each enemy impression on the board.
    AttackPerEnemyImpression { amount: i16 },
    /// Attack copies the highest among enemy spirits.
    CopyHighestEnemyAttack,
    /// On Unwrite, mill a deck's top card (the owner's, or the opponent's).
    MillTopDeck { opponent: bool },
    /// On reveal, copy the stats of the owner's last face-up spirit played.
    CopyLastPlayed,
    /// Copy the Reach of the enemy that just engaged it.
    CopyEngagerReach,
    Restrict(Restriction),
    /// Eat or place an impression.
    ImpressionEat,
    ImpressionPlace { seat_color: bool },
    /// Shift every standing Unwritten one tile toward the center.
    ShiftUnwrittenInward,
    /// Release every held spirit standing on a rim tile (no impression).
    ReleaseHeldRim,
    /// The first standing Landmark loses its text this round.
    SilenceLandmark,
    /// Manifest a cost-2 Unwritten on a free rim tile.
    ManifestUnwrittenOnRim,
    /// Impressions stop scoring for a round.
    StopImpressionScoring,
    /// Two inner tiles go calm (uncallable) next round.
    ScheduleCalmTiles,
    /// Look at a face-down Fabrication.
    RevealFabrication,
    /// Summon by card name.
    Summon { card_name: String },
    /// Copies printed A/D of the last spirit it fought.
    CopyPrintedStats,
    /// Take control of the engaging spirit.
    TakeControl,
    /// Stacking counters with a cap.
    CounterAura { trait_name: String, max: u8 },
    /// Re-trigger a Parting.
    ReTriggerParting,
    /// Damage to one may be redirected to the other.
    RedirectDamageToPartner,
    Replace(Replacement),
    Exception(RuleException),
    /// Silence / strip printed text or traits.
    TraitSilence,
    TraitStrip,
    /// Scaling rituals.
    AnimaPerBanishedAlly { max: u8 },
    AnimaPerAdjacentAlliedPair { max: u8 },
    DrawPerBanishedThisTurn { max: u8 },
    /// Remove an impression from a tile.
    ImpressionRemoveTarget,
    /// Next arrival may engage a second target at a penalty.
    SecondTargetEngage { attack_penalty: i16 },
    /// Extra stat granted on the owner's Throughline completion.
    ThroughlineGrant { attack: i16, defense: i16 },
    /// An enemy pushed onto an Impression-bearing tile takes this much damage.
    ImpressionPushDamage { amount: i16 },
    /// An enemy engaging this spirit has its Attack shifted by `attack`.
    EngagerAttackDelta { attack: i16 },
    /// Every one of the owner's bonded spirits gets this extra stat.
    BondStatGrant { attack: i16, defense: i16 },
    /// Enemies lose Resonance edge against your spirits.
    EdgeNegate,
    /// Flat damage reduction from all sources.
    DamageReduction { amount: i16 },
    /// Grows +step/+step at the controller's Flow, capped.
    GrowEachFlow { step: i16, max: i16 },
    /// Release a fading spirit leaving no impression.
    Release,
    /// Banish a spirit outright, leaving no impression.
    Banish,
    /// Explicitly nothing.
    NoEffect,
}

/// One aimed effect: what, at whom, for how long.
#[derive(Debug, Clone, PartialEq, Eq)]
pub struct Clause {
    pub selector: Selector,
    pub effect: Effect,
    pub duration: Duration,
}

/// A card's complete behavior: when, gated how, doing what.
#[derive(Debug, Clone, PartialEq, Eq)]
pub struct EffectSpec {
    pub trigger: Trigger,
    pub condition: Condition,
    pub clauses: Vec<Clause>,
}

/// The authored effects table: each card key with its specs, the not-yet-authored
/// keys, and the cards whose text is controller disposition rather than behavior.
/// Keys are distinct; a lookup returns the one entry for a key.
#[derive(Debug, Clone)]
pub struct EffectsFile {
    pub specs: Vec<(String, Vec<EffectSpec>)>,
    pub pending: Vec<String>,
    pub behavior: Vec<String>,
}

/// The index of the first table entry keyed by `key`.
pub open spec fn spec_entry_index(specs: Seq<(String, Vec<EffectSpec>)>, key: Seq<char>) -> Option<int> {
    if exists|i: int| 0 <= i < specs.len() && (#[trigger] specs[i]).0@ == key {
        Some(choose|i: int| 0 <= i < specs.len() && (#[trigger] specs[i]).0@ == key
            && forall|j: int| 0 <= j < i ==> (#[trigger] specs[j]).0@ != key)
    } else {
        None
    }
}

/// The specs the table holds for `key`, if any.
pub open spec fn spec_specs_get(file: EffectsFile, key: Seq<char>) -> Option<Seq<EffectSpec>> {
    match spec_entry_index(file.specs@, key) {
        Some(i) => Some(file.specs@[i].1@),
        None => None,
    }
}

proof fn lemma_first_entry(specs: Seq<(String, Vec<EffectSpec>)>, key: Seq<char>, i: int)
    requires
        0 <= i < specs.len(),
        specs[i].0@ == key,
        forall|j: int| 0 <= j < i ==> (#[trigger] specs[j]).0@ != key,
    ensures
        spec_entry_index(specs, key) == Some(i),
{
    let k = choose|k: int| 0 <= k < specs.len() && (#[trigger] specs[k]).0@ == key
        && forall|j: int| 0 <= j < k ==> (#[trigger] specs[j]).0@ != key;
    assert(k == i) by {
        if k < i {
            assert(specs[k].0@ != key);
        } else if k > i {
            assert(specs[i].0@ != key);
        }
    }
}

impl EffectsFile {
    /// Look a card key up in the table.
    pub fn get(&self, key: &String) -> (r: Option<&Vec<EffectSpec>>)
        ensures
            match r {
                Some(v) => spec_specs_get(*self, key@) == Some(v@),
                None => spec_specs_get(*self, key@) is None,
            },
    {
        let n = self.specs.len();
        for i in 0..n
            invariant
                n == self.specs@.len(),
                forall|j: int| 0 <= j < i ==> (#[trigger] self.specs@[j]).0@ != key@,
        {
            if self.specs[i].0 == *key {
                proof {
                    lemma_first_entry(self.specs@, key@, i as int);
                }
                return Some(&self.specs[i].1);
            }
        }
        None
    }
}

/// The canon: the full card catalog (the source of the name → key bridge) and the
/// authored effects table keyed by card key.
#[derive(Debug, Clone)]
pub struct Canon {
    pub catalog: Vec<CardDef>,
    pub effects: EffectsFile,
}

/// The key a card's effects are filed under: its own key, or — for a hand-built card with
/// an empty key — the canon key of its display name.
pub open spec fn spec_effect_key(canon: Canon, def: CardDef) -> Seq<char> {
    if def.key@.len() == 0 {
        spec_key_of(canon.catalog@, def.name@)
    } else {
        def.key@
    }
}

/// The authored specs for card `id` of `catalog`: `None` for an id the catalog lacks or a
/// card with no authored spec.
pub open spec fn spec_specs_for(canon: Canon, catalog: Seq<CardDef>, id: CardId) -> Option<Seq<EffectSpec>> {
    match spec_card_index(catalog, id) {
        None => None,
        Some(i) => spec_specs_get(canon.effects, spec_effect_key(canon, catalog[i])),
    }
}

/// The authored [`EffectSpec`]s for a card, resolved by id: the card (dense slot first,
/// scan fallback), then its key (or its name's canon key when the key is empty), then
/// the effects table.
pub fn specs_for<'a>(canon: &'a Canon, catalog: &[CardDef], id: CardId) -> (r: Option<&'a [EffectSpec]>)
    ensures
        match r {
            Some(v) => spec_specs_for(*canon, catalog@, id) == Some(v@),
            None => spec_specs_for(*canon, catalog@, id) is None,
        },
{
    let def = match lookup_card(catalog, id) {
        Some(d) => d,
        None => return None,
    };
    let key = if def.key.as_str().is_empty() {
        key_of(canon.catalog.as_slice(), def.name.as_str())
    } else {
        def.key.clone()
    };
    match canon.effects.get(&key) {
        Some(v) => Some(v.as_slice()),
        None => None,
    }
}

} // verus!
