//! Effect-IR support predicates: which Triggers/Conditions/Selectors/Effects the rules of
//! the effect IR give a meaning to — the `card_fully_supported` coverage gate, which a card
//! passes when every clause it carries is among them.
use vstd::prelude::*;

use crate::cards::{key_of, spec_key_of};
use crate::effects::{Canon, EffectSpec, spec_specs_get, Clause, Condition, Displacement, Duration, Effect, Keyword, Replacement, Restriction, RuleException, Selector, Trigger};

verus! {

/// A duration the rules core honours for an executed (non-aura) clause.
pub open spec fn timed_duration(d: Duration) -> bool {
    d is Instant || d is ThisRound || d is Permanent || d is NextRound
}

/// Instant, this-round or permanent.
pub open spec fn short_duration(d: Duration) -> bool {
    d is Instant || d is ThisRound || d is Permanent
}

/// Choice-free clauses the rules core executes directly (an ordered decision list: the first
/// rule whose shape the clause has decides it).
pub open spec fn spec_supported_instant_clause(c: Clause) -> bool {
    let sel = c.selector;
    let eff = c.effect;
    let dur = c.duration;
    if eff is NoEffect {
        sel is Owner || sel is Engager
    } else if eff is AnimaDelta && sel is Engager {
        true
    } else if eff is ExtraEngage && (sel is Engager || sel is SelfSpirit) {
        true
    } else if eff == Effect::Exception(RuleException::EvolveIgnoresSharedImprint) {
        sel is Owner
    } else if eff is ShiftUnwrittenInward || eff is ReleaseHeldRim || eff is SilenceLandmark
        || eff is ManifestUnwrittenOnRim || eff is StopImpressionScoring || eff is ScheduleCalmTiles {
        sel is Owner
    } else if eff is ImpressionEat {
        sel is SelfSpirit
    } else if eff is MillTopDeck {
        sel is SelfSpirit
    } else if eff is CopyLastPlayed || eff is CopyEngagerReach || eff is CopyPrintedStats {
        sel is SelfSpirit
    } else if eff is CostDelta && sel is BothNarrators {
        eff->delta > 0
    } else if eff is TraitStrip && sel is EngagedEnemy {
        true
    } else if sel is AdjacentAllyChoose || sel is AdjacentEnemyChoose {
        eff is RestoreForm || eff is StatDelta || eff matches Effect::Displace(Displacement::Push { .. })
            || eff is Damage || eff is Release || eff is Banish || eff is Bounce
    } else if sel is TargetSpirit || sel is TargetAllySpirit || sel is TargetEnemySpirit {
        (eff is StatDelta || eff is RestoreForm || eff is Damage || eff is GrantKeyword
            || eff matches Effect::Displace(Displacement::MoveAny { .. })
            || eff matches Effect::Displace(Displacement::Push { .. })
            || eff == Effect::Displace(Displacement::Swap) || eff is Bounce || eff is RevealFabrication
            || eff == Effect::Restrict(Restriction::Engage) || eff is ReachDelta
            || eff matches Effect::GrantEngage { immediate: true, .. } || eff is RetaliationDelta)
            && timed_duration(dur)
    } else if sel is TargetFadingSpirit {
        eff == Effect::Replace(Replacement::DelayFadeOneStep)
    } else if sel is NextArrivalThisTurn {
        eff is StatDelta || eff is SecondTargetEngage
    } else if sel is TargetTwoAdjacentAllies {
        eff is StatDelta && short_duration(dur)
    } else if sel is EngagedEnemy {
        eff matches Effect::Displace(Displacement::Push { .. }) || eff is StatDelta || eff is Damage
    } else if eff is PeekDeck {
        sel is Owner
    } else if eff is RevealFabrication {
        sel is EnemiesAll || sel is Owner || sel is TargetSpirit || sel is TargetAllySpirit
            || sel is TargetEnemySpirit
    } else if eff matches Effect::Displace(Displacement::Push { .. }) {
        sel is AdjacentEnemiesAll || sel is Engager || sel is Survivor
    } else if eff is Bounce {
        sel is Engager
    } else if eff is TakeControl {
        sel is Engager
    } else if eff is TraitStrip {
        sel is Engager
    } else if eff is ReachDelta && sel is AlliesAll {
        dur is ThisRound
    } else if eff == Effect::Restrict(Restriction::BePushed) || eff == Effect::Restrict(Restriction::Move) {
        sel is AlliesAll && dur is ThisRound
    } else if eff is Draw {
        sel is BothNarrators || sel is Owner
    } else if eff is Recover {
        sel is Owner
    } else if eff is ImpressionRemoveTarget {
        sel is Owner
    } else if eff is CostDelta {
        sel is Owner
    } else if sel is BondedPartner {
        eff is RestoreForm
    } else if sel is TargetBondedPair {
        eff is RestoreForm
    } else if sel is BondedPair {
        eff is StatDelta
    } else if eff is AnimaPerAdjacentAlliedPair || eff is AnimaPerBanishedAlly || eff is DrawPerBanishedThisTurn {
        sel is Owner
    } else if sel is AlliesWithImprint {
        eff is StatDelta && short_duration(dur)
    } else if sel is EnemiesAdjacentToAlliesOf {
        eff is Damage
    } else if eff is Summon {
        sel is Owner
    } else if eff == Effect::Exception(RuleException::PartingReclaimsFullCost) {
        sel is Owner
    } else if eff is ReTriggerParting {
        sel is Owner
    } else if eff is Release || eff is Banish {
        sel is AdjacentAlliesAll || sel is AdjacentEnemiesAll || sel is AdjacentEnemyChoose
            || sel is AdjacentAllyChoose || sel is AllOtherSpirits || sel is AlliesAll || sel is EnemiesAll
    } else {
        (sel is SelfSpirit || sel is Owner || sel is AlliesAll || sel is EnemiesAll || sel is AdjacentEnemiesAll
            || sel is AdjacentAlliesAll || sel is AllOtherSpirits || sel is Engager)
            && (eff is Draw || eff is AnimaDelta || eff is RestoreForm || eff is Damage || eff is StatDelta)
            && timed_duration(dur)
    }
}

fn is_timed(d: Duration) -> (r: bool)
    ensures
        r == timed_duration(d),
{
    matches!(d, Duration::Instant | Duration::ThisRound | Duration::Permanent | Duration::NextRound)
}

fn is_short(d: Duration) -> (r: bool)
    ensures
        r == short_duration(d),
{
    matches!(d, Duration::Instant | Duration::ThisRound | Duration::Permanent)
}

/// Choice-free clauses the rules core executes directly. Choice-bearing selectors and modifier
/// durations are resolved elsewhere.
pub fn supported_instant_clause(c: &Clause) -> (r: bool)
    ensures
        r == spec_supported_instant_clause(*c),
{
    let sel = &c.selector;
    let eff = &c.effect;
    let dur = c.duration;
    if matches!(eff, Effect::NoEffect) {
        return matches!(sel, Selector::Owner | Selector::Engager);
    }
    if matches!(eff, Effect::AnimaDelta { .. }) && matches!(sel, Selector::Engager) {
        return true;
    }
    if matches!(eff, Effect::ExtraEngage) && matches!(sel, Selector::Engager | Selector::SelfSpirit) {
        return true;
    }
    if matches!(eff, Effect::Exception(RuleException::EvolveIgnoresSharedImprint)) {
        return matches!(sel, Selector::Owner);
    }
    if matches!(
        eff,
        Effect::ShiftUnwrittenInward | Effect::ReleaseHeldRim | Effect::SilenceLandmark
            | Effect::ManifestUnwrittenOnRim | Effect::StopImpressionScoring | Effect::ScheduleCalmTiles
    ) {
        return matches!(sel, Selector::Owner);
    }
    if matches!(eff, Effect::ImpressionEat) {
        return matches!(sel, Selector::SelfSpirit);
    }
    if matches!(eff, Effect::MillTopDeck { .. }) {
        return matches!(sel, Selector::SelfSpirit);
    }
    if matches!(eff, Effect::CopyLastPlayed | Effect::CopyEngagerReach | Effect::CopyPrintedStats) {
        return matches!(sel, Selector::SelfSpirit);
    }
    if let Effect::CostDelta { delta } = eff {
        if matches!(sel, Selector::BothNarrators) {
            return *delta > 0;
        }
    }
    if matches!(eff, Effect::TraitStrip) && matches!(sel, Selector::EngagedEnemy) {
        return true;
    }
    if matches!(sel, Selector::AdjacentAllyChoose | Selector::AdjacentEnemyChoose) {
        return matches!(
            eff,
            Effect::RestoreForm { .. } | Effect::StatDelta { .. } | Effect::Displace(Displacement::Push { .. })
                | Effect::Damage { .. } | Effect::Release | Effect::Banish | Effect::Bounce
        );
    }
    if matches!(sel, Selector::TargetSpirit | Selector::TargetAllySpirit | Selector::TargetEnemySpirit) {
        return matches!(
            eff,
            Effect::StatDelta { .. } | Effect::RestoreForm { .. } | Effect::Damage { .. }
                | Effect::GrantKeyword { .. }
                | Effect::Displace(Displacement::MoveAny { .. })
                | Effect::Displace(Displacement::Push { .. })
                | Effect::Displace(Displacement::Swap) | Effect::Bounce | Effect::RevealFabrication
                | Effect::Restrict(Restriction::Engage) | Effect::ReachDelta { .. }
                | Effect::GrantEngage { immediate: true, .. } | Effect::RetaliationDelta { .. }
        ) && is_timed(dur);
    }
    if matches!(sel, Selector::TargetFadingSpirit) {
        return matches!(eff, Effect::Replace(Replacement::DelayFadeOneStep));
    }
    if matches!(sel, Selector::NextArrivalThisTurn) {
        return matches!(eff, Effect::StatDelta { .. } | Effect::SecondTargetEngage { .. });
    }
    if matches!(sel, Selector::TargetTwoAdjacentAllies) {
        return matches!(eff, Effect::StatDelta { .. }) && is_short(dur);
    }
    if matches!(sel, Selector::EngagedEnemy) {
        return matches!(
            eff,
            Effect::Displace(Displacement::Push { .. }) | Effect::StatDelta { .. } | Effect::Damage { .. }
        );
    }
    if matches!(eff, Effect::PeekDeck { .. }) {
        return matches!(sel, Selector::Owner);
    }
    if matches!(eff, Effect::RevealFabrication) {
        return matches!(
            sel,
            Selector::EnemiesAll | Selector::Owner | Selector::TargetSpirit | Selector::TargetAllySpirit
                | Selector::TargetEnemySpirit
        );
    }
    if matches!(eff, Effect::Displace(Displacement::Push { .. })) {
        return matches!(sel, Selector::AdjacentEnemiesAll | Selector::Engager | Selector::Survivor);
    }
    if matches!(eff, Effect::Bounce) {
        return matches!(sel, Selector::Engager);
    }
    if matches!(eff, Effect::TakeControl) {
        return matches!(sel, Selector::Engager);
    }
    if matches!(eff, Effect::TraitStrip) {
        return matches!(sel, Selector::Engager);
    }
    if matches!(eff, Effect::ReachDelta { .. }) && matches!(sel, Selector::AlliesAll) {
        return matches!(dur, Duration::ThisRound);
    }
    if matches!(eff, Effect::Restrict(Restriction::BePushed | Restriction::Move)) {
        return matches!(sel, Selector::AlliesAll) && matches!(dur, Duration::ThisRound);
    }
    if matches!(eff, Effect::Draw { .. }) {
        return matches!(sel, Selector::BothNarrators | Selector::Owner);
    }
    if matches!(eff, Effect::Recover) {
        return matches!(sel, Selector::Owner);
    }
    if matches!(eff, Effect::ImpressionRemoveTarget) {
        return matches!(sel, Selector::Owner);
    }
    if matches!(eff, Effect::CostDelta { .. }) {
        return matches!(sel, Selector::Owner);
    }
    if matches!(sel, Selector::BondedPartner) {
        return matches!(eff, Effect::RestoreForm { .. });
    }
    if matches!(sel, Selector::TargetBondedPair) {
        return matches!(eff, Effect::RestoreForm { .. });
    }
    if matches!(sel, Selector::BondedPair) {
        return matches!(eff, Effect::StatDelta { .. });
    }
    if matches!(
        eff,
        Effect::AnimaPerAdjacentAlliedPair { .. } | Effect::AnimaPerBanishedAlly { .. }
            | Effect::DrawPerBanishedThisTurn { .. }
    ) {
        return matches!(sel, Selector::Owner);
    }
    if matches!(sel, Selector::AlliesWithImprint { .. }) {
        return matches!(eff, Effect::StatDelta { .. }) && is_short(dur);
    }
    if matches!(sel, Selector::EnemiesAdjacentToAlliesOf { .. }) {
        return matches!(eff, Effect::Damage { .. });
    }
    if matches!(eff, Effect::Summon { .. }) {
        return matches!(sel, Selector::Owner);
    }
    if matches!(eff, Effect::Exception(RuleException::PartingReclaimsFullCost)) {
        return matches!(sel, Selector::Owner);
    }
    if matches!(eff, Effect::ReTriggerParting) {
        return matches!(sel, Selector::Owner);
    }
    if matches!(eff, Effect::Release | Effect::Banish) {
        return matches!(
            sel,
            Selector::AdjacentAlliesAll | Selector::AdjacentEnemiesAll | Selector::AdjacentEnemyChoose
                | Selector::AdjacentAllyChoose | Selector::AllOtherSpirits | Selector::AlliesAll
                | Selector::EnemiesAll
        );
    }
    let scope_ok = matches!(
        sel,
        Selector::SelfSpirit | Selector::Owner | Selector::AlliesAll | Selector::EnemiesAll
            | Selector::AdjacentEnemiesAll | Selector::AdjacentAlliesAll | Selector::AllOtherSpirits
            | Selector::Engager
    );
    let effect_ok = matches!(
        eff,
        Effect::Draw { .. } | Effect::AnimaDelta { .. } | Effect::RestoreForm { .. } | Effect::Damage { .. }
            | Effect::StatDelta { .. }
    );
    scope_ok && effect_ok && is_timed(dur)
}

/// A standing aura's duration: the rules core never reads it, so `WhilePresent` and
/// `Permanent` both qualify.
pub open spec fn static_duration(d: Duration) -> bool {
    d is WhilePresent || d is Permanent
}

/// Keyword grants the rules core routes from an aura (Mobile/Steadfast to movement and push,
/// Warded to the defender's combat read).
pub open spec fn aura_keyword_grant(eff: Effect) -> bool {
    eff matches Effect::GrantKeyword { keyword } && (keyword is Mobile || keyword is Steadfast || keyword is Warded)
}

/// A targeting-only reach aura.
pub open spec fn targeting_reach_aura(eff: Effect) -> bool {
    eff matches Effect::ReachDelta { targeting_only, .. } && targeting_only
}

/// Rule exceptions a standing spirit's aura routes to their rule's chokepoint.
pub open spec fn routed_aura_exception(x: RuleException) -> bool {
    x is GlimpseLooksOneMore || x is BondsCostZero || x is AllImprintsShared || x is PartingTriggersTwice
        || x is EvolveArrivesBuffed || x is RitualsExtraTarget || x is NoImpressionOnAdjacentDissolve
        || x is ImmuneToInterception || x is UnbanishableByEcho || x is FadeReclaimsExtraAnima
        || x is SuppressesAdjacentParting || x is StrikesIgnoreWarded || x is SuppressesAdjacentEnemyEcho
        || x is AdjacentImpressionsDontScore
}

/// Effects a spirit-borne standing aura computes on read.
pub open spec fn aura_effect(eff: Effect) -> bool {
    eff is StatDelta || eff is RetaliationDelta || eff is GrantSharedResonance || eff is CounterAura
        || eff is DamageReduction || eff is EdgeNegate
        || eff matches Effect::Replace(Replacement::SurviveBanishAt { .. })
        || eff == Effect::GrantKeyword { keyword: Keyword::Lurk }
        || eff is MomentumMod || eff is CostDelta
        || (eff matches Effect::Exception(x) && routed_aura_exception(x))
        || targeting_reach_aura(eff) || eff is RevealFabrication || eff is ThroughlineGrant
        || eff is BondStatGrant || eff is ChainDamageReductionAura || eff is AttackPerEnemyImpression
        || eff is CopyHighestEnemyAttack || eff is EngagerAttackDelta || eff is ImpressionPushDamage
        || eff == Effect::Restrict(Restriction::BePushed)
        || eff == Effect::Restrict(Restriction::BeTargetedByRituals)
        || eff == Effect::Restrict(Restriction::GainImpressions)
        || eff is NoEffect
}

/// Static (aura) clauses computed on read by the rules core.
pub open spec fn spec_supported_static_clause(c: Clause) -> bool {
    let sel = c.selector;
    let eff = c.effect;
    let dur = c.duration;
    if sel is BondedPair {
        let stat_ok = (eff is StatDelta || eff is StatShareHigher) && (dur is WhilePresent || dur is ThisRound);
        let aura_ok = (aura_keyword_grant(eff) || targeting_reach_aura(eff)
            || (eff matches Effect::GrantEngage { pre_chip, immediate } && (pre_chip > 0 || immediate))
            || eff is RedirectDamageToPartner || eff == Effect::Replace(Replacement::PartnerTakesIt)
            || eff == Effect::Exception(RuleException::PairSharesImprints)
            || eff == Effect::Exception(RuleException::BondHoldsUnlessSeparated))
            && static_duration(dur);
        stat_ok || aura_ok
    } else if sel is OccupantHere {
        (eff is StatDelta || eff is RetaliationDelta || eff == Effect::Restrict(Restriction::BePushed)
            || eff == Effect::Exception(RuleException::BondsFreeOnLandmark)
            || eff == Effect::Exception(RuleException::PartingTriggersTwice)
            || eff == Effect::Exception(RuleException::FadingFuelIgnoresImprint)
            || aura_keyword_grant(eff) || targeting_reach_aura(eff))
            && static_duration(dur)
    } else if sel is OccupantAndAdjacentAllies {
        eff is StatDelta && static_duration(dur)
    } else if sel is AdjacentEnemiesAll {
        (eff is StatDelta || eff is TraitSilence) && static_duration(dur)
    } else {
        let scope_ok = sel is SelfSpirit || sel is AdjacentAlliesAll || sel is AlliesAll || sel is AlliesInReach
            || sel is AlliesWithImprint || sel is EnemiesWithinTiles || sel is EnemiesEngagingAdjacentAllies
            || sel is EnemiesAll || sel is Owner || sel is Survivor;
        let adjacent_grant_ok = sel is AdjacentAlliesAll
            && (eff == Effect::GrantKeyword { keyword: Keyword::Mobile }
                || eff == Effect::GrantKeyword { keyword: Keyword::Steadfast });
        let self_grant_ok = sel is SelfSpirit && aura_keyword_grant(eff);
        (scope_ok && aura_effect(eff) || adjacent_grant_ok || self_grant_ok) && static_duration(dur)
    }
}

fn is_static_duration(d: Duration) -> (r: bool)
    ensures
        r == static_duration(d),
{
    matches!(d, Duration::WhilePresent | Duration::Permanent)
}

fn is_aura_keyword_grant(eff: &Effect) -> (r: bool)
    ensures
        r == aura_keyword_grant(*eff),
{
    matches!(eff, Effect::GrantKeyword { keyword: Keyword::Mobile | Keyword::Steadfast | Keyword::Warded })
}

fn is_targeting_reach_aura(eff: &Effect) -> (r: bool)
    ensures
        r == targeting_reach_aura(*eff),
{
    matches!(eff, Effect::ReachDelta { targeting_only: true, .. })
}

fn is_routed_aura_exception(x: RuleException) -> (r: bool)
    ensures
        r == routed_aura_exception(x),
{
    matches!(
        x,
        RuleException::GlimpseLooksOneMore | RuleException::BondsCostZero | RuleException::AllImprintsShared
            | RuleException::PartingTriggersTwice | RuleException::EvolveArrivesBuffed
            | RuleException::RitualsExtraTarget | RuleException::NoImpressionOnAdjacentDissolve
            | RuleException::ImmuneToInterception | RuleException::UnbanishableByEcho
            | RuleException::FadeReclaimsExtraAnima | RuleException::SuppressesAdjacentParting
            | RuleException::StrikesIgnoreWarded | RuleException::SuppressesAdjacentEnemyEcho
            | RuleException::AdjacentImpressionsDontScore
    )
}

fn is_aura_effect(eff: &Effect) -> (r: bool)
    ensures
        r == aura_effect(*eff),
{
    if let Effect::Exception(x) = eff {
        return is_routed_aura_exception(*x);
    }
    matches!(
        eff,
        Effect::StatDelta { .. } | Effect::RetaliationDelta { .. } | Effect::GrantSharedResonance
            | Effect::CounterAura { .. } | Effect::DamageReduction { .. } | Effect::EdgeNegate
            | Effect::Replace(Replacement::SurviveBanishAt { .. })
            | Effect::GrantKeyword { keyword: Keyword::Lurk }
            | Effect::MomentumMod { .. } | Effect::CostDelta { .. }
            | Effect::ReachDelta { targeting_only: true, .. } | Effect::RevealFabrication
            | Effect::ThroughlineGrant { .. } | Effect::BondStatGrant { .. }
            | Effect::ChainDamageReductionAura { .. } | Effect::AttackPerEnemyImpression { .. }
            | Effect::CopyHighestEnemyAttack | Effect::EngagerAttackDelta { .. }
            | Effect::ImpressionPushDamage { .. } | Effect::Restrict(Restriction::BePushed)
            | Effect::Restrict(Restriction::BeTargetedByRituals)
            | Effect::Restrict(Restriction::GainImpressions) | Effect::NoEffect
    )
}

/// Static (aura) clauses computed on read by the rules core.
pub fn supported_static_clause(c: &Clause) -> (r: bool)
    ensures
        r == spec_supported_static_clause(*c),
{
    let sel = &c.selector;
    let eff = &c.effect;
    let dur = c.duration;
    let static_dur_ok = is_static_duration(dur);
    if matches!(sel, Selector::BondedPair) {
        let stat_ok = matches!(eff, Effect::StatDelta { .. } | Effect::StatShareHigher { .. })
            && matches!(dur, Duration::WhilePresent | Duration::ThisRound);
        let chip_ok = match eff {
            Effect::GrantEngage { pre_chip, immediate } => *pre_chip > 0 || *immediate,
            _ => false,
        };
        let aura_ok = (is_aura_keyword_grant(eff) || is_targeting_reach_aura(eff) || chip_ok
            || matches!(
                eff,
                Effect::RedirectDamageToPartner | Effect::Replace(Replacement::PartnerTakesIt)
                    | Effect::Exception(RuleException::PairSharesImprints)
                    | Effect::Exception(RuleException::BondHoldsUnlessSeparated)
            )) && static_dur_ok;
        return stat_ok || aura_ok;
    }
    if matches!(sel, Selector::OccupantHere) {
        return (matches!(
            eff,
            Effect::StatDelta { .. } | Effect::RetaliationDelta { .. } | Effect::Restrict(Restriction::BePushed)
                | Effect::Exception(RuleException::BondsFreeOnLandmark)
                | Effect::Exception(RuleException::PartingTriggersTwice)
                | Effect::Exception(RuleException::FadingFuelIgnoresImprint)
        ) || is_aura_keyword_grant(eff) || is_targeting_reach_aura(eff)) && static_dur_ok;
    }
    if matches!(sel, Selector::OccupantAndAdjacentAllies) {
        return matches!(eff, Effect::StatDelta { .. }) && static_dur_ok;
    }
    if matches!(sel, Selector::AdjacentEnemiesAll) {
        return matches!(eff, Effect::StatDelta { .. } | Effect::TraitSilence) && static_dur_ok;
    }
    let scope_ok = matches!(
        sel,
        Selector::SelfSpirit | Selector::AdjacentAlliesAll | Selector::AlliesAll | Selector::AlliesInReach
            | Selector::AlliesWithImprint { .. } | Selector::EnemiesWithinTiles { .. }
            | Selector::EnemiesEngagingAdjacentAllies | Selector::EnemiesAll | Selector::Owner
            | Selector::Survivor
    );
    let adjacent_grant_ok = matches!(sel, Selector::AdjacentAlliesAll)
        && matches!(eff, Effect::GrantKeyword { keyword: Keyword::Mobile | Keyword::Steadfast });
    let self_grant_ok = matches!(sel, Selector::SelfSpirit) && is_aura_keyword_grant(eff);
    (scope_ok && is_aura_effect(eff) || adjacent_grant_ok || self_grant_ok) && static_dur_ok
}

/// Conditions the rules core evaluates.
pub open spec fn spec_supported_condition(c: Condition) -> bool {
    c is Always || c is WhileDamaged || c is WhileUndamaged || c is WhileAdjacentToAlly || c is WhileFaceDown
        || c is AdjacentAlliesShareResonance || c is OncePerMatch || c is PairAdjacent || c is YouControlABond
        || c is CostAtMost || c is PayForm
}

/// Conditions the rules core evaluates (everything but `OncePerRound`).
pub fn supported_condition(c: &Condition) -> (r: bool)
    ensures
        r == spec_supported_condition(*c),
{
    matches!(
        c,
        Condition::Always | Condition::WhileDamaged | Condition::WhileUndamaged | Condition::WhileAdjacentToAlly
            | Condition::WhileFaceDown | Condition::AdjacentAlliesShareResonance { .. } | Condition::OncePerMatch
            | Condition::PairAdjacent | Condition::YouControlABond | Condition::CostAtMost { .. }
            | Condition::PayForm { .. }
    )
}

/// Triggers the rules give a firing moment: every Trigger of the IR has one.
pub open spec fn spec_supported_trigger(t: Trigger) -> bool {
    true
}

/// Triggers the rules give a firing moment (see `spec_supported_trigger`).
pub fn supported_trigger(t: Trigger) -> (r: bool)
    ensures
        r == spec_supported_trigger(t),
{
    matches!(
        t,
        Trigger::OnReveal | Trigger::OnPlay | Trigger::Parting | Trigger::OnAnyBanish | Trigger::OnDefeat
            | Trigger::AtFlow | Trigger::Static | Trigger::OnAllyFading | Trigger::OnEngageResolved
            | Trigger::OnYouPlayBond | Trigger::OnAttuned | Trigger::OnThroughlineComplete
            | Trigger::OnFabricationRevealed | Trigger::OnDefeatWarded | Trigger::OnAllyPartsInReach
            | Trigger::OnMove | Trigger::OnUnwrite | Trigger::OnBefriend
    )
}

/// AtFlow clauses fired for the active seat's persistent sources.
pub open spec fn spec_supported_atflow_clause(c: Clause) -> bool {
    let sel = c.selector;
    let eff = c.effect;
    (sel is Owner && eff is AnimaDelta) || (sel is OccupantHere && eff is RestoreForm)
        || (sel is BondedPair && eff is RestoreForm) || (sel is AdjacentAlliesAll && eff is RestoreForm)
        || (sel is SelfSpirit && eff is RestoreForm) || (sel is SelfSpirit && eff is GrowEachFlow)
        || (sel is Owner && eff is PeekDeck) || (sel is Owner && eff is ImpressionRemoveTarget)
}

/// AtFlow clauses fired for the active seat's persistent sources: a Landmark's anima tithe
/// or occupant heal, a Bond's pair heal, a standing spirit's heal-adjacent or Flow Glimpse,
/// and a spirit's own Flow heal / growth / mark erosion.
pub fn supported_atflow_clause(c: &Clause) -> (r: bool)
    ensures
        r == spec_supported_atflow_clause(*c),
{
    match (&c.selector, &c.effect) {
        (Selector::Owner, Effect::AnimaDelta { .. }) => true,
        (Selector::OccupantHere, Effect::RestoreForm { .. }) => true,
        (Selector::BondedPair, Effect::RestoreForm { .. }) => true,
        (Selector::AdjacentAlliesAll, Effect::RestoreForm { .. }) => true,
        (Selector::SelfSpirit, Effect::RestoreForm { .. }) => true,
        (Selector::SelfSpirit, Effect::GrowEachFlow { .. }) => true,
        (Selector::Owner, Effect::PeekDeck { .. }) => true,
        (Selector::Owner, Effect::ImpressionRemoveTarget) => true,
        _ => false,
    }
}

/// A clause a firing (non-Static, non-AtFlow) spec may carry: an executed instant, or a
/// while-present aura the static predicate credits.
pub open spec fn fired_clause_ok(c: Clause) -> bool {
    spec_supported_instant_clause(c) || (c.duration is WhilePresent && spec_supported_static_clause(c))
}

/// The conditions a spec that fires may be guarded by.
pub open spec fn fired_condition_ok(t: Trigger, c: Condition) -> bool {
    c is Always || (t is OnDefeat && c is PairAdjacent) || c is YouControlABond || c is CostAtMost
        || c is PayForm || (t is OnPlay && c is OncePerMatch)
}

/// One spec lands in an executed tranche: supported trigger and condition, and every
/// clause supported for its firing moment.
pub open spec fn spec_effect_spec_supported(s: EffectSpec) -> bool {
    spec_supported_trigger(s.trigger) && spec_supported_condition(s.condition) && if s.trigger is Static {
        forall|i: int| 0 <= i < s.clauses@.len() ==> spec_supported_static_clause(#[trigger] s.clauses@[i])
    } else if s.trigger is AtFlow {
        (s.condition is Always || s.condition is PairAdjacent || s.condition is OncePerMatch)
            && forall|i: int| 0 <= i < s.clauses@.len() ==> spec_supported_atflow_clause(#[trigger] s.clauses@[i])
    } else {
        fired_condition_ok(s.trigger, s.condition)
            && forall|i: int| 0 <= i < s.clauses@.len() ==> fired_clause_ok(#[trigger] s.clauses@[i])
    }
}

/// The ratchet's definition for the card named `name`: it has authored specs, and every
/// one of them lands in an executed tranche.
pub open spec fn spec_card_fully_supported(canon: Canon, name: Seq<char>) -> bool {
    match spec_specs_get(canon.effects, spec_key_of(canon.catalog@, name)) {
        None => false,
        Some(specs) => forall|i: int| 0 <= i < specs.len() ==> spec_effect_spec_supported(#[trigger] specs[i]),
    }
}

fn all_static_supported(clauses: &Vec<Clause>) -> (r: bool)
    ensures
        r == forall|i: int| 0 <= i < clauses@.len() ==> spec_supported_static_clause(#[trigger] clauses@[i]),
{
    let n = clauses.len();
    for i in 0..n
        invariant
            n == clauses@.len(),
            forall|j: int| 0 <= j < i ==> spec_supported_static_clause(#[trigger] clauses@[j]),
    {
        if !supported_static_clause(&clauses[i]) {
            return false;
        }
    }
    true
}

fn all_atflow_supported(clauses: &Vec<Clause>) -> (r: bool)
    ensures
        r == forall|i: int| 0 <= i < clauses@.len() ==> spec_supported_atflow_clause(#[trigger] clauses@[i]),
{
    let n = clauses.len();
    for i in 0..n
        invariant
            n == clauses@.len(),
            forall|j: int| 0 <= j < i ==> spec_supported_atflow_clause(#[trigger] clauses@[j]),
    {
        if !supported_atflow_clause(&clauses[i]) {
            return false;
        }
    }
    true
}

fn all_fired_supported(clauses: &Vec<Clause>) -> (r: bool)
    ensures
        r == forall|i: int| 0 <= i < clauses@.len() ==> fired_clause_ok(#[trigger] clauses@[i]),
{
    let n = clauses.len();
    for i in 0..n
        invariant
            n == clauses@.len(),
            forall|j: int| 0 <= j < i ==> fired_clause_ok(#[trigger] clauses@[j]),
    {
        let c = &clauses[i];
        let ok = supported_instant_clause(c)
            || (matches!(c.duration, Duration::WhilePresent) && supported_static_clause(c));
        if !ok {
            return false;
        }
    }
    true
}

/// Whether one spec lands in an executed tranche.
pub fn effect_spec_supported(s: &EffectSpec) -> (r: bool)
    ensures
        r == spec_effect_spec_supported(*s),
{
    if !supported_trigger(s.trigger) || !supported_condition(&s.condition) {
        return false;
    }
    match s.trigger {
        Trigger::Static => all_static_supported(&s.clauses),
        Trigger::AtFlow => matches!(
            s.condition,
            Condition::Always | Condition::PairAdjacent | Condition::OncePerMatch
        ) && all_atflow_supported(&s.clauses),
        _ => {
            let cond_ok = matches!(s.condition, Condition::Always)
                || (matches!(s.trigger, Trigger::OnDefeat) && matches!(s.condition, Condition::PairAdjacent))
                || matches!(s.condition, Condition::YouControlABond)
                || matches!(s.condition, Condition::CostAtMost { .. })
                || matches!(s.condition, Condition::PayForm { .. })
                || (matches!(s.trigger, Trigger::OnPlay) && matches!(s.condition, Condition::OncePerMatch));
            cond_ok && all_fired_supported(&s.clauses)
        },
    }
}

/// The ratchet's definition: the card named `name` has authored specs, and every spec's
/// trigger, condition, and clauses land in an executed tranche.
pub fn card_fully_supported(canon: &Canon, name: &str) -> (r: bool)
    ensures
        r == spec_card_fully_supported(*canon, name@),
{
    let key = key_of(canon.catalog.as_slice(), name);
    match canon.effects.get(&key) {
        None => false,
        Some(specs) => {
            assert(spec_specs_get(canon.effects, spec_key_of(canon.catalog@, name@)) == Some(specs@));
            let n = specs.len();
            for i in 0..n
                invariant
                    n == specs@.len(),
                    spec_specs_get(canon.effects, spec_key_of(canon.catalog@, name@)) == Some(specs@),
                    forall|j: int| 0 <= j < i ==> spec_effect_spec_supported(#[trigger] specs@[j]),
            {
                if !effect_spec_supported(&specs[i]) {
                    assert(!spec_effect_spec_supported(specs@[i as int]));
                    let ghost sq = spec_specs_get(canon.effects, spec_key_of(canon.catalog@, name@))->0;
                    assert(sq == specs@);
                    assert(!spec_effect_spec_supported(sq[i as int]));
                    assert(!(forall|j: int| 0 <= j < sq.len() ==> spec_effect_spec_supported(#[trigger] sq[j])));
                    return false;
                }
            }
            true
        },
    }
}

} // verus!
