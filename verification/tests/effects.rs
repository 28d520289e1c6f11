use recollect_core::cards::test_catalog;
use recollect_core::effects::{specs_for, Canon, Clause, Condition, Duration, Effect, EffectSpec, EffectsFile, Keyword, Replacement, Selector, Trigger};
use recollect_core::support::{card_fully_supported, effect_spec_supported, supported_atflow_clause, supported_condition,
    supported_instant_clause, supported_static_clause, supported_trigger};
use recollect_core::types::{CardId, Resonance};

fn worked_examples() -> Vec<EffectSpec> {
    vec![
        // Frenzy — +10 Attack while damaged (static, conditional, self).
        EffectSpec {
            trigger: Trigger::Static,
            condition: Condition::WhileDamaged,
            clauses: vec![Clause {
                selector: Selector::SelfSpirit,
                effect: Effect::StatDelta { attack: 10, defense: 0, form: 0 },
                duration: Duration::WhilePresent,
            }],
        },
        // Ashen Sparrow — Parting: an adjacent ally +10/+10.
        EffectSpec {
            trigger: Trigger::Parting,
            condition: Condition::Always,
            clauses: vec![Clause {
                selector: Selector::AdjacentAllyChoose,
                effect: Effect::StatDelta { attack: 10, defense: 0, form: 10 },
                duration: Duration::Permanent,
            }],
        },
        // Glimpse Beyond — look at top 3, take 1, bottom the rest.
        EffectSpec {
            trigger: Trigger::OnPlay,
            condition: Condition::Always,
            clauses: vec![Clause { selector: Selector::Owner, effect: Effect::PeekDeck { look: 3, take: 1 }, duration: Duration::Instant }],
        },
        // Anchorite Ox — Unyielding: first banish each match, survives.
        EffectSpec {
            trigger: Trigger::Static,
            condition: Condition::OncePerMatch,
            clauses: vec![Clause {
                selector: Selector::SelfSpirit,
                effect: Effect::Replace(Replacement::SurviveBanishAt { form: 10 }),
                duration: Duration::WhilePresent,
            }],
        },
        // Eruption — 20 damage to every enemy adjacent to your Flame spirits.
        EffectSpec {
            trigger: Trigger::OnPlay,
            condition: Condition::Always,
            clauses: vec![Clause {
                selector: Selector::EnemiesAdjacentToAlliesOf { resonance: Resonance::Fury },
                effect: Effect::Damage { amount: 20 },
                duration: Duration::Instant,
            }],
        },
    ]
}

/// The five worked examples are expressible in the IR and survive a copy unchanged (the
/// JSON round trip itself runs where the serde copies of these types live).
#[test]
fn census_worked_examples_express_in_the_ir() {
    let examples = worked_examples();
    assert_eq!(examples.len(), 5);
    for spec in &examples {
        assert_eq!(&spec.clone(), spec);
    }
    assert_ne!(examples[0], examples[3]);
}

#[test]
fn support_predicates_accept_what_the_engine_executes() {
    let ex = worked_examples();
    // Frenzy's static self-buff is a supported aura; the Ox's survival replacement too.
    assert!(supported_static_clause(&ex[0].clauses[0]));
    assert!(supported_static_clause(&ex[3].clauses[0]));
    assert!(effect_spec_supported(&ex[0]));
    // The Sparrow's adjacent-ally choice is an executed instant.
    assert!(supported_instant_clause(&ex[1].clauses[0]));
    assert!(effect_spec_supported(&ex[1]));
    // Every trigger fires; OncePerRound is the one unevaluated condition.
    assert!(supported_trigger(Trigger::OnBefriend));
    assert!(supported_condition(&Condition::PayForm { amount: 10 }));
    assert!(!supported_condition(&Condition::OncePerRound));
    // A Flow anima tithe is an AtFlow clause; a Flow damage is not.
    assert!(supported_atflow_clause(&Clause { selector: Selector::Owner, effect: Effect::AnimaDelta { amount: 1 }, duration: Duration::Instant }));
    assert!(!supported_atflow_clause(&Clause { selector: Selector::Owner, effect: Effect::Damage { amount: 1 }, duration: Duration::Instant }));
    // A Lurk grant is a standing aura; a Relentless grant from an adjacent ally is not.
    assert!(supported_static_clause(&Clause { selector: Selector::SelfSpirit, effect: Effect::GrantKeyword { keyword: Keyword::Lurk }, duration: Duration::WhilePresent }));
    assert!(!supported_static_clause(&Clause { selector: Selector::AdjacentAlliesAll, effect: Effect::GrantKeyword { keyword: Keyword::Relentless }, duration: Duration::WhilePresent }));
}

#[test]
fn specs_resolve_by_key_or_by_name() {
    let mut cat = test_catalog();
    cat[2].key = "hushling".to_string();
    let frenzy = worked_examples().remove(0);
    let unsupported = EffectSpec { trigger: Trigger::Static, condition: Condition::OncePerRound, clauses: Vec::new() };
    let canon = Canon {
        catalog: cat.clone(),
        effects: EffectsFile {
            specs: vec![("hushling".to_string(), vec![frenzy.clone()]), ("dawn".to_string(), vec![unsupported])],
            pending: Vec::new(),
            behavior: Vec::new(),
        },
    };
    assert_eq!(specs_for(&canon, &cat, CardId(2)).unwrap(), &[frenzy][..]);
    assert!(specs_for(&canon, &cat, CardId(3)).is_none());
    assert!(specs_for(&canon, &cat, CardId(99)).is_none());
    // A hand-built card with an empty key resolves through its name's canon key.
    let mut canon2 = canon.clone();
    canon2.catalog[0].key = "dawn".to_string();
    assert_eq!(specs_for(&canon2, &cat, CardId(0)).unwrap().len(), 1);
    // The coverage gate: authored and supported, authored but unsupported, unauthored.
    assert!(card_fully_supported(&canon, "Hushling"));
    assert!(!card_fully_supported(&canon2, "Dawnling"));
    assert!(!card_fully_supported(&canon, "Pale Stalker"));
}
