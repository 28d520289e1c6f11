use recollect_core::cards::test_catalog;
use recollect_core::combat::{combat_stats, combat_stats_for_test, forecast_exchange, keyword_active_for_test, owner_grants_pair_share};
use recollect_core::effects::{Canon, Clause, Condition, Duration, Effect, EffectSpec, EffectsFile, Keyword, RuleException, Selector, Trigger};
use recollect_core::state::{Bond, GameState, MatchRules, Phase, PlayerState, Terrain, TerrainKind, TempMod, TileState};
use recollect_core::test_support::put_spirit;
use recollect_core::types::{CardDef, CardId, Faction, Reach, Resonance, Seat, SeatSlot};

fn player() -> PlayerState {
    PlayerState { hand: Vec::new(), deck: Vec::new(), anima: 0, glimpsed_this_turn: false, peeked_top: None, first_placement_done: false }
}

fn board() -> GameState {
    GameState {
        rules: MatchRules { last_round: 12, contraction_after: 8, factions: [Faction::Lorekeeper, Faction::Lorekeeper] },
        contracted: false,
        round: 1,
        active: Seat::A,
        phase: Phase::Acting,
        board: (0..25).map(|_| TileState { spirit: None, terrain: None, impressions: Vec::new(), faded: false }).collect(),
        board_w: 5,
        player_a: player(),
        player_b: player(),
        player_a2: None,
        player_b2: None,
        active_slot: SeatSlot::A1,
        moved_this_turn: Vec::new(),
        temp_mods: Vec::new(),
        temp_reach: Vec::new(),
        temp_restrict: Vec::new(),
        temp_retaliation: Vec::new(),
        card_tax: [(0, 0), (0, 0)],
        ignore_imprint_this_turn: [false, false],
        silenced_terrain: None,
        bonds: Vec::new(),
        stray: None,
        mulliganed: [false, false],
        solace_erasures: 0,
        dissolved: Vec::new(),
        next_ritual_discount: [0, 0],
        dissolved_this_turn: [0, 0],
        fade_delayed: Vec::new(),
        pending_flow_anima: [0, 0],
        next_arrival_atk: [0, 0],
        next_arrival_2nd_engage: [None, None],
        peeked_fabs: [Vec::new(), Vec::new()],
        ritual_extra_targets: 0,
        impressions_dormant_round: None,
        calm_tiles: Vec::new(),
        last_played_spirit: [None, None],
        stray_telegraph: None,
        stray_match: false,
        unwriting_told_this_round: false,
        pending_choice: None,
    }
}

fn clause(selector: Selector, effect: Effect) -> Clause {
    Clause { selector, effect, duration: Duration::WhilePresent }
}

fn aura(clauses: Vec<Clause>) -> EffectSpec {
    EffectSpec { trigger: Trigger::Static, condition: Condition::Always, clauses }
}

fn stat(attack: i16, defense: i16) -> Effect {
    Effect::StatDelta { attack, defense, form: 0 }
}

/// The test catalog plus authored cards (id, name, specs) keyed by their name.
fn world(extra: Vec<(u16, &str, Vec<EffectSpec>)>) -> (Canon, Vec<CardDef>) {
    let mut cat = test_catalog();
    let mut specs = Vec::new();
    for (id, name, sp) in extra {
        let mut c = cat[0].clone();
        c.id = CardId(id);
        c.name = name.to_string();
        c.key = format!("key-{name}");
        c.resonance = Resonance::Harmony;
        specs.push((c.key.clone(), sp));
        cat.push(c);
    }
    let canon = Canon { catalog: cat.clone(), effects: EffectsFile { specs, pending: Vec::new(), behavior: Vec::new() } };
    (canon, cat)
}

#[test]
fn an_empty_tile_has_no_combat_numbers() {
    let (canon, cat) = world(vec![]);
    let st = board();
    let v = combat_stats_for_test(&st, &canon, &cat, 12);
    assert_eq!((v.attack, v.defense, v.retaliation, v.dmg_reduction, v.momentum_per_link_bonus), (0, 0, 0, 0, 0));
    assert_eq!(v.resonance, None);
    assert!(!v.momentum_first_bonus && !v.chain_while_defeating);
}

#[test]
fn base_numbers_and_this_round_modifiers() {
    let (canon, cat) = world(vec![]);
    let mut st = board();
    put_spirit(&mut st, 12, CardId(3), Seat::A);
    let v = combat_stats_for_test(&st, &canon, &cat, 12);
    assert_eq!((v.attack, v.defense), (10, 0));
    assert_eq!(v.resonance, Some(Resonance::Fear));
    st.temp_mods.push(TempMod { tile: 12, attack: 5, defense: 3, until_round: 1 });
    st.temp_mods.push(TempMod { tile: 11, attack: 50, defense: 50, until_round: 1 });
    st.temp_retaliation.push((12, 7, 1));
    st.temp_retaliation.push((12, 100, 0));
    let v = combat_stats_for_test(&st, &canon, &cat, 12);
    assert_eq!((v.attack, v.defense, v.retaliation), (15, 3, 7));
}

#[test]
fn standing_auras_reach_allies_and_enemies() {
    let (canon, cat) = world(vec![
        (20, "Banner", vec![aura(vec![clause(Selector::AdjacentAlliesAll, stat(10, 5))])]),
        (21, "Dread", vec![aura(vec![clause(Selector::EnemiesAll, stat(-5, 0))])]),
        (22, "Bulwark", vec![aura(vec![clause(Selector::SelfSpirit, Effect::DamageReduction { amount: 4 }),
                                        clause(Selector::SelfSpirit, Effect::RetaliationDelta { amount: 6 })])]),
    ]);
    let mut st = board();
    put_spirit(&mut st, 12, CardId(22), Seat::A);
    put_spirit(&mut st, 13, CardId(20), Seat::A);
    put_spirit(&mut st, 0, CardId(21), Seat::B);
    let v = combat_stats_for_test(&st, &canon, &cat, 12);
    // 10 base + 10 Banner - 5 Dread; 0 + 5 defense; its own reduction and retaliation.
    assert_eq!((v.attack, v.defense, v.dmg_reduction, v.retaliation), (15, 5, 4, 6));
    // The Banner does not buff itself, and the enemy Dread reaches it too.
    let b = combat_stats_for_test(&st, &canon, &cat, 13);
    assert_eq!((b.attack, b.defense), (5, 0));
    // A fading source's aura is gone.
    st.board[13].spirit.as_mut().unwrap().fading = true;
    let v = combat_stats_for_test(&st, &canon, &cat, 12);
    assert_eq!((v.attack, v.defense), (5, 0));
}

#[test]
fn chorus_counts_adjacent_allies_up_to_its_cap() {
    let (canon, cat) = world(vec![(20, "Choir", vec![aura(vec![clause(Selector::SelfSpirit,
        Effect::CounterAura { trait_name: "Chorus".to_string(), max: 2 })])])]);
    let mut st = board();
    put_spirit(&mut st, 12, CardId(20), Seat::A);
    put_spirit(&mut st, 7, CardId(0), Seat::A);
    let v = combat_stats_for_test(&st, &canon, &cat, 12);
    assert_eq!(v.attack, 20);
    put_spirit(&mut st, 11, CardId(0), Seat::A);
    put_spirit(&mut st, 13, CardId(0), Seat::A);
    put_spirit(&mut st, 17, CardId(1), Seat::B);
    let v = combat_stats_for_test(&st, &canon, &cat, 12);
    assert_eq!(v.attack, 30, "three allies, capped at two");
}

#[test]
fn bonds_share_the_higher_numbers() {
    let (canon, cat) = world(vec![
        (20, "Rivals", vec![EffectSpec { trigger: Trigger::Static, condition: Condition::Always,
            clauses: vec![clause(Selector::BondedPair, Effect::StatShareHigher { attack: true, defense: false }),
                          clause(Selector::BondedPair, stat(0, 5))] }]),
    ]);
    let mut st = board();
    put_spirit(&mut st, 12, CardId(0), Seat::A);
    put_spirit(&mut st, 13, CardId(0), Seat::A);
    st.board[13].spirit.as_mut().unwrap().attack = 35;
    st.bonds.push(Bond { card: CardId(20), owner: Seat::A, tile_a: 12, tile_b: 13 });
    let v = combat_stats_for_test(&st, &canon, &cat, 12);
    assert_eq!((v.attack, v.defense), (35, 5));
    // Split apart, the pair shares nothing.
    st.bonds[0].tile_b = 14;
    let v = combat_stats_for_test(&st, &canon, &cat, 12);
    assert_eq!((v.attack, v.defense), (10, 0));
    assert_eq!(owner_grants_pair_share(&st, &canon, &cat, Seat::A), (false, false));
}

#[test]
fn the_landmark_underfoot_buffs_its_occupant() {
    let (canon, cat) = world(vec![(20, "Hill", vec![aura(vec![clause(Selector::OccupantHere, stat(0, 20))])])]);
    let mut st = board();
    put_spirit(&mut st, 12, CardId(0), Seat::B);
    st.board[12].terrain = Some(Terrain { card: CardId(20), owner: Seat::A, kind: TerrainKind::Landmark, face_down: false });
    let v = combat_stats(&st, &canon, &cat, 12, None);
    assert_eq!((v.atk, v.def), (10, 20));
    st.board[12].terrain.as_mut().unwrap().face_down = true;
    let v = combat_stats(&st, &canon, &cat, 12, None);
    assert_eq!((v.atk, v.def), (10, 0));
}

#[test]
fn momentum_flags_come_from_self_and_allies() {
    let mom = Effect::MomentumMod { first_engage_bonus: true, chain_while_defeating: false, per_link_bonus: 5, chain_no_retaliation: false };
    let (canon, cat) = world(vec![(20, "Spark", vec![aura(vec![clause(Selector::AlliesAll, mom)])])]);
    let mut st = board();
    put_spirit(&mut st, 12, CardId(0), Seat::A);
    put_spirit(&mut st, 3, CardId(20), Seat::A);
    let v = combat_stats_for_test(&st, &canon, &cat, 12);
    assert!(v.momentum_first_bonus);
    assert_eq!(v.momentum_per_link_bonus, 5);
    // An enemy's Momentum aura is not ours.
    st.board[3].spirit.as_mut().unwrap().owner = Seat::B;
    let v = combat_stats_for_test(&st, &canon, &cat, 12);
    assert!(!v.momentum_first_bonus);
}

#[test]
fn grudge_counts_enemy_impressions_and_the_struck_enemy_shifts_attack() {
    let (canon, cat) = world(vec![
        (20, "Grudge", vec![aura(vec![clause(Selector::SelfSpirit, Effect::AttackPerEnemyImpression { amount: 5 })])]),
        (21, "Whisperer", vec![aura(vec![clause(Selector::SelfSpirit, Effect::EngagerAttackDelta { attack: -8 })])]),
    ]);
    let mut st = board();
    put_spirit(&mut st, 12, CardId(20), Seat::A);
    st.board[0].impressions.push(Seat::B);
    st.board[1].impressions.push(Seat::B);
    st.board[2].impressions.push(Seat::A);
    put_spirit(&mut st, 7, CardId(21), Seat::B);
    assert_eq!(combat_stats(&st, &canon, &cat, 12, None).atk, 20);
    assert_eq!(combat_stats(&st, &canon, &cat, 12, Some(7)).atk, 12);
}

#[test]
fn keywords_are_printed_played_or_granted() {
    let (canon, cat) = world(vec![(20, "Guard", vec![aura(vec![clause(Selector::AdjacentAlliesAll,
        Effect::GrantKeyword { keyword: Keyword::Warded })])])]);
    let mut st = board();
    put_spirit(&mut st, 12, CardId(7), Seat::A); // Hymnal Hart: printed Warded
    put_spirit(&mut st, 6, CardId(0), Seat::A);
    assert!(keyword_active_for_test(&st, &canon, &cat, 12, Keyword::Warded));
    assert!(!keyword_active_for_test(&st, &canon, &cat, 6, Keyword::Warded));
    put_spirit(&mut st, 5, CardId(20), Seat::A);
    assert!(keyword_active_for_test(&st, &canon, &cat, 6, Keyword::Warded), "granted by the adjacent Guard");
    st.board[12].spirit.as_mut().unwrap().traits_stripped = true;
    assert!(!keyword_active_for_test(&st, &canon, &cat, 12, Keyword::Warded));
    st.board[12].spirit.as_mut().unwrap().kw_grants.push((Keyword::Mobile, 1));
    assert!(keyword_active_for_test(&st, &canon, &cat, 12, Keyword::Mobile));
    st.round = 2;
    assert!(!keyword_active_for_test(&st, &canon, &cat, 12, Keyword::Mobile));
}

fn card(cat: &[CardDef], i: usize) -> CardDef {
    cat[i].clone()
}

#[test]
fn forecast_reports_both_blows() {
    let (canon, cat) = world(vec![]);
    let heron = card(&cat, 1); // Wonder, Arcane, 40/20/40
    let hushling = card(&cat, 2); // Fear, 10/20/30
    let mut st = board();
    put_spirit(&mut st, 7, CardId(2), Seat::B);
    let dfn = st.board[7].spirit.clone().unwrap(); // 10/0/40
    // Wonder has the Edge over Fear: 40 + 10 + 0 - (0 pierced to 0) = 50; back: 10 - 20 -> 0.
    let f = forecast_exchange(&canon, &heron, 40, 20, 40, 40, &dfn, &hushling, 0, false);
    assert_eq!((f.to_defender, f.to_attacker), (50, 0));
    assert!(f.banishes_defender && !f.banishes_attacker);
    assert!(!f.attacker_echo_live && !f.defender_echo_live);
    // A warded defender with 30 Defense keeps it: 40 + 10 + 5 - 30 = 25.
    let mut tough = dfn.clone();
    tough.defense = 30;
    let f = forecast_exchange(&canon, &heron, 40, 20, 40, 40, &tough, &hushling, 5, true);
    assert_eq!(f.to_defender, 25);
    assert!(!f.banishes_defender);
    // Unwarded, the Arcane pierce takes 20 of it: 40 + 10 + 5 - 10 = 45.
    let f = forecast_exchange(&canon, &heron, 40, 20, 40, 40, &tough, &hushling, 5, false);
    assert_eq!(f.to_defender, 45);
    // Reversed, the Wonder defender strikes back with the Edge; an attacker at Echo is live.
    let f = forecast_exchange(&canon, &hushling, 10, 0, 10, 30, &dfn, &heron, 0, false);
    assert_eq!((f.to_defender, f.to_attacker), (10, 20));
    assert!(f.attacker_echo_live && f.banishes_attacker);
}

#[test]
fn the_forgiven_debt_leaves_the_defender_at_one() {
    let spec = EffectSpec { trigger: Trigger::Static, condition: Condition::Always,
        clauses: vec![clause(Selector::SelfSpirit, Effect::Exception(RuleException::UnbanishableByEcho))] };
    let (canon, cat) = world(vec![(20, "Debt", vec![spec])]);
    let debt = cat.iter().find(|c| c.id == CardId(20)).unwrap().clone();
    let attacker = card(&cat, 17); // Kilnhorn Rhino
    let mut st = board();
    put_spirit(&mut st, 7, CardId(20), Seat::B); // 40 HP
    let dfn = st.board[7].spirit.clone().unwrap();
    // At Echo (10 of 70 HP) the lethal blow is capped at 39.
    let f = forecast_exchange(&canon, &attacker, 60, 30, 10, 70, &dfn, &debt, 0, false);
    assert_eq!(f.to_defender, 39);
    assert!(!f.banishes_defender);
    // A healthy attacker is not capped.
    let f = forecast_exchange(&canon, &attacker, 60, 30, 70, 70, &dfn, &debt, 0, false);
    assert_eq!(f.to_defender, 60);
    assert!(f.banishes_defender);
}
