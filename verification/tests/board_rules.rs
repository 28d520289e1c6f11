use recollect_core::cards::test_catalog;
use recollect_core::effects::{Canon, Clause, Condition, Duration, Effect, EffectSpec, EffectsFile, Replacement, RuleException, Selector, Trigger};
use recollect_core::evolution::legal_evolutions_for_test;
use recollect_core::exchange::{conspiracy_counter, damage_redirect_to_partner, doctrine_pick, pack_tactics_chip};
use recollect_core::invariants::{check, check_state, Violation};
use recollect_core::rules::mulligan_window;
use recollect_core::state::{Temperament, Bond, GameState, MatchRules, Phase, PlayerState, Stray, TempReach, Terrain, TerrainKind, TileState};
use recollect_core::targeting::{reach_aura_delta, targeting_reach_for_test};
use recollect_core::targets::{banish_targets, card_eats_impression, card_move_heal, effect_targets, erasure_patience_cooled_tiles,
    fade_deadline_round, release_targets, restore_targets, stray_is_echo_wounded};
use recollect_core::test_support::put_spirit;
use recollect_core::throughline::{throughline_completion, throughline_imprints, throughline_run, unbreakable_bridges};
use recollect_core::types::{CardDef, CardId, CardKind, Faction, Resonance, Seat, SeatSlot};

fn player() -> PlayerState {
    PlayerState { hand: Vec::new(), deck: Vec::new(), anima: 0, glimpsed_this_turn: false, peeked_top: None, first_placement_done: false }
}

fn board() -> GameState {
    GameState {
        rules: MatchRules { last_round: 12, contraction_after: 8, factions: [Faction::Lorekeeper, Faction::Lorekeeper] },
        contracted: false,
        round: 1,
        active: Seat::A,
        phase: Phase::Acting,
        board: (0..25).map(|_| TileState { spirit: None, terrain: None, impressions: Vec::new(), faded: false }).collect(),
        board_w: 5,
        player_a: player(),
        player_b: player(),
        player_a2: None,
        player_b2: None,
        active_slot: SeatSlot::A1,
        moved_this_turn: Vec::new(),
        temp_mods: Vec::new(),
        temp_reach: Vec::new(),
        temp_restrict: Vec::new(),
        temp_retaliation: Vec::new(),
        card_tax: [(0, 0), (0, 0)],
        ignore_imprint_this_turn: [false, false],
        silenced_terrain: None,
        bonds: Vec::new(),
        stray: None,
        mulliganed: [false, false],
        solace_erasures: 0,
        dissolved: Vec::new(),
        next_ritual_discount: [0, 0],
        dissolved_this_turn: [0, 0],
        fade_delayed: Vec::new(),
        pending_flow_anima: [0, 0],
        next_arrival_atk: [0, 0],
        next_arrival_2nd_engage: [None, None],
        peeked_fabs: [Vec::new(), Vec::new()],
        ritual_extra_targets: 0,
        impressions_dormant_round: None,
        calm_tiles: Vec::new(),
        last_played_spirit: [None, None],
        stray_telegraph: None,
        stray_match: false,
        unwriting_told_this_round: false,
        pending_choice: None,
    }
}

fn aura(selector: Selector, effect: Effect) -> EffectSpec {
    EffectSpec { trigger: Trigger::Static, condition: Condition::Always, clauses: vec![Clause { selector, effect, duration: Duration::WhilePresent }] }
}

fn world(extra: Vec<(u16, &str, Vec<EffectSpec>)>) -> (Canon, Vec<CardDef>) {
    let mut cat = test_catalog();
    let mut specs = Vec::new();
    for (id, name, sp) in extra {
        let mut c = cat[0].clone();
        c.id = CardId(id);
        c.name = name.to_string();
        c.key = format!("key-{name}");
        specs.push((c.key.clone(), sp));
        cat.push(c);
    }
    let canon = Canon { catalog: cat.clone(), effects: EffectsFile { specs, pending: Vec::new(), behavior: Vec::new() } };
    (canon, cat)
}

// ---- state validity ----

#[test]
fn a_clean_board_passes_the_check() {
    let mut st = board();
    assert_eq!(check(&st), Ok(()));
    put_spirit(&mut st, 4, CardId(0), Seat::A);
    assert_eq!(check(&st), Ok(()));
}

#[test]
fn the_check_names_the_first_violation() {
    let mut st = board();
    put_spirit(&mut st, 3, CardId(0), Seat::A);
    st.board[3].terrain = Some(Terrain { card: CardId(1), owner: Seat::B, kind: TerrainKind::Landmark, face_down: false });
    assert_eq!(check(&st).unwrap_err(), "tile 3: spirit AND terrain coexist");
    st.board[3].terrain = None;
    st.board[3].spirit.as_mut().unwrap().hp = 41;
    assert_eq!(check(&st).unwrap_err(), "tile 3: hp 41 > hp_max 40 (overheal)");
    st.board[3].spirit.as_mut().unwrap().hp = -2;
    assert_eq!(check(&st).unwrap_err(), "tile 3: a standing spirit has hp -2 <= 0");
    st.board[3].spirit.as_mut().unwrap().hp = 40;
    st.board[3].spirit.as_mut().unwrap().attack = -101;
    assert_eq!(check(&st).unwrap_err(), "tile 3: stat underflow a=-101 d=0");
    st.board[3].spirit.as_mut().unwrap().attack = 10;
    st.board[3].spirit.as_mut().unwrap().fading = true;
    assert_eq!(
        check(&st).unwrap_err(),
        "tile 3: fading=true but fade_deadline.is_some()=false — every Fading spirit must carry a deadline now that the Dusk is instant and Fade is at turn-END"
    );
    st.board[3].spirit.as_mut().unwrap().fade_deadline = Some(14);
    assert_eq!(check(&st).unwrap_err(), "tile 3: a fade_deadline without a banisher (the window is combat-only)");
    st.board[3].spirit.as_mut().unwrap().banished_by = Some(Seat::B);
    assert_eq!(check(&st).unwrap_err(), "tile 3: fade_deadline 14 past last_round 12 + 1");
    st.board[3].spirit.as_mut().unwrap().fade_deadline = Some(13);
    assert_eq!(check(&st), Ok(()));
    st.round = 14;
    assert_eq!(check(&st).unwrap_err(), "round 14 ran past last_round 12");
    assert_eq!(check_state(&st), Some(Violation::RoundPastLast { round: 14, last_round: 12 }));
}

#[test]
fn the_stray_and_faded_tiles_are_checked() {
    let mut st = board();
    st.stray = Some(Stray { temperament: Temperament::Gentle, card: CardId(2), tile: 8, veiled: false, courtship: 0, courted_by: None, hp: 20, hp_max: 20 });
    put_spirit(&mut st, 8, CardId(0), Seat::A);
    assert_eq!(check(&st).unwrap_err(), "tile 8: spirit AND stray coexist");
    st.board[8].spirit = None;
    st.board[8].terrain = Some(Terrain { card: CardId(1), owner: Seat::B, kind: TerrainKind::Fabrication, face_down: true });
    assert_eq!(check(&st).unwrap_err(), "tile 8: terrain AND stray coexist");
    st.stray = None;
    st.board[8].faded = true;
    assert_eq!(check(&st).unwrap_err(), "tile 8: terrain on a faded tile");
    st.board[8].terrain = None;
    st.phase = Phase::Finished { result: recollect_core::state::MatchResult::Draw, score_a: 20, score_b: 10 };
    assert_eq!(check(&st).unwrap_err(), "final score 20+10 exceeds board 25");
}

// ---- targeting reach ----

#[test]
fn targeting_reach_widens_by_auras_and_buffs() {
    let (canon, cat) = world(vec![(20, "Pathfinder", vec![aura(Selector::AdjacentAlliesAll,
        Effect::ReachDelta { forward: 1, all_directions: false, targeting_only: true })])]);
    let mut st = board();
    put_spirit(&mut st, 12, CardId(9), Seat::A); // Bristleboar: Lance
    assert_eq!(targeting_reach_for_test(&st, &canon, &cat, 12, Seat::A), vec![7, 2]);
    put_spirit(&mut st, 13, CardId(20), Seat::A);
    assert_eq!(reach_aura_delta(&st, &canon, &cat, 12), (1, false));
    // 7 spawns 2 (already listed); 2 spawns nothing on the board.
    assert_eq!(targeting_reach_for_test(&st, &canon, &cat, 12, Seat::A), vec![7, 2]);
    // A this-round all-directions buff adds every neighbour of the base tiles (never the
    // spirit's own tile).
    st.temp_reach.push(TempReach { seat: Seat::A, tile: Some(12), forward: 0, all_directions: true, targeting_only: true, until_round: 1 });
    assert_eq!(reach_aura_delta(&st, &canon, &cat, 12), (1, true));
    assert_eq!(targeting_reach_for_test(&st, &canon, &cat, 12, Seat::A), vec![7, 2, 8, 6, 3, 1]);
}

// ---- evolution ----

#[test]
fn evolutions_follow_the_shared_imprint_rule() {
    let mut cat = test_catalog();
    let mut base = cat[0].clone();
    base.id = CardId(30);
    base.name = "Cub".to_string();
    base.imprints = vec!["Hearth".to_string()];
    base.evolves_to = vec!["Direwolf".to_string(), "Stranger".to_string(), "Missing".to_string()];
    let mut wolf = cat[0].clone();
    wolf.id = CardId(31);
    wolf.name = "Direwolf".to_string();
    wolf.kind = CardKind::Evolution;
    wolf.imprints = vec!["Hearth".to_string(), "Hunt".to_string()];
    let mut stranger = wolf.clone();
    stranger.id = CardId(32);
    stranger.name = "Stranger".to_string();
    stranger.imprints = vec!["Elsewhere".to_string()];
    cat.push(base.clone());
    cat.push(wolf);
    cat.push(stranger);
    let canon = Canon { catalog: cat.clone(), effects: EffectsFile { specs: Vec::new(), pending: Vec::new(), behavior: Vec::new() } };
    let mut st = board();
    assert_eq!(legal_evolutions_for_test(&st, &canon, &cat, &base, Seat::A), vec![CardId(31)]);
    // Freed this turn, every listed form the catalog holds is open.
    st.ignore_imprint_this_turn = [true, false];
    assert_eq!(legal_evolutions_for_test(&st, &canon, &cat, &base, Seat::A), vec![CardId(31), CardId(32)]);
    assert_eq!(legal_evolutions_for_test(&st, &canon, &cat, &base, Seat::B), vec![CardId(31)]);
    // A form never evolves further.
    let mut form = base.clone();
    form.evolves_from = Some("Egg".to_string());
    assert!(legal_evolutions_for_test(&st, &canon, &cat, &form, Seat::A).is_empty());
}

// ---- bond riders and the doctrine ----

#[test]
fn pack_tactics_and_conspiracy_need_a_live_pair_and_reach() {
    let chip = EffectSpec { trigger: Trigger::Static, condition: Condition::Always, clauses: vec![Clause {
        selector: Selector::BondedPair, effect: Effect::GrantEngage { immediate: false, pre_chip: 10 }, duration: Duration::WhilePresent }] };
    let counter = EffectSpec { trigger: Trigger::Static, condition: Condition::Always, clauses: vec![Clause {
        selector: Selector::BondedPair, effect: Effect::GrantEngage { immediate: true, pre_chip: 0 }, duration: Duration::WhilePresent }] };
    let (canon, cat) = world(vec![(20, "Pack", vec![chip]), (21, "Plot", vec![counter])]);
    let mut st = board();
    put_spirit(&mut st, 12, CardId(0), Seat::A); // attacker
    put_spirit(&mut st, 13, CardId(0), Seat::A); // partner (Cross)
    put_spirit(&mut st, 8, CardId(0), Seat::B); // defender: in the partner's reach (13 faces up to 8)
    st.bonds.push(Bond { card: CardId(20), owner: Seat::A, tile_a: 12, tile_b: 13 });
    assert_eq!(pack_tactics_chip(&st, &canon, &cat, 12, 8), Some(10));
    assert_eq!(pack_tactics_chip(&st, &canon, &cat, 12, 2), None, "not in the partner's reach");
    st.board[13].spirit.as_mut().unwrap().no_engage_until = 1;
    assert_eq!(pack_tactics_chip(&st, &canon, &cat, 12, 8), None, "the partner may not engage");
    st.board[13].spirit.as_mut().unwrap().no_engage_until = 0;
    assert_eq!(conspiracy_counter(&st, &canon, &cat, 12, 8), None, "a pre-chip bond is no counter bond");
    st.bonds[0].card = CardId(21);
    assert_eq!(conspiracy_counter(&st, &canon, &cat, 12, 8), Some((13, Seat::A)));
}

#[test]
fn promise_and_grief_split_redirect_a_lethal_blow() {
    let promise = EffectSpec { trigger: Trigger::Static, condition: Condition::OncePerMatch, clauses: vec![Clause {
        selector: Selector::BondedPair, effect: Effect::Replace(Replacement::PartnerTakesIt), duration: Duration::WhilePresent }] };
    let split = EffectSpec { trigger: Trigger::Static, condition: Condition::PairAdjacent, clauses: vec![Clause {
        selector: Selector::BondedPair, effect: Effect::RedirectDamageToPartner, duration: Duration::WhilePresent }] };
    let (canon, cat) = world(vec![(20, "Promise", vec![promise]), (21, "Grief", vec![split])]);
    let mut st = board();
    put_spirit(&mut st, 12, CardId(0), Seat::A);
    put_spirit(&mut st, 13, CardId(0), Seat::A);
    st.bonds.push(Bond { card: CardId(20), owner: Seat::A, tile_a: 12, tile_b: 13 });
    assert_eq!(damage_redirect_to_partner(&st, &canon, &cat, 12, 40, 30), None, "not lethal");
    assert_eq!(damage_redirect_to_partner(&st, &canon, &cat, 12, 40, 50), Some((13, 50, true)));
    st.board[12].spirit.as_mut().unwrap().replacement_used = true;
    assert_eq!(damage_redirect_to_partner(&st, &canon, &cat, 12, 40, 50), None, "the Promise is spent");
    st.bonds[0].card = CardId(21);
    assert_eq!(damage_redirect_to_partner(&st, &canon, &cat, 12, 40, 50), Some((13, 11, false)));
}

#[test]
fn the_doctrine_picks_the_most_wounded_or_the_strongest() {
    let mut st = board();
    put_spirit(&mut st, 12, CardId(0), Seat::A); // source
    put_spirit(&mut st, 7, CardId(0), Seat::A);
    put_spirit(&mut st, 11, CardId(0), Seat::A);
    put_spirit(&mut st, 13, CardId(0), Seat::B);
    st.board[7].spirit.as_mut().unwrap().hp = 30;
    st.board[11].spirit.as_mut().unwrap().hp = 20;
    st.board[7].spirit.as_mut().unwrap().attack = 25;
    let heal = Effect::RestoreForm { amount: 10 };
    assert_eq!(doctrine_pick(&st, &Selector::AdjacentAllyChoose, &heal, 12, Seat::A), Some(11));
    assert_eq!(doctrine_pick(&st, &Selector::AdjacentAllyChoose, &Effect::StatDelta { attack: 10, defense: 0, form: 0 }, 12, Seat::A), Some(7));
    assert_eq!(doctrine_pick(&st, &Selector::AdjacentEnemyChoose, &heal, 12, Seat::A), Some(13));
    assert_eq!(doctrine_pick(&st, &Selector::AlliesAll, &heal, 12, Seat::A), None);
    // Ties: the first most wounded, the last strongest.
    st.board[7].spirit.as_mut().unwrap().hp = 20;
    st.board[7].spirit.as_mut().unwrap().attack = 10;
    assert_eq!(doctrine_pick(&st, &Selector::AdjacentAllyChoose, &heal, 12, Seat::A), Some(7));
    assert_eq!(doctrine_pick(&st, &Selector::AdjacentAllyChoose, &Effect::Damage { amount: 5 }, 12, Seat::A), Some(11));
}

// ---- selector resolution ----

#[test]
fn selectors_resolve_to_tiles() {
    let mut st = board();
    put_spirit(&mut st, 12, CardId(0), Seat::A);
    put_spirit(&mut st, 7, CardId(0), Seat::A);
    put_spirit(&mut st, 13, CardId(0), Seat::B);
    put_spirit(&mut st, 11, CardId(0), Seat::B);
    put_spirit(&mut st, 0, CardId(0), Seat::A);
    st.board[11].spirit.as_mut().unwrap().fading = true;
    assert_eq!(effect_targets(&st, &Selector::SelfSpirit, Some(12), Seat::A, None), vec![12]);
    assert_eq!(effect_targets(&st, &Selector::AlliesAll, Some(12), Seat::A, None), vec![0, 7, 12]);
    assert_eq!(effect_targets(&st, &Selector::AdjacentEnemiesAll, Some(12), Seat::A, None), vec![13]);
    assert_eq!(effect_targets(&st, &Selector::AdjacentAlliesAll, Some(12), Seat::A, None), vec![7]);
    assert_eq!(effect_targets(&st, &Selector::AllOtherSpirits, Some(12), Seat::A, None), vec![0, 7, 13]);
    assert_eq!(effect_targets(&st, &Selector::EngagedEnemy, Some(12), Seat::A, Some(13)), vec![13]);
    assert_eq!(effect_targets(&st, &Selector::EngagedEnemy, Some(12), Seat::A, None), vec![13]);
    assert_eq!(effect_targets(&st, &Selector::Owner, Some(12), Seat::A, None), Vec::<u8>::new());
    // Release reaches only the dying, of either side; Banish any state.
    assert_eq!(release_targets(&st, &Selector::AdjacentEnemiesAll, Some(12), Seat::A), vec![11]);
    assert_eq!(banish_targets(&st, &Selector::AdjacentEnemiesAll, Some(12), Seat::A), vec![11, 13]);
    assert_eq!(banish_targets(&st, &Selector::AdjacentEnemyChoose, Some(12), Seat::A), vec![11]);
    // A restore reaches the dying ally too, and the Bond partner.
    st.board[7].spirit.as_mut().unwrap().fading = true;
    assert_eq!(restore_targets(&st, &Selector::AdjacentAlliesAll, Some(12), Seat::A, None), vec![7]);
    st.bonds.push(Bond { card: CardId(1), owner: Seat::A, tile_a: 0, tile_b: 12 });
    assert_eq!(restore_targets(&st, &Selector::BondedPartner, Some(12), Seat::A, None), vec![0]);
    assert_eq!(restore_targets(&st, &Selector::BondedPartner, Some(7), Seat::A, None), Vec::<u8>::new());
}

#[test]
fn card_riders_and_small_rules() {
    let eat = EffectSpec { trigger: Trigger::OnMove, condition: Condition::Always, clauses: vec![
        Clause { selector: Selector::SelfSpirit, effect: Effect::ImpressionEat, duration: Duration::Instant },
        Clause { selector: Selector::SelfSpirit, effect: Effect::RestoreForm { amount: 10 }, duration: Duration::Instant }] };
    let cool = aura(Selector::SelfSpirit, Effect::Exception(RuleException::AdjacentImpressionsDontScore));
    let (canon, cat) = world(vec![(20, "Margin", vec![eat]), (21, "Patience", vec![cool])]);
    assert!(card_eats_impression(&canon, &cat, CardId(20)));
    assert!(!card_eats_impression(&canon, &cat, CardId(0)));
    assert_eq!(card_move_heal(&canon, &cat, CardId(20)), 10);
    assert_eq!(card_move_heal(&canon, &cat, CardId(21)), 0);
    let mut st = board();
    put_spirit(&mut st, 12, CardId(21), Seat::B);
    let mut cooled = erasure_patience_cooled_tiles(&st, &canon, &cat);
    cooled.sort();
    assert_eq!(cooled, vec![7, 11, 13, 17]);
    assert_eq!(fade_deadline_round(3, Seat::A, Seat::A), 4);
    assert_eq!(fade_deadline_round(3, Seat::A, Seat::B), 3);
    assert_eq!(fade_deadline_round(3, Seat::B, Seat::B), 4);
    let stray = Stray { temperament: Temperament::Gentle, card: CardId(2), tile: 8, veiled: false, courtship: 0, courted_by: None, hp: 9, hp_max: 20 };
    assert!(stray_is_echo_wounded(&stray, &cat[2]));
    assert!(!stray_is_echo_wounded(&Stray { hp: 10, ..stray }, &cat[2]));
}

#[test]
fn the_mulligan_window_closes_once_the_seat_acts() {
    let mut st = board();
    st.player_a.anima = 2;
    assert!(mulligan_window(&st, Seat::A));
    assert!(!mulligan_window(&st, Seat::B), "not B's turn");
    put_spirit(&mut st, 20, CardId(0), Seat::A);
    assert!(!mulligan_window(&st, Seat::A), "a footprint on the board");
    st.board[20].spirit = None;
    st.player_a.anima = 1;
    assert!(!mulligan_window(&st, Seat::A), "anima spent");
    st.player_a.anima = 2;
    st.mulliganed = [true, false];
    assert!(!mulligan_window(&st, Seat::A));
}

// ---- throughlines ----

#[test]
fn a_line_of_three_sharing_an_imprint_completes() {
    let queen = aura(Selector::Owner, Effect::ThroughlineGrant { attack: 5, defense: 0 });
    let (canon, mut cat) = world(vec![(20, "Queen", vec![queen])]);
    for c in cat.iter_mut() {
        c.imprints = vec!["Tide".to_string()];
    }
    let canon = Canon { catalog: cat.clone(), effects: canon.effects };
    let mut st = board();
    put_spirit(&mut st, 10, CardId(0), Seat::A);
    put_spirit(&mut st, 11, CardId(0), Seat::A);
    assert_eq!(throughline_imprints(&st, &canon, &cat, 11), vec!["Tide".to_string()]);
    assert_eq!(throughline_run(&st, &canon, &cat, 11, Seat::A, "Tide", 1, 0), 2);
    assert_eq!(throughline_completion(&st, &canon, &cat, 11, Seat::A), None);
    put_spirit(&mut st, 12, CardId(0), Seat::A);
    assert_eq!(throughline_run(&st, &canon, &cat, 11, Seat::A, "Tide", 1, 0), 3);
    assert_eq!(throughline_run(&st, &canon, &cat, 11, Seat::A, "Tide", 0, 1), 1);
    assert_eq!(throughline_completion(&st, &canon, &cat, 12, Seat::A), Some((10, 10)));
    // The Queen adds her grant.
    put_spirit(&mut st, 0, CardId(20), Seat::A);
    assert_eq!(throughline_completion(&st, &canon, &cat, 12, Seat::A), Some((15, 10)));
    // A completed spirit is not rewarded twice.
    st.board[12].spirit.as_mut().unwrap().throughline_done = true;
    assert_eq!(throughline_completion(&st, &canon, &cat, 12, Seat::A), None);
}

#[test]
fn an_unbreakable_bond_bridges_one_gap() {
    let unbreakable = aura(Selector::BondedPair, Effect::Exception(RuleException::BondHoldsUnlessSeparated));
    let (canon, mut cat) = world(vec![(20, "Unbreakable", vec![unbreakable])]);
    for c in cat.iter_mut() {
        c.imprints = vec!["Tide".to_string()];
    }
    let canon = Canon { catalog: cat.clone(), effects: canon.effects };
    let mut st = board();
    put_spirit(&mut st, 10, CardId(0), Seat::A);
    put_spirit(&mut st, 11, CardId(0), Seat::A);
    put_spirit(&mut st, 13, CardId(0), Seat::A);
    assert_eq!(throughline_run(&st, &canon, &cat, 11, Seat::A, "Tide", 1, 0), 2);
    st.bonds.push(Bond { card: CardId(20), owner: Seat::A, tile_a: 13, tile_b: 11 });
    assert!(unbreakable_bridges(&st, &canon, &cat, 11, 13));
    assert_eq!(throughline_run(&st, &canon, &cat, 11, Seat::A, "Tide", 1, 0), 3);
    assert_eq!(throughline_completion(&st, &canon, &cat, 10, Seat::A), Some((10, 10)));
}

#[test]
fn resonance_edges_run_round_the_wheel() {
    assert!(Resonance::Wonder.edge_over(Resonance::Fear));
    assert!(Resonance::Resolve.edge_over(Resonance::Wonder));
    assert!(!Resonance::Fear.edge_over(Resonance::Wonder));
    assert!(!Resonance::Fury.edge_over(Resonance::Fury));
}
