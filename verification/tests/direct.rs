use recollect_core::cards::test_catalog;
use recollect_core::direct::{apply_direct_clause, damage_step, push_away, Followup};
use recollect_core::effects::{Canon, Clause, Condition, Displacement, Duration, Effect, EffectSpec, EffectsFile, Restriction, Selector, Trigger};
use recollect_core::events::{AnimaReason, Event};
use recollect_core::state::{Bond, GameState, MatchRules, Phase, PlayerState, TempRestrict, Terrain, TerrainKind, TileState};
use recollect_core::test_support::put_spirit;
use recollect_core::types::{CardDef, CardId, Faction, Resonance, Seat, SeatSlot};

fn player() -> PlayerState {
    PlayerState { hand: Vec::new(), deck: Vec::new(), anima: 0, glimpsed_this_turn: false, peeked_top: None, first_placement_done: false }
}

fn board() -> GameState {
    GameState {
        rules: MatchRules { last_round: 12, contraction_after: 8, factions: [Faction::Lorekeeper, Faction::Lorekeeper] },
        contracted: false,
        round: 3,
        active: Seat::A,
        phase: Phase::Acting,
        board: (0..25).map(|_| TileState { spirit: None, terrain: None, impressions: Vec::new(), faded: false }).collect(),
        board_w: 5,
        player_a: player(),
        player_b: player(),
        player_a2: None,
        player_b2: None,
        active_slot: SeatSlot::A1,
        moved_this_turn: Vec::new(),
        temp_mods: Vec::new(),
        temp_reach: Vec::new(),
        temp_restrict: Vec::new(),
        temp_retaliation: Vec::new(),
        card_tax: [(0, 0), (0, 0)],
        ignore_imprint_this_turn: [false, false],
        silenced_terrain: None,
        bonds: Vec::new(),
        stray: None,
        mulliganed: [false, false],
        solace_erasures: 0,
        dissolved: Vec::new(),
        next_ritual_discount: [0, 0],
        dissolved_this_turn: [0, 0],
        fade_delayed: Vec::new(),
        pending_flow_anima: [0, 0],
        next_arrival_atk: [0, 0],
        next_arrival_2nd_engage: [None, None],
        peeked_fabs: [Vec::new(), Vec::new()],
        ritual_extra_targets: 0,
        impressions_dormant_round: None,
        calm_tiles: Vec::new(),
        last_played_spirit: [None, None],
        stray_telegraph: None,
        stray_match: false,
        unwriting_told_this_round: false,
        pending_choice: None,
    }
}

fn clause(selector: Selector, effect: Effect, duration: Duration) -> Clause {
    Clause { selector, effect, duration }
}

fn run(st: &mut GameState, cat: &[CardDef], cl: &Clause, source: Option<u8>, engager: Option<u8>) -> (Vec<Event>, Followup) {
    let mut evs = Vec::new();
    let f = apply_direct_clause(st, &mut evs, cat, cl, source, Seat::A, engager);
    (evs, f)
}

#[test]
fn a_draw_takes_only_what_the_deck_holds() {
    let cat = test_catalog();
    let mut st = board();
    st.player_a.deck = vec![CardId(1), CardId(2), CardId(3)];
    let (evs, f) = run(&mut st, &cat, &clause(Selector::Owner, Effect::Draw { count: 2 }, Duration::Instant), None, None);
    assert!(matches!(f, Followup::Nothing));
    assert_eq!(evs.len(), 2);
    assert_eq!(st.player_a.hand, vec![CardId(1), CardId(2)]);
    let (evs2, _) = run(&mut st, &cat, &clause(Selector::Owner, Effect::Draw { count: 4 }, Duration::Instant), None, None);
    assert_eq!(evs2.len(), 1);
    assert!(st.player_a.deck.is_empty());
}

#[test]
fn trade_winds_draw_for_both_narrators() {
    let cat = test_catalog();
    let mut st = board();
    st.player_b.deck = vec![CardId(5)];
    let (evs, _) = run(&mut st, &cat, &clause(Selector::BothNarrators, Effect::Draw { count: 1 }, Duration::Instant), None, None);
    assert_eq!(evs.len(), 1);
    assert!(matches!(evs[0], Event::CardDrawn { seat: Seat::B }));
    assert_eq!(st.player_b.hand, vec![CardId(5)]);
}

#[test]
fn anima_gains_and_the_toll() {
    let cat = test_catalog();
    let mut st = board();
    let (evs, _) = run(&mut st, &cat, &clause(Selector::Owner, Effect::AnimaDelta { amount: 3 }, Duration::Instant), None, None);
    assert!(matches!(evs[0], Event::AnimaGained { seat: Seat::A, amount: 3, reason: AnimaReason::Effect }));
    assert_eq!(st.player_a.anima, 3);
    put_spirit(&mut st, 7, CardId(0), Seat::B);
    st.player_b.anima = 1;
    let (evs2, _) = run(&mut st, &cat, &clause(Selector::Engager, Effect::AnimaDelta { amount: -2 }, Duration::Instant), Some(12), Some(7));
    assert_eq!(evs2.len(), 1);
    assert!(matches!(evs2[0], Event::AnimaSpent { seat: Seat::B, amount: 1 }));
    assert_eq!(st.player_b.anima, 0);
    // Nothing left to pay: nothing is recorded.
    let (evs3, _) = run(&mut st, &cat, &clause(Selector::Engager, Effect::AnimaDelta { amount: -2 }, Duration::Instant), Some(12), Some(7));
    assert!(evs3.is_empty());
}

#[test]
fn harvest_together_counts_adjacent_allied_pairs() {
    let cat = test_catalog();
    let mut st = board();
    put_spirit(&mut st, 6, CardId(0), Seat::A);
    put_spirit(&mut st, 7, CardId(0), Seat::A);
    put_spirit(&mut st, 12, CardId(0), Seat::A);
    put_spirit(&mut st, 13, CardId(0), Seat::B);
    put_spirit(&mut st, 20, CardId(0), Seat::A);
    let (evs, _) = run(&mut st, &cat, &clause(Selector::Owner, Effect::AnimaPerAdjacentAlliedPair { max: 5 }, Duration::Instant), None, None);
    assert_eq!(evs.len(), 1);
    assert!(matches!(evs[0], Event::AnimaGained { seat: Seat::A, amount: 2, .. }));
    let (evs2, _) = run(&mut st, &cat, &clause(Selector::Owner, Effect::AnimaPerAdjacentAlliedPair { max: 1 }, Duration::Instant), None, None);
    assert!(matches!(evs2[0], Event::AnimaGained { seat: Seat::A, amount: 1, .. }));
}

#[test]
fn cost_changes_discount_or_tax() {
    let cat = test_catalog();
    let mut st = board();
    let (evs, _) = run(&mut st, &cat, &clause(Selector::Owner, Effect::CostDelta { delta: -2 }, Duration::Instant), None, None);
    assert!(matches!(evs[0], Event::RitualDiscountGranted { seat: Seat::A, amount: 2 }));
    let (evs2, _) = run(&mut st, &cat, &clause(Selector::BothNarrators, Effect::CostDelta { delta: 1 }, Duration::Instant), None, None);
    assert_eq!(evs2.len(), 2);
    assert!(matches!(evs2[0], Event::CardTaxed { seat: Seat::A, amount: 1, until_round: 4 }));
    assert!(matches!(evs2[1], Event::CardTaxed { seat: Seat::B, amount: 1, until_round: 4 }));
}

#[test]
fn the_fallen_pay_out_in_cards_and_anima() {
    let cat = test_catalog();
    let mut st = board();
    st.dissolved_this_turn = [2, 0];
    st.player_a.deck = vec![CardId(1), CardId(2), CardId(3), CardId(4)];
    let (evs, _) = run(&mut st, &cat, &clause(Selector::Owner, Effect::DrawPerBanishedThisTurn { max: 3 }, Duration::Instant), None, None);
    assert_eq!(evs.len(), 2);
    st.dissolved = vec![(Seat::A, CardId(0)), (Seat::B, CardId(1)), (Seat::A, CardId(2))];
    let (evs2, _) = run(&mut st, &cat, &clause(Selector::Owner, Effect::AnimaPerBanishedAlly { max: 5 }, Duration::Instant), None, None);
    assert!(matches!(evs2[0], Event::AnimaGained { seat: Seat::A, amount: 2, .. }));
}

#[test]
fn a_restore_reaches_the_dying_ally_too() {
    let cat = test_catalog();
    let mut st = board();
    put_spirit(&mut st, 6, CardId(0), Seat::A);
    put_spirit(&mut st, 8, CardId(0), Seat::A);
    put_spirit(&mut st, 9, CardId(0), Seat::B);
    st.board[8].spirit.as_mut().unwrap().fading = true;
    st.board[8].spirit.as_mut().unwrap().hp = 0;
    let (evs, _) = run(&mut st, &cat, &clause(Selector::AlliesAll, Effect::RestoreForm { amount: 5 }, Duration::Instant), None, None);
    assert_eq!(evs.len(), 2);
    assert!(matches!(evs[0], Event::EffectRestored { tile: 6, amount: 5 }));
    assert!(matches!(evs[1], Event::EffectRestored { tile: 8, amount: 5 }));
}

#[test]
fn war_roar_lifts_only_the_imprinted_allies_this_round() {
    let mut cat = test_catalog();
    cat[1].imprints = vec!["Beast".to_string()];
    let mut st = board();
    put_spirit(&mut st, 6, CardId(1), Seat::A);
    put_spirit(&mut st, 7, CardId(0), Seat::A);
    put_spirit(&mut st, 8, CardId(1), Seat::B);
    let cl = clause(Selector::AlliesWithImprint { imprint: "Beast".to_string() }, Effect::StatDelta { attack: 10, defense: 0, form: 0 }, Duration::ThisRound);
    let (evs, _) = run(&mut st, &cat, &cl, None, None);
    assert_eq!(evs.len(), 1);
    assert!(matches!(evs[0], Event::EffectTempStat { tile: 6, attack: 10, defense: 0, until_round: 3 }));
}

#[test]
fn common_cause_buffs_both_ends_of_the_bond() {
    let cat = test_catalog();
    let mut st = board();
    put_spirit(&mut st, 6, CardId(0), Seat::A);
    put_spirit(&mut st, 7, CardId(0), Seat::A);
    st.bonds = vec![Bond { card: CardId(3), owner: Seat::A, tile_a: 6, tile_b: 7 }];
    let cl = clause(Selector::BondedPair, Effect::StatDelta { attack: 5, defense: 5, form: 10 }, Duration::Permanent);
    let (evs, _) = run(&mut st, &cat, &cl, Some(7), None);
    assert_eq!(evs.len(), 2);
    assert!(matches!(evs[0], Event::EffectStat { tile: 6, attack: 5, defense: 5, form: 10 }));
    assert!(matches!(evs[1], Event::EffectStat { tile: 7, attack: 5, defense: 5, form: 10 }));
    assert_eq!(st.board[6].spirit.as_ref().unwrap().attack, 15);
}

#[test]
fn eruption_strikes_the_enemies_beside_kin_and_reports_the_fallen() {
    let cat = test_catalog();
    let mut st = board();
    put_spirit(&mut st, 12, CardId(8), Seat::A);
    put_spirit(&mut st, 13, CardId(0), Seat::B);
    put_spirit(&mut st, 0, CardId(0), Seat::B);
    let cl = clause(Selector::EnemiesAdjacentToAlliesOf { resonance: Resonance::Fury }, Effect::Damage { amount: 40 }, Duration::Instant);
    let (evs, f) = run(&mut st, &cat, &cl, None, None);
    assert!(evs.is_empty());
    match f {
        Followup::Damage { targets, amount } => {
            assert_eq!(targets, vec![13u8]);
            assert_eq!(amount, 40);
            let mut evs2 = Vec::new();
            assert!(damage_step(&mut st, &mut evs2, 13, amount));
            assert_eq!(st.board[13].spirit.as_ref().unwrap().hp, 0);
        },
        _ => panic!("expected damage"),
    }
}

#[test]
fn a_reveal_turns_up_every_hidden_enemy_fabrication() {
    let cat = test_catalog();
    let mut st = board();
    st.board[3].terrain = Some(Terrain { card: CardId(2), owner: Seat::B, kind: TerrainKind::Fabrication, face_down: true });
    st.board[4].terrain = Some(Terrain { card: CardId(2), owner: Seat::B, kind: TerrainKind::Fabrication, face_down: false });
    st.board[5].terrain = Some(Terrain { card: CardId(2), owner: Seat::A, kind: TerrainKind::Fabrication, face_down: true });
    let (_, f) = run(&mut st, &cat, &clause(Selector::EnemiesAll, Effect::RevealFabrication, Duration::Instant), None, None);
    match f {
        Followup::Reveal { tiles } => assert_eq!(tiles, vec![3u8]),
        _ => panic!("expected a reveal"),
    }
}

#[test]
fn a_push_comes_back_with_its_source_and_targets() {
    let cat = test_catalog();
    let mut st = board();
    put_spirit(&mut st, 12, CardId(0), Seat::A);
    put_spirit(&mut st, 13, CardId(0), Seat::B);
    let cl = clause(Selector::AdjacentEnemiesAll, Effect::Displace(Displacement::Push { tiles: 1 }), Duration::Instant);
    let (evs, f) = run(&mut st, &cat, &cl, Some(12), None);
    assert!(evs.is_empty());
    match f {
        Followup::Push { source, targets, tiles } => {
            assert_eq!(source, 12);
            assert_eq!(targets, vec![13u8]);
            assert_eq!(tiles, 1);
        },
        _ => panic!("expected a push"),
    }
}

#[test]
fn an_unsupported_clause_does_nothing() {
    let cat = test_catalog();
    let mut st = board();
    st.player_a.deck = vec![CardId(1)];
    let (evs, f) = run(&mut st, &cat, &clause(Selector::Owner, Effect::Bounce, Duration::Instant), None, None);
    assert!(evs.is_empty());
    assert!(matches!(f, Followup::Nothing));
    assert_eq!(st.player_a.deck, vec![CardId(1)]);
}

fn canon_with_herald() -> (Canon, Vec<CardDef>) {
    let mut cat = test_catalog();
    let mut herald = cat[0].clone();
    herald.id = CardId(120);
    herald.name = "Herald".to_string();
    herald.key = "key-herald".to_string();
    cat.push(herald);
    let spec = EffectSpec {
        trigger: Trigger::Static,
        condition: Condition::Always,
        clauses: vec![Clause { selector: Selector::EnemiesAll, effect: Effect::ImpressionPushDamage { amount: 15 }, duration: Duration::WhilePresent }],
    };
    let canon = Canon { catalog: cat.clone(), effects: EffectsFile { specs: vec![("key-herald".to_string(), vec![spec])], pending: Vec::new(), behavior: Vec::new() } };
    (canon, cat)
}

#[test]
fn a_push_moves_straight_away_from_the_source() {
    let (canon, cat) = canon_with_herald();
    let mut st = board();
    put_spirit(&mut st, 13, CardId(0), Seat::B);
    let mut evs = Vec::new();
    assert_eq!(push_away(&mut st, &mut evs, &canon, &cat, 12, 13, 1), None);
    assert_eq!(evs.len(), 1);
    assert!(matches!(evs[0], Event::SpiritPushed { from: 13, to: 14 }));
    assert!(st.board[13].spirit.is_none());
    assert!(st.board[14].spirit.is_some());
    // Diagonally off the source, it goes diagonally.
    put_spirit(&mut st, 12, CardId(0), Seat::B);
    let mut evs2 = Vec::new();
    push_away(&mut st, &mut evs2, &canon, &cat, 6, 12, 1);
    assert!(matches!(evs2[0], Event::SpiritPushed { from: 12, to: 18 }));
}

#[test]
fn a_push_off_the_board_or_into_a_spirit_fails() {
    let (canon, cat) = canon_with_herald();
    let mut st = board();
    put_spirit(&mut st, 14, CardId(0), Seat::B);
    let mut evs = Vec::new();
    assert_eq!(push_away(&mut st, &mut evs, &canon, &cat, 13, 14, 1), None);
    assert!(evs.is_empty());
    put_spirit(&mut st, 8, CardId(0), Seat::B);
    put_spirit(&mut st, 9, CardId(0), Seat::A);
    push_away(&mut st, &mut evs, &canon, &cat, 7, 8, 1);
    assert!(evs.is_empty());
    assert!(st.board[8].spirit.is_some());
}

#[test]
fn a_seat_barred_from_being_pushed_stays() {
    let (canon, cat) = canon_with_herald();
    let mut st = board();
    put_spirit(&mut st, 13, CardId(0), Seat::B);
    st.temp_restrict = vec![TempRestrict { seat: Seat::B, restriction: Restriction::BePushed, until_round: 3 }];
    let mut evs = Vec::new();
    push_away(&mut st, &mut evs, &canon, &cat, 12, 13, 1);
    assert!(evs.is_empty());
    assert!(st.board[13].spirit.is_some());
}

#[test]
fn a_herald_stings_a_spirit_pushed_onto_a_mark() {
    let (canon, cat) = canon_with_herald();
    let mut st = board();
    put_spirit(&mut st, 0, CardId(120), Seat::A);
    put_spirit(&mut st, 13, CardId(0), Seat::B);
    st.board[14].impressions = vec![Seat::A];
    st.board[13].spirit.as_mut().unwrap().hp = 10;
    let mut evs = Vec::new();
    let felled = push_away(&mut st, &mut evs, &canon, &cat, 12, 13, 1);
    assert_eq!(evs.len(), 2);
    assert!(matches!(evs[1], Event::EffectDamaged { tile: 14, amount: 15 }));
    assert_eq!(felled, Some(14));
}
