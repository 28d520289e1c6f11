use recollect_core::cards::test_catalog;
use recollect_core::state::{GameState, MatchRules, Phase, PlayerState, TileState};
use recollect_core::erasure::solace_clause_events;
use recollect_core::effects::Effect;
use recollect_core::events::Event;
use recollect_core::test_support::put_spirit;
use recollect_core::types::{CardId, Faction, Seat, SeatSlot};

fn player() -> PlayerState {
    PlayerState { hand: Vec::new(), deck: Vec::new(), anima: 0, glimpsed_this_turn: false, peeked_top: None, first_placement_done: false }
}

fn board() -> GameState {
    GameState {
        rules: MatchRules { last_round: 12, contraction_after: 8, factions: [Faction::Lorekeeper, Faction::Lorekeeper] },
        contracted: false,
        round: 1,
        active: Seat::A,
        phase: Phase::Acting,
        board: (0..25).map(|_| TileState { spirit: None, terrain: None, impressions: Vec::new(), faded: false }).collect(),
        board_w: 5,
        player_a: player(),
        player_b: player(),
        player_a2: None,
        player_b2: None,
        active_slot: SeatSlot::A1,
        moved_this_turn: Vec::new(),
        temp_mods: Vec::new(),
        temp_reach: Vec::new(),
        temp_restrict: Vec::new(),
        temp_retaliation: Vec::new(),
        card_tax: [(0, 0), (0, 0)],
        ignore_imprint_this_turn: [false, false],
        silenced_terrain: None,
        bonds: Vec::new(),
        stray: None,
        mulliganed: [false, false],
        solace_erasures: 0,
        dissolved: Vec::new(),
        next_ritual_discount: [0, 0],
        dissolved_this_turn: [0, 0],
        fade_delayed: Vec::new(),
        pending_flow_anima: [0, 0],
        next_arrival_atk: [0, 0],
        next_arrival_2nd_engage: [None, None],
        peeked_fabs: [Vec::new(), Vec::new()],
        ritual_extra_targets: 0,
        impressions_dormant_round: None,
        calm_tiles: Vec::new(),
        last_played_spirit: [None, None],
        stray_telegraph: None,
        stray_match: false,
        unwriting_told_this_round: false,
        pending_choice: None,
    }
}

#[test]
fn let_it_lie_stops_impressions_scoring_this_round() {
    let cat = test_catalog();
    let st = board();
    let v = solace_clause_events(&st, &cat, &Effect::StopImpressionScoring, None, Seat::B).unwrap();
    assert_eq!(v.len(), 1);
    assert!(matches!(v[0], Event::ImpressionsStoppedScoring { round: 1 }));
}

#[test]
fn a_mill_takes_the_named_seats_top_card() {
    let cat = test_catalog();
    let st = board();
    let v = solace_clause_events(&st, &cat, &Effect::MillTopDeck { opponent: true }, None, Seat::B).unwrap();
    assert!(matches!(v[0], Event::DeckMilled { seat: Seat::A }));
    let v = solace_clause_events(&st, &cat, &Effect::MillTopDeck { opponent: false }, None, Seat::B).unwrap();
    assert!(matches!(v[0], Event::DeckMilled { seat: Seat::B }));
}

#[test]
fn the_rims_mercy_releases_only_held_spirits_on_the_rim() {
    let cat = test_catalog();
    let mut st = board();
    put_spirit(&mut st, 0, CardId(0), Seat::A);
    put_spirit(&mut st, 4, CardId(0), Seat::A);
    put_spirit(&mut st, 12, CardId(0), Seat::A);
    st.board[0].spirit.as_mut().unwrap().holding = true;
    st.board[12].spirit.as_mut().unwrap().holding = true;
    let v = solace_clause_events(&st, &cat, &Effect::ReleaseHeldRim, None, Seat::B).unwrap();
    assert_eq!(v.len(), 1);
    assert!(matches!(v[0], Event::SpiritReleased { tile: 0 }));
}

#[test]
fn the_quiet_calms_the_first_two_inner_tiles_next_round() {
    let cat = test_catalog();
    let st = board();
    let v = solace_clause_events(&st, &cat, &Effect::ScheduleCalmTiles, None, Seat::B).unwrap();
    assert_eq!(v.len(), 1);
    match &v[0] {
        Event::TilesGoneCalm { tiles, round } => {
            assert_eq!(tiles, &vec![6u8, 7u8]);
            assert_eq!(*round, 2);
        },
        _ => panic!("expected calm tiles"),
    }
}

#[test]
fn the_eater_forgets_only_the_players_mark() {
    let cat = test_catalog();
    let mut st = board();
    st.board[7].impressions.push(Seat::A);
    let v = solace_clause_events(&st, &cat, &Effect::ImpressionEat, Some(7), Seat::B).unwrap();
    assert!(matches!(v[0], Event::ImpressionForgotten { tile: 7 }));
    let v = solace_clause_events(&st, &cat, &Effect::ImpressionEat, Some(7), Seat::A).unwrap();
    assert!(v.is_empty());
    let v = solace_clause_events(&st, &cat, &Effect::ImpressionEat, Some(8), Seat::B).unwrap();
    assert!(v.is_empty());
}

#[test]
fn no_landmark_no_silence_and_other_effects_are_not_board_clauses() {
    let cat = test_catalog();
    let st = board();
    assert!(solace_clause_events(&st, &cat, &Effect::SilenceLandmark, None, Seat::B).unwrap().is_empty());
    assert!(solace_clause_events(&st, &cat, &Effect::Bounce, None, Seat::B).is_none());
}
