use recollect_core::cards::test_catalog;
use recollect_core::events::Event;
use recollect_core::state::{GameState, MatchRules, Phase, PlayerState, TileState};
use recollect_core::test_support::put_spirit;
use recollect_core::effects::{Canon, EffectsFile};
use recollect_core::turn::{close_round, dissolve_mark, fade_due};
use recollect_core::types::{CardId, CardKind, Faction, Seat, SeatSlot};

fn player() -> PlayerState {
    PlayerState { hand: Vec::new(), deck: Vec::new(), anima: 0, glimpsed_this_turn: false, peeked_top: None, first_placement_done: false }
}

fn board() -> GameState {
    GameState {
        rules: MatchRules { last_round: 12, contraction_after: 8, factions: [Faction::Lorekeeper, Faction::Lorekeeper] },
        contracted: false,
        round: 3,
        active: Seat::A,
        phase: Phase::Acting,
        board: (0..25).map(|_| TileState { spirit: None, terrain: None, impressions: Vec::new(), faded: false }).collect(),
        board_w: 5,
        player_a: player(),
        player_b: player(),
        player_a2: None,
        player_b2: None,
        active_slot: SeatSlot::A1,
        moved_this_turn: Vec::new(),
        temp_mods: Vec::new(),
        temp_reach: Vec::new(),
        temp_restrict: Vec::new(),
        temp_retaliation: Vec::new(),
        card_tax: [(0, 0), (0, 0)],
        ignore_imprint_this_turn: [false, false],
        silenced_terrain: None,
        bonds: Vec::new(),
        stray: None,
        mulliganed: [false, false],
        solace_erasures: 0,
        dissolved: Vec::new(),
        next_ritual_discount: [0, 0],
        dissolved_this_turn: [0, 0],
        fade_delayed: Vec::new(),
        pending_flow_anima: [0, 0],
        next_arrival_atk: [0, 0],
        next_arrival_2nd_engage: [None, None],
        peeked_fabs: [Vec::new(), Vec::new()],
        ritual_extra_targets: 0,
        impressions_dormant_round: None,
        calm_tiles: Vec::new(),
        last_played_spirit: [None, None],
        stray_telegraph: None,
        stray_match: false,
        unwriting_told_this_round: false,
        pending_choice: None,
    }
}

#[test]
fn a_base_dissolves_at_its_owners_turn_end_once_its_deadline_comes() {
    let mut st = board();
    put_spirit(&mut st, 6, CardId(0), Seat::A);
    put_spirit(&mut st, 7, CardId(0), Seat::A);
    put_spirit(&mut st, 8, CardId(0), Seat::B);
    for t in [6usize, 7, 8] {
        st.board[t].spirit.as_mut().unwrap().fading = true;
    }
    st.board[6].spirit.as_mut().unwrap().fade_deadline = Some(3);
    st.board[6].spirit.as_mut().unwrap().banished_by = Some(Seat::B);
    st.board[7].spirit.as_mut().unwrap().fade_deadline = Some(4);
    st.board[8].spirit.as_mut().unwrap().fade_deadline = Some(2);
    assert_eq!(fade_due(&st, Seat::A), vec![(6u8, Seat::B)]);
    assert_eq!(fade_due(&st, Seat::B), vec![(8u8, Seat::B)]);
}

#[test]
fn seat_a_closes_nothing_and_seat_b_advances_the_round() {
    let cat = test_catalog();
    let mut st = board();
    let mut evs = Vec::new();
    assert!(!close_round(&mut st, &mut evs, &cat, Seat::A));
    assert!(evs.is_empty());
    assert!(!close_round(&mut st, &mut evs, &cat, Seat::B));
    assert_eq!(evs.len(), 1);
    assert!(matches!(evs[0], Event::RoundAdvanced { round: 4 }));
    assert_eq!(st.round, 4);
}

#[test]
fn the_dusk_takes_the_empty_rim_and_the_solace_creatures_on_it() {
    let mut cat = test_catalog();
    cat[2].kind = CardKind::Unwritten;
    let mut st = board();
    st.round = 8;
    put_spirit(&mut st, 0, CardId(0), Seat::A);
    put_spirit(&mut st, 1, CardId(2), Seat::B);
    let mut evs = Vec::new();
    assert!(!close_round(&mut st, &mut evs, &cat, Seat::B));
    assert_eq!(evs.len(), 2);
    match &evs[0] {
        Event::MemoryContracted { faded_tiles } => {
            assert!(!faded_tiles.contains(&0));
            assert!(faded_tiles.contains(&1));
            assert_eq!(faded_tiles.len(), 15);
        },
        _ => panic!("expected the Dusk"),
    }
    assert!(matches!(evs[1], Event::RoundAdvanced { round: 9 }));
    assert!(st.contracted);
}

#[test]
fn the_last_round_ends_the_match() {
    let cat = test_catalog();
    let mut st = board();
    st.round = 12;
    let mut evs = Vec::new();
    assert!(close_round(&mut st, &mut evs, &cat, Seat::B));
    assert!(evs.is_empty());
    assert_eq!(st.round, 12);
}

fn canon(cat: &[recollect_core::types::CardDef]) -> Canon {
    Canon { catalog: cat.to_vec(), effects: EffectsFile { specs: Vec::new(), pending: Vec::new(), behavior: Vec::new() } }
}

#[test]
fn a_dissolving_spirit_leaves_its_banishers_mark() {
    let cat = test_catalog();
    let mut st = board();
    put_spirit(&mut st, 12, CardId(0), Seat::A);
    st.board[12].spirit.as_mut().unwrap().fading = true;
    let mut evs = Vec::new();
    dissolve_mark(&mut st, &mut evs, &canon(&cat), &cat, 12, Seat::B, false);
    assert_eq!(evs.len(), 1);
    assert!(matches!(evs[0], Event::SpiritDissolved { tile: 12, impression: Seat::B }));
    assert!(st.board[12].spirit.is_none());
    assert_eq!(st.board[12].impressions, vec![Seat::B]);
}

#[test]
fn an_unwritten_leaves_nothing_and_held_ground_fades_behind_it() {
    let cat = test_catalog();
    let mut st = board();
    st.contracted = true;
    put_spirit(&mut st, 0, CardId(2), Seat::B);
    st.board[0].spirit.as_mut().unwrap().fading = true;
    let mut evs = Vec::new();
    dissolve_mark(&mut st, &mut evs, &canon(&cat), &cat, 0, Seat::A, true);
    assert_eq!(evs.len(), 2);
    assert!(matches!(evs[0], Event::TokenDissolved { tile: 0 }));
    assert!(matches!(evs[1], Event::TileFaded { tile: 0 }));
    assert!(st.board[0].impressions.is_empty());
    assert!(st.board[0].faded);
}

#[test]
fn a_lacuna_denies_the_players_mark_and_tallies_the_erasure() {
    let mut cat = test_catalog();
    cat[2].key = "lacuna".to_string();
    let mut st = board();
    put_spirit(&mut st, 12, CardId(0), Seat::B);
    st.board[12].spirit.as_mut().unwrap().fading = true;
    put_spirit(&mut st, 13, CardId(2), Seat::B);
    let mut evs = Vec::new();
    dissolve_mark(&mut st, &mut evs, &canon(&cat), &cat, 12, Seat::A, false);
    assert_eq!(evs.len(), 2);
    assert!(matches!(evs[0], Event::SpiritReleased { tile: 12 }));
    assert!(matches!(evs[1], Event::ImpressionForgotten { tile: 12 }));
    assert!(st.board[12].impressions.is_empty());
    assert_eq!(st.solace_erasures, 1);
}
