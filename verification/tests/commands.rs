use recollect_core::commands::{decide_banish_stray, decide_mulligan, decide_set_orders, mulligan_window};
use recollect_core::events::Event;
use recollect_core::rules::Reject;
use recollect_core::state::{GameState, MatchRules, Phase, PlayerState, Stray, Temperament, TileState};
use recollect_core::test_support::put_spirit;
use recollect_core::types::{CardId, Faction, Seat, SeatSlot};

fn player() -> PlayerState {
    PlayerState { hand: Vec::new(), deck: Vec::new(), anima: 0, glimpsed_this_turn: false, peeked_top: None, first_placement_done: false }
}

fn board() -> GameState {
    GameState {
        rules: MatchRules { last_round: 12, contraction_after: 8, factions: [Faction::Lorekeeper, Faction::Lorekeeper] },
        contracted: false,
        round: 3,
        active: Seat::A,
        phase: Phase::Acting,
        board: (0..25).map(|_| TileState { spirit: None, terrain: None, impressions: Vec::new(), faded: false }).collect(),
        board_w: 5,
        player_a: player(),
        player_b: player(),
        player_a2: None,
        player_b2: None,
        active_slot: SeatSlot::A1,
        moved_this_turn: Vec::new(),
        temp_mods: Vec::new(),
        temp_reach: Vec::new(),
        temp_restrict: Vec::new(),
        temp_retaliation: Vec::new(),
        card_tax: [(0, 0), (0, 0)],
        ignore_imprint_this_turn: [false, false],
        silenced_terrain: None,
        bonds: Vec::new(),
        stray: None,
        mulliganed: [false, false],
        solace_erasures: 0,
        dissolved: Vec::new(),
        next_ritual_discount: [0, 0],
        dissolved_this_turn: [0, 0],
        fade_delayed: Vec::new(),
        pending_flow_anima: [0, 0],
        next_arrival_atk: [0, 0],
        next_arrival_2nd_engage: [None, None],
        peeked_fabs: [Vec::new(), Vec::new()],
        ritual_extra_targets: 0,
        impressions_dormant_round: None,
        calm_tiles: Vec::new(),
        last_played_spirit: [None, None],
        stray_telegraph: None,
        stray_match: false,
        unwriting_told_this_round: false,
        pending_choice: None,
    }
}

#[test]
fn orders_go_only_to_a_standing_spirit_of_ones_own() {
    let mut st = board();
    put_spirit(&mut st, 6, CardId(0), Seat::A);
    put_spirit(&mut st, 7, CardId(0), Seat::B);
    let evs = decide_set_orders(&st, Seat::A, 6, true).unwrap();
    assert!(matches!(evs[..], [Event::OrdersSet { tile: 6, hold: true }]));
    assert!(matches!(decide_set_orders(&st, Seat::A, 7, true), Err(Reject::TileEmpty)));
    assert!(matches!(decide_set_orders(&st, Seat::A, 8, false), Err(Reject::TileEmpty)));
}

#[test]
fn only_a_seen_stray_can_be_banished() {
    let mut st = board();
    assert!(matches!(decide_banish_stray(&st, Seat::A), Err(Reject::NothingPending)));
    let mut s = Stray { card: CardId(2), tile: 12, temperament: Temperament::Gentle, veiled: true, courtship: 0, courted_by: None, hp: 30, hp_max: 30 };
    st.stray = Some(s.clone());
    assert!(matches!(decide_banish_stray(&st, Seat::A), Err(Reject::BadTile)));
    s.veiled = false;
    st.stray = Some(s);
    let evs = decide_banish_stray(&st, Seat::B).unwrap();
    assert!(matches!(evs[..], [Event::StrayBanished { tile: 12, impression: Seat::B }]));
}

#[test]
fn the_mulligan_deals_a_fresh_hand_and_bottoms_one() {
    let mut st = board();
    st.round = 1;
    st.player_a.anima = 2;
    st.player_a.hand = vec![CardId(1), CardId(2), CardId(3)];
    st.player_a.deck = vec![CardId(4), CardId(5)];
    assert!(mulligan_window(&st, Seat::A));
    let pool = vec![CardId(5), CardId(3), CardId(1), CardId(4), CardId(2)];
    let evs = decide_mulligan(&st, Seat::A, Seat::A, pool.clone(), 1).unwrap();
    match &evs[0] {
        Event::Mulliganed { seat, hand, deck } => {
            assert_eq!(*seat, Seat::A);
            assert_eq!(hand, &vec![CardId(5), CardId(1)]);
            assert_eq!(deck, &vec![CardId(4), CardId(2), CardId(3)]);
        },
        _ => panic!("expected a mulligan"),
    }
    assert!(matches!(decide_mulligan(&st, Seat::A, Seat::B, pool.clone(), 0), Err(Reject::MulliganUnavailable)));
    put_spirit(&mut st, 20, CardId(0), Seat::A);
    assert!(!mulligan_window(&st, Seat::A));
    assert!(matches!(decide_mulligan(&st, Seat::A, Seat::A, pool, 0), Err(Reject::MulliganUnavailable)));
}
