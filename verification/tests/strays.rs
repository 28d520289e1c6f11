use recollect_core::cards::test_catalog;
use recollect_core::events::Event;
use recollect_core::state::{GameState, MatchRules, Phase, PlayerState, Stray, Temperament, TileState};
use recollect_core::strays::advance_courtship;
use recollect_core::strike::{feral_stray_plan, stray_bite, stray_counter};
use recollect_core::test_support::put_spirit;
use recollect_core::types::{CardDef, CardId, Faction, Seat, SeatSlot};

fn player() -> PlayerState {
    PlayerState { hand: Vec::new(), deck: Vec::new(), anima: 0, glimpsed_this_turn: false, peeked_top: None, first_placement_done: false }
}

fn board() -> GameState {
    GameState {
        rules: MatchRules { last_round: 12, contraction_after: 8, factions: [Faction::Lorekeeper, Faction::Lorekeeper] },
        contracted: false,
        round: 3,
        active: Seat::A,
        phase: Phase::Acting,
        board: (0..25).map(|_| TileState { spirit: None, terrain: None, impressions: Vec::new(), faded: false }).collect(),
        board_w: 5,
        player_a: player(),
        player_b: player(),
        player_a2: None,
        player_b2: None,
        active_slot: SeatSlot::A1,
        moved_this_turn: Vec::new(),
        temp_mods: Vec::new(),
        temp_reach: Vec::new(),
        temp_restrict: Vec::new(),
        temp_retaliation: Vec::new(),
        card_tax: [(0, 0), (0, 0)],
        ignore_imprint_this_turn: [false, false],
        silenced_terrain: None,
        bonds: Vec::new(),
        stray: None,
        mulliganed: [false, false],
        solace_erasures: 0,
        dissolved: Vec::new(),
        next_ritual_discount: [0, 0],
        dissolved_this_turn: [0, 0],
        fade_delayed: Vec::new(),
        pending_flow_anima: [0, 0],
        next_arrival_atk: [0, 0],
        next_arrival_2nd_engage: [None, None],
        peeked_fabs: [Vec::new(), Vec::new()],
        ritual_extra_targets: 0,
        impressions_dormant_round: None,
        calm_tiles: Vec::new(),
        last_played_spirit: [None, None],
        stray_telegraph: None,
        stray_match: false,
        unwriting_told_this_round: false,
        pending_choice: None,
    }
}

fn kin_catalog() -> Vec<CardDef> {
    let mut cat = test_catalog();
    cat[0].imprints = vec!["Dawn".to_string()];
    cat[1].imprints = vec!["Dusk".to_string()];
    cat[2].imprints = vec!["Tide".to_string(), "Dawn".to_string()];
    cat
}

fn stray(temperament: Temperament, veiled: bool, courtship: u8, courted_by: Option<Seat>, hp: i16) -> Stray {
    Stray { card: CardId(2), tile: 12, temperament, veiled, courtship, courted_by, hp, hp_max: 30 }
}

#[test]
fn a_gentle_stray_befriends_a_kindred_neighbour() {
    let cat = kin_catalog();
    let mut st = board();
    st.stray = Some(stray(Temperament::Gentle, false, 0, None, 30));
    put_spirit(&mut st, 11, CardId(1), Seat::A);
    let mut evs = Vec::new();
    assert_eq!(advance_courtship(&mut st, &mut evs, &cat), None);
    assert!(evs.is_empty());
    put_spirit(&mut st, 13, CardId(0), Seat::A);
    assert_eq!(advance_courtship(&mut st, &mut evs, &cat), Some(12));
    assert_eq!(evs.len(), 1);
    assert!(matches!(evs[0], Event::StrayBefriended { seat: Seat::A, card: CardId(2), tile: 12, attack: 10, defense: 20, hp: 30 }));
    assert!(st.stray.is_none());
    assert_eq!(st.board[12].spirit.as_ref().unwrap().owner, Seat::A);
}

#[test]
fn a_veiled_stray_unveils_when_seen_or_after_two_turns_unseen() {
    let cat = kin_catalog();
    let mut st = board();
    st.stray = Some(stray(Temperament::Wary, true, 0, None, 30));
    let mut evs = Vec::new();
    assert_eq!(advance_courtship(&mut st, &mut evs, &cat), None);
    assert!(matches!(evs[0], Event::StrayCourted { seat: Seat::A, courtship: 1 }));
    assert!(st.stray.unwrap().veiled);
    assert_eq!(advance_courtship(&mut st, &mut evs, &cat), None);
    assert!(matches!(evs[1], Event::StrayUnveiled));
    assert!(!st.stray.unwrap().veiled);
    let mut st = board();
    st.stray = Some(stray(Temperament::Wary, true, 0, None, 30));
    put_spirit(&mut st, 7, CardId(1), Seat::A);
    let mut evs = Vec::new();
    advance_courtship(&mut st, &mut evs, &cat);
    assert_eq!(evs.len(), 2);
    let s = st.stray.unwrap();
    assert_eq!((s.veiled, s.courtship, s.courted_by), (false, 1, Some(Seat::A)));
}

#[test]
fn a_wary_stray_needs_two_turns_of_the_same_seat() {
    let cat = kin_catalog();
    let mut st = board();
    st.stray = Some(stray(Temperament::Wary, false, 1, Some(Seat::B), 30));
    put_spirit(&mut st, 17, CardId(1), Seat::A);
    let mut evs = Vec::new();
    assert_eq!(advance_courtship(&mut st, &mut evs, &cat), None);
    let s = st.stray.unwrap();
    assert_eq!((s.courtship, s.courted_by), (1, Some(Seat::A)));
    assert_eq!(advance_courtship(&mut st, &mut evs, &cat), Some(12));
    assert!(st.stray.is_none());
}

#[test]
fn a_feral_stray_trusts_only_when_echo_wounded() {
    let cat = kin_catalog();
    let mut st = board();
    st.stray = Some(stray(Temperament::Feral, false, 0, None, 20));
    put_spirit(&mut st, 11, CardId(0), Seat::A);
    let mut evs = Vec::new();
    assert_eq!(advance_courtship(&mut st, &mut evs, &cat), None);
    assert!(evs.is_empty());
    st.stray = Some(stray(Temperament::Feral, false, 0, None, 14));
    assert_eq!(advance_courtship(&mut st, &mut evs, &cat), Some(12));
}

#[test]
fn only_the_acting_seat_courts() {
    let cat = kin_catalog();
    let mut st = board();
    st.stray = Some(stray(Temperament::Gentle, false, 0, None, 30));
    put_spirit(&mut st, 11, CardId(0), Seat::B);
    let mut evs = Vec::new();
    assert_eq!(advance_courtship(&mut st, &mut evs, &cat), None);
    st.active = Seat::B;
    assert_eq!(advance_courtship(&mut st, &mut evs, &cat), Some(12));
    assert_eq!(st.board[12].spirit.as_ref().unwrap().owner, Seat::B);
}

#[test]
fn a_feral_stray_bites_an_arrival_in_reach_and_takes_its_answer() {
    let cat = test_catalog();
    let mut st = board();
    st.stray = Some(stray(Temperament::Feral, false, 0, None, 25));
    put_spirit(&mut st, 13, CardId(0), Seat::A);
    st.board[13].spirit.as_mut().unwrap().attack = 50;
    let plan = feral_stray_plan(&st, &cat, 13, Seat::A).unwrap();
    assert_eq!((plan.tile, plan.bite, plan.counter), (12, 10, 30));
    let mut evs = Vec::new();
    assert!(!stray_bite(&mut st, &mut evs, 13, &plan));
    assert_eq!(st.board[13].spirit.as_ref().unwrap().hp, 30);
    stray_counter(&mut st, &mut evs, &plan, Seat::A);
    assert_eq!(evs.len(), 3);
    assert!(matches!(evs[1], Event::StrayStruck { tile: 12, damage: 30, hp: 0 }));
    assert!(matches!(evs[2], Event::StrayBanished { tile: 12, impression: Seat::A }));
    assert!(st.stray.is_none());
    assert_eq!(st.board[12].impressions, vec![Seat::A]);
}

#[test]
fn a_stray_bite_reports_the_arrival_for_banishment_on_its_second_count() {
    let cat = test_catalog();
    let mut st = board();
    st.stray = Some(stray(Temperament::Feral, false, 0, None, 25));
    put_spirit(&mut st, 13, CardId(0), Seat::A);
    st.board[13].spirit.as_mut().unwrap().hp = 15;
    let plan = feral_stray_plan(&st, &cat, 13, Seat::A).unwrap();
    let mut evs = Vec::new();
    assert!(stray_bite(&mut st, &mut evs, 13, &plan));
    assert_eq!(st.board[13].spirit.as_ref().unwrap().hp, 5);
}

#[test]
fn only_a_seen_feral_stray_defends_and_only_its_reach() {
    let cat = test_catalog();
    let mut st = board();
    put_spirit(&mut st, 13, CardId(0), Seat::A);
    put_spirit(&mut st, 0, CardId(0), Seat::A);
    st.stray = Some(stray(Temperament::Gentle, false, 0, None, 25));
    assert!(feral_stray_plan(&st, &cat, 13, Seat::A).is_none());
    st.stray = Some(stray(Temperament::Feral, true, 0, None, 25));
    assert!(feral_stray_plan(&st, &cat, 13, Seat::A).is_none());
    st.stray = Some(stray(Temperament::Feral, false, 0, None, 25));
    assert!(feral_stray_plan(&st, &cat, 0, Seat::A).is_none());
    assert!(feral_stray_plan(&st, &cat, 13, Seat::B).is_none());
}
