use recollect_core::cards::test_catalog;
use recollect_core::command::Command;
use recollect_core::commands::{decide_banish_stray, decide_set_orders};
use recollect_core::effects::{Canon, EffectSpec, EffectsFile};
use recollect_core::menu::legal_commands;
use recollect_core::spellbook::{decide_attach_bond, decide_place_landmark};
use recollect_core::state::{GameState, MatchResult, MatchRules, PendingChoice, Phase, PlayerState, Stray, Temperament, TileState};
use recollect_core::test_support::put_spirit;
use recollect_core::types::{CardDef, CardId, CardKind, Faction, Seat, SeatSlot};

fn player() -> PlayerState {
    PlayerState { hand: Vec::new(), deck: Vec::new(), anima: 0, glimpsed_this_turn: false, peeked_top: None, first_placement_done: false }
}

fn board() -> GameState {
    GameState {
        rules: MatchRules { last_round: 12, contraction_after: 8, factions: [Faction::Lorekeeper, Faction::Lorekeeper] },
        contracted: false,
        round: 3,
        active: Seat::A,
        phase: Phase::Acting,
        board: (0..25).map(|_| TileState { spirit: None, terrain: None, impressions: Vec::new(), faded: false }).collect(),
        board_w: 5,
        player_a: player(),
        player_b: player(),
        player_a2: None,
        player_b2: None,
        active_slot: SeatSlot::A1,
        moved_this_turn: Vec::new(),
        temp_mods: Vec::new(),
        temp_reach: Vec::new(),
        temp_restrict: Vec::new(),
        temp_retaliation: Vec::new(),
        card_tax: [(0, 0), (0, 0)],
        ignore_imprint_this_turn: [false, false],
        silenced_terrain: None,
        bonds: Vec::new(),
        stray: None,
        mulliganed: [false, false],
        solace_erasures: 0,
        dissolved: Vec::new(),
        next_ritual_discount: [0, 0],
        dissolved_this_turn: [0, 0],
        fade_delayed: Vec::new(),
        pending_flow_anima: [0, 0],
        next_arrival_atk: [0, 0],
        next_arrival_2nd_engage: [None, None],
        peeked_fabs: [Vec::new(), Vec::new()],
        ritual_extra_targets: 0,
        impressions_dormant_round: None,
        calm_tiles: Vec::new(),
        last_played_spirit: [None, None],
        stray_telegraph: None,
        stray_match: false,
        unwriting_told_this_round: false,
        pending_choice: None,
    }
}

fn world(extra: Vec<(u16, &str, CardKind, Vec<EffectSpec>)>) -> (Canon, Vec<CardDef>) {
    let mut cat = test_catalog();
    let mut specs = Vec::new();
    for (id, name, kind, sp) in extra {
        let mut c = cat[0].clone();
        c.id = CardId(id);
        c.name = name.to_string();
        c.key = format!("key-{name}");
        c.kind = kind;
        specs.push((c.key.clone(), sp));
        cat.push(c);
    }
    let canon = Canon { catalog: cat.clone(), effects: EffectsFile { specs, pending: Vec::new(), behavior: Vec::new() } };
    (canon, cat)
}


fn spellbook() -> (Canon, Vec<CardDef>) {
    world(vec![
        (100, "Hearth Stone", CardKind::Landmark, vec![]),
        (101, "Trapdoor", CardKind::Fabrication, vec![]),
        (102, "Shared Umbrella", CardKind::Bond, vec![]),
    ])
}

#[test]
fn nothing_is_offered_off_turn_or_once_the_match_is_over() {
    let (canon, cat) = spellbook();
    let mut st = board();
    st.player_a.hand = vec![CardId(100)];
    st.player_a.anima = 5;
    assert!(legal_commands(&st, &canon, &cat, Seat::B).is_empty());
    st.phase = Phase::Finished { result: MatchResult::Draw, score_a: 0, score_b: 0 };
    assert!(legal_commands(&st, &canon, &cat, Seat::A).is_empty());
}

#[test]
fn an_empty_hand_can_only_end_the_turn() {
    let (canon, cat) = spellbook();
    let st = board();
    let menu = legal_commands(&st, &canon, &cat, Seat::A);
    assert_eq!(menu.len(), 1);
    assert!(matches!(menu[0], Command::EndTurn));
}

#[test]
fn a_glimpse_needs_a_card_to_burn_and_a_page_to_peek() {
    let (canon, cat) = spellbook();
    let mut st = board();
    st.player_a.hand = vec![CardId(17)];
    let menu = legal_commands(&st, &canon, &cat, Seat::A);
    assert!(!menu.iter().any(|c| matches!(c, Command::Glimpse)));
    st.player_a.deck = vec![CardId(0)];
    let menu = legal_commands(&st, &canon, &cat, Seat::A);
    assert!(matches!(menu[0], Command::Glimpse));
    assert!(matches!(menu[1], Command::EndTurn));
    st.player_a.glimpsed_this_turn = true;
    let menu = legal_commands(&st, &canon, &cat, Seat::A);
    assert!(!menu.iter().any(|c| matches!(c, Command::Glimpse)));
}

#[test]
fn over_the_cap_only_releases_are_offered() {
    let (canon, cat) = spellbook();
    let mut st = board();
    st.player_a.hand = vec![CardId(0), CardId(1), CardId(2)];
    st.player_a.anima = 5;
    st.phase = Phase::PendingRelease { seat: Seat::A };
    let menu = legal_commands(&st, &canon, &cat, Seat::A);
    assert_eq!(menu.len(), 3);
    for (i, c) in menu.iter().enumerate() {
        assert!(matches!(c, Command::Release { hand_index } if *hand_index as usize == i));
    }
}

#[test]
fn a_pending_choice_offers_each_of_its_options() {
    let (canon, cat) = spellbook();
    let mut st = board();
    st.phase = Phase::PendingChoice { seat: Seat::A };
    st.pending_choice = Some(PendingChoice::Glimpse { seat: Seat::A, top: CardId(3) });
    let menu = legal_commands(&st, &canon, &cat, Seat::A);
    assert_eq!(menu.len(), 2);
    assert!(matches!(menu[0], Command::Choose { index: 0 }));
    assert!(matches!(menu[1], Command::Choose { index: 1 }));
    st.pending_choice = Some(PendingChoice::Target { seat: Seat::A, options: vec![4, 9, 14], source: 3 });
    assert_eq!(legal_commands(&st, &canon, &cat, Seat::A).len(), 3);
    st.pending_choice = None;
    assert!(legal_commands(&st, &canon, &cat, Seat::A).is_empty());
}

#[test]
fn a_landmark_is_offered_on_each_open_projected_tile_and_accepted_there() {
    let (canon, cat) = spellbook();
    let mut st = board();
    st.player_a.hand = vec![CardId(100)];
    st.player_a.anima = 3;
    let menu = legal_commands(&st, &canon, &cat, Seat::A);
    let tiles: Vec<u8> = menu
        .iter()
        .filter_map(|c| match c {
            Command::PlaceLandmark { hand_index: 0, tile } => Some(*tile),
            _ => None,
        })
        .collect();
    assert!(tiles.contains(&20));
    assert!(!tiles.contains(&2));
    for t in &tiles {
        assert!(decide_place_landmark(&st, &canon, &cat, Seat::A, 0, *t).is_ok());
    }
    st.player_a.anima = 0;
    let menu = legal_commands(&st, &canon, &cat, Seat::A);
    assert!(!menu.iter().any(|c| matches!(c, Command::PlaceLandmark { .. })));
}

#[test]
fn a_standing_spirit_offers_its_orders_and_reclaim() {
    let (canon, cat) = spellbook();
    let mut st = board();
    put_spirit(&mut st, 21, CardId(0), Seat::A);
    put_spirit(&mut st, 3, CardId(0), Seat::B);
    let menu = legal_commands(&st, &canon, &cat, Seat::A);
    assert!(menu.iter().any(|c| matches!(c, Command::SetOrders { tile: 21, hold: true })));
    assert!(menu.iter().any(|c| matches!(c, Command::Reclaim { tile: 21 })));
    assert!(!menu.iter().any(|c| matches!(c, Command::SetOrders { tile: 3, .. } | Command::Reclaim { tile: 3 })));
    assert!(decide_set_orders(&st, Seat::A, 21, true).is_ok());
}

#[test]
fn a_seen_stray_may_be_banished() {
    let (canon, cat) = spellbook();
    let mut st = board();
    st.stray = Some(Stray { card: CardId(2), tile: 12, temperament: Temperament::Gentle, veiled: true, courtship: 0, courted_by: None, hp: 30, hp_max: 30 });
    assert!(!legal_commands(&st, &canon, &cat, Seat::A).iter().any(|c| matches!(c, Command::BanishStray)));
    if let Some(s) = st.stray.as_mut() {
        s.veiled = false;
    }
    assert!(legal_commands(&st, &canon, &cat, Seat::A).iter().any(|c| matches!(c, Command::BanishStray)));
    assert!(decide_banish_stray(&st, Seat::A).is_ok());
}

#[test]
fn a_bond_is_offered_once_for_each_adjacent_pair_of_allies() {
    let (canon, cat) = spellbook();
    let mut st = board();
    st.player_a.hand = vec![CardId(102)];
    st.player_a.anima = 5;
    put_spirit(&mut st, 20, CardId(0), Seat::A);
    put_spirit(&mut st, 21, CardId(0), Seat::A);
    put_spirit(&mut st, 23, CardId(0), Seat::A);
    let bonds: Vec<(u8, u8)> = legal_commands(&st, &canon, &cat, Seat::A)
        .iter()
        .filter_map(|c| match c {
            Command::AttachBond { hand_index: 0, tile_a, tile_b } => Some((*tile_a, *tile_b)),
            _ => None,
        })
        .collect();
    assert_eq!(bonds, vec![(20, 21)]);
    assert!(decide_attach_bond(&st, &canon, &cat, Seat::A, 0, 20, 21).is_ok());
}

#[test]
fn a_spirit_card_may_be_played_onto_open_projected_ground() {
    let (canon, cat) = spellbook();
    let mut st = board();
    st.player_a.hand = vec![CardId(0)];
    st.player_a.anima = 1;
    let plays: Vec<u8> = legal_commands(&st, &canon, &cat, Seat::A)
        .iter()
        .filter_map(|c| match c {
            Command::PlaySpirit { hand_index: 0, tile, engage: None, .. } => Some(*tile),
            _ => None,
        })
        .collect();
    assert!(plays.contains(&20));
    assert!(!plays.contains(&2));
}
