use recollect_core::board_commands::{decide_devolve, decide_move_spirit, decide_reclaim, decide_reveal, decide_strike_fabrication, reclaim_events};
use recollect_core::cards::test_catalog;
use recollect_core::command::Command;
use recollect_core::effects::{Canon, EffectSpec, EffectsFile};
use recollect_core::events::{AnimaReason, Event};
use recollect_core::menu::legal_commands;
use recollect_core::rules::Reject;
use recollect_core::state::{GameState, MatchRules, Phase, PlayerState, Terrain, TerrainKind, TileState};
use recollect_core::test_support::put_spirit;
use recollect_core::types::{CardDef, CardId, CardKind, Faction, Seat, SeatSlot};

fn player() -> PlayerState {
    PlayerState { hand: Vec::new(), deck: Vec::new(), anima: 0, glimpsed_this_turn: false, peeked_top: None, first_placement_done: false }
}

fn board() -> GameState {
    GameState {
        rules: MatchRules { last_round: 12, contraction_after: 8, factions: [Faction::Lorekeeper, Faction::Lorekeeper] },
        contracted: false,
        round: 3,
        active: Seat::A,
        phase: Phase::Acting,
        board: (0..25).map(|_| TileState { spirit: None, terrain: None, impressions: Vec::new(), faded: false }).collect(),
        board_w: 5,
        player_a: player(),
        player_b: player(),
        player_a2: None,
        player_b2: None,
        active_slot: SeatSlot::A1,
        moved_this_turn: Vec::new(),
        temp_mods: Vec::new(),
        temp_reach: Vec::new(),
        temp_restrict: Vec::new(),
        temp_retaliation: Vec::new(),
        card_tax: [(0, 0), (0, 0)],
        ignore_imprint_this_turn: [false, false],
        silenced_terrain: None,
        bonds: Vec::new(),
        stray: None,
        mulliganed: [false, false],
        solace_erasures: 0,
        dissolved: Vec::new(),
        next_ritual_discount: [0, 0],
        dissolved_this_turn: [0, 0],
        fade_delayed: Vec::new(),
        pending_flow_anima: [0, 0],
        next_arrival_atk: [0, 0],
        next_arrival_2nd_engage: [None, None],
        peeked_fabs: [Vec::new(), Vec::new()],
        ritual_extra_targets: 0,
        impressions_dormant_round: None,
        calm_tiles: Vec::new(),
        last_played_spirit: [None, None],
        stray_telegraph: None,
        stray_match: false,
        unwriting_told_this_round: false,
        pending_choice: None,
    }
}

fn world(extra: Vec<(u16, &str, CardKind, Vec<EffectSpec>)>) -> (Canon, Vec<CardDef>) {
    let mut cat = test_catalog();
    let mut specs = Vec::new();
    for (id, name, kind, sp) in extra {
        let mut c = cat[0].clone();
        c.id = CardId(id);
        c.name = name.to_string();
        c.key = format!("key-{name}");
        c.kind = kind;
        specs.push((c.key.clone(), sp));
        cat.push(c);
    }
    let canon = Canon { catalog: cat.clone(), effects: EffectsFile { specs, pending: Vec::new(), behavior: Vec::new() } };
    (canon, cat)
}


fn with_form() -> (Canon, Vec<CardDef>) {
    let (_, mut cat) = world(vec![]);
    let mut form = cat[0].clone();
    form.id = CardId(200);
    form.name = "Dawnling Ascendant".to_string();
    form.key = "key-ascendant".to_string();
    form.cost = 5;
    form.evolves_from = Some("Dawnling".to_string());
    cat.push(form);
    let canon = Canon { catalog: cat.clone(), effects: EffectsFile { specs: Vec::new(), pending: Vec::new(), behavior: Vec::new() } };
    (canon, cat)
}

fn fading_form(st: &mut GameState, tile: u8) {
    put_spirit(st, tile, CardId(200), Seat::A);
    if let Some(sp) = st.board[tile as usize].spirit.as_mut() {
        sp.fading = true;
        sp.fade_deadline = Some(4);
    }
}

#[test]
fn a_fading_form_recedes_to_its_base_for_half_its_cost() {
    let (canon, cat) = with_form();
    let mut st = board();
    fading_form(&mut st, 21);
    st.player_a.hand = vec![CardId(2), CardId(0)];
    st.player_a.anima = 2;
    let evs = decide_devolve(&st, &cat, Seat::A, 21, 1).unwrap();
    assert_eq!(evs.len(), 2);
    assert!(matches!(evs[0], Event::AnimaSpent { seat: Seat::A, amount: 2 }));
    assert!(matches!(
        evs[1],
        Event::SpiritDevolved { seat: Seat::A, tile: 21, from: CardId(200), to: CardId(0), attack: 10, defense: 20, hp: 30 }
    ));
    assert!(legal_commands(&st, &canon, &cat, Seat::A).iter().any(|c| matches!(c, Command::Devolve { tile: 21, base_hand: 1 })));
    assert!(matches!(decide_devolve(&st, &cat, Seat::A, 21, 0), Err(Reject::DevolveConditionUnmet)));
    assert!(matches!(decide_devolve(&st, &cat, Seat::A, 21, 2), Err(Reject::BadHandIndex)));
    assert!(matches!(decide_devolve(&st, &cat, Seat::B, 21, 1), Err(Reject::NotYourSpirit)));
    assert!(matches!(decide_devolve(&st, &cat, Seat::A, 20, 1), Err(Reject::TileEmpty)));
    assert!(matches!(decide_devolve(&st, &cat, Seat::A, 40, 1), Err(Reject::BadTile)));
    st.player_a.anima = 1;
    assert!(matches!(decide_devolve(&st, &cat, Seat::A, 21, 1), Err(Reject::NotEnoughAnima)));
    assert!(!legal_commands(&st, &canon, &cat, Seat::A).iter().any(|c| matches!(c, Command::Devolve { .. })));
}

#[test]
fn only_a_form_inside_its_fade_window_recedes() {
    let (_, cat) = with_form();
    let mut st = board();
    put_spirit(&mut st, 21, CardId(200), Seat::A);
    put_spirit(&mut st, 22, CardId(0), Seat::A);
    if let Some(sp) = st.board[22].spirit.as_mut() {
        sp.fading = true;
        sp.fade_deadline = Some(4);
    }
    st.player_a.hand = vec![CardId(0)];
    st.player_a.anima = 5;
    assert!(matches!(decide_devolve(&st, &cat, Seat::A, 21, 0), Err(Reject::DevolveConditionUnmet)));
    assert!(matches!(decide_devolve(&st, &cat, Seat::A, 22, 0), Err(Reject::DevolveConditionUnmet)));
}

#[test]
fn a_face_down_spirit_is_revealed_and_may_engage_an_enemy_in_reach() {
    let (canon, cat) = world(vec![]);
    let mut st = board();
    put_spirit(&mut st, 17, CardId(0), Seat::A);
    put_spirit(&mut st, 12, CardId(0), Seat::B);
    put_spirit(&mut st, 2, CardId(0), Seat::B);
    if let Some(sp) = st.board[17].spirit.as_mut() {
        sp.face_down = true;
    }
    let evs = decide_reveal(&st, &canon, &cat, Seat::A, 17, None).unwrap();
    assert!(matches!(evs[..], [Event::SpiritRevealed { tile: 17 }]));
    let evs = decide_reveal(&st, &canon, &cat, Seat::A, 17, Some(12)).unwrap();
    assert!(matches!(evs[..], [Event::SpiritRevealed { tile: 17 }]));
    assert!(matches!(decide_reveal(&st, &canon, &cat, Seat::A, 17, Some(2)), Err(Reject::TargetNotInReach)));
    assert!(matches!(decide_reveal(&st, &canon, &cat, Seat::A, 17, Some(99)), Err(Reject::BadTile)));
    assert!(matches!(decide_reveal(&st, &canon, &cat, Seat::B, 17, None), Err(Reject::TargetNotEnemy)));
    assert!(matches!(decide_reveal(&st, &canon, &cat, Seat::A, 16, None), Err(Reject::TileEmpty)));
    let menu = legal_commands(&st, &canon, &cat, Seat::A);
    assert!(menu.iter().any(|c| matches!(c, Command::Reveal { tile: 17, engage: None })));
    assert!(menu.iter().any(|c| matches!(c, Command::Reveal { tile: 17, engage: Some(12) })));
    for c in &menu {
        if let Command::Reveal { tile, engage } = c {
            assert!(decide_reveal(&st, &canon, &cat, Seat::A, *tile, *engage).is_ok());
        }
    }
    if let Some(sp) = st.board[17].spirit.as_mut() {
        sp.no_engage_until = 3;
    }
    assert!(matches!(decide_reveal(&st, &canon, &cat, Seat::A, 17, Some(12)), Err(Reject::EngageRestricted)));
    assert!(decide_reveal(&st, &canon, &cat, Seat::A, 17, None).is_ok());
}

fn trap(owner: Seat) -> Option<Terrain> {
    Some(Terrain { card: CardId(0), owner, kind: TerrainKind::Fabrication, face_down: true })
}

#[test]
fn a_mobile_spirit_steps_once_onto_an_open_neighbour() {
    let (canon, cat) = world(vec![]);
    let mut st = board();
    put_spirit(&mut st, 17, CardId(14), Seat::A);
    put_spirit(&mut st, 18, CardId(0), Seat::A);
    put_spirit(&mut st, 11, CardId(0), Seat::B);
    let evs = decide_move_spirit(&st, &canon, &cat, Seat::A, 17, 16, None).unwrap().unwrap();
    assert!(matches!(evs[..], [Event::SpiritMoved { from: 17, to: 16 }]));
    let evs = decide_move_spirit(&st, &canon, &cat, Seat::A, 17, 16, Some(11)).unwrap().unwrap();
    assert!(matches!(evs[..], [Event::SpiritMoved { from: 17, to: 16 }]));
    assert!(matches!(decide_move_spirit(&st, &canon, &cat, Seat::A, 17, 16, Some(18)), Err(Reject::TargetNotInReach)));
    assert!(matches!(decide_move_spirit(&st, &canon, &cat, Seat::A, 17, 18, None), Err(Reject::TileOccupied)));
    assert!(matches!(decide_move_spirit(&st, &canon, &cat, Seat::A, 17, 7, None), Err(Reject::NotAdjacent)));
    assert!(matches!(decide_move_spirit(&st, &canon, &cat, Seat::A, 18, 19, None), Err(Reject::NotMobile)));
    assert!(matches!(decide_move_spirit(&st, &canon, &cat, Seat::B, 17, 16, None), Err(Reject::NotYourSpirit)));
    let menu = legal_commands(&st, &canon, &cat, Seat::A);
    assert!(menu.iter().any(|c| matches!(c, Command::MoveSpirit { from: 17, to: 16, engage: None })));
    for c in &menu {
        if let Command::MoveSpirit { from, to, engage } = c {
            assert!(decide_move_spirit(&st, &canon, &cat, Seat::A, *from, *to, *engage).is_ok());
        }
    }
    st.moved_this_turn = vec![17];
    assert!(matches!(decide_move_spirit(&st, &canon, &cat, Seat::A, 17, 16, None), Err(Reject::AlreadyMoved)));
    assert!(!legal_commands(&st, &canon, &cat, Seat::A).iter().any(|c| matches!(c, Command::MoveSpirit { .. })));
}

#[test]
fn a_step_into_an_enemy_trap_springs_it_and_rim_ground_fades_behind_a_mover() {
    let (canon, cat) = world(vec![]);
    let mut st = board();
    put_spirit(&mut st, 20, CardId(14), Seat::A);
    st.board[15].terrain = trap(Seat::B);
    st.board[21].terrain = trap(Seat::A);
    assert!(matches!(decide_move_spirit(&st, &canon, &cat, Seat::A, 20, 15, None), Ok(None)));
    assert!(matches!(decide_move_spirit(&st, &canon, &cat, Seat::A, 20, 15, Some(10)), Err(Reject::TargetNotInReach)));
    assert!(matches!(decide_move_spirit(&st, &canon, &cat, Seat::A, 20, 21, None), Err(Reject::TileOccupied)));
    st.board[21].terrain = None;
    st.contracted = true;
    let evs = decide_move_spirit(&st, &canon, &cat, Seat::A, 20, 21, None).unwrap().unwrap();
    assert!(matches!(evs[..], [Event::SpiritMoved { from: 20, to: 21 }, Event::TileFaded { tile: 20 }]));
    st.board[15].faded = true;
    st.board[15].terrain = None;
    assert!(matches!(decide_move_spirit(&st, &canon, &cat, Seat::A, 20, 15, None), Err(Reject::TileFaded)));
}

#[test]
fn a_face_up_spirit_strikes_an_enemy_trap_in_its_reach() {
    let (canon, cat) = world(vec![]);
    let mut st = board();
    put_spirit(&mut st, 17, CardId(0), Seat::A);
    st.board[12].terrain = trap(Seat::B);
    st.board[16].terrain = trap(Seat::A);
    st.board[2].terrain = trap(Seat::B);
    assert!(decide_strike_fabrication(&st, &canon, &cat, Seat::A, 17, 12).is_ok());
    assert!(matches!(decide_strike_fabrication(&st, &canon, &cat, Seat::A, 17, 2), Err(Reject::TargetNotInReach)));
    assert!(matches!(decide_strike_fabrication(&st, &canon, &cat, Seat::A, 17, 16), Err(Reject::BadTile)));
    assert!(matches!(decide_strike_fabrication(&st, &canon, &cat, Seat::A, 17, 18), Err(Reject::BadTile)));
    assert!(matches!(decide_strike_fabrication(&st, &canon, &cat, Seat::A, 16, 12), Err(Reject::TileEmpty)));
    let menu = legal_commands(&st, &canon, &cat, Seat::A);
    assert!(menu.iter().any(|c| matches!(c, Command::StrikeFabrication { from: 17, tile: 12 })));
    assert!(!menu.iter().any(|c| matches!(c, Command::StrikeFabrication { tile: 16, .. })));
    if let Some(sp) = st.board[17].spirit.as_mut() {
        sp.face_down = true;
    }
    assert!(matches!(decide_strike_fabrication(&st, &canon, &cat, Seat::A, 17, 12), Err(Reject::NotYourSpirit)));
}

#[test]
fn a_standing_spirit_is_reclaimed_for_half_its_cost() {
    let (canon, cat) = world(vec![]);
    let mut st = board();
    put_spirit(&mut st, 17, CardId(17), Seat::A);
    put_spirit(&mut st, 12, CardId(0), Seat::B);
    assert!(decide_reclaim(&st, Seat::A, 17).is_ok());
    assert!(matches!(decide_reclaim(&st, Seat::A, 12), Err(Reject::NotYourSpirit)));
    assert!(matches!(decide_reclaim(&st, Seat::A, 16), Err(Reject::TileEmpty)));
    assert!(matches!(decide_reclaim(&st, Seat::A, 30), Err(Reject::BadTile)));
    let evs = reclaim_events(&st, &canon, &cat, Seat::A, 17, CardId(17));
    assert_eq!(evs.len(), 2);
    assert!(matches!(evs[0], Event::SpiritReclaimed { tile: 17 }));
    assert!(matches!(evs[1], Event::AnimaGained { seat: Seat::A, amount: 2, reason: AnimaReason::Effect }));
    let evs = reclaim_events(&st, &canon, &cat, Seat::A, 12, CardId(0));
    assert!(matches!(evs[..], [Event::SpiritReclaimed { tile: 12 }]));
    if let Some(sp) = st.board[17].spirit.as_mut() {
        sp.fading = true;
    }
    assert!(matches!(decide_reclaim(&st, Seat::A, 17), Err(Reject::NotYourSpirit)));
}
