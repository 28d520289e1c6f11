use recollect_core::cards::test_catalog;
use recollect_core::effects::{Canon, EffectsFile};
use recollect_core::events::Event;
use recollect_core::command::Command;
use recollect_core::evolving::{decide_evolve, evolve_events};
use recollect_core::menu::legal_commands;
use recollect_core::rules::Reject;
use recollect_core::state::{GameState, MatchRules, Phase, PlayerState, TileState};
use recollect_core::test_support::put_spirit;
use recollect_core::types::{CardDef, CardId, Faction, Seat, SeatSlot};

fn player() -> PlayerState {
    PlayerState { hand: Vec::new(), deck: Vec::new(), anima: 0, glimpsed_this_turn: false, peeked_top: None, first_placement_done: false }
}

fn board() -> GameState {
    GameState {
        rules: MatchRules { last_round: 12, contraction_after: 8, factions: [Faction::Lorekeeper, Faction::Lorekeeper] },
        contracted: false,
        round: 3,
        active: Seat::A,
        phase: Phase::Acting,
        board: (0..25).map(|_| TileState { spirit: None, terrain: None, impressions: Vec::new(), faded: false }).collect(),
        board_w: 5,
        player_a: player(),
        player_b: player(),
        player_a2: None,
        player_b2: None,
        active_slot: SeatSlot::A1,
        moved_this_turn: Vec::new(),
        temp_mods: Vec::new(),
        temp_reach: Vec::new(),
        temp_restrict: Vec::new(),
        temp_retaliation: Vec::new(),
        card_tax: [(0, 0), (0, 0)],
        ignore_imprint_this_turn: [false, false],
        silenced_terrain: None,
        bonds: Vec::new(),
        stray: None,
        mulliganed: [false, false],
        solace_erasures: 0,
        dissolved: Vec::new(),
        next_ritual_discount: [0, 0],
        dissolved_this_turn: [0, 0],
        fade_delayed: Vec::new(),
        pending_flow_anima: [0, 0],
        next_arrival_atk: [0, 0],
        next_arrival_2nd_engage: [None, None],
        peeked_fabs: [Vec::new(), Vec::new()],
        ritual_extra_targets: 0,
        impressions_dormant_round: None,
        calm_tiles: Vec::new(),
        last_played_spirit: [None, None],
        stray_telegraph: None,
        stray_match: false,
        unwriting_told_this_round: false,
        pending_choice: None,
    }
}

fn line() -> (Canon, Vec<CardDef>) {
    let mut cat = test_catalog();
    cat[0].evolves_to = vec!["Dawn Ascendant".to_string(), "Dawn Ember".to_string()];
    let mut fabled = cat[0].clone();
    fabled.id = CardId(201);
    fabled.name = "Dawn Ascendant".to_string();
    fabled.rarity = "Fabled".to_string();
    fabled.evolves_from = Some("Dawnling".to_string());
    fabled.evolves_to = Vec::new();
    fabled.cost = 4;
    fabled.attack = 50;
    fabled.defense = 30;
    fabled.hp = 60;
    let mut primal = fabled.clone();
    primal.id = CardId(202);
    primal.name = "Dawn Ember".to_string();
    primal.rarity = "Primal".to_string();
    primal.cost = 3;
    cat.push(fabled);
    cat.push(primal);
    let canon = Canon { catalog: cat.clone(), effects: EffectsFile { specs: Vec::new(), pending: Vec::new(), behavior: Vec::new() } };
    (canon, cat)
}

#[test]
fn a_fabled_form_leaps_from_a_healthy_base_on_a_donor() {
    let (canon, cat) = line();
    let mut st = board();
    put_spirit(&mut st, 21, CardId(0), Seat::A);
    put_spirit(&mut st, 22, CardId(0), Seat::A);
    put_spirit(&mut st, 16, CardId(0), Seat::B);
    st.player_a.hand = vec![CardId(201), CardId(202)];
    st.player_a.anima = 5;
    let plan = decide_evolve(&st, &canon, &cat, Seat::A, 21, 0, Some(22), Some(16)).unwrap();
    assert_eq!(plan.base, CardId(0));
    assert_eq!(plan.form, CardId(201));
    assert!(plan.fabled);
    assert_eq!(plan.cost, 4);
    assert_eq!(plan.donor, Some((22, Seat::A)));
    let evs = evolve_events(&st, &cat, Seat::A, 21, &plan, Some(16)).unwrap();
    assert_eq!(evs.len(), 3);
    assert!(matches!(evs[0], Event::SpiritDissolved { tile: 22, impression: Seat::A }));
    assert!(matches!(evs[1], Event::AnimaSpent { seat: Seat::A, amount: 4 }));
    assert!(matches!(
        evs[2],
        Event::SpiritEvolved { seat: Seat::A, tile: 21, from: CardId(0), to: CardId(201), attack: 50, defense: 30, hp: 60, keeps_throughline: true }
    ));
    assert!(matches!(evolve_events(&st, &cat, Seat::A, 21, &plan, Some(22)), Err(Reject::TileEmpty)));
    assert!(matches!(decide_evolve(&st, &canon, &cat, Seat::A, 21, 0, None, None), Err(Reject::BadTile)));
    assert!(matches!(decide_evolve(&st, &canon, &cat, Seat::A, 21, 0, Some(21), None), Err(Reject::BadTile)));
    assert!(matches!(decide_evolve(&st, &canon, &cat, Seat::A, 21, 0, Some(23), None), Err(Reject::TileEmpty)));
    assert!(matches!(decide_evolve(&st, &canon, &cat, Seat::A, 21, 0, Some(16), None), Err(Reject::TargetNotEnemy)));
    assert!(matches!(decide_evolve(&st, &canon, &cat, Seat::A, 21, 0, Some(22), Some(2)), Err(Reject::TargetNotInReach)));
    assert!(matches!(decide_evolve(&st, &canon, &cat, Seat::A, 21, 1, None, None), Err(Reject::EvolveConditionUnmet)));
    assert!(matches!(decide_evolve(&st, &canon, &cat, Seat::A, 16, 0, Some(22), None), Err(Reject::TargetNotEnemy)));
    st.player_a.anima = 3;
    assert!(matches!(decide_evolve(&st, &canon, &cat, Seat::A, 21, 0, Some(22), None), Err(Reject::NotEnoughAnima)));
    st.player_a.anima = 5;
    st.moved_this_turn = vec![21];
    assert!(matches!(decide_evolve(&st, &canon, &cat, Seat::A, 21, 0, Some(22), None), Err(Reject::EvolveConditionUnmet)));
}

#[test]
fn a_primal_form_is_a_fading_base_own_becoming() {
    let (canon, cat) = line();
    let mut st = board();
    put_spirit(&mut st, 21, CardId(0), Seat::A);
    put_spirit(&mut st, 22, CardId(0), Seat::A);
    if let Some(sp) = st.board[21].spirit.as_mut() {
        sp.fading = true;
    }
    st.player_a.hand = vec![CardId(201), CardId(202)];
    st.player_a.anima = 3;
    let plan = decide_evolve(&st, &canon, &cat, Seat::A, 21, 1, None, None).unwrap();
    assert!(!plan.fabled);
    assert_eq!(plan.cost, 3);
    assert_eq!(plan.donor, None);
    let evs = evolve_events(&st, &cat, Seat::A, 21, &plan, None).unwrap();
    assert_eq!(evs.len(), 2);
    assert!(matches!(evs[0], Event::AnimaSpent { seat: Seat::A, amount: 3 }));
    assert!(matches!(evs[1], Event::SpiritEvolved { to: CardId(202), keeps_throughline: false, .. }));
    assert!(matches!(decide_evolve(&st, &canon, &cat, Seat::A, 21, 1, Some(22), None), Err(Reject::BadTile)));
    assert!(matches!(decide_evolve(&st, &canon, &cat, Seat::A, 21, 0, Some(22), None), Err(Reject::EvolveConditionUnmet)));
    assert!(matches!(decide_evolve(&st, &canon, &cat, Seat::A, 21, 2, None, None), Err(Reject::BadHandIndex)));
}

#[test]
fn every_offered_evolution_is_accepted() {
    let (canon, cat) = line();
    let mut st = board();
    put_spirit(&mut st, 21, CardId(0), Seat::A);
    put_spirit(&mut st, 22, CardId(0), Seat::A);
    put_spirit(&mut st, 16, CardId(0), Seat::B);
    st.player_a.hand = vec![CardId(201), CardId(202)];
    st.player_a.anima = 5;
    let menu = legal_commands(&st, &canon, &cat, Seat::A);
    let evolves: Vec<&Command> = menu.iter().filter(|c| matches!(c, Command::Evolve { .. })).collect();
    assert!(evolves.iter().any(|c| matches!(c, Command::Evolve { tile: 21, form_hand: 0, fuel: Some(22), engage: Some(16) })));
    assert!(!evolves.iter().any(|c| matches!(c, Command::Evolve { form_hand: 1, .. })));
    for c in evolves {
        if let Command::Evolve { tile, form_hand, fuel, engage } = c {
            assert!(decide_evolve(&st, &canon, &cat, Seat::A, *tile, *form_hand, *fuel, *engage).is_ok());
        }
    }
}
