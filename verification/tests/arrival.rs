use recollect_core::arrival::decide_play_spirit;
use recollect_core::overwrite::decide_overwrite;
use recollect_core::cards::test_catalog;
use recollect_core::command::Command;
use recollect_core::effects::{Canon, EffectSpec, EffectsFile};
use recollect_core::events::Event;
use recollect_core::menu::legal_commands;
use recollect_core::rules::Reject;
use recollect_core::state::{GameState, MatchRules, Phase, PlayerState, Stray, Temperament, TileState};
use recollect_core::test_support::put_spirit;
use recollect_core::types::{CardDef, CardId, CardKind, Faction, Seat, SeatSlot};

fn player() -> PlayerState {
    PlayerState { hand: Vec::new(), deck: Vec::new(), anima: 0, glimpsed_this_turn: false, peeked_top: None, first_placement_done: false }
}

fn board() -> GameState {
    GameState {
        rules: MatchRules { last_round: 12, contraction_after: 8, factions: [Faction::Lorekeeper, Faction::Lorekeeper] },
        contracted: false,
        round: 3,
        active: Seat::A,
        phase: Phase::Acting,
        board: (0..25).map(|_| TileState { spirit: None, terrain: None, impressions: Vec::new(), faded: false }).collect(),
        board_w: 5,
        player_a: player(),
        player_b: player(),
        player_a2: None,
        player_b2: None,
        active_slot: SeatSlot::A1,
        moved_this_turn: Vec::new(),
        temp_mods: Vec::new(),
        temp_reach: Vec::new(),
        temp_restrict: Vec::new(),
        temp_retaliation: Vec::new(),
        card_tax: [(0, 0), (0, 0)],
        ignore_imprint_this_turn: [false, false],
        silenced_terrain: None,
        bonds: Vec::new(),
        stray: None,
        mulliganed: [false, false],
        solace_erasures: 0,
        dissolved: Vec::new(),
        next_ritual_discount: [0, 0],
        dissolved_this_turn: [0, 0],
        fade_delayed: Vec::new(),
        pending_flow_anima: [0, 0],
        next_arrival_atk: [0, 0],
        next_arrival_2nd_engage: [None, None],
        peeked_fabs: [Vec::new(), Vec::new()],
        ritual_extra_targets: 0,
        impressions_dormant_round: None,
        calm_tiles: Vec::new(),
        last_played_spirit: [None, None],
        stray_telegraph: None,
        stray_match: false,
        unwriting_told_this_round: false,
        pending_choice: None,
    }
}

fn world(extra: Vec<(u16, &str, CardKind, Vec<EffectSpec>)>) -> (Canon, Vec<CardDef>) {
    let mut cat = test_catalog();
    let mut specs = Vec::new();
    for (id, name, kind, sp) in extra {
        let mut c = cat[0].clone();
        c.id = CardId(id);
        c.name = name.to_string();
        c.key = format!("key-{name}");
        c.kind = kind;
        specs.push((c.key.clone(), sp));
        cat.push(c);
    }
    let canon = Canon { catalog: cat.clone(), effects: EffectsFile { specs, pending: Vec::new(), behavior: Vec::new() } };
    (canon, cat)
}


#[test]
fn a_spirit_lands_on_open_home_ground_for_its_cost() {
    let (canon, cat) = world(vec![]);
    let mut st = board();
    st.player_a.hand = vec![CardId(3)];
    st.player_a.anima = 3;
    let evs = decide_play_spirit(&st, &canon, &cat, Seat::A, 0, 20, None).unwrap();
    assert_eq!(evs.len(), 2);
    assert!(matches!(evs[0], Event::AnimaSpent { seat: Seat::A, amount: 3 }));
    assert!(matches!(
        evs[1],
        Event::SpiritPlayed { seat: Seat::A, card: CardId(3), tile: 20, attack: 40, defense: 20, hp: 40, face_down: false }
    ));
    assert!(matches!(decide_play_spirit(&st, &canon, &cat, Seat::A, 1, 20, None), Err(Reject::BadHandIndex)));
    assert!(matches!(decide_play_spirit(&st, &canon, &cat, Seat::A, 0, 99, None), Err(Reject::BadTile)));
    assert!(matches!(decide_play_spirit(&st, &canon, &cat, Seat::A, 0, 2, None), Err(Reject::FirstPlacementHomeRows)));
    st.player_a.first_placement_done = true;
    assert!(matches!(decide_play_spirit(&st, &canon, &cat, Seat::A, 0, 2, None), Err(Reject::OutsideProjection)));
    st.player_a.anima = 2;
    assert!(matches!(decide_play_spirit(&st, &canon, &cat, Seat::A, 0, 20, None), Err(Reject::NotEnoughAnima)));
}

#[test]
fn a_spirit_never_lands_on_held_faded_or_calm_ground() {
    let (canon, cat) = world(vec![]);
    let mut st = board();
    st.player_a.hand = vec![CardId(0)];
    st.player_a.anima = 5;
    put_spirit(&mut st, 21, CardId(0), Seat::A);
    st.board[22].faded = true;
    st.calm_tiles = vec![(23, 2)];
    assert!(matches!(decide_play_spirit(&st, &canon, &cat, Seat::A, 0, 21, None), Err(Reject::TileOccupied)));
    assert!(matches!(decide_play_spirit(&st, &canon, &cat, Seat::A, 0, 22, None), Err(Reject::TileFaded)));
    assert!(matches!(decide_play_spirit(&st, &canon, &cat, Seat::A, 0, 23, None), Err(Reject::TileFaded)));
    st.calm_tiles = vec![(23, 4)];
    assert!(decide_play_spirit(&st, &canon, &cat, Seat::A, 0, 23, None).is_ok());
}

#[test]
fn an_arrival_engages_only_a_standing_enemy_in_reach() {
    let (canon, cat) = world(vec![]);
    let mut st = board();
    st.player_a.hand = vec![CardId(0)];
    st.player_a.anima = 5;
    put_spirit(&mut st, 15, CardId(0), Seat::B);
    put_spirit(&mut st, 21, CardId(0), Seat::A);
    put_spirit(&mut st, 10, CardId(0), Seat::B);
    assert!(decide_play_spirit(&st, &canon, &cat, Seat::A, 0, 20, Some(15)).is_ok());
    assert!(matches!(decide_play_spirit(&st, &canon, &cat, Seat::A, 0, 20, Some(21)), Err(Reject::TargetNotEnemy)));
    assert!(matches!(decide_play_spirit(&st, &canon, &cat, Seat::A, 0, 20, Some(10)), Err(Reject::TargetNotInReach)));
    let menu = legal_commands(&st, &canon, &cat, Seat::A);
    assert!(menu.iter().any(|c| matches!(c, Command::PlaySpirit { hand_index: 0, tile: 20, engage: Some(15), .. })));
    for c in &menu {
        if let Command::PlaySpirit { hand_index, tile, engage, .. } = c {
            assert!(decide_play_spirit(&st, &canon, &cat, Seat::A, *hand_index, *tile, *engage).is_ok());
        }
    }
}

#[test]
fn an_overwrite_fights_the_enemy_for_its_tile() {
    let (canon, cat) = world(vec![]);
    let mut st = board();
    st.player_a.hand = vec![CardId(1)];
    st.player_a.anima = 2;
    put_spirit(&mut st, 15, CardId(0), Seat::B);
    assert!(matches!(decide_overwrite(&st, &canon, &cat, Seat::A, 0, 15, false), Err(Reject::NotEnoughAnima)));
    st.card_tax = [(1, 5), (0, 0)];
    st.player_a.anima = 3;
    assert!(matches!(decide_overwrite(&st, &canon, &cat, Seat::A, 0, 15, false), Err(Reject::NotEnoughAnima)));
    st.card_tax = [(0, 0), (0, 0)];
    put_spirit(&mut st, 16, CardId(0), Seat::A);
    put_spirit(&mut st, 2, CardId(0), Seat::B);
    let evs = decide_overwrite(&st, &canon, &cat, Seat::A, 0, 15, true).unwrap();
    assert_eq!(evs.len(), 2);
    assert!(matches!(evs[0], Event::AnimaSpent { seat: Seat::A, amount: 3 }));
    assert!(matches!(
        evs[1],
        Event::Overwrote {
            seat: Seat::A,
            card: CardId(1),
            tile: 15,
            success: true,
            damage_to_defender: 40,
            defender_echo: false,
            attack: 40,
            defense: 20,
            attacker_hp_left: 40,
            attacker_hp_max: 40,
        }
    ));
    if let Some(sp) = st.board[15].spirit.as_mut() {
        sp.hp = 20;
    }
    let evs = decide_overwrite(&st, &canon, &cat, Seat::A, 0, 15, true).unwrap();
    assert!(matches!(evs[1], Event::Overwrote { success: true, defender_echo: true, attacker_hp_left: 30, .. }));
    let evs = decide_overwrite(&st, &canon, &cat, Seat::A, 0, 15, false).unwrap();
    assert!(matches!(evs[1], Event::Overwrote { defender_echo: false, attacker_hp_left: 40, .. }));
    assert!(matches!(decide_overwrite(&st, &canon, &cat, Seat::A, 0, 16, false), Err(Reject::TargetNotEnemy)));
    assert!(matches!(decide_overwrite(&st, &canon, &cat, Seat::A, 0, 17, false), Err(Reject::TileEmpty)));
    assert!(matches!(decide_overwrite(&st, &canon, &cat, Seat::A, 0, 2, false), Err(Reject::OutsideProjection)));
    assert!(matches!(decide_overwrite(&st, &canon, &cat, Seat::A, 0, 99, false), Err(Reject::BadTile)));
    assert!(matches!(decide_overwrite(&st, &canon, &cat, Seat::A, 1, 15, false), Err(Reject::BadHandIndex)));
}

#[test]
fn an_overwrite_denies_a_veiled_stray_and_fights_a_seen_one() {
    let (canon, cat) = world(vec![]);
    let mut st = board();
    st.player_a.hand = vec![CardId(3)];
    st.player_a.anima = 3;
    st.stray = Some(Stray { card: CardId(2), tile: 17, temperament: Temperament::Gentle, veiled: true, courtship: 0, courted_by: None, hp: 30, hp_max: 30 });
    let evs = decide_overwrite(&st, &canon, &cat, Seat::A, 0, 17, false).unwrap();
    assert_eq!(evs.len(), 3);
    assert!(matches!(evs[0], Event::AnimaSpent { seat: Seat::A, amount: 3 }));
    assert!(matches!(evs[1], Event::StrayDenied { tile: 17 }));
    assert!(matches!(evs[2], Event::OverwroteStray { success: true, damage_to_stray: 0, attacker_hp_left: 40, .. }));
    if let Some(s) = st.stray.as_mut() {
        s.veiled = false;
    }
    let evs = decide_overwrite(&st, &canon, &cat, Seat::A, 0, 17, false).unwrap();
    assert_eq!(evs.len(), 2);
    assert!(matches!(
        evs[1],
        Event::OverwroteStray { seat: Seat::A, card: CardId(3), tile: 17, success: false, damage_to_stray: 20, attacker_hp_left: 40, .. }
    ));
    assert!(matches!(decide_overwrite(&st, &canon, &cat, Seat::A, 0, 18, false), Err(Reject::TileEmpty)));
    st.player_a.anima = 2;
    assert!(matches!(decide_overwrite(&st, &canon, &cat, Seat::A, 0, 17, false), Err(Reject::NotEnoughAnima)));
}
