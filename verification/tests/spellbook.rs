use recollect_core::cards::test_catalog;
use recollect_core::effects::{Canon, EffectSpec, EffectsFile};
use recollect_core::events::Event;
use recollect_core::rules::Reject;
use recollect_core::spellbook::{decide_attach_bond, decide_cast_ritual, decide_place_landmark, decide_set_fabrication, decide_tell_unwriting};
use recollect_core::state::{GameState, MatchRules, Phase, PlayerState, Stray, Temperament, Terrain, TerrainKind, TileState};
use recollect_core::test_support::put_spirit;
use recollect_core::types::{CardDef, CardId, CardKind, Faction, Seat, SeatSlot};

fn player() -> PlayerState {
    PlayerState { hand: Vec::new(), deck: Vec::new(), anima: 0, glimpsed_this_turn: false, peeked_top: None, first_placement_done: false }
}

fn board() -> GameState {
    GameState {
        rules: MatchRules { last_round: 12, contraction_after: 8, factions: [Faction::Lorekeeper, Faction::Lorekeeper] },
        contracted: false,
        round: 3,
        active: Seat::A,
        phase: Phase::Acting,
        board: (0..25).map(|_| TileState { spirit: None, terrain: None, impressions: Vec::new(), faded: false }).collect(),
        board_w: 5,
        player_a: player(),
        player_b: player(),
        player_a2: None,
        player_b2: None,
        active_slot: SeatSlot::A1,
        moved_this_turn: Vec::new(),
        temp_mods: Vec::new(),
        temp_reach: Vec::new(),
        temp_restrict: Vec::new(),
        temp_retaliation: Vec::new(),
        card_tax: [(0, 0), (0, 0)],
        ignore_imprint_this_turn: [false, false],
        silenced_terrain: None,
        bonds: Vec::new(),
        stray: None,
        mulliganed: [false, false],
        solace_erasures: 0,
        dissolved: Vec::new(),
        next_ritual_discount: [0, 0],
        dissolved_this_turn: [0, 0],
        fade_delayed: Vec::new(),
        pending_flow_anima: [0, 0],
        next_arrival_atk: [0, 0],
        next_arrival_2nd_engage: [None, None],
        peeked_fabs: [Vec::new(), Vec::new()],
        ritual_extra_targets: 0,
        impressions_dormant_round: None,
        calm_tiles: Vec::new(),
        last_played_spirit: [None, None],
        stray_telegraph: None,
        stray_match: false,
        unwriting_told_this_round: false,
        pending_choice: None,
    }
}

fn world(extra: Vec<(u16, &str, CardKind, Vec<EffectSpec>)>) -> (Canon, Vec<CardDef>) {
    let mut cat = test_catalog();
    let mut specs = Vec::new();
    for (id, name, kind, sp) in extra {
        let mut c = cat[0].clone();
        c.id = CardId(id);
        c.name = name.to_string();
        c.key = format!("key-{name}");
        c.kind = kind;
        specs.push((c.key.clone(), sp));
        cat.push(c);
    }
    let canon = Canon { catalog: cat.clone(), effects: EffectsFile { specs, pending: Vec::new(), behavior: Vec::new() } };
    (canon, cat)
}


fn spellbook() -> (Canon, Vec<CardDef>) {
    world(vec![
        (100, "Hearth Stone", CardKind::Landmark, vec![]),
        (101, "Trapdoor", CardKind::Fabrication, vec![]),
        (102, "Shared Umbrella", CardKind::Bond, vec![]),
    ])
}

#[test]
fn a_landmark_goes_down_on_projected_ground_for_its_cost() {
    let (canon, cat) = spellbook();
    let mut st = board();
    st.player_a.hand = vec![CardId(100)];
    st.player_a.anima = 3;
    let evs = decide_place_landmark(&st, &canon, &cat, Seat::A, 0, 20).unwrap();
    assert_eq!(evs.len(), 2);
    assert!(matches!(evs[0], Event::AnimaSpent { seat: Seat::A, amount: 1 }));
    assert!(matches!(evs[1], Event::LandmarkPlaced { seat: Seat::A, card: CardId(100), tile: 20 }));
    assert!(matches!(decide_place_landmark(&st, &canon, &cat, Seat::A, 0, 2), Err(Reject::OutsideProjection)));
    assert!(matches!(decide_place_landmark(&st, &canon, &cat, Seat::A, 1, 20), Err(Reject::BadHandIndex)));
    assert!(matches!(decide_set_fabrication(&st, &canon, &cat, Seat::A, 0, 20), Err(Reject::WrongCardKind)));
}

#[test]
fn a_surcharge_raises_the_cost_and_is_spent() {
    let (canon, cat) = spellbook();
    let mut st = board();
    st.player_a.hand = vec![CardId(101)];
    st.player_a.anima = 3;
    st.card_tax = [(2, 3), (0, 0)];
    let evs = decide_set_fabrication(&st, &canon, &cat, Seat::A, 0, 21).unwrap();
    assert_eq!(evs.len(), 3);
    assert!(matches!(evs[0], Event::AnimaSpent { seat: Seat::A, amount: 3 }));
    assert!(matches!(evs[1], Event::CardTaxSpent { seat: Seat::A }));
    assert!(matches!(evs[2], Event::FabricationSet { seat: Seat::A, card: CardId(101), tile: 21 }));
    st.player_a.anima = 2;
    assert!(matches!(decide_set_fabrication(&st, &canon, &cat, Seat::A, 0, 21), Err(Reject::NotEnoughAnima)));
}

#[test]
fn terrain_never_goes_down_where_something_holds_the_tile() {
    let (canon, cat) = spellbook();
    let mut st = board();
    st.player_a.hand = vec![CardId(100)];
    st.player_a.anima = 5;
    put_spirit(&mut st, 20, CardId(0), Seat::A);
    assert!(matches!(decide_place_landmark(&st, &canon, &cat, Seat::A, 0, 20), Err(Reject::TileHeld)));
    st.board[21].terrain = Some(Terrain { card: CardId(101), owner: Seat::B, kind: TerrainKind::Fabrication, face_down: true });
    assert!(matches!(decide_place_landmark(&st, &canon, &cat, Seat::A, 0, 21), Err(Reject::TileHeld)));
    st.stray = Some(Stray { card: CardId(2), tile: 22, temperament: Temperament::Gentle, veiled: false, courtship: 0, courted_by: None, hp: 30, hp_max: 30 });
    assert!(matches!(decide_place_landmark(&st, &canon, &cat, Seat::A, 0, 22), Err(Reject::TileHeld)));
    st.board[23].faded = true;
    assert!(matches!(decide_place_landmark(&st, &canon, &cat, Seat::A, 0, 23), Err(Reject::TileHeld)));
}

#[test]
fn a_bond_joins_two_adjacent_standing_allies() {
    let (canon, cat) = spellbook();
    let mut st = board();
    st.player_a.hand = vec![CardId(102)];
    st.player_a.anima = 1;
    put_spirit(&mut st, 6, CardId(0), Seat::A);
    put_spirit(&mut st, 7, CardId(0), Seat::A);
    put_spirit(&mut st, 8, CardId(0), Seat::B);
    put_spirit(&mut st, 16, CardId(0), Seat::A);
    let evs = decide_attach_bond(&st, &canon, &cat, Seat::A, 0, 6, 7).unwrap();
    assert_eq!(evs.len(), 2);
    assert!(matches!(evs[0], Event::AnimaSpent { seat: Seat::A, amount: 1 }));
    assert!(matches!(evs[1], Event::BondAttached { seat: Seat::A, card: CardId(102), tile_a: 6, tile_b: 7 }));
    assert!(matches!(decide_attach_bond(&st, &canon, &cat, Seat::A, 0, 7, 8), Err(Reject::BadTile)));
    assert!(matches!(decide_attach_bond(&st, &canon, &cat, Seat::A, 0, 6, 6), Err(Reject::BadTile)));
    assert!(matches!(decide_attach_bond(&st, &canon, &cat, Seat::A, 0, 6, 16), Err(Reject::TargetNotInReach)));
    st.player_a.anima = 0;
    assert!(matches!(decide_attach_bond(&st, &canon, &cat, Seat::A, 0, 6, 7), Err(Reject::NotEnoughAnima)));
}

#[test]
fn a_ritual_is_cast_for_its_cost_less_the_discount() {
    let (canon, cat) = world(vec![(110, "Starfall Rite", CardKind::Ritual, vec![]), (111, "The Quiet Spreads", CardKind::Unwriting, vec![])]);
    let mut st = board();
    st.player_a.hand = vec![CardId(110), CardId(111)];
    st.player_a.anima = 1;
    let evs = decide_cast_ritual(&st, &canon, &cat, Seat::A, 0).unwrap();
    assert_eq!(evs.len(), 2);
    assert!(matches!(evs[0], Event::AnimaSpent { seat: Seat::A, amount: 1 }));
    assert!(matches!(evs[1], Event::RitualCast { seat: Seat::A, card: CardId(110) }));
    assert!(matches!(decide_cast_ritual(&st, &canon, &cat, Seat::A, 1), Err(Reject::WrongCardKind)));
    assert!(matches!(decide_cast_ritual(&st, &canon, &cat, Seat::A, 2), Err(Reject::BadHandIndex)));
    st.player_a.anima = 0;
    assert!(matches!(decide_cast_ritual(&st, &canon, &cat, Seat::A, 0), Err(Reject::NotEnoughAnima)));
    st.next_ritual_discount = [1, 0];
    let evs = decide_cast_ritual(&st, &canon, &cat, Seat::A, 0).unwrap();
    assert_eq!(evs.len(), 3);
    assert!(matches!(evs[0], Event::RitualDiscountConsumed { seat: Seat::A }));
    assert!(matches!(evs[1], Event::AnimaSpent { seat: Seat::A, amount: 0 }));
    assert!(matches!(evs[2], Event::RitualCast { seat: Seat::A, card: CardId(110) }));
}

#[test]
fn an_unwriting_is_told_for_its_cost() {
    let (canon, cat) = world(vec![(111, "The Quiet Spreads", CardKind::Unwriting, vec![])]);
    let mut st = board();
    st.player_a.hand = vec![CardId(111), CardId(0)];
    st.player_a.anima = 2;
    st.card_tax = [(1, 5), (0, 0)];
    let evs = decide_tell_unwriting(&st, &canon, &cat, Seat::A, 0).unwrap();
    assert_eq!(evs.len(), 3);
    assert!(matches!(evs[0], Event::AnimaSpent { seat: Seat::A, amount: 2 }));
    assert!(matches!(evs[1], Event::CardTaxSpent { seat: Seat::A }));
    assert!(matches!(evs[2], Event::UnwritingTold { seat: Seat::A, card: CardId(111) }));
    assert!(matches!(decide_tell_unwriting(&st, &canon, &cat, Seat::A, 1), Err(Reject::WrongCardKind)));
    st.player_a.anima = 1;
    assert!(matches!(decide_tell_unwriting(&st, &canon, &cat, Seat::A, 0), Err(Reject::NotEnoughAnima)));
}
