use recollect_core::at_flow::{fire_at_flow, fire_at_flow_gifts, FlowReads};
use recollect_core::cards::test_catalog;
use recollect_core::effects::{Canon, Clause, Condition, Duration, Effect, EffectSpec, EffectsFile, Selector, Trigger};
use recollect_core::events::{AnimaReason, Event};
use recollect_core::state::{GameState, MatchRules, Phase, PlayerState, Terrain, TerrainKind, TileState};
use recollect_core::test_support::put_spirit;
use recollect_core::types::{CardDef, CardId, CardKind, Faction, Seat, SeatSlot};

fn player() -> PlayerState {
    PlayerState { hand: Vec::new(), deck: Vec::new(), anima: 0, glimpsed_this_turn: false, peeked_top: None, first_placement_done: false }
}

fn board() -> GameState {
    GameState {
        rules: MatchRules { last_round: 12, contraction_after: 8, factions: [Faction::Lorekeeper, Faction::Lorekeeper] },
        contracted: false,
        round: 3,
        active: Seat::A,
        phase: Phase::Acting,
        board: (0..25).map(|_| TileState { spirit: None, terrain: None, impressions: Vec::new(), faded: false }).collect(),
        board_w: 5,
        player_a: player(),
        player_b: player(),
        player_a2: None,
        player_b2: None,
        active_slot: SeatSlot::A1,
        moved_this_turn: Vec::new(),
        temp_mods: Vec::new(),
        temp_reach: Vec::new(),
        temp_restrict: Vec::new(),
        temp_retaliation: Vec::new(),
        card_tax: [(0, 0), (0, 0)],
        ignore_imprint_this_turn: [false, false],
        silenced_terrain: None,
        bonds: Vec::new(),
        stray: None,
        mulliganed: [false, false],
        solace_erasures: 0,
        dissolved: Vec::new(),
        next_ritual_discount: [0, 0],
        dissolved_this_turn: [0, 0],
        fade_delayed: Vec::new(),
        pending_flow_anima: [0, 0],
        next_arrival_atk: [0, 0],
        next_arrival_2nd_engage: [None, None],
        peeked_fabs: [Vec::new(), Vec::new()],
        ritual_extra_targets: 0,
        impressions_dormant_round: None,
        calm_tiles: Vec::new(),
        last_played_spirit: [None, None],
        stray_telegraph: None,
        stray_match: false,
        unwriting_told_this_round: false,
        pending_choice: None,
    }
}

fn at_flow(clauses: Vec<(Selector, Effect)>) -> EffectSpec {
    EffectSpec {
        trigger: Trigger::AtFlow,
        condition: Condition::Always,
        clauses: clauses.into_iter().map(|(selector, effect)| Clause { selector, effect, duration: Duration::Instant }).collect(),
    }
}

fn world(extra: Vec<(u16, &str, CardKind, Vec<EffectSpec>)>) -> (Canon, Vec<CardDef>) {
    let mut cat = test_catalog();
    let mut specs = Vec::new();
    for (id, name, kind, sp) in extra {
        let mut c = cat[0].clone();
        c.id = CardId(id);
        c.name = name.to_string();
        c.key = format!("key-{name}");
        c.kind = kind;
        specs.push((c.key.clone(), sp));
        cat.push(c);
    }
    let canon = Canon { catalog: cat.clone(), effects: EffectsFile { specs, pending: Vec::new(), behavior: Vec::new() } };
    (canon, cat)
}


#[test]
fn a_landmark_tithes_anima_and_heals_its_occupant() {
    let (canon, cat) = world(vec![(
        100,
        "Hearth Stone",
        CardKind::Landmark,
        vec![at_flow(vec![
            (Selector::Owner, Effect::AnimaDelta { amount: 2 }),
            (Selector::OccupantHere, Effect::RestoreForm { amount: 3 }),
        ])],
    )]);
    let mut st = board();
    st.board[12].terrain = Some(Terrain { card: CardId(100), owner: Seat::A, kind: TerrainKind::Landmark, face_down: false });
    put_spirit(&mut st, 12, CardId(0), Seat::A);
    st.board[12].spirit.as_mut().unwrap().hp = 30;
    let mut evs = Vec::new();
    let reads = fire_at_flow(&mut st, &mut evs, &canon, &cat, Seat::A);
    assert!(evs.is_empty());
    assert_eq!(reads.anima, 2);
    assert_eq!(reads.heals, vec![(12u8, 3i16)]);
    assert_eq!(reads.draws, 0);
    fire_at_flow_gifts(&mut st, &mut evs, &reads, Seat::A);
    assert_eq!(evs.len(), 2);
    assert!(matches!(evs[0], Event::AnimaGained { seat: Seat::A, amount: 2, reason: AnimaReason::Effect }));
    assert!(matches!(evs[1], Event::EffectRestored { tile: 12, amount: 3 }));
    assert_eq!(st.player_a.anima, 2);
}

#[test]
fn an_enemy_or_face_down_landmark_does_nothing_at_the_flow() {
    let (canon, cat) = world(vec![(
        100,
        "Hearth Stone",
        CardKind::Landmark,
        vec![at_flow(vec![(Selector::Owner, Effect::AnimaDelta { amount: 2 })])],
    )]);
    let mut st = board();
    st.board[3].terrain = Some(Terrain { card: CardId(100), owner: Seat::B, kind: TerrainKind::Landmark, face_down: false });
    st.board[4].terrain = Some(Terrain { card: CardId(100), owner: Seat::A, kind: TerrainKind::Landmark, face_down: true });
    let mut evs = Vec::new();
    let reads = fire_at_flow(&mut st, &mut evs, &canon, &cat, Seat::A);
    assert_eq!(reads.anima, 0);
    fire_at_flow_gifts(&mut st, &mut evs, &reads, Seat::A);
    assert!(evs.is_empty());
}

#[test]
fn a_foal_grows_each_flow_but_stops_at_its_cap() {
    let (canon, cat) = world(vec![(
        101,
        "Storm Foal",
        CardKind::Spirit,
        vec![at_flow(vec![(Selector::SelfSpirit, Effect::GrowEachFlow { step: 5, max: 20 })])],
    )]);
    let mut st = board();
    put_spirit(&mut st, 6, CardId(101), Seat::A);
    // Printed 10/20; the plain spirit stands at 28/40: 2 attack and 0 defense of room.
    st.board[6].spirit.as_mut().unwrap().attack = 28;
    st.board[6].spirit.as_mut().unwrap().defense = 40;
    let mut evs = Vec::new();
    let reads = fire_at_flow(&mut st, &mut evs, &canon, &cat, Seat::A);
    assert_eq!(reads.grows, vec![(6u8, 2i16, 0i16)]);
    assert_eq!(evs.len(), 1);
    assert!(matches!(evs[0], Event::EffectStat { tile: 6, attack: 2, defense: 0, form: 0 }));
    assert_eq!(st.board[6].spirit.as_ref().unwrap().attack, 30);
    // At the cap nothing more grows.
    let mut evs2 = Vec::new();
    let reads2 = fire_at_flow(&mut st, &mut evs2, &canon, &cat, Seat::A);
    assert!(reads2.grows.is_empty());
    assert!(evs2.is_empty());
}

#[test]
fn a_warm_page_erodes_one_adjacent_enemy_mark() {
    let (canon, cat) = world(vec![(
        102,
        "Last Warm Page",
        CardKind::Spirit,
        vec![at_flow(vec![(Selector::Owner, Effect::ImpressionRemoveTarget)])],
    )]);
    let mut st = board();
    put_spirit(&mut st, 12, CardId(102), Seat::A);
    // Left (11) and above (7) bear the enemy's mark; right (13) bears our own.
    st.board[11].impressions = vec![Seat::B];
    st.board[7].impressions = vec![Seat::B];
    st.board[13].impressions = vec![Seat::A];
    let mut evs = Vec::new();
    let reads = fire_at_flow(&mut st, &mut evs, &canon, &cat, Seat::A);
    assert_eq!(reads.pages, vec![12u8]);
    assert_eq!(evs.len(), 1);
    assert!(matches!(evs[0], Event::ImpressionUnwritten { tile: 11 }));
    assert!(st.board[11].impressions.is_empty());
    assert_eq!(st.board[7].impressions, vec![Seat::B]);
    assert_eq!(st.board[13].impressions, vec![Seat::A]);
}

#[test]
fn the_solace_forgets_the_eroded_mark_and_tallies_it() {
    let (canon, cat) = world(vec![(
        102,
        "Last Warm Page",
        CardKind::Spirit,
        vec![at_flow(vec![(Selector::Owner, Effect::ImpressionRemoveTarget)])],
    )]);
    let mut st = board();
    st.rules.factions = [Faction::Lorekeeper, Faction::Solace];
    st.active = Seat::B;
    put_spirit(&mut st, 12, CardId(102), Seat::B);
    st.board[17].impressions = vec![Seat::A];
    let mut evs = Vec::new();
    fire_at_flow(&mut st, &mut evs, &canon, &cat, Seat::B);
    assert_eq!(evs.len(), 1);
    assert!(matches!(evs[0], Event::ImpressionForgotten { tile: 17 }));
    assert_eq!(st.solace_erasures, 1);
}

#[test]
fn two_pages_beside_one_mark_erode_it_once() {
    let (canon, cat) = world(vec![(
        102,
        "Last Warm Page",
        CardKind::Spirit,
        vec![at_flow(vec![(Selector::Owner, Effect::ImpressionRemoveTarget)])],
    )]);
    let mut st = board();
    put_spirit(&mut st, 11, CardId(102), Seat::A);
    put_spirit(&mut st, 13, CardId(102), Seat::A);
    st.board[12].impressions = vec![Seat::B];
    let mut evs = Vec::new();
    fire_at_flow(&mut st, &mut evs, &canon, &cat, Seat::A);
    assert_eq!(evs.len(), 1);
    assert!(matches!(evs[0], Event::ImpressionUnwritten { tile: 12 }));
}

#[test]
fn attuned_draws_stop_when_the_deck_runs_out() {
    let mut st = board();
    st.player_a.deck = vec![CardId(1), CardId(2)];
    let reads = FlowReads { anima: 0, heals: Vec::new(), grows: Vec::new(), pages: Vec::new(), sages: Vec::new(), draws: 3 };
    let mut evs = Vec::new();
    fire_at_flow_gifts(&mut st, &mut evs, &reads, Seat::A);
    assert_eq!(evs.len(), 2);
    assert!(evs.iter().all(|e| matches!(e, Event::CardDrawn { seat: Seat::A })));
    assert_eq!(st.player_a.hand, vec![CardId(1), CardId(2)]);
    assert!(st.player_a.deck.is_empty());
}

#[test]
fn a_negative_tithe_grants_no_anima() {
    let mut st = board();
    let reads = FlowReads { anima: -2, heals: Vec::new(), grows: Vec::new(), pages: Vec::new(), sages: Vec::new(), draws: 0 };
    let mut evs = Vec::new();
    fire_at_flow_gifts(&mut st, &mut evs, &reads, Seat::A);
    assert!(evs.is_empty());
    assert_eq!(st.player_a.anima, 0);
}
