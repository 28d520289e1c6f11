use recollect_core::cards::test_catalog;
use recollect_core::effects::{Canon, Clause, Condition, Duration, Effect, EffectSpec, EffectsFile, Selector, Trigger};
use recollect_core::events::Event;
use recollect_core::state::{GameState, MatchRules, Phase, PlayerState, TileState};
use recollect_core::test_support::put_spirit;
use recollect_core::types::{CardDef, CardId, CardKind, Faction, Seat, SeatSlot};
use recollect_core::upkeep::{schedule_flow_anima, sweep_orphan_tokens};

fn player() -> PlayerState {
    PlayerState { hand: Vec::new(), deck: Vec::new(), anima: 0, glimpsed_this_turn: false, peeked_top: None, first_placement_done: false }
}

fn board() -> GameState {
    GameState {
        rules: MatchRules { last_round: 12, contraction_after: 8, factions: [Faction::Lorekeeper, Faction::Lorekeeper] },
        contracted: false,
        round: 3,
        active: Seat::A,
        phase: Phase::Acting,
        board: (0..25).map(|_| TileState { spirit: None, terrain: None, impressions: Vec::new(), faded: false }).collect(),
        board_w: 5,
        player_a: player(),
        player_b: player(),
        player_a2: None,
        player_b2: None,
        active_slot: SeatSlot::A1,
        moved_this_turn: Vec::new(),
        temp_mods: Vec::new(),
        temp_reach: Vec::new(),
        temp_restrict: Vec::new(),
        temp_retaliation: Vec::new(),
        card_tax: [(0, 0), (0, 0)],
        ignore_imprint_this_turn: [false, false],
        silenced_terrain: None,
        bonds: Vec::new(),
        stray: None,
        mulliganed: [false, false],
        solace_erasures: 0,
        dissolved: Vec::new(),
        next_ritual_discount: [0, 0],
        dissolved_this_turn: [0, 0],
        fade_delayed: Vec::new(),
        pending_flow_anima: [0, 0],
        next_arrival_atk: [0, 0],
        next_arrival_2nd_engage: [None, None],
        peeked_fabs: [Vec::new(), Vec::new()],
        ritual_extra_targets: 0,
        impressions_dormant_round: None,
        calm_tiles: Vec::new(),
        last_played_spirit: [None, None],
        stray_telegraph: None,
        stray_match: false,
        unwriting_told_this_round: false,
        pending_choice: None,
    }
}

fn spec(trigger: Trigger, condition: Condition, clauses: Vec<(Selector, Effect)>) -> EffectSpec {
    EffectSpec {
        trigger,
        condition,
        clauses: clauses.into_iter().map(|(selector, effect)| Clause { selector, effect, duration: Duration::Instant }).collect(),
    }
}

fn world(extra: Vec<(u16, &str, CardKind, Vec<EffectSpec>)>) -> (Canon, Vec<CardDef>) {
    let mut cat = test_catalog();
    let mut specs = Vec::new();
    for (id, name, kind, sp) in extra {
        let mut c = cat[0].clone();
        c.id = CardId(id);
        c.name = name.to_string();
        c.key = format!("key-{name}");
        c.kind = kind;
        specs.push((c.key.clone(), sp));
        cat.push(c);
    }
    let canon = Canon { catalog: cat.clone(), effects: EffectsFile { specs, pending: Vec::new(), behavior: Vec::new() } };
    (canon, cat)
}


fn kindred_world() -> (Canon, Vec<CardDef>) {
    world(vec![
        (110, "Kindling", CardKind::Kindred, vec![]),
        (111, "Hearthcaller", CardKind::Spirit, vec![spec(Trigger::OnPlay, Condition::Always, vec![(Selector::Owner, Effect::Summon { card_name: "Kindling".to_string() })])]),
        (112, "Unwritten Husk", CardKind::Unwritten, vec![]),
    ])
}

fn token(st: &mut GameState, tile: u8, card: u16, owner: Seat) {
    put_spirit(st, tile, CardId(card), owner);
    st.board[tile as usize].spirit.as_mut().unwrap().is_token = true;
}

#[test]
fn a_kindred_with_its_caller_standing_stays() {
    let (canon, cat) = kindred_world();
    let mut st = board();
    put_spirit(&mut st, 6, CardId(111), Seat::A);
    token(&mut st, 7, 110, Seat::A);
    let mut evs = Vec::new();
    sweep_orphan_tokens(&mut st, &mut evs, &canon, &cat);
    assert!(evs.is_empty());
    assert!(st.board[7].spirit.is_some());
}

#[test]
fn an_orphaned_kindred_fades_to_nothing() {
    let (canon, cat) = kindred_world();
    let mut st = board();
    // The only caller belongs to the other seat, and another is fading.
    put_spirit(&mut st, 6, CardId(111), Seat::B);
    put_spirit(&mut st, 8, CardId(111), Seat::A);
    st.board[8].spirit.as_mut().unwrap().fading = true;
    token(&mut st, 7, 110, Seat::A);
    token(&mut st, 12, 112, Seat::A);
    let mut evs = Vec::new();
    sweep_orphan_tokens(&mut st, &mut evs, &canon, &cat);
    assert_eq!(evs.len(), 1);
    assert!(matches!(evs[0], Event::TokenDissolved { tile: 7 }));
    assert!(st.board[7].spirit.is_none());
    assert!(st.board[7].impressions.is_empty());
    assert!(st.board[12].spirit.is_some());
}

#[test]
fn patience_books_its_promised_anima() {
    let (canon, _cat) = world(vec![
        (
            113,
            "Patience",
            CardKind::Ritual,
            vec![
                spec(Trigger::AtFlow, Condition::OncePerMatch, vec![
                    (Selector::Owner, Effect::AnimaDelta { amount: 2 }),
                    (Selector::Owner, Effect::AnimaDelta { amount: 3 }),
                    (Selector::Owner, Effect::AnimaDelta { amount: -1 }),
                ]),
                spec(Trigger::AtFlow, Condition::Always, vec![(Selector::Owner, Effect::AnimaDelta { amount: 4 })]),
            ],
        ),
        (114, "Plain Ritual", CardKind::Ritual, vec![]),
    ]);
    let mut st = board();
    let mut evs = Vec::new();
    schedule_flow_anima(&mut st, &mut evs, &canon, "Patience", Seat::A);
    assert_eq!(evs.len(), 1);
    assert!(matches!(evs[0], Event::FlowAnimaScheduled { seat: Seat::A, amount: 5 }));
    assert_eq!(st.pending_flow_anima, [5, 0]);
    let mut evs2 = Vec::new();
    schedule_flow_anima(&mut st, &mut evs2, &canon, "Plain Ritual", Seat::A);
    assert!(evs2.is_empty());
}
