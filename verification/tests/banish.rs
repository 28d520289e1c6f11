use recollect_core::cards::test_catalog;
use recollect_core::effects::{Canon, Clause, Condition, Duration, Effect, EffectSpec, EffectsFile, Replacement, Selector, Trigger};
use recollect_core::engage::banish;
use recollect_core::events::Event;
use recollect_core::state::{GameState, MatchRules, Phase, PlayerState, TileState};
use recollect_core::test_support::put_spirit;
use recollect_core::types::{CardDef, CardId, Faction, Seat, SeatSlot};

fn player() -> PlayerState {
    PlayerState { hand: Vec::new(), deck: Vec::new(), anima: 0, glimpsed_this_turn: false, peeked_top: None, first_placement_done: false }
}

fn board() -> GameState {
    GameState {
        rules: MatchRules { last_round: 12, contraction_after: 8, factions: [Faction::Lorekeeper, Faction::Lorekeeper] },
        contracted: false,
        round: 1,
        active: Seat::A,
        phase: Phase::Acting,
        board: (0..25).map(|_| TileState { spirit: None, terrain: None, impressions: Vec::new(), faded: false }).collect(),
        board_w: 5,
        player_a: player(),
        player_b: player(),
        player_a2: None,
        player_b2: None,
        active_slot: SeatSlot::A1,
        moved_this_turn: Vec::new(),
        temp_mods: Vec::new(),
        temp_reach: Vec::new(),
        temp_restrict: Vec::new(),
        temp_retaliation: Vec::new(),
        card_tax: [(0, 0), (0, 0)],
        ignore_imprint_this_turn: [false, false],
        silenced_terrain: None,
        bonds: Vec::new(),
        stray: None,
        mulliganed: [false, false],
        solace_erasures: 0,
        dissolved: Vec::new(),
        next_ritual_discount: [0, 0],
        dissolved_this_turn: [0, 0],
        fade_delayed: Vec::new(),
        pending_flow_anima: [0, 0],
        next_arrival_atk: [0, 0],
        next_arrival_2nd_engage: [None, None],
        peeked_fabs: [Vec::new(), Vec::new()],
        ritual_extra_targets: 0,
        impressions_dormant_round: None,
        calm_tiles: Vec::new(),
        last_played_spirit: [None, None],
        stray_telegraph: None,
        stray_match: false,
        unwriting_told_this_round: false,
        pending_choice: None,
    }
}

fn world(extra: Vec<(u16, &str, Vec<EffectSpec>)>) -> (Canon, Vec<CardDef>) {
    let mut cat = test_catalog();
    let mut specs = Vec::new();
    for (id, name, sp) in extra {
        let mut c = cat[0].clone();
        c.id = CardId(id);
        c.name = name.to_string();
        c.key = format!("key-{name}");
        specs.push((c.key.clone(), sp));
        cat.push(c);
    }
    let canon = Canon { catalog: cat.clone(), effects: EffectsFile { specs, pending: Vec::new(), behavior: Vec::new() } };
    (canon, cat)
}

#[test]
fn a_banished_spirit_fades_under_the_banishers_mark() {
    let (canon, cat) = world(vec![]);
    let mut st = board();
    put_spirit(&mut st, 12, CardId(0), Seat::B);
    let mut evs = Vec::new();
    assert!(banish(&mut st, &mut evs, &canon, &cat, 12, Seat::A));
    assert!(matches!(evs[0], Event::SpiritBecameFading { tile: 12, banished_by: Some(Seat::A) }));
    let sp = st.board[12].spirit.as_ref().unwrap();
    assert!(sp.fading);
    assert_eq!(sp.banished_by, Some(Seat::A));
}

#[test]
fn a_once_per_match_replace_keeps_the_spirit_once() {
    let (canon, cat) = world(vec![(
        140,
        "Second Wind",
        vec![EffectSpec {
            trigger: Trigger::Static,
            condition: Condition::OncePerMatch,
            clauses: vec![Clause { selector: Selector::SelfSpirit, effect: Effect::Replace(Replacement::SurviveBanishAt { form: 5 }), duration: Duration::WhilePresent }],
        }],
    )]);
    let mut st = board();
    put_spirit(&mut st, 12, CardId(140), Seat::B);
    let mut evs = Vec::new();
    assert!(!banish(&mut st, &mut evs, &canon, &cat, 12, Seat::A));
    assert!(matches!(evs[0], Event::ReplacementSurvived { tile: 12, form: 5 }));
    let sp = st.board[12].spirit.as_ref().unwrap();
    assert_eq!(sp.hp, 5);
    assert!(sp.replacement_used && !sp.fading);
    // The Replace is spent: the next banishment takes it.
    assert!(banish(&mut st, &mut evs, &canon, &cat, 12, Seat::A));
    assert!(matches!(evs[1], Event::SpiritBecameFading { tile: 12, .. }));
}

#[test]
fn a_kindred_token_dissolves_leaving_nothing() {
    let (canon, cat) = world(vec![]);
    let mut st = board();
    put_spirit(&mut st, 12, CardId(0), Seat::B);
    st.board[12].spirit.as_mut().unwrap().is_token = true;
    let mut evs = Vec::new();
    assert!(banish(&mut st, &mut evs, &canon, &cat, 12, Seat::A));
    assert!(matches!(evs[0], Event::TokenDissolved { tile: 12 }));
    assert!(st.board[12].spirit.is_none());
}
