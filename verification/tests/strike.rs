use recollect_core::cards::test_catalog;
use recollect_core::effects::{Canon, Clause, Condition, Duration, Effect, EffectSpec, EffectsFile, RuleException, Selector, Trigger};
use recollect_core::events::StrikeKind;
use recollect_core::state::{GameState, MatchRules, Phase, PlayerState, TileState};
use recollect_core::strike::{echo_live, exchange_strikes, interception, strike_interception};
use recollect_core::test_support::put_spirit;
use recollect_core::types::{CardDef, CardId, Faction, Resonance, Seat, SeatSlot};

fn player() -> PlayerState {
    PlayerState { hand: Vec::new(), deck: Vec::new(), anima: 0, glimpsed_this_turn: false, peeked_top: None, first_placement_done: false }
}

fn board() -> GameState {
    GameState {
        rules: MatchRules { last_round: 12, contraction_after: 8, factions: [Faction::Lorekeeper, Faction::Lorekeeper] },
        contracted: false,
        round: 1,
        active: Seat::A,
        phase: Phase::Acting,
        board: (0..25).map(|_| TileState { spirit: None, terrain: None, impressions: Vec::new(), faded: false }).collect(),
        board_w: 5,
        player_a: player(),
        player_b: player(),
        player_a2: None,
        player_b2: None,
        active_slot: SeatSlot::A1,
        moved_this_turn: Vec::new(),
        temp_mods: Vec::new(),
        temp_reach: Vec::new(),
        temp_restrict: Vec::new(),
        temp_retaliation: Vec::new(),
        card_tax: [(0, 0), (0, 0)],
        ignore_imprint_this_turn: [false, false],
        silenced_terrain: None,
        bonds: Vec::new(),
        stray: None,
        mulliganed: [false, false],
        solace_erasures: 0,
        dissolved: Vec::new(),
        next_ritual_discount: [0, 0],
        dissolved_this_turn: [0, 0],
        fade_delayed: Vec::new(),
        pending_flow_anima: [0, 0],
        next_arrival_atk: [0, 0],
        next_arrival_2nd_engage: [None, None],
        peeked_fabs: [Vec::new(), Vec::new()],
        ritual_extra_targets: 0,
        impressions_dormant_round: None,
        calm_tiles: Vec::new(),
        last_played_spirit: [None, None],
        stray_telegraph: None,
        stray_match: false,
        unwriting_told_this_round: false,
        pending_choice: None,
    }
}

fn clause(selector: Selector, effect: Effect) -> Clause {
    Clause { selector, effect, duration: Duration::WhilePresent }
}

fn aura(clauses: Vec<Clause>) -> EffectSpec {
    EffectSpec { trigger: Trigger::Static, condition: Condition::Always, clauses }
}

fn stat(attack: i16, defense: i16) -> Effect {
    Effect::StatDelta { attack, defense, form: 0 }
}

/// The test catalog plus authored cards (id, name, specs) keyed by their name.
fn world(extra: Vec<(u16, &str, Vec<EffectSpec>)>) -> (Canon, Vec<CardDef>) {
    let mut cat = test_catalog();
    let mut specs = Vec::new();
    for (id, name, sp) in extra {
        let mut c = cat[0].clone();
        c.id = CardId(id);
        c.name = name.to_string();
        c.key = format!("key-{name}");
        c.resonance = Resonance::Harmony;
        specs.push((c.key.clone(), sp));
        cat.push(c);
    }
    let canon = Canon { catalog: cat.clone(), effects: EffectsFile { specs, pending: Vec::new(), behavior: Vec::new() } };
    (canon, cat)
}


#[test]
fn an_edge_adds_ten_and_retaliation_strikes_back() {
    let (canon, cat) = world(vec![]);
    let mut st = board();
    // Dawnling (Wonder) engages Hushling (Fear): Wonder has the Edge over Fear.
    put_spirit(&mut st, 12, CardId(0), Seat::A);
    put_spirit(&mut st, 13, CardId(2), Seat::B);
    let s = exchange_strikes(&st, &canon, &cat, 12, 13, StrikeKind::Engage, 0, false, false).unwrap();
    assert_eq!((s.to_defender, s.to_attacker), (20, 10));
    // Echo adds its bonus to whichever side rolled it; a bonus shifts the blow.
    let s = exchange_strikes(&st, &canon, &cat, 12, 13, StrikeKind::Engage, -5, true, true).unwrap();
    assert_eq!((s.to_defender, s.to_attacker), (35, 30));
}

#[test]
fn defense_soaks_the_blow_but_never_below_zero() {
    let (canon, cat) = world(vec![]);
    let mut st = board();
    put_spirit(&mut st, 12, CardId(4), Seat::A);
    put_spirit(&mut st, 13, CardId(5), Seat::B);
    st.board[13].spirit.as_mut().unwrap().defense = 25;
    st.board[12].spirit.as_mut().unwrap().defense = 4;
    let s = exchange_strikes(&st, &canon, &cat, 12, 13, StrikeKind::Engage, 0, false, false).unwrap();
    assert_eq!((s.to_defender, s.to_attacker), (0, 6));
}

#[test]
fn a_forgiven_debt_leaves_the_defender_one_form_against_echo() {
    let (canon, cat) = world(vec![(
        130,
        "Forgiven Debt",
        vec![EffectSpec {
            trigger: Trigger::Static,
            condition: Condition::Always,
            clauses: vec![Clause { selector: Selector::SelfSpirit, effect: Effect::Exception(RuleException::UnbanishableByEcho), duration: Duration::WhilePresent }],
        }],
    )]);
    let mut st = board();
    put_spirit(&mut st, 12, CardId(4), Seat::A);
    put_spirit(&mut st, 13, CardId(130), Seat::B);
    st.board[12].spirit.as_mut().unwrap().hp = 20;
    st.board[13].spirit.as_mut().unwrap().hp = 5;
    st.board[13].spirit.as_mut().unwrap().hp_max = 8;
    assert!(echo_live(&st, &canon, &cat, 12));
    assert!(!echo_live(&st, &canon, &cat, 13));
    let s = exchange_strikes(&st, &canon, &cat, 12, 13, StrikeKind::Engage, 0, true, false).unwrap();
    assert_eq!(s.to_defender, 4);
}

#[test]
fn no_exchange_without_both_spirits() {
    let (canon, cat) = world(vec![]);
    let mut st = board();
    put_spirit(&mut st, 12, CardId(0), Seat::A);
    assert!(exchange_strikes(&st, &canon, &cat, 12, 13, StrikeKind::Chain(1), 0, false, false).is_none());
}

#[test]
fn the_strongest_enemy_in_reach_intercepts_the_first_on_a_tie() {
    let (canon, cat) = world(vec![]);
    let mut st = board();
    put_spirit(&mut st, 12, CardId(0), Seat::A);
    put_spirit(&mut st, 13, CardId(0), Seat::B);
    put_spirit(&mut st, 17, CardId(0), Seat::B);
    let b = interception(&st, &canon, &cat, 12, Seat::A).unwrap();
    assert_eq!((b.tile, b.base, b.echo_possible), (13, 10, false));
    st.board[17].spirit.as_mut().unwrap().attack = 25;
    let b = interception(&st, &canon, &cat, 12, Seat::A).unwrap();
    assert_eq!((b.tile, b.base), (17, 25));
}

#[test]
fn held_spent_or_barred_spirits_do_not_intercept() {
    let (canon, cat) = world(vec![]);
    let mut st = board();
    put_spirit(&mut st, 12, CardId(0), Seat::A);
    put_spirit(&mut st, 13, CardId(0), Seat::B);
    put_spirit(&mut st, 17, CardId(0), Seat::B);
    put_spirit(&mut st, 11, CardId(0), Seat::B);
    st.board[13].spirit.as_mut().unwrap().holding = true;
    st.board[17].spirit.as_mut().unwrap().intercepted_this_round = true;
    st.board[11].spirit.as_mut().unwrap().no_engage_until = 3;
    assert!(interception(&st, &canon, &cat, 12, Seat::A).is_none());
}

#[test]
fn a_toothless_interceptor_bites_only_if_it_may_echo() {
    let (canon, cat) = world(vec![]);
    let mut st = board();
    put_spirit(&mut st, 12, CardId(0), Seat::A);
    put_spirit(&mut st, 13, CardId(0), Seat::B);
    st.board[12].spirit.as_mut().unwrap().defense = 30;
    assert!(interception(&st, &canon, &cat, 12, Seat::A).is_none());
    st.board[13].spirit.as_mut().unwrap().hp = 15;
    let b = interception(&st, &canon, &cat, 12, Seat::A).unwrap();
    assert_eq!((b.tile, b.base, b.echo_possible), (13, 0, true));
    // The roll came up Echo: the bite lands for the Echo bonus.
    st.board[12].spirit.as_mut().unwrap().hp = 20;
    let mut evs = Vec::new();
    assert!(strike_interception(&mut st, &mut evs, 12, &b, true));
    assert_eq!(st.board[12].spirit.as_ref().unwrap().hp, 0);
}
