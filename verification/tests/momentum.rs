use recollect_core::cards::test_catalog;
use recollect_core::effects::{Canon, Clause, Condition, Duration, Effect, EffectSpec, EffectsFile, Selector, Trigger};
use recollect_core::events::Event;
use recollect_core::momentum::{momentum_link, offer_second_engage};
use recollect_core::state::{GameState, MatchRules, Phase, PlayerState, TileState};
use recollect_core::targeting::targeting_reach_for_test;
use recollect_core::test_support::put_spirit;
use recollect_core::types::{CardDef, CardId, Faction, Resonance, Seat, SeatSlot};

fn player() -> PlayerState {
    PlayerState { hand: Vec::new(), deck: Vec::new(), anima: 0, glimpsed_this_turn: false, peeked_top: None, first_placement_done: false }
}

fn board() -> GameState {
    GameState {
        rules: MatchRules { last_round: 12, contraction_after: 8, factions: [Faction::Lorekeeper, Faction::Lorekeeper] },
        contracted: false,
        round: 1,
        active: Seat::A,
        phase: Phase::Acting,
        board: (0..25).map(|_| TileState { spirit: None, terrain: None, impressions: Vec::new(), faded: false }).collect(),
        board_w: 5,
        player_a: player(),
        player_b: player(),
        player_a2: None,
        player_b2: None,
        active_slot: SeatSlot::A1,
        moved_this_turn: Vec::new(),
        temp_mods: Vec::new(),
        temp_reach: Vec::new(),
        temp_restrict: Vec::new(),
        temp_retaliation: Vec::new(),
        card_tax: [(0, 0), (0, 0)],
        ignore_imprint_this_turn: [false, false],
        silenced_terrain: None,
        bonds: Vec::new(),
        stray: None,
        mulliganed: [false, false],
        solace_erasures: 0,
        dissolved: Vec::new(),
        next_ritual_discount: [0, 0],
        dissolved_this_turn: [0, 0],
        fade_delayed: Vec::new(),
        pending_flow_anima: [0, 0],
        next_arrival_atk: [0, 0],
        next_arrival_2nd_engage: [None, None],
        peeked_fabs: [Vec::new(), Vec::new()],
        ritual_extra_targets: 0,
        impressions_dormant_round: None,
        calm_tiles: Vec::new(),
        last_played_spirit: [None, None],
        stray_telegraph: None,
        stray_match: false,
        unwriting_told_this_round: false,
        pending_choice: None,
    }
}

fn clause(selector: Selector, effect: Effect) -> Clause {
    Clause { selector, effect, duration: Duration::WhilePresent }
}

fn aura(clauses: Vec<Clause>) -> EffectSpec {
    EffectSpec { trigger: Trigger::Static, condition: Condition::Always, clauses }
}

fn stat(attack: i16, defense: i16) -> Effect {
    Effect::StatDelta { attack, defense, form: 0 }
}

/// The test catalog plus authored cards (id, name, specs) keyed by their name.
fn world(extra: Vec<(u16, &str, Vec<EffectSpec>)>) -> (Canon, Vec<CardDef>) {
    let mut cat = test_catalog();
    let mut specs = Vec::new();
    for (id, name, sp) in extra {
        let mut c = cat[0].clone();
        c.id = CardId(id);
        c.name = name.to_string();
        c.key = format!("key-{name}");
        c.resonance = Resonance::Harmony;
        specs.push((c.key.clone(), sp));
        cat.push(c);
    }
    let canon = Canon { catalog: cat.clone(), effects: EffectsFile { specs, pending: Vec::new(), behavior: Vec::new() } };
    (canon, cat)
}


#[test]
fn the_first_link_goes_for_the_enemy_it_would_fell() {
    let (canon, cat) = world(vec![]);
    let mut st = board();
    put_spirit(&mut st, 12, CardId(0), Seat::A);
    put_spirit(&mut st, 13, CardId(0), Seat::B);
    put_spirit(&mut st, 7, CardId(0), Seat::B);
    st.board[7].spirit.as_mut().unwrap().hp = 15;
    assert_eq!(momentum_link(&st, &canon, &cat, 12, Seat::A, 1, &[]), Some((7, 10)));
    // A stated preference in reach wins over the ranking.
    assert_eq!(momentum_link(&st, &canon, &cat, 12, Seat::A, 1, &[3, 13]), Some((13, 10)));
}

#[test]
fn on_a_tie_the_last_enemy_in_reach_is_taken() {
    let (canon, cat) = world(vec![]);
    let mut st = board();
    put_spirit(&mut st, 12, CardId(0), Seat::A);
    put_spirit(&mut st, 11, CardId(0), Seat::B);
    put_spirit(&mut st, 13, CardId(0), Seat::B);
    let reach = targeting_reach_for_test(&st, &canon, &cat, 12, Seat::A);
    let enemies: Vec<u8> = reach.into_iter().filter(|t| *t == 11 || *t == 13).collect();
    let (pick, _) = momentum_link(&st, &canon, &cat, 12, Seat::A, 1, &[]).unwrap();
    assert_eq!(Some(&pick), enemies.last());
}

#[test]
fn only_a_relentless_spirit_chains_past_the_first_link() {
    let (canon, cat) = world(vec![]);
    let mut st = board();
    put_spirit(&mut st, 12, CardId(0), Seat::A);
    put_spirit(&mut st, 13, CardId(0), Seat::B);
    assert_eq!(momentum_link(&st, &canon, &cat, 12, Seat::A, 2, &[]), None);
    let mut cat2 = cat.clone();
    cat2[0].relentless = true;
    assert_eq!(momentum_link(&st, &canon, &cat2, 12, Seat::A, 2, &[]), Some((13, 20)));
}

#[test]
fn no_link_without_an_enemy_in_reach() {
    let (canon, cat) = world(vec![]);
    let mut st = board();
    put_spirit(&mut st, 12, CardId(0), Seat::A);
    put_spirit(&mut st, 13, CardId(0), Seat::A);
    put_spirit(&mut st, 0, CardId(0), Seat::B);
    assert_eq!(momentum_link(&st, &canon, &cat, 12, Seat::A, 1, &[]), None);
}

#[test]
fn again_offers_the_other_enemies_in_reach_once() {
    let (canon, cat) = world(vec![]);
    let mut st = board();
    put_spirit(&mut st, 12, CardId(0), Seat::A);
    put_spirit(&mut st, 13, CardId(0), Seat::B);
    put_spirit(&mut st, 11, CardId(0), Seat::B);
    let mut evs = Vec::new();
    assert!(offer_second_engage(&mut st, &mut evs, &canon, &cat, Seat::A, 12, Some(13)).is_none());
    assert!(evs.is_empty());
    st.next_arrival_2nd_engage = [Some(-10), None];
    let (opts, penalty) = offer_second_engage(&mut st, &mut evs, &canon, &cat, Seat::A, 12, Some(13)).unwrap();
    assert_eq!(opts, vec![11u8]);
    assert_eq!(penalty, -10);
    assert_eq!(evs.len(), 1);
    assert!(matches!(evs[0], Event::NextArrivalSecondConsumed { seat: Seat::A }));
    assert_eq!(st.next_arrival_2nd_engage, [None, None]);
}
