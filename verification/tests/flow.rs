use recollect_core::cards::test_catalog;
use recollect_core::effects::{Canon, Clause, Condition, Duration, Effect, EffectSpec, EffectsFile, RuleException, Selector, Trigger};
use recollect_core::events::Event;
use recollect_core::flow::{apply_next_arrival, fade_if_held, finish, prune_broken_bonds, score};
use recollect_core::state::{Bond, GameState, MatchResult, MatchRules, Phase, PlayerState, TileState};
use recollect_core::test_support::put_spirit;
use recollect_core::types::{CardDef, CardId, CardKind, Faction, Seat, SeatSlot};

fn player() -> PlayerState {
    PlayerState { hand: Vec::new(), deck: Vec::new(), anima: 0, glimpsed_this_turn: false, peeked_top: None, first_placement_done: false }
}

fn board() -> GameState {
    GameState {
        rules: MatchRules { last_round: 12, contraction_after: 8, factions: [Faction::Lorekeeper, Faction::Lorekeeper] },
        contracted: false,
        round: 3,
        active: Seat::A,
        phase: Phase::Acting,
        board: (0..25).map(|_| TileState { spirit: None, terrain: None, impressions: Vec::new(), faded: false }).collect(),
        board_w: 5,
        player_a: player(),
        player_b: player(),
        player_a2: None,
        player_b2: None,
        active_slot: SeatSlot::A1,
        moved_this_turn: Vec::new(),
        temp_mods: Vec::new(),
        temp_reach: Vec::new(),
        temp_restrict: Vec::new(),
        temp_retaliation: Vec::new(),
        card_tax: [(0, 0), (0, 0)],
        ignore_imprint_this_turn: [false, false],
        silenced_terrain: None,
        bonds: Vec::new(),
        stray: None,
        mulliganed: [false, false],
        solace_erasures: 0,
        dissolved: Vec::new(),
        next_ritual_discount: [0, 0],
        dissolved_this_turn: [0, 0],
        fade_delayed: Vec::new(),
        pending_flow_anima: [0, 0],
        next_arrival_atk: [0, 0],
        next_arrival_2nd_engage: [None, None],
        peeked_fabs: [Vec::new(), Vec::new()],
        ritual_extra_targets: 0,
        impressions_dormant_round: None,
        calm_tiles: Vec::new(),
        last_played_spirit: [None, None],
        stray_telegraph: None,
        stray_match: false,
        unwriting_told_this_round: false,
        pending_choice: None,
    }
}

fn aura(selector: Selector, effect: Effect) -> EffectSpec {
    EffectSpec { trigger: Trigger::Static, condition: Condition::Always, clauses: vec![Clause { selector, effect, duration: Duration::WhilePresent }] }
}

fn world(extra: Vec<(u16, &str, CardKind, Vec<EffectSpec>)>) -> (Canon, Vec<CardDef>) {
    let mut cat = test_catalog();
    let mut specs = Vec::new();
    for (id, name, kind, sp) in extra {
        let mut c = cat[0].clone();
        c.id = CardId(id);
        c.name = name.to_string();
        c.key = format!("key-{name}");
        c.kind = kind;
        specs.push((c.key.clone(), sp));
        cat.push(c);
    }
    let canon = Canon { catalog: cat.clone(), effects: EffectsFile { specs, pending: Vec::new(), behavior: Vec::new() } };
    (canon, cat)
}

#[test]
fn nightfall_scores_spirits_then_impressions() {
    let (canon, cat) = world(vec![]);
    let mut st = board();
    put_spirit(&mut st, 0, CardId(0), Seat::A);
    put_spirit(&mut st, 1, CardId(0), Seat::A);
    put_spirit(&mut st, 2, CardId(0), Seat::B);
    st.board[2].impressions.push(Seat::A);
    st.board[3].impressions.push(Seat::B);
    st.board[4].impressions.push(Seat::B);
    assert_eq!(score(&st, &canon, &cat), (2, 3));
    let mut evs = Vec::new();
    finish(&mut st, &mut evs, &canon, &cat);
    assert_eq!(st.phase, Phase::Finished { result: MatchResult::Win(Seat::B), score_a: 2, score_b: 3 });
    assert_eq!(evs.len(), 1);
    assert!(matches!(evs[0], Event::MatchEnded { result: MatchResult::Win(Seat::B), score_a: 2, score_b: 3 }));
}

#[test]
fn nightfall_dissolves_the_fading_before_scoring() {
    let (canon, cat) = world(vec![(30, "Unwritten Hush", CardKind::Unwritten, vec![])]);
    let mut st = board();
    put_spirit(&mut st, 6, CardId(0), Seat::A);
    {
        let sp = st.board[6].spirit.as_mut().unwrap();
        sp.fading = true;
        sp.banished_by = Some(Seat::B);
        sp.fade_deadline = Some(13);
    }
    put_spirit(&mut st, 7, CardId(30), Seat::B);
    st.board[7].spirit.as_mut().unwrap().fading = true;
    put_spirit(&mut st, 8, CardId(0), Seat::A);
    let mut evs = Vec::new();
    finish(&mut st, &mut evs, &canon, &cat);
    assert!(st.board[6].spirit.is_none());
    assert_eq!(st.board[6].impressions, vec![Seat::B]);
    assert!(st.board[7].spirit.is_none());
    assert!(st.board[7].impressions.is_empty());
    assert_eq!(st.dissolved, vec![(Seat::A, CardId(0))]);
    assert_eq!(evs.len(), 3);
    assert!(matches!(evs[0], Event::SpiritDissolved { tile: 6, impression: Seat::B }));
    assert!(matches!(evs[1], Event::TokenDissolved { tile: 7 }));
    assert_eq!(st.phase, Phase::Finished { result: MatchResult::Draw, score_a: 1, score_b: 1 });
}

#[test]
fn a_fading_spirit_without_a_banisher_marks_for_its_owner_and_held_ground_fades() {
    let (canon, cat) = world(vec![]);
    let mut st = board();
    st.contracted = true;
    put_spirit(&mut st, 0, CardId(0), Seat::B);
    st.board[0].spirit.as_mut().unwrap().fading = true;
    let mut evs = Vec::new();
    finish(&mut st, &mut evs, &canon, &cat);
    assert_eq!(evs.len(), 3);
    assert!(matches!(evs[0], Event::SpiritDissolved { tile: 0, impression: Seat::B }));
    assert!(matches!(evs[1], Event::TileFaded { tile: 0 }));
    assert!(st.board[0].faded);
    assert_eq!(st.phase, Phase::Finished { result: MatchResult::Win(Seat::B), score_a: 0, score_b: 1 });
}

#[test]
fn dormant_and_cooled_impressions_do_not_score_but_erasures_do() {
    let cool = aura(Selector::SelfSpirit, Effect::Exception(RuleException::AdjacentImpressionsDontScore));
    let (canon, cat) = world(vec![(21, "Patience", CardKind::Spirit, vec![cool])]);
    let mut st = board();
    put_spirit(&mut st, 12, CardId(21), Seat::B);
    st.board[7].impressions.push(Seat::A);
    st.board[0].impressions.push(Seat::A);
    assert_eq!(score(&st, &canon, &cat), (1, 1));
    st.solace_erasures = 4;
    assert_eq!(score(&st, &canon, &cat), (1, 5));
    st.impressions_dormant_round = Some(st.round);
    assert_eq!(score(&st, &canon, &cat), (0, 5));
    st.solace_erasures = 255;
    assert_eq!(score(&st, &canon, &cat), (0, 255));
}

#[test]
fn broken_bonds_break_once() {
    let (canon, cat) = world(vec![]);
    let mut st = board();
    put_spirit(&mut st, 0, CardId(0), Seat::A);
    put_spirit(&mut st, 1, CardId(0), Seat::A);
    put_spirit(&mut st, 5, CardId(0), Seat::B);
    put_spirit(&mut st, 11, CardId(0), Seat::A);
    st.bonds.push(Bond { card: CardId(2), owner: Seat::A, tile_a: 0, tile_b: 1 });
    st.bonds.push(Bond { card: CardId(3), owner: Seat::A, tile_a: 0, tile_b: 5 });
    st.bonds.push(Bond { card: CardId(4), owner: Seat::A, tile_a: 1, tile_b: 11 });
    let mut evs = Vec::new();
    prune_broken_bonds(&mut st, &mut evs, &canon, &cat);
    assert_eq!(evs.len(), 2);
    assert!(matches!(evs[0], Event::BondBroken { card: CardId(3) }));
    assert!(matches!(evs[1], Event::BondBroken { card: CardId(4) }));
    assert_eq!(st.bonds.len(), 1);
    assert_eq!(st.bonds[0].card, CardId(2));
    prune_broken_bonds(&mut st, &mut evs, &canon, &cat);
    assert_eq!(evs.len(), 2);
}

#[test]
fn an_unbreakable_bond_holds_one_tile_apart() {
    let hold = aura(Selector::BondedPair, Effect::Exception(RuleException::BondHoldsUnlessSeparated));
    let (canon, cat) = world(vec![(22, "Unbreakable", CardKind::Bond, vec![hold])]);
    let mut st = board();
    put_spirit(&mut st, 0, CardId(0), Seat::A);
    put_spirit(&mut st, 2, CardId(0), Seat::A);
    st.bonds.push(Bond { card: CardId(22), owner: Seat::A, tile_a: 0, tile_b: 2 });
    let mut evs = Vec::new();
    prune_broken_bonds(&mut st, &mut evs, &canon, &cat);
    assert!(evs.is_empty());
    st.board[2].spirit.as_mut().unwrap().fading = true;
    prune_broken_bonds(&mut st, &mut evs, &canon, &cat);
    assert_eq!(evs.len(), 1);
    assert!(st.bonds.is_empty());
}

#[test]
fn held_ground_fades_only_contracted_empty_rim() {
    let mut st = board();
    let mut evs = Vec::new();
    fade_if_held(&mut st, &mut evs, 0);
    assert!(evs.is_empty());
    st.contracted = true;
    fade_if_held(&mut st, &mut evs, 12);
    assert!(evs.is_empty());
    put_spirit(&mut st, 4, CardId(0), Seat::A);
    fade_if_held(&mut st, &mut evs, 4);
    assert!(evs.is_empty());
    fade_if_held(&mut st, &mut evs, 0);
    assert_eq!(evs.len(), 1);
    assert!(st.board[0].faded);
    fade_if_held(&mut st, &mut evs, 0);
    assert_eq!(evs.len(), 1);
}

#[test]
fn kindle_buffs_the_next_arrival_once() {
    let mut st = board();
    put_spirit(&mut st, 9, CardId(0), Seat::A);
    let mut evs = Vec::new();
    apply_next_arrival(&mut st, &mut evs, Seat::A, 9);
    assert!(evs.is_empty());
    st.next_arrival_atk = [10, 0];
    apply_next_arrival(&mut st, &mut evs, Seat::A, 9);
    assert_eq!(evs.len(), 2);
    assert_eq!(st.temp_mods.len(), 1);
    assert_eq!((st.temp_mods[0].tile, st.temp_mods[0].attack, st.temp_mods[0].until_round), (9, 10, st.round));
    assert_eq!(st.next_arrival_atk, [0, 0]);
}
