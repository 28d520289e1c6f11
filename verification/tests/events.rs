use recollect_core::cards::test_catalog;
use recollect_core::combat::keyword_active_for_test;
use recollect_core::effects::{Canon, EffectsFile, Keyword, Restriction};
use recollect_core::events::Event;
use recollect_core::evolve::apply_event;
use recollect_core::projection::restricted;
use recollect_core::events::{AnimaReason, StrikeKind};
use recollect_core::state::{Bond, GameState, MatchResult, MatchRules, Phase, PlayerState, Temperament, Terrain, TerrainKind, TileState};
use recollect_core::test_support::put_spirit;
use recollect_core::types::{CardId, Faction, Seat, SeatSlot};

fn player() -> PlayerState {
    PlayerState { hand: Vec::new(), deck: Vec::new(), anima: 0, glimpsed_this_turn: false, peeked_top: None, first_placement_done: false }
}

fn board() -> GameState {
    GameState {
        rules: MatchRules { last_round: 12, contraction_after: 8, factions: [Faction::Lorekeeper, Faction::Lorekeeper] },
        contracted: false,
        round: 3,
        active: Seat::A,
        phase: Phase::Acting,
        board: (0..25).map(|_| TileState { spirit: None, terrain: None, impressions: Vec::new(), faded: false }).collect(),
        board_w: 5,
        player_a: player(),
        player_b: player(),
        player_a2: None,
        player_b2: None,
        active_slot: SeatSlot::A1,
        moved_this_turn: Vec::new(),
        temp_mods: Vec::new(),
        temp_reach: Vec::new(),
        temp_restrict: Vec::new(),
        temp_retaliation: Vec::new(),
        card_tax: [(0, 0), (0, 0)],
        ignore_imprint_this_turn: [false, false],
        silenced_terrain: None,
        bonds: Vec::new(),
        stray: None,
        mulliganed: [false, false],
        solace_erasures: 0,
        dissolved: Vec::new(),
        next_ritual_discount: [0, 0],
        dissolved_this_turn: [0, 0],
        fade_delayed: Vec::new(),
        pending_flow_anima: [0, 0],
        next_arrival_atk: [0, 0],
        next_arrival_2nd_engage: [None, None],
        peeked_fabs: [Vec::new(), Vec::new()],
        ritual_extra_targets: 0,
        impressions_dormant_round: None,
        calm_tiles: Vec::new(),
        last_played_spirit: [None, None],
        stray_telegraph: None,
        stray_match: false,
        unwriting_told_this_round: false,
        pending_choice: None,
    }
}

fn card_on(st: &GameState, tile: usize) -> Option<u16> {
    st.board[tile].spirit.as_ref().map(|sp| sp.card.0)
}

#[test]
fn a_push_carries_the_spirit_and_leaves_the_terrain() {
    let mut st = board();
    put_spirit(&mut st, 6, CardId(1), Seat::A);
    st.board[7].terrain = Some(Terrain { card: CardId(2), owner: Seat::B, kind: TerrainKind::Landmark, face_down: false });
    st.board[6].impressions.push(Seat::A);
    apply_event(&mut st, &Event::SpiritPushed { from: 6, to: 11 });
    assert_eq!(card_on(&st, 6), None);
    assert_eq!(card_on(&st, 11), Some(1));
    assert_eq!(st.board[6].impressions, vec![Seat::A]);
    assert!(st.board[11].impressions.is_empty());
    assert!(st.board[7].terrain.is_some());
    assert!(st.moved_this_turn.is_empty());
}

#[test]
fn a_move_is_recorded_for_the_turn() {
    let mut st = board();
    put_spirit(&mut st, 0, CardId(0), Seat::A);
    apply_event(&mut st, &Event::SpiritMoved { from: 0, to: 1 });
    assert_eq!(card_on(&st, 1), Some(0));
    assert_eq!(st.moved_this_turn, vec![1]);
}

#[test]
fn swapping_twice_restores_the_board() {
    let mut st = board();
    put_spirit(&mut st, 2, CardId(0), Seat::A);
    put_spirit(&mut st, 9, CardId(3), Seat::B);
    st.board[9].faded = true;
    apply_event(&mut st, &Event::SpiritsSwapped { a: 2, b: 9 });
    assert_eq!(card_on(&st, 2), Some(3));
    assert_eq!(card_on(&st, 9), Some(0));
    assert!(st.board[9].faded);
    apply_event(&mut st, &Event::SpiritsSwapped { a: 2, b: 9 });
    assert_eq!(card_on(&st, 2), Some(0));
    assert_eq!(card_on(&st, 9), Some(3));
}

#[test]
fn a_heal_stops_at_the_maximum() {
    let mut st = board();
    put_spirit(&mut st, 4, CardId(0), Seat::A);
    st.board[4].spirit.as_mut().unwrap().hp = 30;
    apply_event(&mut st, &Event::EffectRestored { tile: 4, amount: 5 });
    assert_eq!(st.board[4].spirit.as_ref().unwrap().hp, 35);
    apply_event(&mut st, &Event::EffectRestored { tile: 4, amount: 50 });
    let sp = st.board[4].spirit.as_ref().unwrap();
    assert_eq!(sp.hp, sp.hp_max);
    assert_eq!(sp.hp, 40);
}

#[test]
fn damage_and_lasting_stats_change_the_numbers() {
    let mut st = board();
    put_spirit(&mut st, 4, CardId(0), Seat::A);
    apply_event(&mut st, &Event::EffectDamaged { tile: 4, amount: 15 });
    assert_eq!(st.board[4].spirit.as_ref().unwrap().hp, 25);
    apply_event(&mut st, &Event::EffectStat { tile: 4, attack: 2, defense: -1, form: 5 });
    let sp = st.board[4].spirit.as_ref().unwrap();
    assert_eq!((sp.attack, sp.defense, sp.hp, sp.hp_max), (12, -1, 30, 45));
    apply_event(&mut st, &Event::ThroughlineCompleted { tile: 4, attack: 10, defense: 10 });
    let sp = st.board[4].spirit.as_ref().unwrap();
    assert_eq!((sp.attack, sp.defense, sp.hp, sp.throughline_done), (22, 9, 45, true));
}

#[test]
fn an_edit_on_an_empty_tile_does_nothing() {
    let mut st = board();
    apply_event(&mut st, &Event::EffectDamaged { tile: 4, amount: 15 });
    assert!(st.board[4].spirit.is_none());
}

#[test]
fn a_redirect_hurts_the_partner_and_spends_the_latch() {
    let mut st = board();
    put_spirit(&mut st, 5, CardId(0), Seat::A);
    put_spirit(&mut st, 6, CardId(1), Seat::A);
    apply_event(&mut st, &Event::DamageRedirected { from_tile: 5, to_tile: 6, amount: 12, consume: true });
    assert_eq!(st.board[6].spirit.as_ref().unwrap().hp, 28);
    assert!(st.board[5].spirit.as_ref().unwrap().replacement_used);
    assert!(!st.board[6].spirit.as_ref().unwrap().replacement_used);
    apply_event(&mut st, &Event::DamageRedirected { from_tile: 6, to_tile: 5, amount: 1, consume: false });
    assert_eq!(st.board[5].spirit.as_ref().unwrap().hp, 39);
    assert!(!st.board[6].spirit.as_ref().unwrap().replacement_used);
}

#[test]
fn a_granted_keyword_reads_back_until_its_round() {
    let cat = test_catalog();
    let canon = Canon { catalog: cat.clone(), effects: EffectsFile { specs: Vec::new(), pending: Vec::new(), behavior: Vec::new() } };
    let mut st = board();
    put_spirit(&mut st, 12, CardId(0), Seat::A);
    assert!(!keyword_active_for_test(&st, &canon, &cat, 12, Keyword::Lurk));
    apply_event(&mut st, &Event::KeywordGranted { tile: 12, keyword: Keyword::Lurk, until_round: 3 });
    assert!(keyword_active_for_test(&st, &canon, &cat, 12, Keyword::Lurk));
    st.round = 4;
    assert!(!keyword_active_for_test(&st, &canon, &cat, 12, Keyword::Lurk));
}

#[test]
fn a_restriction_reads_back_for_its_seat_only() {
    let mut st = board();
    apply_event(&mut st, &Event::Restricted { seat: Seat::B, restriction: Restriction::Move, until_round: 3 });
    assert!(restricted(&st, Seat::B, Restriction::Move));
    assert!(!restricted(&st, Seat::A, Restriction::Move));
    assert!(!restricted(&st, Seat::B, Restriction::Engage));
    st.round = 4;
    assert!(!restricted(&st, Seat::B, Restriction::Move));
}

#[test]
fn breaking_a_bond_keeps_the_others_in_order() {
    let mut st = board();
    st.bonds.push(Bond { card: CardId(1), owner: Seat::A, tile_a: 0, tile_b: 1 });
    st.bonds.push(Bond { card: CardId(2), owner: Seat::A, tile_a: 2, tile_b: 3 });
    st.bonds.push(Bond { card: CardId(1), owner: Seat::B, tile_a: 4, tile_b: 5 });
    st.bonds.push(Bond { card: CardId(3), owner: Seat::B, tile_a: 6, tile_b: 7 });
    apply_event(&mut st, &Event::BondBroken { card: CardId(1) });
    let cards: Vec<u16> = st.bonds.iter().map(|b| b.card.0).collect();
    assert_eq!(cards, vec![2, 3]);
}

#[test]
fn tile_events_touch_the_tile() {
    let mut st = board();
    st.board[3].terrain = Some(Terrain { card: CardId(2), owner: Seat::B, kind: TerrainKind::Fabrication, face_down: true });
    st.board[3].impressions.push(Seat::A);
    apply_event(&mut st, &Event::FabricationRevealed { tile: 3 });
    assert!(!st.board[3].terrain.unwrap().face_down);
    apply_event(&mut st, &Event::ImpressionUnwritten { tile: 3 });
    assert!(st.board[3].impressions.is_empty());
    apply_event(&mut st, &Event::FabricationSpent { tile: 3 });
    assert!(st.board[3].terrain.is_none());
    apply_event(&mut st, &Event::TileFaded { tile: 3 });
    assert!(st.board[3].faded);
}

#[test]
fn seat_events_set_one_seat() {
    let mut st = board();
    apply_event(&mut st, &Event::CardTaxed { seat: Seat::B, amount: 2, until_round: 5 });
    assert_eq!(st.card_tax, [(0, 0), (2, 5)]);
    apply_event(&mut st, &Event::EvolveImprintFreed { seat: Seat::A });
    assert_eq!(st.ignore_imprint_this_turn, [true, false]);
    apply_event(&mut st, &Event::CardTaxSpent { seat: Seat::B });
    assert_eq!(st.card_tax, [(0, 0), (0, 0)]);
    apply_event(&mut st, &Event::LandmarkSilenced { tile: 7, round: 3 });
    assert_eq!(st.silenced_terrain, Some((7, 3)));
    apply_event(&mut st, &Event::EffectTempStat { tile: 7, attack: 3, defense: 0, until_round: 3 });
    assert_eq!(st.temp_mods.len(), 1);
    assert_eq!(st.temp_mods[0].attack, 3);
}

#[test]
fn leaving_events_empty_the_tile() {
    let mut st = board();
    put_spirit(&mut st, 8, CardId(0), Seat::B);
    st.board[8].impressions.push(Seat::B);
    apply_event(&mut st, &Event::SpiritReleased { tile: 8 });
    assert!(st.board[8].spirit.is_none());
    assert_eq!(st.board[8].impressions, vec![Seat::B]);
    put_spirit(&mut st, 8, CardId(0), Seat::B);
    apply_event(&mut st, &Event::ControlTaken { tile: 8, new_owner: Seat::A });
    assert_eq!(st.board[8].spirit.as_ref().unwrap().owner, Seat::A);
}

fn cards(ids: &[u16]) -> Vec<CardId> {
    ids.iter().map(|&i| CardId(i)).collect()
}

#[test]
fn anima_saturates_both_ways() {
    let mut st = board();
    st.player_a.anima = 250;
    apply_event(&mut st, &Event::AnimaGained { seat: Seat::A, amount: 10, reason: AnimaReason::Income });
    assert_eq!(st.player_a.anima, 255);
    apply_event(&mut st, &Event::AnimaSpent { seat: Seat::B, amount: 3 });
    assert_eq!(st.player_b.anima, 0);
    apply_event(&mut st, &Event::AnimaSpent { seat: Seat::A, amount: 5 });
    assert_eq!(st.player_a.anima, 250);
}

#[test]
fn drawing_takes_the_top_and_forgets_the_peek() {
    let mut st = board();
    st.player_a.deck = cards(&[4, 5, 6]);
    st.player_a.peeked_top = Some(CardId(4));
    apply_event(&mut st, &Event::CardDrawn { seat: Seat::A });
    assert_eq!(st.player_a.hand, cards(&[4]));
    assert_eq!(st.player_a.deck, cards(&[5, 6]));
    assert_eq!(st.player_a.peeked_top, None);
    st.player_b.peeked_top = Some(CardId(1));
    apply_event(&mut st, &Event::CardDrawn { seat: Seat::B });
    assert!(st.player_b.hand.is_empty());
    assert_eq!(st.player_b.peeked_top, None);
}

#[test]
fn a_release_bottoms_the_card_and_settles_the_window() {
    let mut st = board();
    st.player_b.hand = cards(&[1, 2, 3]);
    st.player_b.deck = cards(&[9]);
    apply_event(&mut st, &Event::ReleaseRequired { seat: Seat::B });
    assert_eq!(st.phase, Phase::PendingRelease { seat: Seat::B });
    apply_event(&mut st, &Event::CardReleased { seat: Seat::B, hand_index: 1 });
    assert_eq!(st.player_b.hand, cards(&[1, 3]));
    assert_eq!(st.player_b.deck, cards(&[9, 2]));
    assert_eq!(st.phase, Phase::Acting);
    apply_event(&mut st, &Event::CardReleased { seat: Seat::B, hand_index: 7 });
    assert_eq!(st.player_b.hand, cards(&[1, 3]));
}

#[test]
fn playing_a_spirit_spends_the_first_copy_and_marks_the_arrival() {
    let mut st = board();
    st.player_a.hand = cards(&[2, 7, 2]);
    apply_event(&mut st, &Event::SpiritPlayed { seat: Seat::A, card: CardId(2), tile: 20, attack: 10, defense: 20, hp: 30, face_down: false });
    assert_eq!(st.player_a.hand, cards(&[7, 2]));
    assert!(st.player_a.first_placement_done);
    assert_eq!(st.last_played_spirit, [Some(CardId(2)), None]);
    assert_eq!(st.moved_this_turn, vec![20]);
    let sp = st.board[20].spirit.as_ref().unwrap();
    assert_eq!((sp.card, sp.owner, sp.attack, sp.defense, sp.hp, sp.hp_max), (CardId(2), Seat::A, 10, 20, 30, 30));
    assert!(!sp.face_down && !sp.is_token && !sp.fading);
    st.player_b.hand = cards(&[3]);
    apply_event(&mut st, &Event::SpiritPlayed { seat: Seat::B, card: CardId(3), tile: 0, attack: 40, defense: 20, hp: 40, face_down: true });
    assert!(st.player_b.hand.is_empty());
    assert!(!st.player_b.first_placement_done);
    assert_eq!(st.last_played_spirit, [Some(CardId(2)), None]);
    assert!(st.board[0].spirit.as_ref().unwrap().face_down);
}

#[test]
fn a_won_overwrite_marks_the_tile_and_a_spent_overwriter_stands_faded() {
    let mut st = board();
    put_spirit(&mut st, 12, CardId(0), Seat::B);
    st.player_a.hand = cards(&[9]);
    apply_event(&mut st, &Event::Overwrote {
        seat: Seat::A, card: CardId(9), tile: 12, success: true, damage_to_defender: 40, defender_echo: false,
        attack: 40, defense: 10, attacker_hp_left: 0, attacker_hp_max: 40,
    });
    assert!(st.player_a.hand.is_empty());
    assert_eq!(st.board[12].impressions, vec![Seat::A]);
    let sp = st.board[12].spirit.as_ref().unwrap();
    assert_eq!((sp.card, sp.owner, sp.hp, sp.hp_max), (CardId(9), Seat::A, 0, 40));
    assert!(sp.fading);
    assert_eq!(sp.banished_by, Some(Seat::B));
    assert_eq!(sp.fade_deadline, Some(4));
    assert_eq!(st.moved_this_turn, vec![12]);
}

#[test]
fn a_lost_overwrite_leaves_the_wound() {
    let mut st = board();
    put_spirit(&mut st, 12, CardId(0), Seat::B);
    st.player_a.hand = cards(&[9]);
    apply_event(&mut st, &Event::Overwrote {
        seat: Seat::A, card: CardId(9), tile: 12, success: false, damage_to_defender: 15, defender_echo: false,
        attack: 40, defense: 10, attacker_hp_left: 0, attacker_hp_max: 40,
    });
    assert!(st.player_a.hand.is_empty());
    assert!(st.player_a.first_placement_done);
    let sp = st.board[12].spirit.as_ref().unwrap();
    assert_eq!((sp.card, sp.hp), (CardId(0), 25));
    assert!(st.board[12].impressions.is_empty());
    assert!(st.moved_this_turn.is_empty());
}

#[test]
fn the_solace_tallies_instead_of_marking() {
    let mut st = board();
    st.rules.factions = [Faction::Lorekeeper, Faction::Solace];
    put_spirit(&mut st, 3, CardId(4), Seat::A);
    st.board[3].impressions.push(Seat::A);
    apply_event(&mut st, &Event::SpiritDissolved { tile: 3, impression: Seat::B });
    assert!(st.board[3].spirit.is_none());
    assert!(st.board[3].impressions.is_empty());
    assert_eq!(st.solace_erasures, 1);
    assert_eq!(st.dissolved, vec![(Seat::A, CardId(4))]);
    assert_eq!(st.dissolved_this_turn, [1, 0]);
    put_spirit(&mut st, 3, CardId(5), Seat::B);
    apply_event(&mut st, &Event::SpiritDissolved { tile: 3, impression: Seat::A });
    assert_eq!(st.board[3].impressions, vec![Seat::A]);
    assert_eq!(st.solace_erasures, 1);
    assert_eq!(st.dissolved_this_turn, [1, 1]);
}

#[test]
fn a_token_dissolves_without_joining_the_pool() {
    let mut st = board();
    apply_event(&mut st, &Event::SpiritManifested { seat: Seat::A, card: CardId(6), tile: 9, attack: 5, defense: 0, hp: 10 });
    assert!(st.board[9].spirit.as_ref().unwrap().is_token);
    apply_event(&mut st, &Event::SpiritDissolved { tile: 9, impression: Seat::B });
    assert!(st.dissolved.is_empty());
    assert_eq!(st.dissolved_this_turn, [1, 0]);
    assert_eq!(st.board[9].impressions, vec![Seat::B]);
}

#[test]
fn a_bounced_card_returns_to_its_owners_hand() {
    let mut st = board();
    put_spirit(&mut st, 7, CardId(3), Seat::B);
    apply_event(&mut st, &Event::SpiritBounced { tile: 7 });
    assert!(st.board[7].spirit.is_none());
    assert_eq!(st.player_b.hand, cards(&[3]));
    apply_event(&mut st, &Event::UnwrittenManifested { card: CardId(8), tile: 7, attack: 5, defense: 5, hp: 10 });
    assert_eq!(st.board[7].spirit.as_ref().unwrap().owner, Seat::B);
    apply_event(&mut st, &Event::SpiritBounced { tile: 7 });
    assert_eq!(st.player_b.hand, cards(&[3]));
}

#[test]
fn a_combat_fade_stamps_its_deadline() {
    let mut st = board();
    st.active = Seat::B;
    put_spirit(&mut st, 1, CardId(0), Seat::B);
    put_spirit(&mut st, 2, CardId(0), Seat::A);
    st.board[1].spirit.as_mut().unwrap().throughline_done = true;
    apply_event(&mut st, &Event::SpiritBecameFading { tile: 1, banished_by: Some(Seat::A) });
    let sp = st.board[1].spirit.as_ref().unwrap();
    assert!(sp.fading && !sp.throughline_done);
    assert_eq!(sp.fade_deadline, Some(4));
    apply_event(&mut st, &Event::SpiritBecameFading { tile: 2, banished_by: None });
    let sp = st.board[2].spirit.as_ref().unwrap();
    assert!(sp.fading);
    assert_eq!(sp.fade_deadline, None);
}

#[test]
fn evolving_keeps_or_resets_the_throughline_by_tier() {
    let mut st = board();
    put_spirit(&mut st, 6, CardId(0), Seat::A);
    st.board[6].spirit.as_mut().unwrap().throughline_done = true;
    st.player_a.hand = cards(&[13, 0]);
    apply_event(&mut st, &Event::SpiritEvolved {
        seat: Seat::A, tile: 6, from: CardId(0), to: CardId(13), attack: 30, defense: 40, hp: 70, keeps_throughline: true,
    });
    let sp = st.board[6].spirit.as_ref().unwrap();
    assert_eq!((sp.card, sp.hp, sp.hp_max, sp.throughline_done), (CardId(13), 70, 70, true));
    assert_eq!(st.player_a.hand, cards(&[0]));
    assert!(st.moved_this_turn.is_empty());
    apply_event(&mut st, &Event::SpiritDevolved { seat: Seat::A, tile: 6, from: CardId(13), to: CardId(0), attack: 10, defense: 20, hp: 30 });
    let sp = st.board[6].spirit.as_ref().unwrap();
    assert_eq!((sp.card, sp.hp, sp.throughline_done), (CardId(0), 30, false));
    assert!(st.player_a.hand.is_empty());
    assert_eq!(st.moved_this_turn, vec![6]);
}

#[test]
fn the_stray_comes_and_goes() {
    let mut st = board();
    apply_event(&mut st, &Event::StrayTelegraphed { tile: 12, surface_round: 4, midnight: false });
    assert!(st.stray_telegraph.is_some());
    apply_event(&mut st, &Event::StraySurfaced { card: CardId(2), tile: 12, temperament: Temperament::Wary, veiled: true, hp: 30 });
    assert!(st.stray_telegraph.is_none());
    let s = st.stray.unwrap();
    assert_eq!((s.hp, s.hp_max, s.courtship, s.veiled), (30, 30, 0, true));
    apply_event(&mut st, &Event::StrayUnveiled);
    apply_event(&mut st, &Event::StrayCourted { seat: Seat::B, courtship: 1 });
    apply_event(&mut st, &Event::StrayStruck { tile: 12, damage: 12, hp: 18 });
    let s = st.stray.unwrap();
    assert_eq!((s.hp, s.courtship, s.courted_by, s.veiled), (18, 1, Some(Seat::B), false));
    apply_event(&mut st, &Event::StrayBefriended { seat: Seat::B, card: CardId(2), tile: 12, attack: 10, defense: 20, hp: 30 });
    assert!(st.stray.is_none());
    assert_eq!(st.board[12].spirit.as_ref().unwrap().owner, Seat::B);
}

#[test]
fn a_lost_stray_overwrite_wounds_the_stray() {
    let mut st = board();
    apply_event(&mut st, &Event::StraySurfaced { card: CardId(2), tile: 12, temperament: Temperament::Feral, veiled: false, hp: 30 });
    st.player_b.hand = cards(&[9]);
    apply_event(&mut st, &Event::OverwroteStray {
        seat: Seat::B, card: CardId(9), tile: 12, success: false, damage_to_stray: 11, attack: 40, defense: 10,
        attacker_hp_left: 0, attacker_hp_max: 40,
    });
    assert!(st.player_b.hand.is_empty());
    assert_eq!(st.stray.unwrap().hp, 19);
    assert!(st.board[12].spirit.is_none());
    apply_event(&mut st, &Event::OverwroteStray {
        seat: Seat::B, card: CardId(9), tile: 12, success: true, damage_to_stray: 19, attack: 40, defense: 10,
        attacker_hp_left: 25, attacker_hp_max: 40,
    });
    assert!(st.stray.is_none());
    assert_eq!(st.board[12].impressions, vec![Seat::B]);
    let sp = st.board[12].spirit.as_ref().unwrap();
    assert_eq!((sp.hp, sp.fading), (25, false));
}

#[test]
fn an_eater_shifts_onto_the_memory() {
    let mut st = board();
    apply_event(&mut st, &Event::UnwrittenManifested { card: CardId(8), tile: 0, attack: 5, defense: 5, hp: 10 });
    st.board[1].impressions.push(Seat::A);
    apply_event(&mut st, &Event::UnwrittenShifted { from: 0, to: 1, eats_impression: true });
    assert!(st.board[0].spirit.is_none());
    assert!(st.board[1].spirit.is_some());
    assert!(st.board[1].impressions.is_empty());
    assert_eq!(st.solace_erasures, 1);
    apply_event(&mut st, &Event::ImpressionForgotten { tile: 1 });
    assert_eq!(st.solace_erasures, 2);
}

#[test]
fn the_round_turn_lapses_what_ran_out() {
    let mut st = board();
    put_spirit(&mut st, 5, CardId(0), Seat::A);
    {
        let sp = st.board[5].spirit.as_mut().unwrap();
        sp.intercepted_this_round = true;
        sp.kw_grants = vec![(Keyword::Lurk, 3), (Keyword::Warded, 255)];
        sp.traits_stripped_until = Some(3);
    }
    apply_event(&mut st, &Event::EffectTempStat { tile: 5, attack: 3, defense: 0, until_round: 3 });
    apply_event(&mut st, &Event::EffectTempStat { tile: 5, attack: 1, defense: 0, until_round: 4 });
    apply_event(&mut st, &Event::CardTaxed { seat: Seat::A, amount: 2, until_round: 3 });
    apply_event(&mut st, &Event::CardTaxed { seat: Seat::B, amount: 1, until_round: 5 });
    apply_event(&mut st, &Event::Restricted { seat: Seat::B, restriction: Restriction::Move, until_round: 3 });
    apply_event(&mut st, &Event::RetaliationBuffed { tile: 5, delta: 2, until_round: 4 });
    st.unwriting_told_this_round = true;
    apply_event(&mut st, &Event::RoundAdvanced { round: 4 });
    assert_eq!(st.round, 4);
    assert_eq!(st.temp_mods.len(), 1);
    assert_eq!(st.temp_mods[0].attack, 1);
    assert!(st.temp_restrict.is_empty());
    assert_eq!(st.temp_retaliation, vec![(5, 2, 4)]);
    assert_eq!(st.card_tax, [(0, 0), (1, 5)]);
    assert!(!st.unwriting_told_this_round);
    let sp = st.board[5].spirit.as_ref().unwrap();
    assert!(!sp.intercepted_this_round);
    assert_eq!(sp.kw_grants, vec![(Keyword::Warded, 255)]);
    assert_eq!(sp.traits_stripped_until, None);
}

#[test]
fn ending_a_turn_hands_over_to_the_other_seat() {
    let mut st = board();
    st.player_a.glimpsed_this_turn = true;
    st.moved_this_turn = vec![3, 4];
    st.next_arrival_atk = [5, 2];
    st.dissolved_this_turn = [1, 2];
    apply_event(&mut st, &Event::EvolveImprintFreed { seat: Seat::A });
    apply_event(&mut st, &Event::TurnEnded { seat: Seat::A });
    assert_eq!(st.active, Seat::B);
    assert_eq!(st.active_slot, SeatSlot::B1);
    assert!(!st.player_a.glimpsed_this_turn);
    assert!(st.moved_this_turn.is_empty());
    assert_eq!(st.ignore_imprint_this_turn, [false, false]);
    assert_eq!(st.next_arrival_atk, [0, 2]);
    assert_eq!(st.dissolved_this_turn, [1, 0]);
    assert_eq!(st.phase, Phase::Acting);
}

#[test]
fn in_2v2_the_turn_cycles_through_the_slots_and_resources_follow_the_slot() {
    let mut st = board();
    st.player_a2 = Some(player());
    st.player_b2 = Some(player());
    st.active_slot = SeatSlot::A2;
    apply_event(&mut st, &Event::AnimaGained { seat: Seat::A, amount: 3, reason: AnimaReason::Income });
    assert_eq!(st.player_a2.as_ref().unwrap().anima, 3);
    assert_eq!(st.player_a.anima, 0);
    apply_event(&mut st, &Event::AnimaGained { seat: Seat::B, amount: 2, reason: AnimaReason::Effect });
    assert_eq!(st.player_b.anima, 2);
    apply_event(&mut st, &Event::TurnEnded { seat: Seat::A });
    assert_eq!(st.active_slot, SeatSlot::B2);
    assert_eq!(st.active, Seat::B);
}

#[test]
fn the_dusk_darkens_the_listed_tiles() {
    let mut st = board();
    put_spirit(&mut st, 0, CardId(0), Seat::B);
    st.board[4].terrain = Some(Terrain { card: CardId(1), owner: Seat::A, kind: TerrainKind::Landmark, face_down: false });
    st.board[4].impressions.push(Seat::A);
    put_spirit(&mut st, 6, CardId(0), Seat::A);
    apply_event(&mut st, &Event::MemoryContracted { faded_tiles: vec![0, 4, 4] });
    assert!(st.contracted);
    assert!(st.board[0].faded && st.board[0].spirit.is_none());
    assert!(st.board[4].faded && st.board[4].terrain.is_none());
    assert_eq!(st.board[4].impressions, vec![Seat::A]);
    assert!(!st.board[6].faded && st.board[6].spirit.is_some());
}

#[test]
fn dated_and_known_lists_hold_no_duplicates() {
    let mut st = board();
    apply_event(&mut st, &Event::FadeDelayed { tile: 3 });
    apply_event(&mut st, &Event::FadeDelayed { tile: 9 });
    apply_event(&mut st, &Event::FadeDelayed { tile: 3 });
    assert_eq!(st.fade_delayed, vec![3, 9]);
    apply_event(&mut st, &Event::FadeDelayConsumed { tile: 3 });
    assert_eq!(st.fade_delayed, vec![9]);
    apply_event(&mut st, &Event::FabricationPeeked { seat: Seat::B, tile: 4, card: CardId(7) });
    apply_event(&mut st, &Event::FabricationPeeked { seat: Seat::B, tile: 4, card: CardId(7) });
    assert_eq!(st.peeked_fabs[1], vec![(4, CardId(7))]);
    assert!(st.peeked_fabs[0].is_empty());
    apply_event(&mut st, &Event::TilesGoneCalm { tiles: vec![6, 7], round: 4 });
    assert_eq!(st.calm_tiles, vec![(6, 4), (7, 4)]);
}

#[test]
fn flow_and_offers_are_paid_and_consumed() {
    let mut st = board();
    apply_event(&mut st, &Event::FlowAnimaScheduled { seat: Seat::B, amount: 2 });
    apply_event(&mut st, &Event::FlowAnimaScheduled { seat: Seat::B, amount: 1 });
    apply_event(&mut st, &Event::FlowAnimaPaid { seat: Seat::B });
    assert_eq!(st.player_b.anima, 3);
    assert_eq!(st.pending_flow_anima, [0, 0]);
    apply_event(&mut st, &Event::NextArrivalBuffed { seat: Seat::A, attack: 10 });
    apply_event(&mut st, &Event::NextArrivalBuffed { seat: Seat::A, attack: 5 });
    assert_eq!(st.next_arrival_atk, [15, 0]);
    apply_event(&mut st, &Event::NextArrivalSecondEngage { seat: Seat::A, penalty: 10 });
    assert_eq!(st.next_arrival_2nd_engage, [Some(10), None]);
    apply_event(&mut st, &Event::NextArrivalSecondConsumed { seat: Seat::A });
    apply_event(&mut st, &Event::NextArrivalConsumed { seat: Seat::A });
    assert_eq!(st.next_arrival_atk, [0, 0]);
    apply_event(&mut st, &Event::RitualDiscountGranted { seat: Seat::B, amount: 1 });
    apply_event(&mut st, &Event::RitualDiscountGranted { seat: Seat::B, amount: 1 });
    assert_eq!(st.next_ritual_discount, [0, 2]);
    apply_event(&mut st, &Event::RitualDiscountConsumed { seat: Seat::B });
    assert_eq!(st.next_ritual_discount, [0, 0]);
    apply_event(&mut st, &Event::RitualExtraTargetsArmed { count: 1 });
    assert_eq!(st.ritual_extra_targets, 1);
}

#[test]
fn a_mulligan_takes_the_recomputed_page() {
    let mut st = board();
    st.player_b.peeked_top = Some(CardId(1));
    apply_event(&mut st, &Event::Mulliganed { seat: Seat::B, hand: cards(&[1, 2]), deck: cards(&[3]) });
    assert_eq!(st.player_b.hand, cards(&[1, 2]));
    assert_eq!(st.player_b.deck, cards(&[3]));
    assert_eq!(st.player_b.peeked_top, None);
    assert_eq!(st.mulliganed, [false, true]);
}

#[test]
fn the_match_ends_or_is_abandoned() {
    let mut st = board();
    apply_event(&mut st, &Event::MatchAbandoned { seat: Seat::A, score_a: 3, score_b: 4 });
    assert_eq!(st.phase, Phase::Finished { result: MatchResult::Win(Seat::B), score_a: 3, score_b: 4 });
    apply_event(&mut st, &Event::MatchEnded { result: MatchResult::Draw, score_a: 5, score_b: 5 });
    assert_eq!(st.phase, Phase::Finished { result: MatchResult::Draw, score_a: 5, score_b: 5 });
}

#[test]
fn an_interception_blow_spends_the_interceptor() {
    let mut st = board();
    put_spirit(&mut st, 1, CardId(0), Seat::A);
    put_spirit(&mut st, 2, CardId(0), Seat::B);
    apply_event(&mut st, &Event::Struck { from_tile: 1, to_tile: 2, damage: 10, echo: false, kind: StrikeKind::Interception });
    assert_eq!(st.board[2].spirit.as_ref().unwrap().hp, 30);
    assert!(st.board[1].spirit.as_ref().unwrap().intercepted_this_round);
    apply_event(&mut st, &Event::Struck { from_tile: 2, to_tile: 1, damage: 5, echo: false, kind: StrikeKind::Engage });
    assert!(!st.board[2].spirit.as_ref().unwrap().intercepted_this_round);
}

#[test]
fn the_same_events_on_the_same_state_give_the_same_state() {
    let mut st = board();
    put_spirit(&mut st, 12, CardId(0), Seat::A);
    put_spirit(&mut st, 13, CardId(0), Seat::B);
    st.player_a.hand = vec![CardId(3), CardId(4)];
    st.player_a.deck = vec![CardId(5)];
    let log = vec![
        Event::AnimaGained { seat: Seat::A, amount: 2, reason: AnimaReason::Income },
        Event::CardDrawn { seat: Seat::A },
        Event::KeywordGranted { tile: 12, keyword: Keyword::Mobile, until_round: 4 },
        Event::Struck { from_tile: 12, to_tile: 13, damage: 15, echo: false, kind: StrikeKind::Engage },
        Event::SpiritDissolved { tile: 13, impression: Seat::A },
        Event::TurnEnded { seat: Seat::A },
    ];
    let mut first = st.clone();
    let mut second = st.clone();
    for ev in &log {
        apply_event(&mut first, ev);
        apply_event(&mut second, ev);
    }
    assert_eq!(format!("{first:?}"), format!("{second:?}"));
    assert_eq!(first.player_a.hand, vec![CardId(3), CardId(4), CardId(5)]);
    assert!(first.board[13].spirit.is_none());
    assert_eq!(first.board[13].impressions, vec![Seat::A]);
}
