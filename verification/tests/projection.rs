use recollect_core::cards::test_catalog;
use recollect_core::projection::{eff_defense, projection, projection_slot, reach_tiles, widen_oriented, ARCANE_PIERCE};
use recollect_core::state::{GameState, MatchRules, Phase, PlayerState, TileState};
use recollect_core::test_support::put_spirit;
use recollect_core::types::{tile_xy_w, xy_tile_w, CardId, Faction, Reach, Seat, SeatSlot, BOARD_W, BOARD_W_2V2};

fn player() -> PlayerState {
    PlayerState { hand: Vec::new(), deck: Vec::new(), anima: 0, glimpsed_this_turn: false, peeked_top: None, first_placement_done: false }
}

fn board(w: i8) -> GameState {
    let n = (w as usize) * (w as usize);
    GameState {
        rules: MatchRules { last_round: 12, contraction_after: 8, factions: [Faction::Lorekeeper, Faction::Lorekeeper] },
        contracted: false,
        round: 1,
        active: Seat::A,
        phase: Phase::Acting,
        board: (0..n).map(|_| TileState { spirit: None, terrain: None, impressions: Vec::new(), faded: false }).collect(),
        board_w: w,
        player_a: player(),
        player_b: player(),
        player_a2: None,
        player_b2: None,
        active_slot: SeatSlot::A1,
        moved_this_turn: Vec::new(),
        temp_mods: Vec::new(),
        temp_reach: Vec::new(),
        temp_restrict: Vec::new(),
        temp_retaliation: Vec::new(),
        card_tax: [(0, 0), (0, 0)],
        ignore_imprint_this_turn: [false, false],
        silenced_terrain: None,
        bonds: Vec::new(),
        stray: None,
        mulliganed: [false, false],
        solace_erasures: 0,
        dissolved: Vec::new(),
        next_ritual_discount: [0, 0],
        dissolved_this_turn: [0, 0],
        fade_delayed: Vec::new(),
        pending_flow_anima: [0, 0],
        next_arrival_atk: [0, 0],
        next_arrival_2nd_engage: [None, None],
        peeked_fabs: [Vec::new(), Vec::new()],
        ritual_extra_targets: 0,
        impressions_dormant_round: None,
        calm_tiles: Vec::new(),
        last_played_spirit: [None, None],
        stray_telegraph: None,
        stray_match: false,
        unwriting_told_this_round: false,
        pending_choice: None,
    }
}

#[test]
fn eff_defense_properties_hold_across_the_stat_domain() {
    for def in 0i16..=300 {
        // Non-arcane attacker: full defense applies, warded or not.
        assert_eq!(eff_defense(def, false, false), def);
        assert_eq!(eff_defense(def, false, true), def);
        // Warded defender negates the arcane pierce entirely.
        assert_eq!(eff_defense(def, true, true), def, "Warded must stop arcane pierce at def={def}");
        // Arcane + unwarded pierces exactly ARCANE_PIERCE, clamped at 0, never raising.
        let pierced = eff_defense(def, true, false);
        assert_eq!(pierced, (def - ARCANE_PIERCE).max(0));
        assert!((0..=def).contains(&pierced), "pierce out of range at def={def}");
    }
    // Monotonic: a higher base defense never yields a lower effective defense.
    for def in 1i16..=300 {
        for &(a, w) in &[(false, false), (true, false), (true, true)] {
            assert!(eff_defense(def, a, w) >= eff_defense(def - 1, a, w));
        }
    }
}

/// The earlier widening body: an `extra` list collecting every frontier neighbour
/// (duplicates allowed), then a dedup-while-appending pass via `contains` against the
/// growing `tiles`.
fn widen_oriented_legacy(mut tiles: Vec<u8>, forward: i8, all_dirs: bool, seat: Seat, w: i8) -> Vec<u8> {
    if forward == 0 && !all_dirs {
        return tiles;
    }
    let f = seat.forward();
    let mut extra: Vec<u8> = Vec::new();
    for &t in &tiles {
        let (bx, by) = tile_xy_w(t, w);
        for step in 1..=forward {
            if let Some(nt) = xy_tile_w(bx, by + step * f, w) {
                extra.push(nt);
            }
        }
        if all_dirs {
            for (dx, dy) in [(1, 0), (-1, 0), (0, 1), (0, -1)] {
                if let Some(nt) = xy_tile_w(bx + dx, by + dy, w) {
                    extra.push(nt);
                }
            }
        }
    }
    for nt in extra {
        if !tiles.contains(&nt) {
            tiles.push(nt);
        }
    }
    tiles
}

#[test]
fn widen_oriented_matches_the_legacy_contains_dedup_byte_for_byte() {
    for &w in &[BOARD_W, BOARD_W_2V2] {
        let ntiles = (w as u16 * w as u16) as u8;
        for &seat in &[Seat::A, Seat::B] {
            for forward in 0i8..=2 {
                for &all_dirs in &[false, true] {
                    // (a) every single-tile base.
                    for t0 in 0..ntiles {
                        let base = vec![t0];
                        let got = widen_oriented(base.clone(), forward, all_dirs, seat, w);
                        let want = widen_oriented_legacy(base.clone(), forward, all_dirs, seat, w);
                        assert_eq!(got, want, "single-tile base {t0}, fwd={forward}, all_dirs={all_dirs}, seat={seat:?}, w={w}");
                    }
                    // (b) contiguous pairs and triples.
                    for t0 in 0..ntiles {
                        for len in 2..=3u8 {
                            let base: Vec<u8> = (t0..(t0 + len).min(ntiles)).collect();
                            if base.len() < 2 {
                                continue;
                            }
                            let got = widen_oriented(base.clone(), forward, all_dirs, seat, w);
                            let want = widen_oriented_legacy(base.clone(), forward, all_dirs, seat, w);
                            assert_eq!(got, want, "base {base:?}, fwd={forward}, all_dirs={all_dirs}, seat={seat:?}, w={w}");
                        }
                    }
                }
            }
        }
    }
}

#[test]
fn reach_tiles_turn_with_the_seat() {
    // Centre of the 5-wide board: tile 12 = (2, 2). Seat A faces up (row - 1).
    assert_eq!(reach_tiles(Reach::Cross, 12, Seat::A, 5), vec![7, 13, 11, 17]);
    assert_eq!(reach_tiles(Reach::Cross, 12, Seat::B, 5), vec![17, 13, 11, 7]);
    assert_eq!(reach_tiles(Reach::Lance, 12, Seat::A, 5), vec![7, 2]);
    assert_eq!(reach_tiles(Reach::Lance, 12, Seat::B, 5), vec![17, 22]);
    assert_eq!(reach_tiles(Reach::Slant, 12, Seat::B, 5), vec![18, 16, 8, 6]);
    // A corner drops the off-board offsets.
    assert_eq!(reach_tiles(Reach::Cross, 0, Seat::B, 5), vec![5, 1]);
    assert_eq!(reach_tiles(Reach::Lance, 2, Seat::A, 5), Vec::<u8>::new());
    // The 6-wide board.
    assert_eq!(reach_tiles(Reach::Lance, 14, Seat::A, 6), vec![8, 2]);
}

#[test]
fn widen_adds_the_forward_run_after_the_base() {
    // Tile 12 forward for seat A: 7 then 2.
    assert_eq!(widen_oriented(vec![12], 2, false, Seat::A, 5), vec![12, 7, 2]);
    // Nothing to widen leaves the base untouched.
    assert_eq!(widen_oriented(vec![12, 13], 0, false, Seat::A, 5), vec![12, 13]);
    // All directions adds the four neighbours not already listed.
    assert_eq!(widen_oriented(vec![12, 13], 0, true, Seat::B, 5), vec![12, 13, 11, 17, 7, 14, 18, 8]);
}

#[test]
fn projection_covers_reach_home_rows_and_impressions() {
    let cat = test_catalog();
    let mut st = board(5);
    // Seat A's home rows are rows 3 and 4 (tiles 15..25) until the contraction.
    let p = projection(&st, Seat::A, &cat);
    for t in 0..25usize {
        assert_eq!(p[t], t >= 15, "tile {t}");
    }
    // A Dawnling (Cross) of seat A on tile 12 projects its reach: 7, 13, 11, 17.
    put_spirit(&mut st, 12, CardId(0), Seat::A);
    let p = projection(&st, Seat::A, &cat);
    for t in [7usize, 11, 13, 17] {
        assert!(p[t], "reach tile {t}");
    }
    assert!(!p[12] && !p[2] && !p[6]);
    // An impression of seat A on tile 0 projects onto its neighbours 1 and 5.
    st.board[0].impressions.push(Seat::A);
    let p = projection(&st, Seat::A, &cat);
    assert!(p[1] && p[5] && !p[0]);
    // After the contraction the home rows no longer project.
    st.contracted = true;
    let p = projection(&st, Seat::A, &cat);
    assert!(!p[24] && p[17]);
    // Seat B sees none of A's spirit reach.
    let pb = projection(&st, Seat::B, &cat);
    assert!(!pb[7]);
}

#[test]
fn slot_projection_equals_team_projection_in_1v1() {
    let cat = test_catalog();
    let mut st = board(5);
    put_spirit(&mut st, 12, CardId(3), Seat::A);
    put_spirit(&mut st, 6, CardId(9), Seat::B);
    assert_eq!(projection_slot(&st, SeatSlot::A1, &cat), projection(&st, Seat::A, &cat));
    assert_eq!(projection_slot(&st, SeatSlot::B1, &cat), projection(&st, Seat::B, &cat));
}

#[test]
fn a_fading_or_face_down_spirit_does_not_project() {
    let cat = test_catalog();
    let mut st = board(5);
    st.contracted = true;
    put_spirit(&mut st, 12, CardId(0), Seat::A);
    st.board[12].spirit.as_mut().unwrap().fading = true;
    assert!(!projection(&st, Seat::A, &cat)[7]);
    st.board[12].spirit.as_mut().unwrap().fading = false;
    st.board[12].spirit.as_mut().unwrap().face_down = true;
    assert!(!projection(&st, Seat::A, &cat)[7]);
}
