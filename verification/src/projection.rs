//! Reach geometry: orientation, reach tiles, the one-step frontier widening, placement
//! projection, and the Arcane/Warded defense rule.
use vstd::prelude::*;

use vstd::arithmetic::div_mod::{
    lemma_fundamental_div_mod, lemma_fundamental_div_mod_converse, lemma_mod_bound,
    lemma_mod_multiples_vanish,
};

use crate::effects::Restriction;
use crate::cards::{card, catalog_has, spec_card};
use crate::state::{GameState, Spirit};
use crate::types::{
    adjacent4_w, spec_adjacent_w, spec_tile_xy_w, spec_xy_tile_w, tile_xy_w, valid_width, CardDef,
    Reach, Seat, SeatSlot,
};

verus! {

/// Arcane's defense pierce.
pub const ARCANE_PIERCE: i16 = 20;

/// The on-board tiles a list of `(dx, dy)` offsets lands on from `(x, y)`, with `dy`
/// scaled by the facing `f`, in offset order.
pub open spec fn spec_offset_tiles(offs: Seq<(i8, i8)>, x: int, y: int, f: int, w: i8) -> Seq<u8>
    decreases offs.len(),
{
    if offs.len() == 0 {
        Seq::empty()
    } else {
        let prev = spec_offset_tiles(offs.drop_last(), x, y, f, w);
        let (dx, dy) = offs.last();
        match spec_xy_tile_w(x + dx, y + dy * f, w) {
            Some(t) => prev.push(t),
            None => prev,
        }
    }
}

/// The tiles a spirit with `reach` at `tile` (facing for `seat`) can engage on a `w`-wide
/// board: each reach offset, turned to the seat's facing, that stays on the board.
pub open spec fn spec_oriented_w(reach: Reach, tile: u8, seat: Seat, w: i8) -> Seq<u8> {
    let (x, y) = spec_tile_xy_w(tile, w);
    spec_offset_tiles(reach.spec_offsets(), x as int, y as int, seat.spec_forward() as int, w)
}

/// The tile at integer coordinates `(x, y)` of a `w`-wide board, if on it.
pub fn xy_tile_wide(x: i16, y: i16, w: i8) -> (r: Option<u8>)
    requires
        valid_width(w),
    ensures
        r == spec_xy_tile_w(x as int, y as int, w),
        r matches Some(t) ==> (t as int) < w * w,
{
    if 0 <= x && x < w as i16 && 0 <= y && y < w as i16 {
        crate::types::xy_tile_w(x as i8, y as i8, w)
    } else {
        None
    }
}

/// The tiles a spirit with `reach` at `tile` (facing for `seat`) can engage, on a
/// `w`-wide board.
pub fn oriented_w(reach: Reach, tile: u8, seat: Seat, w: i8) -> (r: Vec<u8>)
    requires
        valid_width(w),
    ensures
        r@ == spec_oriented_w(reach, tile, seat, w),
        forall|i: int| 0 <= i < r@.len() ==> (#[trigger] r@[i] as int) < w * w,
{
    let (x, y) = tile_xy_w(tile, w);
    let f = seat.forward();
    let offs = reach.offsets();
    let mut out: Vec<u8> = Vec::new();
    let n = offs.len();
    for k in 0..n
        invariant
            n == offs@.len() <= 4,
            offs@ == reach.spec_offsets(),
            (x, y) == spec_tile_xy_w(tile, w),
            f == seat.spec_forward(),
            valid_width(w),
            0 <= y <= 127,
            out@ == spec_offset_tiles(offs@.subrange(0, k as int), x as int, y as int, f as int, w),
            forall|i: int| 0 <= i < out@.len() ==> (#[trigger] out@[i] as int) < w * w,
    {
        let (dx, dy) = offs[k];
        assert(offs@.subrange(0, k + 1).drop_last() == offs@.subrange(0, k as int));
        assert(-2 <= offs@[k as int].0 <= 2 && -2 <= offs@[k as int].1 <= 2);
        let dyf: i16 = if f > 0 { dy as i16 } else { -(dy as i16) };
        assert(dyf == dy * f);
        if let Some(t) = xy_tile_wide(x as i16 + dx as i16, y as i16 + dyf, w) {
            out.push(t);
        }
    }
    assert(offs@.subrange(0, n as int) == offs@);
    out
}

/// The tiles a spirit with `reach` at `tile` (facing for `seat`) can engage on the 1v1
/// board.
pub fn oriented(reach: Reach, tile: u8, seat: Seat) -> (r: Vec<u8>)
    ensures
        r@ == spec_oriented_w(reach, tile, seat, crate::types::BOARD_W),
{
    oriented_w(reach, tile, seat, crate::types::BOARD_W)
}

/// The tiles a spirit with `reach` at `tile` (facing for `seat`) can engage, on a
/// `width`-wide board. Pure geometry — no board state, no legality: the answer is a
/// function of the four arguments alone, and every tile it names lies on the board. A
/// one-tile board leaves no neighbour to reach. Tiles are bytes, so a board is at most 16
/// wide (256 tiles).
pub fn reach_tiles(reach: Reach, tile: u8, seat: Seat, width: u8) -> (r: Vec<u8>)
    requires
        1 <= width <= 16,
    ensures
        width == 1 ==> r@.len() == 0,
        width >= 2 ==> r@ == spec_oriented_w(reach, tile, seat, width as i8),
        forall|i: int| 0 <= i < r@.len() ==> (#[trigger] r@[i] as int) < width * width,
{
    if width == 1 {
        return Vec::new();
    }
    oriented_w(reach, tile, seat, width as i8)
}

/// Effective defense in an exchange: an Arcane attacker pierces `ARCANE_PIERCE` of an
/// unwarded defender's defense (never below 0); otherwise the defense stands.
pub open spec fn spec_eff_defense(def_defense: i16, attacker_arcane: bool, defender_warded: bool) -> i16 {
    if attacker_arcane && !defender_warded {
        if def_defense - ARCANE_PIERCE >= 0 {
            (def_defense - ARCANE_PIERCE) as i16
        } else {
            0
        }
    } else {
        def_defense
    }
}

/// Effective defense in an exchange: Arcane attackers pierce defense; Warded defenders keep
/// theirs. The single chokepoint for the Arcane/Warded interaction.
pub fn eff_defense(def_defense: i16, attacker_arcane: bool, defender_warded: bool) -> (r: i16)
    ensures
        r == spec_eff_defense(def_defense, attacker_arcane, defender_warded),
{
    if attacker_arcane && !defender_warded {
        if def_defense >= ARCANE_PIERCE {
            def_defense - ARCANE_PIERCE
        } else {
            0
        }
    } else {
        def_defense
    }
}

/// Effective defense never exceeds the printed defense, never goes below 0 when it moves,
/// is unchanged against a non-Arcane attacker or a Warded defender, and never decreases as
/// the printed defense grows.
pub proof fn law_eff_defense_bounds(d: i16, e: i16, arcane: bool, warded: bool)
    ensures
        !arcane || warded ==> spec_eff_defense(d, arcane, warded) == d,
        d >= 0 ==> 0 <= spec_eff_defense(d, arcane, warded) <= d,
        d <= e ==> spec_eff_defense(d, arcane, warded) <= spec_eff_defense(e, arcane, warded),
{
}

/// A reach buff covers the spirit at `tile` of `seat` this round.
pub open spec fn reach_buff_covers(tr: crate::state::TempReach, round: u8, tile: u8, seat: Seat) -> bool {
    tr.seat == seat && tr.until_round >= round && (tr.tile matches Some(t) ==> t == tile)
}

/// The summed forward steps and the "all directions" flag of the first `n` buffs in
/// `buffs` that `keep` admits, covering the spirit at `tile` of `seat`.
pub open spec fn spec_reach_fold(
    buffs: Seq<crate::state::TempReach>,
    n: int,
    round: u8,
    tile: u8,
    seat: Seat,
    full_only: bool,
) -> (int, bool)
    decreases n,
{
    if n <= 0 {
        (0, false)
    } else {
        let (f, a) = spec_reach_fold(buffs, n - 1, round, tile, seat, full_only);
        let tr = buffs[n - 1];
        if reach_buff_covers(tr, round, tile, seat) && (!full_only || !tr.targeting_only) {
            (f + tr.forward, a || tr.all_directions)
        } else {
            (f, a)
        }
    }
}

/// Wrap an integer into `i8` (two's complement).
pub open spec fn wrap8(v: int) -> i8 {
    (((v + 128) % 256) - 128) as i8
}

/// The FULL (non-targeting-only) reach buffs covering the spirit at `tile`: summed
/// forward steps (wrapping at the `i8` boundary) and whether any grants all directions.
pub open spec fn spec_full_reach_delta(sim: GameState, tile: u8, seat: Seat) -> (i8, bool) {
    let (f, a) = spec_reach_fold(sim.temp_reach@, sim.temp_reach@.len() as int, sim.round, tile, seat, true);
    (wrap8(f), a)
}

/// Wrapping `i8` addition tracks the integer sum modulo 256.
pub proof fn lemma_wrap8_add(acc: int, x: i8)
    ensures
        vstd::wrapping::i8_specs::wrapping_add(wrap8(acc), x) == wrap8(acc + x),
{
    let m = (acc + 128) % 256;
    lemma_fundamental_div_mod(acc + 128, 256);
    lemma_mod_bound(acc + 128, 256);
    let q = (acc + 128) / 256;
    let b = m + x;
    assert(acc + x + 128 == 256 * q + b);
    lemma_mod_multiples_vanish(q, b, 256);
    assert((acc + x + 128) % 256 == b % 256);
    if b >= 256 {
        lemma_fundamental_div_mod_converse(b, 256, 1, b - 256);
    } else if b < 0 {
        lemma_fundamental_div_mod_converse(b, 256, -1, b + 256);
    } else {
        lemma_fundamental_div_mod_converse(b, 256, 0, b);
    }
}

/// The FULL (non-targeting-only) reach buffs covering the spirit at `tile` — the part of
/// this round's reach buffs that also widens projection and interception. Seat-wide
/// (`tile: None`) or per-spirit (`tile: Some`).
pub fn full_reach_delta(sim: &GameState, tile: u8, seat: Seat) -> (r: (i8, bool))
    ensures
        r == spec_full_reach_delta(*sim, tile, seat),
{
    let mut forward: i8 = 0;
    let mut all_dirs = false;
    let n = sim.temp_reach.len();
    for i in 0..n
        invariant
            n == sim.temp_reach@.len(),
            (forward, all_dirs) == ({
                let (f, a) = spec_reach_fold(sim.temp_reach@, i as int, sim.round, tile, seat, true);
                (wrap8(f), a)
            }),
    {
        let tr = &sim.temp_reach[i];
        let covers = match tr.tile {
            Some(t) => t == tile,
            None => true,
        };
        if !tr.targeting_only && tr.seat == seat && tr.until_round >= sim.round && covers {
            proof {
                let (f, a) = spec_reach_fold(sim.temp_reach@, i as int, sim.round, tile, seat, true);
                lemma_wrap8_add(f, tr.forward);
            }
            forward = forward.wrapping_add(tr.forward);
            all_dirs = all_dirs || tr.all_directions;
        }
    }
    (forward, all_dirs)
}

/// Whether a this-round, seat-wide restriction `r` is in force for `owner`.
pub open spec fn spec_restricted(sim: GameState, owner: Seat, r: Restriction) -> bool {
    exists|i: int| 0 <= i < sim.temp_restrict@.len() && {
        let t = #[trigger] sim.temp_restrict@[i];
        t.seat == owner && t.restriction == r && t.until_round >= sim.round
    }
}

/// Whether a this-round, seat-wide restriction `r` is in force for `owner`.
pub fn restricted(sim: &GameState, owner: Seat, r: Restriction) -> (b: bool)
    ensures
        b == spec_restricted(*sim, owner, r),
{
    let n = sim.temp_restrict.len();
    for i in 0..n
        invariant
            n == sim.temp_restrict@.len(),
            forall|j: int| 0 <= j < i ==> {
                let t = #[trigger] sim.temp_restrict@[j];
                !(t.seat == owner && t.restriction == r && t.until_round >= sim.round)
            },
    {
        let t = &sim.temp_restrict[i];
        if t.seat == owner && t.restriction == r && t.until_round >= sim.round {
            return true;
        }
    }
    false
}

// ---------------------------------------------------------------------------
// Frontier widening
// ---------------------------------------------------------------------------

/// A present tile as a one-element sequence, an absent one as nothing.
pub open spec fn opt_tile(o: Option<u8>) -> Seq<u8> {
    match o {
        Some(t) => seq![t],
        None => Seq::empty(),
    }
}

/// The on-board tiles `1..=n` steps ahead (facing `f`) of `(bx, by)`, nearest first.
pub open spec fn spec_forward_steps(bx: int, by: int, f: int, w: i8, n: int) -> Seq<u8>
    decreases n,
{
    if n <= 0 {
        Seq::empty()
    } else {
        spec_forward_steps(bx, by, f, w, n - 1) + opt_tile(spec_xy_tile_w(bx, by + n * f, w))
    }
}

/// The on-board orthogonal neighbours of `(bx, by)`: right, left, below, above.
pub open spec fn spec_side_steps(bx: int, by: int, w: i8) -> Seq<u8> {
    opt_tile(spec_xy_tile_w(bx + 1, by, w)) + opt_tile(spec_xy_tile_w(bx - 1, by, w))
        + opt_tile(spec_xy_tile_w(bx, by + 1, w)) + opt_tile(spec_xy_tile_w(bx, by - 1, w))
}

/// The candidate tiles one base tile spawns: its forward run, then (for "all directions")
/// its four neighbours.
pub open spec fn spec_frontier(t: u8, forward: i8, all_dirs: bool, f: int, w: i8) -> Seq<u8> {
    let (bx, by) = spec_tile_xy_w(t, w);
    spec_forward_steps(bx as int, by as int, f, w, forward as int)
        + if all_dirs { spec_side_steps(bx as int, by as int, w) } else { Seq::empty() }
}

/// Append each candidate, in order, that the growing list does not already hold.
pub open spec fn spec_append_new(acc: Seq<u8>, cands: Seq<u8>) -> Seq<u8>
    decreases cands.len(),
{
    if cands.len() == 0 {
        acc
    } else {
        let a = spec_append_new(acc, cands.drop_last());
        if a.contains(cands.last()) {
            a
        } else {
            a.push(cands.last())
        }
    }
}

/// The list after the frontiers of the first `k` base tiles were appended.
pub open spec fn spec_widen_prefix(base: Seq<u8>, k: int, forward: i8, all_dirs: bool, f: int, w: i8) -> Seq<u8>
    decreases k,
{
    if k <= 0 {
        base
    } else {
        spec_append_new(spec_widen_prefix(base, k - 1, forward, all_dirs, f, w), spec_frontier(base[k - 1], forward, all_dirs, f, w))
    }
}

/// Widen a base reach set by `(forward, all_dirs)`: the base tiles in order, then every
/// tile of each base tile's frontier (in base order) not already listed. Unchanged when
/// there is nothing to widen.
pub open spec fn spec_widen_oriented(tiles: Seq<u8>, forward: i8, all_dirs: bool, seat: Seat, w: i8) -> Seq<u8> {
    if forward == 0 && !all_dirs {
        tiles
    } else {
        spec_widen_prefix(tiles, tiles.len() as int, forward, all_dirs, seat.spec_forward() as int, w)
    }
}

proof fn lemma_append_new_concat(acc: Seq<u8>, a: Seq<u8>, b: Seq<u8>)
    ensures
        spec_append_new(acc, a + b) == spec_append_new(spec_append_new(acc, a), b),
    decreases b.len(),
{
    if b.len() == 0 {
        assert(a + b == a);
    } else {
        assert((a + b).drop_last() == a + b.drop_last());
        assert((a + b).last() == b.last());
        lemma_append_new_concat(acc, a, b.drop_last());
    }
}

proof fn lemma_append_new_bounded(acc: Seq<u8>, cands: Seq<u8>, bound: int)
    requires
        forall|i: int| 0 <= i < acc.len() ==> (#[trigger] acc[i] as int) < bound,
        forall|i: int| 0 <= i < cands.len() ==> (#[trigger] cands[i] as int) < bound,
    ensures
        forall|i: int| 0 <= i < spec_append_new(acc, cands).len() ==> (#[trigger] spec_append_new(acc, cands)[i] as int) < bound,
        spec_append_new(acc, cands).len() <= acc.len() + cands.len(),
    decreases cands.len(),
{
    if cands.len() > 0 {
        lemma_append_new_bounded(acc, cands.drop_last(), bound);
    }
}

/// Bit `b` of `seen | (1 << a)` is bit `b` of `seen`, or `a == b`.
proof fn lemma_bit_set(seen: u64, a: u64, b: u64)
    requires
        a < 64,
        b < 64,
    ensures
        ((seen | (1u64 << a)) & (1u64 << b) != 0) == ((seen & (1u64 << b) != 0) || a == b),
{
    assert(((seen | (1u64 << a)) & (1u64 << b) != 0) == ((seen & (1u64 << b) != 0) || a == b)) by (bit_vector)
        requires
            a < 64,
            b < 64,
    ;
}

proof fn lemma_bit_empty(b: u64)
    requires
        b < 64,
    ensures
        (0u64 & (1u64 << b)) == 0,
{
    assert((0u64 & (1u64 << b)) == 0) by (bit_vector);
}

/// The set bits of `seen` are exactly the tiles of `list` (for the 64 tile ids a bit
/// can hold).
pub open spec fn bits_match(seen: u64, list: Seq<u8>) -> bool {
    forall|t: u8| t < 64 ==> ((seen & (1u64 << (t as u64)) != 0) <==> #[trigger] list.contains(t))
}

/// Push `nt` unless the bitset already holds it.
fn push_new(tiles: &mut Vec<u8>, seen: &mut u64, nt: u8)
    requires
        (nt as int) < 64,
        bits_match(*old(seen), old(tiles)@),
    ensures
        final(tiles)@ == spec_append_new(old(tiles)@, seq![nt]),
        bits_match(*final(seen), final(tiles)@),
{
    let ghost acc = tiles@;
    assert(seq![nt].drop_last() =~= Seq::<u8>::empty());
    assert(spec_append_new(acc, Seq::<u8>::empty()) == acc);
    if *seen & (1u64 << (nt as u64)) == 0 {
        let ghost s0 = *seen;
        *seen = *seen | (1u64 << (nt as u64));
        tiles.push(nt);
        assert forall|t: u8| t < 64 implies ((*seen & (1u64 << (t as u64)) != 0) <==> #[trigger] tiles@.contains(t)) by {
            lemma_bit_set(s0, nt as u64, t as u64);
            assert(tiles@ == acc.push(nt));
            if acc.contains(t) {
                let k = choose|k: int| 0 <= k < acc.len() && #[trigger] acc[k] == t;
                assert(tiles@[k] == t);
            }
            if tiles@.contains(t) {
                let k = choose|k: int| 0 <= k < tiles@.len() && #[trigger] tiles@[k] == t;
                if k < acc.len() {
                    assert(acc[k] == t);
                }
            }
            if t == nt {
                assert(tiles@[tiles@.len() - 1] == nt);
            }
        }
    } else {
        assert(acc.contains(nt));
    }
}

proof fn lemma_append_new_prefix(acc: Seq<u8>, cands: Seq<u8>)
    ensures
        spec_append_new(acc, cands).len() >= acc.len(),
        forall|j: int| 0 <= j < acc.len() ==> #[trigger] spec_append_new(acc, cands)[j] == acc[j],
    decreases cands.len(),
{
    if cands.len() > 0 {
        lemma_append_new_prefix(acc, cands.drop_last());
    }
}

/// Append a present tile unless already listed.
fn push_opt(tiles: &mut Vec<u8>, seen: &mut u64, o: Option<u8>, w: i8)
    requires
        valid_width(w),
        w * w <= 64,
        o matches Some(t) ==> (t as int) < w * w,
        bits_match(*old(seen), old(tiles)@),
        forall|i: int| 0 <= i < old(tiles)@.len() ==> (#[trigger] old(tiles)@[i] as int) < w * w,
    ensures
        final(tiles)@ == spec_append_new(old(tiles)@, opt_tile(o)),
        bits_match(*final(seen), final(tiles)@),
        forall|i: int| 0 <= i < final(tiles)@.len() ==> (#[trigger] final(tiles)@[i] as int) < w * w,
{
    match o {
        Some(nt) => {
            push_new(tiles, seen, nt);
            proof {
                lemma_append_new_bounded(old(tiles)@, seq![nt], w * w);
            }
        },
        None => {
            assert(spec_append_new(tiles@, Seq::<u8>::empty()) == tiles@);
        },
    }
}

/// Widen a base oriented reach set by `(forward, all_dirs)` — the one-step frontier
/// extension shared by targeting and the projection/interception sites. Only the
/// original tiles spawn neighbours; a tile already listed is not repeated.
pub fn widen_oriented(tiles: Vec<u8>, forward: i8, all_dirs: bool, seat: Seat, w: i8) -> (r: Vec<u8>)
    requires
        valid_width(w),
        w <= 8,
        forall|i: int| 0 <= i < tiles@.len() ==> (#[trigger] tiles@[i] as int) < w * w,
    ensures
        r@ == spec_widen_oriented(tiles@, forward, all_dirs, seat, w),
        forall|i: int| 0 <= i < r@.len() ==> (#[trigger] r@[i] as int) < w * w,
{
    let mut tiles = tiles;
    if forward == 0 && !all_dirs {
        return tiles;
    }
    let ghost base = tiles@;
    assert(w * w <= 64) by (nonlinear_arith)
        requires
            valid_width(w),
            w <= 8,
    ;
    let f = seat.forward();
    let mut seen: u64 = 0;
    let base_len = tiles.len();
    assert forall|t: u8| t < 64 implies ((seen & (1u64 << (t as u64)) != 0) <==> #[trigger] base.subrange(0, 0).contains(t)) by {
        lemma_bit_empty(t as u64);
    }
    for i in 0..base_len
        invariant
            base_len == base.len(),
            tiles@ == base,
            w * w <= 64,
            forall|j: int| 0 <= j < base.len() ==> (#[trigger] base[j] as int) < w * w,
            bits_match(seen, base.subrange(0, i as int)),
    {
        let t = tiles[i];
        let ghost s0 = seen;
        seen = seen | (1u64 << (t as u64));
        let ghost pre = base.subrange(0, i as int);
        let ghost post = base.subrange(0, i + 1);
        assert(post =~= pre.push(t));
        assert forall|u: u8| u < 64 implies ((seen & (1u64 << (u as u64)) != 0) <==> #[trigger] post.contains(u)) by {
            lemma_bit_set(s0, t as u64, u as u64);
            if pre.contains(u) {
                let k = choose|k: int| 0 <= k < pre.len() && #[trigger] pre[k] == u;
                assert(post[k] == u);
            }
            if post.contains(u) {
                let k = choose|k: int| 0 <= k < post.len() && #[trigger] post[k] == u;
                if k < pre.len() {
                    assert(pre[k] == u);
                }
            }
            if u == t {
                assert(post[post.len() - 1] == t);
            }
        }
    }
    assert(base.subrange(0, base_len as int) =~= base);
    for idx in 0..base_len
        invariant
            base_len == base.len(),
            valid_width(w),
            w * w <= 64,
            f == seat.spec_forward(),
            tiles@ == spec_widen_prefix(base, idx as int, forward, all_dirs, f as int, w),
            bits_match(seen, tiles@),
            forall|j: int| 0 <= j < base.len() ==> (#[trigger] base[j] as int) < w * w,
            forall|j: int| 0 <= j < tiles@.len() ==> (#[trigger] tiles@[j] as int) < w * w,
            tiles@.len() >= base.len(),
            forall|j: int| 0 <= j < base.len() ==> #[trigger] tiles@[j] == base[j],
    {
        let t = tiles[idx];
        let (bx, by) = tile_xy_w(t, w);
        let ghost prefix = tiles@;
        let mut step: i16 = 1;
        while step <= forward as i16
            invariant
                1 <= step,
                step as int <= forward as int + 1 || step == 1,
                valid_width(w),
                w * w <= 64,
                (bx, by) == spec_tile_xy_w(t, w),
                0 <= bx < w,
                0 <= by < w,
                f == seat.spec_forward(),
                tiles@ == spec_append_new(prefix, spec_forward_steps(bx as int, by as int, f as int, w, step - 1)),
                bits_match(seen, tiles@),
                forall|j: int| 0 <= j < tiles@.len() ==> (#[trigger] tiles@[j] as int) < w * w,
            decreases forward as int + 1 - step as int,
        {
            let dyf: i16 = if f > 0 { step } else { -step };
            assert(dyf == step * f);
            let o = xy_tile_wide(bx as i16, by as i16 + dyf, w);
            proof {
                lemma_append_new_concat(prefix, spec_forward_steps(bx as int, by as int, f as int, w, step - 1), opt_tile(o));
            }
            push_opt(&mut tiles, &mut seen, o, w);
            step = step + 1;
        }
        let ghost fs = spec_forward_steps(bx as int, by as int, f as int, w, forward as int);
        assert(spec_forward_steps(bx as int, by as int, f as int, w, step - 1) == fs) by {
            if forward < 1 {
                assert(step == 1);
            }
        }
        if all_dirs {
            let ghost a0 = tiles@;
            let o1 = xy_tile_wide(bx as i16 + 1, by as i16, w);
            push_opt(&mut tiles, &mut seen, o1, w);
            let o2 = xy_tile_wide(bx as i16 - 1, by as i16, w);
            push_opt(&mut tiles, &mut seen, o2, w);
            let o3 = xy_tile_wide(bx as i16, by as i16 + 1, w);
            push_opt(&mut tiles, &mut seen, o3, w);
            let o4 = xy_tile_wide(bx as i16, by as i16 - 1, w);
            push_opt(&mut tiles, &mut seen, o4, w);
            proof {
                let s1 = opt_tile(o1);
                let s2 = opt_tile(o2);
                let s3 = opt_tile(o3);
                let s4 = opt_tile(o4);
                lemma_append_new_concat(a0, s1, s2);
                lemma_append_new_concat(a0, s1 + s2, s3);
                lemma_append_new_concat(a0, s1 + s2 + s3, s4);
                assert(spec_side_steps(bx as int, by as int, w) == s1 + s2 + s3 + s4);
                lemma_append_new_concat(prefix, fs, s1 + s2 + s3 + s4);
            }
        } else {
            assert(fs + Seq::<u8>::empty() == fs);
        }
        proof {
            assert(spec_frontier(base[idx as int], forward, all_dirs, f as int, w)
                == fs + if all_dirs { spec_side_steps(bx as int, by as int, w) } else { Seq::empty() });
            lemma_append_new_prefix(prefix, spec_frontier(base[idx as int], forward, all_dirs, f as int, w));
        }
    }
    tiles
}

// ---------------------------------------------------------------------------
// Placement projection
// ---------------------------------------------------------------------------

/// Every spirit on the board is a card of the catalog.
pub open spec fn cards_known(sim: GameState, catalog: Seq<CardDef>) -> bool {
    forall|i: int| 0 <= i < sim.board@.len() ==> ((#[trigger] sim.board@[i]).spirit matches Some(sp)
        ==> catalog_has(catalog, sp.card))
}

/// A board the projection reads: square, of a supported width no wider than 8, with every
/// spirit's card in the catalog.
pub open spec fn projectable(sim: GameState, catalog: Seq<CardDef>) -> bool {
    sim.wf() && cards_known(sim, catalog)
}

/// The spirits whose reach projects: the team's own (`slot: None`), or — for a 2v2
/// Overwrite — only the ones this slot placed.
pub open spec fn projects_for(sp: Spirit, seat: Seat, slot: Option<SeatSlot>) -> bool {
    !sp.fading && !sp.face_down && match slot {
        None => sp.owner == seat,
        Some(s) => sp.placed_by == Some(s),
    }
}

/// The tiles the projecting spirit standing on tile `i` reaches: its card's Reach, widened
/// by the FULL reach buffs covering it.
pub open spec fn spec_spirit_projection(sim: GameState, catalog: Seq<CardDef>, sp: Spirit, i: int, seat: Seat) -> Seq<u8> {
    let (fwd, ad) = spec_full_reach_delta(sim, i as u8, seat);
    spec_widen_oriented(spec_oriented_w(spec_card(catalog, sp.card).reach, i as u8, seat, sim.board_w), fwd, ad, seat, sim.board_w)
}

/// Tile `i` projects onto tile `t`: a projecting spirit's reach, or adjacency to the team's
/// impression or owned terrain.
pub open spec fn source_covers(sim: GameState, catalog: Seq<CardDef>, seat: Seat, slot: Option<SeatSlot>, i: int, t: int) -> bool {
    let tile = sim.board@[i];
    (tile.spirit matches Some(sp) && projects_for(sp, seat, slot)
        && spec_spirit_projection(sim, catalog, sp, i, seat).contains(t as u8))
        || (tile.impressions@.contains(seat) && spec_adjacent_w(i as u8, t as u8, sim.board_w))
        || (tile.terrain matches Some(terr) && terr.owner == seat && spec_adjacent_w(i as u8, t as u8, sim.board_w))
}

/// Tile `t` lies in one of `seat`'s home rows, which project until the contraction.
pub open spec fn home_covers(sim: GameState, seat: Seat, t: int) -> bool {
    !sim.contracted && seat.spec_home_rows_w(sim.board_w).contains(spec_tile_xy_w(t as u8, sim.board_w).1)
}

/// The tiles `seat` may write to: the reach of its projecting spirits, tiles adjacent to
/// its impressions and owned terrain, and its home rows until the contraction.
pub open spec fn spec_projected(sim: GameState, catalog: Seq<CardDef>, seat: Seat, slot: Option<SeatSlot>, t: int) -> bool {
    (exists|i: int| 0 <= i < sim.board@.len() && #[trigger] source_covers(sim, catalog, seat, slot, i, t))
        || home_covers(sim, seat, t)
}

/// Mark every listed tile.
fn mark_all(p: &mut Vec<bool>, tiles: &Vec<u8>)
    requires
        old(p)@.len() <= 256,
        forall|i: int| 0 <= i < tiles@.len() ==> (#[trigger] tiles@[i] as int) < old(p)@.len(),
    ensures
        final(p)@.len() == old(p)@.len(),
        forall|t: int| 0 <= t < final(p)@.len() ==> #[trigger] final(p)@[t] == (old(p)@[t] || tiles@.contains(t as u8)),
{
    let n = tiles.len();
    for k in 0..n
        invariant
            n == tiles@.len(),
            p@.len() == old(p)@.len(),
            old(p)@.len() <= 256,
            forall|i: int| 0 <= i < tiles@.len() ==> (#[trigger] tiles@[i] as int) < old(p)@.len(),
            forall|t: int| 0 <= t < p@.len() ==> #[trigger] p@[t] == (old(p)@[t] || tiles@.subrange(0, k as int).contains(t as u8)),
    {
        let t = tiles[k];
        p.set(t as usize, true);
        assert forall|u: int| 0 <= u < p@.len() implies #[trigger] p@[u] == (old(p)@[u] || tiles@.subrange(0, k + 1).contains(u as u8)) by {
            assert(tiles@.subrange(0, k + 1) =~= tiles@.subrange(0, k as int).push(t));
            if tiles@.subrange(0, k as int).contains(u as u8) {
                let j = choose|j: int| 0 <= j < k && #[trigger] tiles@.subrange(0, k as int)[j] == u as u8;
                assert(tiles@.subrange(0, k + 1)[j] == u as u8);
            }
            if tiles@.subrange(0, k + 1).contains(u as u8) {
                let j = choose|j: int| 0 <= j < k + 1 && #[trigger] tiles@.subrange(0, k + 1)[j] == u as u8;
                if j < k {
                    assert(tiles@.subrange(0, k as int)[j] == u as u8);
                }
            }
            if u == t as int {
                assert(tiles@.subrange(0, k + 1)[k as int] == t);
            }
        }
    }
    assert(tiles@.subrange(0, n as int) =~= tiles@);
}

/// Whether `seat` is among the marks on a tile.
pub fn seats_contain(v: &Vec<Seat>, seat: Seat) -> (r: bool)
    ensures
        r == v@.contains(seat),
{
    let n = v.len();
    for i in 0..n
        invariant
            n == v@.len(),
            forall|j: int| 0 <= j < i ==> #[trigger] v@[j] != seat,
    {
        if v[i] == seat {
            return true;
        }
    }
    false
}

fn project(st: &GameState, seat: Seat, slot: Option<SeatSlot>, catalog: &[CardDef]) -> (p: Vec<bool>)
    requires
        projectable(*st, catalog@),
    ensures
        p@.len() == st.board@.len(),
        forall|t: int| 0 <= t < p@.len() ==> #[trigger] p@[t] == spec_projected(*st, catalog@, seat, slot, t),
{
    let w = st.board_w;
    let n = st.board.len();
    let mut p: Vec<bool> = Vec::new();
    for k in 0..n
        invariant
            p@.len() == k,
            forall|t: int| 0 <= t < k ==> !#[trigger] p@[t],
    {
        p.push(false);
    }
    assert(n as int == w * w);
    assert(w * w <= 64) by (nonlinear_arith)
        requires
            valid_width(w),
            w <= 8,
    ;
    for i in 0..n
        invariant
            n == st.board@.len(),
            projectable(*st, catalog@),
            w == st.board_w,
            n == w * w,
            w * w <= 64,
            p@.len() == n,
            forall|t: int| 0 <= t < n ==> #[trigger] p@[t] == (exists|j: int| 0 <= j < i && #[trigger] source_covers(*st, catalog@, seat, slot, j, t)),
    {
        let ghost p0 = p@;
        let tile = &st.board[i];
        let ghost mid1 = p@;
        match &tile.spirit {
            Some(sp) => {
                let proj = match slot {
                    None => sp.owner == seat,
                    Some(s) => match sp.placed_by {
                        Some(pb) => pb == s,
                        None => false,
                    },
                };
                if proj && !sp.fading && !sp.face_down {
                    let reach = card(catalog, sp.card).reach;
                    let (fwd, ad) = full_reach_delta(st, i as u8, seat);
                    let base = oriented_w(reach, i as u8, seat, w);
                    let tiles = widen_oriented(base, fwd, ad, seat, w);
                    mark_all(&mut p, &tiles);
                }
            },
            None => {},
        }
        let ghost mid2 = p@;
        if seats_contain(&tile.impressions, seat) {
            let adj = adjacent4_w(i as u8, w);
            mark_all(&mut p, &adj);
        }
        let ghost mid3 = p@;
        match &tile.terrain {
            Some(terr) => {
                if terr.owner == seat {
                    let adj = adjacent4_w(i as u8, w);
                    mark_all(&mut p, &adj);
                }
            },
            None => {},
        }
        assert forall|t: int| 0 <= t < n implies #[trigger] p@[t] == (exists|j: int| 0 <= j < i + 1 && #[trigger] source_covers(*st, catalog@, seat, slot, j, t)) by {
            if p@[t] {
                if !p0[t] {
                    assert(source_covers(*st, catalog@, seat, slot, i as int, t));
                }
            }
            if exists|j: int| 0 <= j < i + 1 && #[trigger] source_covers(*st, catalog@, seat, slot, j, t) {
                let j = choose|j: int| 0 <= j < i + 1 && #[trigger] source_covers(*st, catalog@, seat, slot, j, t);
                if j == i {
                    assert(p@[t]);
                }
            }
        }
    }
    let ghost p1 = p@;
    assert(n <= 64);
    if !st.contracted {
        let rows = seat.home_rows_w(w);
        let nr = rows.len();
        for ri in 0..nr
            invariant
                rows@ == seat.spec_home_rows_w(w),
                nr == rows@.len(),
                valid_width(w),
                w == st.board_w,
                n == st.board@.len() == w * w,
                n <= 64,
                p@.len() == n,
                forall|t: int| 0 <= t < n ==> #[trigger] p@[t] == (p1[t] || rows@.subrange(0, ri as int).contains(spec_tile_xy_w(t as u8, w).1)),
        {
            let row = rows[ri];
            let ghost p2 = p@;
            let mut x: i8 = 0;
            while x < w
                invariant
                    0 <= x <= w,
                    valid_width(w),
                    n == w * w,
                    n <= 64,
                    p@.len() == n,
                    0 <= row < w,
                    forall|t: int| 0 <= t < n ==> #[trigger] p@[t] == (p2[t] || (spec_tile_xy_w(t as u8, w).1 == row && spec_tile_xy_w(t as u8, w).0 < x)),
                decreases w - x,
            {
                proof {
                    crate::types::lemma_tile_coords(x as int, row as int, w);
                }
                let t0 = crate::types::xy_tile_w(x, row, w).unwrap();
                let ghost p3 = p@;
                p.set(t0 as usize, true);
                assert forall|t: int| 0 <= t < n implies #[trigger] p@[t] == (p2[t] || (spec_tile_xy_w(t as u8, w).1 == row && spec_tile_xy_w(t as u8, w).0 < x + 1)) by {
                    crate::types::lemma_tile_decompose(t as u8, w);
                    crate::types::lemma_tile_decompose(t0, w);
                    if t != t0 as int {
                        assert(p@[t] == p3[t]);
                        assert(!(spec_tile_xy_w(t as u8, w) == spec_tile_xy_w(t0, w)));
                    }
                }
                x = x + 1;
            }
            assert forall|t: int| 0 <= t < n implies #[trigger] p@[t] == (p1[t] || rows@.subrange(0, ri + 1).contains(spec_tile_xy_w(t as u8, w).1)) by {
                crate::types::lemma_tile_decompose(t as u8, w);
                let y = spec_tile_xy_w(t as u8, w).1;
                assert(rows@.subrange(0, ri + 1) =~= rows@.subrange(0, ri as int).push(row));
                if rows@.subrange(0, ri as int).contains(y) {
                    let j = choose|j: int| 0 <= j < ri && #[trigger] rows@.subrange(0, ri as int)[j] == y;
                    assert(rows@.subrange(0, ri + 1)[j] == y);
                }
                if rows@.subrange(0, ri + 1).contains(y) {
                    let j = choose|j: int| 0 <= j < ri + 1 && #[trigger] rows@.subrange(0, ri + 1)[j] == y;
                    if j < ri {
                        assert(rows@.subrange(0, ri as int)[j] == y);
                    }
                }
                if y == row {
                    assert(rows@.subrange(0, ri + 1)[ri as int] == row);
                }
            }
        }
        assert(rows@.subrange(0, nr as int) =~= rows@);
    }
    p
}

/// The tiles `seat` (a TEAM) may write to: every standing, face-up own spirit's reach
/// (widened by FULL reach buffs), the tiles adjacent to the team's impressions and owned
/// terrain, and the team's home rows until the contraction. Used for placement.
pub fn projection(st: &GameState, seat: Seat, catalog: &[CardDef]) -> (p: Vec<bool>)
    requires
        projectable(*st, catalog@),
    ensures
        p@.len() == st.board@.len(),
        forall|t: int| 0 <= t < p@.len() ==> #[trigger] p@[t] == spec_projected(*st, catalog@, seat, None, t),
{
    project(st, seat, None, catalog)
}

/// The projection a single SLOT may Overwrite from. In 1v1 it is the team projection; in
/// 2v2 only the spirits this slot placed project, alongside the team's shared impressions,
/// terrain and home rows.
pub fn projection_slot(st: &GameState, slot: SeatSlot, catalog: &[CardDef]) -> (p: Vec<bool>)
    requires
        projectable(*st, catalog@),
    ensures
        p@.len() == st.board@.len(),
        forall|t: int| 0 <= t < p@.len() ==> #[trigger] p@[t] == spec_projected(
            *st,
            catalog@,
            slot.spec_team(),
            if st.spec_is_2v2() { Some(slot) } else { None },
            t,
        ),
{
    if !st.is_2v2() {
        return projection(st, slot.team(), catalog);
    }
    project(st, slot.team(), Some(slot), catalog)
}

/// `seat` has a legal placement: a projected tile that is unfaded, spirit-free and
/// terrain-free.
pub open spec fn spec_any_projected_placement(st: GameState, catalog: Seq<CardDef>, seat: Seat) -> bool {
    exists|i: int| 0 <= i < st.board@.len() && #[trigger] spec_projected(st, catalog, seat, None, i)
        && !st.board@[i].faded && st.board@[i].spirit is None && st.board@[i].terrain is None
}

/// Whether `seat` has any legal placement: a projected tile that is unfaded, spirit-free
/// and terrain-free.
pub fn any_projected_placement(st: &GameState, seat: Seat, catalog: &[CardDef]) -> (r: bool)
    requires
        projectable(*st, catalog@),
    ensures
        r == spec_any_projected_placement(*st, catalog@, seat),
{
    let p = projection(st, seat, catalog);
    let n = st.board.len();
    for i in 0..n
        invariant
            n == st.board@.len() == p@.len(),
            forall|t: int| 0 <= t < p@.len() ==> #[trigger] p@[t] == spec_projected(*st, catalog@, seat, None, t),
            forall|j: int| 0 <= j < i ==> !(#[trigger] spec_projected(*st, catalog@, seat, None, j)
                && !st.board@[j].faded && st.board@[j].spirit is None && st.board@[j].terrain is None),
    {
        let t = &st.board[i];
        if p[i] && !t.faded && t.spirit.is_none() && t.terrain.is_none() {
            assert(spec_projected(*st, catalog@, seat, None, i as int));
            return true;
        }
    }
    false
}

} // verus!
