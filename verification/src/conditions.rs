//! Tile distance and the Condition gates authored on effect specs.
use vstd::prelude::*;

use crate::cards::{card, spec_card};
use crate::effects::Condition;
use crate::projection::cards_known;
use crate::state::{GameState, Spirit};
use crate::types::{spec_tile_xy_w, tile_xy, CardDef, Resonance, BOARD_W};

verus! {

/// Row-plus-column distance between two tiles, measured on the 1v1 grid.
pub open spec fn spec_manhattan(a: u8, b: u8) -> int {
    let (ax, ay) = spec_tile_xy_w(a, BOARD_W);
    let (bx, by) = spec_tile_xy_w(b, BOARD_W);
    (if ax >= bx { ax - bx } else { bx - ax }) + (if ay >= by { ay - by } else { by - ay })
}

/// Row-plus-column distance between two tiles, measured on the 1v1 grid.
pub fn manhattan(a: u8, b: u8) -> (r: i16)
    ensures
        r == spec_manhattan(a, b),
{
    let (ax, ay) = tile_xy(a);
    let (bx, by) = tile_xy(b);
    let dx = if ax >= bx { ax as i16 - bx as i16 } else { bx as i16 - ax as i16 };
    let dy = if ay >= by { ay as i16 - by as i16 } else { by as i16 - ay as i16 };
    dx + dy
}

/// Tile `i` holds a standing (non-fading) spirit of `owner`, one step from `tile`.
pub open spec fn adjacent_ally_at(sim: GameState, tile: u8, owner: crate::types::Seat, i: int) -> bool {
    i != tile as int && spec_manhattan(tile, i as u8) == 1 && (sim.board@[i].spirit matches Some(o)
        && !o.fading && o.owner == owner)
}

/// Some standing ally of `owner` stands one step from `tile`.
pub open spec fn spec_has_adjacent_ally(sim: GameState, tile: u8, owner: crate::types::Seat) -> bool {
    exists|i: int| 0 <= i < sim.board@.len() && #[trigger] adjacent_ally_at(sim, tile, owner, i)
}

/// Whether some standing ally of `owner` stands one step from `tile`.
fn has_adjacent_ally(sim: &GameState, tile: u8, owner: crate::types::Seat) -> (r: bool)
    requires
        sim.board@.len() <= 256,
    ensures
        r == spec_has_adjacent_ally(*sim, tile, owner),
{
    let n = sim.board.len();
    for i in 0..n
        invariant
            n == sim.board@.len() <= 256,
            forall|j: int| 0 <= j < i ==> !#[trigger] adjacent_ally_at(*sim, tile, owner, j),
    {
        if i as u8 != tile && manhattan(tile, i as u8) == 1 {
            match &sim.board[i].spirit {
                Some(o) => {
                    if !o.fading && o.owner == owner {
                        assert(adjacent_ally_at(*sim, tile, owner, i as int));
                        return true;
                    }
                },
                None => {},
            }
        }
    }
    false
}

/// Attune's structural check: the spirit on `tile` has a standing ally one step away.
pub fn shared_adjacent_resonance_cond(sim: &GameState, tile: u8, sp: &Spirit, _n: u8) -> (r: bool)
    requires
        sim.board@.len() <= 256,
    ensures
        r == spec_has_adjacent_ally(*sim, tile, sp.owner),
{
    has_adjacent_ally(sim, tile, sp.owner)
}

/// Whether a spec's `Condition` is met for the spirit `sp` on `tile`: damage state,
/// adjacency to a standing ally (also the structural Attune check), the once-per-match
/// latch, face-down; every other gate does not hold on read.
pub open spec fn spec_condition_holds(sim: GameState, cond: Condition, tile: u8, sp: Spirit) -> bool {
    match cond {
        Condition::Always => true,
        Condition::WhileDamaged => sp.hp < sp.hp_max,
        Condition::WhileUndamaged => sp.hp >= sp.hp_max,
        Condition::WhileAdjacentToAlly => spec_has_adjacent_ally(sim, tile, sp.owner),
        Condition::AdjacentAlliesShareResonance { .. } => spec_has_adjacent_ally(sim, tile, sp.owner),
        Condition::OncePerMatch => !sp.replacement_used,
        Condition::WhileFaceDown => sp.face_down,
        _ => false,
    }
}

/// Whether a clause's `Condition` is met. Static auras consult this each read.
pub fn condition_holds(sim: &GameState, cond: &Condition, tile: u8, sp: &Spirit) -> (r: bool)
    requires
        sim.board@.len() <= 256,
    ensures
        r == spec_condition_holds(*sim, *cond, tile, *sp),
{
    match cond {
        Condition::Always => true,
        Condition::WhileDamaged => sp.hp < sp.hp_max,
        Condition::WhileUndamaged => sp.hp >= sp.hp_max,
        Condition::WhileAdjacentToAlly => has_adjacent_ally(sim, tile, sp.owner),
        Condition::AdjacentAlliesShareResonance { n } => shared_adjacent_resonance_cond(sim, tile, sp, *n),
        Condition::OncePerMatch => !sp.replacement_used,
        Condition::WhileFaceDown => sp.face_down,
        _ => false,
    }
}

/// The Resonances of the standing allies of `owner` one step from `tile`, among the first
/// `k` tiles, in board order.
pub open spec fn spec_adjacent_resonances(sim: GameState, catalog: Seq<CardDef>, tile: u8, owner: crate::types::Seat, k: int) -> Seq<Resonance>
    decreases k,
{
    if k <= 0 {
        Seq::empty()
    } else {
        let prev = spec_adjacent_resonances(sim, catalog, tile, owner, k - 1);
        if adjacent_ally_at(sim, tile, owner, k - 1) {
            prev.push(spec_card(catalog, sim.board@[k - 1].spirit->0.card).resonance)
        } else {
            prev
        }
    }
}

/// How many times `r` occurs in `s`.
pub open spec fn spec_occurrences(s: Seq<Resonance>, r: Resonance) -> nat
    decreases s.len(),
{
    if s.len() == 0 {
        0
    } else {
        spec_occurrences(s.drop_last(), r) + if s.last() == r { 1nat } else { 0nat }
    }
}

/// The first entry of `s`, from index `k` on, that occurs at least `n` times in `s`.
pub open spec fn spec_first_frequent(s: Seq<Resonance>, n: u8, k: int) -> Option<Resonance>
    decreases s.len() - k,
{
    if k < 0 || k >= s.len() {
        None
    } else if spec_occurrences(s, s[k]) >= n {
        Some(s[k])
    } else {
        spec_first_frequent(s, n, k + 1)
    }
}

/// Attune: the Resonance shared by `n`+ standing allies one step from `tile` — the one met
/// first in board order when several qualify.
pub open spec fn spec_shared_adjacent_resonance(sim: GameState, catalog: Seq<CardDef>, tile: u8, sp: Spirit, n: u8) -> Option<Resonance> {
    let s = spec_adjacent_resonances(sim, catalog, tile, sp.owner, sim.board@.len() as int);
    spec_first_frequent(s, n, 0)
}

fn count_occurrences(s: &Vec<Resonance>, r: Resonance) -> (c: usize)
    ensures
        c == spec_occurrences(s@, r),
{
    let mut c: usize = 0;
    let n = s.len();
    for k in 0..n
        invariant
            n == s@.len(),
            c == spec_occurrences(s@.subrange(0, k as int), r),
            c <= k,
    {
        assert(s@.subrange(0, k + 1).drop_last() == s@.subrange(0, k as int));
        if s[k] == r {
            c = c + 1;
        }
    }
    assert(s@.subrange(0, n as int) == s@);
    c
}

/// Attune: the Resonance shared by `n`+ standing allies adjacent to `tile`, if any.
pub fn shared_adjacent_resonance(sim: &GameState, catalog: &[CardDef], tile: u8, sp: &Spirit, n: u8) -> (r: Option<Resonance>)
    requires
        sim.board@.len() <= 256,
        cards_known(*sim, catalog@),
    ensures
        r == spec_shared_adjacent_resonance(*sim, catalog@, tile, *sp, n),
{
    let len = sim.board.len();
    let mut s: Vec<Resonance> = Vec::new();
    for i in 0..len
        invariant
            len == sim.board@.len() <= 256,
            cards_known(*sim, catalog@),
            s@ == spec_adjacent_resonances(*sim, catalog@, tile, sp.owner, i as int),
    {
        if i as u8 != tile && manhattan(tile, i as u8) == 1 {
            match &sim.board[i].spirit {
                Some(o) => {
                    if !o.fading && o.owner == sp.owner {
                        assert(sim.board@[i as int].spirit matches Some(x) && crate::cards::catalog_has(catalog@, x.card));
                        s.push(card(catalog, o.card).resonance);
                    }
                },
                None => {},
            }
        }
    }
    let m = s.len();
    for k in 0..m
        invariant
            m == s@.len(),
            s@ == spec_adjacent_resonances(*sim, catalog@, tile, sp.owner, sim.board@.len() as int),
            spec_first_frequent(s@, n, 0) == spec_first_frequent(s@, n, k as int),
    {
        if count_occurrences(&s, s[k]) >= n as usize {
            return Some(s[k]);
        }
    }
    None
}

} // verus!
