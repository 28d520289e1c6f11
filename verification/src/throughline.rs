//! Throughline reads: which Imprints a spirit lends a line, Unbreakable bridges over a
//! one-tile gap, and the length of a straight run.
use vstd::prelude::*;

use crate::auras::{card_carries_static_exception, lemma_wf_small, spec_card_static_has, ClauseTest};
use crate::cards::{card, catalog_has, spec_card};
use crate::effects::{Canon, RuleException};
use crate::projection::cards_known;
use crate::state::{Bond, GameState, Spirit};
use crate::tally::{spec_board_sum, throughline_grant, wrap_pair, ClauseTally, TileFilter};
use crate::text::text_of;
use crate::types::{spec_tile_xy_w, spec_xy_tile_w, tile_xy_w, valid_width, xy_tile_w, CardDef, Seat};

verus! {

/// Bond `bd` joins tiles `a` and `b` (either way round) and its card carries
/// `BondHoldsUnlessSeparated`.
pub open spec fn bridges_via(canon: Canon, catalog: Seq<CardDef>, bd: Bond, a: u8, b: u8) -> bool {
    ((bd.tile_a == a && bd.tile_b == b) || (bd.tile_a == b && bd.tile_b == a))
        && spec_card_static_has(canon, catalog, bd.card, ClauseTest::AnyException(RuleException::BondHoldsUnlessSeparated))
}

/// Two tiles are bridged by an Unbreakable Bond joining them.
pub open spec fn spec_unbreakable_bridges(sim: GameState, canon: Canon, catalog: Seq<CardDef>, a: u8, b: u8) -> bool {
    exists|k: int| 0 <= k < sim.bonds@.len() && #[trigger] bridges_via(canon, catalog, sim.bonds@[k], a, b)
}

/// Whether an Unbreakable Bond (`BondHoldsUnlessSeparated`) joins the spirits on `a` and
/// `b` — it bridges a one-tile gap in a Throughline and counts them as adjacent for Chorus.
pub fn unbreakable_bridges(sim: &GameState, canon: &Canon, catalog: &[CardDef], a: u8, b: u8) -> (r: bool)
    ensures
        r == spec_unbreakable_bridges(*sim, *canon, catalog@, a, b),
{
    let n = sim.bonds.len();
    for k in 0..n
        invariant
            n == sim.bonds@.len(),
            forall|j: int| 0 <= j < k ==> !#[trigger] bridges_via(*canon, catalog@, sim.bonds@[j], a, b),
    {
        let bd = &sim.bonds[k];
        if ((bd.tile_a == a && bd.tile_b == b) || (bd.tile_a == b && bd.tile_b == a))
            && card_carries_static_exception(canon, catalog, bd.card, RuleException::BondHoldsUnlessSeparated)
        {
            assert(bridges_via(*canon, catalog@, sim.bonds@[k as int], a, b));
            return true;
        }
    }
    false
}


/// The text of each name in a list.
pub open spec fn names_of(v: Seq<String>) -> Seq<Seq<char>> {
    v.map_values(|s: String| s@)
}

/// The Imprints a spirit carries itself: its card's, unless its traits are blanked.
pub open spec fn own_imprints(sim: GameState, catalog: Seq<CardDef>, sp: Spirit) -> Seq<Seq<char>> {
    if sp.spec_traits_blanked(sim.round) { Seq::empty() } else { names_of(spec_card(catalog, sp.card).imprints@) }
}

/// The Imprints lent to the spirit on `t` through the first `n` Bonds: a Twin-Telling
/// (`PairSharesImprints`) partner's own, unless its traits are blanked.
pub open spec fn lent_imprints(sim: GameState, canon: Canon, catalog: Seq<CardDef>, t: u8, n: int) -> Seq<Seq<char>>
    decreases n,
{
    if n <= 0 {
        Seq::empty()
    } else {
        let prev = lent_imprints(sim, canon, catalog, t, n - 1);
        let b = sim.bonds@[n - 1];
        let other = if b.tile_a == t { Some(b.tile_b) } else if b.tile_b == t { Some(b.tile_a) } else { None };
        match other {
            Some(o) => match sim.spec_spirit_at(o) {
                Some(osp) => if spec_card_static_has(canon, catalog, b.card, ClauseTest::AnyException(RuleException::PairSharesImprints))
                    && !osp.spec_traits_blanked(sim.round) {
                    prev + names_of(spec_card(catalog, osp.card).imprints@)
                } else {
                    prev
                },
                None => prev,
            },
            None => prev,
        }
    }
}

/// The Imprints the spirit on `t` carries for a Throughline: its own, then those its
/// Twin-Telling partners lend, in Bond order (none on an empty tile).
pub open spec fn spec_throughline_imprints(sim: GameState, canon: Canon, catalog: Seq<CardDef>, t: u8) -> Seq<Seq<char>> {
    match sim.spec_spirit_at(t) {
        None => Seq::empty(),
        Some(sp) => own_imprints(sim, catalog, sp) + lent_imprints(sim, canon, catalog, t, sim.bonds@.len() as int),
    }
}

fn push_names(out: &mut Vec<String>, names: &Vec<String>)
    ensures
        names_of(final(out)@) == names_of(old(out)@) + names_of(names@),
{
    let ghost start = out@;
    let n = names.len();
    for i in 0..n
        invariant
            n == names@.len(),
            names_of(out@) == names_of(start) + names_of(names@.subrange(0, i as int)),
    {
        let ghost before = out@;
        let t = text_of(names[i].as_str());
        assert(t@ == names@[i as int]@);
        out.push(t);
        assert(out@ == before.push(t));
        assert(names_of(out@) =~= names_of(before).push(t@));
        assert(names_of(names@.subrange(0, i + 1)) =~= names_of(names@.subrange(0, i as int)).push(names@[i as int]@));
        assert(names_of(out@) =~= names_of(start) + names_of(names@.subrange(0, i + 1)));
    }
    assert(names@.subrange(0, n as int) =~= names@);
}

/// The Imprints the spirit at `t` carries for Throughline matching: its own (unless its
/// traits are blanked), plus a Twin-Telling-bonded partner's.
pub fn throughline_imprints(sim: &GameState, canon: &Canon, catalog: &[CardDef], t: u8) -> (r: Vec<String>)
    requires
        cards_known(*sim, catalog@),
    ensures
        names_of(r@) == spec_throughline_imprints(*sim, *canon, catalog@, t),
{
    let sp = match sim.spirit_at(t) {
        Some(sp) => sp,
        None => return Vec::new(),
    };
    proof {
        assert(sim.board@[t as int].spirit == Some(*sp));
        assert(catalog_has(catalog@, sp.card));
    }
    let mut ims: Vec<String> = Vec::new();
    if !sp.traits_blanked(sim.round) {
        push_names(&mut ims, &card(catalog, sp.card).imprints);
    }
    assert(names_of(ims@) =~= own_imprints(*sim, catalog@, *sp));
    let ghost own = names_of(ims@);
    let n = sim.bonds.len();
    for k in 0..n
        invariant
            n == sim.bonds@.len(),
            cards_known(*sim, catalog@),
            names_of(ims@) == own + lent_imprints(*sim, *canon, catalog@, t, k as int),
    {
        let b = &sim.bonds[k];
        let other: Option<u8> = if b.tile_a == t { Some(b.tile_b) } else if b.tile_b == t { Some(b.tile_a) } else { None };
        let ghost before = names_of(ims@);
        match other {
            Some(o) => match sim.spirit_at(o) {
                Some(osp) => {
                    if card_carries_static_exception(canon, catalog, b.card, RuleException::PairSharesImprints) && !osp.traits_blanked(sim.round) {
                        proof {
                            assert(sim.board@[o as int].spirit == Some(*osp));
                            assert(catalog_has(catalog@, osp.card));
                        }
                        push_names(&mut ims, &card(catalog, osp.card).imprints);
                    }
                },
                None => {},
            },
            None => {},
        }
        assert(names_of(ims@) =~= own + lent_imprints(*sim, *canon, catalog@, t, k + 1));
    }
    ims
}

/// The spirit at `t` is an allied (to `owner`), non-fading Throughline link carrying the
/// Imprint `im` — or a wildcard (`AllImprintsShared` counts as every Imprint).
pub open spec fn spec_throughline_link(sim: GameState, canon: Canon, catalog: Seq<CardDef>, t: u8, owner: Seat, im: Seq<char>) -> bool {
    sim.spec_spirit_at(t) matches Some(sp) && !sp.fading && sp.owner == owner
        && (spec_card_static_has(canon, catalog, sp.card, ClauseTest::AnyException(RuleException::AllImprintsShared))
            || spec_throughline_imprints(sim, canon, catalog, t).contains(im))
}

fn names_contain(v: &Vec<String>, im: &str) -> (r: bool)
    ensures
        r == names_of(v@).contains(im@),
{
    let target = text_of(im);
    let n = v.len();
    for i in 0..n
        invariant
            n == v@.len(),
            target@ == im@,
            forall|k: int| 0 <= k < i ==> (#[trigger] v@[k])@ != im@,
    {
        if v[i] == target {
            assert(names_of(v@)[i as int] == im@);
            return true;
        }
    }
    assert forall|k: int| 0 <= k < names_of(v@).len() implies names_of(v@)[k] != im@ by {
        assert(names_of(v@)[k] == v@[k]@);
    }
    false
}

/// Whether the spirit at `t` is an allied, non-fading Throughline link carrying `im`.
pub fn throughline_link(sim: &GameState, canon: &Canon, catalog: &[CardDef], t: u8, owner: Seat, im: &str) -> (r: bool)
    requires
        cards_known(*sim, catalog@),
    ensures
        r == spec_throughline_link(*sim, *canon, catalog@, t, owner, im@),
{
    let sp = match sim.spirit_at(t) {
        Some(sp) => sp,
        None => return false,
    };
    if sp.fading || sp.owner != owner {
        return false;
    }
    card_carries_static_exception(canon, catalog, sp.card, RuleException::AllImprintsShared)
        || names_contain(&throughline_imprints(sim, canon, catalog, t), im)
}

/// A step of one tile along a row or column.
pub open spec fn unit_step(sx: int, sy: int) -> bool {
    (sx == 0 && (sy == 1 || sy == -1)) || (sy == 0 && (sx == 1 || sx == -1))
}

/// How many steps remain before the walk from column `px`, row `py` leaves a `w`-wide board.
pub open spec fn steps_left(px: int, py: int, sx: int, sy: int, w: int) -> int {
    if sx > 0 { w - px } else if sx < 0 { px + 1 } else if sy > 0 { w - py } else { py + 1 }
}

/// The links a Throughline run gains walking from the link on tile `prev` (column `px`,
/// row `py`) by `(sx, sy)`: each next allied link carrying `im` counts, and once per
/// direction an empty tile may be crossed when an Unbreakable Bond bridges it to the link
/// beyond.
pub open spec fn run_walk(sim: GameState, canon: Canon, catalog: Seq<CardDef>, owner: Seat, im: Seq<char>, prev: u8, px: int, py: int, sx: int, sy: int, gap_used: bool) -> nat
    decreases steps_left(px, py, sx, sy, sim.board_w as int),
{
    let w = sim.board_w;
    if !unit_step(sx, sy) {
        0
    } else {
        match spec_xy_tile_w(px + sx, py + sy, w) {
            None => 0,
            Some(next) => if spec_throughline_link(sim, canon, catalog, next, owner, im) {
                1 + run_walk(sim, canon, catalog, owner, im, next, px + sx, py + sy, sx, sy, gap_used)
            } else if !gap_used && sim.spec_spirit_at(next) is None {
                match spec_xy_tile_w(px + 2 * sx, py + 2 * sy, w) {
                    Some(beyond) => if spec_throughline_link(sim, canon, catalog, beyond, owner, im)
                        && spec_unbreakable_bridges(sim, canon, catalog, prev, beyond) {
                        1 + run_walk(sim, canon, catalog, owner, im, beyond, px + 2 * sx, py + 2 * sy, sx, sy, true)
                    } else {
                        0
                    },
                    None => 0,
                }
            } else {
                0
            },
        }
    }
}

/// The length of the straight Throughline run through `tile` along `(dx, dy)` for Imprint
/// `im`: the tile itself plus the links walked in each direction.
pub open spec fn spec_throughline_run(sim: GameState, canon: Canon, catalog: Seq<CardDef>, tile: u8, owner: Seat, im: Seq<char>, dx: int, dy: int) -> nat {
    let (x, y) = spec_tile_xy_w(tile, sim.board_w);
    1 + run_walk(sim, canon, catalog, owner, im, tile, x as int, y as int, dx, dy, false)
        + run_walk(sim, canon, catalog, owner, im, tile, x as int, y as int, -dx, -dy, false)
}

#[verifier::rlimit(40)]
fn walk(sim: &GameState, canon: &Canon, catalog: &[CardDef], owner: Seat, im: &str, tile: u8, sx: i8, sy: i8) -> (r: usize)
    requires
        sim.wf(),
        cards_known(*sim, catalog@),
        unit_step(sx as int, sy as int),
        (tile as int) < sim.board@.len(),
    ensures
        r == run_walk(*sim, *canon, catalog@, owner, im@, tile, spec_tile_xy_w(tile, sim.board_w).0 as int,
            spec_tile_xy_w(tile, sim.board_w).1 as int, sx as int, sy as int, false),
        r <= 64,
{
    let w = sim.board_w;
    proof {
        lemma_wf_small(*sim);
    }
    let (x0, y0) = tile_xy_w(tile, w);
    let ghost total = run_walk(*sim, *canon, catalog@, owner, im@, tile, x0 as int, y0 as int, sx as int, sy as int, false);
    let mut count: usize = 0;
    let mut gap_used = false;
    let mut prev = tile;
    let mut px: i8 = x0;
    let mut py: i8 = y0;
    loop
        invariant
            sim.wf(),
            cards_known(*sim, catalog@),
            w == sim.board_w,
            unit_step(sx as int, sy as int),
            0 <= px < w,
            0 <= py < w,
            count <= 64,
            count + run_walk(*sim, *canon, catalog@, owner, im@, prev, px as int, py as int, sx as int, sy as int, gap_used) == total,
            count as int + steps_left(px as int, py as int, sx as int, sy as int, w as int) <= w,
        ensures
            count == total,
            count <= 64,
        decreases steps_left(px as int, py as int, sx as int, sy as int, w as int),
    {
        let nx: i8 = px + sx;
        let ny: i8 = py + sy;
        let next = match xy_tile_w(nx, ny, w) {
            Some(t) => t,
            None => break,
        };
        if throughline_link(sim, canon, catalog, next, owner, im) {
            count = count + 1;
            prev = next;
            px = nx;
            py = ny;
            continue;
        }
        if !gap_used && sim.spirit_at(next).is_none() {
            let bx: i8 = nx + sx;
            let by: i8 = ny + sy;
            match xy_tile_w(bx, by, w) {
                Some(beyond) => {
                    if throughline_link(sim, canon, catalog, beyond, owner, im) && unbreakable_bridges(sim, canon, catalog, prev, beyond) {
                        gap_used = true;
                        count = count + 1;
                        prev = beyond;
                        px = bx;
                        py = by;
                        continue;
                    }
                },
                None => {},
            }
        }
        break;
    }
    count
}

/// Length of the straight Throughline run through `tile` along axis `(dx, dy)` — `(1, 0)`
/// or `(0, 1)` — for Imprint `im`, allowing one Unbreakable-bridged one-tile gap per
/// direction.
pub fn throughline_run(sim: &GameState, canon: &Canon, catalog: &[CardDef], tile: u8, owner: Seat, im: &str, dx: i8, dy: i8) -> (r: usize)
    requires
        sim.wf(),
        cards_known(*sim, catalog@),
        (dx == 1 && dy == 0) || (dx == 0 && dy == 1),
        (tile as int) < sim.board@.len(),
    ensures
        r == spec_throughline_run(*sim, *canon, catalog@, tile, owner, im@, dx as int, dy as int),
{
    let a = walk(sim, canon, catalog, owner, im, tile, dx, dy);
    let b = walk(sim, canon, catalog, owner, im, tile, -dx, -dy);
    1 + a + b
}


/// The Imprints the neighbour of `tile` at offset `(dx, dy)` offers a completion: a
/// standing spirit of `owner` there lends its Throughline Imprints.
pub open spec fn neighbour_imprints(sim: GameState, canon: Canon, catalog: Seq<CardDef>, tile: u8, owner: Seat, dx: int, dy: int) -> Seq<Seq<char>> {
    let (cx, cy) = spec_tile_xy_w(tile, sim.board_w);
    match spec_xy_tile_w(cx + dx, cy + dy, sim.board_w) {
        Some(n) => if (sim.spec_spirit_at(n) matches Some(s) && !s.fading && s.owner == owner) {
            spec_throughline_imprints(sim, canon, catalog, n)
        } else {
            Seq::empty()
        },
        None => Seq::empty(),
    }
}

/// The Imprints a completion at `tile` tries: the tile's own, then its orthogonal allied
/// neighbours' (right, left, below, above) — so a wildcard can complete on whatever
/// Imprint its line uses.
pub open spec fn completion_candidates(sim: GameState, canon: Canon, catalog: Seq<CardDef>, tile: u8, owner: Seat) -> Seq<Seq<char>> {
    spec_throughline_imprints(sim, canon, catalog, tile)
        + neighbour_imprints(sim, canon, catalog, tile, owner, 1, 0)
        + neighbour_imprints(sim, canon, catalog, tile, owner, -1, 0)
        + neighbour_imprints(sim, canon, catalog, tile, owner, 0, 1)
        + neighbour_imprints(sim, canon, catalog, tile, owner, 0, -1)
}

/// Candidate Imprint `k` runs three or more along a row or a column through `tile`.
pub open spec fn completes_with(sim: GameState, canon: Canon, catalog: Seq<CardDef>, tile: u8, owner: Seat, cands: Seq<Seq<char>>, k: int) -> bool {
    spec_throughline_run(sim, canon, catalog, tile, owner, cands[k], 1, 0) >= 3
        || spec_throughline_run(sim, canon, catalog, tile, owner, cands[k], 0, 1) >= 3
}

/// The standing, not-yet-rewarded spirit of `owner` on `tile` completes a Throughline: a
/// straight line of three or more allied links sharing one candidate Imprint.
pub open spec fn spec_throughline_completes(sim: GameState, canon: Canon, catalog: Seq<CardDef>, tile: u8, owner: Seat) -> bool {
    let cands = completion_candidates(sim, canon, catalog, tile, owner);
    sim.spec_spirit_at(tile) matches Some(sp) && !sp.fading && sp.owner == owner && !sp.throughline_done
        && exists|k: int| 0 <= k < cands.len() && #[trigger] completes_with(sim, canon, catalog, tile, owner, cands, k)
}

/// The owner's extra completion buff (Queen of the Quiet Garden).
pub open spec fn completion_grant(sim: GameState, canon: Canon, catalog: Seq<CardDef>, owner: Seat) -> (i16, i16) {
    wrap_pair(spec_board_sum(sim, canon, catalog, TileFilter::SpiritsOf { seat: owner, face_up: true }, ClauseTally::AnyThroughlineGrant))
}

/// The completion reward: +10/+10 plus the owner's extra buff, when the Throughline
/// completes.
pub open spec fn spec_throughline_completion(sim: GameState, canon: Canon, catalog: Seq<CardDef>, tile: u8, owner: Seat) -> Option<(i16, i16)> {
    if spec_throughline_completes(sim, canon, catalog, tile, owner) {
        let (qa, qd) = completion_grant(sim, canon, catalog, owner);
        Some(((10 + qa) as i16, (10 + qd) as i16))
    } else {
        None
    }
}

fn add_neighbour(sim: &GameState, canon: &Canon, catalog: &[CardDef], tile: u8, owner: Seat, dx: i8, dy: i8, cands: &mut Vec<String>)
    requires
        sim.wf(),
        cards_known(*sim, catalog@),
        -1 <= dx <= 1,
        -1 <= dy <= 1,
        (tile as int) < sim.board@.len(),
    ensures
        names_of(final(cands)@) == names_of(old(cands)@) + neighbour_imprints(*sim, *canon, catalog@, tile, owner, dx as int, dy as int),
{
    proof {
        lemma_wf_small(*sim);
    }
    let (cx, cy) = tile_xy_w(tile, sim.board_w);
    match xy_tile_w(cx + dx, cy + dy, sim.board_w) {
        Some(n) => {
            let allied = match sim.spirit_at(n) {
                Some(s) => !s.fading && s.owner == owner,
                None => false,
            };
            if allied {
                let more = throughline_imprints(sim, canon, catalog, n);
                push_names(cands, &more);
            } else {
                assert(names_of(cands@) =~= names_of(cands@) + Seq::<Seq<char>>::empty());
            }
        },
        None => {
            assert(names_of(cands@) =~= names_of(cands@) + Seq::<Seq<char>>::empty());
        },
    }
}

/// After an arrival or move: whether the standing spirit of `owner` on `tile` now completes
/// a Throughline (a straight line of three or more allied spirits sharing one Imprint, the
/// Errata wildcard, Twin-Telling pools and one Unbreakable-bridged gap counted), and the
/// buff it then gains — +10/+10 plus the owner's Queen of the Quiet Garden grant.
#[verifier::loop_isolation(false)]
pub fn throughline_completion(sim: &GameState, canon: &Canon, catalog: &[CardDef], tile: u8, owner: Seat) -> (r: Option<(i16, i16)>)
    requires
        sim.wf(),
        cards_known(*sim, catalog@),
        spec_throughline_completes(*sim, *canon, catalog@, tile, owner) ==> {
            let (qa, qd) = completion_grant(*sim, *canon, catalog@, owner);
            10 + qa <= i16::MAX && 10 + qd <= i16::MAX
        },
    ensures
        r == spec_throughline_completion(*sim, *canon, catalog@, tile, owner),
{
    let sp = match sim.spirit_at(tile) {
        Some(sp) => sp,
        None => return None,
    };
    if sp.fading || sp.owner != owner || sp.throughline_done {
        return None;
    }
    let mut cands = throughline_imprints(sim, canon, catalog, tile);
    add_neighbour(sim, canon, catalog, tile, owner, 1, 0, &mut cands);
    add_neighbour(sim, canon, catalog, tile, owner, -1, 0, &mut cands);
    add_neighbour(sim, canon, catalog, tile, owner, 0, 1, &mut cands);
    add_neighbour(sim, canon, catalog, tile, owner, 0, -1, &mut cands);
    let ghost cs = completion_candidates(*sim, *canon, catalog@, tile, owner);
    assert(names_of(cands@) =~= cs);
    let n = cands.len();
    for k in 0..n
        invariant
            n == cands@.len(),
            sim.wf(),
            cards_known(*sim, catalog@),
            (tile as int) < sim.board@.len(),
            names_of(cands@) == cs,
            forall|j: int| 0 <= j < k ==> !#[trigger] completes_with(*sim, *canon, catalog@, tile, owner, cs, j),
    {
        let im = cands[k].as_str();
        assert(im@ == cs[k as int]);
        if throughline_run(sim, canon, catalog, tile, owner, im, 1, 0) >= 3 || throughline_run(sim, canon, catalog, tile, owner, im, 0, 1) >= 3 {
            assert(completes_with(*sim, *canon, catalog@, tile, owner, cs, k as int));
            let (qa, qd) = throughline_grant(sim, canon, catalog, owner);
            return Some((10 + qa, 10 + qd));
        }
    }
    None
}

/// After an arrival or move: when the spirit on `tile` completes a Throughline, it gains
/// the completion buff (`throughline_completion`), recorded as `ThroughlineCompleted`. The
/// answer is whether it did, for the caller to fire the owner's Throughline riders.
pub fn check_throughline(sim: &mut GameState, evs: &mut Vec<crate::events::Event>, canon: &Canon, catalog: &[CardDef], tile: u8, owner: Seat) -> (completed: bool)
    requires
        old(sim).wf(),
        cards_known(*old(sim), catalog@),
        spec_throughline_completes(*old(sim), *canon, catalog@, tile, owner) ==> {
            let (qa, qd) = completion_grant(*old(sim), *canon, catalog@, owner);
            10 + qa <= i16::MAX && 10 + qd <= i16::MAX
        },
        spec_throughline_completion(*old(sim), *canon, catalog@, tile, owner) matches Some((a, d)) ==> crate::events::event_ok(
            *old(sim), crate::events::Event::ThroughlineCompleted { tile, attack: a, defense: d }),
    ensures
        match spec_throughline_completion(*old(sim), *canon, catalog@, tile, owner) {
            Some((a, d)) => {
                &&& completed
                &&& crate::events::spec_applied(*old(sim), crate::events::Event::ThroughlineCompleted { tile, attack: a, defense: d }, *final(sim))
                &&& final(evs)@ == old(evs)@.push(crate::events::Event::ThroughlineCompleted { tile, attack: a, defense: d })
            },
            None => !completed && *final(sim) == *old(sim) && final(evs)@ == old(evs)@,
        },
{
    match throughline_completion(sim, canon, catalog, tile, owner) {
        Some((attack, defense)) => {
            crate::flow::push(sim, evs, crate::events::Event::ThroughlineCompleted { tile, attack, defense });
            true
        },
        None => false,
    }
}

} // verus!
