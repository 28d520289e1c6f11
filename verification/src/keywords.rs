//! Keywords in force on a spirit: printed, granted by a played card, or granted by a
//! standing aura (a Bond's pair, the Landmark underfoot, an adjacent ally).
use vstd::prelude::*;

use crate::auras::{card_static_has, spec_card_static_has, ClauseTest, GrantSource};
use crate::cards::{card, spec_card};
use crate::conditions::{manhattan, spec_manhattan};
use crate::effects::{Canon, Keyword};
use crate::projection::cards_known;
use crate::state::{Bond, GameState, Spirit};
use crate::types::CardDef;

verus! {

/// A Bond's pair is present and adjacent: both ends hold standing spirits one step apart.
pub open spec fn spec_pair_live(sim: GameState, b: Bond) -> bool {
    spec_manhattan(b.tile_a, b.tile_b) == 1
        && (sim.spec_spirit_at(b.tile_a) matches Some(s) && !s.fading)
        && (sim.spec_spirit_at(b.tile_b) matches Some(s) && !s.fading)
}

/// Whether a Bond's pair is present and adjacent.
pub fn pair_live(sim: &GameState, b: &Bond) -> (r: bool)
    ensures
        r == spec_pair_live(*sim, *b),
{
    let a_ok = match sim.spirit_at(b.tile_a) {
        Some(s) => !s.fading,
        None => false,
    };
    let b_ok = match sim.spirit_at(b.tile_b) {
        Some(s) => !s.fading,
        None => false,
    };
    manhattan(b.tile_a, b.tile_b) == 1 && a_ok && b_ok
}

/// Bond `k` joins `tile`, its pair is live, and its card grants `kw` to the pair.
pub open spec fn bond_grants_at(sim: GameState, canon: Canon, catalog: Seq<CardDef>, tile: u8, kw: Keyword, k: int) -> bool {
    let b = sim.bonds@[k];
    (b.tile_a == tile || b.tile_b == tile) && spec_pair_live(sim, b)
        && spec_card_static_has(canon, catalog, b.card, ClauseTest::Grant(GrantSource::BondedPair, kw))
}

/// Tile `i` holds a standing ally of `owner`, one step from `tile`, whose aura grants `kw`
/// to adjacent allies.
pub open spec fn ally_grants_at(sim: GameState, canon: Canon, catalog: Seq<CardDef>, tile: u8, owner: crate::types::Seat, kw: Keyword, i: int) -> bool {
    i != tile as int && spec_manhattan(i as u8, tile) == 1 && (sim.board@[i].spirit matches Some(sp)
        && !sp.fading && sp.owner == owner
        && spec_card_static_has(canon, catalog, sp.card, ClauseTest::Grant(GrantSource::AdjacentAlliesAll, kw)))
}

/// A Static keyword grant reaches `tile`: from a live Bond pair it belongs to, from the
/// face-up Landmark it stands on, or from an adjacent standing ally of the spirit there.
pub open spec fn spec_granted_keyword(sim: GameState, canon: Canon, catalog: Seq<CardDef>, tile: u8, kw: Keyword) -> bool {
    (exists|k: int| 0 <= k < sim.bonds@.len() && #[trigger] bond_grants_at(sim, canon, catalog, tile, kw, k))
    || (sim.board@[tile as int].terrain matches Some(terr) && !terr.face_down
        && spec_card_static_has(canon, catalog, terr.card, ClauseTest::Grant(GrantSource::OccupantHere, kw)))
    || (sim.spec_spirit_at(tile) matches Some(me) && exists|i: int| 0 <= i < sim.board@.len()
        && #[trigger] ally_grants_at(sim, canon, catalog, tile, me.owner, kw, i))
}

/// Static keyword grants reaching `tile`: a live bonded pair, the Landmark underfoot, or an
/// adjacent ally's aura.
pub fn granted_keyword(sim: &GameState, canon: &Canon, catalog: &[CardDef], tile: u8, kw: Keyword) -> (r: bool)
    requires
        sim.wf(),
        (tile as int) < sim.board@.len(),
    ensures
        r == spec_granted_keyword(*sim, *canon, catalog@, tile, kw),
{
    let nb = sim.bonds.len();
    for k in 0..nb
        invariant
            nb == sim.bonds@.len(),
            forall|j: int| 0 <= j < k ==> !#[trigger] bond_grants_at(*sim, *canon, catalog@, tile, kw, j),
    {
        let b = &sim.bonds[k];
        if (b.tile_a == tile || b.tile_b == tile) && pair_live(sim, b)
            && card_static_has(canon, catalog, b.card, ClauseTest::Grant(GrantSource::BondedPair, kw)) {
            assert(bond_grants_at(*sim, *canon, catalog@, tile, kw, k as int));
            return true;
        }
    }
    match &sim.board[tile as usize].terrain {
        Some(terr) => {
            if !terr.face_down && card_static_has(canon, catalog, terr.card, ClauseTest::Grant(GrantSource::OccupantHere, kw)) {
                return true;
            }
        },
        None => {},
    }
    let owner = match sim.spirit_at(tile) {
        Some(me) => me.owner,
        None => return false,
    };
    let n = sim.board.len();
    proof {
        assert(sim.board_w * sim.board_w <= 64) by (nonlinear_arith)
            requires
                2 <= sim.board_w <= 8,
        ;
    }
    for i in 0..n
        invariant
            n == sim.board@.len() <= 64,
            sim.spec_spirit_at(tile) matches Some(me) && me.owner == owner,
            forall|j: int| 0 <= j < i ==> !#[trigger] ally_grants_at(*sim, *canon, catalog@, tile, owner, kw, j),
    {
        if i as u8 != tile && manhattan(i as u8, tile) == 1 {
            match &sim.board[i].spirit {
                Some(sp) => {
                    if !sp.fading && sp.owner == owner
                        && card_static_has(canon, catalog, sp.card, ClauseTest::Grant(GrantSource::AdjacentAlliesAll, kw)) {
                        assert(ally_grants_at(*sim, *canon, catalog@, tile, owner, kw, i as int));
                        return true;
                    }
                },
                None => {},
            }
        }
    }
    false
}

/// The printed keyword flag a card carries (Lurk is never printed as a flag here).
pub open spec fn spec_printed_keyword(def: CardDef, kw: Keyword) -> bool {
    match kw {
        Keyword::Mobile => def.mobile,
        Keyword::Steadfast => def.steadfast,
        Keyword::Warded => def.warded,
        Keyword::Arcane => def.arcane,
        Keyword::Relentless => def.relentless,
        Keyword::Lurk => false,
    }
}

/// A played-card grant of `kw` on the spirit still runs this round.
pub open spec fn spec_played_grant(sp: Spirit, kw: Keyword, round: u8) -> bool {
    exists|i: int| 0 <= i < sp.kw_grants@.len() && (#[trigger] sp.kw_grants@[i]).0 == kw && sp.kw_grants@[i].1 >= round
}

/// The spirit on `tile` has keyword `kw`: printed on its card (unless its traits are blanked),
/// granted by a played card through this round, or granted by a standing aura.
pub open spec fn spec_keyword_active(sim: GameState, canon: Canon, catalog: Seq<CardDef>, tile: u8, kw: Keyword) -> bool {
    match sim.spec_spirit_at(tile) {
        None => false,
        Some(sp) => (!sp.spec_traits_blanked(sim.round) && spec_printed_keyword(spec_card(catalog, sp.card), kw))
            || spec_played_grant(sp, kw, sim.round)
            || spec_granted_keyword(sim, canon, catalog, tile, kw),
    }
}

/// Whether the spirit on `tile` has keyword `kw` — intrinsic on its card, granted by a
/// played card, or granted by a Static aura.
pub fn keyword_active(sim: &GameState, canon: &Canon, catalog: &[CardDef], tile: u8, kw: Keyword) -> (r: bool)
    requires
        sim.wf(),
        cards_known(*sim, catalog@),
    ensures
        r == spec_keyword_active(*sim, *canon, catalog@, tile, kw),
{
    let sp = match sim.spirit_at(tile) {
        Some(sp) => sp,
        None => return false,
    };
    let def = card(catalog, sp.card);
    let intrinsic = if sp.traits_blanked(sim.round) {
        false
    } else {
        match kw {
            Keyword::Mobile => def.mobile,
            Keyword::Steadfast => def.steadfast,
            Keyword::Warded => def.warded,
            Keyword::Arcane => def.arcane,
            Keyword::Relentless => def.relentless,
            Keyword::Lurk => false,
        }
    };
    let mut played = false;
    let m = sp.kw_grants.len();
    for i in 0..m
        invariant
            m == sp.kw_grants@.len(),
            played == exists|j: int| 0 <= j < i && (#[trigger] sp.kw_grants@[j]).0 == kw && sp.kw_grants@[j].1 >= sim.round,
    {
        let (k, until) = sp.kw_grants[i];
        if k == kw && until >= sim.round {
            played = true;
        }
    }
    intrinsic || played || granted_keyword(sim, canon, catalog, tile, kw)
}

/// Effective Warded of the defender on `tile` — intrinsic or aura-granted.
pub fn eff_warded(sim: &GameState, canon: &Canon, catalog: &[CardDef], tile: u8) -> (r: bool)
    requires
        sim.wf(),
        cards_known(*sim, catalog@),
    ensures
        r == spec_keyword_active(*sim, *canon, catalog@, tile, Keyword::Warded),
{
    keyword_active(sim, canon, catalog, tile, Keyword::Warded)
}

} // verus!
