//! Bond riders on an exchange — Pack Tactics' pre-chip, Conspiracy's counter-engage, the
//! Promise and Grief Split redirects — and the Parting doctrine's target pick.
use vstd::prelude::*;

use crate::auras::{lemma_wf_small, spec_static_has, static_has, ClauseTest};
use crate::cards::{card, catalog_has, key_of, spec_card, spec_key_of};
use crate::conditions::{manhattan, spec_manhattan};
use crate::effects::{spec_specs_get, Canon, Clause, Condition, Effect, EffectSpec, Replacement, Selector, Trigger};
use crate::keywords::{pair_live, spec_pair_live};
use crate::projection::{cards_known, oriented_w, spec_oriented_w};
use crate::state::{Bond, GameState};
use crate::types::{CardDef, CardId, Seat};

verus! {

/// Every Bond's card is in the catalog.
pub open spec fn bonds_known(sim: GameState, catalog: Seq<CardDef>) -> bool {
    forall|k: int| 0 <= k < sim.bonds@.len() ==> catalog_has(catalog, (#[trigger] sim.bonds@[k]).card)
}

/// The first Bond, at or after index `i`, with an end on `tile`.
pub open spec fn first_bond_from(bonds: Seq<Bond>, tile: u8, i: int) -> Option<int>
    decreases bonds.len() - i,
{
    if i < 0 || i >= bonds.len() {
        None
    } else if bonds[i].tile_a == tile || bonds[i].tile_b == tile {
        Some(i)
    } else {
        first_bond_from(bonds, tile, i + 1)
    }
}

/// The other end of a Bond with an end on `tile`.
pub open spec fn partner_of(b: Bond, tile: u8) -> u8 {
    if b.tile_a == tile { b.tile_b } else { b.tile_a }
}

/// The authored specs of a card, found by its canon name.
pub open spec fn named_specs(canon: Canon, catalog: Seq<CardDef>, id: CardId) -> Option<Seq<EffectSpec>> {
    spec_specs_get(canon.effects, spec_key_of(canon.catalog@, spec_card(catalog, id).name@))
}

/// The first `BondedPair / GrantEngage` pre-chip above 0 among clauses `j..`.
pub open spec fn first_chip_clauses(cls: Seq<Clause>, j: int) -> Option<i16>
    decreases cls.len() - j,
{
    if j < 0 || j >= cls.len() {
        None
    } else {
        match cls[j].effect {
            Effect::GrantEngage { pre_chip, .. } => if pre_chip > 0 && cls[j].selector is BondedPair { Some(pre_chip) } else { first_chip_clauses(cls, j + 1) },
            _ => first_chip_clauses(cls, j + 1),
        }
    }
}

/// The first pre-chip among the Static specs `i..`.
pub open spec fn first_chip_specs(specs: Seq<EffectSpec>, i: int) -> Option<i16>
    decreases specs.len() - i,
{
    if i < 0 || i >= specs.len() {
        None
    } else if specs[i].trigger is Static && first_chip_clauses(specs[i].clauses@, 0) is Some {
        first_chip_clauses(specs[i].clauses@, 0)
    } else {
        first_chip_specs(specs, i + 1)
    }
}

/// The partner on `partner` can deal a proactive blow at `target`: it stands, may engage
/// this round, and has `target` in its Reach.
pub open spec fn partner_strikes(sim: GameState, catalog: Seq<CardDef>, partner: u8, target: u8) -> bool {
    sim.spec_spirit_at(partner) matches Some(psp) && psp.no_engage_until < sim.round
        && spec_oriented_w(spec_card(catalog, psp.card).reach, partner, psp.owner, sim.board_w).contains(target)
}

/// Pack Tactics: the pre-chip the attacker's first Bond grants — when the pair is live, its
/// card grants one, and the partner has the defender in Reach and may engage.
pub open spec fn spec_pack_tactics_chip(sim: GameState, canon: Canon, catalog: Seq<CardDef>, att_tile: u8, def_tile: u8) -> Option<i16> {
    match first_bond_from(sim.bonds@, att_tile, 0) {
        None => None,
        Some(k) => {
            let b = sim.bonds@[k];
            let partner = partner_of(b, att_tile);
            if !spec_pair_live(sim, b) {
                None
            } else {
                match named_specs(canon, catalog, b.card) {
                    None => None,
                    Some(specs) => match first_chip_specs(specs, 0) {
                        None => None,
                        Some(chip) => if partner_strikes(sim, catalog, partner, def_tile) { Some(chip) } else { None },
                    },
                }
            }
        },
    }
}

fn tiles_contain(v: &Vec<u8>, t: u8) -> (r: bool)
    ensures
        r == v@.contains(t),
{
    let n = v.len();
    for i in 0..n
        invariant
            n == v@.len(),
            forall|k: int| 0 <= k < i ==> v@[k] != t,
    {
        if v[i] == t {
            assert(v@[i as int] == t);
            return true;
        }
    }
    false
}

pub(crate) fn first_bond(sim: &GameState, tile: u8) -> (r: Option<usize>)
    ensures
        match r {
            Some(k) => first_bond_from(sim.bonds@, tile, 0) == Some(k as int) && k < sim.bonds@.len(),
            None => first_bond_from(sim.bonds@, tile, 0) is None,
        },
{
    let n = sim.bonds.len();
    for i in 0..n
        invariant
            n == sim.bonds@.len(),
            first_bond_from(sim.bonds@, tile, 0) == first_bond_from(sim.bonds@, tile, i as int),
    {
        if sim.bonds[i].tile_a == tile || sim.bonds[i].tile_b == tile {
            return Some(i);
        }
    }
    None
}

pub(crate) fn named_specs_exec<'a>(canon: &'a Canon, catalog: &[CardDef], id: CardId) -> (r: Option<&'a Vec<EffectSpec>>)
    requires
        catalog_has(catalog@, id),
    ensures
        match r {
            Some(v) => named_specs(*canon, catalog@, id) == Some(v@),
            None => named_specs(*canon, catalog@, id) is None,
        },
{
    let name = &card(catalog, id).name;
    let key = key_of(canon.catalog.as_slice(), name.as_str());
    canon.effects.get(&key)
}

fn chip_in_clauses(cls: &Vec<Clause>) -> (r: Option<i16>)
    ensures
        r == first_chip_clauses(cls@, 0),
{
    let m = cls.len();
    for j in 0..m
        invariant
            m == cls@.len(),
            first_chip_clauses(cls@, 0) == first_chip_clauses(cls@, j as int),
    {
        let c = &cls[j];
        match &c.effect {
            Effect::GrantEngage { pre_chip, .. } => {
                if *pre_chip > 0 && matches!(c.selector, Selector::BondedPair) {
                    return Some(*pre_chip);
                }
            },
            _ => {},
        }
    }
    None
}

fn chip_in_specs(specs: &Vec<EffectSpec>) -> (r: Option<i16>)
    ensures
        r == first_chip_specs(specs@, 0),
{
    let n = specs.len();
    for i in 0..n
        invariant
            n == specs@.len(),
            first_chip_specs(specs@, 0) == first_chip_specs(specs@, i as int),
    {
        let s = &specs[i];
        if matches!(s.trigger, Trigger::Static) {
            let found = chip_in_clauses(&s.clauses);
            if found.is_some() {
                return found;
            }
        }
    }
    None
}

fn partner_strikes_exec(sim: &GameState, catalog: &[CardDef], partner: u8, target: u8) -> (r: bool)
    requires
        sim.wf(),
        cards_known(*sim, catalog@),
    ensures
        r == partner_strikes(*sim, catalog@, partner, target),
{
    match sim.spirit_at(partner) {
        None => false,
        Some(psp) => {
            if psp.no_engage_until >= sim.round {
                return false;
            }
            proof {
                assert(sim.board@[partner as int].spirit == Some(*psp));
                assert(catalog_has(catalog@, psp.card));
            }
            let reach = card(catalog, psp.card).reach;
            tiles_contain(&oriented_w(reach, partner, psp.owner, sim.board_w), target)
        },
    }
}

/// Pack Tactics: the proactive pre-chip the attacker on `att_tile`'s Bond partner deals the
/// defender on `def_tile`, if any.
pub fn pack_tactics_chip(sim: &GameState, canon: &Canon, catalog: &[CardDef], att_tile: u8, def_tile: u8) -> (r: Option<i16>)
    requires
        sim.wf(),
        cards_known(*sim, catalog@),
        bonds_known(*sim, catalog@),
    ensures
        r == spec_pack_tactics_chip(*sim, *canon, catalog@, att_tile, def_tile),
{
    let k = match first_bond(sim, att_tile) {
        Some(k) => k,
        None => return None,
    };
    let b = &sim.bonds[k];
    if !pair_live(sim, b) {
        return None;
    }
    let partner = if b.tile_a == att_tile { b.tile_b } else { b.tile_a };
    proof {
        assert(catalog_has(catalog@, sim.bonds@[k as int].card));
    }
    let specs = match named_specs_exec(canon, catalog, b.card) {
        Some(s) => s,
        None => return None,
    };
    let chip = match chip_in_specs(specs) {
        Some(c) => c,
        None => return None,
    };
    if partner_strikes_exec(sim, catalog, partner, def_tile) { Some(chip) } else { None }
}

/// Conspiracy: when the defender's first Bond is live and grants an immediate
/// counter-engage, the partner that has the attacker in Reach (and may engage) strikes
/// back: its tile and owner.
pub open spec fn spec_conspiracy_counter(sim: GameState, canon: Canon, catalog: Seq<CardDef>, def_tile: u8, att_tile: u8) -> Option<(u8, Seat)> {
    match first_bond_from(sim.bonds@, def_tile, 0) {
        None => None,
        Some(k) => {
            let b = sim.bonds@[k];
            let partner = partner_of(b, def_tile);
            if !spec_pair_live(sim, b) {
                None
            } else {
                match named_specs(canon, catalog, b.card) {
                    None => None,
                    Some(specs) => if spec_static_has(specs, ClauseTest::PairCounterEngage) && partner_strikes(sim, catalog, partner, att_tile) {
                        Some((partner, sim.spec_spirit_at(partner)->0.owner))
                    } else {
                        None
                    },
                }
            }
        },
    }
}

/// Conspiracy: the partner that counter-engages the attacker on `att_tile` when the
/// spirit on `def_tile` is engaged, with its owner; the caller runs the engage.
pub fn conspiracy_counter(sim: &GameState, canon: &Canon, catalog: &[CardDef], def_tile: u8, att_tile: u8) -> (r: Option<(u8, Seat)>)
    requires
        sim.wf(),
        cards_known(*sim, catalog@),
        bonds_known(*sim, catalog@),
    ensures
        r == spec_conspiracy_counter(*sim, *canon, catalog@, def_tile, att_tile),
{
    let k = match first_bond(sim, def_tile) {
        Some(k) => k,
        None => return None,
    };
    let b = &sim.bonds[k];
    if !pair_live(sim, b) {
        return None;
    }
    let partner = if b.tile_a == def_tile { b.tile_b } else { b.tile_a };
    proof {
        assert(catalog_has(catalog@, sim.bonds@[k as int].card));
    }
    let specs = match named_specs_exec(canon, catalog, b.card) {
        Some(s) => s,
        None => return None,
    };
    if !static_has(specs.as_slice(), ClauseTest::PairCounterEngage) {
        return None;
    }
    if !partner_strikes_exec(sim, catalog, partner, att_tile) {
        return None;
    }
    match sim.spirit_at(partner) {
        Some(psp) => Some((partner, psp.owner)),
        None => None,
    }
}

/// Which redirect a clause of a Static spec (with `cond`) offers: `Some(true)` the
/// Promise's full redirect (once per match, while the saved spirit's latch is unspent),
/// `Some(false)` Grief Split's overflow redirect (while the pair is live).
pub open spec fn redirect_of(c: Clause, cond: Condition, saved_used: bool, live: bool) -> Option<bool> {
    match c.effect {
        Effect::Replace(Replacement::PartnerTakesIt) => if cond is OncePerMatch && !saved_used { Some(true) } else { None },
        Effect::RedirectDamageToPartner => if live { Some(false) } else { None },
        _ => None,
    }
}

/// The first redirect among clauses `j..`.
pub open spec fn first_redirect_clauses(cls: Seq<Clause>, j: int, cond: Condition, saved_used: bool, live: bool) -> Option<bool>
    decreases cls.len() - j,
{
    if j < 0 || j >= cls.len() {
        None
    } else if redirect_of(cls[j], cond, saved_used, live) is Some {
        redirect_of(cls[j], cond, saved_used, live)
    } else {
        first_redirect_clauses(cls, j + 1, cond, saved_used, live)
    }
}

/// The first redirect among the Static specs `i..`.
pub open spec fn first_redirect_specs(specs: Seq<EffectSpec>, i: int, saved_used: bool, live: bool) -> Option<bool>
    decreases specs.len() - i,
{
    if i < 0 || i >= specs.len() {
        None
    } else if specs[i].trigger is Static && first_redirect_clauses(specs[i].clauses@, 0, specs[i].condition, saved_used, live) is Some {
        first_redirect_clauses(specs[i].clauses@, 0, specs[i].condition, saved_used, live)
    } else {
        first_redirect_specs(specs, i + 1, saved_used, live)
    }
}

/// Promise / Grief Split: for a lethal blow `dmg` on the spirit at `def_tile` (at `hp`),
/// the partner of its first Bond, when standing, bears it — the whole blow for a Promise
/// (spent), the overflow past 1 HP for Grief Split: `(partner, redirected, spent)`.
pub open spec fn spec_damage_redirect(sim: GameState, canon: Canon, catalog: Seq<CardDef>, def_tile: u8, hp: i16, dmg: i16) -> Option<(u8, i16, bool)> {
    if dmg < hp {
        None
    } else {
        match first_bond_from(sim.bonds@, def_tile, 0) {
            None => None,
            Some(k) => {
                let b = sim.bonds@[k];
                let partner = partner_of(b, def_tile);
                if !(sim.spec_spirit_at(partner) matches Some(p) && !p.fading) {
                    None
                } else {
                    match named_specs(canon, catalog, b.card) {
                        None => None,
                        Some(specs) => {
                            let saved_used = match sim.spec_spirit_at(def_tile) {
                                Some(s) => s.replacement_used,
                                None => true,
                            };
                            match first_redirect_specs(specs, 0, saved_used, spec_pair_live(sim, b)) {
                                Some(true) => Some((partner, dmg, true)),
                                Some(false) => Some((partner, (dmg - (hp - 1)) as i16, false)),
                                None => None,
                            }
                        },
                    }
                }
            },
        }
    }
}

fn redirect_in_clauses(cls: &Vec<Clause>, cond: &Condition, saved_used: bool, live: bool) -> (r: Option<bool>)
    ensures
        r == first_redirect_clauses(cls@, 0, *cond, saved_used, live),
{
    let m = cls.len();
    for j in 0..m
        invariant
            m == cls@.len(),
            first_redirect_clauses(cls@, 0, *cond, saved_used, live) == first_redirect_clauses(cls@, j as int, *cond, saved_used, live),
    {
        match &cls[j].effect {
            Effect::Replace(Replacement::PartnerTakesIt) => {
                if matches!(cond, Condition::OncePerMatch) && !saved_used {
                    return Some(true);
                }
            },
            Effect::RedirectDamageToPartner => {
                if live {
                    return Some(false);
                }
            },
            _ => {},
        }
    }
    None
}

/// Grief Split / Promise: the partner that bears (part of) a lethal blow `dmg` on the
/// spirit at `def_tile` (at `hp`), how much it bears, and whether the Promise is spent.
#[verifier::loop_isolation(false)]
pub fn damage_redirect_to_partner(sim: &GameState, canon: &Canon, catalog: &[CardDef], def_tile: u8, hp: i16, dmg: i16) -> (r: Option<(u8, i16, bool)>)
    requires
        bonds_known(*sim, catalog@),
        dmg >= hp ==> hp > i16::MIN && dmg - hp + 1 <= i16::MAX,
    ensures
        r == spec_damage_redirect(*sim, *canon, catalog@, def_tile, hp, dmg),
{
    if dmg < hp {
        return None;
    }
    let k = match first_bond(sim, def_tile) {
        Some(k) => k,
        None => return None,
    };
    let b = &sim.bonds[k];
    let partner = if b.tile_a == def_tile { b.tile_b } else { b.tile_a };
    let stands = match sim.spirit_at(partner) {
        Some(p) => !p.fading,
        None => false,
    };
    if !stands {
        return None;
    }
    proof {
        assert(catalog_has(catalog@, sim.bonds@[k as int].card));
    }
    let specs = match named_specs_exec(canon, catalog, b.card) {
        Some(s) => s,
        None => return None,
    };
    let saved_used = match sim.spirit_at(def_tile) {
        Some(s) => s.replacement_used,
        None => true,
    };
    let live = pair_live(sim, b);
    let n = specs.len();
    for i in 0..n
        invariant
            n == specs@.len(),
            first_redirect_specs(specs@, 0, saved_used, live) == first_redirect_specs(specs@, i as int, saved_used, live),
    {
        let s = &specs[i];
        if matches!(s.trigger, Trigger::Static) {
            match redirect_in_clauses(&s.clauses, &s.condition, saved_used, live) {
                Some(true) => return Some((partner, dmg, true)),
                Some(false) => return Some((partner, dmg - (hp - 1), false)),
                None => {},
            }
        }
    }
    None
}

// ---------------------------------------------------------------------------
// Parting doctrine
// ---------------------------------------------------------------------------

/// Tile `i` holds a standing spirit one step from `source`: an ally of `owner`, or (for
/// `enemy`) a foe.
pub open spec fn doctrine_candidate(sim: GameState, enemy: bool, source: u8, owner: Seat, i: int) -> bool {
    sim.board@[i].spirit matches Some(sp) && !sp.fading && (if enemy { sp.owner != owner } else { sp.owner == owner })
        && spec_manhattan(source, i as u8) == 1
}

/// What the doctrine ranks a candidate by: its missing Form (HP below its maximum, as a
/// negative number) for a restore, else its Attack.
pub open spec fn doctrine_key(sim: GameState, restore: bool, i: int) -> int {
    let sp = sim.board@[i].spirit->0;
    if restore { sp.hp - sp.hp_max } else { sp.attack as int }
}

/// The doctrine's pick among the first `n` tiles: for a restore the first most wounded
/// candidate, otherwise the last of the highest Attack.
pub open spec fn doctrine_pick_prefix(sim: GameState, restore: bool, enemy: bool, source: u8, owner: Seat, n: int) -> Option<u8>
    decreases n,
{
    if n <= 0 {
        None
    } else {
        let prev = doctrine_pick_prefix(sim, restore, enemy, source, owner, n - 1);
        if doctrine_candidate(sim, enemy, source, owner, n - 1) {
            match prev {
                None => Some((n - 1) as u8),
                Some(p) => if restore {
                    if doctrine_key(sim, restore, n - 1) < doctrine_key(sim, restore, p as int) { Some((n - 1) as u8) } else { Some(p) }
                } else {
                    if doctrine_key(sim, restore, n - 1) >= doctrine_key(sim, restore, p as int) { Some((n - 1) as u8) } else { Some(p) }
                },
            }
        } else {
            prev
        }
    }
}

/// Parting doctrine: the dying don't deliberate. Among the standing allies (or enemies) one
/// step from the source, a restore finds the most wounded; anything else the highest
/// Attack. Other selectors pick nothing.
pub open spec fn spec_doctrine_pick(sim: GameState, sel: Selector, eff: Effect, source: u8, owner: Seat) -> Option<u8> {
    let restore = eff is RestoreForm;
    match sel {
        Selector::AdjacentAllyChoose => doctrine_pick_prefix(sim, restore, false, source, owner, sim.board@.len() as int),
        Selector::AdjacentEnemyChoose => doctrine_pick_prefix(sim, restore, true, source, owner, sim.board@.len() as int),
        _ => None,
    }
}

/// Every spirit's HP less its maximum fits in `i16`.
pub open spec fn wounds_fit(sim: GameState) -> bool {
    forall|i: int| 0 <= i < sim.board@.len() ==> ((#[trigger] sim.board@[i]).spirit matches Some(sp)
        ==> i16::MIN <= sp.hp - sp.hp_max <= i16::MAX)
}

/// The Parting doctrine's pick for a clause aimed by `sel` with effect `eff`.
pub fn doctrine_pick(sim: &GameState, sel: &Selector, eff: &Effect, source: u8, owner: Seat) -> (r: Option<u8>)
    requires
        sim.wf(),
        wounds_fit(*sim),
    ensures
        r == spec_doctrine_pick(*sim, *sel, *eff, source, owner),
{
    proof {
        lemma_wf_small(*sim);
    }
    let enemy = match sel {
        Selector::AdjacentAllyChoose => false,
        Selector::AdjacentEnemyChoose => true,
        _ => return None,
    };
    let restore = matches!(eff, Effect::RestoreForm { .. });
    let mut best: Option<u8> = None;
    let mut best_key: i16 = 0;
    let n = sim.board.len();
    for i in 0..n
        invariant
            n == sim.board@.len() <= 64,
            wounds_fit(*sim),
            best == doctrine_pick_prefix(*sim, restore, enemy, source, owner, i as int),
            best matches Some(p) ==> (p as int) < i && best_key as int == doctrine_key(*sim, restore, p as int)
                && sim.board@[p as int].spirit is Some,
    {
        match &sim.board[i].spirit {
            Some(sp) => {
                let side = if enemy { sp.owner != owner } else { sp.owner == owner };
                if !sp.fading && side && manhattan(source, i as u8) == 1 {
                    assert(doctrine_candidate(*sim, enemy, source, owner, i as int));
                    let key: i16 = if restore { sp.hp - sp.hp_max } else { sp.attack };
                    let take = match best {
                        None => true,
                        Some(_) => if restore { key < best_key } else { key >= best_key },
                    };
                    if take {
                        best = Some(i as u8);
                        best_key = key;
                    }
                }
            },
            None => {},
        }
    }
    best
}

} // verus!
