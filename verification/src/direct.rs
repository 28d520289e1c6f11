//! Clauses that act at once, choice-free: the events a direct clause records, and what it
//! hands back undone: the damage, pushes and reveals whose banishment and displacement
//! this crate does not carry out.
use vstd::prelude::*;

use crate::at_flow::{drawn_count, min_int};
use crate::auras::lemma_wf_small;
use crate::cards::{card, spec_card};
use crate::combat::{has_imprint, imprints_contain};
use crate::conditions::{manhattan, spec_manhattan};
use crate::auras::{occupant_restricted, seat_grants_push_immunity, spec_seat_grants_push_immunity, spec_terrain_carries, ClauseTest};
use crate::effects::{Canon, Clause, Displacement, Duration, Effect, Keyword, Restriction, Selector};
use crate::keywords::{keyword_active, spec_keyword_active};
use crate::projection::{restricted, spec_restricted};
use crate::state::{spec_tile_open_for_arrival, tile_open_for_arrival};
use crate::tally::{impression_push_damage, spec_impression_push_damage};
use crate::events::{seat_get, AnimaReason, Event};
use crate::exchange::{first_bond, first_bond_from};
use crate::flow::{applicable, applies, push_all};
use crate::projection::cards_known;
use crate::state::{GameState, TerrainKind};
use crate::support::{spec_supported_instant_clause, supported_instant_clause};
use crate::targets::{
    banish_targets, effect_targets, release_targets, restore_targets, spec_effect_targets, spec_restore_targets,
    spec_targets_in_scope,
};
use crate::types::{CardDef, CardId, Resonance, Seat};

verus! {

// ---------------------------------------------------------------------------
// Who a direct clause reaches
// ---------------------------------------------------------------------------

/// A standing ally of `owner` on tile `i`, its traits intact, whose card carries `imprint`.
pub open spec fn imprint_ally(st: GameState, catalog: Seq<CardDef>, owner: Seat, imprint: Seq<char>, i: int) -> bool {
    &&& st.board@[i].spirit matches Some(sp)
    &&& !sp.fading
    &&& sp.owner == owner
    &&& !sp.spec_traits_blanked(st.round)
    &&& has_imprint(spec_card(catalog, sp.card).imprints@, imprint)
}

/// The tiles among the first `n` that hold such an ally, in board order.
pub open spec fn imprint_allies(st: GameState, catalog: Seq<CardDef>, owner: Seat, imprint: Seq<char>, n: int) -> Seq<u8>
    decreases n,
{
    if n <= 0 {
        Seq::empty()
    } else {
        imprint_allies(st, catalog, owner, imprint, n - 1)
            + if imprint_ally(st, catalog, owner, imprint, n - 1) { seq![(n - 1) as u8] } else { Seq::empty() }
    }
}

/// A standing spirit of `owner` on tile `i` whose card is of `res`.
pub open spec fn kin_at(st: GameState, catalog: Seq<CardDef>, owner: Seat, res: Resonance, i: int) -> bool {
    &&& st.board@[i].spirit matches Some(sp)
    &&& !sp.fading
    &&& sp.owner == owner
    &&& spec_card(catalog, sp.card).resonance == res
}

/// The tiles among the first `n` that hold such a spirit, in board order.
pub open spec fn kin_tiles(st: GameState, catalog: Seq<CardDef>, owner: Seat, res: Resonance, n: int) -> Seq<u8>
    decreases n,
{
    if n <= 0 {
        Seq::empty()
    } else {
        kin_tiles(st, catalog, owner, res, n - 1)
            + if kin_at(st, catalog, owner, res, n - 1) { seq![(n - 1) as u8] } else { Seq::empty() }
    }
}

/// Tile `t` is one step from one of `srcs`.
pub open spec fn near_any(srcs: Seq<u8>, t: u8) -> bool {
    exists|k: int| 0 <= k < srcs.len() && spec_manhattan(#[trigger] srcs[k], t) == 1
}

/// A standing enemy of `owner` on tile `i`, beside one of `srcs`.
pub open spec fn enemy_beside(st: GameState, owner: Seat, srcs: Seq<u8>, i: int) -> bool {
    &&& st.board@[i].spirit matches Some(sp)
    &&& !sp.fading
    &&& sp.owner != owner
    &&& near_any(srcs, i as u8)
}

/// The tiles among the first `n` that hold an enemy beside one of `srcs`, in board order.
pub open spec fn enemies_beside(st: GameState, owner: Seat, srcs: Seq<u8>, n: int) -> Seq<u8>
    decreases n,
{
    if n <= 0 {
        Seq::empty()
    } else {
        enemies_beside(st, owner, srcs, n - 1)
            + if enemy_beside(st, owner, srcs, n - 1) { seq![(n - 1) as u8] } else { Seq::empty() }
    }
}

/// Eruption's reach: the standing enemies beside any standing ally of `owner` of `res`.
pub open spec fn kin_enemies(st: GameState, catalog: Seq<CardDef>, owner: Seat, res: Resonance) -> Seq<u8> {
    let n = st.board@.len() as int;
    enemies_beside(st, owner, kin_tiles(st, catalog, owner, res, n), n)
}

/// Both ends of the first Bond with an end on the source.
pub open spec fn bonded_pair(st: GameState, source: Option<u8>) -> Seq<u8> {
    match source {
        Some(src) => match first_bond_from(st.bonds@, src, 0) {
            Some(k) => seq![st.bonds@[k].tile_a, st.bonds@[k].tile_b],
            None => Seq::empty(),
        },
        None => Seq::empty(),
    }
}

/// The face-down Fabrications of `enemy` among the first `n` tiles, in board order.
pub open spec fn hidden_fabrications(st: GameState, enemy: Seat, n: int) -> Seq<u8>
    decreases n,
{
    if n <= 0 {
        Seq::empty()
    } else {
        hidden_fabrications(st, enemy, n - 1) + match st.board@[n - 1].terrain {
            Some(t) => if t.owner == enemy && t.face_down && t.kind is Fabrication { seq![(n - 1) as u8] } else { Seq::empty() },
            None => Seq::empty(),
        }
    }
}

/// A standing spirit of `owner` on tile `i` (nothing off the board).
pub open spec fn ally_up(st: GameState, owner: Seat, i: int) -> bool {
    st.spec_spirit_at(i as u8) matches Some(s) && !s.fading && s.owner == owner
}

/// Tiles `i` and `j` both hold standing allies of `owner`, one step apart.
pub open spec fn allied_pair(st: GameState, owner: Seat, i: int, j: int) -> bool {
    spec_manhattan(i as u8, j as u8) == 1 && ally_up(st, owner, i) && ally_up(st, owner, j)
}

/// The partners `j` of tile `i` with `i < j < m`.
pub open spec fn row_pairs(st: GameState, owner: Seat, i: int, m: int) -> int
    decreases m - i,
{
    if m <= i + 1 {
        0
    } else {
        row_pairs(st, owner, i, m - 1) + if allied_pair(st, owner, i, m - 1) { 1int } else { 0int }
    }
}

/// The adjacent allied pairs whose lower tile is among the first `k`.
pub open spec fn allied_pairs(st: GameState, owner: Seat, k: int) -> int
    decreases k,
{
    if k <= 0 {
        0
    } else {
        allied_pairs(st, owner, k - 1) + row_pairs(st, owner, k - 1, st.board@.len() as int)
    }
}

/// The spirits of `owner` among the first `n` entries of the dissolved pool.
pub open spec fn lost_spirits(pool: Seq<(Seat, CardId)>, owner: Seat, n: int) -> int
    decreases n,
{
    if n <= 0 {
        0
    } else {
        lost_spirits(pool, owner, n - 1) + if pool[n - 1].0 == owner { 1int } else { 0int }
    }
}

proof fn lemma_row_pairs_bound(st: GameState, owner: Seat, i: int, m: int)
    ensures
        0 <= row_pairs(st, owner, i, m) <= if m > i { m - i } else { 0 },
    decreases m - i,
{
    if m > i + 1 {
        lemma_row_pairs_bound(st, owner, i, m - 1);
    }
}

proof fn lemma_allied_pairs_bound(st: GameState, owner: Seat, k: int)
    requires
        0 <= k,
    ensures
        0 <= allied_pairs(st, owner, k) <= k * (st.board@.len() as int),
    decreases k,
{
    if k > 0 {
        lemma_allied_pairs_bound(st, owner, k - 1);
        lemma_row_pairs_bound(st, owner, k - 1, st.board@.len() as int);
        assert((k - 1) * (st.board@.len() as int) + (st.board@.len() as int) == k * (st.board@.len() as int)) by (nonlinear_arith);
    }
}

proof fn lemma_lost_bound(pool: Seq<(Seat, CardId)>, owner: Seat, n: int)
    ensures
        0 <= lost_spirits(pool, owner, n) <= if n > 0 { n } else { 0 },
    decreases n,
{
    if n > 0 {
        lemma_lost_bound(pool, owner, n - 1);
    }
}

fn imprint_allies_exec(st: &GameState, catalog: &[CardDef], owner: Seat, imprint: &String) -> (r: Vec<u8>)
    requires
        st.wf(),
        cards_known(*st, catalog@),
    ensures
        r@ == imprint_allies(*st, catalog@, owner, imprint@, st.board@.len() as int),
{
    proof {
        lemma_wf_small(*st);
    }
    let n = st.board.len();
    let mut out: Vec<u8> = Vec::new();
    for i in 0..n
        invariant
            n == st.board@.len() <= 64,
            cards_known(*st, catalog@),
            out@ == imprint_allies(*st, catalog@, owner, imprint@, i as int),
    {
        let hit = match &st.board[i].spirit {
            Some(sp) => {
                if !sp.fading && sp.owner == owner && !sp.traits_blanked(st.round) {
                    imprints_contain(&card(catalog, sp.card).imprints, imprint)
                } else {
                    false
                }
            },
            None => false,
        };
        if hit {
            out.push(i as u8);
        }
    }
    out
}

fn kin_tiles_exec(st: &GameState, catalog: &[CardDef], owner: Seat, res: Resonance) -> (r: Vec<u8>)
    requires
        st.wf(),
        cards_known(*st, catalog@),
    ensures
        r@ == kin_tiles(*st, catalog@, owner, res, st.board@.len() as int),
{
    proof {
        lemma_wf_small(*st);
    }
    let n = st.board.len();
    let mut out: Vec<u8> = Vec::new();
    for i in 0..n
        invariant
            n == st.board@.len() <= 64,
            cards_known(*st, catalog@),
            out@ == kin_tiles(*st, catalog@, owner, res, i as int),
    {
        let hit = match &st.board[i].spirit {
            Some(sp) => !sp.fading && sp.owner == owner && card(catalog, sp.card).resonance == res,
            None => false,
        };
        if hit {
            out.push(i as u8);
        }
    }
    out
}

fn near_any_exec(srcs: &Vec<u8>, t: u8) -> (r: bool)
    ensures
        r == near_any(srcs@, t),
{
    let m = srcs.len();
    for k in 0..m
        invariant
            m == srcs@.len(),
            forall|j: int| 0 <= j < k ==> spec_manhattan(#[trigger] srcs@[j], t) != 1,
    {
        if manhattan(srcs[k], t) == 1 {
            assert(spec_manhattan(srcs@[k as int], t) == 1);
            return true;
        }
    }
    false
}

/// Eruption's reach: the standing enemies beside any standing ally of `owner` of `res`.
pub fn kin_enemies_exec(st: &GameState, catalog: &[CardDef], owner: Seat, res: Resonance) -> (r: Vec<u8>)
    requires
        st.wf(),
        cards_known(*st, catalog@),
    ensures
        r@ == kin_enemies(*st, catalog@, owner, res),
{
    proof {
        lemma_wf_small(*st);
    }
    let srcs = kin_tiles_exec(st, catalog, owner, res);
    let n = st.board.len();
    let mut out: Vec<u8> = Vec::new();
    for i in 0..n
        invariant
            n == st.board@.len() <= 64,
            srcs@ == kin_tiles(*st, catalog@, owner, res, n as int),
            out@ == enemies_beside(*st, owner, srcs@, i as int),
    {
        let hit = match &st.board[i].spirit {
            Some(sp) => !sp.fading && sp.owner != owner && near_any_exec(&srcs, i as u8),
            None => false,
        };
        if hit {
            out.push(i as u8);
        }
    }
    out
}

fn bonded_pair_exec(st: &GameState, source: Option<u8>) -> (r: Vec<u8>)
    ensures
        r@ == bonded_pair(*st, source),
{
    match source {
        Some(src) => match first_bond(st, src) {
            Some(k) => {
                let mut v: Vec<u8> = Vec::new();
                v.push(st.bonds[k].tile_a);
                v.push(st.bonds[k].tile_b);
                v
            },
            None => Vec::new(),
        },
        None => Vec::new(),
    }
}

fn hidden_fabrications_exec(st: &GameState, enemy: Seat) -> (r: Vec<u8>)
    requires
        st.wf(),
    ensures
        r@ == hidden_fabrications(*st, enemy, st.board@.len() as int),
{
    proof {
        lemma_wf_small(*st);
    }
    let n = st.board.len();
    let mut out: Vec<u8> = Vec::new();
    for i in 0..n
        invariant
            n == st.board@.len() <= 64,
            out@ == hidden_fabrications(*st, enemy, i as int),
    {
        let hit = match &st.board[i].terrain {
            Some(t) => t.owner == enemy && t.face_down && matches!(t.kind, TerrainKind::Fabrication),
            None => false,
        };
        if hit {
            out.push(i as u8);
        }
    }
    out
}

fn allied_pairs_exec(st: &GameState, owner: Seat) -> (r: u32)
    requires
        st.wf(),
    ensures
        r as int == allied_pairs(*st, owner, st.board@.len() as int),
{
    proof {
        lemma_wf_small(*st);
    }
    let n = st.board.len();
    let mut pairs: u32 = 0;
    for i in 0..n
        invariant
            n == st.board@.len() <= 64,
            pairs as int == allied_pairs(*st, owner, i as int),
    {
        proof {
            lemma_allied_pairs_bound(*st, owner, i + 1);
            assert((i + 1) * (n as int) <= 64 * 64) by (nonlinear_arith)
                requires i + 1 <= 64, n <= 64;
        }
        let ghost base = pairs as int;
        for j in (i + 1)..n
            invariant
                i < n == st.board@.len() <= 64,
                base == allied_pairs(*st, owner, i as int),
                base + row_pairs(*st, owner, i as int, n as int) <= 64 * 64,
                pairs as int == base + row_pairs(*st, owner, i as int, j as int),
        {
            proof {
                lemma_row_pairs_bound(*st, owner, i as int, j + 1);
                lemma_row_pairs_mono(*st, owner, i as int, j + 1, n as int);
            }
            let a = match st.spirit_at(i as u8) {
                Some(s) => !s.fading && s.owner == owner,
                None => false,
            };
            let b = match st.spirit_at(j as u8) {
                Some(s) => !s.fading && s.owner == owner,
                None => false,
            };
            if manhattan(i as u8, j as u8) == 1 && a && b {
                pairs = pairs + 1;
            }
        }
    }
    pairs
}

proof fn lemma_row_pairs_mono(st: GameState, owner: Seat, i: int, m1: int, m2: int)
    requires
        m1 <= m2,
    ensures
        row_pairs(st, owner, i, m1) <= row_pairs(st, owner, i, m2),
    decreases m2 - m1,
{
    if m1 < m2 {
        lemma_row_pairs_mono(st, owner, i, m1, m2 - 1);
        lemma_row_pairs_bound(st, owner, i, m2);
    }
}

fn lost_spirits_exec(pool: &Vec<(Seat, CardId)>, owner: Seat) -> (r: usize)
    ensures
        r as int == lost_spirits(pool@, owner, pool@.len() as int),
{
    let n = pool.len();
    let mut c: usize = 0;
    for i in 0..n
        invariant
            n == pool@.len(),
            c as int == lost_spirits(pool@, owner, i as int),
    {
        proof {
            lemma_lost_bound(pool@, owner, i + 1);
        }
        if pool[i].0 == owner {
            c = c + 1;
        }
    }
    c
}

// ---------------------------------------------------------------------------
// What a direct clause records
// ---------------------------------------------------------------------------

/// One event per tile.
pub open spec fn per_tile(tiles: Seq<u8>, f: spec_fn(u8) -> Event) -> Seq<Event> {
    tiles.map_values(|t: u8| f(t))
}

/// The draws that land of `count` for `seat`, one event each.
pub open spec fn draw_events(st: GameState, seat: Seat, count: u64) -> Seq<Event> {
    Seq::new(drawn_count(st, seat, count) as nat, |k: int| Event::CardDrawn { seat })
}

/// An Anima gain from an effect, when there is anything to gain.
pub open spec fn gain_events(seat: Seat, amount: u8) -> Seq<Event> {
    if amount > 0 {
        seq![Event::AnimaGained { seat, amount, reason: AnimaReason::Effect }]
    } else {
        Seq::empty()
    }
}

/// The Toll: the engager's owner pays what it owes, as far as its Anima goes.
pub open spec fn toll_events(st: GameState, amount: i8, engager: Option<u8>) -> Seq<Event> {
    match engager {
        Some(e) => match st.spec_spirit_at(e) {
            Some(sp) => {
                let owed = (-(amount as int)) as u8;
                let have = st.spec_player(sp.owner).anima;
                let pay = if owed <= have { owed } else { have };
                if pay > 0 { seq![Event::AnimaSpent { seat: sp.owner, amount: pay }] } else { Seq::empty() }
            },
            None => Seq::empty(),
        },
        None => Seq::empty(),
    }
}

/// Who a stat change reaches: the imprinted allies, the source's bonded pair, or the
/// selector's ordinary targets.
pub open spec fn stat_targets(st: GameState, catalog: Seq<CardDef>, cl: Clause, source: Option<u8>, owner: Seat, engager: Option<u8>) -> Seq<u8> {
    match cl.selector {
        Selector::AlliesWithImprint { imprint } => imprint_allies(st, catalog, owner, imprint@, st.board@.len() as int),
        Selector::BondedPair => bonded_pair(st, source),
        _ => spec_effect_targets(st, cl.selector, source, owner, engager),
    }
}

/// The stat change on one tile: held through this round or the next, or lasting.
pub open spec fn stat_event(st: GameState, dur: Duration, t: u8, attack: i16, defense: i16, form: i16) -> Event {
    match dur {
        Duration::ThisRound => Event::EffectTempStat { tile: t, attack, defense, until_round: st.round },
        Duration::NextRound => Event::EffectTempStat { tile: t, attack, defense, until_round: (st.round + 1) as u8 },
        _ => Event::EffectStat { tile: t, attack, defense, form },
    }
}

/// The events a supported direct clause records, in order (nothing for an unsupported one,
/// and nothing here for the damage, pushes and reveals it leaves to its caller).
pub open spec fn direct_events(st: GameState, catalog: Seq<CardDef>, cl: Clause, source: Option<u8>, owner: Seat, engager: Option<u8>) -> Seq<Event> {
    if !spec_supported_instant_clause(cl) {
        Seq::empty()
    } else {
        match cl.effect {
            Effect::Release => per_tile(spec_targets_in_scope(st, cl.selector, source, owner, true), |t: u8| Event::SpiritReleased { tile: t }),
            Effect::Banish => per_tile(spec_targets_in_scope(st, cl.selector, source, owner, false), |t: u8| Event::SpiritReleased { tile: t }),
            Effect::Draw { count } => match cl.selector {
                Selector::Owner => draw_events(st, owner, count as u64),
                Selector::BothNarrators => draw_events(st, Seat::A, count as u64) + draw_events(st, Seat::B, count as u64),
                _ => Seq::empty(),
            },
            Effect::AnimaDelta { amount } => if amount > 0 && cl.selector is Owner {
                seq![Event::AnimaGained { seat: owner, amount: amount as u8, reason: AnimaReason::Effect }]
            } else if amount < 0 && cl.selector is Engager {
                toll_events(st, amount, engager)
            } else {
                Seq::empty()
            },
            Effect::AnimaPerAdjacentAlliedPair { max } => if cl.selector is Owner {
                gain_events(owner, min_int(allied_pairs(st, owner, st.board@.len() as int), max as int) as u8)
            } else {
                Seq::empty()
            },
            Effect::CostDelta { delta } => if cl.selector is Owner && delta < 0 {
                seq![Event::RitualDiscountGranted { seat: owner, amount: (-(delta as int)) as u8 }]
            } else if cl.selector is BothNarrators && delta > 0 {
                seq![
                    Event::CardTaxed { seat: Seat::A, amount: delta as u8, until_round: (st.round + 1) as u8 },
                    Event::CardTaxed { seat: Seat::B, amount: delta as u8, until_round: (st.round + 1) as u8 },
                ]
            } else {
                Seq::empty()
            },
            Effect::DrawPerBanishedThisTurn { max } => if cl.selector is Owner {
                draw_events(st, owner, min_int(seat_get(st.dissolved_this_turn, owner) as int, max as int) as u64)
            } else {
                Seq::empty()
            },
            Effect::AnimaPerBanishedAlly { max } => if cl.selector is Owner {
                let lost = lost_spirits(st.dissolved@, owner, st.dissolved@.len() as int) as u8;
                gain_events(owner, min_int(lost as int, max as int) as u8)
            } else {
                Seq::empty()
            },
            Effect::RestoreForm { amount } => per_tile(spec_restore_targets(st, cl.selector, source, owner, engager),
                |t: u8| Event::EffectRestored { tile: t, amount }),
            Effect::StatDelta { attack, defense, form } => per_tile(stat_targets(st, catalog, cl, source, owner, engager),
                |t: u8| stat_event(st, cl.duration, t, attack, defense, form)),
            _ => Seq::empty(),
        }
    }
}

/// The clause stamps events with the round after this one.
pub open spec fn next_round_read(cl: Clause) -> bool {
    (cl.effect is CostDelta && cl.selector is BothNarrators) || (cl.effect is StatDelta && cl.duration is NextRound)
}

/// What a direct clause leaves to its caller, which owns banishment and displacement.
pub enum Followup {
    Nothing,
    /// Damage each tile in turn, banishing (or replacing) each spirit it fells.
    Damage { targets: Vec<u8>, amount: i16 },
    /// Shove each target `tiles` away from the source.
    Push { source: u8, targets: Vec<u8>, tiles: u8 },
    /// Turn each Fabrication face up, waking the spirits that answer a reveal.
    Reveal { tiles: Vec<u8> },
}

/// The targets of a damaging clause: Eruption's enemies beside kin, or the selector's own.
pub open spec fn damage_targets(st: GameState, catalog: Seq<CardDef>, cl: Clause, source: Option<u8>, owner: Seat, engager: Option<u8>) -> Seq<u8> {
    match cl.selector {
        Selector::EnemiesAdjacentToAlliesOf { resonance } => kin_enemies(st, catalog, owner, resonance),
        _ => spec_effect_targets(st, cl.selector, source, owner, engager),
    }
}

/// `r` is what the clause leaves to its caller.
pub open spec fn is_followup(r: Followup, st: GameState, catalog: Seq<CardDef>, cl: Clause, source: Option<u8>, owner: Seat, engager: Option<u8>) -> bool {
    if !spec_supported_instant_clause(cl) {
        r is Nothing
    } else {
        match cl.effect {
            Effect::Damage { amount } => r matches Followup::Damage { targets, amount: a }
                && targets@ == damage_targets(st, catalog, cl, source, owner, engager) && a == amount,
            Effect::Displace(Displacement::Push { tiles }) => match source {
                Some(src) => r matches Followup::Push { source: s, targets, tiles: n }
                    && s == src && n == tiles && targets@ == spec_effect_targets(st, cl.selector, source, owner, engager),
                None => r is Nothing,
            },
            Effect::RevealFabrication => r matches Followup::Reveal { tiles }
                && tiles@ == hidden_fabrications(st, owner.spec_other(), st.board@.len() as int),
            _ => r is Nothing,
        }
    }
}

fn draws_for(st: &GameState, seat: Seat, count: u64, list: &mut Vec<Event>)
    ensures
        final(list)@ == old(list)@ + draw_events(*st, seat, count),
{
    let deck = st.player(seat).deck.len() as u64;
    let first = crate::evolve::slot_for_exec(st, seat) == crate::evolve::first_slot_exec(seat);
    let n: u64 = if first {
        if count < deck { count } else { deck }
    } else if deck > 0 {
        count
    } else {
        0
    };
    let ghost l0 = list@;
    let mut k: u64 = 0;
    while k < n
        invariant
            k <= n,
            n as int == drawn_count(*st, seat, count),
            list@ == l0 + Seq::new(k as nat, |j: int| Event::CardDrawn { seat }),
        decreases n - k,
    {
        list.push(Event::CardDrawn { seat });
        k = k + 1;
        assert(list@ == l0 + Seq::new(k as nat, |j: int| Event::CardDrawn { seat }));
    }
}

fn released(tiles: &Vec<u8>, list: &mut Vec<Event>)
    ensures
        final(list)@ == old(list)@ + per_tile(tiles@, |t: u8| Event::SpiritReleased { tile: t }),
{
    let ghost l0 = list@;
    let n = tiles.len();
    for i in 0..n
        invariant
            n == tiles@.len(),
            list@ == l0 + per_tile(tiles@.take(i as int), |t: u8| Event::SpiritReleased { tile: t }),
    {
        list.push(Event::SpiritReleased { tile: tiles[i] });
        assert(tiles@.take(i + 1) == tiles@.take(i as int).push(tiles@[i as int]));
        assert(list@ == l0 + per_tile(tiles@.take(i + 1), |t: u8| Event::SpiritReleased { tile: t }));
    }
    assert(tiles@.take(n as int) == tiles@);
}

fn restored(tiles: &Vec<u8>, amount: i16, list: &mut Vec<Event>)
    ensures
        final(list)@ == old(list)@ + per_tile(tiles@, |t: u8| Event::EffectRestored { tile: t, amount }),
{
    let ghost l0 = list@;
    let n = tiles.len();
    for i in 0..n
        invariant
            n == tiles@.len(),
            list@ == l0 + per_tile(tiles@.take(i as int), |t: u8| Event::EffectRestored { tile: t, amount }),
    {
        list.push(Event::EffectRestored { tile: tiles[i], amount });
        assert(tiles@.take(i + 1) == tiles@.take(i as int).push(tiles@[i as int]));
        assert(list@ == l0 + per_tile(tiles@.take(i + 1), |t: u8| Event::EffectRestored { tile: t, amount }));
    }
    assert(tiles@.take(n as int) == tiles@);
}

fn stat_changes(st: &GameState, dur: Duration, tiles: &Vec<u8>, attack: i16, defense: i16, form: i16, list: &mut Vec<Event>)
    requires
        dur is NextRound ==> st.round < 255,
    ensures
        final(list)@ == old(list)@ + per_tile(tiles@, |t: u8| stat_event(*st, dur, t, attack, defense, form)),
{
    let ghost l0 = list@;
    let n = tiles.len();
    for i in 0..n
        invariant
            n == tiles@.len(),
            dur is NextRound ==> st.round < 255,
            list@ == l0 + per_tile(tiles@.take(i as int), |t: u8| stat_event(*st, dur, t, attack, defense, form)),
    {
        let t = tiles[i];
        let ev = match dur {
            Duration::ThisRound => Event::EffectTempStat { tile: t, attack, defense, until_round: st.round },
            Duration::NextRound => Event::EffectTempStat { tile: t, attack, defense, until_round: st.round + 1 },
            _ => Event::EffectStat { tile: t, attack, defense, form },
        };
        list.push(ev);
        assert(tiles@.take(i + 1) == tiles@.take(i as int).push(tiles@[i as int]));
        assert(list@ == l0 + per_tile(tiles@.take(i + 1), |t: u8| stat_event(*st, dur, t, attack, defense, form)));
    }
    assert(tiles@.take(n as int) == tiles@);
}

/// The events of a direct clause, computed before any of them applies.
fn direct_list(
    st: &GameState,
    catalog: &[CardDef],
    cl: &Clause,
    source: Option<u8>,
    owner: Seat,
    engager: Option<u8>,
) -> (r: Vec<Event>)
    requires
        st.wf(),
        cards_known(*st, catalog@),
        next_round_read(*cl) ==> st.round < 255,
    ensures
        r@ == direct_events(*st, catalog@, *cl, source, owner, engager),
{
    proof {
        lemma_wf_small(*st);
    }
    let mut list: Vec<Event> = Vec::new();
    if !supported_instant_clause(cl) {
        return list;
    }
    match &cl.effect {
        Effect::Release => {
            let ts = release_targets(st, &cl.selector, source, owner);
            released(&ts, &mut list);
        },
        Effect::Banish => {
            let ts = banish_targets(st, &cl.selector, source, owner);
            released(&ts, &mut list);
        },
        Effect::Draw { count } => match cl.selector {
            Selector::Owner => draws_for(st, owner, *count as u64, &mut list),
            Selector::BothNarrators => {
                draws_for(st, Seat::A, *count as u64, &mut list);
                draws_for(st, Seat::B, *count as u64, &mut list);
            },
            _ => {},
        },
        Effect::AnimaDelta { amount } => {
            let amount = *amount;
            if amount > 0 && matches!(cl.selector, Selector::Owner) {
                list.push(Event::AnimaGained { seat: owner, amount: amount as u8, reason: AnimaReason::Effect });
            } else if amount < 0 && matches!(cl.selector, Selector::Engager) {
                match engager {
                    Some(e) => match st.spirit_at(e) {
                        Some(sp) => {
                            let owed = (-(amount as i16)) as u8;
                            let have = st.player(sp.owner).anima;
                            let pay = if owed <= have { owed } else { have };
                            if pay > 0 {
                                list.push(Event::AnimaSpent { seat: sp.owner, amount: pay });
                            }
                        },
                        None => {},
                    },
                    None => {},
                }
            }
        },
        Effect::AnimaPerAdjacentAlliedPair { max } => {
            if matches!(cl.selector, Selector::Owner) {
                let pairs = allied_pairs_exec(st, owner);
                let amount: u8 = if pairs < *max as u32 { pairs as u8 } else { *max };
                if amount > 0 {
                    list.push(Event::AnimaGained { seat: owner, amount, reason: AnimaReason::Effect });
                }
            }
        },
        Effect::CostDelta { delta } => {
            let delta = *delta;
            if matches!(cl.selector, Selector::Owner) && delta < 0 {
                list.push(Event::RitualDiscountGranted { seat: owner, amount: (-(delta as i16)) as u8 });
            } else if matches!(cl.selector, Selector::BothNarrators) && delta > 0 {
                list.push(Event::CardTaxed { seat: Seat::A, amount: delta as u8, until_round: st.round + 1 });
                list.push(Event::CardTaxed { seat: Seat::B, amount: delta as u8, until_round: st.round + 1 });
            }
        },
        Effect::DrawPerBanishedThisTurn { max } => {
            if matches!(cl.selector, Selector::Owner) {
                let done = match owner {
                    Seat::A => st.dissolved_this_turn[0],
                    Seat::B => st.dissolved_this_turn[1],
                };
                let n: u8 = if done < *max { done } else { *max };
                draws_for(st, owner, n as u64, &mut list);
            }
        },
        Effect::AnimaPerBanishedAlly { max } => {
            if matches!(cl.selector, Selector::Owner) {
                let lost = lost_spirits_exec(&st.dissolved, owner) as u8;
                let amount: u8 = if lost < *max { lost } else { *max };
                if amount > 0 {
                    list.push(Event::AnimaGained { seat: owner, amount, reason: AnimaReason::Effect });
                }
            }
        },
        Effect::RestoreForm { amount } => {
            let ts = restore_targets(st, &cl.selector, source, owner, engager);
            restored(&ts, *amount, &mut list);
        },
        Effect::StatDelta { attack, defense, form } => {
            let ts = match &cl.selector {
                Selector::AlliesWithImprint { imprint } => imprint_allies_exec(st, catalog, owner, imprint),
                Selector::BondedPair => bonded_pair_exec(st, source),
                _ => effect_targets(st, &cl.selector, source, owner, engager),
            };
            stat_changes(st, cl.duration, &ts, *attack, *defense, *form, &mut list);
        },
        _ => {},
    }
    list
}

/// Resolve a choice-free clause at once. Its events are recorded and applied in order;
/// the damage, pushes and reveals, which call on banishment and the reveal triggers, come
/// back for the caller to carry out.
pub fn apply_direct_clause(
    sim: &mut GameState,
    evs: &mut Vec<Event>,
    catalog: &[CardDef],
    cl: &Clause,
    source: Option<u8>,
    owner: Seat,
    engager: Option<u8>,
) -> (r: Followup)
    requires
        old(sim).wf(),
        cards_known(*old(sim), catalog@),
        next_round_read(*cl) ==> old(sim).round < 255,
        applicable(*old(sim), direct_events(*old(sim), catalog@, *cl, source, owner, engager)),
    ensures
        final(evs)@ == old(evs)@ + direct_events(*old(sim), catalog@, *cl, source, owner, engager),
        applies(*old(sim), direct_events(*old(sim), catalog@, *cl, source, owner, engager), *final(sim)),
        is_followup(r, *old(sim), catalog@, *cl, source, owner, engager),
{
    proof {
        lemma_wf_small(*sim);
    }
    let list = direct_list(sim, catalog, cl, source, owner, engager);
    let follow = if !supported_instant_clause(cl) {
        Followup::Nothing
    } else {
        match &cl.effect {
            Effect::Damage { amount } => {
                let targets = match &cl.selector {
                    Selector::EnemiesAdjacentToAlliesOf { resonance } => kin_enemies_exec(sim, catalog, owner, *resonance),
                    _ => effect_targets(sim, &cl.selector, source, owner, engager),
                };
                Followup::Damage { targets, amount: *amount }
            },
            Effect::Displace(Displacement::Push { tiles }) => match source {
                Some(src) => Followup::Push { source: src, targets: effect_targets(sim, &cl.selector, source, owner, engager), tiles: *tiles },
                None => Followup::Nothing,
            },
            Effect::RevealFabrication => Followup::Reveal { tiles: hidden_fabrications_exec(sim, owner.other()) },
            _ => Followup::Nothing,
        }
    };
    push_all(sim, evs, list);
    follow
}

/// One blow of a damaging clause: the spirit on `t` takes `amount`; the answer is whether
/// it now stands at no Form without already fading, so that the caller banishes it.
pub fn damage_step(sim: &mut GameState, evs: &mut Vec<Event>, t: u8, amount: i16) -> (lethal: bool)
    requires
        crate::events::event_ok(*old(sim), Event::EffectDamaged { tile: t, amount }),
    ensures
        crate::events::spec_applied(*old(sim), Event::EffectDamaged { tile: t, amount }, *final(sim)),
        final(evs)@ == old(evs)@.push(Event::EffectDamaged { tile: t, amount }),
        lethal == (final(sim).spec_spirit_at(t) matches Some(sp) && sp.hp <= 0 && !sp.fading),
{
    crate::flow::push(sim, evs, Event::EffectDamaged { tile: t, amount });
    match sim.spirit_at(t) {
        Some(sp) => sp.hp <= 0 && !sp.fading,
        None => false,
    }
}

// ---------------------------------------------------------------------------
// Pushes
// ---------------------------------------------------------------------------

/// The step from `a` toward `b` along one axis: -1, 0 or 1.
pub open spec fn step_toward(a: int, b: int) -> int {
    if b > a { 1 } else if b < a { -1 } else { 0 }
}

/// Where a spirit on `tile`, shoved straight away from `source`, lands on a `w`-wide board:
/// one step further along each axis on which it lies off the source, if that stays on the
/// board.
pub open spec fn push_landing(w: int, source: u8, tile: u8) -> Option<u8> {
    let (sx, sy) = (source as int % w, source as int / w);
    let (tx, ty) = (tile as int % w, tile as int / w);
    let nx = tx + step_toward(sx, tx);
    let ny = ty + step_toward(sy, ty);
    if 0 <= nx < w && 0 <= ny < w { Some((ny * w + nx) as u8) } else { None }
}

/// The spirit on `tile` (of `owner`) cannot be shoved: it is Steadfast, its seat may not be
/// pushed this round, its Landmark holds it, or a standing ally's aura shields the seat.
pub open spec fn push_refused(st: GameState, canon: Canon, catalog: Seq<CardDef>, tile: u8, owner: Seat) -> bool {
    ||| spec_keyword_active(st, canon, catalog, tile, Keyword::Steadfast)
    ||| spec_restricted(st, owner, Restriction::BePushed)
    ||| spec_terrain_carries(st, canon, catalog, tile, None, ClauseTest::OccupantRestrict(Restriction::BePushed))
    ||| spec_seat_grants_push_immunity(st, canon, catalog, owner)
}

/// Where the spirit on `tile` goes when shoved from `source`: nowhere if there is none, it
/// refuses, or the landing is off the board or not open.
pub open spec fn push_dest(st: GameState, canon: Canon, catalog: Seq<CardDef>, source: u8, tile: u8) -> Option<u8> {
    match st.spec_spirit_at(tile) {
        Some(sp) => if push_refused(st, canon, catalog, tile, sp.owner) {
            None
        } else {
            match push_landing(st.board_w as int, source, tile) {
                Some(d) => if spec_tile_open_for_arrival(st, d) { Some(d) } else { None },
                None => None,
            }
        },
        None => None,
    }
}

/// The push, then the Herald's sting when the spirit lands on a marked tile.
pub open spec fn push_events(st: GameState, canon: Canon, catalog: Seq<CardDef>, source: u8, tile: u8) -> Seq<Event> {
    match push_dest(st, canon, catalog, source, tile) {
        Some(d) => {
            let owner = st.board@[tile as int].spirit->Some_0.owner;
            seq![Event::SpiritPushed { from: tile, to: d }] + if st.board@[d as int].impressions@.len() > 0 {
                match spec_impression_push_damage(st, canon, catalog, owner) {
                    Some(dmg) => seq![Event::EffectDamaged { tile: d, amount: dmg }],
                    None => Seq::empty(),
                }
            } else {
                Seq::empty()
            }
        },
        None => Seq::empty(),
    }
}

/// The tile of a spirit that the sting `evs` felled in `st`, if any.
pub open spec fn felled_by(st: GameState, evs: Seq<Event>) -> Option<u8> {
    if evs.len() == 2 {
        match evs[1] {
            Event::EffectDamaged { tile, .. } => if st.spec_spirit_at(tile) matches Some(sp) && sp.hp <= 0 && !sp.fading {
                Some(tile)
            } else {
                None
            },
            _ => None,
        }
    } else {
        None
    }
}

fn push_landing_exec(w: i8, source: u8, tile: u8) -> (r: Option<u8>)
    requires
        2 <= w <= 8,
    ensures
        r == push_landing(w as int, source, tile),
        r matches Some(d) ==> (d as int) < w * w,
{
    let w = w as i16;
    let (sx, sy) = (source as i16 % w, source as i16 / w);
    let (tx, ty) = (tile as i16 % w, tile as i16 / w);
    let dx: i16 = if tx > sx { 1 } else if tx < sx { -1 } else { 0 };
    let dy: i16 = if ty > sy { 1 } else if ty < sy { -1 } else { 0 };
    let (nx, ny) = (tx + dx, ty + dy);
    if 0 <= nx && nx < w && 0 <= ny && ny < w {
        assert(0 <= ny * w + nx < w * w <= 64) by (nonlinear_arith)
            requires 0 <= nx < w, 0 <= ny < w, w <= 8;
        Some((ny * w + nx) as u8)
    } else {
        None
    }
}

/// Shove the spirit on `tile` one step straight away from `source`. Steadfast spirits,
/// seats barred from being pushed, Landmark-held and aura-shielded spirits stay; so does
/// one whose landing is off the board or not open. A spirit landing on a marked tile takes
/// the sting of an enemy Herald; the tile of one it fells comes back, for the caller to
/// banish in the pusher's stead.
pub fn push_away(
    sim: &mut GameState,
    evs: &mut Vec<Event>,
    canon: &Canon,
    catalog: &[CardDef],
    source: u8,
    tile: u8,
    _tiles: u8,
) -> (felled: Option<u8>)
    requires
        old(sim).wf(),
        cards_known(*old(sim), catalog@),
        applicable(*old(sim), push_events(*old(sim), *canon, catalog@, source, tile)),
    ensures
        final(evs)@ == old(evs)@ + push_events(*old(sim), *canon, catalog@, source, tile),
        applies(*old(sim), push_events(*old(sim), *canon, catalog@, source, tile), *final(sim)),
        felled == felled_by(*final(sim), push_events(*old(sim), *canon, catalog@, source, tile)),
{
    proof {
        lemma_wf_small(*sim);
        crate::flow::lemma_applies_none(*sim);
    }
    let owner = match sim.spirit_at(tile) {
        Some(sp) => sp.owner,
        None => return None,
    };
    if keyword_active(sim, canon, catalog, tile, Keyword::Steadfast) || restricted(sim, owner, Restriction::BePushed)
        || occupant_restricted(sim, canon, catalog, tile, Restriction::BePushed)
        || seat_grants_push_immunity(sim, canon, catalog, owner) {
        return None;
    }
    let dest = match push_landing_exec(sim.board_w, source, tile) {
        Some(d) => d,
        None => return None,
    };
    proof {
        assert(sim.board_w * sim.board_w == sim.board@.len());
    }
    if !tile_open_for_arrival(sim, dest) {
        return None;
    }
    let mut list: Vec<Event> = Vec::new();
    list.push(Event::SpiritPushed { from: tile, to: dest });
    let mut sting: Option<i16> = None;
    if sim.board[dest as usize].impressions.len() > 0 {
        sting = impression_push_damage(sim, canon, catalog, owner);
        match sting {
            Some(dmg) => list.push(Event::EffectDamaged { tile: dest, amount: dmg }),
            None => {},
        }
    }
    assert(list@ == push_events(*old(sim), *canon, catalog@, source, tile));
    push_all(sim, evs, list);
    match sting {
        Some(_) => match sim.spirit_at(dest) {
            Some(sp) => if sp.hp <= 0 && !sp.fading { Some(dest) } else { None },
            None => None,
        },
        None => None,
    }
}

} // verus!
