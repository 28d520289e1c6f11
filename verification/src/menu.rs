//! The legal-move menu: every command a seat may play right now, in the order a client
//! shows them.
use vstd::prelude::*;

use crate::arrival::{play_engage_refusal, play_landing_refusal, spec_play_spirit};
use crate::auras::lemma_wf_small;
use crate::evolving::{evolve_cost, fabled_fuel, spec_evolve_plan};
use crate::overwrite::{slot_projects, spec_overwrite};
use crate::board_commands::{reveal_engage_refusal, spec_devolve, spec_move_spirit, spec_reclaim, spec_reveal, spec_strike_fabrication};
use crate::cards::{card, spec_card};
use crate::command::{push_cmd, views, Command, CommandView};
use crate::commands::{mulligan_window, spec_banish_stray, spec_mulligan_window, spec_set_orders};
use crate::events::{seat_get, Event};
use crate::conditions::{manhattan, spec_manhattan};
use crate::effects::{Canon, Keyword, Restriction};
use crate::evolution::{legal_evolutions, spec_legal_evolutions};
use crate::keywords::{keyword_active, spec_keyword_active};
use crate::momentum::enemies_in;
use crate::projection::{
    any_projected_placement, cards_known, projectable, projection, projection_slot, restricted, spec_any_projected_placement,
    spec_projected, spec_restricted,
};
use crate::spellbook::{
    active_player, actor_player, effective_cost, fab_delta, hand_card, hand_known, own_standing, spec_attach_bond, spec_cast_ritual,
    spec_set_terrain, spec_tell_unwriting, tile_held,
};
use crate::state::{choice_count, choice_options, GameState, Phase, PlayerState, Spirit, TerrainKind};
use crate::strike::floor0;
use crate::tally::{cost_aura, spec_cost_aura};
use crate::targeting::{spec_targeting_reach, targeting_reach};
use crate::types::{adjacent4_w, is_rim_w, lemma_adjacent4_on_board, spec_adjacent4_w, spec_is_rim_w, spec_tile_xy_w, tile_xy_w, CardDef, CardKind, Seat};

verus! {

// ---------------------------------------------------------------------------
// What the menu reads
// ---------------------------------------------------------------------------

/// Tile `t` is in `seat`'s projection.
pub open spec fn proj(st: GameState, catalog: Seq<CardDef>, seat: Seat, t: int) -> bool {
    spec_projected(st, catalog, seat, None, t)
}

/// Tile `t` is in the acting slot's own projection (its team's in a 1v1 match).
pub open spec fn proj_slot(st: GameState, catalog: Seq<CardDef>, seat: Seat, t: int) -> bool {
    if st.spec_is_2v2() {
        spec_projected(st, catalog, st.active_slot.spec_team(), Some(st.active_slot), t)
    } else {
        proj(st, catalog, seat, t)
    }
}

/// `seat` has no projected placement and may take the margin.
pub open spec fn margin(st: GameState, catalog: Seq<CardDef>, seat: Seat) -> bool {
    !spec_any_projected_placement(st, catalog, seat)
}

/// Tile `t` has gone calm for the round.
pub open spec fn calm(st: GameState, t: u8) -> bool {
    exists|k: int| 0 <= k < st.calm_tiles@.len() && (#[trigger] st.calm_tiles@[k]).0 == t && st.round >= st.calm_tiles@[k].1
}

/// The Stray stands on tile `t`.
pub open spec fn stray_on(st: GameState, t: u8) -> bool {
    st.stray matches Some(s) && s.tile == t
}

/// Tile `t` is held ground: a rim tile after the contraction.
pub open spec fn held_rim(st: GameState, t: u8) -> bool {
    st.contracted && spec_is_rim_w(t, st.board_w)
}

/// A standing enemy of `seat` is on `t`.
pub open spec fn enemy_at(st: GameState, seat: Seat, t: u8) -> bool {
    st.spec_spirit_at(t) matches Some(e) && e.owner != seat && !e.fading
}

/// An enemy face-down Fabrication lies on board tile `t`.
pub open spec fn hidden_trap(st: GameState, seat: Seat, t: u8) -> bool {
    &&& (t as int) < st.board@.len()
    &&& st.board@[t as int].terrain matches Some(terr) && terr.kind is Fabrication && terr.face_down && terr.owner != seat
}

/// The standing enemies in the targeting reach of a `reach` spirit on `tile`.
pub open spec fn reach_enemies(st: GameState, canon: Canon, catalog: Seq<CardDef>, seat: Seat, reach: crate::types::Reach, tile: u8) -> Seq<u8> {
    let r = spec_targeting_reach(st, canon, catalog, reach, tile, seat, st.board_w);
    enemies_in(st, seat, r, r.len() as int)
}

// ---------------------------------------------------------------------------
// The menu
// ---------------------------------------------------------------------------

/// The turn's free offers: a Glimpse (with a card to burn and a page to peek, once a turn),
/// the end of the turn, the opening mulligan in its window, and banishing a seen Stray.
pub open spec fn opening_cmds(st: GameState, seat: Seat) -> Seq<CommandView> {
    let pl = actor_player(st);
    (if !pl.glimpsed_this_turn && pl.hand@.len() > 0 && pl.deck@.len() > 0 { seq![CommandView::Glimpse] } else { Seq::empty() })
        + seq![CommandView::EndTurn]
        + (if spec_mulligan_window(st, seat) { seq![CommandView::Mulligan { seat }] } else { Seq::empty() })
        + (if st.stray matches Some(s) && !s.veiled { seq![CommandView::BanishStray] } else { Seq::empty() })
}

/// The Bond's pairs with a first end on `a`: every later standing ally one step away, for
/// ends below `m`.
pub open spec fn bond_row(st: GameState, seat: Seat, hi: int, a: int, m: int) -> Seq<CommandView>
    decreases m,
{
    if m <= 0 {
        Seq::empty()
    } else {
        let b = m - 1;
        bond_row(st, seat, hi, a, m - 1) + if own_standing(st, seat, a as u8) && own_standing(st, seat, b as u8) && a < b
            && spec_manhattan(a as u8, b as u8) == 1 {
            seq![CommandView::AttachBond { hand_index: hi as u8, tile_a: a as u8, tile_b: b as u8 }]
        } else {
            Seq::empty()
        }
    }
}

/// The Bond's pairs with a first end below `n`.
pub open spec fn bond_cmds(st: GameState, seat: Seat, hi: int, n: int) -> Seq<CommandView>
    decreases n,
{
    if n <= 0 { Seq::empty() } else { bond_cmds(st, seat, hi, n - 1) + bond_row(st, seat, hi, n - 1, st.board@.len() as int) }
}

/// The open tiles below `n` a Landmark (or Fabrication) may be set on.
pub open spec fn terrain_cmds(st: GameState, catalog: Seq<CardDef>, seat: Seat, hi: int, landmark: bool, n: int) -> Seq<CommandView>
    decreases n,
{
    if n <= 0 {
        Seq::empty()
    } else {
        let t = (n - 1) as u8;
        terrain_cmds(st, catalog, seat, hi, landmark, n - 1) + if !tile_held(st, t) && (proj(st, catalog, seat, n - 1) || margin(st, catalog, seat)) {
            seq![if landmark { CommandView::PlaceLandmark { hand_index: hi as u8, tile: t } } else { CommandView::SetFabrication { hand_index: hi as u8, tile: t } }]
        } else {
            Seq::empty()
        }
    }
}

/// A spirit played onto `tile` engaging each of `ts`.
pub open spec fn play_engaging(hi: int, tile: u8, ts: Seq<u8>) -> Seq<CommandView> {
    ts.map_values(|t: u8| CommandView::PlaySpirit { hand_index: hi as u8, tile, engage: Some(t), chain_prefs: Seq::empty() })
}

/// Seat A's first placement is in its home rows.
pub open spec fn first_placement_ok(st: GameState, seat: Seat, tile: u8) -> bool {
    !(seat == Seat::A && !st.player_a.first_placement_done
        && !Seat::A.spec_home_rows_w(st.board_w).contains(spec_tile_xy_w(tile, st.board_w).1))
}

/// What the spirit card `def` in hand slot `hi` may do on `tile`: Overwrite the Stray or an
/// enemy there from its own projection (never on held ground), or be played onto an empty,
/// open tile, standing or engaging an enemy in reach (a Lurker only stands).
pub open spec fn spirit_tile(st: GameState, canon: Canon, catalog: Seq<CardDef>, seat: Seat, hi: int, def: CardDef, tile: u8) -> Seq<CommandView> {
    let t = st.board@[tile as int];
    if t.faded || calm(st, tile) {
        Seq::empty()
    } else if stray_on(st, tile) {
        if proj_slot(st, catalog, seat, tile as int) && !held_rim(st, tile) {
            seq![CommandView::Overwrite { hand_index: hi as u8, tile }]
        } else {
            Seq::empty()
        }
    } else if t.spirit is None && t.terrain is None {
        if !(proj(st, catalog, seat, tile as int) || margin(st, catalog, seat)) || !first_placement_ok(st, seat, tile) {
            Seq::empty()
        } else {
            seq![CommandView::PlaySpirit { hand_index: hi as u8, tile, engage: None, chain_prefs: Seq::empty() }]
                + if !def.lurk { play_engaging(hi, tile, reach_enemies(st, canon, catalog, seat, def.reach, tile)) } else { Seq::empty() }
        }
    } else if proj_slot(st, catalog, seat, tile as int) && enemy_at(st, seat, tile) && !held_rim(st, tile) {
        seq![CommandView::Overwrite { hand_index: hi as u8, tile }]
    } else {
        Seq::empty()
    }
}

/// The spirit card's offers on the tiles below `n`.
pub open spec fn spirit_cmds(st: GameState, canon: Canon, catalog: Seq<CardDef>, seat: Seat, hi: int, def: CardDef, n: int) -> Seq<CommandView>
    decreases n,
{
    if n <= 0 { Seq::empty() } else { spirit_cmds(st, canon, catalog, seat, hi, def, n - 1) + spirit_tile(st, canon, catalog, seat, hi, def, (n - 1) as u8) }
}

/// What the card in hand slot `hi` offers, when its effective cost is met: a Ritual or an
/// Unwriting is cast, a Bond attached to a pair, terrain set down, a spirit played.
pub open spec fn card_cmds(st: GameState, canon: Canon, catalog: Seq<CardDef>, seat: Seat, hi: int) -> Seq<CommandView> {
    let pl = actor_player(st);
    let def = spec_card(catalog, pl.hand@[hi]);
    let n = st.board@.len() as int;
    if pl.anima < effective_cost(st, canon, catalog, seat, def.cost, 0) {
        Seq::empty()
    } else {
        match def.kind {
            CardKind::Ritual => seq![CommandView::CastRitual { hand_index: hi as u8 }],
            CardKind::Unwriting => seq![CommandView::TellUnwriting { hand_index: hi as u8 }],
            CardKind::Bond => bond_cmds(st, seat, hi, n),
            CardKind::Landmark => terrain_cmds(st, catalog, seat, hi, true, n),
            CardKind::Fabrication => terrain_cmds(st, catalog, seat, hi, false, n),
            _ => spirit_cmds(st, canon, catalog, seat, hi, def, n),
        }
    }
}

/// The offers of the first `k` hand cards.
pub open spec fn hand_cmds(st: GameState, canon: Canon, catalog: Seq<CardDef>, seat: Seat, k: int) -> Seq<CommandView>
    decreases k,
{
    if k <= 0 { Seq::empty() } else { hand_cmds(st, canon, catalog, seat, k - 1) + card_cmds(st, canon, catalog, seat, k - 1) }
}

/// The steps among the first `k` of `adj` a Mobile spirit on `from` may take: onto an
/// unfaded tile with no spirit and no Stray, bare or hiding an enemy trap it springs.
pub open spec fn step_cmds(st: GameState, seat: Seat, from: u8, adj: Seq<u8>, k: int) -> Seq<CommandView>
    decreases k,
{
    if k <= 0 {
        Seq::empty()
    } else {
        let to = adj[k - 1];
        let t = st.board@[to as int];
        step_cmds(st, seat, from, adj, k - 1) + if !t.faded && t.spirit is None && !stray_on(st, to)
            && (t.terrain is None || hidden_trap(st, seat, to)) {
            seq![CommandView::MoveSpirit { from, to, engage: None }]
        } else {
            Seq::empty()
        }
    }
}

/// The enemy traps among the first `k` of `ts`, struck from `from`.
pub open spec fn strike_cmds(st: GameState, seat: Seat, from: u8, ts: Seq<u8>, k: int) -> Seq<CommandView>
    decreases k,
{
    if k <= 0 {
        Seq::empty()
    } else {
        strike_cmds(st, seat, from, ts, k - 1) + if hidden_trap(st, seat, ts[k - 1]) {
            seq![CommandView::StrikeFabrication { from, tile: ts[k - 1] }]
        } else {
            Seq::empty()
        }
    }
}

/// Tile `i` holds a donor for a base on `from`: another spirit of the seat, not a token.
pub open spec fn donor_at(st: GameState, seat: Seat, from: u8, i: int) -> bool {
    &&& i as u8 != from
    &&& st.board@[i].spirit matches Some(d)
    &&& d.owner == seat
    &&& !d.is_token
}

/// The Fabled donors below `n` for a base on `from`: the seat's other spirits, not tokens.
pub open spec fn donors(st: GameState, seat: Seat, from: u8, n: int) -> Seq<u8>
    decreases n,
{
    if n <= 0 {
        Seq::empty()
    } else {
        donors(st, seat, from, n - 1) + if donor_at(st, seat, from, n - 1) {
            seq![(n - 1) as u8]
        } else {
            Seq::empty()
        }
    }
}

/// An evolution onto `from` with the form in hand slot `hi`, fuel `fuel`, standing and then
/// engaging each of `ts`.
pub open spec fn evolve_engaging(from: u8, hi: int, fuel: Option<u8>, ts: Seq<u8>) -> Seq<CommandView> {
    seq![CommandView::Evolve { tile: from, form_hand: hi as u8, fuel, engage: None }]
        + ts.map_values(|t: u8| CommandView::Evolve { tile: from, form_hand: hi as u8, fuel, engage: Some(t) })
}

/// The Fabled evolutions over the first `k` donors.
pub open spec fn donor_cmds(from: u8, hi: int, ds: Seq<u8>, ts: Seq<u8>, k: int) -> Seq<CommandView>
    decreases k,
{
    if k <= 0 { Seq::empty() } else { donor_cmds(from, hi, ds, ts, k - 1) + evolve_engaging(from, hi, Some(ds[k - 1]), ts) }
}

/// The evolutions of the seat's base on `from` with the form in hand slot `hi`: a form the
/// base may legally become; Fabled onto a healthy base that did not arrive this turn, with
/// a donor, Primal onto a fading one; at the discounted cost (the form's cost less half the
/// base's, with the cost aura).
pub open spec fn evolve_form(st: GameState, canon: Canon, catalog: Seq<CardDef>, seat: Seat, from: u8, hi: int) -> Seq<CommandView> {
    let sp = st.board@[from as int].spirit->Some_0;
    let pl = actor_player(st);
    let base = spec_card(catalog, sp.card);
    let form_id = pl.hand@[hi];
    let form = spec_card(catalog, form_id);
    let fabled = form.rarity@ == "Fabled"@;
    let ready = !sp.fading && !st.moved_this_turn@.contains(from);
    let cost = floor0(form.cost - (base.cost / 2) as int + spec_cost_aura(st, canon, catalog, seat)) as u8;
    if !spec_legal_evolutions(st, canon, catalog, base, seat).contains(form_id) || !(if fabled { ready } else { sp.fading })
        || pl.anima < cost {
        Seq::empty()
    } else {
        let ts = reach_enemies(st, canon, catalog, seat, form.reach, from);
        if fabled {
            let ds = donors(st, seat, from, st.board@.len() as int);
            donor_cmds(from, hi, ds, ts, ds.len() as int)
        } else {
            evolve_engaging(from, hi, None, ts)
        }
    }
}

/// The evolutions of the base on `from` over the first `k` hand cards.
pub open spec fn evolve_cmds(st: GameState, canon: Canon, catalog: Seq<CardDef>, seat: Seat, from: u8, k: int) -> Seq<CommandView>
    decreases k,
{
    if k <= 0 { Seq::empty() } else { evolve_cmds(st, canon, catalog, seat, from, k - 1) + evolve_form(st, canon, catalog, seat, from, k - 1) }
}

/// The recessions of a fading form on `from` to the base card held among the first `k`
/// hand cards.
pub open spec fn devolve_cmds(st: GameState, catalog: Seq<CardDef>, from: u8, base_name: Seq<char>, k: int) -> Seq<CommandView>
    decreases k,
{
    if k <= 0 {
        Seq::empty()
    } else {
        devolve_cmds(st, catalog, from, base_name, k - 1) + if spec_card(catalog, actor_player(st).hand@[k - 1]).name@ == base_name {
            seq![CommandView::Devolve { tile: from, base_hand: (k - 1) as u8 }]
        } else {
            Seq::empty()
        }
    }
}

/// How the spirit `sp` on `from` may get going: a Mobile step, and a reveal (engaging if
/// free to) of a face-down one.
pub open spec fn spirit_moves(st: GameState, canon: Canon, catalog: Seq<CardDef>, seat: Seat, from: u8, sp: Spirit) -> Seq<CommandView> {
    let up = sp.owner == seat && !sp.fading;
    let reach = spec_card(catalog, sp.card).reach;
    let adj = spec_adjacent4_w(from, st.board_w);
    let moves = if up && spec_keyword_active(st, canon, catalog, from, Keyword::Mobile)
        && !spec_restricted(st, seat, Restriction::Move) && !st.moved_this_turn@.contains(from) {
        step_cmds(st, seat, from, adj, adj.len() as int)
    } else {
        Seq::empty()
    };
    let reveals = if up && sp.face_down {
        seq![CommandView::Reveal { tile: from, engage: None }] + if sp.no_engage_until < st.round {
            reach_enemies(st, canon, catalog, seat, reach, from).map_values(|t: u8| CommandView::Reveal { tile: from, engage: Some(t) })
        } else {
            Seq::empty()
        }
    } else {
        Seq::empty()
    };
    moves + reveals
}

/// What the spirit `sp` on `from` may do where it stands: take orders, be reclaimed, and
/// strike the enemy traps in its reach once face up.
pub open spec fn spirit_stances(st: GameState, canon: Canon, catalog: Seq<CardDef>, seat: Seat, from: u8, sp: Spirit) -> Seq<CommandView> {
    let up = sp.owner == seat && !sp.fading;
    let reach = spec_card(catalog, sp.card).reach;
    let orders = if up {
        seq![CommandView::SetOrders { tile: from, hold: !sp.holding }, CommandView::Reclaim { tile: from }]
    } else {
        Seq::empty()
    };
    let strikes = if up && !sp.face_down {
        let ts = spec_targeting_reach(st, canon, catalog, reach, from, seat, st.board_w);
        strike_cmds(st, seat, from, ts, ts.len() as int)
    } else {
        Seq::empty()
    };
    orders + strikes
}

/// What the spirit `sp` on `from` offers before any change of form.
pub open spec fn spirit_actions(st: GameState, canon: Canon, catalog: Seq<CardDef>, seat: Seat, from: u8, sp: Spirit) -> Seq<CommandView> {
    spirit_moves(st, canon, catalog, seat, from, sp) + spirit_stances(st, canon, catalog, seat, from, sp)
}

/// The changes of form the spirit `sp` on `from` offers: evolutions by each hand card,
/// and, for a fading form whose owner can pay half its cost, recession to its base.
pub open spec fn spirit_forms(st: GameState, canon: Canon, catalog: Seq<CardDef>, seat: Seat, from: u8, sp: Spirit) -> Seq<CommandView> {
    let own = sp.owner == seat;
    let pl = actor_player(st);
    let evolves = if own { evolve_cmds(st, canon, catalog, seat, from, pl.hand@.len() as int) } else { Seq::empty() };
    let form = spec_card(catalog, sp.card);
    let devolves = if own && sp.fading && sp.fade_deadline is Some && form.evolves_from is Some && pl.anima >= form.cost / 2 {
        devolve_cmds(st, catalog, from, form.evolves_from->Some_0@, pl.hand@.len() as int)
    } else {
        Seq::empty()
    };
    evolves + devolves
}

/// What the spirit on `from`, if any, offers.
pub open spec fn tile_cmds(st: GameState, canon: Canon, catalog: Seq<CardDef>, seat: Seat, from: u8) -> Seq<CommandView> {
    match st.board@[from as int].spirit {
        None => Seq::empty(),
        Some(sp) => spirit_actions(st, canon, catalog, seat, from, sp) + spirit_forms(st, canon, catalog, seat, from, sp),
    }
}

/// The offers of the spirits on the first `n` tiles.
pub open spec fn board_cmds(st: GameState, canon: Canon, catalog: Seq<CardDef>, seat: Seat, n: int) -> Seq<CommandView>
    decreases n,
{
    if n <= 0 { Seq::empty() } else { board_cmds(st, canon, catalog, seat, n - 1) + tile_cmds(st, canon, catalog, seat, (n - 1) as u8) }
}

/// Every command `seat` may play now: nothing when the match is over or it is not the
/// seat's turn; each option of a choice it owes; each hand card to release when over the
/// hand cap; otherwise the turn's free offers, then each hand card's plays, then each of
/// its spirits' actions.
pub open spec fn spec_legal_commands(st: GameState, canon: Canon, catalog: Seq<CardDef>, seat: Seat) -> Seq<CommandView> {
    if st.phase is Finished || st.active != seat {
        Seq::empty()
    } else {
        match st.phase {
            Phase::PendingChoice { seat: s } => match st.pending_choice {
                Some(pc) => if s == seat {
                    Seq::new(choice_count(pc) as nat, |i: int| CommandView::Choose { index: i as u8 })
                } else {
                    Seq::empty()
                },
                None => Seq::empty(),
            },
            Phase::PendingRelease { seat: s } => if s == seat {
                Seq::new(actor_player(st).hand@.len(), |i: int| CommandView::Release { hand_index: i as u8 })
            } else {
                Seq::empty()
            },
            _ => opening_cmds(st, seat) + hand_cmds(st, canon, catalog, seat, actor_player(st).hand@.len() as int)
                + board_cmds(st, canon, catalog, seat, st.board@.len() as int),
        }
    }
}

// ---------------------------------------------------------------------------
// Building the menu
// ---------------------------------------------------------------------------

proof fn lemma_assoc(a: Seq<CommandView>, b: Seq<CommandView>, c: Seq<CommandView>)
    ensures
        (a + b) + c == a + (b + c),
{
    assert((a + b) + c =~= a + (b + c));
}

proof fn lemma_empty(a: Seq<CommandView>)
    ensures
        a + Seq::<CommandView>::empty() == a,
{
    assert(a + Seq::<CommandView>::empty() =~= a);
}

/// The tiles of the projections the menu reads, and the margin.
pub struct MenuReads {
    pub proj: Vec<bool>,
    pub proj_slot: Vec<bool>,
    pub margin: bool,
}

/// `m` holds the projections and margin of `seat` in `st`.
pub open spec fn reads_ok(m: MenuReads, st: GameState, catalog: Seq<CardDef>, seat: Seat) -> bool {
    &&& m.proj@.len() == st.board@.len()
    &&& m.proj_slot@.len() == st.board@.len()
    &&& forall|t: int| 0 <= t < m.proj@.len() ==> #[trigger] m.proj@[t] == proj(st, catalog, seat, t)
    &&& forall|t: int| 0 <= t < m.proj_slot@.len() ==> #[trigger] m.proj_slot@[t] == proj_slot(st, catalog, seat, t)
    &&& m.margin == margin(st, catalog, seat)
}

fn menu_reads(st: &GameState, catalog: &[CardDef], seat: Seat) -> (m: MenuReads)
    requires
        projectable(*st, catalog@),
    ensures
        reads_ok(m, *st, catalog@, seat),
{
    let p = projection(st, seat, catalog);
    let ps = if st.is_2v2() { projection_slot(st, st.active_slot, catalog) } else { projection(st, seat, catalog) };
    let margin = !any_projected_placement(st, seat, catalog);
    MenuReads { proj: p, proj_slot: ps, margin }
}

fn add_opening(st: &GameState, seat: Seat, out: &mut Vec<Command>)
    requires
        crate::events::slot_player(*st, st.active_slot) is Some,
    ensures
        views(final(out)@) == views(old(out)@) + opening_cmds(*st, seat),
{
    let ghost v0 = views(out@);
    let pl = active_player(st);
    let ghost a = if !pl.glimpsed_this_turn && pl.hand@.len() > 0 && pl.deck@.len() > 0 { seq![CommandView::Glimpse] } else { Seq::<CommandView>::empty() };
    let ghost c = if spec_mulligan_window(*st, seat) { seq![CommandView::Mulligan { seat }] } else { Seq::<CommandView>::empty() };
    let ghost d = if st.stray matches Some(s) && !s.veiled { seq![CommandView::BanishStray] } else { Seq::<CommandView>::empty() };
    if !pl.glimpsed_this_turn && pl.hand.len() > 0 && pl.deck.len() > 0 {
        push_cmd(out, Command::Glimpse);
    }
    assert(views(out@) == v0 + a);
    push_cmd(out, Command::EndTurn);
    assert(views(out@) == v0 + a + seq![CommandView::EndTurn]);
    if mulligan_window(st, seat) {
        push_cmd(out, Command::Mulligan { seat });
    }
    assert(views(out@) == v0 + a + seq![CommandView::EndTurn] + c);
    let seen = match &st.stray {
        Some(s) => !s.veiled,
        None => false,
    };
    if seen {
        push_cmd(out, Command::BanishStray);
    }
    assert(views(out@) == v0 + a + seq![CommandView::EndTurn] + c + d);
    assert(views(out@) =~= v0 + opening_cmds(*st, seat));
}

fn own_standing_exec(st: &GameState, seat: Seat, t: u8) -> (r: bool)
    ensures
        r == own_standing(*st, seat, t),
{
    match st.spirit_at(t) {
        Some(sp) => sp.owner == seat && !sp.fading,
        None => false,
    }
}

fn add_bond_cmds(st: &GameState, seat: Seat, hi: usize, out: &mut Vec<Command>)
    requires
        st.board@.len() <= 64,
    ensures
        views(final(out)@) == views(old(out)@) + bond_cmds(*st, seat, hi as int, st.board@.len() as int),
{
    let ghost v0 = views(out@);
    let n = st.board.len();
    for a in 0..n
        invariant
            n == st.board@.len() <= 64,
            views(out@) == v0 + bond_cmds(*st, seat, hi as int, a as int),
    {
        let ghost va = views(out@);
        for b in 0..n
            invariant
                n == st.board@.len() <= 64,
                a < n,
                views(out@) == va + bond_row(*st, seat, hi as int, a as int, b as int),
        {
            if own_standing_exec(st, seat, a as u8) && own_standing_exec(st, seat, b as u8) && a < b
                && manhattan(a as u8, b as u8) == 1 {
                push_cmd(out, Command::AttachBond { hand_index: hi as u8, tile_a: a as u8, tile_b: b as u8 });
                proof { lemma_assoc(va, bond_row(*st, seat, hi as int, a as int, b as int), seq![CommandView::AttachBond { hand_index: hi as u8, tile_a: a as u8, tile_b: b as u8 }]); }
            } else {
                proof { lemma_empty(va + bond_row(*st, seat, hi as int, a as int, b as int)); lemma_assoc(va, bond_row(*st, seat, hi as int, a as int, b as int), Seq::empty()); }
            }
        }
        proof { lemma_assoc(v0, bond_cmds(*st, seat, hi as int, a as int), bond_row(*st, seat, hi as int, a as int, n as int)); }
    }
}

fn add_terrain_cmds(st: &GameState, catalog: &[CardDef], seat: Seat, hi: usize, landmark: bool, m: &MenuReads, out: &mut Vec<Command>)
    requires
        st.board@.len() <= 64,
        reads_ok(*m, *st, catalog@, seat),
    ensures
        views(final(out)@) == views(old(out)@) + terrain_cmds(*st, catalog@, seat, hi as int, landmark, st.board@.len() as int),
{
    let ghost v0 = views(out@);
    let n = st.board.len();
    for i in 0..n
        invariant
            n == st.board@.len() <= 64,
            reads_ok(*m, *st, catalog@, seat),
            views(out@) == v0 + terrain_cmds(*st, catalog@, seat, hi as int, landmark, i as int),
    {
        let t = &st.board[i];
        let stray_here = match &st.stray {
            Some(s) => s.tile == i as u8,
            None => false,
        };
        let ghost before = views(out@);
        if !(t.faded || t.spirit.is_some() || t.terrain.is_some() || stray_here) && (m.proj[i] || m.margin) {
            if landmark {
                push_cmd(out, Command::PlaceLandmark { hand_index: hi as u8, tile: i as u8 });
            } else {
                push_cmd(out, Command::SetFabrication { hand_index: hi as u8, tile: i as u8 });
            }
        } else {
            proof { lemma_empty(before); }
        }
        assert(views(out@) =~= v0 + terrain_cmds(*st, catalog@, seat, hi as int, landmark, i + 1));
    }
}

pub(crate) fn calm_exec(st: &GameState, t: u8) -> (r: bool)
    ensures
        r == calm(*st, t),
{
    let n = st.calm_tiles.len();
    for k in 0..n
        invariant
            n == st.calm_tiles@.len(),
            forall|j: int| 0 <= j < k ==> !((#[trigger] st.calm_tiles@[j]).0 == t && st.round >= st.calm_tiles@[j].1),
    {
        let (ct, r) = st.calm_tiles[k];
        if ct == t && st.round >= r {
            assert(st.calm_tiles@[k as int].0 == t && st.round >= st.calm_tiles@[k as int].1);
            return true;
        }
    }
    false
}

pub(crate) fn first_placement_exec(st: &GameState, seat: Seat, t: u8) -> (r: bool)
    requires
        crate::types::valid_width(st.board_w),
    ensures
        r == first_placement_ok(*st, seat, t),
{
    if matches!(seat, Seat::A) && !st.player_a.first_placement_done {
        let (_, y) = tile_xy_w(t, st.board_w);
        let rows = Seat::A.home_rows_w(st.board_w);
        let inside = y == rows[0] || y == rows[1];
        assert(inside == rows@.contains(y)) by {
            if rows@.contains(y) {
                let j = choose|j: int| 0 <= j < rows@.len() && rows@[j] == y;
                assert(j == 0 || j == 1);
            }
            if y == rows[0] {
                assert(rows@[0] == y);
            }
            if y == rows[1] {
                assert(rows@[1] == y);
            }
        }
        inside
    } else {
        true
    }
}

fn reach_enemies_exec(st: &GameState, canon: &Canon, catalog: &[CardDef], seat: Seat, reach: crate::types::Reach, tile: u8) -> (r: Vec<u8>)
    requires
        st.wf(),
    ensures
        r@ == reach_enemies(*st, *canon, catalog@, seat, reach, tile),
{
    let ts = targeting_reach(st, canon, catalog, reach, tile, seat, st.board_w);
    crate::momentum::enemies_exec(st, seat, &ts)
}

fn add_play_engaging(hi: usize, tile: u8, ts: &Vec<u8>, out: &mut Vec<Command>)
    ensures
        views(final(out)@) == views(old(out)@) + play_engaging(hi as int, tile, ts@),
{
    let ghost v0 = views(out@);
    let n = ts.len();
    for k in 0..n
        invariant
            n == ts@.len(),
            views(out@) == v0 + play_engaging(hi as int, tile, ts@.take(k as int)),
    {
        push_cmd(out, Command::PlaySpirit { hand_index: hi as u8, tile, engage: Some(ts[k]), chain_prefs: Vec::new() });
        assert(ts@.take(k + 1) == ts@.take(k as int).push(ts@[k as int]));
        assert(views(out@) =~= v0 + play_engaging(hi as int, tile, ts@.take(k + 1)));
    }
    assert(ts@.take(n as int) == ts@);
}

fn add_spirit_tile(
    st: &GameState,
    canon: &Canon,
    catalog: &[CardDef],
    seat: Seat,
    hi: usize,
    def: &CardDef,
    m: &MenuReads,
    tile: usize,
    out: &mut Vec<Command>,
)
    requires
        st.wf(),
        tile < st.board@.len(),
        reads_ok(*m, *st, catalog@, seat),
    ensures
        views(final(out)@) == views(old(out)@) + spirit_tile(*st, *canon, catalog@, seat, hi as int, *def, tile as u8),
{
    proof {
        lemma_wf_small(*st);
    }
    let ghost v0 = views(out@);
    let t8 = tile as u8;
    let t = &st.board[tile];
    if t.faded || calm_exec(st, t8) {
        proof { lemma_empty(v0); }
        return;
    }
    let stray_here = match &st.stray {
        Some(s) => s.tile == t8,
        None => false,
    };
    let held = st.contracted && is_rim_w(t8, st.board_w);
    if stray_here {
        if m.proj_slot[tile] && !held {
            push_cmd(out, Command::Overwrite { hand_index: hi as u8, tile: t8 });
        } else {
            proof { lemma_empty(v0); }
        }
        return;
    }
    if t.spirit.is_none() && t.terrain.is_none() {
        if !(m.proj[tile] || m.margin) || !first_placement_exec(st, seat, t8) {
            proof { lemma_empty(v0); }
            return;
        }
        push_cmd(out, Command::PlaySpirit { hand_index: hi as u8, tile: t8, engage: None, chain_prefs: Vec::new() });
        let ghost v1 = views(out@);
        if !def.lurk {
            let ts = reach_enemies_exec(st, canon, catalog, seat, def.reach, t8);
            add_play_engaging(hi, t8, &ts, out);
        } else {
            proof { lemma_empty(v1); }
        }
        assert(views(out@) =~= v0 + spirit_tile(*st, *canon, catalog@, seat, hi as int, *def, t8));
        return;
    }
    let enemy = match &t.spirit {
        Some(e) => e.owner != seat && !e.fading,
        None => false,
    };
    if m.proj_slot[tile] && enemy && !held {
        push_cmd(out, Command::Overwrite { hand_index: hi as u8, tile: t8 });
    } else {
        proof { lemma_empty(v0); }
    }
}

fn add_spirit_cmds(st: &GameState, canon: &Canon, catalog: &[CardDef], seat: Seat, hi: usize, def: &CardDef, m: &MenuReads, out: &mut Vec<Command>)
    requires
        st.wf(),
        reads_ok(*m, *st, catalog@, seat),
    ensures
        views(final(out)@) == views(old(out)@) + spirit_cmds(*st, *canon, catalog@, seat, hi as int, *def, st.board@.len() as int),
{
    proof {
        lemma_wf_small(*st);
    }
    let ghost v0 = views(out@);
    let n = st.board.len();
    for i in 0..n
        invariant
            n == st.board@.len() <= 64,
            st.wf(),
            reads_ok(*m, *st, catalog@, seat),
            views(out@) == v0 + spirit_cmds(*st, *canon, catalog@, seat, hi as int, *def, i as int),
    {
        add_spirit_tile(st, canon, catalog, seat, hi, def, m, i, out);
        proof { lemma_assoc(v0, spirit_cmds(*st, *canon, catalog@, seat, hi as int, *def, i as int), spirit_tile(*st, *canon, catalog@, seat, hi as int, *def, i as u8)); }
    }
}

fn add_card_cmds(st: &GameState, canon: &Canon, catalog: &[CardDef], seat: Seat, hi: usize, aura: i16, m: &MenuReads, out: &mut Vec<Command>)
    requires
        projectable(*st, catalog@),
        hand_known(*st, catalog@),
        hi < actor_player(*st).hand@.len(),
        aura == spec_cost_aura(*st, *canon, catalog@, seat),
        reads_ok(*m, *st, catalog@, seat),
    ensures
        views(final(out)@) == views(old(out)@) + card_cmds(*st, *canon, catalog@, seat, hi as int),
{
    proof {
        lemma_wf_small(*st);
    }
    let ghost v0 = views(out@);
    let pl = active_player(st);
    let def = card(catalog, pl.hand[hi]);
    let raw: i32 = def.cost as i32 + aura as i32;
    let cost: u8 = if raw >= 0 { raw as u8 } else { 0 };
    assert(cost == effective_cost(*st, *canon, catalog@, seat, def.cost, 0));
    if pl.anima < cost {
        proof { lemma_empty(v0); }
        return;
    }
    match def.kind {
        CardKind::Ritual => push_cmd(out, Command::CastRitual { hand_index: hi as u8 }),
        CardKind::Unwriting => push_cmd(out, Command::TellUnwriting { hand_index: hi as u8 }),
        CardKind::Bond => add_bond_cmds(st, seat, hi, out),
        CardKind::Landmark => add_terrain_cmds(st, catalog, seat, hi, true, m, out),
        CardKind::Fabrication => add_terrain_cmds(st, catalog, seat, hi, false, m, out),
        _ => add_spirit_cmds(st, canon, catalog, seat, hi, def, m, out),
    }
}

fn add_hand_cmds(st: &GameState, canon: &Canon, catalog: &[CardDef], seat: Seat, m: &MenuReads, out: &mut Vec<Command>)
    requires
        projectable(*st, catalog@),
        hand_known(*st, catalog@),
        reads_ok(*m, *st, catalog@, seat),
    ensures
        views(final(out)@) == views(old(out)@) + hand_cmds(*st, *canon, catalog@, seat, actor_player(*st).hand@.len() as int),
{
    let ghost v0 = views(out@);
    let aura = cost_aura(st, seat, canon, catalog);
    let pl = active_player(st);
    let n = pl.hand.len();
    for hi in 0..n
        invariant
            n == actor_player(*st).hand@.len(),
            projectable(*st, catalog@),
            hand_known(*st, catalog@),
            aura == spec_cost_aura(*st, *canon, catalog@, seat),
            reads_ok(*m, *st, catalog@, seat),
            views(out@) == v0 + hand_cmds(*st, *canon, catalog@, seat, hi as int),
    {
        add_card_cmds(st, canon, catalog, seat, hi, aura, m, out);
        proof { lemma_assoc(v0, hand_cmds(*st, *canon, catalog@, seat, hi as int), card_cmds(*st, *canon, catalog@, seat, hi as int)); }
    }
}

fn add_steps(st: &GameState, seat: Seat, from: u8, out: &mut Vec<Command>)
    requires
        st.wf(),
        (from as int) < st.board@.len(),
    ensures
        views(final(out)@) == views(old(out)@) + step_cmds(*st, seat, from, spec_adjacent4_w(from, st.board_w), spec_adjacent4_w(from, st.board_w).len() as int),
{
    let ghost v0 = views(out@);
    let adj = adjacent4_w(from, st.board_w);
    let n = adj.len();
    for k in 0..n
        invariant
            n == adj@.len(),
            adj@ == spec_adjacent4_w(from, st.board_w),
            st.wf(),
            forall|i: int| 0 <= i < adj@.len() ==> (#[trigger] adj@[i] as int) < st.board_w * st.board_w,
            views(out@) == v0 + step_cmds(*st, seat, from, adj@, k as int),
    {
        let to = adj[k];
        let t = &st.board[to as usize];
        let stray_here = match &st.stray {
            Some(s) => s.tile == to,
            None => false,
        };
        let open_ground = match &t.terrain {
            None => true,
            Some(terr) => matches!(terr.kind, TerrainKind::Fabrication) && terr.face_down && terr.owner != seat,
        };
        if !t.faded && t.spirit.is_none() && !stray_here && open_ground {
            push_cmd(out, Command::MoveSpirit { from, to, engage: None });
        } else {
            proof { lemma_empty(views(out@)); }
        }
        assert(views(out@) =~= v0 + step_cmds(*st, seat, from, adj@, k + 1));
    }
}

fn add_strikes(st: &GameState, canon: &Canon, catalog: &[CardDef], seat: Seat, reach: crate::types::Reach, from: u8, out: &mut Vec<Command>)
    requires
        st.wf(),
    ensures
        views(final(out)@) == views(old(out)@) + ({
            let ts = spec_targeting_reach(*st, *canon, catalog@, reach, from, seat, st.board_w);
            strike_cmds(*st, seat, from, ts, ts.len() as int)
        }),
{
    let ghost v0 = views(out@);
    let ts = targeting_reach(st, canon, catalog, reach, from, seat, st.board_w);
    let n = ts.len();
    for k in 0..n
        invariant
            n == ts@.len(),
            st.wf(),
            forall|i: int| 0 <= i < ts@.len() ==> (#[trigger] ts@[i] as int) < st.board_w * st.board_w,
            views(out@) == v0 + strike_cmds(*st, seat, from, ts@, k as int),
    {
        let t = ts[k];
        let trap = match &st.board[t as usize].terrain {
            Some(terr) => matches!(terr.kind, TerrainKind::Fabrication) && terr.face_down && terr.owner != seat,
            None => false,
        };
        if trap {
            push_cmd(out, Command::StrikeFabrication { from, tile: t });
        } else {
            proof { lemma_empty(views(out@)); }
        }
        assert(views(out@) =~= v0 + strike_cmds(*st, seat, from, ts@, k + 1));
    }
}

fn add_reveals(st: &GameState, canon: &Canon, catalog: &[CardDef], seat: Seat, reach: crate::types::Reach, from: u8, free: bool, out: &mut Vec<Command>)
    requires
        st.wf(),
    ensures
        views(final(out)@) == views(old(out)@) + (seq![CommandView::Reveal { tile: from, engage: None }] + if free {
            reach_enemies(*st, *canon, catalog@, seat, reach, from).map_values(|t: u8| CommandView::Reveal { tile: from, engage: Some(t) })
        } else {
            Seq::empty()
        }),
{
    let ghost v0 = views(out@);
    push_cmd(out, Command::Reveal { tile: from, engage: None });
    let ghost v1 = views(out@);
    if free {
        let ts = reach_enemies_exec(st, canon, catalog, seat, reach, from);
        let n = ts.len();
        for k in 0..n
            invariant
                n == ts@.len(),
                views(out@) == v1 + ts@.take(k as int).map_values(|t: u8| CommandView::Reveal { tile: from, engage: Some(t) }),
        {
            push_cmd(out, Command::Reveal { tile: from, engage: Some(ts[k]) });
            assert(ts@.take(k + 1) == ts@.take(k as int).push(ts@[k as int]));
            assert(views(out@) =~= v1 + ts@.take(k + 1).map_values(|t: u8| CommandView::Reveal { tile: from, engage: Some(t) }));
        }
        assert(ts@.take(n as int) == ts@);
        assert(views(out@) =~= v0 + (seq![CommandView::Reveal { tile: from, engage: None }]
            + ts@.map_values(|t: u8| CommandView::Reveal { tile: from, engage: Some(t) })));
    } else {
        assert(views(out@) =~= v0 + (seq![CommandView::Reveal { tile: from, engage: None }] + Seq::<CommandView>::empty()));
    }
}

fn add_evolve_engaging(from: u8, hi: usize, fuel: Option<u8>, ts: &Vec<u8>, out: &mut Vec<Command>)
    ensures
        views(final(out)@) == views(old(out)@) + evolve_engaging(from, hi as int, fuel, ts@),
{
    let ghost v0 = views(out@);
    push_cmd(out, Command::Evolve { tile: from, form_hand: hi as u8, fuel, engage: None });
    let ghost v1 = views(out@);
    let n = ts.len();
    for k in 0..n
        invariant
            n == ts@.len(),
            views(out@) == v1 + ts@.take(k as int).map_values(|t: u8| CommandView::Evolve { tile: from, form_hand: hi as u8, fuel, engage: Some(t) }),
    {
        push_cmd(out, Command::Evolve { tile: from, form_hand: hi as u8, fuel, engage: Some(ts[k]) });
        assert(ts@.take(k + 1) == ts@.take(k as int).push(ts@[k as int]));
        assert(views(out@) =~= v1 + ts@.take(k + 1).map_values(|t: u8| CommandView::Evolve { tile: from, form_hand: hi as u8, fuel, engage: Some(t) }));
    }
    assert(ts@.take(n as int) == ts@);
    assert(views(out@) =~= v0 + evolve_engaging(from, hi as int, fuel, ts@));
}

fn donors_exec(st: &GameState, seat: Seat, from: u8) -> (r: Vec<u8>)
    requires
        st.board@.len() <= 64,
    ensures
        r@ == donors(*st, seat, from, st.board@.len() as int),
{
    let n = st.board.len();
    let mut out: Vec<u8> = Vec::new();
    for i in 0..n
        invariant
            n == st.board@.len() <= 64,
            out@ == donors(*st, seat, from, i as int),
    {
        let ok = i as u8 != from && match &st.board[i].spirit {
            Some(d) => d.owner == seat && !d.is_token,
            None => false,
        };
        if ok {
            out.push(i as u8);
        }
    }
    out
}

pub(crate) fn contains_card(v: &Vec<crate::types::CardId>, c: crate::types::CardId) -> (r: bool)
    ensures
        r == v@.contains(c),
{
    let n = v.len();
    for i in 0..n
        invariant
            n == v@.len(),
            forall|j: int| 0 <= j < i ==> v@[j] != c,
    {
        if v[i] == c {
            assert(v@[i as int] == c);
            return true;
        }
    }
    false
}

fn add_evolve_form(
    st: &GameState,
    canon: &Canon,
    catalog: &[CardDef],
    seat: Seat,
    from: u8,
    hi: usize,
    forms: &Vec<crate::types::CardId>,
    aura: i16,
    out: &mut Vec<Command>,
)
    requires
        projectable(*st, catalog@),
        hand_known(*st, catalog@),
        (from as int) < st.board@.len(),
        st.board@[from as int].spirit is Some,
        hi < actor_player(*st).hand@.len(),
        forms@ == spec_legal_evolutions(*st, *canon, catalog@, spec_card(catalog@, st.board@[from as int].spirit->Some_0.card), seat),
        aura == spec_cost_aura(*st, *canon, catalog@, seat),
    ensures
        views(final(out)@) == views(old(out)@) + evolve_form(*st, *canon, catalog@, seat, from, hi as int),
{
    proof {
        lemma_wf_small(*st);
    }
    let ghost v0 = views(out@);
    let sp = match &st.board[from as usize].spirit {
        Some(sp) => sp,
        None => return,
    };
    let pl = active_player(st);
    let base = card(catalog, sp.card);
    let form_id = pl.hand[hi];
    let form = card(catalog, form_id);
    let fabled_name = crate::text::text_of("Fabled");
    let fabled = form.rarity == fabled_name;
    let ready = !sp.fading && !crate::evolve::contains_tile(&st.moved_this_turn, from);
    let raw: i32 = form.cost as i32 - (base.cost / 2) as i32 + aura as i32;
    let cost: u8 = if raw >= 0 { raw as u8 } else { 0 };
    let allowed = if fabled { ready } else { sp.fading };
    if !contains_card(forms, form_id) || !allowed || pl.anima < cost {
        proof { lemma_empty(v0); }
        return;
    }
    let ts = reach_enemies_exec(st, canon, catalog, seat, form.reach, from);
    if fabled {
        let ds = donors_exec(st, seat, from);
        let m = ds.len();
        for k in 0..m
            invariant
                m == ds@.len(),
                views(out@) == v0 + donor_cmds(from, hi as int, ds@, ts@, k as int),
        {
            let ghost vk = views(out@);
            add_evolve_engaging(from, hi, Some(ds[k]), &ts, out);
            proof { lemma_assoc(v0, donor_cmds(from, hi as int, ds@, ts@, k as int), evolve_engaging(from, hi as int, Some(ds@[k as int]), ts@)); }
        }
    } else {
        add_evolve_engaging(from, hi, None, &ts, out);
    }
}

fn add_evolves(st: &GameState, canon: &Canon, catalog: &[CardDef], seat: Seat, from: u8, aura: i16, out: &mut Vec<Command>)
    requires
        projectable(*st, catalog@),
        hand_known(*st, catalog@),
        (from as int) < st.board@.len(),
        st.board@[from as int].spirit is Some,
        aura == spec_cost_aura(*st, *canon, catalog@, seat),
    ensures
        views(final(out)@) == views(old(out)@) + evolve_cmds(*st, *canon, catalog@, seat, from, actor_player(*st).hand@.len() as int),
{
    let ghost v0 = views(out@);
    let sp = match &st.board[from as usize].spirit {
        Some(sp) => sp,
        None => return,
    };
    let base = card(catalog, sp.card);
    let forms = legal_evolutions(st, canon, catalog, base, seat);
    let pl = active_player(st);
    let n = pl.hand.len();
    for hi in 0..n
        invariant
            n == actor_player(*st).hand@.len(),
            projectable(*st, catalog@),
            hand_known(*st, catalog@),
            (from as int) < st.board@.len(),
            st.board@[from as int].spirit is Some,
            forms@ == spec_legal_evolutions(*st, *canon, catalog@, spec_card(catalog@, st.board@[from as int].spirit->Some_0.card), seat),
            aura == spec_cost_aura(*st, *canon, catalog@, seat),
            views(out@) == v0 + evolve_cmds(*st, *canon, catalog@, seat, from, hi as int),
    {
        add_evolve_form(st, canon, catalog, seat, from, hi, &forms, aura, out);
        proof { lemma_assoc(v0, evolve_cmds(*st, *canon, catalog@, seat, from, hi as int), evolve_form(*st, *canon, catalog@, seat, from, hi as int)); }
    }
}

fn add_devolves(st: &GameState, catalog: &[CardDef], from: u8, base_name: &String, out: &mut Vec<Command>)
    requires
        hand_known(*st, catalog@),
    ensures
        views(final(out)@) == views(old(out)@) + devolve_cmds(*st, catalog@, from, base_name@, actor_player(*st).hand@.len() as int),
{
    let ghost v0 = views(out@);
    let pl = active_player(st);
    let n = pl.hand.len();
    for hi in 0..n
        invariant
            n == actor_player(*st).hand@.len(),
            *pl == actor_player(*st),
            hand_known(*st, catalog@),
            views(out@) == v0 + devolve_cmds(*st, catalog@, from, base_name@, hi as int),
    {
        if card(catalog, pl.hand[hi]).name == *base_name {
            push_cmd(out, Command::Devolve { tile: from, base_hand: hi as u8 });
        } else {
            proof { lemma_empty(views(out@)); }
        }
        assert(views(out@) =~= v0 + devolve_cmds(*st, catalog@, from, base_name@, hi + 1));
    }
}

#[verifier::rlimit(40)]
fn add_spirit_moves(st: &GameState, canon: &Canon, catalog: &[CardDef], seat: Seat, from: u8, sp: &Spirit, out: &mut Vec<Command>)
    requires
        projectable(*st, catalog@),
        hand_known(*st, catalog@),
        (from as int) < st.board@.len(),
        st.board@[from as int].spirit == Some(*sp),
    ensures
        views(final(out)@) == views(old(out)@) + spirit_moves(*st, *canon, catalog@, seat, from, *sp),
{
    proof {
        lemma_wf_small(*st);
    }
    let ghost v0 = views(out@);
    let up = sp.owner == seat && !sp.fading;
    let reach = card(catalog, sp.card).reach;
    let ghost adj = spec_adjacent4_w(from, st.board_w);
    let ghost moves = if up && spec_keyword_active(*st, *canon, catalog@, from, Keyword::Mobile)
        && !spec_restricted(*st, seat, Restriction::Move) && !st.moved_this_turn@.contains(from) {
        step_cmds(*st, seat, from, adj, adj.len() as int)
    } else {
        Seq::<CommandView>::empty()
    };
    if up && keyword_active(st, canon, catalog, from, Keyword::Mobile) && !restricted(st, seat, Restriction::Move)
        && !crate::evolve::contains_tile(&st.moved_this_turn, from) {
        add_steps(st, seat, from, out);
    }
    assert(views(out@) =~= v0 + moves);
    let ghost v1 = views(out@);
    let ghost reveals = if up && sp.face_down {
        seq![CommandView::Reveal { tile: from, engage: None }] + if sp.no_engage_until < st.round {
            reach_enemies(*st, *canon, catalog@, seat, reach, from).map_values(|t: u8| CommandView::Reveal { tile: from, engage: Some(t) })
        } else {
            Seq::empty()
        }
    } else {
        Seq::<CommandView>::empty()
    };
    if up && sp.face_down {
        add_reveals(st, canon, catalog, seat, reach, from, sp.no_engage_until < st.round, out);
    }
    assert(views(out@) =~= v1 + reveals);
    assert(views(out@) =~= v0 + spirit_moves(*st, *canon, catalog@, seat, from, *sp));
}

#[verifier::rlimit(40)]
fn add_spirit_stances(st: &GameState, canon: &Canon, catalog: &[CardDef], seat: Seat, from: u8, sp: &Spirit, out: &mut Vec<Command>)
    requires
        projectable(*st, catalog@),
        hand_known(*st, catalog@),
        (from as int) < st.board@.len(),
        st.board@[from as int].spirit == Some(*sp),
    ensures
        views(final(out)@) == views(old(out)@) + spirit_stances(*st, *canon, catalog@, seat, from, *sp),
{
    proof {
        lemma_wf_small(*st);
    }
    let ghost v0 = views(out@);
    let up = sp.owner == seat && !sp.fading;
    let reach = card(catalog, sp.card).reach;
    let ghost orders = if up {
        seq![CommandView::SetOrders { tile: from, hold: !sp.holding }, CommandView::Reclaim { tile: from }]
    } else {
        Seq::<CommandView>::empty()
    };
    if up {
        push_cmd(out, Command::SetOrders { tile: from, hold: !sp.holding });
        push_cmd(out, Command::Reclaim { tile: from });
    }
    assert(views(out@) =~= v0 + orders);
    let ghost v1 = views(out@);
    let ghost strikes = if up && !sp.face_down {
        let ts = spec_targeting_reach(*st, *canon, catalog@, reach, from, seat, st.board_w);
        strike_cmds(*st, seat, from, ts, ts.len() as int)
    } else {
        Seq::<CommandView>::empty()
    };
    if up && !sp.face_down {
        add_strikes(st, canon, catalog, seat, reach, from, out);
    }
    assert(views(out@) =~= v1 + strikes);
    assert(views(out@) =~= v0 + spirit_stances(*st, *canon, catalog@, seat, from, *sp));
}

#[verifier::rlimit(40)]
fn add_spirit_forms(st: &GameState, canon: &Canon, catalog: &[CardDef], seat: Seat, from: u8, sp: &Spirit, aura: i16, out: &mut Vec<Command>)
    requires
        projectable(*st, catalog@),
        hand_known(*st, catalog@),
        (from as int) < st.board@.len(),
        st.board@[from as int].spirit == Some(*sp),
        aura == spec_cost_aura(*st, *canon, catalog@, seat),
    ensures
        views(final(out)@) == views(old(out)@) + spirit_forms(*st, *canon, catalog@, seat, from, *sp),
{
    proof {
        lemma_wf_small(*st);
    }
    let ghost v0 = views(out@);
    let own = sp.owner == seat;
    let pl = active_player(st);
    let ghost evolves = if own { evolve_cmds(*st, *canon, catalog@, seat, from, pl.hand@.len() as int) } else { Seq::<CommandView>::empty() };
    if own {
        add_evolves(st, canon, catalog, seat, from, aura, out);
    } else {
        proof { lemma_empty(v0); }
    }
    assert(views(out@) =~= v0 + evolves);
    let ghost v1 = views(out@);
    let form = card(catalog, sp.card);
    let ghost devolves = if own && sp.fading && sp.fade_deadline is Some && form.evolves_from is Some && pl.anima >= form.cost / 2 {
        devolve_cmds(*st, catalog@, from, form.evolves_from->Some_0@, pl.hand@.len() as int)
    } else {
        Seq::<CommandView>::empty()
    };
    if own && sp.fading && sp.fade_deadline.is_some() && pl.anima >= form.cost / 2 {
        match &form.evolves_from {
            Some(bn) => add_devolves(st, catalog, from, bn, out),
            None => {},
        }
    }
    assert(views(out@) =~= v1 + devolves);
    assert(views(out@) =~= v0 + spirit_forms(*st, *canon, catalog@, seat, from, *sp));
}

fn add_tile_cmds(st: &GameState, canon: &Canon, catalog: &[CardDef], seat: Seat, from: usize, aura: i16, out: &mut Vec<Command>)
    requires
        projectable(*st, catalog@),
        hand_known(*st, catalog@),
        from < st.board@.len(),
        aura == spec_cost_aura(*st, *canon, catalog@, seat),
    ensures
        views(final(out)@) == views(old(out)@) + tile_cmds(*st, *canon, catalog@, seat, from as u8),
{
    proof {
        lemma_wf_small(*st);
    }
    let ghost v0 = views(out@);
    let f = from as u8;
    match &st.board[from].spirit {
        Some(sp) => {
            add_spirit_moves(st, canon, catalog, seat, f, sp, out);
            add_spirit_stances(st, canon, catalog, seat, f, sp, out);
            add_spirit_forms(st, canon, catalog, seat, f, sp, aura, out);
            proof {
                let m = spirit_moves(*st, *canon, catalog@, seat, f, *sp);
                let k = spirit_stances(*st, *canon, catalog@, seat, f, *sp);
                let g = spirit_forms(*st, *canon, catalog@, seat, f, *sp);
                lemma_assoc(v0, m, k);
                lemma_assoc(v0, m + k, g);
            }
        },
        None => {
            proof { lemma_empty(v0); }
        },
    }
}

fn add_board_cmds(st: &GameState, canon: &Canon, catalog: &[CardDef], seat: Seat, out: &mut Vec<Command>)
    requires
        projectable(*st, catalog@),
        hand_known(*st, catalog@),
    ensures
        views(final(out)@) == views(old(out)@) + board_cmds(*st, *canon, catalog@, seat, st.board@.len() as int),
{
    proof {
        lemma_wf_small(*st);
    }
    let ghost v0 = views(out@);
    let aura = cost_aura(st, seat, canon, catalog);
    let n = st.board.len();
    for i in 0..n
        invariant
            n == st.board@.len() <= 64,
            projectable(*st, catalog@),
            hand_known(*st, catalog@),
            aura == spec_cost_aura(*st, *canon, catalog@, seat),
            views(out@) == v0 + board_cmds(*st, *canon, catalog@, seat, i as int),
    {
        add_tile_cmds(st, canon, catalog, seat, i, aura, out);
        proof { lemma_assoc(v0, board_cmds(*st, *canon, catalog@, seat, i as int), tile_cmds(*st, *canon, catalog@, seat, i as u8)); }
    }
}

/// Every command `seat` may legally play right now (see `spec_legal_commands`): the menu a
/// client shows and a bot samples.
pub fn legal_commands(st: &GameState, canon: &Canon, catalog: &[CardDef], seat: Seat) -> (r: Vec<Command>)
    requires
        projectable(*st, catalog@),
        hand_known(*st, catalog@),
    ensures
        views(r@) == spec_legal_commands(*st, *canon, catalog@, seat),
{
    let mut out: Vec<Command> = Vec::new();
    assert(views(out@) =~= Seq::<CommandView>::empty());
    if matches!(st.phase, Phase::Finished { .. }) || st.active != seat {
        return out;
    }
    match st.phase {
        Phase::PendingChoice { seat: s } => {
            match &st.pending_choice {
                Some(pc) => {
                    if s == seat {
                        let n = choice_options(pc);
                        for i in 0..n
                            invariant
                                views(out@) =~= Seq::new(i as nat, |k: int| CommandView::Choose { index: k as u8 }),
                        {
                            push_cmd(&mut out, Command::Choose { index: i as u8 });
                            assert(views(out@) =~= Seq::new((i + 1) as nat, |k: int| CommandView::Choose { index: k as u8 }));
                        }
                    }
                },
                None => {},
            }
            return out;
        },
        Phase::PendingRelease { seat: s } => {
            if s == seat {
                let n = active_player(st).hand.len();
                for i in 0..n
                    invariant
                        views(out@) =~= Seq::new(i as nat, |k: int| CommandView::Release { hand_index: k as u8 }),
                {
                    push_cmd(&mut out, Command::Release { hand_index: i as u8 });
                    assert(views(out@) =~= Seq::new((i + 1) as nat, |k: int| CommandView::Release { hand_index: k as u8 }));
                }
            }
            return out;
        },
        _ => {},
    }
    add_opening(st, seat, &mut out);
    let m = menu_reads(st, catalog, seat);
    add_hand_cmds(st, canon, catalog, seat, &m, &mut out);
    add_board_cmds(st, canon, catalog, seat, &mut out);
    out
}

// ---------------------------------------------------------------------------
// What the menu offers is accepted
// ---------------------------------------------------------------------------

/// The form in hand slot `form_hand` names the base on `tile` as the one it evolves from.
pub open spec fn lined(st: GameState, catalog: Seq<CardDef>, tile: u8, form_hand: u8) -> bool {
    st.spec_spirit_at(tile) matches Some(b) && hand_card(st, form_hand) matches Some(f)
        && spec_card(catalog, f).evolves_from matches Some(n) && n@ == spec_card(catalog, b.card).name@
}

/// The decision for command `c` of `seat` accepts it, for the commands whose decision
/// takes no more than the state: standing orders, reclaiming, striking a trap, banishing
/// the Stray, the mulligan, playing a spirit, an Overwrite (whatever the Echo roll), a
/// Mobile step, an evolution whose form names the base (its checks and plan), devolving,
/// revealing, telling an Unwriting, attaching a Bond, placing a Landmark, and casting a
/// Ritual or setting a Fabrication whose cost (with the Ritual discount, or the Long
/// Shadow's delta) the seat can pay. The Glimpse, a choice's answer, a release and the end
/// of the turn have no decision in this crate and are not constrained here.
pub open spec fn accepted_offer(st: GameState, canon: Canon, catalog: Seq<CardDef>, seat: Seat, c: CommandView) -> bool {
    match c {
        CommandView::SetOrders { tile, hold } => spec_set_orders(st, seat, tile, hold) is Ok,
        CommandView::Reclaim { tile } => spec_reclaim(st, seat, tile) is Ok,
        CommandView::StrikeFabrication { from, tile } => spec_strike_fabrication(st, canon, catalog, seat, from, tile) is Ok,
        CommandView::TellUnwriting { hand_index } => spec_tell_unwriting(st, canon, catalog, seat, hand_index) is Ok,
        CommandView::CastRitual { hand_index } => {
            let discount = seat_get(st.next_ritual_discount, seat);
            hand_card(st, hand_index) matches Some(cid)
                && actor_player(st).anima >= effective_cost(st, canon, catalog, seat, spec_card(catalog, cid).cost, -(discount as int))
                ==> spec_cast_ritual(st, canon, catalog, seat, hand_index) is Ok
        },
        CommandView::BanishStray => spec_banish_stray(st, seat) is Ok,
        CommandView::Devolve { tile, base_hand } => spec_devolve(st, catalog, seat, tile, base_hand) is Ok,
        CommandView::Reveal { tile, engage } => spec_reveal(st, canon, catalog, seat, tile, engage) is Ok,
        CommandView::MoveSpirit { from, to, engage } => spec_move_spirit(st, canon, catalog, seat, from, to, engage) is Ok,
        CommandView::PlaySpirit { hand_index, tile, engage, .. } => spec_play_spirit(st, canon, catalog, seat, hand_index, tile, engage) is Ok,
        CommandView::Overwrite { hand_index, tile } => spec_overwrite(st, canon, catalog, seat, hand_index, tile, false) is Ok
            && spec_overwrite(st, canon, catalog, seat, hand_index, tile, true) is Ok,
        CommandView::Evolve { tile, form_hand, fuel, engage } => lined(st, catalog, tile, form_hand)
            ==> spec_evolve_plan(st, canon, catalog, seat, tile, form_hand, fuel, engage) is Ok,
        CommandView::Mulligan { seat: s } => s == seat && spec_mulligan_window(st, seat),
        CommandView::AttachBond { hand_index, tile_a, tile_b } => spec_attach_bond(st, canon, catalog, seat, hand_index, tile_a, tile_b) is Ok,
        CommandView::PlaceLandmark { hand_index, tile } => {
            let laid = match hand_card(st, hand_index) {
                Some(cid) => Event::LandmarkPlaced { seat, card: cid, tile },
                None => Event::MatchStarted,
            };
            spec_set_terrain(st, canon, catalog, seat, hand_index, tile, CardKind::Landmark, 0, laid) is Ok
        },
        CommandView::SetFabrication { hand_index, tile } => {
            let laid = match hand_card(st, hand_index) {
                Some(cid) => Event::FabricationSet { seat, card: cid, tile },
                None => Event::MatchStarted,
            };
            let extra = fab_delta(st, canon, catalog, seat, tile);
            hand_card(st, hand_index) matches Some(cid)
                && actor_player(st).anima >= effective_cost(st, canon, catalog, seat, spec_card(catalog, cid).cost, extra)
                ==> spec_set_terrain(st, canon, catalog, seat, hand_index, tile, CardKind::Fabrication, extra, laid) is Ok
        },
        _ => true,
    }
}

/// Every command of `cs` is accepted (see `accepted_offer`).
pub open spec fn all_accepted(st: GameState, canon: Canon, catalog: Seq<CardDef>, seat: Seat, cs: Seq<CommandView>) -> bool {
    forall|i: int| 0 <= i < cs.len() ==> accepted_offer(st, canon, catalog, seat, #[trigger] cs[i])
}

proof fn lemma_all_add(st: GameState, canon: Canon, catalog: Seq<CardDef>, seat: Seat, a: Seq<CommandView>, b: Seq<CommandView>)
    requires
        all_accepted(st, canon, catalog, seat, a),
        all_accepted(st, canon, catalog, seat, b),
    ensures
        all_accepted(st, canon, catalog, seat, a + b),
{
    assert forall|i: int| 0 <= i < (a + b).len() implies accepted_offer(st, canon, catalog, seat, #[trigger] (a + b)[i]) by {
        if i < a.len() {
            assert((a + b)[i] == a[i]);
        } else {
            assert((a + b)[i] == b[i - a.len()]);
        }
    }
}

/// The acting player holds a card of `kind` in slot `hi`, and can pay its cost.
pub open spec fn hand_slot_ready(st: GameState, canon: Canon, catalog: Seq<CardDef>, seat: Seat, hi: int, kind: CardKind) -> bool {
    let pl = actor_player(st);
    &&& 0 <= hi < pl.hand@.len()
    &&& hi < 256
    &&& spec_card(catalog, pl.hand@[hi]).kind == kind
    &&& pl.anima >= effective_cost(st, canon, catalog, seat, spec_card(catalog, pl.hand@[hi]).cost, 0)
}

proof fn lemma_bond_row(st: GameState, canon: Canon, catalog: Seq<CardDef>, seat: Seat, hi: int, a: int, m: int)
    requires
        hand_slot_ready(st, canon, catalog, seat, hi, CardKind::Bond),
        0 <= a < 256,
        m <= 256,
    ensures
        all_accepted(st, canon, catalog, seat, bond_row(st, seat, hi, a, m)),
    decreases m,
{
    if m > 0 {
        lemma_bond_row(st, canon, catalog, seat, hi, a, m - 1);
        let b = m - 1;
        let piece = if own_standing(st, seat, a as u8) && own_standing(st, seat, b as u8) && a < b
            && spec_manhattan(a as u8, b as u8) == 1 {
            seq![CommandView::AttachBond { hand_index: hi as u8, tile_a: a as u8, tile_b: b as u8 }]
        } else {
            Seq::empty()
        };
        assert(hand_card(st, hi as u8) == Some(actor_player(st).hand@[hi]));
        assert(all_accepted(st, canon, catalog, seat, piece));
        lemma_all_add(st, canon, catalog, seat, bond_row(st, seat, hi, a, m - 1), piece);
    }
}

proof fn lemma_bond_cmds(st: GameState, canon: Canon, catalog: Seq<CardDef>, seat: Seat, hi: int, n: int)
    requires
        hand_slot_ready(st, canon, catalog, seat, hi, CardKind::Bond),
        n <= 256,
        st.board@.len() <= 64,
    ensures
        all_accepted(st, canon, catalog, seat, bond_cmds(st, seat, hi, n)),
    decreases n,
{
    if n > 0 {
        lemma_bond_cmds(st, canon, catalog, seat, hi, n - 1);
        lemma_bond_row(st, canon, catalog, seat, hi, n - 1, st.board@.len() as int);
        lemma_all_add(st, canon, catalog, seat, bond_cmds(st, seat, hi, n - 1), bond_row(st, seat, hi, n - 1, st.board@.len() as int));
    }
}

proof fn lemma_terrain_cmds(st: GameState, canon: Canon, catalog: Seq<CardDef>, seat: Seat, hi: int, landmark: bool, n: int)
    requires
        hand_slot_ready(st, canon, catalog, seat, hi, if landmark { CardKind::Landmark } else { CardKind::Fabrication }),
        n <= 256,
    ensures
        all_accepted(st, canon, catalog, seat, terrain_cmds(st, catalog, seat, hi, landmark, n)),
    decreases n,
{
    if n > 0 {
        lemma_terrain_cmds(st, canon, catalog, seat, hi, landmark, n - 1);
        let t = (n - 1) as u8;
        let piece = if !tile_held(st, t) && (proj(st, catalog, seat, n - 1) || margin(st, catalog, seat)) {
            seq![if landmark { CommandView::PlaceLandmark { hand_index: hi as u8, tile: t } } else { CommandView::SetFabrication { hand_index: hi as u8, tile: t } }]
        } else {
            Seq::empty()
        };
        assert(hand_card(st, hi as u8) == Some(actor_player(st).hand@[hi]));
        assert(t as int == n - 1);
        assert(all_accepted(st, canon, catalog, seat, piece));
        lemma_all_add(st, canon, catalog, seat, terrain_cmds(st, catalog, seat, hi, landmark, n - 1), piece);
    }
}

proof fn lemma_spirit_cmds(st: GameState, canon: Canon, catalog: Seq<CardDef>, seat: Seat, hi: int, def: CardDef, n: int)
    requires
        0 <= hi < actor_player(st).hand@.len(),
        hi < 256,
        def == spec_card(catalog, actor_player(st).hand@[hi]),
        actor_player(st).anima >= effective_cost(st, canon, catalog, seat, def.cost, 0),
        st.pending_choice is None,
        n <= st.board@.len() <= 64,
        st.active_slot.spec_team() == seat,
        st.stray matches Some(s) ==> (s.tile as int) < st.board@.len() ==> st.board@[s.tile as int].spirit is None,
    ensures
        all_accepted(st, canon, catalog, seat, spirit_cmds(st, canon, catalog, seat, hi, def, n)),
    decreases n,
{
    if n > 0 {
        lemma_spirit_cmds(st, canon, catalog, seat, hi, def, n - 1);
        let tile = (n - 1) as u8;
        assert(tile as int == n - 1);
        assert(hand_card(st, hi as u8) == Some(actor_player(st).hand@[hi]));
        let piece = spirit_tile(st, canon, catalog, seat, hi, def, tile);
        let ts = reach_enemies(st, canon, catalog, seat, def.reach, tile);
        let first = seq![CommandView::PlaySpirit { hand_index: hi as u8, tile, engage: None, chain_prefs: Seq::empty() }];
        let t = st.board@[tile as int];
        assert(proj_slot(st, catalog, seat, tile as int) == slot_projects(st, catalog, tile));
        if stray_on(st, tile) {
            assert(st.spec_spirit_at(tile) is None);
        }
        if !(t.faded || calm(st, tile)) && !stray_on(st, tile) && t.spirit is None && t.terrain is None
            && (proj(st, catalog, seat, tile as int) || margin(st, catalog, seat)) && first_placement_ok(st, seat, tile) {
            assert(play_landing_refusal(st, catalog, seat, tile) is None);
            assert(all_accepted(st, canon, catalog, seat, first));
            lemma_all_add(st, canon, catalog, seat, first, Seq::empty());
            if !def.lurk {
                let r = spec_targeting_reach(st, canon, catalog, def.reach, tile, seat, st.board_w);
                lemma_enemies_in(st, seat, r, r.len() as int);
                let pe = play_engaging(hi, tile, ts);
                assert forall|j: int| 0 <= j < pe.len() implies accepted_offer(st, canon, catalog, seat, #[trigger] pe[j]) by {
                    let x = ts[j];
                    assert(pe[j] == CommandView::PlaySpirit { hand_index: hi as u8, tile, engage: Some(x), chain_prefs: Seq::empty() });
                    assert(r.contains(x));
                    assert(st.spec_spirit_at(x) is Some);
                    assert(play_engage_refusal(st, canon, catalog, seat, def, tile, x) is None);
                }
                lemma_all_add(st, canon, catalog, seat, first, pe);
            }
        }
        assert(all_accepted(st, canon, catalog, seat, piece));
        lemma_all_add(st, canon, catalog, seat, spirit_cmds(st, canon, catalog, seat, hi, def, n - 1), piece);
    }
}

proof fn lemma_card_cmds(st: GameState, canon: Canon, catalog: Seq<CardDef>, seat: Seat, hi: int)
    requires
        st.active_slot.spec_team() == seat,
        st.stray matches Some(s) ==> (s.tile as int) < st.board@.len() ==> st.board@[s.tile as int].spirit is None,
        st.pending_choice is None,
        0 <= hi < actor_player(st).hand@.len(),
        hi < 256,
        st.board@.len() <= 64,
    ensures
        all_accepted(st, canon, catalog, seat, card_cmds(st, canon, catalog, seat, hi)),
{
    let pl = actor_player(st);
    let def = spec_card(catalog, pl.hand@[hi]);
    let n = st.board@.len() as int;
    if pl.anima >= effective_cost(st, canon, catalog, seat, def.cost, 0) {
        match def.kind {
            CardKind::Bond => lemma_bond_cmds(st, canon, catalog, seat, hi, n),
            CardKind::Landmark => lemma_terrain_cmds(st, canon, catalog, seat, hi, true, n),
            CardKind::Fabrication => lemma_terrain_cmds(st, canon, catalog, seat, hi, false, n),
            CardKind::Ritual => {
                assert(hand_card(st, hi as u8) == Some(pl.hand@[hi]));
            },
            CardKind::Unwriting => {
                assert(hand_card(st, hi as u8) == Some(pl.hand@[hi]));
            },
            _ => lemma_spirit_cmds(st, canon, catalog, seat, hi, def, n),
        }
    }
}

proof fn lemma_hand_cmds(st: GameState, canon: Canon, catalog: Seq<CardDef>, seat: Seat, k: int)
    requires
        st.active_slot.spec_team() == seat,
        st.stray matches Some(s) ==> (s.tile as int) < st.board@.len() ==> st.board@[s.tile as int].spirit is None,
        st.pending_choice is None,
        k <= actor_player(st).hand@.len(),
        k <= 256,
        st.board@.len() <= 64,
    ensures
        all_accepted(st, canon, catalog, seat, hand_cmds(st, canon, catalog, seat, k)),
    decreases k,
{
    if k > 0 {
        lemma_hand_cmds(st, canon, catalog, seat, k - 1);
        lemma_card_cmds(st, canon, catalog, seat, k - 1);
        lemma_all_add(st, canon, catalog, seat, hand_cmds(st, canon, catalog, seat, k - 1), card_cmds(st, canon, catalog, seat, k - 1));
    }
}

proof fn lemma_step_cmds(st: GameState, canon: Canon, catalog: Seq<CardDef>, seat: Seat, from: u8, sp: Spirit, k: int)
    requires
        st.wf(),
        (from as int) < st.board@.len(),
        st.board@[from as int].spirit == Some(sp),
        sp.owner == seat && !sp.fading,
        spec_keyword_active(st, canon, catalog, from, Keyword::Mobile),
        !spec_restricted(st, seat, Restriction::Move),
        !st.moved_this_turn@.contains(from),
        k <= spec_adjacent4_w(from, st.board_w).len(),
    ensures
        all_accepted(st, canon, catalog, seat, step_cmds(st, seat, from, spec_adjacent4_w(from, st.board_w), k)),
    decreases k,
{
    let adj = spec_adjacent4_w(from, st.board_w);
    if k > 0 {
        lemma_step_cmds(st, canon, catalog, seat, from, sp, k - 1);
        lemma_adjacent4_on_board(from, st.board_w);
        let to = adj[k - 1];
        let t = st.board@[to as int];
        let piece = if !t.faded && t.spirit is None && !stray_on(st, to) && (t.terrain is None || hidden_trap(st, seat, to)) {
            seq![CommandView::MoveSpirit { from, to, engage: None }]
        } else {
            Seq::empty()
        };
        assert(adj.contains(to));
        assert(st.spec_spirit_at(from) == Some(sp));
        assert(all_accepted(st, canon, catalog, seat, piece));
        lemma_all_add(st, canon, catalog, seat, step_cmds(st, seat, from, adj, k - 1), piece);
    }
}

proof fn lemma_strike_cmds(st: GameState, canon: Canon, catalog: Seq<CardDef>, seat: Seat, from: u8, sp: Spirit, ts: Seq<u8>, k: int)
    requires
        (from as int) < st.board@.len(),
        st.board@[from as int].spirit == Some(sp),
        sp.owner == seat && !sp.fading && !sp.face_down,
        st.pending_choice is None,
        ts == spec_targeting_reach(st, canon, catalog, spec_card(catalog, sp.card).reach, from, seat, st.board_w),
        k <= ts.len(),
    ensures
        all_accepted(st, canon, catalog, seat, strike_cmds(st, seat, from, ts, k)),
    decreases k,
{
    if k > 0 {
        lemma_strike_cmds(st, canon, catalog, seat, from, sp, ts, k - 1);
        let piece = if hidden_trap(st, seat, ts[k - 1]) {
            seq![CommandView::StrikeFabrication { from, tile: ts[k - 1] }]
        } else {
            Seq::empty()
        };
        assert(st.spec_spirit_at(from) == Some(sp));
        assert(ts.contains(ts[k - 1]));
        assert(all_accepted(st, canon, catalog, seat, piece));
        lemma_all_add(st, canon, catalog, seat, strike_cmds(st, seat, from, ts, k - 1), piece);
    }
}

proof fn lemma_enemies_in(st: GameState, actor: Seat, ts: Seq<u8>, n: int)
    requires
        n <= ts.len(),
    ensures
        forall|i: int| 0 <= i < enemies_in(st, actor, ts, n).len() ==> {
            let t = #[trigger] enemies_in(st, actor, ts, n)[i];
            &&& ts.contains(t)
            &&& st.spec_spirit_at(t) matches Some(e) && e.owner != actor && !e.fading
        },
    decreases n,
{
    if n > 0 {
        lemma_enemies_in(st, actor, ts, n - 1);
        let prev = enemies_in(st, actor, ts, n - 1);
        let cur = enemies_in(st, actor, ts, n);
        assert forall|i: int| 0 <= i < cur.len() implies {
            let t = #[trigger] cur[i];
            &&& ts.contains(t)
            &&& st.spec_spirit_at(t) matches Some(e) && e.owner != actor && !e.fading
        } by {
            if i < prev.len() {
                assert(cur[i] == prev[i]);
            } else {
                assert(cur[i] == ts[n - 1]);
            }
        }
    }
}

proof fn lemma_spirit_moves(st: GameState, canon: Canon, catalog: Seq<CardDef>, seat: Seat, from: u8, sp: Spirit)
    requires
        st.wf(),
        (from as int) < st.board@.len(),
        st.board@[from as int].spirit == Some(sp),
        st.pending_choice is None,
    ensures
        all_accepted(st, canon, catalog, seat, spirit_moves(st, canon, catalog, seat, from, sp)),
{
    let up = sp.owner == seat && !sp.fading;
    let reach = spec_card(catalog, sp.card).reach;
    let adj = spec_adjacent4_w(from, st.board_w);
    let moves = if up && spec_keyword_active(st, canon, catalog, from, Keyword::Mobile)
        && !spec_restricted(st, seat, Restriction::Move) && !st.moved_this_turn@.contains(from) {
        step_cmds(st, seat, from, adj, adj.len() as int)
    } else {
        Seq::empty()
    };
    if up && spec_keyword_active(st, canon, catalog, from, Keyword::Mobile)
        && !spec_restricted(st, seat, Restriction::Move) && !st.moved_this_turn@.contains(from) {
        lemma_step_cmds(st, canon, catalog, seat, from, sp, adj.len() as int);
    }
    assert(all_accepted(st, canon, catalog, seat, moves));
    assert(st.spec_spirit_at(from) == Some(sp));
    let engaging = reach_enemies(st, canon, catalog, seat, reach, from).map_values(|t: u8| CommandView::Reveal { tile: from, engage: Some(t) });
    let first = seq![CommandView::Reveal { tile: from, engage: None }];
    let reveals = if up && sp.face_down {
        first + if sp.no_engage_until < st.round { engaging } else { Seq::empty() }
    } else {
        Seq::empty()
    };
    if up && sp.face_down {
        assert(all_accepted(st, canon, catalog, seat, first));
        lemma_all_add(st, canon, catalog, seat, first, Seq::empty());
        if sp.no_engage_until < st.round {
            let r = spec_targeting_reach(st, canon, catalog, reach, from, seat, st.board_w);
            lemma_enemies_in(st, seat, r, r.len() as int);
            let es = reach_enemies(st, canon, catalog, seat, reach, from);
            assert forall|j: int| 0 <= j < engaging.len() implies accepted_offer(st, canon, catalog, seat, #[trigger] engaging[j]) by {
                let t = es[j];
                assert(engaging[j] == CommandView::Reveal { tile: from, engage: Some(t) });
                assert(r.contains(t));
                assert(st.spec_spirit_at(t) is Some);
                assert(reveal_engage_refusal(st, canon, catalog, seat, from, t) is None);
            }
            lemma_all_add(st, canon, catalog, seat, first, engaging);
        }
    }
    assert(all_accepted(st, canon, catalog, seat, reveals));
    lemma_all_add(st, canon, catalog, seat, moves, reveals);
}

proof fn lemma_spirit_stances(st: GameState, canon: Canon, catalog: Seq<CardDef>, seat: Seat, from: u8, sp: Spirit)
    requires
        st.pending_choice is None,
        (from as int) < st.board@.len(),
        st.board@[from as int].spirit == Some(sp),
    ensures
        all_accepted(st, canon, catalog, seat, spirit_stances(st, canon, catalog, seat, from, sp)),
{
    let up = sp.owner == seat && !sp.fading;
    let reach = spec_card(catalog, sp.card).reach;
    let orders = if up {
        seq![CommandView::SetOrders { tile: from, hold: !sp.holding }, CommandView::Reclaim { tile: from }]
    } else {
        Seq::empty()
    };
    assert(st.spec_spirit_at(from) == Some(sp));
    assert(all_accepted(st, canon, catalog, seat, orders));
    let ts = spec_targeting_reach(st, canon, catalog, reach, from, seat, st.board_w);
    if up && !sp.face_down {
        lemma_strike_cmds(st, canon, catalog, seat, from, sp, ts, ts.len() as int);
    }
    let strikes = if up && !sp.face_down { strike_cmds(st, seat, from, ts, ts.len() as int) } else { Seq::empty() };
    assert(all_accepted(st, canon, catalog, seat, strikes));
    lemma_all_add(st, canon, catalog, seat, orders, strikes);
}

proof fn lemma_donors(st: GameState, seat: Seat, from: u8, n: int)
    requires
        n <= 256,
    ensures
        forall|j: int| 0 <= j < donors(st, seat, from, n).len() ==> {
            let d = #[trigger] donors(st, seat, from, n)[j];
            (d as int) < n && donor_at(st, seat, from, d as int)
        },
    decreases n,
{
    if n > 0 {
        lemma_donors(st, seat, from, n - 1);
        let prev = donors(st, seat, from, n - 1);
        let cur = donors(st, seat, from, n);
        assert forall|j: int| 0 <= j < cur.len() implies {
            let d = #[trigger] cur[j];
            (d as int) < n && donor_at(st, seat, from, d as int)
        } by {
            if j < prev.len() {
                assert(cur[j] == prev[j]);
            } else {
                assert(cur[j] == (n - 1) as u8);
            }
        }
    }
}

/// Every evolution onto `from` with slot `hi` and `fuel` listed in `cmds` is accepted when
/// the plan is accepted for each of its engages.
proof fn lemma_evolve_engaging(st: GameState, canon: Canon, catalog: Seq<CardDef>, seat: Seat, from: u8, hi: int, fuel: Option<u8>, ts: Seq<u8>)
    requires
        0 <= hi < 256,
        lined(st, catalog, from, hi as u8) ==> spec_evolve_plan(st, canon, catalog, seat, from, hi as u8, fuel, None) is Ok,
        forall|i: int| 0 <= i < ts.len() ==> (lined(st, catalog, from, hi as u8)
            ==> spec_evolve_plan(st, canon, catalog, seat, from, hi as u8, fuel, Some(#[trigger] ts[i])) is Ok),
    ensures
        all_accepted(st, canon, catalog, seat, evolve_engaging(from, hi, fuel, ts)),
{
    let first = seq![CommandView::Evolve { tile: from, form_hand: hi as u8, fuel, engage: None }];
    let rest = ts.map_values(|t: u8| CommandView::Evolve { tile: from, form_hand: hi as u8, fuel, engage: Some(t) });
    assert(all_accepted(st, canon, catalog, seat, first));
    assert forall|i: int| 0 <= i < rest.len() implies accepted_offer(st, canon, catalog, seat, #[trigger] rest[i]) by {
        assert(rest[i] == CommandView::Evolve { tile: from, form_hand: hi as u8, fuel, engage: Some(ts[i]) });
    }
    lemma_all_add(st, canon, catalog, seat, first, rest);
}

proof fn lemma_donor_cmds(st: GameState, canon: Canon, catalog: Seq<CardDef>, seat: Seat, from: u8, hi: int, ds: Seq<u8>, ts: Seq<u8>, k: int)
    requires
        0 <= hi < 256,
        k <= ds.len(),
        forall|j: int| 0 <= j < ds.len() ==> all_accepted(st, canon, catalog, seat, #[trigger] evolve_engaging(from, hi, Some(ds[j]), ts)),
    ensures
        all_accepted(st, canon, catalog, seat, donor_cmds(from, hi, ds, ts, k)),
    decreases k,
{
    if k > 0 {
        lemma_donor_cmds(st, canon, catalog, seat, from, hi, ds, ts, k - 1);
        assert(all_accepted(st, canon, catalog, seat, evolve_engaging(from, hi, Some(ds[k - 1]), ts)));
        lemma_all_add(st, canon, catalog, seat, donor_cmds(from, hi, ds, ts, k - 1), evolve_engaging(from, hi, Some(ds[k - 1]), ts));
    }
}

#[verifier::rlimit(40)]
proof fn lemma_evolve_form(st: GameState, canon: Canon, catalog: Seq<CardDef>, seat: Seat, from: u8, hi: int)
    requires
        (from as int) < st.board@.len() <= 64,
        st.board@[from as int].spirit matches Some(sp) && sp.owner == seat,
        st.pending_choice is None,
        0 <= hi < actor_player(st).hand@.len(),
        hi < 256,
    ensures
        all_accepted(st, canon, catalog, seat, evolve_form(st, canon, catalog, seat, from, hi)),
{
    let sp = st.board@[from as int].spirit->Some_0;
    let pl = actor_player(st);
    let base = spec_card(catalog, sp.card);
    let form_id = pl.hand@[hi];
    let form = spec_card(catalog, form_id);
    let fabled = form.rarity@ == "Fabled"@;
    let ready = !sp.fading && !st.moved_this_turn@.contains(from);
    let cost = floor0(form.cost - (base.cost / 2) as int + spec_cost_aura(st, canon, catalog, seat)) as u8;
    assert(st.spec_spirit_at(from) == Some(sp));
    assert(hand_card(st, hi as u8) == Some(form_id));
    if !spec_legal_evolutions(st, canon, catalog, base, seat).contains(form_id) || !(if fabled { ready } else { sp.fading })
        || pl.anima < cost {
        assert(all_accepted(st, canon, catalog, seat, Seq::<CommandView>::empty()));
    } else {
        let r = spec_targeting_reach(st, canon, catalog, form.reach, from, seat, st.board_w);
        let ts = reach_enemies(st, canon, catalog, seat, form.reach, from);
        lemma_enemies_in(st, seat, r, r.len() as int);
        assert(cost == evolve_cost(st, canon, catalog, seat, base, form));
        if fabled {
            let ds = donors(st, seat, from, st.board@.len() as int);
            lemma_donors(st, seat, from, st.board@.len() as int);
            assert forall|j: int| 0 <= j < ds.len() implies all_accepted(st, canon, catalog, seat, #[trigger] evolve_engaging(from, hi, Some(ds[j]), ts)) by {
                let d = ds[j];
                assert(donor_at(st, seat, from, d as int));
                assert(fabled_fuel(st, seat, from, Some(d)) is Ok);
                assert forall|i: int| 0 <= i < ts.len() implies (lined(st, catalog, from, hi as u8)
                    ==> spec_evolve_plan(st, canon, catalog, seat, from, hi as u8, Some(d), Some(#[trigger] ts[i])) is Ok) by {
                    assert(r.contains(ts[i]));
                    assert(st.spec_spirit_at(ts[i]) is Some);
                }
                lemma_evolve_engaging(st, canon, catalog, seat, from, hi, Some(d), ts);
            }
            lemma_donor_cmds(st, canon, catalog, seat, from, hi, ds, ts, ds.len() as int);
        } else {
            assert forall|i: int| 0 <= i < ts.len() implies (lined(st, catalog, from, hi as u8)
                ==> spec_evolve_plan(st, canon, catalog, seat, from, hi as u8, None, Some(#[trigger] ts[i])) is Ok) by {
                assert(r.contains(ts[i]));
                assert(st.spec_spirit_at(ts[i]) is Some);
            }
            lemma_evolve_engaging(st, canon, catalog, seat, from, hi, None, ts);
        }
    }
}

proof fn lemma_evolve_cmds(st: GameState, canon: Canon, catalog: Seq<CardDef>, seat: Seat, from: u8, k: int)
    requires
        (from as int) < st.board@.len() <= 64,
        st.board@[from as int].spirit matches Some(sp) && sp.owner == seat,
        st.pending_choice is None,
        k <= actor_player(st).hand@.len(),
        k <= 256,
    ensures
        all_accepted(st, canon, catalog, seat, evolve_cmds(st, canon, catalog, seat, from, k)),
    decreases k,
{
    if k > 0 {
        lemma_evolve_cmds(st, canon, catalog, seat, from, k - 1);
        lemma_evolve_form(st, canon, catalog, seat, from, k - 1);
        lemma_all_add(st, canon, catalog, seat, evolve_cmds(st, canon, catalog, seat, from, k - 1), evolve_form(st, canon, catalog, seat, from, k - 1));
    }
}

proof fn lemma_devolve_cmds(st: GameState, canon: Canon, catalog: Seq<CardDef>, seat: Seat, from: u8, sp: Spirit, k: int)
    requires
        (from as int) < st.board@.len(),
        st.board@[from as int].spirit == Some(sp),
        st.pending_choice is None,
        sp.owner == seat && sp.fading && sp.fade_deadline is Some,
        spec_card(catalog, sp.card).evolves_from is Some,
        actor_player(st).anima >= spec_card(catalog, sp.card).cost / 2,
        k <= actor_player(st).hand@.len() <= 256,
    ensures
        all_accepted(st, canon, catalog, seat, devolve_cmds(st, catalog, from, spec_card(catalog, sp.card).evolves_from->Some_0@, k)),
    decreases k,
{
    let base_name = spec_card(catalog, sp.card).evolves_from->Some_0@;
    if k > 0 {
        lemma_devolve_cmds(st, canon, catalog, seat, from, sp, k - 1);
        let piece = if spec_card(catalog, actor_player(st).hand@[k - 1]).name@ == base_name {
            seq![CommandView::Devolve { tile: from, base_hand: (k - 1) as u8 }]
        } else {
            Seq::empty()
        };
        assert(st.spec_spirit_at(from) == Some(sp));
        assert(hand_card(st, (k - 1) as u8) == Some(actor_player(st).hand@[k - 1]));
        assert(all_accepted(st, canon, catalog, seat, piece));
        lemma_all_add(st, canon, catalog, seat, devolve_cmds(st, catalog, from, base_name, k - 1), piece);
    }
}

proof fn lemma_board_cmds(st: GameState, canon: Canon, catalog: Seq<CardDef>, seat: Seat, n: int)
    requires
        st.wf(),
        n <= st.board@.len() <= 64,
        st.pending_choice is None,
        actor_player(st).hand@.len() <= 256,
    ensures
        all_accepted(st, canon, catalog, seat, board_cmds(st, canon, catalog, seat, n)),
    decreases n,
{
    if n > 0 {
        lemma_board_cmds(st, canon, catalog, seat, n - 1);
        let from = (n - 1) as u8;
        match st.board@[from as int].spirit {
            None => {},
            Some(sp) => {
                lemma_spirit_moves(st, canon, catalog, seat, from, sp);
                lemma_spirit_stances(st, canon, catalog, seat, from, sp);
                lemma_all_add(st, canon, catalog, seat, spirit_moves(st, canon, catalog, seat, from, sp), spirit_stances(st, canon, catalog, seat, from, sp));
                let pl = actor_player(st);
                let form = spec_card(catalog, sp.card);
                if sp.owner == seat {
                    lemma_evolve_cmds(st, canon, catalog, seat, from, pl.hand@.len() as int);
                    lemma_all_add(st, canon, catalog, seat, evolve_cmds(st, canon, catalog, seat, from, pl.hand@.len() as int), Seq::empty());
                    if sp.fading && sp.fade_deadline is Some && form.evolves_from is Some && pl.anima >= form.cost / 2 {
                        lemma_devolve_cmds(st, canon, catalog, seat, from, sp, pl.hand@.len() as int);
                    }
                } else {
                    lemma_all_add(st, canon, catalog, seat, Seq::empty(), Seq::empty());
                }
                assert(all_accepted(st, canon, catalog, seat, spirit_forms(st, canon, catalog, seat, from, sp)));
                lemma_all_add(st, canon, catalog, seat, spirit_actions(st, canon, catalog, seat, from, sp), spirit_forms(st, canon, catalog, seat, from, sp));
            },
        }
        lemma_all_add(st, canon, catalog, seat, board_cmds(st, canon, catalog, seat, n - 1), tile_cmds(st, canon, catalog, seat, from));
    }
}

proof fn lemma_opening_cmds(st: GameState, canon: Canon, catalog: Seq<CardDef>, seat: Seat)
    ensures
        all_accepted(st, canon, catalog, seat, opening_cmds(st, seat)),
{
    let pl = actor_player(st);
    let g = if !pl.glimpsed_this_turn && pl.hand@.len() > 0 && pl.deck@.len() > 0 { seq![CommandView::Glimpse] } else { Seq::empty() };
    let e = seq![CommandView::EndTurn];
    let m = if spec_mulligan_window(st, seat) { seq![CommandView::Mulligan { seat }] } else { Seq::empty() };
    let b = if st.stray matches Some(s) && !s.veiled { seq![CommandView::BanishStray] } else { Seq::empty() };
    assert(all_accepted(st, canon, catalog, seat, g));
    assert(all_accepted(st, canon, catalog, seat, e));
    assert(all_accepted(st, canon, catalog, seat, m));
    assert(all_accepted(st, canon, catalog, seat, b));
    lemma_all_add(st, canon, catalog, seat, g, e);
    lemma_all_add(st, canon, catalog, seat, g + e, m);
    lemma_all_add(st, canon, catalog, seat, g + e + m, b);
}

/// Whatever the menu offers its decision accepts: every standing order, reclaim, trap
/// strike, Stray banishment, mulligan, spirit play, Overwrite, Mobile step, devolution,
/// reveal, Unwriting, Bond and Landmark that `legal_commands` lists is accepted by its
/// decision function, and so is every evolution whose form names its base, and every
/// Ritual and Fabrication whose adjusted cost the seat can pay (see `accepted_offer`).
/// (Hand slots are addressed by a byte, so the hand holds at most 256 cards; a pending
/// choice is the phase's, the acting slot is the active seat's, and no spirit stands with
/// the Stray.)
pub proof fn law_offered_commands_are_accepted(st: GameState, canon: Canon, catalog: Seq<CardDef>, seat: Seat)
    requires
        projectable(st, catalog),
        hand_known(st, catalog),
        actor_player(st).hand@.len() <= 256,
        st.pending_choice is Some ==> st.phase is PendingChoice,
        st.active_slot.spec_team() == st.active,
        st.stray matches Some(s) ==> (s.tile as int) < st.board@.len() ==> st.board@[s.tile as int].spirit is None,
    ensures
        all_accepted(st, canon, catalog, seat, spec_legal_commands(st, canon, catalog, seat)),
{
    lemma_wf_small(st);
    let pl = actor_player(st);
    if !(st.phase is Finished || st.active != seat) {
        match st.phase {
            Phase::PendingChoice { seat: s } => {},
            Phase::PendingRelease { seat: s } => {},
            _ => {
                let o = opening_cmds(st, seat);
                lemma_opening_cmds(st, canon, catalog, seat);
                lemma_hand_cmds(st, canon, catalog, seat, pl.hand@.len() as int);
                lemma_board_cmds(st, canon, catalog, seat, st.board@.len() as int);
                lemma_all_add(st, canon, catalog, seat, o, hand_cmds(st, canon, catalog, seat, pl.hand@.len() as int));
                lemma_all_add(st, canon, catalog, seat, o + hand_cmds(st, canon, catalog, seat, pl.hand@.len() as int),
                    board_cmds(st, canon, catalog, seat, st.board@.len() as int));
            },
        }
    }
}

} // verus!
