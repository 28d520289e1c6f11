//! The board-wide clauses of the Solace's Unwritings and the deck mill: the eater's
//! forgetting of a mark, the rim's release, the silenced Landmark, the Unwritten manifested
//! on the rim, the dormant impressions, the calm tiles, and the milled card. Each is decided
//! from the state alone.
use vstd::prelude::*;

use crate::effects::Effect;
use crate::events::Event;
use crate::state::{GameState, TerrainKind};
use crate::types::{is_rim_w, spec_is_rim_w, CardDef, CardKind, Seat};

verus! {

/// The first up to two tiles below `k` off the rim of a `w`-wide board, in order.
pub open spec fn inner_prefix(w: i8, k: int) -> Seq<u8>
    decreases k,
{
    if k <= 0 {
        Seq::empty()
    } else {
        let p = inner_prefix(w, k - 1);
        if p.len() < 2 && !spec_is_rim_w((k - 1) as u8, w) { p.push((k - 1) as u8) } else { p }
    }
}

/// The releases of the held, standing spirits on rim tiles below `k`, in tile order.
pub open spec fn rim_releases(st: GameState, k: int) -> Seq<Event>
    decreases k,
{
    if k <= 0 {
        Seq::empty()
    } else {
        let p = rim_releases(st, k - 1);
        let t = (k - 1) as u8;
        if spec_is_rim_w(t, st.board_w) && (st.board@[k - 1].spirit matches Some(sp) && sp.holding && !sp.fading) {
            p.push(Event::SpiritReleased { tile: t })
        } else {
            p
        }
    }
}

/// Tile `i` holds a face-up Landmark.
pub open spec fn landmark_at(st: GameState, i: int) -> bool {
    st.board@[i].terrain matches Some(tr) && tr.kind == TerrainKind::Landmark && !tr.face_down
}

/// The first face-up Landmark at or after tile `i`.
pub open spec fn first_landmark_from(st: GameState, i: int) -> Option<u8>
    decreases st.board@.len() - i,
{
    if i < 0 || i >= st.board@.len() {
        None
    } else if landmark_at(st, i) {
        Some(i as u8)
    } else {
        first_landmark_from(st, i + 1)
    }
}

/// Tile `i` is a free rim tile: on the rim, with no spirit, no terrain, not faded.
pub open spec fn free_rim_at(st: GameState, i: int) -> bool {
    spec_is_rim_w(i as u8, st.board_w) && st.board@[i].spirit is None && st.board@[i].terrain is None && !st.board@[i].faded
}

/// The first free rim tile at or after tile `i`.
pub open spec fn first_free_rim_from(st: GameState, i: int) -> Option<u8>
    decreases st.board@.len() - i,
{
    if i < 0 || i >= st.board@.len() {
        None
    } else if free_rim_at(st, i) {
        Some(i as u8)
    } else {
        first_free_rim_from(st, i + 1)
    }
}

/// The first Unwritten of cost 2 in the catalog at or after index `i`.
pub open spec fn first_small_unwritten_from(catalog: Seq<CardDef>, i: int) -> Option<CardDef>
    decreases catalog.len() - i,
{
    if i < 0 || i >= catalog.len() {
        None
    } else if catalog[i].cost == 2 && catalog[i].kind.spec_is_antagonist_creature() {
        Some(catalog[i])
    } else {
        first_small_unwritten_from(catalog, i + 1)
    }
}

/// The events of a clause with a board-wide Solace effect or a deck mill, for `owner`, from
/// `source`; `None` for any other effect. The calm tiles are given apart (`calm_tiles`),
/// since their event carries a list.
pub open spec fn board_clause_events(st: GameState, catalog: Seq<CardDef>, eff: Effect, source: Option<u8>, owner: Seat) -> Option<Seq<Event>> {
    match eff {
        Effect::ImpressionEat => Some(match source {
            Some(t) => if owner == Seat::B && st.board@[t as int].impressions@.contains(Seat::A) {
                seq![Event::ImpressionForgotten { tile: t }]
            } else {
                Seq::empty()
            },
            None => Seq::empty(),
        }),
        Effect::ReleaseHeldRim => Some(rim_releases(st, st.board@.len() as int)),
        Effect::SilenceLandmark => Some(match first_landmark_from(st, 0) {
            Some(t) => seq![Event::LandmarkSilenced { tile: t, round: st.round }],
            None => Seq::empty(),
        }),
        Effect::ManifestUnwrittenOnRim => Some(match (first_free_rim_from(st, 0), first_small_unwritten_from(catalog, 0)) {
            (Some(t), Some(c)) => seq![Event::UnwrittenManifested { card: c.id, tile: t, attack: c.attack, defense: c.defense, hp: c.hp }],
            _ => Seq::empty(),
        }),
        Effect::StopImpressionScoring => Some(seq![Event::ImpressionsStoppedScoring { round: st.round }]),
        Effect::MillTopDeck { opponent } => Some(seq![Event::DeckMilled { seat: if opponent { owner.spec_other() } else { owner } }]),
        _ => None,
    }
}

/// The tiles The Quiet Spreads calms: the first two tiles off the rim.
pub open spec fn calm_tiles(st: GameState) -> Seq<u8> {
    inner_prefix(st.board_w, st.board@.len() as int)
}

fn rim_release_events(st: &GameState) -> (r: Vec<Event>)
    requires
        st.wf(),
    ensures
        r@ == rim_releases(*st, st.board@.len() as int),
{
    proof {
        crate::auras::lemma_wf_small(*st);
    }
    let n = st.board.len();
    let mut out: Vec<Event> = Vec::new();
    let mut t: usize = 0;
    while t < n
        invariant
            st.wf(),
            n == st.board@.len(),
            n <= 64,
            t <= n,
            out@ == rim_releases(*st, t as int),
        decreases n - t,
    {
        let keep = is_rim_w(t as u8, st.board_w) && match &st.board[t].spirit {
            Some(sp) => sp.holding && !sp.fading,
            None => false,
        };
        if keep {
            out.push(Event::SpiritReleased { tile: t as u8 });
        }
        t = t + 1;
    }
    out
}

fn first_landmark(st: &GameState) -> (r: Option<u8>)
    requires
        st.board@.len() <= 256,
    ensures
        r == first_landmark_from(*st, 0),
{
    let n = st.board.len();
    let mut i: usize = 0;
    while i < n
        invariant
            n == st.board@.len() <= 256,
            i <= n,
            first_landmark_from(*st, 0) == first_landmark_from(*st, i as int),
        decreases n - i,
    {
        let hit = match &st.board[i].terrain {
            Some(tr) => matches!(tr.kind, TerrainKind::Landmark) && !tr.face_down,
            None => false,
        };
        if hit {
            return Some(i as u8);
        }
        i = i + 1;
    }
    None
}

fn first_free_rim(st: &GameState) -> (r: Option<u8>)
    requires
        st.wf(),
    ensures
        r == first_free_rim_from(*st, 0),
{
    proof {
        crate::auras::lemma_wf_small(*st);
    }
    let n = st.board.len();
    let mut i: usize = 0;
    while i < n
        invariant
            st.wf(),
            n == st.board@.len() <= 64,
            i <= n,
            first_free_rim_from(*st, 0) == first_free_rim_from(*st, i as int),
        decreases n - i,
    {
        let tl = &st.board[i];
        if is_rim_w(i as u8, st.board_w) && tl.spirit.is_none() && tl.terrain.is_none() && !tl.faded {
            return Some(i as u8);
        }
        i = i + 1;
    }
    None
}

fn first_small_unwritten(catalog: &[CardDef]) -> (r: Option<&CardDef>)
    ensures
        match r {
            Some(c) => first_small_unwritten_from(catalog@, 0) == Some(*c),
            None => first_small_unwritten_from(catalog@, 0) is None,
        },
{
    let n = catalog.len();
    let mut i: usize = 0;
    while i < n
        invariant
            n == catalog@.len(),
            i <= n,
            first_small_unwritten_from(catalog@, 0) == first_small_unwritten_from(catalog@, i as int),
        decreases n - i,
    {
        if catalog[i].cost == 2 && catalog[i].kind.is_antagonist_creature() {
            return Some(&catalog[i]);
        }
        i = i + 1;
    }
    None
}

/// The events of a clause with a board-wide Solace effect or a deck mill (see
/// `board_clause_events`); the calm tiles come as one event over `calm_tiles`, for the next
/// round.
pub fn solace_clause_events(st: &GameState, catalog: &[CardDef], eff: &Effect, source: Option<u8>, owner: Seat) -> (r: Option<Vec<Event>>)
    requires
        st.wf(),
        source matches Some(t) ==> (t as int) < st.board@.len(),
        eff is ScheduleCalmTiles ==> st.round < u8::MAX,
    ensures
        eff is ScheduleCalmTiles ==> (r matches Some(v) && (if calm_tiles(*st).len() == 0 {
            v@.len() == 0
        } else {
            v@.len() == 1 && (v@[0] matches Event::TilesGoneCalm { tiles, round } && tiles@ == calm_tiles(*st) && round == st.round + 1)
        })),
        !(eff is ScheduleCalmTiles) ==> match r {
            Some(v) => board_clause_events(*st, catalog@, *eff, source, owner) == Some(v@),
            None => board_clause_events(*st, catalog@, *eff, source, owner) is None,
        },
{
    match eff {
        Effect::ImpressionEat => {
            let mut v: Vec<Event> = Vec::new();
            match source {
                Some(t) => {
                    if matches!(owner, Seat::B) {
                        let marks = &st.board[t as usize].impressions;
                        let m = marks.len();
                        let mut has = false;
                        for k in 0..m
                            invariant
                                m == marks@.len(),
                                has == (exists|j: int| 0 <= j < k && marks@[j] == Seat::A),
                        {
                            if matches!(marks[k], Seat::A) {
                                has = true;
                            }
                        }
                        assert(has == marks@.contains(Seat::A));
                        if has {
                            v.push(Event::ImpressionForgotten { tile: t });
                        }
                    }
                },
                None => {},
            }
            Some(v)
        },
        Effect::ReleaseHeldRim => Some(rim_release_events(st)),
        Effect::SilenceLandmark => {
            proof {
                crate::auras::lemma_wf_small(*st);
            }
            let mut v: Vec<Event> = Vec::new();
            match first_landmark(st) {
                Some(t) => v.push(Event::LandmarkSilenced { tile: t, round: st.round }),
                None => {},
            }
            Some(v)
        },
        Effect::ManifestUnwrittenOnRim => {
            let mut v: Vec<Event> = Vec::new();
            match (first_free_rim(st), first_small_unwritten(catalog)) {
                (Some(t), Some(c)) => v.push(Event::UnwrittenManifested { card: c.id, tile: t, attack: c.attack, defense: c.defense, hp: c.hp }),
                _ => {},
            }
            Some(v)
        },
        Effect::StopImpressionScoring => {
            let mut v: Vec<Event> = Vec::new();
            v.push(Event::ImpressionsStoppedScoring { round: st.round });
            Some(v)
        },
        Effect::MillTopDeck { opponent } => {
            let mut v: Vec<Event> = Vec::new();
            v.push(Event::DeckMilled { seat: if *opponent { owner.other() } else { owner } });
            Some(v)
        },
        Effect::ScheduleCalmTiles => {
            proof {
                crate::auras::lemma_wf_small(*st);
            }
            let n = st.board.len();
            let mut inner: Vec<u8> = Vec::new();
            let mut t: usize = 0;
            while t < n
                invariant
                    st.wf(),
                    n == st.board@.len() <= 64,
                    t <= n,
                    inner@ == inner_prefix(st.board_w, t as int),
                decreases n - t,
            {
                if inner.len() < 2 && !is_rim_w(t as u8, st.board_w) {
                    inner.push(t as u8);
                }
                t = t + 1;
            }
            let mut v: Vec<Event> = Vec::new();
            if inner.len() > 0 {
                v.push(Event::TilesGoneCalm { tiles: inner, round: st.round + 1 });
            }
            Some(v)
        },
        _ => None,
    }
}

} // verus!
