//! The state-validity invariants: what makes a `GameState` the rules produce
//! well-formed. One definition, read by every checker; the first violated invariant is
//! named.
use vstd::prelude::*;

use crate::state::{GameState, Phase, TileState};
use crate::text::{bool_text, int_text, push_bool, push_int, push_nat, push_text, spec_digits};
use crate::types::Seat;

verus! {

/// The first invariant a state breaks.
#[derive(Debug, Clone, Copy, PartialEq, Eq, Structural)]
pub enum Violation {
    /// A tile holds both a spirit and terrain.
    SpiritAndTerrain { tile: usize },
    /// A spirit shares the Stray's tile.
    SpiritAndStray { tile: usize },
    /// Terrain shares the Stray's tile.
    TerrainAndStray { tile: usize },
    /// Terrain sits on a faded tile.
    TerrainOnFaded { tile: usize },
    /// A spirit's HP exceeds its maximum.
    Overheal { tile: usize, hp: i16, hp_max: i16 },
    /// A standing spirit has no HP left.
    StandingWithoutHp { tile: usize, hp: i16 },
    /// A stat ran below -100.
    StatUnderflow { tile: usize, attack: i16, defense: i16 },
    /// A standing token recorded a banisher.
    TokenBanisher { tile: usize },
    /// Fading and carrying a fade deadline disagree.
    FadeDeadlineMismatch { tile: usize, fading: bool, has_deadline: bool },
    /// A fade deadline without a banisher.
    DeadlineWithoutBanisher { tile: usize },
    /// A fade deadline past the last round plus one.
    DeadlinePastLastRound { tile: usize, deadline: u8, last_round: u8 },
    /// More standing spirits than tiles.
    TooManyStanding { score_a: usize, score_b: usize, board: usize },
    /// A finished match's recorded scores exceed the tile count.
    FinalScoreTooHigh { score_a: u8, score_b: u8, board: usize },
    /// The round ran past the last round plus one.
    RoundPastLast { round: u8, last_round: u8 },
}

/// A Stray stands on tile `i`.
pub open spec fn stray_on(st: GameState, i: int) -> bool {
    st.stray matches Some(s) && s.tile as int == i
}

/// The first invariant tile `i` breaks, checked in order.
pub open spec fn tile_violation(st: GameState, i: int) -> Option<Violation> {
    let t = st.board@[i];
    let tile = i as usize;
    if t.spirit is Some && t.terrain is Some {
        Some(Violation::SpiritAndTerrain { tile })
    } else if t.spirit is Some && stray_on(st, i) {
        Some(Violation::SpiritAndStray { tile })
    } else if t.terrain is Some && stray_on(st, i) {
        Some(Violation::TerrainAndStray { tile })
    } else if t.faded && t.terrain is Some {
        Some(Violation::TerrainOnFaded { tile })
    } else {
        match t.spirit {
            None => None,
            Some(sp) => if sp.hp > sp.hp_max {
                Some(Violation::Overheal { tile, hp: sp.hp, hp_max: sp.hp_max })
            } else if !sp.fading && sp.hp <= 0 {
                Some(Violation::StandingWithoutHp { tile, hp: sp.hp })
            } else if sp.attack < -100 || sp.defense < -100 {
                Some(Violation::StatUnderflow { tile, attack: sp.attack, defense: sp.defense })
            } else if sp.is_token && !sp.fading && sp.banished_by is Some {
                Some(Violation::TokenBanisher { tile })
            } else if sp.fading != sp.fade_deadline is Some {
                Some(Violation::FadeDeadlineMismatch { tile, fading: sp.fading, has_deadline: sp.fade_deadline is Some })
            } else {
                match sp.fade_deadline {
                    Some(deadline) => if sp.banished_by is None {
                        Some(Violation::DeadlineWithoutBanisher { tile })
                    } else if deadline > st.rules.last_round + 1 {
                        Some(Violation::DeadlinePastLastRound { tile, deadline, last_round: st.rules.last_round })
                    } else {
                        None
                    },
                    None => None,
                }
            },
        }
    }
}

/// The first tile violation at or after tile `i`.
pub open spec fn first_tile_violation(st: GameState, i: int) -> Option<Violation>
    decreases st.board@.len() - i,
{
    if i < 0 || i >= st.board@.len() {
        None
    } else if tile_violation(st, i) is Some {
        tile_violation(st, i)
    } else {
        first_tile_violation(st, i + 1)
    }
}

/// Standing (non-fading) spirits of `seat` among the first `n` tiles.
pub open spec fn standing_count(st: GameState, seat: Seat, n: int) -> nat
    decreases n,
{
    if n <= 0 {
        0
    } else {
        standing_count(st, seat, n - 1) + if (st.board@[n - 1].spirit matches Some(sp) && !sp.fading && sp.owner == seat) { 1nat } else { 0nat }
    }
}

/// The first invariant the state breaks, if any: each tile's checks in board order, then
/// the standing count against the board, a finished match's recorded scores, and the
/// round against the last round plus one.
pub open spec fn spec_check(st: GameState) -> Option<Violation> {
    let n = st.board@.len() as int;
    let a = standing_count(st, Seat::A, n);
    let b = standing_count(st, Seat::B, n);
    if first_tile_violation(st, 0) is Some {
        first_tile_violation(st, 0)
    } else if a + b > n {
        Some(Violation::TooManyStanding { score_a: a as usize, score_b: b as usize, board: n as usize })
    } else if st.phase matches Phase::Finished { score_a, score_b, .. } && score_a + score_b > n {
        match st.phase {
            Phase::Finished { score_a, score_b, .. } => Some(Violation::FinalScoreTooHigh { score_a, score_b, board: n as usize }),
            _ => None,
        }
    } else if st.round > st.rules.last_round + 1 {
        Some(Violation::RoundPastLast { round: st.round, last_round: st.rules.last_round })
    } else {
        None
    }
}

fn check_tile(st: &GameState, i: usize) -> (r: Option<Violation>)
    requires
        i < st.board@.len(),
        st.rules.last_round < 255,
    ensures
        r == tile_violation(*st, i as int),
{
    let t: &TileState = &st.board[i];
    let stray_here = match &st.stray {
        Some(s) => s.tile as usize == i,
        None => false,
    };
    if t.spirit.is_some() && t.terrain.is_some() {
        return Some(Violation::SpiritAndTerrain { tile: i });
    }
    if t.spirit.is_some() && stray_here {
        return Some(Violation::SpiritAndStray { tile: i });
    }
    if t.terrain.is_some() && stray_here {
        return Some(Violation::TerrainAndStray { tile: i });
    }
    if t.faded && t.terrain.is_some() {
        return Some(Violation::TerrainOnFaded { tile: i });
    }
    match &t.spirit {
        None => None,
        Some(sp) => {
            if sp.hp > sp.hp_max {
                return Some(Violation::Overheal { tile: i, hp: sp.hp, hp_max: sp.hp_max });
            }
            if !sp.fading && sp.hp <= 0 {
                return Some(Violation::StandingWithoutHp { tile: i, hp: sp.hp });
            }
            if sp.attack < -100 || sp.defense < -100 {
                return Some(Violation::StatUnderflow { tile: i, attack: sp.attack, defense: sp.defense });
            }
            if sp.is_token && !sp.fading && sp.banished_by.is_some() {
                return Some(Violation::TokenBanisher { tile: i });
            }
            if sp.fading != sp.fade_deadline.is_some() {
                return Some(Violation::FadeDeadlineMismatch { tile: i, fading: sp.fading, has_deadline: sp.fade_deadline.is_some() });
            }
            match sp.fade_deadline {
                Some(deadline) => {
                    if sp.banished_by.is_none() {
                        return Some(Violation::DeadlineWithoutBanisher { tile: i });
                    }
                    if deadline > st.rules.last_round + 1 {
                        return Some(Violation::DeadlinePastLastRound { tile: i, deadline, last_round: st.rules.last_round });
                    }
                    None
                },
                None => None,
            }
        },
    }
}

/// The first invariant the state breaks, if any, as a typed verdict.
pub fn check_state(st: &GameState) -> (r: Option<Violation>)
    requires
        st.rules.last_round < 255,
    ensures
        r == spec_check(*st),
{
    let n = st.board.len();
    let mut score_a: usize = 0;
    let mut score_b: usize = 0;
    for i in 0..n
        invariant
            n == st.board@.len(),
            st.rules.last_round < 255,
            first_tile_violation(*st, 0) == first_tile_violation(*st, i as int),
            score_a == standing_count(*st, Seat::A, i as int),
            score_b == standing_count(*st, Seat::B, i as int),
            score_a + score_b <= i,
    {
        let v = check_tile(st, i);
        if v.is_some() {
            return v;
        }
        match &st.board[i].spirit {
            Some(sp) => {
                if !sp.fading {
                    match sp.owner {
                        Seat::A => score_a = score_a + 1,
                        Seat::B => score_b = score_b + 1,
                    }
                }
            },
            None => {},
        }
    }
    if score_a + score_b > n {
        return Some(Violation::TooManyStanding { score_a, score_b, board: n });
    }
    match st.phase {
        Phase::Finished { score_a: fa, score_b: fb, .. } => {
            if fa as usize + fb as usize > n {
                return Some(Violation::FinalScoreTooHigh { score_a: fa, score_b: fb, board: n });
            }
        },
        _ => {},
    }
    if st.round > st.rules.last_round + 1 {
        return Some(Violation::RoundPastLast { round: st.round, last_round: st.rules.last_round });
    }
    None
}

/// The text a violation is reported with.
pub open spec fn violation_message(v: Violation) -> Seq<char> {
    match v {
        Violation::SpiritAndTerrain { tile } => "tile "@ + spec_digits(tile as nat) + ": spirit AND terrain coexist"@,
        Violation::SpiritAndStray { tile } => "tile "@ + spec_digits(tile as nat) + ": spirit AND stray coexist"@,
        Violation::TerrainAndStray { tile } => "tile "@ + spec_digits(tile as nat) + ": terrain AND stray coexist"@,
        Violation::TerrainOnFaded { tile } => "tile "@ + spec_digits(tile as nat) + ": terrain on a faded tile"@,
        Violation::Overheal { tile, hp, hp_max } =>
            "tile "@ + spec_digits(tile as nat) + ": hp "@ + int_text(hp as int) + " > hp_max "@ + int_text(hp_max as int) + " (overheal)"@,
        Violation::StandingWithoutHp { tile, hp } =>
            "tile "@ + spec_digits(tile as nat) + ": a standing spirit has hp "@ + int_text(hp as int) + " <= 0"@,
        Violation::StatUnderflow { tile, attack, defense } =>
            "tile "@ + spec_digits(tile as nat) + ": stat underflow a="@ + int_text(attack as int) + " d="@ + int_text(defense as int),
        Violation::TokenBanisher { tile } =>
            "tile "@ + spec_digits(tile as nat) + ": a standing token recorded a banisher (tokens leave no impression)"@,
        Violation::FadeDeadlineMismatch { tile, fading, has_deadline } =>
            "tile "@ + spec_digits(tile as nat) + ": fading="@ + bool_text(fading) + " but fade_deadline.is_some()="@ + bool_text(has_deadline)
                + " — every Fading spirit must carry a deadline now that the Dusk is instant and Fade is at turn-END"@,
        Violation::DeadlineWithoutBanisher { tile } =>
            "tile "@ + spec_digits(tile as nat) + ": a fade_deadline without a banisher (the window is combat-only)"@,
        Violation::DeadlinePastLastRound { tile, deadline, last_round } =>
            "tile "@ + spec_digits(tile as nat) + ": fade_deadline "@ + spec_digits(deadline as nat) + " past last_round "@
                + spec_digits(last_round as nat) + " + 1"@,
        Violation::TooManyStanding { score_a, score_b, board } =>
            "standing spirits "@ + spec_digits(score_a as nat) + "+"@ + spec_digits(score_b as nat) + " exceed board "@ + spec_digits(board as nat),
        Violation::FinalScoreTooHigh { score_a, score_b, board } =>
            "final score "@ + spec_digits(score_a as nat) + "+"@ + spec_digits(score_b as nat) + " exceeds board "@ + spec_digits(board as nat),
        Violation::RoundPastLast { round, last_round } =>
            "round "@ + spec_digits(round as nat) + " ran past last_round "@ + spec_digits(last_round as nat),
    }
}

impl Violation {
    /// The human-readable reason.
    pub fn message(&self) -> (r: String)
        ensures
            r@ == violation_message(*self),
    {
        let mut s = String::new();
        match *self {
            Violation::SpiritAndTerrain { tile } => {
                push_text(&mut s, "tile ");
                push_nat(&mut s, tile as u64);
                push_text(&mut s, ": spirit AND terrain coexist");
            },
            Violation::SpiritAndStray { tile } => {
                push_text(&mut s, "tile ");
                push_nat(&mut s, tile as u64);
                push_text(&mut s, ": spirit AND stray coexist");
            },
            Violation::TerrainAndStray { tile } => {
                push_text(&mut s, "tile ");
                push_nat(&mut s, tile as u64);
                push_text(&mut s, ": terrain AND stray coexist");
            },
            Violation::TerrainOnFaded { tile } => {
                push_text(&mut s, "tile ");
                push_nat(&mut s, tile as u64);
                push_text(&mut s, ": terrain on a faded tile");
            },
            Violation::Overheal { tile, hp, hp_max } => {
                push_text(&mut s, "tile ");
                push_nat(&mut s, tile as u64);
                push_text(&mut s, ": hp ");
                push_int(&mut s, hp as i64);
                push_text(&mut s, " > hp_max ");
                push_int(&mut s, hp_max as i64);
                push_text(&mut s, " (overheal)");
            },
            Violation::StandingWithoutHp { tile, hp } => {
                push_text(&mut s, "tile ");
                push_nat(&mut s, tile as u64);
                push_text(&mut s, ": a standing spirit has hp ");
                push_int(&mut s, hp as i64);
                push_text(&mut s, " <= 0");
            },
            Violation::StatUnderflow { tile, attack, defense } => {
                push_text(&mut s, "tile ");
                push_nat(&mut s, tile as u64);
                push_text(&mut s, ": stat underflow a=");
                push_int(&mut s, attack as i64);
                push_text(&mut s, " d=");
                push_int(&mut s, defense as i64);
            },
            Violation::TokenBanisher { tile } => {
                push_text(&mut s, "tile ");
                push_nat(&mut s, tile as u64);
                push_text(&mut s, ": a standing token recorded a banisher (tokens leave no impression)");
            },
            Violation::FadeDeadlineMismatch { tile, fading, has_deadline } => {
                push_text(&mut s, "tile ");
                push_nat(&mut s, tile as u64);
                push_text(&mut s, ": fading=");
                push_bool(&mut s, fading);
                push_text(&mut s, " but fade_deadline.is_some()=");
                push_bool(&mut s, has_deadline);
                push_text(&mut s, " — every Fading spirit must carry a deadline now that the Dusk is instant and Fade is at turn-END");
            },
            Violation::DeadlineWithoutBanisher { tile } => {
                push_text(&mut s, "tile ");
                push_nat(&mut s, tile as u64);
                push_text(&mut s, ": a fade_deadline without a banisher (the window is combat-only)");
            },
            Violation::DeadlinePastLastRound { tile, deadline, last_round } => {
                push_text(&mut s, "tile ");
                push_nat(&mut s, tile as u64);
                push_text(&mut s, ": fade_deadline ");
                push_nat(&mut s, deadline as u64);
                push_text(&mut s, " past last_round ");
                push_nat(&mut s, last_round as u64);
                push_text(&mut s, " + 1");
            },
            Violation::TooManyStanding { score_a, score_b, board } => {
                push_text(&mut s, "standing spirits ");
                push_nat(&mut s, score_a as u64);
                push_text(&mut s, "+");
                push_nat(&mut s, score_b as u64);
                push_text(&mut s, " exceed board ");
                push_nat(&mut s, board as u64);
            },
            Violation::FinalScoreTooHigh { score_a, score_b, board } => {
                push_text(&mut s, "final score ");
                push_nat(&mut s, score_a as u64);
                push_text(&mut s, "+");
                push_nat(&mut s, score_b as u64);
                push_text(&mut s, " exceeds board ");
                push_nat(&mut s, board as u64);
            },
            Violation::RoundPastLast { round, last_round } => {
                push_text(&mut s, "round ");
                push_nat(&mut s, round as u64);
                push_text(&mut s, " ran past last_round ");
                push_nat(&mut s, last_round as u64);
            },
        }
        assert(s@ =~= violation_message(*self));
        s
    }
}

/// Returns `Err(reason)` naming the first violated invariant, else `Ok(())`.
pub fn check(st: &GameState) -> (r: Result<(), String>)
    requires
        st.rules.last_round < 255,
    ensures
        r is Ok <==> spec_check(*st) is None,
        r matches Err(m) ==> m@ == violation_message(spec_check(*st)->0),
{
    match check_state(st) {
        None => Ok(()),
        Some(v) => Err(v.message()),
    }
}

} // verus!
