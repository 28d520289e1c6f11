//! The board state the rules read: tiles (spirit, terrain, impressions, faded), the
//! standing Bonds, this-round modifiers, the Stray, and the match clock.
use vstd::prelude::*;

use crate::effects::{Keyword, Restriction};
use crate::types::{valid_width, CardId, Faction, Reach, Seat, SeatSlot};

verus! {

/// A spirit standing on a tile.
#[derive(Debug, Clone)]
pub struct Spirit {
    pub replacement_used: bool,
    pub holding: bool,
    pub face_down: bool,
    pub is_token: bool,
    /// The 2v2 slot that placed it (`None` in 1v1).
    pub placed_by: Option<SeatSlot>,
    pub card: CardId,
    pub owner: Seat,
    pub attack: i16,
    pub defense: i16,
    pub hp: i16,
    pub hp_max: i16,
    pub fading: bool,
    pub banished_by: Option<Seat>,
    pub intercepted_this_round: bool,
    /// Printed traits stripped for good.
    pub traits_stripped: bool,
    /// Printed traits stripped through this round.
    pub traits_stripped_until: Option<u8>,
    /// Played-card keyword grants: (keyword, through round).
    pub kw_grants: Vec<(Keyword, u8)>,
    /// Cannot engage or intercept through this round.
    pub no_engage_until: u8,
    pub throughline_done: bool,
    /// A Reach copied from an engager, used in place of the card's own.
    pub copied_reach: Option<Reach>,
    /// The last round a banished (Fading) spirit lingers.
    pub fade_deadline: Option<u8>,
}

impl Spirit {
    /// Printed traits are blanked this round (stripped for good, or through a round not
    /// yet past).
    pub open spec fn spec_traits_blanked(&self, round: u8) -> bool {
        self.traits_stripped || (self.traits_stripped_until matches Some(u) && u >= round)
    }

    #[verifier::when_used_as_spec(spec_traits_blanked)]
    pub fn traits_blanked(&self, round: u8) -> (r: bool)
        ensures
            r == self.spec_traits_blanked(round),
    {
        self.traits_stripped || match self.traits_stripped_until {
            Some(u) => u >= round,
            None => false,
        }
    }

    /// At Echo: down to half its Form or less.
    pub open spec fn spec_echo_eligible(&self) -> bool {
        self.hp * 2 <= self.hp_max
    }

    #[verifier::when_used_as_spec(spec_echo_eligible)]
    pub fn echo_eligible(&self) -> (r: bool)
        ensures
            r == self.spec_echo_eligible(),
    {
        (self.hp as i32) * 2 <= self.hp_max as i32
    }
}

/// Landmark or Fabrication.
#[derive(Debug, Clone, Copy, PartialEq, Eq, Structural)]
pub enum TerrainKind {
    Landmark,
    Fabrication,
}

/// Terrain laid on a tile.
#[derive(Debug, Clone, Copy)]
pub struct Terrain {
    pub card: CardId,
    pub owner: Seat,
    pub kind: TerrainKind,
    pub face_down: bool,
}

/// One board tile.
#[derive(Debug, Clone)]
pub struct TileState {
    pub spirit: Option<Spirit>,
    pub terrain: Option<Terrain>,
    /// The seats whose impression marks this tile.
    pub impressions: Vec<Seat>,
    /// Contracted away at the Dusk.
    pub faded: bool,
}

/// A Bond joining the spirits on two tiles.
#[derive(Debug, Clone, Copy)]
pub struct Bond {
    pub card: CardId,
    pub owner: Seat,
    pub tile_a: u8,
    pub tile_b: u8,
}

/// A this-round stat modifier on a tile.
#[derive(Debug, Clone, Copy)]
pub struct TempMod {
    pub tile: u8,
    pub attack: i16,
    pub defense: i16,
    pub until_round: u8,
}

/// A reach buff through `until_round`: seat-wide (`tile: None`) or per spirit.
#[derive(Debug, Clone, Copy)]
pub struct TempReach {
    pub seat: Seat,
    pub tile: Option<u8>,
    pub forward: i8,
    pub all_directions: bool,
    pub targeting_only: bool,
    pub until_round: u8,
}

/// A seat-wide restriction through `until_round`.
#[derive(Debug, Clone, Copy)]
pub struct TempRestrict {
    pub seat: Seat,
    pub restriction: Restriction,
    pub until_round: u8,
}

/// How a Foundling takes to being courted.
#[derive(Debug, Clone, Copy, PartialEq, Eq, Structural)]
pub enum Temperament {
    /// One adjacency by an ally sharing an Imprint befriends it.
    Gentle,
    /// Surfaces veiled; two consecutive courting turns by one seat befriend it.
    Wary,
    /// Intercepts arrivals; befriendable only while Echo-wounded.
    Feral,
}

/// The round-ahead notice of where a Stray will surface.
#[derive(Debug, Clone, Copy)]
pub struct StrayTelegraph {
    pub tile: u8,
    pub surface_round: u8,
    pub midnight: bool,
}

/// The wild Stray standing on the board.
#[derive(Debug, Clone, Copy)]
pub struct Stray {
    pub card: CardId,
    pub tile: u8,
    pub temperament: Temperament,
    pub veiled: bool,
    pub courtship: u8,
    pub courted_by: Option<Seat>,
    pub hp: i16,
    pub hp_max: i16,
}

/// How a match ended.
#[derive(Debug, Clone, Copy, PartialEq, Eq, Structural)]
pub enum MatchResult {
    Win(Seat),
    Draw,
}

/// Where the match stands.
#[derive(Debug, Clone, Copy, PartialEq, Eq, Structural)]
pub enum Phase {
    Acting,
    PendingRelease { seat: Seat },
    PendingChoice { seat: Seat },
    Finished { result: MatchResult, score_a: u8, score_b: u8 },
}

/// The match's tunable rules.
#[derive(Debug, Clone, Copy)]
pub struct MatchRules {
    pub last_round: u8,
    pub contraction_after: u8,
    pub factions: [Faction; 2],
}

/// One player's cards and Anima.
#[derive(Debug, Clone)]
pub struct PlayerState {
    pub hand: Vec<CardId>,
    pub deck: Vec<CardId>,
    pub anima: u8,
    pub glimpsed_this_turn: bool,
    pub peeked_top: Option<CardId>,
    pub first_placement_done: bool,
}

/// A choice the match waits on, offered to one seat.
#[derive(Debug, Clone)]
pub enum PendingChoice {
    /// Look at the top cards and keep some.
    Peek { seat: Seat, looked: Vec<CardId> },
    /// A Glimpse's cost: the hand card to burn.
    GlimpseBurn { seat: Seat, burnable: Vec<CardId> },
    /// A Glimpse: keep the top card, or send it to the bottom.
    Glimpse { seat: Seat, top: CardId },
    /// A tile among the options, for the effect of the source's clause.
    Target { seat: Seat, options: Vec<u8>, source: u8 },
    /// A dissolved card to take back into the hand.
    Recover { seat: Seat, options: Vec<CardId> },
}

/// How many options a pending choice offers.
pub open spec fn choice_count(pc: PendingChoice) -> int {
    match pc {
        PendingChoice::Peek { looked, .. } => looked@.len() as int,
        PendingChoice::GlimpseBurn { burnable, .. } => burnable@.len() as int,
        PendingChoice::Glimpse { .. } => 2,
        PendingChoice::Target { options, .. } => options@.len() as int,
        PendingChoice::Recover { options, .. } => options@.len() as int,
    }
}

/// How many options a pending choice offers.
pub fn choice_options(pc: &PendingChoice) -> (n: usize)
    ensures
        n as int == choice_count(*pc),
{
    match pc {
        PendingChoice::Peek { looked, .. } => looked.len(),
        PendingChoice::GlimpseBurn { burnable, .. } => burnable.len(),
        PendingChoice::Glimpse { .. } => 2,
        PendingChoice::Target { options, .. } => options.len(),
        PendingChoice::Recover { options, .. } => options.len(),
    }
}

/// The match state.
#[derive(Debug, Clone)]
pub struct GameState {
    pub rules: MatchRules,
    pub contracted: bool,
    pub round: u8,
    pub active: Seat,
    pub phase: Phase,
    pub board: Vec<TileState>,
    pub board_w: i8,
    pub player_a: PlayerState,
    pub player_b: PlayerState,
    pub player_a2: Option<PlayerState>,
    pub player_b2: Option<PlayerState>,
    pub active_slot: SeatSlot,
    pub moved_this_turn: Vec<u8>,
    pub temp_mods: Vec<TempMod>,
    pub temp_reach: Vec<TempReach>,
    pub temp_restrict: Vec<TempRestrict>,
    /// This-round retaliation shifts: (tile, delta, through round).
    pub temp_retaliation: Vec<(u8, i16, u8)>,
    /// Per-seat card surcharge: (tax, through round).
    pub card_tax: [(u8, u8); 2],
    pub ignore_imprint_this_turn: [bool; 2],
    /// A Landmark silenced for a round: (tile, round).
    pub silenced_terrain: Option<(u8, u8)>,
    pub bonds: Vec<Bond>,
    pub stray: Option<Stray>,
    /// Each seat's once-per-match mulligan is spent.
    pub mulliganed: [bool; 2],
    /// The Solace's off-board erasure tally.
    pub solace_erasures: u8,
    /// Every non-token spirit that fully dissolved, by owner: the Recover pool.
    pub dissolved: Vec<(Seat, CardId)>,
    /// Per-seat discount on the next Ritual.
    pub next_ritual_discount: [u8; 2],
    /// Per-seat count of allies fully dissolved this turn.
    pub dissolved_this_turn: [u8; 2],
    /// Tiles whose next Fade is put off once.
    pub fade_delayed: Vec<u8>,
    /// Per-seat Anima owed at the next flow.
    pub pending_flow_anima: [u8; 2],
    /// Per-seat Attack for the next arrival.
    pub next_arrival_atk: [i16; 2],
    /// Per-seat second-engage offer for the next arrival (its Attack penalty).
    pub next_arrival_2nd_engage: [Option<i16>; 2],
    /// Per-seat known face-down Fabrications: (tile, card).
    pub peeked_fabs: [Vec<(u8, CardId)>; 2],
    /// Extra targets armed for the next Ritual choice.
    pub ritual_extra_targets: u8,
    /// The round from which impressions stopped scoring.
    pub impressions_dormant_round: Option<u8>,
    /// Calm tiles: (tile, through round).
    pub calm_tiles: Vec<(u8, u8)>,
    /// Per-seat last face-up spirit played.
    pub last_played_spirit: [Option<CardId>; 2],
    pub stray_telegraph: Option<StrayTelegraph>,
    pub stray_match: bool,
    pub unwriting_told_this_round: bool,
    /// The choice the match waits on, if any.
    pub pending_choice: Option<PendingChoice>,
}

impl GameState {
    /// A square board of a supported width (at most 8 — the 1v1 board is 5 wide, the 2v2
    /// board 6), with one tile per square.
    pub open spec fn wf(&self) -> bool {
        valid_width(self.board_w) && self.board_w <= 8 && self.board@.len() == self.board_w * self.board_w
    }

    /// The spirit on `tile`, if any (nothing off the board).
    pub open spec fn spec_spirit_at(&self, tile: u8) -> Option<Spirit> {
        if (tile as int) < self.board@.len() {
            self.board@[tile as int].spirit
        } else {
            None
        }
    }

    pub fn spirit_at(&self, tile: u8) -> (r: Option<&Spirit>)
        ensures
            match r {
                Some(s) => self.spec_spirit_at(tile) == Some(*s),
                None => self.spec_spirit_at(tile) is None,
            },
    {
        if (tile as usize) < self.board.len() {
            self.board[tile as usize].spirit.as_ref()
        } else {
            None
        }
    }

    /// The (first) player of a seat.
    pub open spec fn spec_player(&self, seat: Seat) -> PlayerState {
        match seat {
            Seat::A => self.player_a,
            Seat::B => self.player_b,
        }
    }

    pub fn player(&self, seat: Seat) -> (r: &PlayerState)
        ensures
            *r == self.spec_player(seat),
    {
        match seat {
            Seat::A => &self.player_a,
            Seat::B => &self.player_b,
        }
    }

    /// A four-player match.
    pub open spec fn spec_is_2v2(&self) -> bool {
        self.player_a2 is Some
    }

    #[verifier::when_used_as_spec(spec_is_2v2)]
    pub fn is_2v2(&self) -> (r: bool)
        ensures
            r == self.spec_is_2v2(),
    {
        self.player_a2.is_some()
    }
}

/// Whether `tile` can receive an arriving or relocating spirit: unfaded, spirit-free,
/// terrain-free, and not the Stray's tile.
pub open spec fn spec_tile_open_for_arrival(sim: GameState, tile: u8) -> bool {
    let t = sim.board@[tile as int];
    !t.faded && t.spirit is None && t.terrain is None && !(sim.stray matches Some(s) && s.tile == tile)
}

/// Whether `tile` can receive an arriving or relocating spirit: unfaded, spirit-free,
/// terrain-free, and not the Stray's tile — the one predicate every landing site shares.
pub fn tile_open_for_arrival(sim: &GameState, tile: u8) -> (r: bool)
    requires
        (tile as int) < sim.board@.len(),
    ensures
        r == spec_tile_open_for_arrival(*sim, tile),
{
    let t = &sim.board[tile as usize];
    let stray_here = match &sim.stray {
        Some(s) => s.tile == tile,
        None => false,
    };
    !t.faded && t.spirit.is_none() && t.terrain.is_none() && !stray_here
}

} // verus!
