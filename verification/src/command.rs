//! The commands a seat plays: one per action of a turn, a choice's answer, or the end of
//! the turn.
use vstd::prelude::*;

use crate::types::Seat;

verus! {

/// A command, as a seat plays it.
#[derive(Debug, Clone)]
pub enum Command {
    /// Play the spirit in hand slot `hand_index` onto `tile`, engaging `engage` on arrival;
    /// `chain_prefs` orders the Momentum targets it prefers.
    PlaySpirit { hand_index: u8, tile: u8, engage: Option<u8>, chain_prefs: Vec<u8> },
    /// Overwrite the enemy (or the Stray) on `tile` with the spirit in hand.
    Overwrite { hand_index: u8, tile: u8 },
    /// Step a Mobile spirit to a neighbouring tile, engaging on arrival.
    MoveSpirit { from: u8, to: u8, engage: Option<u8> },
    /// Play a form card onto the base on `tile`, fuelled by a donor for a Fabled form.
    Evolve { tile: u8, form_hand: u8, fuel: Option<u8>, engage: Option<u8> },
    /// Let a fading form on `tile` recede to the base in hand.
    Devolve { tile: u8, base_hand: u8 },
    /// Turn a face-down spirit up, engaging from the reveal.
    Reveal { tile: u8, engage: Option<u8> },
    CastRitual { hand_index: u8 },
    TellUnwriting { hand_index: u8 },
    AttachBond { hand_index: u8, tile_a: u8, tile_b: u8 },
    PlaceLandmark { hand_index: u8, tile: u8 },
    SetFabrication { hand_index: u8, tile: u8 },
    /// Spring an enemy face-down Fabrication from range.
    StrikeFabrication { from: u8, tile: u8 },
    SetOrders { tile: u8, hold: bool },
    /// Cash a standing spirit of one's own for Anima.
    Reclaim { tile: u8 },
    Glimpse,
    /// Send the hand card to the bottom of the deck (over the hand cap).
    Release { hand_index: u8 },
    /// Answer the pending choice with its option `index`.
    Choose { index: u8 },
    Mulligan { seat: Seat },
    BanishStray,
    EndTurn,
    MatchAbandoned { seat: Seat },
}

/// A command with its list of preferred targets as a sequence.
pub enum CommandView {
    PlaySpirit { hand_index: u8, tile: u8, engage: Option<u8>, chain_prefs: Seq<u8> },
    Overwrite { hand_index: u8, tile: u8 },
    MoveSpirit { from: u8, to: u8, engage: Option<u8> },
    Evolve { tile: u8, form_hand: u8, fuel: Option<u8>, engage: Option<u8> },
    Devolve { tile: u8, base_hand: u8 },
    Reveal { tile: u8, engage: Option<u8> },
    CastRitual { hand_index: u8 },
    TellUnwriting { hand_index: u8 },
    AttachBond { hand_index: u8, tile_a: u8, tile_b: u8 },
    PlaceLandmark { hand_index: u8, tile: u8 },
    SetFabrication { hand_index: u8, tile: u8 },
    StrikeFabrication { from: u8, tile: u8 },
    SetOrders { tile: u8, hold: bool },
    Reclaim { tile: u8 },
    Glimpse,
    Release { hand_index: u8 },
    Choose { index: u8 },
    Mulligan { seat: Seat },
    BanishStray,
    EndTurn,
    MatchAbandoned { seat: Seat },
}

impl View for Command {
    type V = CommandView;

    open spec fn view(&self) -> CommandView {
        match *self {
            Command::PlaySpirit { hand_index, tile, engage, chain_prefs } =>
                CommandView::PlaySpirit { hand_index, tile, engage, chain_prefs: chain_prefs@ },
            Command::Overwrite { hand_index, tile } => CommandView::Overwrite { hand_index, tile },
            Command::MoveSpirit { from, to, engage } => CommandView::MoveSpirit { from, to, engage },
            Command::Evolve { tile, form_hand, fuel, engage } => CommandView::Evolve { tile, form_hand, fuel, engage },
            Command::Devolve { tile, base_hand } => CommandView::Devolve { tile, base_hand },
            Command::Reveal { tile, engage } => CommandView::Reveal { tile, engage },
            Command::CastRitual { hand_index } => CommandView::CastRitual { hand_index },
            Command::TellUnwriting { hand_index } => CommandView::TellUnwriting { hand_index },
            Command::AttachBond { hand_index, tile_a, tile_b } => CommandView::AttachBond { hand_index, tile_a, tile_b },
            Command::PlaceLandmark { hand_index, tile } => CommandView::PlaceLandmark { hand_index, tile },
            Command::SetFabrication { hand_index, tile } => CommandView::SetFabrication { hand_index, tile },
            Command::StrikeFabrication { from, tile } => CommandView::StrikeFabrication { from, tile },
            Command::SetOrders { tile, hold } => CommandView::SetOrders { tile, hold },
            Command::Reclaim { tile } => CommandView::Reclaim { tile },
            Command::Glimpse => CommandView::Glimpse,
            Command::Release { hand_index } => CommandView::Release { hand_index },
            Command::Choose { index } => CommandView::Choose { index },
            Command::Mulligan { seat } => CommandView::Mulligan { seat },
            Command::BanishStray => CommandView::BanishStray,
            Command::EndTurn => CommandView::EndTurn,
            Command::MatchAbandoned { seat } => CommandView::MatchAbandoned { seat },
        }
    }
}

/// The views of a list of commands.
pub open spec fn views(s: Seq<Command>) -> Seq<CommandView> {
    s.map_values(|c: Command| c@)
}

proof fn lemma_views_push(s: Seq<Command>, c: Command)
    ensures
        views(s.push(c)) == views(s).push(c@),
{
    assert(views(s.push(c)) =~= views(s).push(c@));
}

/// Add one command to the list.
pub fn push_cmd(out: &mut Vec<Command>, c: Command)
    ensures
        views(final(out)@) == views(old(out)@).push(c@),
{
    proof {
        lemma_views_push(old(out)@, c);
    }
    out.push(c);
}

} // verus!
