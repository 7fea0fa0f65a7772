//! The reasons for which the engine refuses to go on.

use crate::card::CardId;
use crate::container::ContainerId;
use vstd::prelude::*;

verus! {

/// What a player strategy reports when it cannot produce a turn.
#[derive(Debug, Clone, PartialEq, Eq)]
pub struct PlayerError {
    pub message: String,
}

/// Every way in which a round can fail.
#[derive(Debug, Clone, PartialEq, Eq)]
pub enum GameError {
    /// The registry was asked about a card it never received.
    UnknownCard(CardId),
    /// The cards at hand do not cover the hands to deal and the first discard.
    InsufficientCards,
    /// A player chose to draw from a pile that holds nothing.
    EmptyPile(ContainerId),
    /// A move takes a card from a container the player may not take from.
    InvalidMoveSource { card: CardId, container: ContainerId },
    /// A move puts a card into a container the player may not fill.
    InvalidMoveTarget(ContainerId),
    /// The moves of a turn would leave this many cards in the scratch area.
    DanglingScratchCards(usize),
    /// The card declared as discard is not in the player's hand.
    InvalidDiscard(CardId),
    /// The player strategy failed; its report is passed on as it came.
    Player(PlayerError),
}

} // verus!
