//! What the engine shows a player, and what a player answers.

use crate::card::{CardId, CardView};
use crate::container::ContainerId;
use crate::contract::ContractOrder;
use crate::error::PlayerError;
use crate::meld::CardContainer;
use vstd::prelude::*;

verus! {

/// Where the player at turn draws from.
#[derive(Debug, Clone, Copy, PartialEq, Eq, Structural)]
pub enum DrawDecision {
    Deck,
    Discard,
}

/// One card going to one container.
#[derive(Debug, Clone, Copy, PartialEq, Eq, Structural)]
pub struct CardMove {
    pub card_id: CardId,
    pub to_container: ContainerId,
}

/// What a player proposes for a turn: moves, in order, and the card to
/// discard after them.
#[derive(Debug, Clone)]
pub struct TurnResult {
    pub move_ledger: Vec<CardMove>,
    pub discard: CardId,
}

/// What one player sees of the round.
#[derive(Debug, Clone)]
pub struct PlayerView {
    /// Whose turn it is, counted from the viewer: 0 is the viewer, 1 the next
    /// seat after the viewer, and so on.
    pub current_player: usize,
    pub contract: ContractOrder,
    /// The viewer's own hand.
    pub held_cards: CardContainer,
    /// Every group on the table.
    pub table_groups: Vec<CardContainer>,
    /// Every run on the table.
    pub table_runs: Vec<CardContainer>,
    /// The top of the discard pile, or the marker for an empty pile.
    pub last_discard: CardView,
}

/// A player strategy. The engine asks, the player answers; a player never
/// touches the registry.
pub trait Player {
    /// Asked when another player discards: does this player want the card?
    fn check_nunu(&mut self, view: &PlayerView, discarded_card: &CardView) -> bool;

    /// Asked at the start of the player's turn: where to draw from.
    fn draw_decision(&mut self, view: &PlayerView) -> DrawDecision;

    /// Asked after the draw: the moves of the turn and the discard.
    fn play_turn(&mut self, view: &PlayerView) -> Result<TurnResult, PlayerError>;

    /// Told about a change of the round.
    fn notify_game_update(&mut self, view: &PlayerView);
}

} // verus!
