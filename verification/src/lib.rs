//! Rules engine for a contract rummy played with two decks and their jokers.
//!
//! The registry records where every card is; the engine validates what a
//! player proposes for a turn and commits it; the meld checks decide whether
//! a set of cards forms a group or a run.

pub mod card;
pub mod container;
pub mod contract;
pub mod deal;
pub mod engine;
pub mod error;
pub mod ledger;
pub mod meld;
pub mod placement;
pub mod player;
pub mod players;
pub mod registry;
pub mod round;
pub mod view;

pub use card::{
    card_id_to_rank, card_id_to_score, card_id_to_suit, card_id_to_view, CardId, CardView, Rank,
    Suit,
};
pub use container::{ContainerId, Place};
pub use contract::{ContractBid, ContractOrder};
pub use engine::{GamePhase, GameState, TurnOutcome};
pub use error::{GameError, PlayerError};
pub use meld::{CardContainer, MeldRules, SetType};
pub use placement::Placement;
pub use player::{CardMove, DrawDecision, Player, PlayerView, TurnResult};
pub use players::BasicPlayer;
pub use registry::CardRegistry;
