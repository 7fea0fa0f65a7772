//! The containers: the places a card can be in.
//!
//! A container is a name, not a thing: it holds what the registry says it
//! holds, and a container that holds nothing is simply not mentioned there.

use vstd::prelude::*;

verus! {

/// The places a card can be in.
#[derive(Debug, Clone, Copy, PartialEq, Eq, Structural, Hash)]
pub enum Place {
    /// The face-down stock.
    Deck,
    /// The face-up discard pile.
    Discard,
    /// The shared staging area of the turn in progress.
    Scratch,
    /// The hand of a seat.
    Hand(usize),
    /// A group laid down by a seat, with its index among that seat's groups.
    Group(usize, usize),
    /// A run laid down by a seat, with its index among that seat's runs.
    Run(usize, usize),
}

/// Names a container.
#[derive(Debug, Clone, Copy, PartialEq, Eq, Structural, Hash)]
pub struct ContainerId(pub Place);

impl ContainerId {
    /// True for a hand, whoever holds it.
    pub open spec fn is_hand(self) -> bool {
        self.0 is Hand
    }

    /// True for a group or a run on the table, whoever laid it down.
    pub open spec fn is_meld(self) -> bool {
        self.0 is Group || self.0 is Run
    }

    /// True for a group or a run laid down by `player`.
    pub open spec fn is_meld_of(self, player: usize) -> bool {
        match self.0 {
            Place::Group(seat, _) => seat == player,
            Place::Run(seat, _) => seat == player,
            _ => false,
        }
    }

    pub fn deck() -> (c: ContainerId)
        ensures
            c == ContainerId(Place::Deck),
    {
        ContainerId(Place::Deck)
    }

    pub fn discard() -> (c: ContainerId)
        ensures
            c == ContainerId(Place::Discard),
    {
        ContainerId(Place::Discard)
    }

    pub fn table_temp() -> (c: ContainerId)
        ensures
            c == ContainerId(Place::Scratch),
    {
        ContainerId(Place::Scratch)
    }

    pub fn player_hand(player: usize) -> (c: ContainerId)
        ensures
            c == ContainerId(Place::Hand(player)),
    {
        ContainerId(Place::Hand(player))
    }

    pub fn player_group(player: usize, group_idx: usize) -> (c: ContainerId)
        ensures
            c == ContainerId(Place::Group(player, group_idx)),
    {
        ContainerId(Place::Group(player, group_idx))
    }

    pub fn player_run(player: usize, run_idx: usize) -> (c: ContainerId)
        ensures
            c == ContainerId(Place::Run(player, run_idx)),
    {
        ContainerId(Place::Run(player, run_idx))
    }
}

/// The shared staging area.
pub open spec fn scratch() -> ContainerId {
    ContainerId(Place::Scratch)
}

/// The hand of a seat.
pub open spec fn hand_of(player: usize) -> ContainerId {
    ContainerId(Place::Hand(player))
}

/// The discard pile.
pub open spec fn discard_pile() -> ContainerId {
    ContainerId(Place::Discard)
}

} // verus!
