//! A plain strategy: draw from the deck, meld nothing, discard the dearest card.

use crate::card::CardView;
use crate::error::PlayerError;
use crate::meld::CardContainer;
use crate::player::{DrawDecision, Player, PlayerView, TurnResult};
use vstd::prelude::*;

verus! {

/// A player that always draws from the deck and discards the card that
/// costs most.
#[derive(Debug)]
pub struct BasicPlayer;

/// True when the card at `at` costs at least as much as every card of the
/// hand and more than every card after it.
pub open spec fn is_dearest(cards: Seq<CardView>, at: int) -> bool {
    &&& 0 <= at < cards.len()
    &&& forall|k: int| 0 <= k < cards.len() ==> (#[trigger] cards[k]).score_value <= cards[at].score_value
    &&& forall|k: int| at < k < cards.len() ==> (#[trigger] cards[k]).score_value < cards[at].score_value
}

impl BasicPlayer {
    pub fn new() -> (player: BasicPlayer) {
        BasicPlayer
    }

    /// The card of a hand that costs most; of several that cost the same, the
    /// one that comes last. An empty hand has none.
    pub fn find_highest_card<'a>(&self, hand: &'a CardContainer) -> (found: Result<
        &'a CardView,
        PlayerError,
    >)
        ensures
            hand@.len() == 0 ==> found is Err && found->Err_0.message@ == "Hand is empty"@,
            hand@.len() > 0 ==> found is Ok && exists|at: int|
                is_dearest(hand@, at) && *(found->Ok_0) == hand@[at],
    {
        if hand.cards.len() == 0 {
            return Err(PlayerError { message: "Hand is empty".to_string() });
        }
        let mut best: usize = 0;
        let mut i: usize = 1;
        while i < hand.cards.len()
            invariant
                1 <= i <= hand.cards@.len(),
                is_dearest(hand.cards@.take(i as int), best as int),
            decreases hand.cards@.len() - i,
        {
            if hand.cards[i].score_value >= hand.cards[best].score_value {
                best = i;
            }
            i += 1;
        }
        proof {
            assert(hand.cards@.take(hand.cards@.len() as int) == hand.cards@);
        }
        Ok(&hand.cards[best])
    }
}

impl Player for BasicPlayer {
    fn check_nunu(&mut self, _view: &PlayerView, _discarded_card: &CardView) -> (wanted: bool)
        ensures
            !wanted,
    {
        false
    }

    fn draw_decision(&mut self, _view: &PlayerView) -> (decision: DrawDecision)
        ensures
            decision == DrawDecision::Deck,
    {
        DrawDecision::Deck
    }

    fn play_turn(&mut self, view: &PlayerView) -> (turn: Result<TurnResult, PlayerError>)
        ensures
            view.held_cards@.len() == 0 ==> turn is Err,
            view.held_cards@.len() > 0 ==> turn is Ok && turn->Ok_0.move_ledger@.len() == 0
                && exists|at: int|
                is_dearest(view.held_cards@, at) && turn->Ok_0.discard == view.held_cards@[at].id,
    {
        match self.find_highest_card(&view.held_cards) {
            Ok(highest_card) => Ok(TurnResult { move_ledger: Vec::new(), discard: highest_card.id }),
            Err(reason) => Err(reason),
        }
    }

    fn notify_game_update(&mut self, _view: &PlayerView) {
    }
}

} // verus!
