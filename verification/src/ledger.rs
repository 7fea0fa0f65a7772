//! Ledgers: what the rules say of the moves that a player proposes.
//!
//! Every move is judged against the registry as it stands before the first
//! move; the scratch area is judged as the whole ledger would leave it.

use crate::card::CardId;
use crate::container::{hand_of, scratch, ContainerId, Place};
use crate::error::GameError;
use crate::placement::{
    cards_in, holds, lemma_location_line, lemma_relocate, lemma_without, lemma_without_joined,
    location, registered, relocate, well_formed, without, Placement,
};
use crate::player::CardMove;
use vstd::prelude::*;

verus! {

/// True unless the container is the hand of a seat beyond the first `seats` seats.
pub open spec fn seated(place: ContainerId, seats: int) -> bool {
    match place.0 {
        Place::Hand(seat) => seat < seats,
        _ => true,
    }
}

/// True when every hand that holds a card belongs to one of the first `seats` seats.
pub open spec fn hands_seated(s: Seq<Placement>, seats: int) -> bool {
    forall|card: CardId| (#[trigger] location(s, card)) matches Some(place) ==> seated(place, seats)
}

/// A player may take a card from their own hand, and, once they have laid
/// down, from their own melds.
pub open spec fn source_allowed(place: ContainerId, player: usize, laid_down: bool) -> bool {
    place == hand_of(player) || (laid_down && place.is_meld_of(player))
}

/// A player may put a card into the scratch area, and into their own melds:
/// before they have laid down only into those that are still empty.
pub open spec fn target_allowed(
    s: Seq<Placement>,
    target: ContainerId,
    player: usize,
    laid_down: bool,
) -> bool {
    target == scratch() || (target.is_meld_of(player) && (laid_down || cards_in(s, target).len()
        == 0))
}

/// The fault of one move against the registry as it stands, if it has one:
/// the card is unknown, or it lies where the player may not take from, or it
/// goes where the player may not put it.
pub open spec fn move_fault(s: Seq<Placement>, step: CardMove, player: usize, laid_down: bool) -> Option<
    GameError,
> {
    match location(s, step.card_id) {
        None => Some(GameError::UnknownCard(step.card_id)),
        Some(place) => if !source_allowed(place, player, laid_down) {
            Some(GameError::InvalidMoveSource { card: step.card_id, container: place })
        } else if !target_allowed(s, step.to_container, player, laid_down) {
            Some(GameError::InvalidMoveTarget(step.to_container))
        } else {
            None
        },
    }
}

/// The fault of the first faulty move of a ledger, if any move is faulty.
pub open spec fn first_fault(
    s: Seq<Placement>,
    ledger: Seq<CardMove>,
    player: usize,
    laid_down: bool,
) -> Option<GameError>
    decreases ledger.len(),
{
    if ledger.len() == 0 {
        None
    } else {
        match first_fault(s, ledger.drop_last(), player, laid_down) {
            Some(fault) => Some(fault),
            None => move_fault(s, ledger.last(), player, laid_down),
        }
    }
}

/// The registry after the moves of a ledger, one after the other.
pub open spec fn apply_ledger(s: Seq<Placement>, ledger: Seq<CardMove>) -> Seq<Placement>
    decreases ledger.len(),
{
    if ledger.len() == 0 {
        s
    } else {
        relocate(apply_ledger(s, ledger.drop_last()), ledger.last().card_id, ledger.last().to_container)
    }
}

/// Number of cards that the ledger would leave in the scratch area.
pub open spec fn scratch_left(s: Seq<Placement>, ledger: Seq<CardMove>) -> nat {
    cards_in(apply_ledger(s, ledger), scratch()).len()
}

/// The fault of a ledger, if it has one: that of its first faulty move, or,
/// when every move is in order, the cards that it would leave in the scratch
/// area.
pub open spec fn ledger_fault(
    s: Seq<Placement>,
    ledger: Seq<CardMove>,
    player: usize,
    laid_down: bool,
) -> Option<GameError> {
    match first_fault(s, ledger, player, laid_down) {
        Some(fault) => Some(fault),
        None => if scratch_left(s, ledger) == 0 {
            None
        } else {
            Some(GameError::DanglingScratchCards(scratch_left(s, ledger) as usize))
        },
    }
}

/// What a check returns for a fault, or for none.
pub open spec fn verdict(fault: Option<GameError>) -> Result<(), GameError> {
    match fault {
        Some(reason) => Err(reason),
        None => Ok(()),
    }
}

/// True when some move of the ledger puts a card into a meld of the player.
pub open spec fn lays_down(ledger: Seq<CardMove>, player: usize) -> bool {
    exists|i: int| 0 <= i < ledger.len() && (#[trigger] ledger[i]).to_container.is_meld_of(player)
}

/// The first card of a ledger that the registry does not hold, if there is one.
pub open spec fn first_unknown(s: Seq<Placement>, ledger: Seq<CardMove>) -> Option<CardId>
    decreases ledger.len(),
{
    if ledger.len() == 0 {
        None
    } else {
        match first_unknown(s, ledger.drop_last()) {
            Some(card) => Some(card),
            None => if holds(s, ledger.last().card_id) {
                None
            } else {
                Some(ledger.last().card_id)
            },
        }
    }
}

/// Applying a ledger keeps the registry well formed, of the same length and
/// with the same cards.
pub proof fn lemma_apply_ledger(s: Seq<Placement>, ledger: Seq<CardMove>)
    requires
        well_formed(s),
    ensures
        well_formed(apply_ledger(s, ledger)),
        apply_ledger(s, ledger).len() == s.len(),
        registered(apply_ledger(s, ledger)) == registered(s),
    decreases ledger.len(),
{
    if ledger.len() > 0 {
        lemma_apply_ledger(s, ledger.drop_last());
        lemma_relocate(
            apply_ledger(s, ledger.drop_last()),
            ledger.last().card_id,
            ledger.last().to_container,
        );
    }
}

/// The placements that a ledger makes, in its order.
pub open spec fn placed(ledger: Seq<CardMove>) -> Seq<Placement> {
    Seq::new(
        ledger.len(),
        |i: int| Placement { card: ledger[i].card_id, place: ledger[i].to_container },
    )
}

/// The placements that a ledger leaves alone: the registry without the cards
/// that the ledger names.
pub open spec fn untouched(s: Seq<Placement>, ledger: Seq<CardMove>) -> Seq<Placement>
    decreases ledger.len(),
{
    if ledger.len() == 0 {
        s
    } else {
        without(untouched(s, ledger.drop_last()), ledger.last().card_id)
    }
}

/// True when no two moves of a ledger name the same card.
pub open spec fn moves_once(ledger: Seq<CardMove>) -> bool {
    forall|i: int, j: int|
        0 <= i < j < ledger.len() ==> (#[trigger] ledger[i]).card_id != (#[trigger] ledger[j]).card_id
}

/// A ledger that moves known cards, each once, leaves the registry as the
/// placements it did not touch, followed by its own placements in order.
pub proof fn lemma_moves_once(s: Seq<Placement>, ledger: Seq<CardMove>)
    requires
        well_formed(s),
        moves_once(ledger),
        forall|i: int| 0 <= i < ledger.len() ==> holds(s, (#[trigger] ledger[i]).card_id),
    ensures
        apply_ledger(s, ledger) == untouched(s, ledger) + placed(ledger),
        well_formed(untouched(s, ledger)),
        untouched(s, ledger).len() == s.len() - ledger.len(),
        forall|card: CardId|
            (forall|i: int| 0 <= i < ledger.len() ==> (#[trigger] ledger[i]).card_id != card)
                ==> #[trigger] location(untouched(s, ledger), card) == location(s, card),
    decreases ledger.len(),
{
    if ledger.len() > 0 {
        let front = ledger.drop_last();
        let step = ledger.last();
        lemma_moves_once(s, front);
        lemma_apply_ledger(s, front);
        let left = untouched(s, front);
        let made = placed(front);
        let mid = apply_ledger(s, front);
        assert(holds(mid, step.card_id)) by {
            assert(registered(mid).contains(step.card_id) == registered(s).contains(step.card_id));
        }
        lemma_without(left, step.card_id);
        lemma_without(made, step.card_id);
        lemma_location_line(made, step.card_id);
        lemma_without_joined(left, made, step.card_id);
    }
}

/// A ledger that puts no card into the hand of a seat that does not exist
/// leaves every hand to a seat that exists.
pub proof fn lemma_seated_ledger(s: Seq<Placement>, ledger: Seq<CardMove>, seats: int)
    requires
        well_formed(s),
        hands_seated(s, seats),
        forall|i: int| 0 <= i < ledger.len() ==> seated((#[trigger] ledger[i]).to_container, seats),
    ensures
        hands_seated(apply_ledger(s, ledger), seats),
    decreases ledger.len(),
{
    if ledger.len() > 0 {
        let front = ledger.drop_last();
        let step = ledger.last();
        lemma_seated_ledger(s, front, seats);
        lemma_apply_ledger(s, front);
        let mid = apply_ledger(s, front);
        lemma_relocate(mid, step.card_id, step.to_container);
    }
}

/// A ledger without a faulty move names known cards only and puts no card
/// into a hand, so it leaves every hand to a seat that exists.
pub proof fn lemma_faultless_ledger(
    s: Seq<Placement>,
    ledger: Seq<CardMove>,
    player: usize,
    laid_down: bool,
    seats: int,
)
    requires
        well_formed(s),
        first_fault(s, ledger, player, laid_down) is None,
    ensures
        first_unknown(s, ledger) is None,
        hands_seated(s, seats) ==> hands_seated(apply_ledger(s, ledger), seats),
        forall|i: int| 0 <= i < ledger.len() ==> move_fault(s, #[trigger] ledger[i], player, laid_down) is None,
    decreases ledger.len(),
{
    if ledger.len() > 0 {
        let front = ledger.drop_last();
        lemma_faultless_ledger(s, front, player, laid_down, seats);
        assert forall|i: int| 0 <= i < ledger.len() implies move_fault(
            s,
            #[trigger] ledger[i],
            player,
            laid_down,
        ) is None by {
            if i < front.len() {
                assert(front[i] == ledger[i]);
            }
        }
    }
    if hands_seated(s, seats) {
        lemma_seated_ledger(s, ledger, seats);
    }
}

/// A ledger whose cards are all held names no unknown card.
pub proof fn lemma_all_known(s: Seq<Placement>, ledger: Seq<CardMove>)
    requires
        forall|i: int| 0 <= i < ledger.len() ==> holds(s, (#[trigger] ledger[i]).card_id),
    ensures
        first_unknown(s, ledger) is None,
    decreases ledger.len(),
{
    if ledger.len() > 0 {
        let front = ledger.drop_last();
        lemma_all_known(s, front);
    }
}

/// A faulty move makes its ledger faulty, wherever it stands.
pub proof fn lemma_fault_found(
    s: Seq<Placement>,
    ledger: Seq<CardMove>,
    player: usize,
    laid_down: bool,
    i: int,
)
    requires
        0 <= i < ledger.len(),
        move_fault(s, ledger[i], player, laid_down) is Some,
    ensures
        first_fault(s, ledger, player, laid_down) is Some,
        ledger_fault(s, ledger, player, laid_down) is Some,
    decreases ledger.len(),
{
    if i < ledger.len() - 1 {
        lemma_fault_found(s, ledger.drop_last(), player, laid_down, i);
    }
}

/// A player who has not laid down cannot put a card into a meld of another
/// player, nor into a meld that already holds a card: a ledger with such a
/// move has a fault, whatever else it holds.
pub proof fn lemma_early_meld_refused(s: Seq<Placement>, ledger: Seq<CardMove>, player: usize, i: int)
    requires
        0 <= i < ledger.len(),
        ledger[i].to_container.is_meld(),
        !ledger[i].to_container.is_meld_of(player) || cards_in(s, ledger[i].to_container).len() > 0,
    ensures
        ledger_fault(s, ledger, player, false) is Some,
{
    lemma_fault_found(s, ledger, player, false, i);
}

/// Once the first moves of a ledger hold a fault, the ledger has that fault.
pub proof fn lemma_first_fault_stays(
    s: Seq<Placement>,
    ledger: Seq<CardMove>,
    player: usize,
    laid_down: bool,
    upto: int,
)
    requires
        0 <= upto <= ledger.len(),
        first_fault(s, ledger.take(upto), player, laid_down) is Some,
    ensures
        first_fault(s, ledger, player, laid_down) == first_fault(s, ledger.take(upto), player, laid_down),
    decreases ledger.len() - upto,
{
    if upto < ledger.len() {
        assert(ledger.take(upto + 1).drop_last() == ledger.take(upto));
        lemma_first_fault_stays(s, ledger, player, laid_down, upto + 1);
    } else {
        assert(ledger.take(upto) == ledger);
    }
}

/// Once the first moves of a ledger name an unknown card, that card is the
/// ledger's first unknown card.
pub proof fn lemma_first_unknown_stays(s: Seq<Placement>, ledger: Seq<CardMove>, upto: int)
    requires
        0 <= upto <= ledger.len(),
        first_unknown(s, ledger.take(upto)) is Some,
    ensures
        first_unknown(s, ledger) == first_unknown(s, ledger.take(upto)),
    decreases ledger.len() - upto,
{
    if upto < ledger.len() {
        assert(ledger.take(upto + 1).drop_last() == ledger.take(upto));
        lemma_first_unknown_stays(s, ledger, upto + 1);
    } else {
        assert(ledger.take(upto) == ledger);
    }
}

} // verus!
