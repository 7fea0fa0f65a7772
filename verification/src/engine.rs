//! The turn engine: a draw, a ledger of moves and a discard, each checked
//! first and committed after.

use crate::card::CardId;
use crate::container::{discard_pile, hand_of, scratch, ContainerId, Place};
use crate::contract::ContractOrder;
use crate::error::GameError;
use crate::ledger::{
    apply_ledger, first_fault, first_unknown, hands_seated, lays_down, ledger_fault,
    lemma_apply_ledger, lemma_faultless_ledger, lemma_first_fault_stays, lemma_first_unknown_stays,
    move_fault, scratch_left, source_allowed, target_allowed, verdict,
};
use crate::placement::{
    cards_in, lemma_cards_in_located, lemma_cards_in_without, lemma_relocate, location, registered,
    relocate, well_formed, without, Placement,
};
use crate::player::{CardMove, DrawDecision, TurnResult};
use crate::registry::CardRegistry;
use vstd::prelude::*;

verus! {

/// The phases that a turn goes through.
#[derive(Debug, Clone, Copy, PartialEq, Eq, Structural)]
pub enum GamePhase {
    /// Before the draw, while the others may still claim the last discard.
    PreTurn,
    /// The player at turn chooses where to draw from.
    Drawing,
    /// The player at turn lays down or rearranges melds.
    Playing,
    /// The player at turn must discard.
    Discarding,
    /// A hand is empty: the round is over.
    GameOver,
}

/// How a turn ended.
#[derive(Debug, Clone, Copy, PartialEq, Eq, Structural)]
pub enum TurnOutcome {
    /// The next player is at turn.
    Continue,
    /// The player emptied their hand: the round is over.
    HandEnd,
}

/// A round in progress.
#[derive(Debug)]
pub struct GameState {
    /// Where every card is.
    pub card_registry: CardRegistry,
    /// The seat at turn.
    pub current_player: usize,
    pub contract: ContractOrder,
    /// For each seat, whether its player has laid down the contract.
    pub players_laid_down: Vec<bool>,
}

impl GameState {
    /// Number of seats at the table.
    pub open spec fn seats(&self) -> int {
        self.players_laid_down@.len() as int
    }

    /// A round can be played when the seat at turn exists and no card is in
    /// the hand of a seat that does not.
    pub open spec fn valid(&self) -> bool {
        &&& self.current_player < self.seats()
        &&& hands_seated(self.card_registry@, self.seats())
    }

    /// Whether the player at turn has laid down.
    pub open spec fn turn_laid_down(&self) -> bool {
        self.players_laid_down@[self.current_player as int]
    }
}

/// Tells whether a container can never take a card from a move: a hand, the
/// deck, the discard pile.
pub fn is_invalid_target_always(target: &ContainerId) -> (never: bool)
    ensures
        never == (target.is_hand() || *target == ContainerId(Place::Deck) || *target == ContainerId(
            Place::Discard,
        )),
{
    match target.0 {
        Place::Hand(_) => true,
        Place::Deck => true,
        Place::Discard => true,
        _ => false,
    }
}

/// Tells whether a container is a group or a run of the player.
pub fn is_own_table_container(container: &ContainerId, player: usize) -> (own: bool)
    ensures
        own == container.is_meld_of(player),
{
    match container.0 {
        Place::Group(seat, _) => seat == player,
        Place::Run(seat, _) => seat == player,
        _ => false,
    }
}

/// Tells whether a container is a group or a run, whoever laid it down.
pub fn is_table_set_container(target: &ContainerId) -> (meld: bool)
    ensures
        meld == target.is_meld(),
{
    match target.0 {
        Place::Group(_, _) => true,
        Place::Run(_, _) => true,
        _ => false,
    }
}

/// Tells whether a container is a group or a run of the player that holds no
/// card yet.
pub fn is_own_empty_set_container(state: &GameState, target: &ContainerId, player: usize) -> (empty: bool)
    ensures
        empty == (target.is_meld_of(player) && cards_in(state.card_registry@, *target).len() == 0),
{
    if !is_own_table_container(target, player) {
        return false;
    }
    let cards_in_target = state.card_registry.get_cards_in_container(target);
    cards_in_target.len() == 0
}

/// Checks where a move takes its card from.
pub fn validate_move_source(
    state: &GameState,
    card_id: CardId,
    current_player: usize,
    has_laid_down: bool,
) -> (checked: Result<(), GameError>)
    ensures
        checked == (match location(state.card_registry@, card_id) {
            None => Err::<(), GameError>(GameError::UnknownCard(card_id)),
            Some(place) => if source_allowed(place, current_player, has_laid_down) {
                Ok::<(), GameError>(())
            } else {
                Err::<(), GameError>(GameError::InvalidMoveSource { card: card_id, container: place })
            },
        }),
{
    let current_location: ContainerId = match state.card_registry.get_location(card_id) {
        Some(place) => *place,
        None => {
            return Err(GameError::UnknownCard(card_id));
        },
    };
    if current_location == ContainerId::player_hand(current_player) {
        return Ok(());
    }
    if has_laid_down && is_own_table_container(&current_location, current_player) {
        return Ok(());
    }
    Err(GameError::InvalidMoveSource { card: card_id, container: current_location })
}

/// Checks where a move puts its card.
pub fn validate_move_target(
    state: &GameState,
    target: &ContainerId,
    current_player: usize,
    has_laid_down: bool,
) -> (checked: Result<(), GameError>)
    ensures
        checked == (if target_allowed(state.card_registry@, *target, current_player, has_laid_down) {
            Ok::<(), GameError>(())
        } else {
            Err::<(), GameError>(GameError::InvalidMoveTarget(*target))
        }),
{
    if is_invalid_target_always(target) {
        return Err(GameError::InvalidMoveTarget(*target));
    }
    if *target == ContainerId::table_temp() {
        return Ok(());
    }
    if !has_laid_down {
        if is_own_empty_set_container(state, target, current_player) {
            return Ok(());
        } else {
            return Err(GameError::InvalidMoveTarget(*target));
        }
    }
    if is_own_table_container(target, current_player) {
        return Ok(());
    }
    Err(GameError::InvalidMoveTarget(*target))
}

/// Checks one move against the registry as it stands: the source first, then
/// the target.
pub fn validate_single_move(
    state: &GameState,
    card_move: &CardMove,
    current_player: usize,
    has_laid_down: bool,
) -> (checked: Result<(), GameError>)
    ensures
        checked == verdict(move_fault(state.card_registry@, *card_move, current_player, has_laid_down)),
{
    match validate_move_source(state, card_move.card_id, current_player, has_laid_down) {
        Ok(()) => {},
        Err(reason) => {
            return Err(reason);
        },
    }
    validate_move_target(state, &card_move.to_container, current_player, has_laid_down)
}

/// Checks that the ledger, applied as a whole, leaves the scratch area empty.
/// The registry itself is not touched: the moves are tried on a copy.
pub fn validate_temp_container_end_state(state: &GameState, moves: &[CardMove]) -> (checked: Result<
    (),
    GameError,
>)
    ensures
        checked == (if scratch_left(state.card_registry@, moves@) == 0 {
            Ok::<(), GameError>(())
        } else {
            Err::<(), GameError>(
                GameError::DanglingScratchCards(scratch_left(state.card_registry@, moves@) as usize),
            )
        }),
{
    let mut trial: CardRegistry = state.card_registry.duplicate();
    let mut i: usize = 0;
    while i < moves.len()
        invariant
            i <= moves@.len(),
            trial@ == apply_ledger(state.card_registry@, moves@.take(i as int)),
        decreases moves@.len() - i,
    {
        let step: CardMove = moves[i];
        proof {
            assert(moves@.take(i + 1).drop_last() == moves@.take(i as int));
        }
        let _ = trial.move_card(step.card_id, step.to_container);
        i += 1;
    }
    proof {
        assert(moves@.take(moves@.len() as int) == moves@);
    }
    let left = trial.get_cards_in_container(&ContainerId::table_temp());
    if left.len() == 0 {
        Ok(())
    } else {
        Err(GameError::DanglingScratchCards(left.len()))
    }
}

/// Checks a ledger before any of it is applied: every move against the
/// registry as it stands, in order, then the scratch area as the whole ledger
/// would leave it. The first fault found is the answer.
pub fn validate_move_ledger(state: &GameState, moves: &[CardMove]) -> (checked: Result<(), GameError>)
    requires
        state.current_player < state.seats(),
    ensures
        checked == verdict(
            ledger_fault(state.card_registry@, moves@, state.current_player, state.turn_laid_down()),
        ),
{
    let current_player: usize = state.current_player;
    let has_laid_down: bool = state.players_laid_down[current_player];
    let mut i: usize = 0;
    while i < moves.len()
        invariant
            i <= moves@.len(),
            current_player == state.current_player,
            has_laid_down == state.turn_laid_down(),
            first_fault(state.card_registry@, moves@.take(i as int), current_player, has_laid_down) is None,
        decreases moves@.len() - i,
    {
        proof {
            assert(moves@.take(i + 1).drop_last() == moves@.take(i as int));
        }
        match validate_single_move(state, &moves[i], current_player, has_laid_down) {
            Ok(()) => {},
            Err(reason) => {
                proof {
                    lemma_first_fault_stays(
                        state.card_registry@,
                        moves@,
                        current_player,
                        has_laid_down,
                        i + 1,
                    );
                }
                return Err(reason);
            },
        }
        i += 1;
    }
    proof {
        assert(moves@.take(moves@.len() as int) == moves@);
    }
    validate_temp_container_end_state(state, moves)
}

/// The pile that a draw decision names.
pub open spec fn draw_pile(decision: DrawDecision) -> ContainerId {
    match decision {
        DrawDecision::Deck => ContainerId(Place::Deck),
        DrawDecision::Discard => ContainerId(Place::Discard),
    }
}

/// The fault of a draw, if it has one: the chosen pile is empty.
pub open spec fn draw_fault(s: Seq<Placement>, decision: DrawDecision) -> Option<GameError> {
    if cards_in(s, draw_pile(decision)).len() == 0 {
        Some(GameError::EmptyPile(draw_pile(decision)))
    } else {
        None
    }
}

/// The registry after a draw: the top card of the chosen pile, the one that
/// arrived there last, is in the hand of the player. A draw from an empty pile
/// changes nothing.
pub open spec fn after_draw(s: Seq<Placement>, decision: DrawDecision, player: usize) -> Seq<Placement> {
    let pile = cards_in(s, draw_pile(decision));
    if pile.len() == 0 {
        s
    } else {
        relocate(s, pile.last(), hand_of(player))
    }
}

/// Draws for the player at turn: the top card of the chosen pile goes to the
/// player's hand. An empty pile is refused and nothing changes.
pub fn execute_draw(state: &mut GameState, decision: DrawDecision) -> (drawn: Result<(), GameError>)
    ensures
        drawn == verdict(draw_fault(old(state).card_registry@, decision)),
        final(state).card_registry@ == after_draw(
            old(state).card_registry@,
            decision,
            old(state).current_player,
        ),
        drawn is Err ==> *final(state) == *old(state),
        final(state).current_player == old(state).current_player,
        final(state).contract == old(state).contract,
        final(state).players_laid_down == old(state).players_laid_down,
        registered(final(state).card_registry@) == registered(old(state).card_registry@),
        old(state).valid() ==> final(state).valid(),
{
    let source: ContainerId = match decision {
        DrawDecision::Deck => ContainerId::deck(),
        DrawDecision::Discard => ContainerId::discard(),
    };
    let pile = state.card_registry.get_cards_in_container(&source);
    if pile.len() == 0 {
        return Err(GameError::EmptyPile(source));
    }
    let card_id: CardId = pile[pile.len() - 1];
    let ghost before = state.card_registry@;
    let ghost target = hand_of(state.current_player);
    state.card_registry.note_well_formed();
    proof {
        lemma_cards_in_located(before, source);
        assert(pile@.contains(card_id));
        lemma_relocate(before, card_id, target);
    }
    match state.card_registry.move_card(card_id, ContainerId::player_hand(state.current_player)) {
        Ok(()) => Ok(()),
        Err(fault) => Err(fault),
    }
}

/// Applies moves to a registry, one after the other in the order given. A
/// list that names a card the registry does not hold is refused as a whole and
/// nothing changes.
pub fn apply_moves(registry: &mut CardRegistry, moves: &[CardMove]) -> (done: Result<(), GameError>)
    ensures
        registered(final(registry)@) == registered(old(registry)@),
        match first_unknown(old(registry)@, moves@) {
            Some(card) => {
                &&& done == Err::<(), GameError>(GameError::UnknownCard(card))
                &&& *final(registry) == *old(registry)
            },
            None => {
                &&& done is Ok
                &&& final(registry)@ == apply_ledger(old(registry)@, moves@)
            },
        },
{
    let ghost before = registry@;
    let mut i: usize = 0;
    while i < moves.len()
        invariant
            i <= moves@.len(),
            *registry == *old(registry),
            before == registry@,
            first_unknown(before, moves@.take(i as int)) is None,
        decreases moves@.len() - i,
    {
        let step: CardMove = moves[i];
        proof {
            assert(moves@.take(i + 1).drop_last() == moves@.take(i as int));
        }
        if registry.get_location(step.card_id).is_none() {
            proof {
                lemma_first_unknown_stays(before, moves@, i + 1);
            }
            return Err(GameError::UnknownCard(step.card_id));
        }
        i += 1;
    }
    registry.note_well_formed();
    proof {
        assert(moves@.take(moves@.len() as int) == moves@);
    }
    let mut j: usize = 0;
    while j < moves.len()
        invariant
            j <= moves@.len(),
            well_formed(before),
            first_unknown(before, moves@) is None,
            registry@ == apply_ledger(before, moves@.take(j as int)),
        decreases moves@.len() - j,
    {
        let step: CardMove = moves[j];
        proof {
            assert(moves@.take(j + 1).drop_last() == moves@.take(j as int));
        }
        let _ = registry.move_card(step.card_id, step.to_container);
        j += 1;
    }
    proof {
        lemma_apply_ledger(before, moves@);
    }
    Ok(())
}

/// Tells whether some move of a ledger puts a card into a meld of the player.
pub fn ledger_lays_down(moves: &[CardMove], player: usize) -> (melds: bool)
    ensures
        melds == lays_down(moves@, player),
{
    let mut i: usize = 0;
    while i < moves.len()
        invariant
            i <= moves@.len(),
            forall|k: int| 0 <= k < i ==> !(#[trigger] moves@[k]).to_container.is_meld_of(player),
        decreases moves@.len() - i,
    {
        if is_own_table_container(&moves[i].to_container, player) {
            return true;
        }
        i += 1;
    }
    false
}

/// Applies a ledger, move by move in the order given, and notes a lay-down:
/// a player who had not laid down has done so once a move of theirs put a card
/// into one of their own melds. A ledger that names a card the registry does
/// not hold is refused as a whole and nothing changes.
pub fn execute_move_ledger(state: &mut GameState, moves: Vec<CardMove>) -> (done: Result<(), GameError>)
    requires
        old(state).current_player < old(state).seats(),
    ensures
        final(state).current_player == old(state).current_player,
        final(state).contract == old(state).contract,
        registered(final(state).card_registry@) == registered(old(state).card_registry@),
        match first_unknown(old(state).card_registry@, moves@) {
            Some(card) => {
                &&& done == Err::<(), GameError>(GameError::UnknownCard(card))
                &&& *final(state) == *old(state)
            },
            None => {
                &&& done is Ok
                &&& final(state).card_registry@ == apply_ledger(old(state).card_registry@, moves@)
                &&& final(state).players_laid_down@ == old(state).players_laid_down@.update(
                    old(state).current_player as int,
                    old(state).turn_laid_down() || lays_down(moves@, old(state).current_player),
                )
            },
        },
{
    let player: usize = state.current_player;
    match apply_moves(&mut state.card_registry, moves.as_slice()) {
        Ok(()) => {},
        Err(fault) => {
            return Err(fault);
        },
    }
    if !state.players_laid_down[player] && ledger_lays_down(moves.as_slice(), player) {
        state.players_laid_down.set(player, true);
    }
    Ok(())
}

/// Puts the declared discard of the player at turn onto the discard pile. A
/// card that is not in that player's hand is refused and nothing changes.
pub fn execute_discard(state: &mut GameState, card_id: CardId) -> (done: Result<(), GameError>)
    ensures
        final(state).current_player == old(state).current_player,
        final(state).contract == old(state).contract,
        final(state).players_laid_down == old(state).players_laid_down,
        registered(final(state).card_registry@) == registered(old(state).card_registry@),
        old(state).valid() ==> final(state).valid(),
        if location(old(state).card_registry@, card_id) == Some(hand_of(old(state).current_player)) {
            &&& done is Ok
            &&& final(state).card_registry@ == relocate(
                old(state).card_registry@,
                card_id,
                discard_pile(),
            )
            &&& cards_in(final(state).card_registry@, scratch()) == cards_in(
                old(state).card_registry@,
                scratch(),
            )
        } else {
            &&& done == Err::<(), GameError>(GameError::InvalidDiscard(card_id))
            &&& *final(state) == *old(state)
        },
{
    let held: bool = match state.card_registry.get_location(card_id) {
        Some(place) => *place == ContainerId::player_hand(state.current_player),
        None => false,
    };
    if !held {
        return Err(GameError::InvalidDiscard(card_id));
    }
    let ghost before = state.card_registry@;
    state.card_registry.note_well_formed();
    proof {
        lemma_relocate(before, card_id, discard_pile());
        lemma_cards_in_without(before, card_id, scratch());
        let after = relocate(before, card_id, discard_pile());
        assert(after.drop_last() == without(before, card_id));
    }
    state.card_registry.move_card(card_id, ContainerId::discard())
}

/// Tells whether the player at turn holds no card.
pub fn is_hand_over(state: &GameState) -> (over: bool)
    ensures
        over == (cards_in(state.card_registry@, hand_of(state.current_player)).len() == 0),
{
    let hand_cards = state.card_registry.get_cards_in_container(
        &ContainerId::player_hand(state.current_player),
    );
    hand_cards.len() == 0
}

/// What carrying out a proposed turn makes of a round.
///
/// A faulty ledger ends the turn in error and changes nothing. Otherwise the
/// ledger is applied and a lay-down noted; then the discard, which must be in
/// the player's hand by now, goes to the discard pile, or else the turn ends
/// in error with the ledger applied. After the discard the round is over if
/// the player's hand is empty, and the next seat is at turn if it is not.
pub open spec fn turn_finished(
    before: GameState,
    turn: TurnResult,
    after: GameState,
    ended: Result<TurnOutcome, GameError>,
) -> bool {
    let player = before.current_player;
    let laid_down = before.turn_laid_down();
    let moved = apply_ledger(before.card_registry@, turn.move_ledger@);
    match ledger_fault(before.card_registry@, turn.move_ledger@, player, laid_down) {
        Some(fault) => {
            &&& ended == Err::<TurnOutcome, GameError>(fault)
            &&& after == before
        },
        None => {
            &&& after.contract == before.contract
            &&& after.players_laid_down@ == before.players_laid_down@.update(
                player as int,
                laid_down || lays_down(turn.move_ledger@, player),
            )
            &&& if location(moved, turn.discard) != Some(hand_of(player)) {
                &&& ended == Err::<TurnOutcome, GameError>(GameError::InvalidDiscard(turn.discard))
                &&& after.card_registry@ == moved
                &&& after.current_player == player
            } else {
                let left = relocate(moved, turn.discard, discard_pile());
                &&& after.card_registry@ == left
                &&& if cards_in(left, hand_of(player)).len() == 0 {
                    &&& ended == Ok::<TurnOutcome, GameError>(TurnOutcome::HandEnd)
                    &&& after.current_player == player
                } else {
                    &&& ended == Ok::<TurnOutcome, GameError>(TurnOutcome::Continue)
                    &&& after.current_player == (player + 1) % before.seats()
                }
            }
        },
    }
}

/// Carries out what a player proposed for the turn: the ledger is checked as a
/// whole and, if it has no fault, applied; the discard follows; the turn then
/// passes to the next seat unless the player's hand is empty.
pub fn finish_turn(state: &mut GameState, turn: TurnResult) -> (ended: Result<TurnOutcome, GameError>)
    requires
        old(state).current_player < old(state).seats(),
    ensures
        turn_finished(*old(state), turn, *final(state), ended),
        final(state).current_player < final(state).seats(),
        final(state).seats() == old(state).seats(),
        final(state).contract == old(state).contract,
        old(state).valid() ==> final(state).valid(),
        registered(final(state).card_registry@) == registered(old(state).card_registry@),
        ended is Ok ==> cards_in(final(state).card_registry@, scratch()).len() == 0,
{
    let ghost before = state.card_registry@;
    let ghost player = state.current_player;
    let ghost laid_down = state.turn_laid_down();
    let ghost seats = state.seats();
    match validate_move_ledger(state, turn.move_ledger.as_slice()) {
        Ok(()) => {},
        Err(fault) => {
            return Err(fault);
        },
    }
    state.card_registry.note_well_formed();
    proof {
        lemma_faultless_ledger(before, turn.move_ledger@, player, laid_down, seats);
    }
    let discard: CardId = turn.discard;
    match execute_move_ledger(state, turn.move_ledger) {
        Ok(()) => {},
        Err(fault) => {
            return Err(fault);
        },
    }
    match execute_discard(state, discard) {
        Ok(()) => {},
        Err(fault) => {
            return Err(fault);
        },
    }
    if is_hand_over(state) {
        return Ok(TurnOutcome::HandEnd);
    }
    let seat_count: usize = state.players_laid_down.len();
    state.current_player = (state.current_player + 1) % seat_count;
    Ok(TurnOutcome::Continue)
}

} // verus!
