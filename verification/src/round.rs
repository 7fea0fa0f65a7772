//! A round from the deal to its end.

use crate::card::CardId;
use crate::container::{hand_of, scratch, ContainerId, Place};
use crate::contract::{contract_of_hand, ContractOrder};
use crate::deal::{deal_cards, deal_moves, dealt, lemma_deal_shares, lemma_deal_takes_all};
use crate::engine::{
    after_draw, draw_fault, execute_draw, finish_turn, turn_finished, GameState, TurnOutcome,
};
use crate::error::{GameError, PlayerError};
use crate::ledger::{lemma_all_known, lemma_apply_ledger, seated};
use crate::placement::{
    cards_in, fresh_deck, full_deck, holds, lemma_cards_in_joined, lemma_cards_in_uniform,
    lemma_location_at, lemma_location_line, location, registered,
};
use crate::player::{DrawDecision, Player, TurnResult};
use crate::registry::CardRegistry;
use crate::view::{generate_view, lemma_valid_countable};
use rand::seq::SliceRandom;
use vstd::prelude::*;

verus! {

/// Shuffles cards with `rand::seq::SliceRandom::shuffle` and the generator of
/// the running thread, `rand::thread_rng`. The shuffle only swaps elements of
/// the list, whatever the list holds, so what comes back holds the same cards,
/// each as often as before; in which order, nothing is said.
#[verifier::external_body]
fn shuffle_cards(cards: Vec<CardId>) -> (shuffled: Vec<CardId>)
    ensures
        shuffled@.to_multiset() == cards@.to_multiset(),
{
    let mut shuffled = cards;
    shuffled.shuffle(&mut rand::thread_rng());
    shuffled
}

/// Sets up a round: a fresh double deck is shuffled and dealt to the players
/// for the hand of the given number, from 1 to 7.
///
/// The round is refused when the deck cannot cover the hands and the first
/// discard. Otherwise the outcome is a deal of the 108 cards in some order:
/// which order, the shuffle decides. Whatever the order, every seat holds a
/// full hand, one card lies on the discard pile and the others are in the deck.
pub fn initialize_game(num_players: usize, hand_number: usize) -> (started: Result<GameState, GameError>)
    requires
        1 <= hand_number <= 7,
    ensures
        ({
            let contract = contract_of_hand(hand_number as int);
            let hand_size = contract.spec_hand_size();
            if 108 < num_players * hand_size + 1 {
                started == Err::<GameState, GameError>(GameError::InsufficientCards)
            } else {
                &&& started is Ok
                &&& started->Ok_0.current_player == 0
                &&& started->Ok_0.contract == contract
                &&& started->Ok_0.players_laid_down@ == Seq::new(num_players as nat, |seat: int| false)
                &&& num_players > 0 ==> started->Ok_0.valid()
                &&& exists|order: Seq<CardId>|
                    order.to_multiset() == full_deck().to_multiset() && started->Ok_0.card_registry@
                        == #[trigger] dealt(order, num_players as int, hand_size)
                &&& registered(started->Ok_0.card_registry@) == registered(fresh_deck())
                &&& forall|seat: int|
                    0 <= seat < num_players ==> (#[trigger] cards_in(
                        started->Ok_0.card_registry@,
                        ContainerId(Place::Hand(seat as usize)),
                    )).len() == hand_size
                &&& cards_in(started->Ok_0.card_registry@, ContainerId(Place::Discard)).len() == 1
                &&& cards_in(started->Ok_0.card_registry@, ContainerId(Place::Deck)).len() == 107
                    - num_players * hand_size
                &&& cards_in(started->Ok_0.card_registry@, ContainerId(Place::Scratch)).len() == 0
            }
        }),
{
    let mut card_registry = CardRegistry::new();
    let all_cards = card_registry.initialize_with_deck();
    let shuffled_cards = shuffle_cards(all_cards);
    let contract = ContractOrder::from_hand_number(hand_number);
    proof {
        let order = shuffled_cards@;
        let players = num_players as int;
        let hand_size = contract.spec_hand_size();
        let plan = deal_moves(order, players, hand_size);
        vstd::seq_lib::to_multiset_len(order);
        vstd::seq_lib::to_multiset_len(full_deck());
        full_deck().lemma_multiset_has_no_duplicates();
        order.lemma_multiset_has_no_duplicates_conv();
        assert forall|at: int| 0 <= at < order.len() implies holds(fresh_deck(), #[trigger] order[at]) by {
            let card = order[at];
            vstd::seq_lib::to_multiset_contains(order, card);
            vstd::seq_lib::to_multiset_contains(full_deck(), card);
            let found = choose|found: int| 0 <= found < full_deck().len() && full_deck()[found] == card;
            lemma_location_at(fresh_deck(), found);
        }
        lemma_all_known(fresh_deck(), plan);
        lemma_apply_ledger(fresh_deck(), plan);
        assert forall|card: CardId| (#[trigger] location(fresh_deck(), card)) is Some implies seated(
            location(fresh_deck(), card)->0,
            players,
        ) by {
            lemma_location_line(fresh_deck(), card);
        }
        lemma_deal_takes_all(fresh_deck(), order, players, hand_size);
        if players * hand_size < 108 {
            assert forall|seat: int| 0 <= seat < players implies (#[trigger] cards_in(
                dealt(order, players, hand_size),
                ContainerId(Place::Hand(seat as usize)),
            )).len() == hand_size by {
                lemma_deal_shares(order, players, hand_size, seat);
            }
            if players > 0 {
                lemma_deal_shares(order, players, hand_size, 0);
            } else {
                lemma_cards_in_dealt_to_none(order, hand_size);
            }
        }
    }
    deal_cards(card_registry, &shuffled_cards, num_players, contract)
}

/// With no player at the table the first card of the dealing order lies on
/// the discard pile and the others are in the deck.
proof fn lemma_cards_in_dealt_to_none(order: Seq<CardId>, hand_size: int)
    requires
        order.len() > 0,
    ensures
        cards_in(dealt(order, 0, hand_size), ContainerId(Place::Discard)).len() == 1,
        cards_in(dealt(order, 0, hand_size), ContainerId(Place::Deck)).len() == order.len() - 1,
        cards_in(dealt(order, 0, hand_size), ContainerId(Place::Scratch)).len() == 0,
{
    let all = dealt(order, 0, hand_size);
    let flipped = all.take(1);
    let stock = all.skip(1);
    assert(all =~= flipped + stock);
    let pile = ContainerId(Place::Discard);
    lemma_cards_in_joined(flipped, stock, pile);
    lemma_cards_in_uniform(flipped, pile);
    lemma_cards_in_uniform(stock, pile);
    let deck = ContainerId(Place::Deck);
    lemma_cards_in_joined(flipped, stock, deck);
    lemma_cards_in_uniform(flipped, deck);
    lemma_cards_in_uniform(stock, deck);
    lemma_cards_in_uniform(all, ContainerId(Place::Scratch));
}

/// What a turn makes of a round, given what the player answered: the draw
/// is made as the player decided, and the turn that the player proposed is
/// carried out. An empty pile, or a player who fails to propose a turn, ends
/// the turn in error: the first with nothing changed, the second with the
/// draw made.
pub open spec fn turn_taken(
    before: GameState,
    decision: DrawDecision,
    drawn: GameState,
    answer: Result<TurnResult, PlayerError>,
    after: GameState,
    ended: Result<TurnOutcome, GameError>,
) -> bool {
    match draw_fault(before.card_registry@, decision) {
        Some(fault) => {
            &&& ended == Err::<TurnOutcome, GameError>(fault)
            &&& after == before
        },
        None => {
            &&& drawn.card_registry@ == after_draw(
                before.card_registry@,
                decision,
                before.current_player,
            )
            &&& drawn.current_player == before.current_player
            &&& drawn.contract == before.contract
            &&& drawn.players_laid_down == before.players_laid_down
            &&& match answer {
                Err(report) => {
                    &&& ended == Err::<TurnOutcome, GameError>(GameError::Player(report))
                    &&& after == drawn
                },
                Ok(turn) => turn_finished(drawn, turn, after, ended),
            }
        },
    }
}

/// Plays one turn: the player at turn is shown the round and asked where to
/// draw from; the draw is made; the player is shown the round again and asked
/// for the turn, which is then carried out as `finish_turn` says.
///
/// Whatever the player answers, the cards stay the same cards, the table keeps
/// its seats, and a turn that ends without error leaves the scratch area
/// empty.
pub fn run_turn(players: &mut [Box<dyn Player>], state: &mut GameState) -> (ended: Result<
    TurnOutcome,
    GameError,
>)
    requires
        old(state).valid(),
        old(players)@.len() == old(state).seats(),
    ensures
        exists|decision: DrawDecision, drawn: GameState, answer: Result<TurnResult, PlayerError>| #[trigger]
            turn_taken(*old(state), decision, drawn, answer, *final(state), ended),
        final(players)@.len() == old(players)@.len(),
        final(state).valid(),
        final(state).seats() == old(state).seats(),
        final(state).contract == old(state).contract,
        registered(final(state).card_registry@) == registered(old(state).card_registry@),
        ended is Ok ==> cards_in(final(state).card_registry@, scratch()).len() == 0,
        ended == Ok::<TurnOutcome, GameError>(TurnOutcome::HandEnd) ==> {
            &&& final(state).current_player == old(state).current_player
            &&& cards_in(final(state).card_registry@, hand_of(final(state).current_player)).len() == 0
        },
        ended == Ok::<TurnOutcome, GameError>(TurnOutcome::Continue) ==> {
            &&& final(state).current_player == (old(state).current_player + 1) % old(state).seats()
            &&& cards_in(final(state).card_registry@, hand_of(old(state).current_player)).len() > 0
        },
{
    let seat: usize = state.current_player;
    state.card_registry.note_well_formed();
    proof {
        lemma_valid_countable(state);
    }
    let view = generate_view(state, seat);
    let draw_decision = players[seat].draw_decision(&view);
    match execute_draw(state, draw_decision) {
        Ok(()) => {},
        Err(fault) => {
            proof {
                let unasked: Result<TurnResult, PlayerError> = arbitrary();
                assert(turn_taken(*old(state), draw_decision, *state, unasked, *state, Err(fault)));
            }
            return Err(fault);
        },
    }
    let ghost drawn = *state;
    state.card_registry.note_well_formed();
    proof {
        lemma_valid_countable(state);
    }
    let updated_view = generate_view(state, seat);
    let answer = players[seat].play_turn(&updated_view);
    let ghost given = answer;
    let turn_result = match answer {
        Ok(turn) => turn,
        Err(report) => {
            proof {
                assert(turn_taken(
                    *old(state),
                    draw_decision,
                    drawn,
                    given,
                    *state,
                    Err(GameError::Player(report)),
                ));
            }
            return Err(GameError::Player(report));
        },
    };
    let ended = finish_turn(state, turn_result);
    proof {
        assert(turn_taken(*old(state), draw_decision, drawn, given, *state, ended));
    }
    ended
}

/// True when `turns` turns lead from one state of a round to another, each
/// of them ending with the next seat at turn.
pub open spec fn turns_played(before: GameState, turns: nat, after: GameState) -> bool
    decreases turns,
{
    if turns == 0 {
        after == before
    } else {
        exists|
            mid: GameState,
            decision: DrawDecision,
            drawn: GameState,
            answer: Result<TurnResult, PlayerError>,
        |
            turns_played(before, (turns - 1) as nat, mid) && #[trigger] turn_taken(
                mid,
                decision,
                drawn,
                answer,
                after,
                Ok(TurnOutcome::Continue),
            )
    }
}

/// What a round of at most `limit` turns makes of a state. Either every one
/// of `limit` turns passed the turn on, and the round stopped at the limit; or
/// fewer turns did, and the turn after them ended the round: with an empty
/// hand, or in error. No turn follows the one that ended the round.
pub open spec fn round_played(
    before: GameState,
    limit: nat,
    after: GameState,
    ended: Result<TurnOutcome, GameError>,
) -> bool {
    exists|turns: nat, last: GameState|
        turns <= limit && #[trigger] turns_played(before, turns, last) && if ended == Ok::<
            TurnOutcome,
            GameError,
        >(TurnOutcome::Continue) {
            turns == limit && after == last
        } else {
            turns < limit && exists|
                decision: DrawDecision,
                drawn: GameState,
                answer: Result<TurnResult, PlayerError>,
            | #[trigger]
                turn_taken(last, decision, drawn, answer, after, ended)
        }
}

/// Plays turns until a player empties their hand, a turn fails, or
/// `turn_limit` turns have been played. The answer is `HandEnd` when the round
/// is over and `Continue` when the limit stopped it.
pub fn play_round(players: &mut [Box<dyn Player>], state: &mut GameState, turn_limit: usize) -> (ended:
    Result<TurnOutcome, GameError>)
    requires
        old(state).valid(),
        old(players)@.len() == old(state).seats(),
    ensures
        round_played(*old(state), turn_limit as nat, *final(state), ended),
        final(players)@.len() == old(players)@.len(),
        final(state).valid(),
        final(state).seats() == old(state).seats(),
        final(state).contract == old(state).contract,
        registered(final(state).card_registry@) == registered(old(state).card_registry@),
        turn_limit == 0 ==> ended == Ok::<TurnOutcome, GameError>(TurnOutcome::Continue) && *final(state)
            == *old(state),
        ended is Ok && turn_limit > 0 ==> cards_in(final(state).card_registry@, scratch()).len() == 0,
        ended == Ok::<TurnOutcome, GameError>(TurnOutcome::HandEnd) ==> cards_in(
            final(state).card_registry@,
            hand_of(final(state).current_player),
        ).len() == 0,
{
    let mut turn: usize = 0;
    while turn < turn_limit
        invariant
            turn <= turn_limit,
            players@.len() == old(players)@.len(),
            players@.len() == state.seats(),
            state.valid(),
            state.seats() == old(state).seats(),
            state.contract == old(state).contract,
            registered(state.card_registry@) == registered(old(state).card_registry@),
            turns_played(*old(state), turn as nat, *state),
            turn == 0 ==> *state == *old(state),
            turn > 0 ==> cards_in(state.card_registry@, scratch()).len() == 0,
        decreases turn_limit - turn,
    {
        match run_turn(players, state) {
            Ok(TurnOutcome::Continue) => {},
            Ok(TurnOutcome::HandEnd) => {
                return Ok(TurnOutcome::HandEnd);
            },
            Err(fault) => {
                return Err(fault);
            },
        }
        turn += 1;
    }
    Ok(TurnOutcome::Continue)
}

/// True when a state is what a deal for the hand of the given number leaves:
/// the cards of the double deck in some order, each where the deal puts it, the
/// first seat at turn, and no player laid down.
pub open spec fn hand_dealt(order: Seq<CardId>, players: nat, hand_number: int, table: GameState) -> bool {
    &&& order.to_multiset() == full_deck().to_multiset()
    &&& table.card_registry@ == dealt(
        order,
        players as int,
        contract_of_hand(hand_number).spec_hand_size(),
    )
    &&& table.current_player == 0
    &&& table.contract == contract_of_hand(hand_number)
    &&& table.players_laid_down@ == Seq::new(players, |seat: int| false)
}

/// Plays a hand: deals to as many players as are given and plays the round,
/// for at most `turn_limit` turns.
///
/// A deal that the deck cannot cover is refused. Otherwise the cards are dealt
/// in the order that the shuffle gave, and the answer is that of the round
/// played from there.
pub fn hand(players: Vec<Box<dyn Player>>, hand_number: usize, turn_limit: usize) -> (ended: Result<
    TurnOutcome,
    GameError,
>)
    requires
        1 <= hand_number <= 7,
        players@.len() > 0,
    ensures
        108 < players@.len() * contract_of_hand(hand_number as int).spec_hand_size() + 1 ==> ended
            == Err::<TurnOutcome, GameError>(GameError::InsufficientCards),
        108 >= players@.len() * contract_of_hand(hand_number as int).spec_hand_size() + 1
            ==> exists|order: Seq<CardId>, table: GameState, after: GameState| #[trigger]
            hand_dealt(order, players@.len(), hand_number as int, table) && #[trigger] round_played(
                table,
                turn_limit as nat,
                after,
                ended,
            ),
{
    let mut seats = players;
    let mut state = match initialize_game(seats.len(), hand_number) {
        Ok(state) => state,
        Err(fault) => {
            return Err(fault);
        },
    };
    let ghost table = state;
    let ended = play_round(seats.as_mut_slice(), &mut state, turn_limit);
    proof {
        let order = choose|order: Seq<CardId>|
            order.to_multiset() == full_deck().to_multiset() && table.card_registry@ == #[trigger] dealt(
                order,
                players@.len() as int,
                contract_of_hand(hand_number as int).spec_hand_size(),
            );
        assert(hand_dealt(order, players@.len(), hand_number as int, table));
        assert(round_played(table, turn_limit as nat, state, ended));
    }
    ended
}

} // verus!
