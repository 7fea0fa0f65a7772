//! The deal: from a dealing order to hands, discard pile and deck.

use crate::card::CardId;
use crate::container::{ContainerId, Place};
use crate::contract::ContractOrder;
use crate::engine::{apply_moves, GameState};
use crate::error::GameError;
use crate::ledger::{
    apply_ledger, first_unknown, hands_seated, lemma_moves_once, lemma_seated_ledger,
};
use crate::placement::{
    cards_in, holds, lemma_cards_in_joined, lemma_cards_in_uniform, well_formed, Placement,
};
use crate::player::CardMove;
use crate::registry::CardRegistry;
use vstd::arithmetic::div_mod::lemma_fundamental_div_mod_converse;
use vstd::prelude::*;

verus! {

/// Where the card at a place of the dealing order goes: the first cards go
/// round the table, one to each hand in turn, until every hand is full; the
/// next card opens the discard pile; the others form the deck.
pub open spec fn deal_target(at: int, players: int, hand_size: int) -> ContainerId {
    if at < players * hand_size {
        ContainerId(Place::Hand((at % players) as usize))
    } else if at == players * hand_size {
        ContainerId(Place::Discard)
    } else {
        ContainerId(Place::Deck)
    }
}

/// The deal as a list of moves, one for each card of the dealing order.
pub open spec fn deal_moves(order: Seq<CardId>, players: int, hand_size: int) -> Seq<CardMove> {
    Seq::new(
        order.len(),
        |at: int| CardMove { card_id: order[at], to_container: deal_target(at, players, hand_size) },
    )
}

/// The registry after a deal that took every card: the cards in dealing
/// order, each where the deal put it.
pub open spec fn dealt(order: Seq<CardId>, players: int, hand_size: int) -> Seq<Placement> {
    Seq::new(
        order.len(),
        |at: int| Placement { card: order[at], place: deal_target(at, players, hand_size) },
    )
}

/// The cards that a seat is dealt: every `players`-th card of the dealing
/// order, from the seat's own place in it.
pub open spec fn dealt_hand(order: Seq<CardId>, players: int, hand_size: int, seat: int) -> Seq<CardId> {
    Seq::new(hand_size as nat, |round: int| order[round * players + seat])
}

/// A deal that names every card of the registry, each once, leaves the
/// registry as the dealing order with each card at its target.
pub proof fn lemma_deal_takes_all(s: Seq<Placement>, order: Seq<CardId>, players: int, hand_size: int)
    requires
        well_formed(s),
        order.no_duplicates(),
        order.len() == s.len(),
        forall|at: int| 0 <= at < order.len() ==> holds(s, #[trigger] order[at]),
    ensures
        apply_ledger(s, deal_moves(order, players, hand_size)) == dealt(order, players, hand_size),
{
    let plan = deal_moves(order, players, hand_size);
    lemma_moves_once(s, plan);
}

/// After the first `rounds * players + extra` cards of a deal, a seat holds
/// one card for each full round, and one more if the round in progress has
/// reached it.
proof fn lemma_dealt_so_far(
    order: Seq<CardId>,
    players: int,
    hand_size: int,
    seat: int,
    rounds: int,
    extra: int,
)
    requires
        0 <= seat < players,
        0 <= extra < players,
        0 <= rounds,
        rounds * players + extra <= players * hand_size,
        players * hand_size < order.len(),
        players <= usize::MAX,
    ensures
        cards_in(
            dealt(order, players, hand_size).take(rounds * players + extra),
            ContainerId(Place::Hand(seat as usize)),
        ) == Seq::new(
            (rounds + (if seat < extra {
                1int
            } else {
                0int
            })) as nat,
            |round: int| order[round * players + seat],
        ),
    decreases rounds, extra,
{
    let all = dealt(order, players, hand_size);
    let upto = rounds * players + extra;
    if rounds > 0 || extra > 0 {
        let before_rounds = if extra > 0 {
            rounds
        } else {
            rounds - 1
        };
        let before_extra = if extra > 0 {
            extra - 1
        } else {
            players - 1
        };
        if extra == 0 {
            assert((rounds - 1) * players + (players - 1) == rounds * players - 1) by (nonlinear_arith);
        }
        lemma_dealt_so_far(order, players, hand_size, seat, before_rounds, before_extra);
        lemma_fundamental_div_mod_converse(upto - 1, players, before_rounds, before_extra);
        assert(all.take(upto).drop_last() == all.take(upto - 1));
    }
}

/// What a deal of all cards leaves where: each seat holds `hand_size` cards,
/// every `players`-th card of the dealing order from the seat's own place in
/// it; the card after the hands lies alone on the discard pile; the others
/// form the deck, the last of them on top.
pub proof fn lemma_deal_shares(order: Seq<CardId>, players: int, hand_size: int, seat: int)
    requires
        0 <= seat < players <= usize::MAX,
        0 <= hand_size,
        players * hand_size < order.len(),
    ensures
        cards_in(dealt(order, players, hand_size), ContainerId(Place::Hand(seat as usize)))
            == dealt_hand(order, players, hand_size, seat),
        cards_in(dealt(order, players, hand_size), ContainerId(Place::Discard)) == seq![
            order[players * hand_size],
        ],
        cards_in(dealt(order, players, hand_size), ContainerId(Place::Deck)) == order.subrange(
            players * hand_size + 1,
            order.len() as int,
        ),
        cards_in(dealt(order, players, hand_size), ContainerId(Place::Scratch)).len() == 0,
{
    let all = dealt(order, players, hand_size);
    let in_hands = players * hand_size;
    let hands = all.take(in_hands);
    let flipped = all.subrange(in_hands, in_hands + 1);
    let stock = all.skip(in_hands + 1);
    let hand = ContainerId(Place::Hand(seat as usize));
    assert(in_hands == hand_size * players + 0) by (nonlinear_arith)
        requires
            in_hands == players * hand_size,
    ;
    lemma_dealt_so_far(order, players, hand_size, seat, hand_size, 0);
    assert(all =~= hands + flipped + stock);
    lemma_cards_in_joined(hands + flipped, stock, hand);
    lemma_cards_in_joined(hands, flipped, hand);
    lemma_cards_in_uniform(flipped, hand);
    lemma_cards_in_uniform(stock, hand);

    let pile = ContainerId(Place::Discard);
    lemma_cards_in_joined(hands + flipped, stock, pile);
    lemma_cards_in_joined(hands, flipped, pile);
    lemma_cards_in_uniform(hands, pile);
    lemma_cards_in_uniform(flipped, pile);
    lemma_cards_in_uniform(stock, pile);

    let deck = ContainerId(Place::Deck);
    lemma_cards_in_joined(hands + flipped, stock, deck);
    lemma_cards_in_joined(hands, flipped, deck);
    lemma_cards_in_uniform(hands, deck);
    lemma_cards_in_uniform(flipped, deck);
    lemma_cards_in_uniform(stock, deck);

    let staging = ContainerId(Place::Scratch);
    lemma_cards_in_uniform(all, staging);
}

/// Deals a round from a dealing order: the cards go where `deal_target` says,
/// in the order given, and the first seat is at turn.
///
/// The deal is refused before anything moves when the order is too short for
/// the hands and the first discard, or names a card that the registry does
/// not hold.
pub fn deal_cards(
    registry: CardRegistry,
    order: &Vec<CardId>,
    num_players: usize,
    contract: ContractOrder,
) -> (started: Result<GameState, GameError>)
    ensures
        ({
            let plan = deal_moves(order@, num_players as int, contract.spec_hand_size());
            if order@.len() < num_players * contract.spec_hand_size() + 1 {
                started == Err::<GameState, GameError>(GameError::InsufficientCards)
            } else {
                match first_unknown(registry@, plan) {
                    Some(card) => started == Err::<GameState, GameError>(GameError::UnknownCard(card)),
                    None => {
                        &&& started is Ok
                        &&& started->Ok_0.card_registry@ == apply_ledger(registry@, plan)
                        &&& started->Ok_0.current_player == 0
                        &&& started->Ok_0.contract == contract
                        &&& started->Ok_0.players_laid_down@ == Seq::new(
                            num_players as nat,
                            |seat: int| false,
                        )
                        &&& num_players > 0 && hands_seated(registry@, num_players as int)
                            ==> started->Ok_0.valid()
                    },
                }
            }
        }),
{
    let hand_size: usize = contract.hand_size();
    let total: usize = order.len();
    let in_hands: usize = match num_players.checked_mul(hand_size) {
        Some(count) => count,
        None => {
            return Err(GameError::InsufficientCards);
        },
    };
    if in_hands >= total {
        return Err(GameError::InsufficientCards);
    }
    let mut plan: Vec<CardMove> = Vec::new();
    let mut at: usize = 0;
    while at < total
        invariant
            at <= total,
            total == order@.len(),
            in_hands == num_players * hand_size,
            in_hands < total,
            hand_size == contract.spec_hand_size(),
            plan@.len() == at,
            forall|k: int|
                0 <= k < at ==> plan@[k] == deal_moves(order@, num_players as int, hand_size as int)[k],
        decreases total - at,
    {
        let target: ContainerId = if at < in_hands {
            ContainerId::player_hand(at % num_players)
        } else if at == in_hands {
            ContainerId::discard()
        } else {
            ContainerId::deck()
        };
        plan.push(CardMove { card_id: order[at], to_container: target });
        at += 1;
    }
    proof {
        assert(plan@ =~= deal_moves(order@, num_players as int, hand_size as int));
    }
    let mut card_registry = registry;
    card_registry.note_well_formed();
    proof {
        if num_players > 0 && hands_seated(card_registry@, num_players as int) {
            lemma_seated_ledger(card_registry@, plan@, num_players as int);
        }
    }
    match apply_moves(&mut card_registry, plan.as_slice()) {
        Ok(()) => {},
        Err(fault) => {
            return Err(fault);
        },
    }
    let mut players_laid_down: Vec<bool> = Vec::new();
    let mut seat: usize = 0;
    while seat < num_players
        invariant
            seat <= num_players,
            players_laid_down@.len() == seat,
            forall|k: int| 0 <= k < seat ==> !players_laid_down@[k],
        decreases num_players - seat,
    {
        players_laid_down.push(false);
        seat += 1;
    }
    Ok(GameState { card_registry, current_player: 0, contract, players_laid_down })
}

} // verus!
