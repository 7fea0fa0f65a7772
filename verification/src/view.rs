//! What a player sees: the view of a round from one seat.
//!
//! A view is worked out from the registry each time it is asked for; nothing
//! is kept per player.

use crate::card::{card_id_to_view, view_of, CardId, CardView, Rank, Suit};
use crate::container::{discard_pile, hand_of, ContainerId, Place};
use crate::contract::contents;
use crate::engine::GameState;
use crate::ledger::{hands_seated, seated};
use crate::meld::CardContainer;
use crate::placement::{
    cards_in, lemma_cards_in_located, lemma_location_at, lemma_location_line, location,
    seats_in_use, views_of, well_formed, Placement,
};
use crate::player::PlayerView;
use vstd::arithmetic::div_mod::{lemma_mod_add_multiples_vanish, lemma_small_mod, lemma_sub_mod_noop};
use vstd::prelude::*;

verus! {

/// Number of group indices, and of run indices, looked at for each seat.
pub const MELD_SLOTS: usize = 5;

/// What stands for the top of the discard pile while the pile is empty. Its
/// identity is that of no playing card.
pub open spec fn no_discard_marker() -> CardView {
    CardView { id: CardId(25755), rank: Rank::Ace, suit: Suit::NoSuit, score_value: 0 }
}

/// The number of players at the table, as the registry shows it: enough
/// seats for the one at turn and for every hand that holds a card.
pub open spec fn player_count(s: Seq<Placement>, current: usize) -> int {
    if seats_in_use(s) > current + 1 {
        seats_in_use(s)
    } else {
        current + 1
    }
}

/// The seat at turn as the viewer counts it: 0 for the viewer, 1 for the next
/// seat after the viewer, and so on round the table.
pub open spec fn relative_seat(current: int, viewer: int, players: int) -> int {
    (current - viewer) % players
}

/// The container that stands at a place of the scan of the table: the seats
/// in order, each with its `MELD_SLOTS` indices.
pub open spec fn meld_slot(runs: bool, at: int) -> ContainerId {
    let seat = (at / MELD_SLOTS as int) as usize;
    let index = (at % MELD_SLOTS as int) as usize;
    if runs {
        ContainerId(Place::Run(seat, index))
    } else {
        ContainerId(Place::Group(seat, index))
    }
}

/// The groups (or, with `runs`, the runs) that lie on the table at the first
/// `upto` places of the scan: every container that holds a card, in the order
/// of the scan.
pub open spec fn table_melds(s: Seq<Placement>, runs: bool, upto: int) -> Seq<Seq<CardView>>
    decreases upto,
{
    if upto <= 0 {
        Seq::empty()
    } else {
        let before = table_melds(s, runs, upto - 1);
        let shown = views_of(cards_in(s, meld_slot(runs, upto - 1)));
        if shown.len() > 0 {
            before.push(shown)
        } else {
            before
        }
    }
}

/// The top of the discard pile as a player sees it, or the marker when the
/// pile is empty.
pub open spec fn top_discard(s: Seq<Placement>) -> CardView {
    let pile = cards_in(s, discard_pile());
    if pile.len() == 0 {
        no_discard_marker()
    } else {
        view_of(pile.last())
    }
}

/// The number of seats in use is the least that leaves no hand unseated.
pub proof fn lemma_seats_in_use(s: Seq<Placement>, seats: int)
    requires
        well_formed(s),
        seats >= 0,
    ensures
        seats_in_use(s) >= 0,
        hands_seated(s, seats) <==> seats_in_use(s) <= seats,
    decreases s.len(),
{
    if s.len() > 0 {
        let front = s.drop_last();
        lemma_seats_in_use(front, seats);
        lemma_location_at(s, s.len() - 1);
        if hands_seated(s, seats) {
            assert forall|card: CardId| (#[trigger] location(front, card)) is Some implies seated(
                location(front, card)->0,
                seats,
            ) by {
                lemma_location_line(front, card);
                assert(location(s, card) == location(front, card));
            }
        }
        if seats_in_use(s) <= seats {
            assert forall|card: CardId| (#[trigger] location(s, card)) is Some implies seated(
                location(s, card)->0,
                seats,
            ) by {
                if card != s.last().card {
                    assert(location(s, card) == location(front, card));
                }
            }
        }
    }
}

/// True when the players can be counted in a machine word: neither the seat
/// at turn nor a seat whose hand holds a card is the last seat a word can name.
pub open spec fn countable(state: &GameState) -> bool {
    player_count(state.card_registry@, state.current_player) <= usize::MAX
}

/// A round that can be played has players that can be counted, and no more
/// of them than seats.
pub proof fn lemma_valid_countable(state: &GameState)
    requires
        state.valid(),
        well_formed(state.card_registry@),
    ensures
        countable(state),
        player_count(state.card_registry@, state.current_player) <= state.seats(),
{
    lemma_seats_in_use(state.card_registry@, state.seats());
    assert(state.players_laid_down@.len() <= usize::MAX) by {
        vstd::std_specs::vec::axiom_spec_len(&state.players_laid_down);
    }
}

/// Works out how many players are at the table: enough seats for the one at
/// turn, whose hand may be empty for a moment, and for every hand that holds a
/// card.
pub fn discover_player_count(state: &GameState) -> (count: usize)
    requires
        countable(state),
    ensures
        count == player_count(state.card_registry@, state.current_player),
        count > state.current_player,
{
    let top: usize = match state.card_registry.highest_hand_seat() {
        Some(seat) => if seat > state.current_player {
            seat
        } else {
            state.current_player
        },
        None => state.current_player,
    };
    top + 1
}

/// Where the seat at turn sits as the viewer counts: the number of seats
/// from the viewer on to the seat at turn, round the table.
pub fn calculate_relative_position(current: usize, viewing_player: usize, num_players: usize) -> (seat:
    usize)
    requires
        num_players > 0,
    ensures
        seat == relative_seat(current as int, viewing_player as int, num_players as int),
        seat < num_players,
{
    let ahead: usize = current % num_players;
    let own: usize = viewing_player % num_players;
    proof {
        lemma_sub_mod_noop(current as int, viewing_player as int, num_players as int);
        if ahead >= own {
            lemma_small_mod((ahead - own) as nat, num_players as nat);
        } else {
            lemma_mod_add_multiples_vanish(ahead - own, num_players as int);
            lemma_small_mod((num_players + ahead - own) as nat, num_players as nat);
        }
    }
    if ahead >= own {
        ahead - own
    } else {
        num_players - (own - ahead)
    }
}

/// Collects the groups and the runs on the table: for each seat in turn its
/// first `MELD_SLOTS` groups, then its first `MELD_SLOTS` runs, leaving out the
/// empty ones.
pub fn discover_table_sets(state: &GameState, num_players: usize) -> (found: (
    Vec<CardContainer>,
    Vec<CardContainer>,
))
    ensures
        contents(found.0@) == table_melds(state.card_registry@, false, num_players * MELD_SLOTS),
        contents(found.1@) == table_melds(state.card_registry@, true, num_players * MELD_SLOTS),
{
    let mut table_groups: Vec<CardContainer> = Vec::new();
    let mut table_runs: Vec<CardContainer> = Vec::new();
    let mut player_id: usize = 0;
    while player_id < num_players
        invariant
            player_id <= num_players,
            contents(table_groups@) == table_melds(state.card_registry@, false, player_id * MELD_SLOTS),
            contents(table_runs@) == table_melds(state.card_registry@, true, player_id * MELD_SLOTS),
        decreases num_players - player_id,
    {
        let mut group_idx: usize = 0;
        while group_idx < MELD_SLOTS
            invariant
                group_idx <= MELD_SLOTS,
                contents(table_groups@) == table_melds(
                    state.card_registry@,
                    false,
                    player_id * MELD_SLOTS + group_idx,
                ),
            decreases MELD_SLOTS - group_idx,
        {
            let container_id = ContainerId::player_group(player_id, group_idx);
            let container_view = state.card_registry.get_container_view(&container_id);
            if container_view.cards.len() > 0 {
                table_groups.push(container_view);
            }
            group_idx += 1;
        }
        let mut run_idx: usize = 0;
        while run_idx < MELD_SLOTS
            invariant
                run_idx <= MELD_SLOTS,
                contents(table_runs@) == table_melds(
                    state.card_registry@,
                    true,
                    player_id * MELD_SLOTS + run_idx,
                ),
            decreases MELD_SLOTS - run_idx,
        {
            let container_id = ContainerId::player_run(player_id, run_idx);
            let container_view = state.card_registry.get_container_view(&container_id);
            if container_view.cards.len() > 0 {
                table_runs.push(container_view);
            }
            run_idx += 1;
        }
        player_id += 1;
    }
    (table_groups, table_runs)
}

/// The marker that stands for the top of an empty discard pile.
pub fn no_discard() -> (marker: CardView)
    ensures
        marker == no_discard_marker(),
        !marker.id.is_playing_card(),
{
    CardView { id: CardId::new(255, 255), rank: Rank::Ace, suit: Suit::NoSuit, score_value: 0 }
}

/// The top of the discard pile, or the marker when the pile is empty.
pub fn get_current_discard(state: &GameState) -> (top: CardView)
    ensures
        top == top_discard(state.card_registry@),
{
    let discard_cards = state.card_registry.get_cards_in_container(&ContainerId::discard());
    if discard_cards.len() > 0 {
        let top_discard_id: CardId = discard_cards[discard_cards.len() - 1];
        state.card_registry.note_well_formed();
        proof {
            lemma_cards_in_located(state.card_registry@, discard_pile());
            assert(discard_cards@.contains(top_discard_id));
            lemma_location_line(state.card_registry@, top_discard_id);
        }
        card_id_to_view(top_discard_id)
    } else {
        no_discard()
    }
}

/// Builds the view of one player: the player's own hand, every meld on the
/// table, the top of the discard pile, and the seat at turn as that player
/// counts it.
pub fn generate_view(state: &GameState, player_index: usize) -> (view: PlayerView)
    requires
        countable(state),
    ensures
        view.current_player == relative_seat(
            state.current_player as int,
            player_index as int,
            player_count(state.card_registry@, state.current_player),
        ),
        view.contract == state.contract,
        view.held_cards@ == views_of(cards_in(state.card_registry@, hand_of(player_index))),
        contents(view.table_groups@) == table_melds(
            state.card_registry@,
            false,
            player_count(state.card_registry@, state.current_player) * MELD_SLOTS,
        ),
        contents(view.table_runs@) == table_melds(
            state.card_registry@,
            true,
            player_count(state.card_registry@, state.current_player) * MELD_SLOTS,
        ),
        view.last_discard == top_discard(state.card_registry@),
{
    let num_players = discover_player_count(state);
    let relative_current_player = calculate_relative_position(
        state.current_player,
        player_index,
        num_players,
    );
    let held_cards = state.card_registry.get_container_view(&ContainerId::player_hand(player_index));
    let (table_groups, table_runs) = discover_table_sets(state, num_players);
    let last_discard = get_current_discard(state);
    PlayerView {
        current_player: relative_current_player,
        contract: state.contract,
        held_cards,
        table_groups,
        table_runs,
        last_discard,
    }
}

} // verus!
