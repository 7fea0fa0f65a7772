//! Placements: the registry as a list, and what can be said of such lists.
//!
//! The list has one line per card, oldest placement first. Moving a card takes
//! its line out and appends a new one, so the cards of a container always come
//! in the order in which they arrived, and the last of them is the top of the
//! pile.

use crate::card::{view_of, CardId, CardView};
use crate::container::{ContainerId, Place};
use vstd::prelude::*;

verus! {

/// One line of the registry: a card and the container that holds it.
#[derive(Debug, Clone, Copy, PartialEq, Eq, Structural)]
pub struct Placement {
    pub card: CardId,
    pub place: ContainerId,
}

/// A list of placements is well formed when it lists playing cards only and
/// no card twice.
pub open spec fn well_formed(s: Seq<Placement>) -> bool {
    &&& forall|i: int| 0 <= i < s.len() ==> (#[trigger] s[i]).card.is_playing_card()
    &&& forall|i: int, j: int| 0 <= i < j < s.len() ==> (#[trigger] s[i]).card != (#[trigger] s[j]).card
}

/// The container that holds a card, if the card is listed.
pub open spec fn location(s: Seq<Placement>, card: CardId) -> Option<ContainerId>
    decreases s.len(),
{
    if s.len() == 0 {
        None
    } else if s.last().card == card {
        Some(s.last().place)
    } else {
        location(s.drop_last(), card)
    }
}

/// True when the card is listed.
pub open spec fn holds(s: Seq<Placement>, card: CardId) -> bool {
    location(s, card) is Some
}

/// The set of the cards that are listed.
pub open spec fn registered(s: Seq<Placement>) -> Set<CardId> {
    Set::new(|card: CardId| holds(s, card))
}

/// The cards of a container, in the order in which they arrived.
pub open spec fn cards_in(s: Seq<Placement>, container: ContainerId) -> Seq<CardId>
    decreases s.len(),
{
    if s.len() == 0 {
        Seq::empty()
    } else if s.last().place == container {
        cards_in(s.drop_last(), container).push(s.last().card)
    } else {
        cards_in(s.drop_last(), container)
    }
}

/// The views of a list of cards, in the same order.
pub open spec fn views_of(cards: Seq<CardId>) -> Seq<CardView> {
    cards.map_values(|card: CardId| view_of(card))
}

/// The list without the placements of a card.
pub open spec fn without(s: Seq<Placement>, card: CardId) -> Seq<Placement>
    decreases s.len(),
{
    if s.len() == 0 {
        Seq::empty()
    } else if s.last().card == card {
        without(s.drop_last(), card)
    } else {
        without(s.drop_last(), card).push(s.last())
    }
}

/// The list after a card has gone to a container: the card leaves its place
/// in the list and joins the end. A list that does not hold the card stays as it is.
pub open spec fn relocate(s: Seq<Placement>, card: CardId, target: ContainerId) -> Seq<Placement> {
    if holds(s, card) {
        without(s, card).push(Placement { card, place: target })
    } else {
        s
    }
}

/// The number of seats that the hands need: one more than the highest seat
/// whose hand holds a card, and none when no hand holds any.
pub open spec fn seats_in_use(s: Seq<Placement>) -> int
    decreases s.len(),
{
    if s.len() == 0 {
        0
    } else {
        let before = seats_in_use(s.drop_last());
        match s.last().place.0 {
            Place::Hand(seat) => if seat + 1 > before {
                seat + 1
            } else {
                before
            },
            _ => before,
        }
    }
}

/// The identity at a position of the double deck: deck 1 from position 1 to
/// 54, then deck 2.
pub open spec fn deck_card(i: int) -> CardId {
    CardId(((i / 54 + 1) * 100 + i % 54 + 1) as u16)
}

/// All identities of the double deck, in deck order.
pub open spec fn full_deck() -> Seq<CardId> {
    Seq::new(108, |i: int| deck_card(i))
}

/// The registry of a round that has not been dealt: every card in the deck.
pub open spec fn fresh_deck() -> Seq<Placement> {
    Seq::new(108, |i: int| Placement { card: deck_card(i), place: ContainerId(Place::Deck) })
}

/// A card that is listed at an index is located where that line says, and a
/// card that no line lists is located nowhere.
pub proof fn lemma_location_at(s: Seq<Placement>, i: int)
    requires
        well_formed(s),
        0 <= i < s.len(),
    ensures
        location(s, s[i].card) == Some(s[i].place),
    decreases s.len(),
{
    if i < s.len() - 1 {
        lemma_location_at(s.drop_last(), i);
    }
}

/// A located card stands on some line with that container, and a card that is
/// not located stands on none.
pub proof fn lemma_location_line(s: Seq<Placement>, card: CardId)
    ensures
        location(s, card) matches Some(place) ==> exists|i: int|
            0 <= i < s.len() && #[trigger] s[i] == (Placement { card, place }),
        location(s, card) is None ==> forall|i: int| 0 <= i < s.len() ==> (#[trigger] s[i]).card != card,
    decreases s.len(),
{
    if s.len() > 0 {
        lemma_location_line(s.drop_last(), card);
        if location(s, card) is None {
            assert forall|i: int| 0 <= i < s.len() implies (#[trigger] s[i]).card != card by {
                if i < s.len() - 1 {
                    assert(s.drop_last()[i] == s[i]);
                }
            }
        }
    }
}

/// Taking a card out keeps every other card where it was, keeps the list well
/// formed, and shortens it by one line exactly when the card was listed.
pub proof fn lemma_without(s: Seq<Placement>, card: CardId)
    ensures
        location(without(s, card), card) is None,
        forall|other: CardId|
            other != card ==> #[trigger] location(without(s, card), other) == location(s, other),
        well_formed(s) ==> well_formed(without(s, card)),
        well_formed(s) && holds(s, card) ==> without(s, card).len() == s.len() - 1,
        !holds(s, card) ==> without(s, card) == s,
    decreases s.len(),
{
    if s.len() > 0 {
        let front = s.drop_last();
        let rest = without(front, card);
        lemma_without(front, card);
        if well_formed(s) {
            lemma_location_line(front, s.last().card);
            if s.last().card != card {
                lemma_location_line(rest, s.last().card);
            }
        }
        if s.last().card != card {
            let grown = rest.push(s.last());
            assert(grown.drop_last() == rest);
        }
        assert forall|other: CardId| other != card implies #[trigger] location(
            without(s, card),
            other,
        ) == location(s, other) by {
            assert(location(rest, other) == location(front, other));
        }
    }
}

/// Under a well-formed list, the cards of a container are exactly the cards
/// located there.
pub proof fn lemma_cards_in_located(s: Seq<Placement>, container: ContainerId)
    requires
        well_formed(s),
    ensures
        forall|card: CardId| #[trigger]
            cards_in(s, container).contains(card) ==> location(s, card) == Some(container),
        forall|card: CardId|
            (#[trigger] location(s, card)) == Some(container) ==> cards_in(s, container).contains(card),
        cards_in(s, container).no_duplicates(),
        cards_in(s, container).len() <= s.len(),
    decreases s.len(),
{
    if s.len() > 0 {
        let front = s.drop_last();
        lemma_cards_in_located(front, container);
        lemma_location_line(front, s.last().card);
        let inner = cards_in(front, container);
        assert(!inner.contains(s.last().card));
        if s.last().place == container {
            let all = inner.push(s.last().card);
            assert forall|card: CardId| #[trigger] all.contains(card) implies location(s, card) == Some(
                container,
            ) by {
                let k = choose|k: int| 0 <= k < all.len() && all[k] == card;
                if k < inner.len() {
                    assert(inner.contains(card));
                }
            }
            assert forall|card: CardId| (#[trigger] location(s, card)) == Some(container) implies all.contains(
                card,
            ) by {
                if card == s.last().card {
                    assert(all[all.len() - 1] == card);
                } else {
                    assert(location(front, card) == Some(container));
                    let k = choose|k: int| 0 <= k < inner.len() && inner[k] == card;
                    assert(all[k] == card);
                }
            }
        } else {
            assert forall|card: CardId| (#[trigger] location(s, card)) == Some(container) implies inner.contains(
                card,
            ) by {
                assert(location(front, card) == Some(container));
            }
        }
    }
}

/// Taking out a card that is not in a container leaves the cards of that
/// container as they were.
pub proof fn lemma_cards_in_without(s: Seq<Placement>, card: CardId, container: ContainerId)
    requires
        well_formed(s),
        location(s, card) != Some(container),
    ensures
        cards_in(without(s, card), container) == cards_in(s, container),
    decreases s.len(),
{
    if s.len() > 0 {
        let front = s.drop_last();
        if s.last().card == card {
            lemma_location_line(front, card);
            lemma_cards_in_without(front, card, container);
        } else {
            lemma_cards_in_without(front, card, container);
            let grown = without(front, card).push(s.last());
            assert(grown.drop_last() == without(front, card));
        }
    }
}

/// The cards of a container in two lists laid end to end are those in the
/// first list, then those in the second.
pub proof fn lemma_cards_in_joined(first: Seq<Placement>, second: Seq<Placement>, container: ContainerId)
    ensures
        cards_in(first + second, container) == cards_in(first, container) + cards_in(second, container),
    decreases second.len(),
{
    if second.len() > 0 {
        let joined = first + second;
        assert(joined.drop_last() == first + second.drop_last());
        lemma_cards_in_joined(first, second.drop_last(), container);
    }
}

/// Taking a card out of two lists laid end to end takes it out of each.
pub proof fn lemma_without_joined(first: Seq<Placement>, second: Seq<Placement>, card: CardId)
    ensures
        without(first + second, card) == without(first, card) + without(second, card),
    decreases second.len(),
{
    if second.len() > 0 {
        let joined = first + second;
        assert(joined.drop_last() == first + second.drop_last());
        lemma_without_joined(first, second.drop_last(), card);
    }
}

/// A list whose lines all name one container holds, in that container, the
/// cards of its lines in order; a list none of whose lines names a container
/// holds nothing there.
pub proof fn lemma_cards_in_uniform(s: Seq<Placement>, container: ContainerId)
    ensures
        (forall|i: int| 0 <= i < s.len() ==> (#[trigger] s[i]).place == container) ==> cards_in(
            s,
            container,
        ) == s.map_values(|line: Placement| line.card),
        (forall|i: int| 0 <= i < s.len() ==> (#[trigger] s[i]).place != container) ==> cards_in(
            s,
            container,
        ) == Seq::<CardId>::empty(),
    decreases s.len(),
{
    if s.len() > 0 {
        lemma_cards_in_uniform(s.drop_last(), container);
    }
}

/// Moving a card keeps the list well formed, keeps its length and the set of
/// cards it lists, puts the card into the target and leaves every other card
/// where it was.
pub proof fn lemma_relocate(s: Seq<Placement>, card: CardId, target: ContainerId)
    requires
        well_formed(s),
    ensures
        well_formed(relocate(s, card, target)),
        relocate(s, card, target).len() == s.len(),
        registered(relocate(s, card, target)) == registered(s),
        holds(s, card) ==> location(relocate(s, card, target), card) == Some(target),
        forall|other: CardId|
            other != card ==> #[trigger] location(relocate(s, card, target), other) == location(s, other),
{
    lemma_without(s, card);
    if holds(s, card) {
        let rest = without(s, card);
        let moved = Placement { card, place: target };
        let after = rest.push(moved);
        assert(after.drop_last() == rest);
        lemma_location_line(rest, card);
        lemma_location_line(s, card);
        assert forall|other: CardId| other != card implies #[trigger] location(after, other) == location(
            s,
            other,
        ) by {
            assert(location(rest, other) == location(s, other));
        }
    }
}

/// The double deck holds 108 different playing cards.
pub proof fn lemma_fresh_deck()
    ensures
        well_formed(fresh_deck()),
        forall|i: int| 0 <= i < 108 ==> (#[trigger] deck_card(i)).is_playing_card(),
        forall|i: int, j: int| 0 <= i < j < 108 ==> deck_card(i) != deck_card(j),
{
}

/// No card is in two containers: a card found among the cards of one
/// container and among those of another was looked for in the same container
/// twice.
pub proof fn lemma_one_container(s: Seq<Placement>, card: CardId, first: ContainerId, second: ContainerId)
    requires
        well_formed(s),
        cards_in(s, first).contains(card),
        cards_in(s, second).contains(card),
    ensures
        first == second,
{
    lemma_cards_in_located(s, first);
    lemma_cards_in_located(s, second);
}

/// The cards that a list of containers holds, counted container by container.
pub open spec fn census(s: Seq<Placement>, containers: Seq<ContainerId>) -> nat
    decreases containers.len(),
{
    if containers.len() == 0 {
        0
    } else {
        census(s, containers.drop_last()) + cards_in(s, containers.last()).len()
    }
}

/// One more placement adds one card to the count of the containers when it
/// puts the card into one of them, and none when it does not.
proof fn lemma_census_step(s: Seq<Placement>, containers: Seq<ContainerId>)
    requires
        s.len() > 0,
        containers.no_duplicates(),
    ensures
        census(s, containers) == census(s.drop_last(), containers) + (if containers.contains(
            s.last().place,
        ) {
            1nat
        } else {
            0nat
        }),
    decreases containers.len(),
{
    if containers.len() > 0 {
        let front = containers.drop_last();
        lemma_census_step(s, front);
        if containers.last() != s.last().place && containers.contains(s.last().place) {
            let k = choose|k: int| 0 <= k < containers.len() && containers[k] == s.last().place;
            assert(front[k] == containers[k]);
        }
    }
}

/// Counted over different containers that between them hold every card, the
/// cards of the containers add up to the cards of the registry: none is
/// counted twice and none is missed.
pub proof fn lemma_census(s: Seq<Placement>, containers: Seq<ContainerId>)
    requires
        containers.no_duplicates(),
        forall|i: int| 0 <= i < s.len() ==> containers.contains((#[trigger] s[i]).place),
    ensures
        census(s, containers) == s.len(),
    decreases s.len(),
{
    if s.len() > 0 {
        let front = s.drop_last();
        lemma_census(front, containers);
        lemma_census_step(s, containers);
    } else {
        lemma_census_empty(s, containers);
    }
}

/// An empty registry has no card in any container.
proof fn lemma_census_empty(s: Seq<Placement>, containers: Seq<ContainerId>)
    requires
        s.len() == 0,
    ensures
        census(s, containers) == 0,
    decreases containers.len(),
{
    if containers.len() > 0 {
        lemma_census_empty(s, containers.drop_last());
    }
}

/// A registry that lists the cards of the double deck lists 108 cards.
pub proof fn lemma_full_count(s: Seq<Placement>)
    requires
        well_formed(s),
        registered(s) == registered(fresh_deck()),
    ensures
        s.len() == 108,
{
    lemma_listed_count(s);
    lemma_listed_count(fresh_deck());
}

/// A well-formed registry lists as many cards as it has lines.
proof fn lemma_listed_count(s: Seq<Placement>)
    requires
        well_formed(s),
    ensures
        registered(s).finite(),
        registered(s).len() == s.len(),
{
    let cards = s.map_values(|line: Placement| line.card);
    cards.unique_seq_to_set();
    assert forall|card: CardId| cards.to_set().contains(card) <==> registered(s).contains(card) by {
        lemma_location_line(s, card);
        if registered(s).contains(card) {
            let place = location(s, card)->0;
            let i = choose|i: int| 0 <= i < s.len() && #[trigger] s[i] == (Placement { card, place });
            assert(cards[i] == card);
        }
    }
    assert(cards.to_set() =~= registered(s));
}

} // verus!
