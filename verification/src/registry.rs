//! The registry: the one record of where every card is.

use crate::card::{card_id_to_view, CardId, CardView, CARDS_PER_DECK, DECK_COUNT};
use crate::container::{ContainerId, Place};
use crate::error::GameError;
use crate::meld::CardContainer;
use crate::placement::{
    cards_in, deck_card, fresh_deck, full_deck, holds, lemma_cards_in_located, lemma_location_at,
    lemma_location_line, lemma_relocate, location, registered, relocate, seats_in_use, views_of,
    well_formed, without, Placement,
};
use vstd::prelude::*;

verus! {

/// The registry of a round.
#[derive(Debug)]
pub struct CardRegistry {
    placements: Vec<Placement>,
}

impl View for CardRegistry {
    type V = Seq<Placement>;

    closed spec fn view(&self) -> Seq<Placement> {
        self.placements@
    }
}

impl CardRegistry {
    #[verifier::type_invariant]
    spec fn inv(self) -> bool {
        well_formed(self.placements@)
    }

    /// A registry that lists nothing.
    pub fn new() -> (registry: CardRegistry)
        ensures
            registry@ == Seq::<Placement>::empty(),
    {
        CardRegistry { placements: Vec::new() }
    }

    /// Every registry is well formed; a call hands that fact to the caller's proof.
    pub fn note_well_formed(&self)
        ensures
            well_formed(self@),
    {
        proof {
            use_type_invariant(self);
        }
    }

    /// A second registry that lists the same cards in the same places.
    pub fn duplicate(&self) -> (copy: CardRegistry)
        ensures
            copy@ == self@,
    {
        proof {
            use_type_invariant(self);
        }
        let total: usize = self.placements.len();
        let mut placements: Vec<Placement> = Vec::new();
        let mut i: usize = 0;
        while i < total
            invariant
                i <= total,
                total == self.placements@.len(),
                placements@ == self.placements@.take(i as int),
            decreases total - i,
        {
            placements.push(self.placements[i]);
            i += 1;
        }
        CardRegistry { placements }
    }

    /// The highest seat whose hand holds a card, if any hand does.
    pub fn highest_hand_seat(&self) -> (top: Option<usize>)
        ensures
            match top {
                Some(seat) => seats_in_use(self@) == seat + 1,
                None => seats_in_use(self@) == 0,
            },
    {
        let total: usize = self.placements.len();
        let mut top: Option<usize> = None;
        let mut i: usize = 0;
        while i < total
            invariant
                i <= total,
                total == self.placements@.len(),
                match top {
                    Some(seat) => seats_in_use(self.placements@.take(i as int)) == seat + 1,
                    None => seats_in_use(self.placements@.take(i as int)) == 0,
                },
            decreases total - i,
        {
            let line: Placement = self.placements[i];
            proof {
                assert(self.placements@.take(i + 1).drop_last() == self.placements@.take(i as int));
            }
            match line.place.0 {
                Place::Hand(seat) => {
                    top =
                    match top {
                        Some(best) => if seat > best {
                            Some(seat)
                        } else {
                            Some(best)
                        },
                        None => Some(seat),
                    };
                },
                _ => {},
            }
            i += 1;
        }
        proof {
            assert(self.placements@.take(total as int) == self.placements@);
        }
        top
    }

    /// Number of cards listed.
    pub fn len(&self) -> (n: usize)
        ensures
            n == self@.len(),
    {
        self.placements.len()
    }

    /// Puts every card of the double deck into the deck, in deck order, and
    /// returns their identities. Whatever the registry listed before is gone.
    pub fn initialize_with_deck(&mut self) -> (all_cards: Vec<CardId>)
        ensures
            final(self)@ == fresh_deck(),
            all_cards@ == full_deck(),
    {
        let mut all_cards: Vec<CardId> = Vec::new();
        let mut placements: Vec<Placement> = Vec::new();
        let mut deck: u8 = 1;
        while deck <= DECK_COUNT
            invariant
                1 <= deck <= DECK_COUNT + 1,
                all_cards@.len() == (deck - 1) * 54,
                placements@.len() == (deck - 1) * 54,
                forall|i: int| 0 <= i < all_cards@.len() ==> all_cards@[i] == deck_card(i),
                forall|i: int| 0 <= i < placements@.len() ==> placements@[i] == (Placement {
                    card: deck_card(i),
                    place: ContainerId(Place::Deck),
                }),
            decreases DECK_COUNT + 1 - deck,
        {
            let mut base_card: u8 = 1;
            while base_card <= CARDS_PER_DECK
                invariant
                    1 <= deck <= DECK_COUNT,
                    1 <= base_card <= CARDS_PER_DECK + 1,
                    all_cards@.len() == (deck - 1) * 54 + (base_card - 1),
                    placements@.len() == (deck - 1) * 54 + (base_card - 1),
                    forall|i: int| 0 <= i < all_cards@.len() ==> all_cards@[i] == deck_card(i),
                    forall|i: int| 0 <= i < placements@.len() ==> placements@[i] == (Placement {
                        card: deck_card(i),
                        place: ContainerId(Place::Deck),
                    }),
                decreases CARDS_PER_DECK + 1 - base_card,
            {
                let card_id = CardId::new(base_card, deck);
                placements.push(Placement { card: card_id, place: ContainerId::deck() });
                all_cards.push(card_id);
                base_card += 1;
            }
            deck += 1;
        }
        self.placements = placements;
        all_cards
    }

    /// Moves a card to a container, whatever the rules of the game say about
    /// the move. Fails, and changes nothing, when the card is not listed.
    pub fn move_card(&mut self, card_id: CardId, to_container: ContainerId) -> (moved: Result<
        (),
        GameError,
    >)
        ensures
            final(self)@ == relocate(old(self)@, card_id, to_container),
            final(self)@.len() == old(self)@.len(),
            registered(final(self)@) == registered(old(self)@),
            holds(old(self)@, card_id) ==> moved is Ok,
            !holds(old(self)@, card_id) ==> moved == Err::<(), GameError>(
                GameError::UnknownCard(card_id),
            ),
    {
        proof {
            use_type_invariant(&*self);
        }
        let ghost before = self.placements@;
        let total: usize = self.placements.len();
        let mut rest: Vec<Placement> = Vec::new();
        let mut found: bool = false;
        let mut i: usize = 0;
        while i < total
            invariant
                i <= total,
                total == self.placements@.len(),
                self.placements@ == before,
                rest@ == without(before.take(i as int), card_id),
                found == holds(before.take(i as int), card_id),
            decreases total - i,
        {
            let line: Placement = self.placements[i];
            proof {
                assert(before.take(i + 1).drop_last() == before.take(i as int));
            }
            if line.card == card_id {
                found = true;
            } else {
                rest.push(line);
            }
            i += 1;
        }
        proof {
            assert(before.take(total as int) == before);
            lemma_relocate(before, card_id, to_container);
        }
        if found {
            rest.push(Placement { card: card_id, place: to_container });
            self.placements = rest;
            Ok(())
        } else {
            Err(GameError::UnknownCard(card_id))
        }
    }

    /// The container that holds a card, if the card is listed.
    pub fn get_location(&self, card_id: CardId) -> (found: Option<&ContainerId>)
        ensures
            match found {
                Some(place) => location(self@, card_id) == Some(*place),
                None => location(self@, card_id) is None,
            },
    {
        proof {
            use_type_invariant(self);
        }
        let total: usize = self.placements.len();
        let mut i: usize = 0;
        while i < total
            invariant
                i <= total,
                total == self.placements@.len(),
                well_formed(self.placements@),
                forall|j: int| 0 <= j < i ==> (#[trigger] self.placements@[j]).card != card_id,
            decreases total - i,
        {
            if self.placements[i].card == card_id {
                proof {
                    lemma_location_at(self.placements@, i as int);
                }
                return Some(&self.placements[i].place);
            }
            i += 1;
        }
        proof {
            lemma_location_line(self.placements@, card_id);
        }
        None
    }

    /// The cards of a container, oldest arrival first; the last one is the top
    /// of the pile.
    pub fn get_cards_in_container(&self, container: &ContainerId) -> (cards: Vec<CardId>)
        ensures
            cards@ == cards_in(self@, *container),
    {
        let total: usize = self.placements.len();
        let mut cards: Vec<CardId> = Vec::new();
        let mut i: usize = 0;
        while i < total
            invariant
                i <= total,
                total == self.placements@.len(),
                cards@ == cards_in(self.placements@.take(i as int), *container),
            decreases total - i,
        {
            let line: Placement = self.placements[i];
            proof {
                assert(self.placements@.take(i + 1).drop_last() == self.placements@.take(i as int));
            }
            if line.place == *container {
                cards.push(line.card);
            }
            i += 1;
        }
        proof {
            assert(self.placements@.take(total as int) == self.placements@);
        }
        cards
    }

    /// The cards of a container as a player sees them, in the same order.
    pub fn get_container_view(&self, container: &ContainerId) -> (shown: CardContainer)
        ensures
            shown@ == views_of(cards_in(self@, *container)),
    {
        proof {
            use_type_invariant(self);
            lemma_cards_in_located(self.placements@, *container);
        }
        let card_ids = self.get_cards_in_container(container);
        let mut cards: Vec<CardView> = Vec::new();
        let mut i: usize = 0;
        while i < card_ids.len()
            invariant
                i <= card_ids@.len(),
                well_formed(self.placements@),
                card_ids@ == cards_in(self.placements@, *container),
                forall|card: CardId| #[trigger]
                    card_ids@.contains(card) ==> location(self.placements@, card) == Some(*container),
                cards@ == views_of(card_ids@.take(i as int)),
            decreases card_ids@.len() - i,
        {
            let card_id: CardId = card_ids[i];
            proof {
                assert(card_ids@.contains(card_id));
                lemma_location_line(self.placements@, card_id);
            }
            cards.push(card_id_to_view(card_id));
            i += 1;
        }
        CardContainer { cards }
    }
}

} // verus!
