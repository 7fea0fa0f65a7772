use rumminator::{
    card_id_to_view, CardId, CardRegistry, ContainerId, GameError, Place,
};

#[test]
fn new_registry_lists_nothing() {
    let registry = CardRegistry::new();
    assert_eq!(registry.len(), 0);
    assert_eq!(registry.get_location(CardId::new(1, 1)), None);
    assert!(registry.get_cards_in_container(&ContainerId::deck()).is_empty());
    assert_eq!(registry.highest_hand_seat(), None);
}

#[test]
fn container_names_are_distinct() {
    assert_eq!(ContainerId::deck(), ContainerId(Place::Deck));
    assert_eq!(ContainerId::discard(), ContainerId(Place::Discard));
    assert_eq!(ContainerId::table_temp(), ContainerId(Place::Scratch));
    assert_eq!(ContainerId::player_hand(3), ContainerId(Place::Hand(3)));
    assert_eq!(ContainerId::player_group(1, 2), ContainerId(Place::Group(1, 2)));
    assert_eq!(ContainerId::player_run(1, 2), ContainerId(Place::Run(1, 2)));
    assert_ne!(ContainerId::player_group(1, 2), ContainerId::player_run(1, 2));
    assert_ne!(ContainerId::player_group(1, 2), ContainerId::player_group(2, 1));
    assert_ne!(ContainerId::player_hand(0), ContainerId::player_hand(1));
}

#[test]
fn initialize_puts_the_double_deck_into_the_deck() {
    let mut registry = CardRegistry::new();
    let all = registry.initialize_with_deck();
    assert_eq!(all.len(), 108);
    assert_eq!(registry.len(), 108);
    assert_eq!(all[0], CardId(101));
    assert_eq!(all[53], CardId(154));
    assert_eq!(all[54], CardId(201));
    assert_eq!(all[107], CardId(254));
    for (at, card) in all.iter().enumerate() {
        assert!(card.is_valid());
        assert_eq!(*card, CardId::new((at % 54 + 1) as u8, (at / 54 + 1) as u8));
        assert_eq!(registry.get_location(*card), Some(&ContainerId::deck()));
        assert!(!all[..at].contains(card));
    }
    assert_eq!(registry.get_cards_in_container(&ContainerId::deck()), all);
    assert!(registry.get_cards_in_container(&ContainerId::discard()).is_empty());
}

#[test]
fn initialize_starts_the_registry_afresh() {
    let mut registry = CardRegistry::new();
    let all = registry.initialize_with_deck();
    registry.move_card(all[5], ContainerId::player_hand(0)).unwrap();
    let again = registry.initialize_with_deck();
    assert_eq!(again, all);
    assert_eq!(registry.len(), 108);
    assert_eq!(registry.get_location(all[5]), Some(&ContainerId::deck()));
    assert_eq!(registry.get_cards_in_container(&ContainerId::deck()), all);
}

#[test]
fn move_relocates_one_card_only() {
    let mut registry = CardRegistry::new();
    let all = registry.initialize_with_deck();
    let card = all[10];
    assert_eq!(registry.move_card(card, ContainerId::player_hand(2)), Ok(()));
    assert_eq!(registry.get_location(card), Some(&ContainerId::player_hand(2)));
    assert_eq!(registry.get_cards_in_container(&ContainerId::player_hand(2)), vec![card]);
    assert_eq!(registry.len(), 108);
    let deck = registry.get_cards_in_container(&ContainerId::deck());
    assert_eq!(deck.len(), 107);
    assert!(!deck.contains(&card));
    for other in all.iter().filter(|other| **other != card) {
        assert_eq!(registry.get_location(*other), Some(&ContainerId::deck()));
    }
    assert_eq!(registry.highest_hand_seat(), Some(2));
}

#[test]
fn move_of_an_unknown_card_fails_and_changes_nothing() {
    let mut registry = CardRegistry::new();
    let stranger = CardId::new(1, 1);
    assert_eq!(
        registry.move_card(stranger, ContainerId::deck()),
        Err(GameError::UnknownCard(stranger))
    );
    assert_eq!(registry.len(), 0);

    let all = registry.initialize_with_deck();
    let stranger = CardId::new(1, 3);
    assert_eq!(
        registry.move_card(stranger, ContainerId::discard()),
        Err(GameError::UnknownCard(stranger))
    );
    assert_eq!(registry.len(), 108);
    assert_eq!(registry.get_location(stranger), None);
    assert_eq!(registry.get_cards_in_container(&ContainerId::deck()), all);
}

#[test]
fn cards_of_a_container_come_in_order_of_arrival() {
    let mut registry = CardRegistry::new();
    let all = registry.initialize_with_deck();
    let (first, second, third) = (all[30], all[2], all[77]);
    registry.move_card(first, ContainerId::discard()).unwrap();
    registry.move_card(second, ContainerId::discard()).unwrap();
    registry.move_card(third, ContainerId::discard()).unwrap();
    assert_eq!(
        registry.get_cards_in_container(&ContainerId::discard()),
        vec![first, second, third]
    );
    registry.move_card(first, ContainerId::discard()).unwrap();
    assert_eq!(
        registry.get_cards_in_container(&ContainerId::discard()),
        vec![second, third, first]
    );
    registry.move_card(third, ContainerId::table_temp()).unwrap();
    assert_eq!(registry.get_cards_in_container(&ContainerId::discard()), vec![second, first]);
    assert_eq!(registry.get_cards_in_container(&ContainerId::table_temp()), vec![third]);
}

#[test]
fn every_card_is_in_exactly_one_container() {
    let mut registry = CardRegistry::new();
    let all = registry.initialize_with_deck();
    let places = [
        ContainerId::deck(),
        ContainerId::discard(),
        ContainerId::table_temp(),
        ContainerId::player_hand(0),
        ContainerId::player_hand(1),
        ContainerId::player_group(0, 0),
        ContainerId::player_run(1, 4),
    ];
    for (at, card) in all.iter().enumerate() {
        registry.move_card(*card, places[(at * 5 + at / 7) % places.len()]).unwrap();
    }
    let mut seen: Vec<CardId> = Vec::new();
    for place in places.iter() {
        for card in registry.get_cards_in_container(place) {
            assert!(!seen.contains(&card));
            assert_eq!(registry.get_location(card), Some(place));
            seen.push(card);
        }
    }
    assert_eq!(seen.len(), 108);
    for card in all.iter() {
        assert!(seen.contains(card));
    }
}

#[test]
fn container_view_shows_cards_in_order() {
    let mut registry = CardRegistry::new();
    let all = registry.initialize_with_deck();
    let target = ContainerId::player_run(0, 1);
    registry.move_card(all[45], target).unwrap();
    registry.move_card(all[53], target).unwrap();
    registry.move_card(all[54], target).unwrap();
    let shown = registry.get_container_view(&target);
    assert_eq!(
        shown.cards,
        vec![card_id_to_view(all[45]), card_id_to_view(all[53]), card_id_to_view(all[54])]
    );
    assert!(registry.get_container_view(&ContainerId::player_run(0, 0)).cards.is_empty());
}

#[test]
fn duplicate_is_a_separate_registry() {
    let mut registry = CardRegistry::new();
    let all = registry.initialize_with_deck();
    registry.move_card(all[0], ContainerId::discard()).unwrap();
    let mut copy = registry.duplicate();
    assert_eq!(copy.len(), 108);
    assert_eq!(copy.get_location(all[0]), Some(&ContainerId::discard()));
    copy.move_card(all[1], ContainerId::discard()).unwrap();
    assert_eq!(copy.get_cards_in_container(&ContainerId::discard()), vec![all[0], all[1]]);
    assert_eq!(registry.get_cards_in_container(&ContainerId::discard()), vec![all[0]]);
}

#[test]
fn highest_hand_seat_follows_the_hands() {
    let mut registry = CardRegistry::new();
    let all = registry.initialize_with_deck();
    assert_eq!(registry.highest_hand_seat(), None);
    registry.move_card(all[0], ContainerId::player_hand(1)).unwrap();
    registry.move_card(all[1], ContainerId::player_hand(3)).unwrap();
    registry.move_card(all[2], ContainerId::player_hand(0)).unwrap();
    registry.move_card(all[3], ContainerId::player_group(7, 0)).unwrap();
    assert_eq!(registry.highest_hand_seat(), Some(3));
    registry.move_card(all[1], ContainerId::discard()).unwrap();
    assert_eq!(registry.highest_hand_seat(), Some(1));
}
