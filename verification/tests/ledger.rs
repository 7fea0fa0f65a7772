use rumminator::engine::{
    apply_moves, execute_discard, execute_draw, execute_move_ledger, finish_turn, is_hand_over,
    is_invalid_target_always, is_own_empty_set_container, is_own_table_container,
    is_table_set_container, ledger_lays_down, validate_move_ledger, validate_move_source,
    validate_move_target, validate_single_move, validate_temp_container_end_state,
};
use rumminator::deal::deal_cards;
use rumminator::{
    CardId, CardMove, CardRegistry, ContainerId, ContractOrder, DrawDecision, GameError, GameState,
    TurnOutcome, TurnResult,
};

/// Two players, ten cards each, dealt from the deck in deck order.
fn table() -> (GameState, Vec<CardId>) {
    let mut registry = CardRegistry::new();
    let all = registry.initialize_with_deck();
    let state = deal_cards(registry, &all, 2, ContractOrder::GG).unwrap();
    (state, all)
}

fn to(card_id: CardId, to_container: ContainerId) -> CardMove {
    CardMove { card_id, to_container }
}

fn snapshot(state: &GameState, all: &[CardId]) -> Vec<(Option<ContainerId>, Vec<CardId>)> {
    all.iter()
        .map(|card| {
            let place = state.card_registry.get_location(*card).copied();
            let cards = match place {
                Some(place) => state.card_registry.get_cards_in_container(&place),
                None => Vec::new(),
            };
            (place, cards)
        })
        .collect()
}

#[test]
fn target_kinds_are_told_apart() {
    assert!(is_invalid_target_always(&ContainerId::deck()));
    assert!(is_invalid_target_always(&ContainerId::discard()));
    assert!(is_invalid_target_always(&ContainerId::player_hand(0)));
    assert!(is_invalid_target_always(&ContainerId::player_hand(9)));
    assert!(!is_invalid_target_always(&ContainerId::table_temp()));
    assert!(!is_invalid_target_always(&ContainerId::player_group(0, 0)));
    assert!(!is_invalid_target_always(&ContainerId::player_run(0, 0)));

    assert!(is_own_table_container(&ContainerId::player_group(1, 0), 1));
    assert!(is_own_table_container(&ContainerId::player_run(1, 3), 1));
    assert!(!is_own_table_container(&ContainerId::player_run(1, 3), 0));
    assert!(!is_own_table_container(&ContainerId::player_group(11, 0), 1));
    assert!(!is_own_table_container(&ContainerId::player_hand(1), 1));
    assert!(!is_own_table_container(&ContainerId::table_temp(), 1));

    assert!(is_table_set_container(&ContainerId::player_group(4, 4)));
    assert!(is_table_set_container(&ContainerId::player_run(0, 0)));
    assert!(!is_table_set_container(&ContainerId::player_hand(0)));
    assert!(!is_table_set_container(&ContainerId::deck()));
    assert!(!is_table_set_container(&ContainerId::table_temp()));
}

#[test]
fn own_empty_meld_is_recognised() {
    let (mut state, all) = table();
    let group = ContainerId::player_group(0, 0);
    assert!(is_own_empty_set_container(&state, &group, 0));
    assert!(!is_own_empty_set_container(&state, &group, 1));
    assert!(!is_own_empty_set_container(&state, &ContainerId::table_temp(), 0));
    state.card_registry.move_card(all[0], group).unwrap();
    assert!(!is_own_empty_set_container(&state, &group, 0));
    assert!(is_own_empty_set_container(&state, &ContainerId::player_group(0, 1), 0));
}

#[test]
fn source_must_be_own_hand_before_lay_down() {
    let (mut state, all) = table();
    assert_eq!(validate_move_source(&state, all[0], 0, false), Ok(()));
    assert_eq!(
        validate_move_source(&state, all[1], 0, false),
        Err(GameError::InvalidMoveSource { card: all[1], container: ContainerId::player_hand(1) })
    );
    assert_eq!(
        validate_move_source(&state, all[20], 0, false),
        Err(GameError::InvalidMoveSource { card: all[20], container: ContainerId::discard() })
    );
    assert_eq!(
        validate_move_source(&state, all[50], 0, false),
        Err(GameError::InvalidMoveSource { card: all[50], container: ContainerId::deck() })
    );
    let stranger = CardId::new(7, 9);
    assert_eq!(
        validate_move_source(&state, stranger, 0, false),
        Err(GameError::UnknownCard(stranger))
    );
    let group = ContainerId::player_group(0, 0);
    state.card_registry.move_card(all[0], group).unwrap();
    assert_eq!(
        validate_move_source(&state, all[0], 0, false),
        Err(GameError::InvalidMoveSource { card: all[0], container: group })
    );
}

#[test]
fn own_melds_are_a_source_after_lay_down() {
    let (mut state, all) = table();
    let own = ContainerId::player_run(0, 2);
    let foreign = ContainerId::player_run(1, 2);
    state.card_registry.move_card(all[0], own).unwrap();
    state.card_registry.move_card(all[1], foreign).unwrap();
    assert_eq!(validate_move_source(&state, all[0], 0, true), Ok(()));
    assert_eq!(validate_move_source(&state, all[2], 0, true), Ok(()));
    assert_eq!(
        validate_move_source(&state, all[1], 0, true),
        Err(GameError::InvalidMoveSource { card: all[1], container: foreign })
    );
    assert_eq!(
        validate_move_source(&state, all[3], 0, true),
        Err(GameError::InvalidMoveSource { card: all[3], container: ContainerId::player_hand(1) })
    );
}

#[test]
fn hands_deck_and_discard_are_never_a_target() {
    let (state, _) = table();
    for laid_down in [false, true] {
        for target in [
            ContainerId::deck(),
            ContainerId::discard(),
            ContainerId::player_hand(0),
            ContainerId::player_hand(1),
        ] {
            assert_eq!(
                validate_move_target(&state, &target, 0, laid_down),
                Err(GameError::InvalidMoveTarget(target))
            );
        }
        assert_eq!(validate_move_target(&state, &ContainerId::table_temp(), 0, laid_down), Ok(()));
    }
}

#[test]
fn meld_targets_depend_on_lay_down() {
    let (mut state, all) = table();
    let empty = ContainerId::player_group(0, 0);
    let filled = ContainerId::player_group(0, 1);
    let foreign = ContainerId::player_group(1, 0);
    state.card_registry.move_card(all[0], filled).unwrap();

    assert_eq!(validate_move_target(&state, &empty, 0, false), Ok(()));
    assert_eq!(
        validate_move_target(&state, &filled, 0, false),
        Err(GameError::InvalidMoveTarget(filled))
    );
    assert_eq!(
        validate_move_target(&state, &foreign, 0, false),
        Err(GameError::InvalidMoveTarget(foreign))
    );

    assert_eq!(validate_move_target(&state, &empty, 0, true), Ok(()));
    assert_eq!(validate_move_target(&state, &filled, 0, true), Ok(()));
    assert_eq!(
        validate_move_target(&state, &foreign, 0, true),
        Err(GameError::InvalidMoveTarget(foreign))
    );
}

#[test]
fn single_move_checks_source_before_target() {
    let (state, all) = table();
    let good = to(all[0], ContainerId::player_group(0, 0));
    assert_eq!(validate_single_move(&state, &good, 0, false), Ok(()));
    let both_wrong = to(all[1], ContainerId::deck());
    assert_eq!(
        validate_single_move(&state, &both_wrong, 0, false),
        Err(GameError::InvalidMoveSource { card: all[1], container: ContainerId::player_hand(1) })
    );
    let bad_target = to(all[0], ContainerId::deck());
    assert_eq!(
        validate_single_move(&state, &bad_target, 0, false),
        Err(GameError::InvalidMoveTarget(ContainerId::deck()))
    );
}

#[test]
fn empty_ledger_is_valid() {
    let (state, _) = table();
    assert_eq!(validate_move_ledger(&state, &[]), Ok(()));
    assert_eq!(validate_temp_container_end_state(&state, &[]), Ok(()));
}

#[test]
fn lay_down_through_scratch_is_valid() {
    let (state, all) = table();
    let scratch = ContainerId::table_temp();
    let group = ContainerId::player_group(0, 0);
    let ledger = vec![
        to(all[0], scratch),
        to(all[2], scratch),
        to(all[4], scratch),
        to(all[0], group),
        to(all[2], group),
        to(all[4], group),
    ];
    assert_eq!(validate_move_ledger(&state, &ledger), Ok(()));
}

#[test]
fn cards_left_in_scratch_are_counted() {
    let (state, all) = table();
    let scratch = ContainerId::table_temp();
    let group = ContainerId::player_group(0, 0);
    let ledger = vec![to(all[0], scratch), to(all[2], scratch), to(all[4], scratch), to(all[2], group)];
    assert_eq!(validate_move_ledger(&state, &ledger), Err(GameError::DanglingScratchCards(2)));
    assert_eq!(
        validate_temp_container_end_state(&state, &ledger),
        Err(GameError::DanglingScratchCards(2))
    );
    let ledger = vec![to(all[0], scratch)];
    assert_eq!(validate_move_ledger(&state, &ledger), Err(GameError::DanglingScratchCards(1)));
    let ledger = vec![to(all[0], group), to(all[0], scratch)];
    assert_eq!(validate_move_ledger(&state, &ledger), Err(GameError::DanglingScratchCards(1)));
}

#[test]
fn cards_already_in_scratch_are_counted_too() {
    let (mut state, all) = table();
    let scratch = ContainerId::table_temp();
    state.card_registry.move_card(all[50], scratch).unwrap();
    assert_eq!(validate_move_ledger(&state, &[]), Err(GameError::DanglingScratchCards(1)));
    let ledger = vec![to(all[0], scratch)];
    assert_eq!(
        validate_temp_container_end_state(&state, &ledger),
        Err(GameError::DanglingScratchCards(2))
    );
}

#[test]
fn first_faulty_move_decides() {
    let (state, all) = table();
    let group = ContainerId::player_group(0, 0);
    let ledger = vec![
        to(all[0], group),
        to(all[2], ContainerId::discard()),
        to(all[1], group),
        to(all[4], ContainerId::table_temp()),
    ];
    assert_eq!(
        validate_move_ledger(&state, &ledger),
        Err(GameError::InvalidMoveTarget(ContainerId::discard()))
    );
    let ledger = vec![to(all[1], group), to(all[2], ContainerId::discard())];
    assert_eq!(
        validate_move_ledger(&state, &ledger),
        Err(GameError::InvalidMoveSource { card: all[1], container: ContainerId::player_hand(1) })
    );
}

#[test]
fn ledger_is_judged_for_the_player_at_turn() {
    let (mut state, all) = table();
    let ledger = vec![to(all[1], ContainerId::player_group(1, 0))];
    assert_eq!(
        validate_move_ledger(&state, &ledger),
        Err(GameError::InvalidMoveSource { card: all[1], container: ContainerId::player_hand(1) })
    );
    state.current_player = 1;
    assert_eq!(validate_move_ledger(&state, &ledger), Ok(()));
}

#[test]
fn not_laid_down_player_cannot_touch_filled_or_foreign_melds() {
    let (mut state, all) = table();
    let filled = ContainerId::player_group(0, 0);
    state.card_registry.move_card(all[30], filled).unwrap();
    let before = snapshot(&state, &all);

    let turn = TurnResult { move_ledger: vec![to(all[0], filled)], discard: all[2] };
    assert_eq!(finish_turn(&mut state, turn), Err(GameError::InvalidMoveTarget(filled)));
    assert_eq!(snapshot(&state, &all), before);

    let foreign = ContainerId::player_run(1, 0);
    let turn = TurnResult { move_ledger: vec![to(all[0], foreign)], discard: all[2] };
    assert_eq!(finish_turn(&mut state, turn), Err(GameError::InvalidMoveTarget(foreign)));
    assert_eq!(snapshot(&state, &all), before);
    assert_eq!(state.current_player, 0);
    assert_eq!(state.players_laid_down, vec![false, false]);
}

#[test]
fn faulty_ledger_leaves_the_registry_as_it_was() {
    let (mut state, all) = table();
    let before = snapshot(&state, &all);
    let turn = TurnResult {
        move_ledger: vec![
            to(all[0], ContainerId::player_group(0, 0)),
            to(all[2], ContainerId::player_hand(1)),
        ],
        discard: all[4],
    };
    assert_eq!(
        finish_turn(&mut state, turn),
        Err(GameError::InvalidMoveTarget(ContainerId::player_hand(1)))
    );
    assert_eq!(snapshot(&state, &all), before);
    assert_eq!(state.card_registry.len(), 108);
    assert_eq!(state.current_player, 0);
    assert_eq!(state.players_laid_down, vec![false, false]);

    let turn = TurnResult { move_ledger: vec![to(all[0], ContainerId::table_temp())], discard: all[4] };
    assert_eq!(finish_turn(&mut state, turn), Err(GameError::DanglingScratchCards(1)));
    assert_eq!(snapshot(&state, &all), before);
}

#[test]
fn draw_takes_the_top_of_the_chosen_pile() {
    let (mut state, all) = table();
    assert_eq!(state.card_registry.get_cards_in_container(&ContainerId::discard()), vec![all[20]]);
    assert_eq!(
        state.card_registry.get_cards_in_container(&ContainerId::deck()),
        all[21..].to_vec()
    );
    assert_eq!(execute_draw(&mut state, DrawDecision::Deck), Ok(()));
    let hand = state.card_registry.get_cards_in_container(&ContainerId::player_hand(0));
    assert_eq!(hand.len(), 11);
    assert_eq!(hand[10], all[107]);
    assert_eq!(state.card_registry.get_cards_in_container(&ContainerId::deck()).len(), 86);

    assert_eq!(execute_draw(&mut state, DrawDecision::Discard), Ok(()));
    let hand = state.card_registry.get_cards_in_container(&ContainerId::player_hand(0));
    assert_eq!(hand.len(), 12);
    assert_eq!(hand[11], all[20]);
    assert!(state.card_registry.get_cards_in_container(&ContainerId::discard()).is_empty());
}

#[test]
fn draw_from_an_empty_pile_is_refused() {
    let (mut state, all) = table();
    execute_draw(&mut state, DrawDecision::Discard).unwrap();
    let before = snapshot(&state, &all);
    assert_eq!(
        execute_draw(&mut state, DrawDecision::Discard),
        Err(GameError::EmptyPile(ContainerId::discard()))
    );
    assert_eq!(snapshot(&state, &all), before);

    let mut registry = CardRegistry::new();
    let cards = registry.initialize_with_deck();
    let mut bare = deal_cards(registry, &cards[..21].to_vec(), 2, ContractOrder::GG).unwrap();
    for card in cards[21..].iter() {
        bare.card_registry.move_card(*card, ContainerId::table_temp()).unwrap();
    }
    assert_eq!(
        execute_draw(&mut bare, DrawDecision::Deck),
        Err(GameError::EmptyPile(ContainerId::deck()))
    );
}

#[test]
fn discard_draw_is_the_card_discarded_last() {
    let (mut state, all) = table();
    execute_discard(&mut state, all[4]).unwrap();
    execute_discard(&mut state, all[0]).unwrap();
    assert_eq!(
        state.card_registry.get_cards_in_container(&ContainerId::discard()),
        vec![all[20], all[4], all[0]]
    );
    execute_draw(&mut state, DrawDecision::Discard).unwrap();
    assert_eq!(state.card_registry.get_location(all[0]), Some(&ContainerId::player_hand(0)));
    assert_eq!(
        state.card_registry.get_cards_in_container(&ContainerId::discard()),
        vec![all[20], all[4]]
    );
}

#[test]
fn discard_must_come_from_the_hand_of_the_player_at_turn() {
    let (mut state, all) = table();
    let before = snapshot(&state, &all);
    assert_eq!(execute_discard(&mut state, all[1]), Err(GameError::InvalidDiscard(all[1])));
    assert_eq!(execute_discard(&mut state, all[50]), Err(GameError::InvalidDiscard(all[50])));
    let stranger = CardId::new(3, 4);
    assert_eq!(execute_discard(&mut state, stranger), Err(GameError::InvalidDiscard(stranger)));
    assert_eq!(snapshot(&state, &all), before);
    assert_eq!(execute_discard(&mut state, all[0]), Ok(()));
    assert_eq!(state.card_registry.get_location(all[0]), Some(&ContainerId::discard()));
}

#[test]
fn moves_apply_in_order() {
    let (mut state, all) = table();
    let scratch = ContainerId::table_temp();
    let group = ContainerId::player_group(0, 0);
    let ledger = vec![
        to(all[4], scratch),
        to(all[0], scratch),
        to(all[0], group),
        to(all[4], group),
        to(all[2], group),
    ];
    assert_eq!(execute_move_ledger(&mut state, ledger), Ok(()));
    assert_eq!(state.card_registry.get_cards_in_container(&group), vec![all[0], all[4], all[2]]);
    assert!(state.card_registry.get_cards_in_container(&scratch).is_empty());
    assert_eq!(state.card_registry.get_cards_in_container(&ContainerId::player_hand(0)).len(), 7);
    assert_eq!(state.players_laid_down, vec![true, false]);
    assert_eq!(state.card_registry.len(), 108);
}

#[test]
fn moves_with_an_unknown_card_are_refused_as_a_whole() {
    let (mut state, all) = table();
    let before = snapshot(&state, &all);
    let stranger = CardId::new(9, 9);
    let ledger = vec![
        to(all[0], ContainerId::player_group(0, 0)),
        to(stranger, ContainerId::player_group(0, 0)),
    ];
    assert_eq!(execute_move_ledger(&mut state, ledger.clone()), Err(GameError::UnknownCard(stranger)));
    assert_eq!(snapshot(&state, &all), before);
    assert_eq!(state.players_laid_down, vec![false, false]);
    assert_eq!(
        apply_moves(&mut state.card_registry, &ledger),
        Err(GameError::UnknownCard(stranger))
    );
    assert_eq!(snapshot(&state, &all), before);
}

#[test]
fn lay_down_is_noted_only_for_own_melds() {
    let ledger = vec![to(CardId::new(1, 1), ContainerId::table_temp())];
    assert!(!ledger_lays_down(&ledger, 0));
    let ledger = vec![
        to(CardId::new(1, 1), ContainerId::table_temp()),
        to(CardId::new(1, 1), ContainerId::player_run(1, 0)),
    ];
    assert!(!ledger_lays_down(&ledger, 0));
    assert!(ledger_lays_down(&ledger, 1));
    assert!(!ledger_lays_down(&[], 0));

    let (mut state, all) = table();
    assert_eq!(execute_move_ledger(&mut state, Vec::new()), Ok(()));
    assert_eq!(state.players_laid_down, vec![false, false]);
    state.current_player = 1;
    let ledger = vec![to(all[1], ContainerId::player_run(1, 0))];
    assert_eq!(execute_move_ledger(&mut state, ledger), Ok(()));
    assert_eq!(state.players_laid_down, vec![false, true]);
}

#[test]
fn hand_is_over_when_the_player_at_turn_holds_nothing() {
    let (mut state, all) = table();
    assert!(!is_hand_over(&state));
    for at in 0..10 {
        state.card_registry.move_card(all[2 * at], ContainerId::discard()).unwrap();
    }
    assert!(is_hand_over(&state));
    state.current_player = 1;
    assert!(!is_hand_over(&state));
}

#[test]
fn turn_passes_to_the_next_seat() {
    let (mut state, all) = table();
    execute_draw(&mut state, DrawDecision::Deck).unwrap();
    let turn = TurnResult { move_ledger: Vec::new(), discard: all[107] };
    assert_eq!(finish_turn(&mut state, turn), Ok(TurnOutcome::Continue));
    assert_eq!(state.current_player, 1);
    assert_eq!(state.players_laid_down, vec![false, false]);
    assert_eq!(
        state.card_registry.get_cards_in_container(&ContainerId::discard()),
        vec![all[20], all[107]]
    );

    execute_draw(&mut state, DrawDecision::Discard).unwrap();
    let turn = TurnResult { move_ledger: Vec::new(), discard: all[1] };
    assert_eq!(finish_turn(&mut state, turn), Ok(TurnOutcome::Continue));
    assert_eq!(state.current_player, 0);
    assert_eq!(
        state.card_registry.get_cards_in_container(&ContainerId::discard()),
        vec![all[20], all[1]]
    );
    assert_eq!(state.card_registry.len(), 108);
}

#[test]
fn committed_turn_leaves_scratch_empty_and_notes_the_lay_down() {
    let (mut state, all) = table();
    execute_draw(&mut state, DrawDecision::Deck).unwrap();
    let scratch = ContainerId::table_temp();
    let first = ContainerId::player_group(0, 0);
    let second = ContainerId::player_group(0, 1);
    let turn = TurnResult {
        move_ledger: vec![
            to(all[0], scratch),
            to(all[2], scratch),
            to(all[4], scratch),
            to(all[6], scratch),
            to(all[8], scratch),
            to(all[10], scratch),
            to(all[0], first),
            to(all[2], first),
            to(all[4], first),
            to(all[6], second),
            to(all[8], second),
            to(all[10], second),
        ],
        discard: all[12],
    };
    assert_eq!(finish_turn(&mut state, turn), Ok(TurnOutcome::Continue));
    assert!(state.card_registry.get_cards_in_container(&scratch).is_empty());
    assert_eq!(state.card_registry.get_cards_in_container(&first), vec![all[0], all[2], all[4]]);
    assert_eq!(state.card_registry.get_cards_in_container(&second), vec![all[6], all[8], all[10]]);
    assert_eq!(state.players_laid_down, vec![true, false]);
    assert_eq!(state.current_player, 1);
    assert_eq!(state.card_registry.get_cards_in_container(&ContainerId::player_hand(0)).len(), 4);
    assert_eq!(state.card_registry.len(), 108);
}

#[test]
fn laid_down_player_may_extend_and_rearrange_own_melds() {
    let (mut state, all) = table();
    let first = ContainerId::player_group(0, 0);
    let second = ContainerId::player_run(0, 0);
    let turn = TurnResult {
        move_ledger: vec![to(all[0], first), to(all[2], first), to(all[4], first)],
        discard: all[6],
    };
    assert_eq!(finish_turn(&mut state, turn), Ok(TurnOutcome::Continue));
    state.current_player = 0;
    let turn = TurnResult {
        move_ledger: vec![to(all[8], first), to(all[0], second)],
        discard: all[10],
    };
    assert_eq!(finish_turn(&mut state, turn), Ok(TurnOutcome::Continue));
    assert_eq!(state.card_registry.get_cards_in_container(&first), vec![all[2], all[4], all[8]]);
    assert_eq!(state.card_registry.get_cards_in_container(&second), vec![all[0]]);
    assert_eq!(state.players_laid_down, vec![true, false]);
}

#[test]
fn discard_that_left_the_hand_is_refused_after_the_ledger() {
    let (mut state, all) = table();
    let group = ContainerId::player_group(0, 0);
    let turn = TurnResult { move_ledger: vec![to(all[0], group)], discard: all[0] };
    assert_eq!(finish_turn(&mut state, turn), Err(GameError::InvalidDiscard(all[0])));
    assert_eq!(state.card_registry.get_cards_in_container(&group), vec![all[0]]);
    assert_eq!(state.current_player, 0);
    assert_eq!(state.players_laid_down, vec![true, false]);

    let (mut state, all) = table();
    let turn = TurnResult { move_ledger: Vec::new(), discard: all[1] };
    assert_eq!(finish_turn(&mut state, turn), Err(GameError::InvalidDiscard(all[1])));
    assert_eq!(state.current_player, 0);
}

#[test]
fn emptying_the_hand_ends_the_round() {
    let (mut state, all) = table();
    execute_draw(&mut state, DrawDecision::Deck).unwrap();
    let group = ContainerId::player_group(0, 0);
    let ledger: Vec<CardMove> = (0..10).map(|at| to(all[2 * at], group)).collect();
    let turn = TurnResult { move_ledger: ledger, discard: all[107] };
    assert_eq!(finish_turn(&mut state, turn), Ok(TurnOutcome::HandEnd));
    assert_eq!(state.current_player, 0);
    assert!(state.card_registry.get_cards_in_container(&ContainerId::player_hand(0)).is_empty());
    assert_eq!(state.card_registry.get_cards_in_container(&group).len(), 10);
    assert!(is_hand_over(&state));
}
