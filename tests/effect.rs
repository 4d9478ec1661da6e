use dominion::arena::Arena;
use dominion::card::CardKind;
use dominion::effect::{resolve, CardActionQueue};
use dominion::kingdom::KingdomSet;
use dominion::turn::{ActionPhase, Turn};
use dominion::types::{Error, Location};

fn setup_arena_actions() -> Arena {
    Arena::new(KingdomSet::FirstGame, 2)
}

#[test]
fn effect_empty_stack_is_resolved() {
    let stacks = CardActionQueue::new();
    assert!(stacks.is_resolved());
}

#[test]
fn effect_resolve_market_stack() {
    let mut arena = setup_arena_actions();
    arena.actions.add_card(CardKind::Market);

    let r = resolve(&mut arena, 0, None);

    assert_eq!(r, Ok(()));
    assert!(arena.actions.is_resolved());

    // Market is never played so no resources are used.
    assert_eq!(
        arena.turn(),
        Turn::Action(ActionPhase {
            remaining_actions: 2,
            remaining_buys: 2,
            remaining_copper: 1,
        })
    );
}

#[test]
fn effect_resolve_militia_stack() {
    let mut arena = setup_arena_actions();
    arena.actions.add_card(CardKind::Militia);

    let r = resolve(&mut arena, 0, None);

    // Action effect must still be resolved after 'no-selection'.
    assert_eq!(
        r,
        Err(Error::UnresolvedActionEffect(
            "Each other player discards down to 3 cards in their hand."
        ))
    );
    assert!(!arena.actions.is_resolved());

    let discard_cards: Vec<_> = arena
        .view(Location::Hand { player_id: 0 })
        .unwrap()
        .unwrap_ordered()
        .iter()
        .take(2)
        .cloned()
        .collect();
    let r = resolve(&mut arena, 0, Some(&discard_cards));

    // Effect fails to resolve due to incorrect player selecting cards.
    assert_eq!(
        r,
        Err(Error::UnresolvedActionEffect(
            "Each other player discards down to 3 cards in their hand."
        ))
    );
    assert!(!arena.actions.is_resolved());

    let discard_cards: Vec<_> = arena
        .view(Location::Hand { player_id: 1 })
        .unwrap()
        .unwrap_ordered()
        .iter()
        .take(2)
        .cloned()
        .collect();
    let r = resolve(&mut arena, 1, Some(&discard_cards));

    // Effect successfully resolves.
    assert_eq!(r, Ok(()));
    assert!(arena.actions.is_resolved());

    assert_eq!(arena.player(1).unwrap().hand.len(), 3);

    // Militia is never played so no resources are used.
    assert_eq!(
        arena.turn(),
        Turn::Action(ActionPhase {
            remaining_actions: 1,
            remaining_buys: 1,
            remaining_copper: 2,
        })
    );
}

#[test]
fn effect_resolve_throne_room_stack_no_action() {
    let mut arena = setup_arena_actions();
    arena.actions.add_card(CardKind::ThroneRoom);

    let r = resolve(&mut arena, 0, None);

    assert_eq!(
        r,
        Err(Error::UnresolvedActionEffect(
            "You may play an Action card from your hand twice."
        ))
    );
    assert!(!arena.actions.is_resolved());

    let throne_room_action = vec![];
    let r = resolve(&mut arena, 0, Some(&throne_room_action));

    assert_eq!(r, Ok(()));
    assert!(arena.actions.is_resolved());

    assert_eq!(arena.current_player().hand.len(), 5);
    assert_eq!(
        arena.turn(),
        Turn::Action(ActionPhase {
            remaining_actions: 1,
            remaining_buys: 1,
            remaining_copper: 0,
        })
    );
}

#[test]
fn effect_resolve_throne_room_stack_smithy() {
    let mut arena = setup_arena_actions();
    let me = arena.current_player_id();
    arena.players[me].hand.0.push(CardKind::Smithy);

    assert_eq!(arena.current_player().hand.len(), 6);
    assert_eq!(
        arena.turn(),
        Turn::Action(ActionPhase {
            remaining_actions: 1,
            remaining_buys: 1,
            remaining_copper: 0,
        })
    );

    arena.actions.add_card(CardKind::ThroneRoom);
    let throne_room_action = vec![CardKind::Smithy];
    let r = resolve(&mut arena, 0, Some(&throne_room_action));

    assert_eq!(r, Ok(()));
    assert!(arena.actions.is_resolved());

    // There are only 5 cards that can be drawn + 5 in hand.
    assert_eq!(arena.current_player().hand.len(), 10);

    // Throne Room and Smithy are never played normally so no resources are used.
    assert_eq!(
        arena.turn(),
        Turn::Action(ActionPhase {
            remaining_actions: 1,
            remaining_buys: 1,
            remaining_copper: 0,
        })
    );
}

#[test]
fn effect_resolve_throne_room_stack_militia() {
    let mut arena = setup_arena_actions();
    let me = arena.current_player_id();
    arena.players[me].hand.0.push(CardKind::Militia);

    assert_eq!(arena.current_player().hand.len(), 6);
    assert_eq!(
        arena.turn(),
        Turn::Action(ActionPhase {
            remaining_actions: 1,
            remaining_buys: 1,
            remaining_copper: 0,
        })
    );

    // The queue stays unresolved: the other player must select cards to discard.
    arena.actions.add_card(CardKind::ThroneRoom);
    let throne_room_action = vec![CardKind::Militia];
    let r = resolve(&mut arena, 0, Some(&throne_room_action));

    assert_eq!(
        r,
        Err(Error::UnresolvedActionEffect(
            "Each other player discards down to 3 cards in their hand."
        ))
    );
    assert!(!arena.actions.is_resolved());

    // A selection only answers the first Militia effect.
    let discard_cards = vec![CardKind::Copper; 2];
    let r = resolve(&mut arena, 1, Some(&discard_cards));

    assert_eq!(
        r,
        Err(Error::UnresolvedActionEffect(
            "Each other player discards down to 3 cards in their hand."
        ))
    );
    assert!(!arena.actions.is_resolved());

    // No need to discard cards on the second Militia effect.
    let discard_cards = vec![];
    let r = resolve(&mut arena, 1, Some(&discard_cards));

    assert_eq!(r, Ok(()));
    assert!(arena.actions.is_resolved());

    // Throne Room and Militia are never played normally so no resources are used.
    assert_eq!(
        arena.turn(),
        Turn::Action(ActionPhase {
            remaining_actions: 1,
            remaining_buys: 1,
            remaining_copper: 4,
        })
    );
}
