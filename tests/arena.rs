use dominion::arena::Arena;
use dominion::card::CardKind;
use dominion::kingdom::KingdomSet;
use dominion::location::CardVec;
use dominion::turn::{ActionPhase, BuyPhase, Turn};
use dominion::types::Error;

fn count(arena: &Arena, card: CardKind) -> usize {
    arena.supply.get_count(card).unwrap()
}

#[test]
fn player_valid_index() {
    let arena = Arena::new(KingdomSet::FirstGame, 2);

    let r = arena.player(0);
    assert!(r.is_ok());
    assert_eq!(r.unwrap(), &arena.players[0]);

    let r = arena.player(1);
    assert!(r.is_ok());
    assert_eq!(r.unwrap(), &arena.players[1]);
}

#[test]
fn player_invalid_index() {
    let arena = Arena::new(KingdomSet::FirstGame, 2);

    let r = arena.player(2);
    assert!(r.is_err());
    assert_eq!(r.unwrap_err(), Error::InvalidPlayerId);
}

#[test]
fn end_action_phase() {
    let mut arena = Arena::new(KingdomSet::FirstGame, 2);

    arena.turn = Turn::Action(ActionPhase {
        remaining_actions: 1,
        remaining_buys: 1,
        remaining_copper: 0,
    });

    let r = arena.end_action_phase();

    assert!(r.is_ok());
    assert_eq!(
        arena.turn,
        Turn::Buy(Turn::new().as_action_phase_mut().unwrap().to_buy_phase())
    );
}

#[test]
fn end_buy_phase() {
    let mut arena = Arena::new(KingdomSet::FirstGame, 2);

    arena.turn = Turn::Buy(BuyPhase {
        remaining_buys: 1,
        remaining_copper: 0,
    });

    let r = arena.end_buy_phase();

    assert!(r.is_ok());
    assert_eq!(arena.turn, Turn::new());
    assert_eq!(arena.current_player_id, 1);

    assert_eq!(arena.player(0).unwrap().hand.len(), 5);
    assert_eq!(arena.player(0).unwrap().discard_pile.len(), 5);
    assert_eq!(arena.player(0).unwrap().draw_pile.len(), 0);
}

#[test]
fn arena_buy_card_copper() {
    let mut arena = Arena::new(KingdomSet::FirstGame, 2);

    arena.turn = Turn::Buy(BuyPhase {
        remaining_buys: 1,
        remaining_copper: 0,
    });

    let copper_count = count(&arena, CardKind::Copper);

    let r = arena.buy_card(CardKind::Copper);

    assert!(r.is_ok());
    assert_eq!(
        arena.player(0).unwrap().discard_pile,
        CardVec(vec![CardKind::Copper])
    );
    assert_eq!(count(&arena, CardKind::Copper), copper_count - 1);
    assert_eq!(
        arena.turn,
        Turn::Buy(BuyPhase {
            remaining_buys: 0,
            remaining_copper: 0,
        })
    );
}

#[test]
fn buy_card_market() {
    let mut arena = Arena::new(KingdomSet::FirstGame, 2);

    arena.turn = Turn::Buy(BuyPhase {
        remaining_buys: 1,
        remaining_copper: 5,
    });

    let market_count = count(&arena, CardKind::Market);

    let r = arena.buy_card(CardKind::Market);

    assert!(r.is_ok());
    assert_eq!(
        arena.player(0).unwrap().discard_pile,
        CardVec(vec![CardKind::Market])
    );
    assert_eq!(count(&arena, CardKind::Market), market_count - 1);
    assert_eq!(
        arena.turn,
        Turn::Buy(BuyPhase {
            remaining_buys: 0,
            remaining_copper: 0,
        })
    );
}

#[test]
fn arena_buy_card_no_remaining_buys() {
    let mut arena = Arena::new(KingdomSet::FirstGame, 2);

    arena.turn = Turn::Buy(BuyPhase {
        remaining_buys: 0,
        remaining_copper: 100,
    });

    let r = arena.buy_card(CardKind::Gold);

    assert!(r.is_err());
    assert_eq!(r.unwrap_err(), Error::NoMoreBuys);
    assert!(arena.player(0).unwrap().discard_pile.is_empty());
}

#[test]
fn buy_card_not_enough_copper() {
    let mut arena = Arena::new(KingdomSet::FirstGame, 2);

    arena.turn = Turn::Buy(BuyPhase {
        remaining_buys: 100,
        remaining_copper: 0,
    });

    let r = arena.buy_card(CardKind::Gold);

    assert!(r.is_err());
    assert_eq!(r.unwrap_err(), Error::NotEnoughCopper);
    assert!(arena.player(0).unwrap().discard_pile.is_empty());
}

#[test]
fn buy_card_not_in_kingdom() {
    let mut arena = Arena::new(KingdomSet::FirstGame, 2);

    arena.turn = Turn::Buy(BuyPhase {
        remaining_buys: 1,
        remaining_copper: 100,
    });

    let r = arena.buy_card(CardKind::Witch);

    assert!(r.is_err());
    assert_eq!(r.unwrap_err(), Error::InvalidCard);
    assert!(arena.player(0).unwrap().discard_pile.is_empty());
}

#[test]
fn play_action_not_in_hand() {
    let mut arena = Arena::new(KingdomSet::FirstGame, 2);

    arena.turn = Turn::Action(ActionPhase {
        remaining_actions: 1,
        remaining_buys: 0,
        remaining_copper: 0,
    });

    let r = arena.play_action(CardKind::Market);

    assert!(r.is_err());
    assert_eq!(r.unwrap_err(), Error::InvalidCard);
}

#[test]
fn play_action_smithy_during_action_phase() {
    let mut arena = Arena::new(KingdomSet::FirstGame, 2);

    arena.turn = Turn::Action(ActionPhase {
        remaining_actions: 1,
        remaining_buys: 0,
        remaining_copper: 0,
    });

    arena.players[0].hand.0.clear();
    arena.players[0].hand.0.push(CardKind::Smithy);
    let r = arena.play_action(CardKind::Smithy);

    assert!(r.is_ok());
    assert_eq!(arena.player(0).unwrap().hand.len(), 3);
    assert_eq!(
        arena.turn,
        Turn::Action(ActionPhase {
            remaining_actions: 0,
            remaining_buys: 0,
            remaining_copper: 0
        })
    );
}

#[test]
fn play_action_smithy_during_buy_phase() {
    let mut arena = Arena::new(KingdomSet::FirstGame, 2);

    arena.turn = Turn::Buy(BuyPhase {
        remaining_buys: 1,
        remaining_copper: 0,
    });

    arena.players[0].hand.0.clear();
    arena.players[0].hand.0.push(CardKind::Smithy);
    let r = arena.play_action(CardKind::Smithy);

    assert!(r.is_err());
    assert_eq!(r.unwrap_err(), Error::WrongTurnPhase);
    assert_eq!(arena.player(0).unwrap().hand.len(), 1);
}

#[test]
fn play_treasure_gold_during_action_phase() {
    let mut arena = Arena::new(KingdomSet::FirstGame, 2);

    arena.turn = Turn::Action(ActionPhase {
        remaining_actions: 1,
        remaining_buys: 0,
        remaining_copper: 0,
    });

    arena.players[0].hand.0.clear();
    arena.players[0].hand.0.push(CardKind::Gold);
    let r = arena.play_treasure(CardKind::Gold);

    assert!(r.is_err());
    assert_eq!(r.unwrap_err(), Error::WrongTurnPhase);
    assert_eq!(arena.player(0).unwrap().hand.len(), 1);
}

#[test]
fn play_treasuse_gold_during_buy_phase() {
    let mut arena = Arena::new(KingdomSet::FirstGame, 2);

    arena.turn = Turn::Buy(BuyPhase {
        remaining_buys: 1,
        remaining_copper: 0,
    });

    arena.players[0].hand.0.clear();
    arena.players[0].hand.0.push(CardKind::Gold);
    let r = arena.play_treasure(CardKind::Gold);

    assert!(r.is_ok());
    assert_eq!(arena.player(0).unwrap().hand.len(), 0);
    assert_eq!(
        arena.turn,
        Turn::Buy(BuyPhase {
            remaining_buys: 1,
            remaining_copper: 3
        })
    );
}

// The rules of buying and playing, checked through the arena on a fresh game.

#[test]
fn player_buy_card_copper() {
    let mut arena = Arena::new(KingdomSet::FirstGame, 2);
    arena.turn = Turn::Buy(BuyPhase {
        remaining_buys: 1,
        remaining_copper: 0,
    });

    let r = arena.buy_card(CardKind::Copper);

    assert!(r.is_ok());
    assert_eq!(arena.players[0].discard_pile.0[0], CardKind::Copper);
}

#[test]
fn player_buy_card_no_remaining_buys() {
    let mut arena = Arena::new(KingdomSet::FirstGame, 2);
    let c = CardKind::Gold;
    arena.turn = Turn::Buy(BuyPhase {
        remaining_buys: 0,
        remaining_copper: c.cost() as u32,
    });

    let r = arena.buy_card(c);

    assert!(r.is_err());
    assert_eq!(r.unwrap_err(), Error::NoMoreBuys);
    assert!(arena.players[0].discard_pile.is_empty());
}

#[test]
fn buy_card_not_enough_wealth() {
    let mut arena = Arena::new(KingdomSet::FirstGame, 2);
    arena.turn = Turn::Buy(BuyPhase {
        remaining_buys: 1,
        remaining_copper: 0,
    });

    let r = arena.buy_card(CardKind::Gold);

    assert!(r.is_err());
    assert_eq!(r.unwrap_err(), Error::NotEnoughCopper);
    assert!(arena.players[0].discard_pile.is_empty());
}

#[test]
fn play_card_smithy_during_action_phase() {
    let mut arena = Arena::new(KingdomSet::FirstGame, 2);
    arena.turn = Turn::Action(ActionPhase {
        remaining_actions: 1,
        remaining_buys: 0,
        remaining_copper: 0,
    });
    arena.players[0].hand.0.clear();
    arena.players[0].hand.0.push(CardKind::Smithy);

    let r = arena.play_card(CardKind::Smithy);

    assert!(r.is_ok());
    assert_eq!(arena.players[0].hand.len(), 3);
    assert_eq!(
        arena.turn,
        Turn::Action(ActionPhase {
            remaining_actions: 0,
            remaining_buys: 0,
            remaining_copper: 0
        })
    );
}

#[test]
fn play_card_smithy_during_buy_phase() {
    let mut arena = Arena::new(KingdomSet::FirstGame, 2);
    arena.turn = Turn::Buy(BuyPhase {
        remaining_buys: 1,
        remaining_copper: 0,
    });
    arena.players[0].hand.0.clear();
    arena.players[0].hand.0.push(CardKind::Smithy);

    let r = arena.play_action(CardKind::Smithy);

    assert!(r.is_err());
    assert_eq!(arena.players[0].hand.len(), 1);
    assert_eq!(r.unwrap_err(), Error::WrongTurnPhase);
}

#[test]
fn play_card_gold_during_action_phase() {
    let mut arena = Arena::new(KingdomSet::FirstGame, 2);
    arena.turn = Turn::Action(ActionPhase {
        remaining_actions: 1,
        remaining_buys: 0,
        remaining_copper: 0,
    });
    arena.players[0].hand.0.clear();
    arena.players[0].hand.0.push(CardKind::Gold);

    let r = arena.play_treasure(CardKind::Gold);

    assert!(r.is_err());
    assert_eq!(arena.players[0].hand.len(), 1);
    assert_eq!(r.unwrap_err(), Error::WrongTurnPhase);
}

#[test]
fn play_card_gold_during_buy_phase() {
    let mut arena = Arena::new(KingdomSet::FirstGame, 2);
    arena.turn = Turn::Buy(BuyPhase {
        remaining_buys: 1,
        remaining_copper: 0,
    });
    arena.players[0].hand.0.clear();
    arena.players[0].hand.0.push(CardKind::Gold);

    let r = arena.play_card(CardKind::Gold);

    assert!(r.is_ok());
    assert_eq!(arena.players[0].hand.len(), 0);
    assert_eq!(
        arena.turn,
        Turn::Buy(BuyPhase {
            remaining_buys: 1,
            remaining_copper: 3
        })
    );
}
