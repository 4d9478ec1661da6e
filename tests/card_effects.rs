use dominion::arena::Arena;
use dominion::card::CardKind;
use dominion::effect::{
    bureaucrat_reveal, cellar_discard, chapel_trash, harbinger_topdeck, militia_discard,
    moneylender_trash, poacher_check, poacher_discard, throne_room_replay, vassal_play,
    vassal_reveal, workshop_gain, CardActionQueue, Effect, Outcome,
};
use dominion::kingdom::KingdomSet;
use dominion::location::CardVec;
use dominion::types::Error;

fn setup_arena() -> Arena {
    Arena::new(KingdomSet::FirstGame, 2)
}

fn unresolved(e: Effect) -> Result<Outcome, Error> {
    Err(Error::UnresolvedActionEffect(e.description()))
}

fn empty_pile(arena: &mut Arena, card: CardKind) {
    let i = arena.supply.find(card).unwrap();
    arena.supply.set_entry_count(i, 0).unwrap();
}

// Bureaucrat

#[test]
fn reveal_multiple_cards() {
    let mut arena = setup_arena();
    let player_id = arena.next_player_id();

    let cards = [CardKind::Copper, CardKind::Copper];

    assert_eq!(
        bureaucrat_reveal(&mut arena, player_id, &cards),
        unresolved(Effect::BureaucratReveal)
    );
}

#[test]
fn reveal_nothing_but_could_have() {
    let mut arena = setup_arena();
    let player_id = arena.next_player_id();

    let cards = [];

    arena.players[player_id].hand.0.push(CardKind::Estate);

    assert!(CardKind::Estate.is_victory());
    assert_eq!(
        bureaucrat_reveal(&mut arena, player_id, &cards),
        unresolved(Effect::BureaucratReveal)
    );
}

#[test]
fn reveal_nothing_and_could_not_have() {
    let mut arena = setup_arena();
    let player_id = arena.next_player_id();
    let cards = [];

    arena.players[player_id].hand.0.clear();

    assert_eq!(
        bureaucrat_reveal(&mut arena, player_id, &cards),
        Ok(Outcome::Nothing)
    );
}

#[test]
fn reveal_non_victory_card() {
    let mut arena = setup_arena();
    let player_id = arena.next_player_id();

    let cards = [CardKind::Silver];

    arena.players[player_id].hand.0.push(cards[0]);

    assert!(!cards[0].is_victory());
    assert_eq!(
        bureaucrat_reveal(&mut arena, player_id, &cards),
        unresolved(Effect::BureaucratReveal)
    );
}

#[test]
fn reveal_valid_card() {
    let mut arena = setup_arena();
    let player_id = arena.next_player_id();

    let cards = [CardKind::Duchy];

    arena.players[player_id].hand.0.push(cards[0]);

    println!("{:#?}", arena.player(player_id).unwrap());
    assert!(cards[0].is_victory());
    assert_ne!(
        arena.player(player_id).unwrap().draw_pile.0.last().unwrap(),
        &cards[0]
    );
    assert_eq!(
        bureaucrat_reveal(&mut arena, player_id, &cards),
        Ok(Outcome::Nothing)
    );
    println!("{:#?}", arena.player(player_id).unwrap());
    assert_eq!(
        arena.player(player_id).unwrap().draw_pile.0.last().unwrap(),
        &cards[0]
    );
}

// Cellar

#[test]
fn discard_0_cards() {
    let mut arena = setup_arena();
    let player_id = arena.current_player_id();

    let hand_size = arena.current_player().hand.len();
    let cards = [];

    assert_eq!(cellar_discard(&mut arena, player_id, &cards), Ok(Outcome::Nothing));
    assert_eq!(arena.current_player().hand.len(), hand_size);
    assert_eq!(arena.current_player().discard_pile.len(), cards.len());
}

#[test]
fn discard_1_card() {
    let mut arena = setup_arena();
    let player_id = arena.current_player_id();

    let hand = &arena.current_player().hand;
    let hand_size = hand.len();
    let cards = [hand.0[0]];

    assert_eq!(cellar_discard(&mut arena, player_id, &cards), Ok(Outcome::Nothing));
    assert_eq!(arena.current_player().hand.len(), hand_size);
    assert_eq!(arena.current_player().discard_pile.len(), cards.len());
}

#[test]
fn discard_1_card_empty_deck_and_discard() {
    let mut arena = setup_arena();
    let player_id = arena.current_player_id();

    let hand = &arena.current_player().hand;
    let hand_size = hand.len();
    let cards = [hand.0[0]];

    let player = &mut arena.players[player_id];
    player.draw_pile.0.clear();
    player.discard_pile.0.clear();

    assert_eq!(cellar_discard(&mut arena, player_id, &cards), Ok(Outcome::Nothing));
    assert_eq!(arena.current_player().hand.len(), hand_size);
    assert_eq!(arena.current_player().discard_pile.len(), 0);
}

#[test]
fn discard_card_not_in_hand() {
    let mut arena = setup_arena();
    let player_id = arena.current_player_id();

    let hand = &arena.current_player().hand;
    let hand_size = hand.len();
    let cards = [CardKind::Gold];

    assert!(!hand.0.contains(&cards[0]));
    assert_eq!(
        cellar_discard(&mut arena, player_id, &cards),
        unresolved(Effect::CellarDiscard)
    );
    assert_eq!(arena.current_player().hand.len(), hand_size);
    assert_eq!(arena.current_player().discard_pile.len(), 0);
}

#[test]
fn discard_5_cards() {
    let mut arena = setup_arena();
    let player_id = arena.current_player_id();

    let hand = &arena.current_player().hand;
    let hand_size = hand.len();
    let cards = [hand.0[0], hand.0[1], hand.0[2], hand.0[3], hand.0[4]];

    assert_eq!(cellar_discard(&mut arena, player_id, &cards), Ok(Outcome::Nothing));
    assert_eq!(arena.current_player().hand.len(), hand_size);
    assert_eq!(arena.current_player().discard_pile.len(), cards.len());
}

#[test]
fn discard_more_cards_than_in_hand() {
    let mut arena = setup_arena();
    let player_id = arena.current_player_id();

    let hand = &arena.current_player().hand;
    let hand_size = hand.len();
    let cards = [hand.0[0], hand.0[1], hand.0[2], hand.0[3], hand.0[4], hand.0[4]];

    assert_eq!(
        cellar_discard(&mut arena, player_id, &cards),
        unresolved(Effect::CellarDiscard)
    );
    assert_eq!(arena.current_player().hand.len(), hand_size);
    assert_eq!(arena.current_player().discard_pile.len(), 0);
}

// Chapel

#[test]
fn trash_0_cards() {
    let mut arena = setup_arena();
    let player_id = arena.current_player_id();

    let hand_size = arena.current_player().hand.len();
    let cards = [];

    assert_eq!(chapel_trash(&mut arena, player_id, &cards), Ok(Outcome::Nothing));
    assert_eq!(arena.current_player().hand.len(), hand_size);
    assert_eq!(arena.trash.len(), cards.len());
}

#[test]
fn trash_1_card() {
    let mut arena = setup_arena();
    let player_id = arena.current_player_id();

    let hand = &arena.current_player().hand;
    let hand_size = hand.len();
    let cards = [hand.0[0]];

    assert_eq!(chapel_trash(&mut arena, player_id, &cards), Ok(Outcome::Nothing));
    assert_eq!(arena.current_player().hand.len(), hand_size - cards.len());
    assert_eq!(arena.trash.len(), cards.len());
}

#[test]
fn trash_card_not_in_hand() {
    let mut arena = setup_arena();
    let player_id = arena.current_player_id();

    let hand = &arena.current_player().hand;
    let hand_size = hand.len();
    let cards = [CardKind::Gold];

    assert!(!hand.0.contains(&cards[0]));
    assert_eq!(
        chapel_trash(&mut arena, player_id, &cards),
        unresolved(Effect::ChapelTrash)
    );
    assert_eq!(arena.current_player().hand.len(), hand_size);
    assert_eq!(arena.trash.len(), 0);
}

#[test]
fn trash_4_cards() {
    let mut arena = setup_arena();
    let player_id = arena.current_player_id();

    let hand = &arena.current_player().hand;
    let hand_size = hand.len();
    let cards = [hand.0[0], hand.0[1], hand.0[2], hand.0[3]];

    assert_eq!(chapel_trash(&mut arena, player_id, &cards), Ok(Outcome::Nothing));
    assert_eq!(arena.current_player().hand.len(), hand_size - cards.len());
    assert_eq!(arena.trash.len(), cards.len());
}

#[test]
fn trash_5_cards() {
    let mut arena = setup_arena();
    let player_id = arena.current_player_id();

    let hand = &arena.current_player().hand;
    let hand_size = hand.len();
    let cards = [hand.0[0], hand.0[1], hand.0[2], hand.0[3], hand.0[4]];

    assert_eq!(
        chapel_trash(&mut arena, player_id, &cards),
        unresolved(Effect::ChapelTrash)
    );
    assert_eq!(arena.current_player().hand.len(), hand_size);
    assert_eq!(arena.trash.len(), 0);
}

// Harbinger

#[test]
fn empty_discard_pile() {
    let mut arena = setup_arena();
    let player_id = arena.current_player_id();

    let cards = [];

    assert!(arena.current_player().discard_pile.is_empty());
    assert_eq!(harbinger_topdeck(&mut arena, player_id, &cards), Ok(Outcome::Nothing));
}

#[test]
fn choose_not_to_move_card() {
    let mut arena = setup_arena();
    let player_id = arena.current_player_id();

    let cards = [];

    arena.players[player_id].discard_pile.0.push(CardKind::Gold);

    assert_eq!(harbinger_topdeck(&mut arena, player_id, &cards), Ok(Outcome::Nothing));
}

#[test]
fn choose_to_move_card() {
    let mut arena = setup_arena();
    let player_id = arena.current_player_id();

    let cards = [CardKind::Gold];

    arena.players[player_id].discard_pile.0.push(cards[0]);

    assert_ne!(arena.current_player().draw_pile.0.last().unwrap(), &cards[0]);
    assert_eq!(harbinger_topdeck(&mut arena, player_id, &cards), Ok(Outcome::Nothing));
    assert_eq!(arena.current_player().draw_pile.0.last().unwrap(), &cards[0]);
    assert!(arena.current_player().discard_pile.is_empty());
}

#[test]
fn choose_card_not_in_discard_pile() {
    let mut arena = setup_arena();
    let player_id = arena.current_player_id();

    let cards = [CardKind::Silver];

    arena.players[player_id].discard_pile.0.push(CardKind::Gold);

    assert!(!arena.current_player().discard_pile.0.contains(&cards[0]));
    assert_eq!(
        harbinger_topdeck(&mut arena, player_id, &cards),
        unresolved(Effect::HarbingerTopdeck)
    );
    assert_eq!(arena.current_player().discard_pile.len(), 1);
}

// Militia

fn shrink_hand(arena: &mut Arena, player_id: usize, size: usize) {
    while arena.player(player_id).unwrap().hand.len() > size {
        arena.players[player_id].hand.0.pop();
    }
}

#[test]
fn other_player_0_cards_in_hand_discard_0() {
    let mut arena = setup_arena();
    let player_id = arena.next_player_id();

    arena.players[player_id].hand.0.clear();
    let cards = [];

    assert_eq!(militia_discard(&mut arena, player_id, &cards), Ok(Outcome::Nothing));
}

#[test]
fn other_player_1_card_in_hand_discard_0() {
    let mut arena = setup_arena();
    let player_id = arena.next_player_id();

    shrink_hand(&mut arena, player_id, 1);
    let cards = [];

    assert_eq!(militia_discard(&mut arena, player_id, &cards), Ok(Outcome::Nothing));
}

#[test]
fn other_player_2_cards_in_hand_discard_0() {
    let mut arena = setup_arena();
    let player_id = arena.next_player_id();

    shrink_hand(&mut arena, player_id, 2);
    let cards = [];

    assert_eq!(militia_discard(&mut arena, player_id, &cards), Ok(Outcome::Nothing));
}

#[test]
fn other_player_3_cards_in_hand_discard_0() {
    let mut arena = setup_arena();
    let player_id = arena.next_player_id();

    shrink_hand(&mut arena, player_id, 3);
    let cards = [];

    assert_eq!(militia_discard(&mut arena, player_id, &cards), Ok(Outcome::Nothing));
}

#[test]
fn other_player_4_cards_in_hand_discard_1() {
    let mut arena = setup_arena();
    let player_id = arena.next_player_id();

    shrink_hand(&mut arena, player_id, 4);
    let cards = [arena.player(player_id).unwrap().hand.0[0]];

    assert_eq!(militia_discard(&mut arena, player_id, &cards), Ok(Outcome::Nothing));
}

#[test]
fn other_player_4_cards_in_hand_discard_2() {
    let mut arena = setup_arena();
    let player_id = arena.next_player_id();

    shrink_hand(&mut arena, player_id, 4);
    let cards = [
        arena.player(player_id).unwrap().hand.0[0],
        arena.player(player_id).unwrap().hand.0[1],
    ];

    assert_eq!(
        militia_discard(&mut arena, player_id, &cards),
        unresolved(Effect::MilitiaDiscard)
    );
}

#[test]
fn other_player_5_cards_in_hand_discard_2() {
    let mut arena = setup_arena();
    let player_id = arena.next_player_id();

    let cards = [
        arena.player(player_id).unwrap().hand.0[0],
        arena.player(player_id).unwrap().hand.0[1],
    ];

    assert_eq!(arena.player(player_id).unwrap().hand.len(), 5);
    assert_eq!(militia_discard(&mut arena, player_id, &cards), Ok(Outcome::Nothing));
}

#[test]
fn other_player_cards_not_in_hand() {
    let mut arena = setup_arena();
    let player_id = arena.next_player_id();

    let hand = &mut arena.players[player_id].hand.0;
    hand.clear();
    hand.push(CardKind::Copper);
    hand.push(CardKind::Copper);
    hand.push(CardKind::Copper);
    hand.push(CardKind::Copper);
    hand.push(CardKind::Copper);

    let cards = [CardKind::Silver, CardKind::Silver];

    assert_eq!(arena.player(player_id).unwrap().hand.len(), 5);
    assert_eq!(
        militia_discard(&mut arena, player_id, &cards),
        unresolved(Effect::MilitiaDiscard)
    );
}

#[test]
fn other_player_not_enough_copies_in_hand() {
    let mut arena = setup_arena();
    let player_id = arena.next_player_id();

    let hand = &mut arena.players[player_id].hand.0;
    hand.clear();
    hand.push(CardKind::Silver);
    hand.push(CardKind::Copper);
    hand.push(CardKind::Copper);
    hand.push(CardKind::Copper);
    hand.push(CardKind::Copper);

    let cards = [CardKind::Silver, CardKind::Silver];

    assert_eq!(arena.player(player_id).unwrap().hand.len(), 5);
    assert_eq!(
        militia_discard(&mut arena, player_id, &cards),
        unresolved(Effect::MilitiaDiscard)
    );
}

// Moneylender

#[test]
fn trash_nothing() {
    let mut arena = setup_arena();
    let player_id = arena.current_player_id();

    let cards = [];

    assert_eq!(moneylender_trash(&mut arena, player_id, &cards), Ok(Outcome::Nothing));
    assert_eq!(arena.trash, CardVec(vec![]));
}

#[test]
fn trash_non_copper() {
    let mut arena = setup_arena();
    let player_id = arena.current_player_id();

    let cards = [CardKind::Silver];

    arena.players[player_id].hand.0.push(cards[0]);

    assert_eq!(
        moneylender_trash(&mut arena, player_id, &cards),
        unresolved(Effect::MoneylenderTrash)
    );
    assert_eq!(arena.trash, CardVec(vec![]));
}

#[test]
fn trash_copper_but_empty_hand() {
    let mut arena = setup_arena();
    let player_id = arena.current_player_id();

    let cards = [CardKind::Copper];

    arena.players[player_id].hand.0.clear();

    assert_eq!(
        moneylender_trash(&mut arena, player_id, &cards),
        unresolved(Effect::MoneylenderTrash)
    );
    assert_eq!(arena.trash, CardVec(vec![]));
}

#[test]
fn trash_copper() {
    let mut arena = setup_arena();
    let player_id = arena.current_player_id();

    let cards = [CardKind::Copper];

    arena.players[player_id].hand.0.clear();
    arena.players[player_id].hand.0.push(cards[0]);

    assert_eq!(moneylender_trash(&mut arena, player_id, &cards), Ok(Outcome::Nothing));
    assert_eq!(arena.current_player().hand, CardVec(vec![]));
    assert_eq!(arena.trash, CardVec(vec![CardKind::Copper]));
}

#[test]
fn trash_multiple_cards() {
    let mut arena = setup_arena();
    let player_id = arena.current_player_id();

    let cards = [CardKind::Copper, CardKind::Copper];

    assert_eq!(
        moneylender_trash(&mut arena, player_id, &cards),
        unresolved(Effect::MoneylenderTrash)
    );
    assert_eq!(arena.trash, CardVec(vec![]));
}

// Poacher

#[test]
fn check_discard_no_empty_piles() {
    let mut arena = setup_arena();

    assert_eq!(poacher_check(&mut arena), Outcome::Nothing);
}

#[test]
fn check_discard_1_empty_pile() {
    let mut arena = setup_arena();

    empty_pile(&mut arena, CardKind::Silver);

    assert_eq!(poacher_check(&mut arena), Outcome::Effect(Effect::PoacherDiscard));
}

#[test]
fn discard_nothing_no_empty_piles() {
    let mut arena = setup_arena();
    let player_id = arena.current_player_id();
    let cards = [];

    assert_eq!(poacher_discard(&mut arena, player_id, &cards), Ok(Outcome::Nothing));
}

#[test]
fn discard_nothing_1_empty_pile() {
    let mut arena = setup_arena();
    let player_id = arena.current_player_id();
    let cards = [];

    empty_pile(&mut arena, CardKind::Province);

    assert_eq!(
        poacher_discard(&mut arena, player_id, &cards),
        unresolved(Effect::PoacherDiscard)
    );
}

#[test]
fn discard_1_card_no_empty_piles() {
    let mut arena = setup_arena();
    let player_id = arena.current_player_id();

    let cards = [CardKind::Silver];

    arena.players[player_id].hand.0.push(cards[0]);

    assert_eq!(
        poacher_discard(&mut arena, player_id, &cards),
        unresolved(Effect::PoacherDiscard)
    );
}

#[test]
fn discard_1_card_not_in_hand_1_empty_pile() {
    let mut arena = setup_arena();
    let player_id = arena.current_player_id();

    let cards = [CardKind::Silver];

    empty_pile(&mut arena, CardKind::Duchy);
    arena.players[player_id].hand.0.clear();

    assert_eq!(
        poacher_discard(&mut arena, player_id, &cards),
        unresolved(Effect::PoacherDiscard)
    );
}

#[test]
fn discard_1_card_1_empty_pile() {
    let mut arena = setup_arena();
    let player_id = arena.current_player_id();

    let cards = [CardKind::Silver];

    empty_pile(&mut arena, CardKind::Duchy);
    arena.players[player_id].hand.0.clear();
    arena.players[player_id].hand.0.push(cards[0]);

    assert_eq!(poacher_discard(&mut arena, player_id, &cards), Ok(Outcome::Nothing));
    assert_eq!(arena.current_player().hand, CardVec(vec![]));
    assert_eq!(
        arena.current_player().discard_pile,
        CardVec(vec![CardKind::Silver])
    );
}

#[test]
fn discard_nothing_empty_hand_1_empty_pile() {
    let mut arena = setup_arena();
    let player_id = arena.current_player_id();

    let cards = [];

    empty_pile(&mut arena, CardKind::Duchy);
    arena.players[player_id].hand.0.clear();

    assert_eq!(poacher_discard(&mut arena, player_id, &cards), Ok(Outcome::Nothing));
}

// Throne Room

#[test]
fn no_card_selected() {
    let mut arena = setup_arena();
    let player_id = arena.current_player_id();

    let cards = [];

    assert_eq!(throne_room_replay(&mut arena, player_id, &cards), Ok(Outcome::Nothing));
}

#[test]
fn card_not_in_hand() {
    let mut arena = setup_arena();
    let player_id = arena.current_player_id();

    let cards = [CardKind::Militia];

    assert_eq!(
        throne_room_replay(&mut arena, player_id, &cards),
        unresolved(Effect::ThroneRoomReplay)
    );
}

#[test]
fn action_card_not_in_hand() {
    let mut arena = setup_arena();
    let player_id = arena.current_player_id();

    let cards = [CardKind::Militia];

    assert!(cards[0].is_action());

    assert_eq!(
        throne_room_replay(&mut arena, player_id, &cards),
        unresolved(Effect::ThroneRoomReplay)
    );
}

#[test]
fn action_card_in_hand() {
    let mut arena = setup_arena();
    let player_id = arena.current_player_id();

    let cards = [CardKind::Militia];
    arena.players[player_id].hand.0.push(cards[0]);

    assert!(cards[0].is_action());

    assert_eq!(
        throne_room_replay(&mut arena, player_id, &cards),
        Ok(Outcome::Actions({
            let mut actions = CardActionQueue::new();

            actions.add_card(cards[0]);
            actions.add_card(cards[0]);

            actions
        }))
    );
}

#[test]
fn non_action_card_in_hand() {
    let mut arena = setup_arena();
    let player_id = arena.current_player_id();

    let cards = [CardKind::Copper];
    arena.players[player_id].hand.0.push(cards[0]);

    assert!(!cards[0].is_action());

    assert_eq!(
        throne_room_replay(&mut arena, player_id, &cards),
        unresolved(Effect::ThroneRoomReplay)
    );
}

// Vassal

#[test]
fn discard_empty_draw_and_discard_pile() {
    let mut arena = setup_arena();
    let me = arena.current_player_id();

    let player = &mut arena.players[me];
    player.discard_pile.0.clear();
    player.draw_pile.0.clear();

    assert_eq!(vassal_reveal(&mut arena), Outcome::Nothing);
}

#[test]
fn discard_non_empty_draw_discard_pile_non_action() {
    let mut arena = setup_arena();
    let me = arena.current_player_id();

    let player = &mut arena.players[me];
    player.discard_pile.0.clear();
    player.draw_pile.0.clear();
    player.draw_pile.0.push(CardKind::Province);

    assert!(!CardKind::Province.is_action());
    assert_eq!(vassal_reveal(&mut arena), Outcome::Nothing);
}

#[test]
fn discard_non_empty_draw_discard_pile_action() {
    let mut arena = setup_arena();
    let me = arena.current_player_id();

    let player = &mut arena.players[me];
    player.discard_pile.0.clear();
    player.draw_pile.0.clear();
    player.draw_pile.0.push(CardKind::Smithy);

    assert!(CardKind::Smithy.is_action());
    assert_eq!(vassal_reveal(&mut arena), Outcome::Effect(Effect::VassalPlay));
}

fn setup_select() -> Arena {
    let mut arena = setup_arena();
    let me = arena.current_player_id();

    let player = &mut arena.players[me];
    player.draw_pile.0.clear();
    player.discard_pile.0.clear();
    player.discard_pile.0.push(CardKind::Smithy);

    arena
}

#[test]
fn select_choose_to_play_card() {
    let mut arena = setup_select();
    let player_id = arena.current_player_id();

    let cards = [CardKind::Smithy];

    assert_eq!(
        vassal_play(&mut arena, player_id, &cards),
        Ok(Outcome::Actions(CardActionQueue::from_card(cards[0])))
    );
}

#[test]
fn select_choose_not_to_play_card() {
    let mut arena = setup_select();
    let player_id = arena.current_player_id();

    let cards = [];

    assert_eq!(vassal_play(&mut arena, player_id, &cards), Ok(Outcome::Nothing));
}

#[test]
fn select_choose_to_play_wrong_card() {
    let mut arena = setup_select();
    let player_id = arena.current_player_id();

    let cards = [CardKind::Militia];

    assert_eq!(
        vassal_play(&mut arena, player_id, &cards),
        unresolved(Effect::VassalPlay)
    );
}

#[test]
fn select_choose_to_play_wrong_cards() {
    let mut arena = setup_select();
    let player_id = arena.current_player_id();

    let cards = [CardKind::Smithy, CardKind::Smithy];

    assert_eq!(
        vassal_play(&mut arena, player_id, &cards),
        unresolved(Effect::VassalPlay)
    );
}

// Workshop

#[test]
fn gain_valid_card() {
    let mut arena = setup_arena();
    let player_id = arena.current_player_id();

    let cards = [CardKind::Silver];

    assert!(cards[0].cost() <= 4);
    assert_eq!(workshop_gain(&mut arena, player_id, &cards), Ok(Outcome::Nothing));
    assert_eq!(
        arena.current_player().discard_pile,
        CardVec(vec![CardKind::Silver])
    );
}

#[test]
fn gain_card_invalid_cost() {
    let mut arena = setup_arena();
    let player_id = arena.current_player_id();

    let cards = [CardKind::Gold];

    assert!(cards[0].cost() > 4);
    assert_eq!(
        workshop_gain(&mut arena, player_id, &cards),
        unresolved(Effect::WorkshopGain)
    );
    assert_eq!(arena.current_player().discard_pile, CardVec(vec![]));
}

#[test]
fn gain_no_card_with_valid_candidates() {
    let mut arena = setup_arena();
    let player_id = arena.current_player_id();

    let cards = [];

    assert_eq!(
        workshop_gain(&mut arena, player_id, &cards),
        unresolved(Effect::WorkshopGain)
    );
    assert_eq!(arena.current_player().discard_pile, CardVec(vec![]));
}

#[test]
fn gain_no_card_without_valid_candidates() {
    let mut arena = setup_arena();
    let player_id = arena.current_player_id();

    let cards = [];

    let mut i = 0;
    while let Some((card, _)) = arena.supply.get_entry(i) {
        if card.cost() <= 4 {
            arena.supply.set_entry_count(i, 0).unwrap();
        }
        i += 1;
    }

    assert_eq!(workshop_gain(&mut arena, player_id, &cards), Ok(Outcome::Nothing));
    assert_eq!(arena.current_player().discard_pile, CardVec(vec![]));
}

#[test]
fn gain_multiple_cards() {
    let mut arena = setup_arena();
    let player_id = arena.current_player_id();

    let cards = [CardKind::Copper, CardKind::Copper];

    assert_eq!(
        workshop_gain(&mut arena, player_id, &cards),
        unresolved(Effect::WorkshopGain)
    );
    assert_eq!(arena.current_player().discard_pile, CardVec(vec![]));
}
