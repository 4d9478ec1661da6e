use dominion::card::CardKind;
use dominion::kingdom::KingdomSet;
use dominion::supply::{kingdom_card_size, Supply};

fn set_count(s: &mut Supply, card: CardKind, count: usize) {
    let i = s.find(card).unwrap();
    s.set_entry_count(i, count).unwrap();
}

#[test]
fn supply_game_not_over_full_supply() {
    let s = Supply::new(&KingdomSet::FirstGame.cards(), 2);

    assert!(!s.is_game_over());
}

#[test]
fn supply_game_over_empty_province_pile() {
    let mut s = Supply::new(&KingdomSet::FirstGame.cards(), 2);
    set_count(&mut s, CardKind::Province, 0);
    assert!(s.is_game_over());
}

#[test]
fn supply_game_not_over_2_empty_piles() {
    let mut s = Supply::new(&KingdomSet::FirstGame.cards(), 2);
    set_count(&mut s, CardKind::Copper, 0);
    set_count(&mut s, CardKind::Cellar, 0);
    assert!(!s.is_game_over());
}

#[test]
fn supply_game_over_3_empty_piles() {
    let mut s = Supply::new(&KingdomSet::FirstGame.cards(), 2);
    set_count(&mut s, CardKind::Copper, 0);
    set_count(&mut s, CardKind::Cellar, 0);
    set_count(&mut s, CardKind::Militia, 0);
    assert!(s.is_game_over());
}

#[test]
fn supply_test_kingdom_card_size_regular_card() {
    let regular_card = CardKind::Cellar;
    assert!(!regular_card.is_victory());

    for num_players in 2..5 {
        assert_eq!(kingdom_card_size(regular_card, num_players), 10);
    }
}

#[test]
fn supply_test_kingdom_card_size_victory_card() {
    let victory_card = CardKind::Estate;
    assert!(victory_card.is_victory());

    assert_eq!(kingdom_card_size(victory_card, 2), 8);
    assert_eq!(kingdom_card_size(victory_card, 3), 12);
    assert_eq!(kingdom_card_size(victory_card, 4), 12);
}
