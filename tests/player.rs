use dominion::card::CardKind;
use dominion::player::Player;
use rand::rngs::StdRng;
use rand::SeedableRng;

fn rng() -> StdRng {
    StdRng::seed_from_u64(1)
}

#[test]
fn player_test_draw_card_no_shuffle() {
    let mut rng = rng();
    let mut p = Player::new(&mut rng);

    p.draw_pile.0.clear();
    assert!(p.draw_pile.is_empty());

    p.draw_pile.0.push(CardKind::Silver);
    p.draw_pile.0.push(CardKind::Copper);

    p.draw_card(&mut rng);

    assert_eq!(p.draw_pile.0, vec![CardKind::Silver]);
    assert_eq!(p.hand.0, vec![CardKind::Copper]);
}

#[test]
fn player_test_draw_card_shuffle() {
    let mut rng = rng();
    let mut p = Player::new(&mut rng);

    p.draw_pile.0.clear();
    assert!(p.draw_pile.is_empty());

    for _ in 0..5 {
        p.discard_pile.0.push(CardKind::Copper);
    }

    p.draw_card(&mut rng);
    assert_eq!(p.draw_pile.0, vec![CardKind::Copper; 4]);
    assert_eq!(p.hand.0, vec![CardKind::Copper]);
}

#[test]
fn player_test_draw_card_empty_draw_and_discard() {
    let mut rng = rng();
    let mut p = Player::new(&mut rng);

    p.draw_pile.0.clear();
    p.discard_pile.0.clear();

    p.hand.0.push(CardKind::Copper);
    p.hand.0.push(CardKind::Copper);

    p.draw_card(&mut rng);
    assert_eq!(p.draw_pile.0, vec![]);
    assert_eq!(p.discard_pile.0, vec![]);
    assert_eq!(p.hand.0, vec![CardKind::Copper; 2]);
}

#[test]
fn test_cleanup() {
    let mut rng = rng();
    let mut p = Player::new(&mut rng);

    p.draw_pile.0.clear();
    assert!(p.draw_pile.is_empty());

    for _ in 0..5 {
        p.draw_pile.0.push(CardKind::Copper);
    }
    p.play_zone.0.push(CardKind::Silver);
    p.hand.0.push(CardKind::Gold);

    p.cleanup(&mut rng);

    assert!(p.discard_pile.0.iter().any(|&x| x == CardKind::Silver));
    assert!(p.discard_pile.0.iter().any(|&x| x == CardKind::Gold));
    assert_eq!(p.discard_pile.len(), 2);
    assert_eq!(p.hand.0, vec![CardKind::Copper; 5]);
    assert!(p.draw_pile.is_empty());
}

#[test]
fn player_test_card_in_deck() {
    let mut rng = rng();
    let p = Player::new(&mut rng);

    assert!(p.in_deck(CardKind::Copper));
    assert!(!p.in_deck(CardKind::Gold));
}
