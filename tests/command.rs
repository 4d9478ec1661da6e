use dominion::card::CardKind;
use dominion::command::{Command, ParseCommandError};
use dominion::types::Location;

#[test]
fn parse_view_hand_command() {
    assert_eq!(
        "hand 0".parse::<Command>().unwrap(),
        Command::View(Location::Hand { player_id: 0 })
    );
    assert_eq!(
        "hand 1".parse::<Command>().unwrap(),
        Command::View(Location::Hand { player_id: 1 })
    );
}

#[test]
fn parse_view_hand_command_invalid_player_id() {
    assert_eq!(
        "hand -1".parse::<Command>().unwrap_err(),
        ParseCommandError::InvalidPlayerId
    );
}

#[test]
fn parse_view_supply_command() {
    assert_eq!(
        "supply".parse::<Command>().unwrap(),
        Command::View(Location::Supply)
    );
}

#[test]
fn parse_end_phase_command() {
    assert_eq!("end".parse::<Command>().unwrap(), Command::EndPhase);
}

#[test]
fn parse_play_card_command() {
    assert_eq!(
        "play Copper".parse::<Command>().unwrap(),
        Command::PlayCard(CardKind::Copper)
    );
    assert_eq!(
        "play ThroneRoom".parse::<Command>().unwrap(),
        Command::PlayCard(CardKind::ThroneRoom)
    );
}

#[test]
fn parse_buy_card_command() {
    assert_eq!(
        "buy Gold".parse::<Command>().unwrap(),
        Command::BuyCard(CardKind::Gold)
    );
}

#[test]
fn parse_buy_card_command_undefined_card_kind() {
    assert_eq!(
        "buy Platinum".parse::<Command>().unwrap_err(),
        ParseCommandError::UndefinedCardKind
    );
}

#[test]
fn parse_buy_card_command_unspecified_card_kind() {
    assert_eq!(
        "buy ".parse::<Command>().unwrap_err(),
        ParseCommandError::UnspecifiedCardKind
    );
}

#[test]
fn parse_select_cards_command() {
    assert_eq!(
        "select ".parse::<Command>().unwrap(),
        Command::SelectCards(vec![])
    );
    assert_eq!(
        "select Gold Silver Copper Copper"
            .parse::<Command>()
            .unwrap(),
        Command::SelectCards(vec![
            CardKind::Gold,
            CardKind::Silver,
            CardKind::Copper,
            CardKind::Copper
        ])
    );
}

#[test]
fn parse_empty_line_is_invalid() {
    assert_eq!(
        "   ".parse::<Command>().unwrap_err(),
        ParseCommandError::InvalidCommand
    );
    assert_eq!(
        "jump".parse::<Command>().unwrap_err(),
        ParseCommandError::InvalidCommand
    );
}

#[test]
fn parse_discard_and_plus_sign() {
    assert_eq!(
        "  discard\t+12 ".parse::<Command>().unwrap(),
        Command::View(Location::Discard { player_id: 12 })
    );
    assert_eq!(
        "hand".parse::<Command>().unwrap_err(),
        ParseCommandError::UnspecifiedPlayerId
    );
    assert_eq!(
        "hand 99999999999999999999999".parse::<Command>().unwrap_err(),
        ParseCommandError::InvalidPlayerId
    );
}
