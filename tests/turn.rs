use dominion::turn::{ActionPhase, BuyPhase, Turn};

#[test]
fn new_action_turn() {
    let turn = Turn::new();

    assert_eq!(
        turn,
        Turn::Action(ActionPhase {
            remaining_actions: 1,
            remaining_buys: 1,
            remaining_copper: 0,
        })
    );
}

#[test]
fn convert_action_to_buy() {
    let turn = Turn::new()
        .as_action_phase_mut()
        .unwrap()
        .to_owned()
        .to_buy_phase();

    assert_eq!(
        turn,
        BuyPhase {
            remaining_buys: 1,
            remaining_copper: 0
        }
    );
}
