use crate::types::Error;
use vstd::prelude::*;

verus! {

/// What the active player may still do in the action phase.
#[derive(Copy, Clone, Debug, PartialEq, Eq, Structural)]
pub struct ActionPhase {
    pub remaining_actions: u32,
    pub remaining_buys: u32,
    pub remaining_copper: u32,
}

/// What the active player may still do in the buy phase.
#[derive(Copy, Clone, Debug, PartialEq, Eq, Structural)]
pub struct BuyPhase {
    pub remaining_buys: u32,
    pub remaining_copper: u32,
}

/// The phase of the active player's turn, with its counters.
#[derive(Copy, Clone, Debug, PartialEq, Eq, Structural)]
pub enum Turn {
    Action(ActionPhase),
    Buy(BuyPhase),
}

/// The state a turn starts in: one action, one buy, no resource.
pub open spec fn initial_turn() -> Turn {
    Turn::Action(ActionPhase { remaining_actions: 1, remaining_buys: 1, remaining_copper: 0 })
}

impl Default for Turn {
    fn default() -> (r: Turn)
        ensures
            r == initial_turn(),
    {
        Turn::new()
    }
}

impl Turn {
    pub fn new() -> (r: Turn)
        ensures
            r == initial_turn(),
    {
        Turn::Action(ActionPhase { remaining_actions: 1, remaining_buys: 1, remaining_copper: 0 })
    }

    /// The action-phase counters, or `WrongTurnPhase` in the buy phase.
    pub fn as_action_phase_mut(&mut self) -> (r: Result<&mut ActionPhase, Error>)
        ensures
            *old(self) is Action <==> r is Ok,
            r is Ok ==> *r->Ok_0 == (*old(self))->Action_0 && *final(self) == Turn::Action(
                *final(r->Ok_0),
            ),
            r is Err ==> r == Err::<&mut ActionPhase, Error>(Error::WrongTurnPhase) && *final(self)
                == *old(self),
    {
        match self {
            Turn::Action(a) => Ok(a),
            _ => Err(Error::WrongTurnPhase),
        }
    }

    /// The buy-phase counters, or `WrongTurnPhase` in the action phase.
    pub fn as_buy_phase_mut(&mut self) -> (r: Result<&mut BuyPhase, Error>)
        ensures
            *old(self) is Buy <==> r is Ok,
            r is Ok ==> *r->Ok_0 == (*old(self))->Buy_0 && *final(self) == Turn::Buy(
                *final(r->Ok_0),
            ),
            r is Err ==> r == Err::<&mut BuyPhase, Error>(Error::WrongTurnPhase) && *final(self)
                == *old(self),
    {
        match self {
            Turn::Buy(b) => Ok(b),
            _ => Err(Error::WrongTurnPhase),
        }
    }
}

impl ActionPhase {
    pub open spec fn to_buy_phase_spec(self) -> BuyPhase {
        BuyPhase { remaining_buys: self.remaining_buys, remaining_copper: self.remaining_copper }
    }

    /// The buy phase that follows: buys and resource carry over.
    pub fn to_buy_phase(self) -> (r: BuyPhase)
        ensures
            r == self.to_buy_phase_spec(),
    {
        BuyPhase { remaining_buys: self.remaining_buys, remaining_copper: self.remaining_copper }
    }
}

} // verus!
