use crate::card::CardKind;
use vstd::prelude::*;

verus! {

/// Every way an operation of the engine can be refused.
#[derive(Copy, Clone, Debug, PartialEq, Eq)]
pub enum Error {
    InvalidPlayerId,
    InvalidCard,
    InvalidIndex,
    WrongTurnPhase,
    NoMoreActions,
    NoMoreBuys,
    NoMoreCards,
    NotEnoughCopper,
    UnresolvedActionEffect(&'static str),
}

/// A zone of the game: a player's pile, the supply or the trash.
#[derive(Copy, Clone, Debug, PartialEq, Eq, Structural)]
pub enum Location {
    Draw { player_id: usize },
    Discard { player_id: usize },
    Hand { player_id: usize },
    Play { player_id: usize },
    Stage { player_id: usize },
    Supply,
    Trash,
}

/// Which card of a pile an operation means: the top one, the one at a position,
/// or the first one of a kind.
#[derive(Copy, Clone, Debug, PartialEq, Eq, Structural)]
pub enum CardSpecifier {
    Top,
    Index(usize),
    Card(CardKind),
}

/// A copy of what a zone holds: cards in order, or the supply's counted piles.
#[derive(Clone, Debug, PartialEq)]
pub enum LocationView {
    Ordered(Vec<CardKind>),
    Unordered(Vec<(CardKind, usize)>),
}

impl LocationView {
    /// The cards of an ordered view.
    pub fn unwrap_ordered(self) -> (r: Vec<CardKind>)
        requires
            self is Ordered,
        ensures
            r@ == self->Ordered_0@,
    {
        match self {
            LocationView::Ordered(cards) => cards,
            LocationView::Unordered(_) => Vec::new(),
        }
    }

    /// The piles of an unordered view.
    pub fn unwrap_unordered(self) -> (r: Vec<(CardKind, usize)>)
        requires
            self is Unordered,
        ensures
            r@ == self->Unordered_0@,
    {
        match self {
            LocationView::Unordered(piles) => piles,
            LocationView::Ordered(_) => Vec::new(),
        }
    }
}

} // verus!
