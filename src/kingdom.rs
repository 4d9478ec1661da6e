use crate::card::CardKind;
use vstd::prelude::*;

verus! {

/// A named choice of the ten kingdom piles of a game.
#[derive(Copy, Clone, Debug, PartialEq, Eq, Structural)]
pub enum KingdomSet {
    FirstGame,
}

impl KingdomSet {
    pub open spec fn spec_cards(self) -> Seq<CardKind> {
        match self {
            KingdomSet::FirstGame => seq![
                CardKind::Cellar,
                CardKind::Moat,
                CardKind::Village,
                CardKind::Merchant,
                CardKind::Workshop,
                CardKind::Smithy,
                CardKind::Remodel,
                CardKind::Militia,
                CardKind::Market,
                CardKind::Mine,
            ],
        }
    }

    /// The kingdom kinds of the set, in their fixed order.
    pub fn cards(self) -> (r: Vec<CardKind>)
        ensures
            r@ == self.spec_cards(),
    {
        match self {
            KingdomSet::FirstGame => {
                let v = vec![
                    CardKind::Cellar,
                    CardKind::Moat,
                    CardKind::Village,
                    CardKind::Merchant,
                    CardKind::Workshop,
                    CardKind::Smithy,
                    CardKind::Remodel,
                    CardKind::Militia,
                    CardKind::Market,
                    CardKind::Mine,
                ];
                assert(v@ =~= self.spec_cards());
                v
            },
        }
    }
}

} // verus!
