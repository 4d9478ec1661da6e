use vstd::prelude::*;

verus! {

/// The identity of a card. Cards of one kind are interchangeable.
#[derive(Copy, Clone, Debug, PartialEq, Eq, Hash, Structural)]
pub enum CardKind {
    Cellar,
    Chapel,
    Moat,
    Harbinger,
    Merchant,
    Vassal,
    Village,
    Workshop,
    Bureaucrat,
    Gardens,
    Militia,
    Moneylender,
    Poacher,
    Remodel,
    Smithy,
    ThroneRoom,
    Bandit,
    CouncilRoom,
    Festival,
    Laboratory,
    Library,
    Market,
    Mine,
    Sentry,
    Witch,
    Artisan,
    Copper,
    Silver,
    Gold,
    Estate,
    Duchy,
    Province,
    Curse,
}

/// What an action card yields when its effect starts to resolve.
#[derive(Copy, Clone, Debug, PartialEq, Eq, Structural)]
pub struct CardResources {
    pub cards: u32,
    pub actions: u32,
    pub buys: u32,
    pub copper: u32,
}

pub open spec fn res(cards: u32, actions: u32, buys: u32, copper: u32) -> CardResources {
    CardResources { cards, actions, buys, copper }
}

impl CardKind {
    pub open spec fn spec_cost(self) -> u8 {
        match self {
            CardKind::Copper | CardKind::Curse => 0,
            CardKind::Cellar | CardKind::Chapel | CardKind::Moat | CardKind::Estate => 2,
            CardKind::Harbinger | CardKind::Merchant | CardKind::Vassal | CardKind::Village
            | CardKind::Workshop | CardKind::Silver => 3,
            CardKind::Bureaucrat | CardKind::Gardens | CardKind::Militia | CardKind::Moneylender
            | CardKind::Poacher | CardKind::Remodel | CardKind::Smithy | CardKind::ThroneRoom => 4,
            CardKind::Bandit | CardKind::CouncilRoom | CardKind::Festival | CardKind::Laboratory
            | CardKind::Library | CardKind::Market | CardKind::Mine | CardKind::Sentry
            | CardKind::Witch | CardKind::Duchy => 5,
            CardKind::Artisan | CardKind::Gold => 6,
            CardKind::Province => 8,
        }
    }

    pub open spec fn spec_is_treasure(self) -> bool {
        self == CardKind::Copper || self == CardKind::Silver || self == CardKind::Gold
    }

    pub open spec fn spec_is_victory(self) -> bool {
        self == CardKind::Estate || self == CardKind::Duchy || self == CardKind::Province
            || self == CardKind::Gardens
    }

    pub open spec fn spec_is_curse(self) -> bool {
        self == CardKind::Curse
    }

    pub open spec fn spec_is_action(self) -> bool {
        !self.spec_is_treasure() && !self.spec_is_victory() && !self.spec_is_curse()
    }

    pub open spec fn spec_is_attack(self) -> bool {
        self == CardKind::Bureaucrat || self == CardKind::Militia || self == CardKind::Bandit
            || self == CardKind::Witch
    }

    pub open spec fn spec_is_reaction(self) -> bool {
        self == CardKind::Moat
    }

    pub open spec fn spec_victory_points(self) -> i32 {
        match self {
            CardKind::Estate => 1,
            CardKind::Duchy => 3,
            CardKind::Province => 6,
            CardKind::Curse => -1i32,
            _ => 0,
        }
    }

    pub open spec fn spec_treasure(self) -> Option<u32> {
        match self {
            CardKind::Copper => Some(1),
            CardKind::Silver => Some(2),
            CardKind::Gold => Some(3),
            _ => None,
        }
    }

    /// The fixed yield of an action card; kinds that yield nothing fixed give all zeros.
    pub open spec fn spec_action(self) -> Option<CardResources> {
        match self {
            CardKind::Cellar => Some(res(0, 1, 0, 0)),
            CardKind::Moat => Some(res(2, 0, 0, 0)),
            CardKind::Harbinger => Some(res(1, 1, 0, 0)),
            CardKind::Merchant => Some(res(1, 1, 0, 0)),
            CardKind::Vassal => Some(res(0, 0, 0, 2)),
            CardKind::Village => Some(res(1, 2, 0, 0)),
            CardKind::Militia => Some(res(0, 0, 0, 2)),
            CardKind::Poacher => Some(res(1, 1, 0, 1)),
            CardKind::Smithy => Some(res(3, 0, 0, 0)),
            CardKind::CouncilRoom => Some(res(4, 0, 1, 0)),
            CardKind::Festival => Some(res(0, 2, 1, 2)),
            CardKind::Laboratory => Some(res(2, 1, 0, 0)),
            CardKind::Market => Some(res(1, 1, 1, 1)),
            CardKind::Sentry => Some(res(1, 1, 0, 0)),
            CardKind::Witch => Some(res(2, 0, 0, 0)),
            _ => if self.spec_is_action() {
                Some(res(0, 0, 0, 0))
            } else {
                None
            },
        }
    }

    /// The price of the card in the supply.
    pub fn cost(&self) -> (r: u8)
        ensures
            r == self.spec_cost(),
    {
        match self {
            CardKind::Copper | CardKind::Curse => 0,
            CardKind::Cellar | CardKind::Chapel | CardKind::Moat | CardKind::Estate => 2,
            CardKind::Harbinger | CardKind::Merchant | CardKind::Vassal | CardKind::Village
            | CardKind::Workshop | CardKind::Silver => 3,
            CardKind::Bureaucrat | CardKind::Gardens | CardKind::Militia | CardKind::Moneylender
            | CardKind::Poacher | CardKind::Remodel | CardKind::Smithy | CardKind::ThroneRoom => 4,
            CardKind::Bandit | CardKind::CouncilRoom | CardKind::Festival | CardKind::Laboratory
            | CardKind::Library | CardKind::Market | CardKind::Mine | CardKind::Sentry
            | CardKind::Witch | CardKind::Duchy => 5,
            CardKind::Artisan | CardKind::Gold => 6,
            CardKind::Province => 8,
        }
    }

    pub fn is_treasure(&self) -> (r: bool)
        ensures
            r == self.spec_is_treasure(),
    {
        matches!(self, CardKind::Copper | CardKind::Silver | CardKind::Gold)
    }

    pub fn is_victory(&self) -> (r: bool)
        ensures
            r == self.spec_is_victory(),
    {
        matches!(self, CardKind::Estate | CardKind::Duchy | CardKind::Province | CardKind::Gardens)
    }

    pub fn is_action(&self) -> (r: bool)
        ensures
            r == self.spec_is_action(),
    {
        !self.is_treasure() && !self.is_victory() && !matches!(self, CardKind::Curse)
    }

    pub fn is_attack(&self) -> (r: bool)
        ensures
            r == self.spec_is_attack(),
    {
        matches!(self, CardKind::Bureaucrat | CardKind::Militia | CardKind::Bandit | CardKind::Witch)
    }

    pub fn is_reaction(&self) -> (r: bool)
        ensures
            r == self.spec_is_reaction(),
    {
        matches!(self, CardKind::Moat)
    }

    /// Victory points the card is worth at the end of the game (negative for a curse).
    pub fn victory_points(&self) -> (r: i32)
        ensures
            r == self.spec_victory_points(),
    {
        match self {
            CardKind::Estate => 1,
            CardKind::Duchy => 3,
            CardKind::Province => 6,
            CardKind::Curse => -1i32,
            _ => 0,
        }
    }

    /// The resource a treasure adds when played; `None` for other kinds.
    pub fn treasure(&self) -> (r: Option<u32>)
        ensures
            r == self.spec_treasure(),
    {
        match self {
            CardKind::Copper => Some(1),
            CardKind::Silver => Some(2),
            CardKind::Gold => Some(3),
            _ => None,
        }
    }

    /// The resource template of an action card; `None` for other kinds.
    pub fn action(&self) -> (r: Option<CardResources>)
        ensures
            r == self.spec_action(),
    {
        let z = CardResources { cards: 0, actions: 0, buys: 0, copper: 0 };
        match self {
            CardKind::Cellar => Some(CardResources { actions: 1, ..z }),
            CardKind::Moat => Some(CardResources { cards: 2, ..z }),
            CardKind::Harbinger => Some(CardResources { cards: 1, actions: 1, ..z }),
            CardKind::Merchant => Some(CardResources { cards: 1, actions: 1, ..z }),
            CardKind::Vassal => Some(CardResources { copper: 2, ..z }),
            CardKind::Village => Some(CardResources { cards: 1, actions: 2, ..z }),
            CardKind::Militia => Some(CardResources { copper: 2, ..z }),
            CardKind::Poacher => Some(CardResources { cards: 1, actions: 1, buys: 0, copper: 1 }),
            CardKind::Smithy => Some(CardResources { cards: 3, ..z }),
            CardKind::CouncilRoom => Some(CardResources { cards: 4, buys: 1, ..z }),
            CardKind::Festival => Some(CardResources { cards: 0, actions: 2, buys: 1, copper: 2 }),
            CardKind::Laboratory => Some(CardResources { cards: 2, actions: 1, ..z }),
            CardKind::Market => Some(CardResources { cards: 1, actions: 1, buys: 1, copper: 1 }),
            CardKind::Sentry => Some(CardResources { cards: 1, actions: 1, ..z }),
            CardKind::Witch => Some(CardResources { cards: 2, ..z }),
            _ => if self.is_action() {
                Some(z)
            } else {
                None
            },
        }
    }
}

} // verus!

verus! {

impl CardKind {
    /// The name of the kind, as written in commands.
    pub open spec fn spec_name(self) -> &'static str {
        match self {
            CardKind::Cellar => "Cellar",
            CardKind::Chapel => "Chapel",
            CardKind::Moat => "Moat",
            CardKind::Harbinger => "Harbinger",
            CardKind::Merchant => "Merchant",
            CardKind::Vassal => "Vassal",
            CardKind::Village => "Village",
            CardKind::Workshop => "Workshop",
            CardKind::Bureaucrat => "Bureaucrat",
            CardKind::Gardens => "Gardens",
            CardKind::Militia => "Militia",
            CardKind::Moneylender => "Moneylender",
            CardKind::Poacher => "Poacher",
            CardKind::Remodel => "Remodel",
            CardKind::Smithy => "Smithy",
            CardKind::ThroneRoom => "ThroneRoom",
            CardKind::Bandit => "Bandit",
            CardKind::CouncilRoom => "CouncilRoom",
            CardKind::Festival => "Festival",
            CardKind::Laboratory => "Laboratory",
            CardKind::Library => "Library",
            CardKind::Market => "Market",
            CardKind::Mine => "Mine",
            CardKind::Sentry => "Sentry",
            CardKind::Witch => "Witch",
            CardKind::Artisan => "Artisan",
            CardKind::Copper => "Copper",
            CardKind::Silver => "Silver",
            CardKind::Gold => "Gold",
            CardKind::Estate => "Estate",
            CardKind::Duchy => "Duchy",
            CardKind::Province => "Province",
            CardKind::Curse => "Curse",
        }
    }

    /// The name of the kind, as written in commands.
    pub fn name(&self) -> (r: &'static str)
        ensures
            r == self.spec_name(),
    {
        match self {
            CardKind::Cellar => "Cellar",
            CardKind::Chapel => "Chapel",
            CardKind::Moat => "Moat",
            CardKind::Harbinger => "Harbinger",
            CardKind::Merchant => "Merchant",
            CardKind::Vassal => "Vassal",
            CardKind::Village => "Village",
            CardKind::Workshop => "Workshop",
            CardKind::Bureaucrat => "Bureaucrat",
            CardKind::Gardens => "Gardens",
            CardKind::Militia => "Militia",
            CardKind::Moneylender => "Moneylender",
            CardKind::Poacher => "Poacher",
            CardKind::Remodel => "Remodel",
            CardKind::Smithy => "Smithy",
            CardKind::ThroneRoom => "ThroneRoom",
            CardKind::Bandit => "Bandit",
            CardKind::CouncilRoom => "CouncilRoom",
            CardKind::Festival => "Festival",
            CardKind::Laboratory => "Laboratory",
            CardKind::Library => "Library",
            CardKind::Market => "Market",
            CardKind::Mine => "Mine",
            CardKind::Sentry => "Sentry",
            CardKind::Witch => "Witch",
            CardKind::Artisan => "Artisan",
            CardKind::Copper => "Copper",
            CardKind::Silver => "Silver",
            CardKind::Gold => "Gold",
            CardKind::Estate => "Estate",
            CardKind::Duchy => "Duchy",
            CardKind::Province => "Province",
            CardKind::Curse => "Curse",
        }
    }
}

/// Every kind, in declaration order.
pub fn all_kinds() -> (r: Vec<CardKind>)
    ensures
        forall|k: CardKind| #[trigger] r@.contains(k),
{
    let r = vec![
        CardKind::Cellar,
        CardKind::Chapel,
        CardKind::Moat,
        CardKind::Harbinger,
        CardKind::Merchant,
        CardKind::Vassal,
        CardKind::Village,
        CardKind::Workshop,
        CardKind::Bureaucrat,
        CardKind::Gardens,
        CardKind::Militia,
        CardKind::Moneylender,
        CardKind::Poacher,
        CardKind::Remodel,
        CardKind::Smithy,
        CardKind::ThroneRoom,
        CardKind::Bandit,
        CardKind::CouncilRoom,
        CardKind::Festival,
        CardKind::Laboratory,
        CardKind::Library,
        CardKind::Market,
        CardKind::Mine,
        CardKind::Sentry,
        CardKind::Witch,
        CardKind::Artisan,
        CardKind::Copper,
        CardKind::Silver,
        CardKind::Gold,
        CardKind::Estate,
        CardKind::Duchy,
        CardKind::Province,
        CardKind::Curse,
    ];
    proof {
        assert forall|k: CardKind| #[trigger] r@.contains(k) by {
            match k {
                CardKind::Cellar => assert(r@[0] == k),
                CardKind::Chapel => assert(r@[1] == k),
                CardKind::Moat => assert(r@[2] == k),
                CardKind::Harbinger => assert(r@[3] == k),
                CardKind::Merchant => assert(r@[4] == k),
                CardKind::Vassal => assert(r@[5] == k),
                CardKind::Village => assert(r@[6] == k),
                CardKind::Workshop => assert(r@[7] == k),
                CardKind::Bureaucrat => assert(r@[8] == k),
                CardKind::Gardens => assert(r@[9] == k),
                CardKind::Militia => assert(r@[10] == k),
                CardKind::Moneylender => assert(r@[11] == k),
                CardKind::Poacher => assert(r@[12] == k),
                CardKind::Remodel => assert(r@[13] == k),
                CardKind::Smithy => assert(r@[14] == k),
                CardKind::ThroneRoom => assert(r@[15] == k),
                CardKind::Bandit => assert(r@[16] == k),
                CardKind::CouncilRoom => assert(r@[17] == k),
                CardKind::Festival => assert(r@[18] == k),
                CardKind::Laboratory => assert(r@[19] == k),
                CardKind::Library => assert(r@[20] == k),
                CardKind::Market => assert(r@[21] == k),
                CardKind::Mine => assert(r@[22] == k),
                CardKind::Sentry => assert(r@[23] == k),
                CardKind::Witch => assert(r@[24] == k),
                CardKind::Artisan => assert(r@[25] == k),
                CardKind::Copper => assert(r@[26] == k),
                CardKind::Silver => assert(r@[27] == k),
                CardKind::Gold => assert(r@[28] == k),
                CardKind::Estate => assert(r@[29] == k),
                CardKind::Duchy => assert(r@[30] == k),
                CardKind::Province => assert(r@[31] == k),
                CardKind::Curse => assert(r@[32] == k),
            }
        }
    }
    r
}

} // verus!
