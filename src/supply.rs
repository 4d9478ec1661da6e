use crate::card::CardKind;
use crate::location::{count, lemma_count_add, lemma_count_push, CardVec, Location};
use crate::types::Error;
use vstd::prelude::*;

verus! {

/// A pile of the supply: its kind and how many cards are left.
pub type Entry = (CardKind, usize);

/// The seven piles every game has, in their fixed order.
pub open spec fn base_kinds() -> Seq<CardKind> {
    seq![
        CardKind::Copper,
        CardKind::Silver,
        CardKind::Gold,
        CardKind::Estate,
        CardKind::Duchy,
        CardKind::Province,
        CardKind::Curse,
    ]
}

/// Where the province pile stands among the base piles.
pub const PROVINCE_INDEX: usize = 5;

/// Cards of kind `k` over all piles of `s`.
pub open spec fn pile_count(s: Seq<Entry>, k: CardKind) -> nat
    decreases s.len(),
{
    if s.len() == 0 {
        0
    } else {
        pile_count(s.drop_last(), k) + if s.last().0 == k {
            s.last().1 as nat
        } else {
            0nat
        }
    }
}

/// The number of empty piles in `s`.
pub open spec fn empty_piles(s: Seq<Entry>) -> nat
    decreases s.len(),
{
    if s.len() == 0 {
        0
    } else {
        empty_piles(s.drop_last()) + if s.last().1 == 0 {
            1nat
        } else {
            0nat
        }
    }
}

/// No kind has two piles.
pub open spec fn distinct_kinds(s: Seq<Entry>) -> bool {
    forall|i: int, j: int| 0 <= i < j < s.len() ==> s[i].0 != s[j].0
}

/// The position of the pile of kind `k`, or -1.
pub open spec fn pile_index(s: Seq<Entry>, k: CardKind) -> int
    decreases s.len(),
{
    if s.len() == 0 {
        -1
    } else if s.last().0 == k {
        s.len() - 1
    } else {
        pile_index(s.drop_last(), k)
    }
}

pub proof fn lemma_pile_index(s: Seq<Entry>, k: CardKind)
    ensures
        -1 <= pile_index(s, k) < s.len(),
        pile_index(s, k) >= 0 ==> s[pile_index(s, k)].0 == k,
        pile_index(s, k) == -1 <==> forall|i: int| 0 <= i < s.len() ==> s[i].0 != k,
        distinct_kinds(s) && pile_index(s, k) >= 0 ==> pile_count(s, k) == s[pile_index(s, k)].1,
        pile_index(s, k) == -1 ==> pile_count(s, k) == 0,
    decreases s.len(),
{
    if s.len() > 0 {
        let t = s.drop_last();
        lemma_pile_index(t, k);
        if s.last().0 == k {
            if distinct_kinds(s) {
                assert forall|i: int| 0 <= i < t.len() implies t[i].0 != k by {
                    assert(s[i].0 != s[s.len() - 1].0);
                }
            }
        } else {
            assert forall|i: int| 0 <= i < t.len() && t[i].0 == k implies s[i].0 == k by {}
            if pile_index(t, k) == -1 {
                assert forall|i: int| 0 <= i < s.len() implies s[i].0 != k by {
                    if i < t.len() {
                        assert(t[i].0 != k);
                    }
                }
            }
        }
    }
}

pub proof fn lemma_pile_count_update(s: Seq<Entry>, i: int, n: usize, k: CardKind)
    requires
        0 <= i < s.len(),
    ensures
        pile_count(s.update(i, (s[i].0, n)), k) + (if s[i].0 == k {
            s[i].1 as nat
        } else {
            0nat
        }) == pile_count(s, k) + (if s[i].0 == k {
            n as nat
        } else {
            0nat
        }),
        empty_piles(s.update(i, (s[i].0, n))) + (if s[i].1 == 0 {
            1nat
        } else {
            0nat
        }) == empty_piles(s) + (if n == 0 {
            1nat
        } else {
            0nat
        }),
    decreases s.len(),
{
    let u = s.update(i, (s[i].0, n));
    if i == s.len() - 1 {
        assert(u.drop_last() =~= s.drop_last());
    } else {
        lemma_pile_count_update(s.drop_last(), i, n, k);
        assert(u.drop_last() =~= s.drop_last().update(i, (s[i].0, n)));
    }
}

/// The kinds of the piles at the positions `idx`.
pub open spec fn pile_kinds(s: Seq<Entry>, idx: Seq<usize>) -> Seq<CardKind> {
    Seq::new(idx.len(), |j: int| s[idx[j] as int].0)
}

/// Size of a kingdom pile: victory piles follow the player count, others hold ten.
pub open spec fn spec_kingdom_card_size(card: CardKind, num_players: usize) -> usize {
    if card.spec_is_victory() {
        if num_players > 2 {
            12
        } else {
            8
        }
    } else {
        10
    }
}

/// Size of the base pile at `index` of `base_kinds()` for `n` players.
pub open spec fn spec_base_card_size(index: int, n: usize) -> usize {
    if index == 0 {
        (60 - 7 * n) as usize
    } else if index == 1 {
        40
    } else if index == 2 {
        30
    } else if index <= 5 {
        if n > 2 {
            12
        } else {
            8
        }
    } else {
        (10 * (n - 1)) as usize
    }
}

/// Number of cards a kingdom pile starts with.
pub fn kingdom_card_size(card: CardKind, num_players: usize) -> (r: usize)
    ensures
        r == spec_kingdom_card_size(card, num_players),
{
    if card.is_victory() {
        if num_players > 2 {
            12
        } else {
            8
        }
    } else {
        10
    }
}

/// The counted piles that can be bought from: kingdom piles, then base piles.
#[derive(Clone, Debug)]
pub struct Supply {
    pub kingdom_cards: Vec<Entry>,
    pub base_cards: Vec<Entry>,
}

impl Supply {
    /// All piles in their stable order: kingdom piles first.
    pub open spec fn entries(&self) -> Seq<Entry> {
        self.kingdom_cards@ + self.base_cards@
    }

    pub open spec fn wf(&self) -> bool {
        &&& distinct_kinds(self.entries())
        &&& self.entries().len() <= usize::MAX
        &&& self.base_cards@.len() == 7
        &&& self.base_cards@[PROVINCE_INDEX as int].0 == CardKind::Province
    }

    /// Cards of kind `k` left in the supply.
    pub open spec fn count(&self, k: CardKind) -> nat {
        pile_count(self.entries(), k)
    }

    /// The supply stocks a pile of kind `k`.
    pub open spec fn stocks(&self, k: CardKind) -> bool {
        pile_index(self.entries(), k) >= 0
    }

    /// Game over: the province pile is empty, or three piles are.
    pub open spec fn game_over(&self) -> bool {
        self.count(CardKind::Province) == 0 || empty_piles(self.entries()) >= 3
    }

    /// Piles for the given kingdom kinds and the base kinds, sized for `num_players`.
    pub fn new(kingdom_card_ids: &[CardKind], num_players: usize) -> (r: Supply)
        requires
            1 <= num_players <= 8,
            kingdom_card_ids@.len() <= usize::MAX - 7,
            forall|i: int, j: int|
                0 <= i < j < kingdom_card_ids@.len() ==> kingdom_card_ids@[i]
                    != kingdom_card_ids@[j],
            forall|i: int| 0 <= i < kingdom_card_ids@.len() ==> !base_kinds().contains(#[trigger] kingdom_card_ids@[i]),
        ensures
            r.wf(),
            r.kingdom_cards@.len() == kingdom_card_ids@.len(),
            forall|i: int|
                0 <= i < kingdom_card_ids@.len() ==> #[trigger] r.kingdom_cards@[i] == (
                kingdom_card_ids@[i],
                spec_kingdom_card_size(kingdom_card_ids@[i], num_players),
            ),
            forall|i: int|
                0 <= i < 7 ==> #[trigger] r.base_cards@[i] == (
                base_kinds()[i],
                spec_base_card_size(i, num_players),
            ),
    {
        let mut kingdom_cards: Vec<Entry> = Vec::new();
        let mut i: usize = 0;
        while i < kingdom_card_ids.len()
            invariant
                i <= kingdom_card_ids@.len(),
                kingdom_cards@.len() == i,
                forall|j: int|
                    0 <= j < i ==> #[trigger] kingdom_cards@[j] == (
                    kingdom_card_ids@[j],
                    spec_kingdom_card_size(kingdom_card_ids@[j], num_players),
                ),
            decreases kingdom_card_ids@.len() - i,
        {
            let c = kingdom_card_ids[i];
            kingdom_cards.push((c, kingdom_card_size(c, num_players)));
            i = i + 1;
        }
        let n = num_players;
        let small: usize = if n > 2 {
            12
        } else {
            8
        };
        let base_cards: Vec<Entry> = vec![
            (CardKind::Copper, 60 - 7 * n),
            (CardKind::Silver, 40),
            (CardKind::Gold, 30),
            (CardKind::Estate, small),
            (CardKind::Duchy, small),
            (CardKind::Province, small),
            (CardKind::Curse, 10 * (n - 1)),
        ];
        let r = Supply { kingdom_cards, base_cards };
        proof {
            let e = r.entries();
            let kl = kingdom_card_ids@.len();
            assert forall|a: int, b: int| 0 <= a < b < e.len() implies e[a].0 != e[b].0 by {
                if b >= kl && a < kl {
                    assert(base_kinds()[b - kl] == e[b].0);
                    assert(base_kinds().contains(e[b].0));
                    assert(e[a].0 == kingdom_card_ids@[a]);
                }
            }
        }
        r
    }

    /// The pile at position `index` of the stable order, or `None`.
    pub fn get_entry(&self, index: usize) -> (r: Option<Entry>)
        ensures
            r == if index < self.entries().len() {
                Some(self.entries()[index as int])
            } else {
                None::<Entry>
            },
    {
        let n = self.kingdom_cards.len();
        if index < n {
            Some(self.kingdom_cards[index])
        } else if index - n < self.base_cards.len() {
            Some(self.base_cards[index - n])
        } else {
            None
        }
    }

    /// The pile at position `index`, with its count open to change, or `None`.
    pub fn get_entry_mut(&mut self, index: usize) -> (r: Option<(CardKind, &mut usize)>)
        ensures
            index >= old(self).entries().len() ==> r is None && *final(self) == *old(self),
            index < old(self).entries().len() ==> r is Some && (r->0).0 == old(self).entries()[index as int].0
                && *(r->0).1 == old(self).entries()[index as int].1
                && final(self).entries() == old(self).entries().update(
                index as int,
                (old(self).entries()[index as int].0, *final((r->0).1)),
            ),
    {
        let n = self.kingdom_cards.len();
        if index < n {
            let e = &mut self.kingdom_cards[index];
            Some((e.0, &mut e.1))
        } else if index - n < self.base_cards.len() {
            let e = &mut self.base_cards[index - n];
            Some((e.0, &mut e.1))
        } else {
            None
        }
    }

    /// The count of the pile of kind `card`, open to change, or `None`.
    pub fn get_mut(&mut self, card: CardKind) -> (r: Option<&mut usize>)
        requires
            old(self).wf(),
        ensures
            r is Some <==> old(self).stocks(card),
            r is None ==> *final(self) == *old(self),
            r is Some ==> *r->0 == old(self).count(card) && final(self).entries() == old(
                self,
            ).entries().update(pile_index(old(self).entries(), card), (card, *final(r->0))),
    {
        proof {
            lemma_pile_index(self.entries(), card);
        }
        match self.find(card) {
            None => None,
            Some(i) => match self.get_entry_mut(i) {
                Some((_, c)) => Some(c),
                None => None,
            },
        }
    }

    /// A copy of all piles in their stable order.
    pub fn iter(&self) -> (r: Vec<Entry>)
        requires
            self.wf(),
        ensures
            r@ == self.entries(),
    {
        let mut piles: Vec<Entry> = Vec::new();
        let n = self.kingdom_cards.len() + self.base_cards.len();
        let mut i: usize = 0;
        while i < n
            invariant
                n == self.entries().len(),
                i <= n,
                piles@ == self.entries().take(i as int),
            decreases n - i,
        {
            proof {
                assert(self.entries().take(i as int + 1) =~= self.entries().take(i as int).push(
                    self.entries()[i as int],
                ));
            }
            piles.push(self.get_entry(i).unwrap());
            i = i + 1;
        }
        assert(self.entries().take(n as int) =~= self.entries());
        piles
    }

    /// Sets the number of cards left in the pile at `index`; `InvalidIndex` past the end.
    pub fn set_entry_count(&mut self, index: usize, count: usize) -> (r: Result<CardKind, Error>)
        requires
            old(self).wf(),
        ensures
            final(self).wf(),
            index < old(self).entries().len() ==> r == Ok::<CardKind, Error>(
                old(self).entries()[index as int].0,
            ) && final(self).entries() == old(self).entries().update(
                index as int,
                (old(self).entries()[index as int].0, count),
            ),
            index >= old(self).entries().len() ==> r == Err::<CardKind, Error>(Error::InvalidIndex)
                && *final(self) == *old(self),
    {
        let n = self.kingdom_cards.len();
        if index < n {
            let k = self.kingdom_cards[index].0;
            self.kingdom_cards.set(index, (k, count));
            assert(self.entries() =~= old(self).entries().update(index as int, (k, count)));
            Ok(k)
        } else if index - n < self.base_cards.len() {
            let k = self.base_cards[index - n].0;
            self.base_cards.set(index - n, (k, count));
            assert(self.entries() =~= old(self).entries().update(index as int, (k, count)));
            Ok(k)
        } else {
            Err(Error::InvalidIndex)
        }
    }

    /// The position of the pile of kind `card`, or `None`.
    pub fn find(&self, card: CardKind) -> (r: Option<usize>)
        requires
            self.wf(),
        ensures
            r is Some <==> self.stocks(card),
            r is Some ==> r->0 as int == pile_index(self.entries(), card),
    {
        proof {
            lemma_pile_index(self.entries(), card);
        }
        let total = self.kingdom_cards.len() + self.base_cards.len();
        let mut i: usize = 0;
        while i < total
            invariant
                self.wf(),
                total == self.entries().len(),
                i <= total,
                forall|j: int| 0 <= j < i ==> self.entries()[j].0 != card,
            decreases total - i,
        {
            let e = self.get_entry(i).unwrap();
            if e.0 == card {
                proof {
                    let s = self.entries();
                    lemma_pile_index(s, card);
                    assert(s[i as int].0 == card);
                    let p = pile_index(s, card);
                    assert(p >= 0);
                    if p != i {
                        assert(s[p].0 == card);
                        if p < i {
                            assert(s[p].0 != card);
                        } else {
                            assert(s[i as int].0 != s[p].0);
                        }
                    }
                }
                return Some(i);
            }
            i = i + 1;
        }
        None
    }

    /// The same as `find`, then the count of that pile.
    pub fn get_count(&self, card: CardKind) -> (r: Option<usize>)
        requires
            self.wf(),
        ensures
            r is Some <==> self.stocks(card),
            r is Some ==> r->0 == self.count(card),
    {
        proof {
            lemma_pile_index(self.entries(), card);
        }
        match self.find(card) {
            Some(i) => Some(self.get_entry(i).unwrap().1),
            None => None,
        }
    }

    /// Takes one card of kind `card` out of the supply.
    pub fn remove_card(&mut self, card: CardKind) -> (r: Result<CardKind, Error>)
        requires
            old(self).wf(),
        ensures
            final(self).wf(),
            !old(self).stocks(card) ==> r == Err::<CardKind, Error>(Error::InvalidCard),
            old(self).stocks(card) && old(self).count(card) == 0 ==> r == Err::<CardKind, Error>(
                Error::NoMoreCards,
            ),
            old(self).count(card) > 0 ==> r == Ok::<CardKind, Error>(card),
            r is Err ==> *final(self) == *old(self),
            r is Ok ==> forall|k: CardKind| #[trigger] final(self).count(k) + (if k == card {
                1nat
            } else {
                0nat
            }) == old(self).count(k),
            r is Ok ==> empty_piles(final(self).entries()) == empty_piles(old(self).entries()) + (
            if old(self).count(card) == 1 {
                1nat
            } else {
                0nat
            }),
            r is Ok ==> forall|k: CardKind| #[trigger] final(self).stocks(k) == old(self).stocks(k),
    {
        proof {
            lemma_pile_index(self.entries(), card);
        }
        match self.find(card) {
            None => Err(Error::InvalidCard),
            Some(i) => {
                let (k, n) = self.get_entry(i).unwrap();
                if n == 0 {
                    Err(Error::NoMoreCards)
                } else {
                    let ghost s0 = self.entries();
                    let _ = self.set_entry_count(i, n - 1);
                    proof {
                        assert forall|k: CardKind| #[trigger] self.count(k) + (if k == card {
                            1nat
                        } else {
                            0nat
                        }) == old(self).count(k) by {
                            lemma_pile_count_update(s0, i as int, (n - 1) as usize, k);
                        }
                        lemma_pile_count_update(s0, i as int, (n - 1) as usize, card);
                        assert forall|k: CardKind| #[trigger] self.stocks(k) == old(self).stocks(k) by {
                            lemma_pile_index(s0, k);
                            lemma_pile_index(self.entries(), k);
                            if pile_index(s0, k) == -1 {
                                assert forall|j: int| 0 <= j < self.entries().len() implies self.entries()[j].0 != k by {
                                    assert(s0[j].0 != k);
                                }
                            } else {
                                assert(self.entries()[pile_index(s0, k)].0 == k);
                            }
                        }
                    }
                    Ok(k)
                }
            },
        }
    }

    /// Puts one card of kind `card` back on its pile.
    pub fn add_card(&mut self, card: CardKind) -> (r: Result<CardKind, Error>)
        requires
            old(self).wf(),
            old(self).count(card) < usize::MAX,
        ensures
            final(self).wf(),
            r is Ok <==> old(self).stocks(card),
            r is Ok ==> r == Ok::<CardKind, Error>(card),
            r is Err ==> r == Err::<CardKind, Error>(Error::InvalidCard) && *final(self) == *old(self),
            r is Ok ==> forall|k: CardKind| #[trigger] final(self).count(k) == old(self).count(k) + (
            if k == card {
                1nat
            } else {
                0nat
            }),
    {
        proof {
            lemma_pile_index(self.entries(), card);
        }
        match self.find(card) {
            None => Err(Error::InvalidCard),
            Some(i) => {
                let (k, n) = self.get_entry(i).unwrap();
                let ghost s0 = self.entries();
                let _ = self.set_entry_count(i, n + 1);
                proof {
                    assert forall|k: CardKind| #[trigger] self.count(k) == old(self).count(k) + (
                    if k == card {
                        1nat
                    } else {
                        0nat
                    }) by {
                        lemma_pile_count_update(s0, i as int, (n + 1) as usize, k);
                    }
                }
                Ok(k)
            },
        }
    }

    /// Takes one card of kind `card` out of the supply and puts it on top of `other`.
    pub fn move_card(&mut self, other: &mut CardVec, card: CardKind) -> (r: Result<CardKind, Error>)
        requires
            old(self).wf(),
        ensures
            final(self).wf(),
            !old(self).stocks(card) ==> r == Err::<CardKind, Error>(Error::InvalidCard),
            old(self).stocks(card) && old(self).count(card) == 0 ==> r == Err::<CardKind, Error>(
                Error::NoMoreCards,
            ),
            old(self).count(card) > 0 ==> r == Ok::<CardKind, Error>(card),
            r is Err ==> *final(self) == *old(self) && final(other)@ == old(other)@,
            r is Ok ==> final(other)@ == old(other)@.push(card),
            r is Ok ==> forall|k: CardKind| #[trigger] final(self).count(k) + (if k == card {
                1nat
            } else {
                0nat
            }) == old(self).count(k),
            r is Ok ==> forall|k: CardKind| #[trigger] final(self).stocks(k) == old(self).stocks(k),
    {
        let c = self.remove_card(card)?;
        other.add_card(c);
        Ok(c)
    }

    /// The number of empty piles.
    pub fn count_empty(&self) -> (r: usize)
        requires
            self.wf(),
        ensures
            r == empty_piles(self.entries()),
    {
        let total = self.kingdom_cards.len() + self.base_cards.len();
        let mut empty: usize = 0;
        let mut i: usize = 0;
        while i < total
            invariant
                total == self.entries().len(),
                i <= total,
                empty == empty_piles(self.entries().take(i as int)),
                empty <= i,
            decreases total - i,
        {
            proof {
                assert(self.entries().take(i as int + 1).drop_last() =~= self.entries().take(i as int));
            }
            let e = self.get_entry(i).unwrap();
            if e.1 == 0 {
                empty = empty + 1;
            }
            i = i + 1;
        }
        assert(self.entries().take(i as int) =~= self.entries());
        empty
    }

    /// True when some pile costing at most `max_cost` still has cards.
    pub fn any_affordable(&self, max_cost: u8) -> (r: bool)
        requires
            self.wf(),
        ensures
            r == exists|i: int|
                0 <= i < self.entries().len() && (#[trigger] self.entries()[i]).0.spec_cost() <= max_cost
                    && self.entries()[i].1 > 0,
    {
        let total = self.kingdom_cards.len() + self.base_cards.len();
        let mut i: usize = 0;
        while i < total
            invariant
                total == self.entries().len(),
                i <= total,
                forall|j: int|
                    0 <= j < i ==> !((#[trigger] self.entries()[j]).0.spec_cost() <= max_cost
                        && self.entries()[j].1 > 0),
            decreases total - i,
        {
            let e = self.get_entry(i).unwrap();
            if e.0.cost() <= max_cost && e.1 > 0 {
                return true;
            }
            i = i + 1;
        }
        false
    }

    /// The supply has every card of `cards`, counting repeats.
    pub open spec fn has_all(&self, cards: Seq<CardKind>) -> bool {
        forall|j: int| 0 <= j < cards.len() ==> count(cards, #[trigger] cards[j]) <= self.count(cards[j])
    }

    /// Moves one card of each entry of `cards` on top of `other`, in order, or
    /// nothing when the supply lacks some of them.
    pub fn move_all_cards(&mut self, other: &mut CardVec, cards: &[CardKind]) -> (r: Result<(), Error>)
        requires
            old(self).wf(),
        ensures
            final(self).wf(),
            r is Ok <==> old(self).has_all(cards@),
            r is Err ==> r == Err::<(), Error>(Error::InvalidCard) && *final(self) == *old(self)
                && *final(other) == *old(other),
            r is Ok ==> final(other)@ == old(other)@ + cards@ && forall|k: CardKind|
                #[trigger] final(self).count(k) + count(cards@, k) == old(self).count(k),
    {
        let mut j: usize = 0;
        while j < cards.len()
            invariant
                self.wf(),
                j <= cards@.len(),
                forall|x: int| 0 <= x < j ==> count(cards@, #[trigger] cards@[x]) <= self.count(cards@[x]),
            decreases cards@.len() - j,
        {
            let c = cards[j];
            let have = match self.get_count(c) {
                Some(n) => n,
                None => {
                    proof {
                        lemma_pile_index(self.entries(), c);
                        crate::location::lemma_count_contains(cards@, c);
                        assert(cards@[j as int] == c);
                    }
                    return Err(Error::InvalidCard);
                },
            };
            if crate::location::count_in(cards, c) > have {
                return Err(Error::InvalidCard);
            }
            j = j + 1;
        }
        let ghost s0 = *self;
        let ghost o0 = other@;
        let mut i: usize = 0;
        while i < cards.len()
            invariant
                self.wf(),
                i <= cards@.len(),
                s0.has_all(cards@),
                other@ == o0 + cards@.take(i as int),
                forall|k: CardKind| #[trigger] self.count(k) + count(cards@.take(i as int), k) == s0.count(k),
            decreases cards@.len() - i,
        {
            let c = cards[i];
            proof {
                let t = cards@.take(i as int + 1);
                assert(t =~= cards@.take(i as int).push(c));
                lemma_count_push(cards@.take(i as int), c, c);
                lemma_count_add(t, cards@.skip(i as int + 1), c);
                assert(t + cards@.skip(i as int + 1) =~= cards@);
                assert(count(cards@, cards@[i as int]) <= s0.count(cards@[i as int]));
            }
            let _ = self.move_card(other, c);
            proof {
                let t = cards@.take(i as int + 1);
                assert forall|k: CardKind| #[trigger] self.count(k) + count(t, k) == s0.count(k) by {
                    lemma_count_push(cards@.take(i as int), c, k);
                }
                assert(o0 + t =~= (o0 + cards@.take(i as int)).push(c));
            }
            i = i + 1;
        }
        assert(cards@.take(i as int) =~= cards@);
        Ok(())
    }

    /// Moves one card of each pile named by position in `indices` on top of
    /// `other`, or nothing when a position is out of range or a pile runs short.
    pub fn move_all(&mut self, other: &mut CardVec, indices: &[usize]) -> (r: Result<(), Error>)
        requires
            old(self).wf(),
        ensures
            final(self).wf(),
            r is Ok <==> (forall|j: int| 0 <= j < indices@.len() ==> #[trigger] indices@[j] < old(self).entries().len())
                && old(self).has_all(pile_kinds(old(self).entries(), indices@)),
            r is Err ==> r == Err::<(), Error>(Error::InvalidIndex) && *final(self) == *old(self)
                && *final(other) == *old(other),
            r is Ok ==> final(other)@ == old(other)@ + pile_kinds(old(self).entries(), indices@),
    {
        let mut kinds: Vec<CardKind> = Vec::new();
        let mut j: usize = 0;
        while j < indices.len()
            invariant
                self.wf(),
                j <= indices@.len(),
                kinds@.len() == j,
                forall|x: int| 0 <= x < j ==> #[trigger] indices@[x] < self.entries().len()
                    && kinds@[x] == self.entries()[indices@[x] as int].0,
            decreases indices@.len() - j,
        {
            match self.get_entry(indices[j]) {
                Some((k, _)) => kinds.push(k),
                None => {
                    return Err(Error::InvalidIndex);
                },
            }
            j = j + 1;
        }
        assert(kinds@ =~= pile_kinds(self.entries(), indices@));
        match self.move_all_cards(other, kinds.as_slice()) {
            Ok(()) => Ok(()),
            Err(_) => Err(Error::InvalidIndex),
        }
    }

    /// True when the province pile is empty or at least three piles are.
    pub fn is_game_over(&self) -> (r: bool)
        requires
            self.wf(),
        ensures
            r == self.game_over(),
    {
        proof {
            let s = self.entries();
            let kl = self.kingdom_cards@.len() as int;
            lemma_pile_index(s, CardKind::Province);
            assert(s[kl + 5].0 == CardKind::Province);
            if pile_index(s, CardKind::Province) != kl + 5 {
                let p = pile_index(s, CardKind::Province);
                assert(s[p].0 == s[kl + 5].0);
            }
        }
        if self.base_cards[PROVINCE_INDEX].1 == 0 {
            return true;
        }
        self.count_empty() >= 3
    }
}

impl Location for Supply {
    open spec fn well_formed(&self) -> bool {
        self.wf()
    }

    open spec fn holds(&self, k: CardKind) -> nat {
        self.count(k)
    }

    open spec fn accepts(&self, k: CardKind) -> bool {
        self.stocks(k)
    }

    fn can_take(&self, card: CardKind) -> (r: bool) {
        self.find(card).is_some()
    }

    fn take_card(&mut self, card: CardKind) -> (r: Result<CardKind, Error>) {
        proof {
            lemma_pile_index(self.entries(), card);
        }
        self.remove_card(card)
    }

    fn put_card(&mut self, card: CardKind) -> (r: Result<CardKind, Error>) {
        self.add_card(card)
    }
}

/// The game ends on an empty province pile whatever the other piles hold; three
/// empty piles also end it; two empty piles and provinces left do not.
pub proof fn lemma_game_end(s: Supply)
    requires
        s.wf(),
    ensures
        s.count(CardKind::Province) == 0 ==> s.game_over(),
        empty_piles(s.entries()) >= 3 ==> s.game_over(),
        s.count(CardKind::Province) > 0 && empty_piles(s.entries()) == 2 ==> !s.game_over(),
{
}

} // verus!
