use crate::card::CardKind;
use crate::types::{CardSpecifier, Error};
use vstd::prelude::*;

verus! {

/// How many cards of kind `k` the sequence `s` holds.
pub open spec fn count(s: Seq<CardKind>, k: CardKind) -> nat
    decreases s.len(),
{
    if s.len() == 0 {
        0
    } else {
        count(s.drop_last(), k) + if s.last() == k {
            1nat
        } else {
            0nat
        }
    }
}

/// `s` after taking out, for each entry of `c` in turn, the first card of that kind.
pub open spec fn remove_each(s: Seq<CardKind>, c: Seq<CardKind>) -> Seq<CardKind>
    decreases c.len(),
{
    if c.len() == 0 {
        s
    } else {
        let t = remove_each(s, c.drop_last());
        t.remove(first_index(t, c.last()))
    }
}

/// `small` holds no kind more often than `big` does.
pub open spec fn included(small: Seq<CardKind>, big: Seq<CardKind>) -> bool {
    forall|k: CardKind| #[trigger] count(small, k) <= count(big, k)
}

/// The position of the first card of kind `k` in `s`, if any.
pub open spec fn first_index(s: Seq<CardKind>, k: CardKind) -> int
    decreases s.len(),
{
    if s.len() == 0 {
        -1
    } else if s[0] == k {
        0
    } else {
        let r = first_index(s.drop_first(), k);
        if r < 0 {
            -1
        } else {
            r + 1
        }
    }
}

pub proof fn lemma_count_push(s: Seq<CardKind>, x: CardKind, k: CardKind)
    ensures
        count(s.push(x), k) == count(s, k) + if x == k {
            1nat
        } else {
            0nat
        },
{
    assert(s.push(x).drop_last() =~= s);
}

pub proof fn lemma_count_empty(k: CardKind)
    ensures
        count(Seq::<CardKind>::empty(), k) == 0,
{
}

pub proof fn lemma_count_add(s: Seq<CardKind>, t: Seq<CardKind>, k: CardKind)
    ensures
        count(s + t, k) == count(s, k) + count(t, k),
    decreases t.len(),
{
    if t.len() == 0 {
        assert(s + t =~= s);
    } else {
        lemma_count_add(s, t.drop_last(), k);
        assert((s + t).drop_last() =~= s + t.drop_last());
    }
}

pub proof fn lemma_count_single(x: CardKind, k: CardKind)
    ensures
        count(seq![x], k) == if x == k {
            1nat
        } else {
            0nat
        },
{
    lemma_count_push(Seq::<CardKind>::empty(), x, k);
    assert(Seq::<CardKind>::empty().push(x) =~= seq![x]);
}

pub proof fn lemma_count_remove(s: Seq<CardKind>, i: int, k: CardKind)
    requires
        0 <= i < s.len(),
    ensures
        count(s.remove(i), k) + (if s[i] == k {
            1nat
        } else {
            0nat
        }) == count(s, k),
{
    let a = s.take(i);
    let b = s.skip(i + 1);
    assert(s =~= a + seq![s[i]] + b);
    assert(s.remove(i) =~= a + b);
    lemma_count_add(a, b, k);
    lemma_count_add(a + seq![s[i]], b, k);
    lemma_count_add(a, seq![s[i]], k);
    lemma_count_single(s[i], k);
}

pub proof fn lemma_count_contains(s: Seq<CardKind>, k: CardKind)
    ensures
        s.contains(k) <==> count(s, k) > 0,
    decreases s.len(),
{
    if s.len() > 0 {
        lemma_count_contains(s.drop_last(), k);
        if s.drop_last().contains(k) {
            let j = choose|j: int| 0 <= j < s.drop_last().len() && s.drop_last()[j] == k;
            assert(s[j] == k);
        }
        if s.contains(k) && s.last() != k {
            let j = choose|j: int| 0 <= j < s.len() && s[j] == k;
            assert(s.drop_last()[j] == k);
        }
    }
}

pub proof fn lemma_first_index(s: Seq<CardKind>, k: CardKind)
    ensures
        s.contains(k) ==> 0 <= first_index(s, k) < s.len() && s[first_index(s, k)] == k,
        !s.contains(k) ==> first_index(s, k) == -1,
    decreases s.len(),
{
    if s.len() > 0 {
        lemma_first_index(s.drop_first(), k);
        if s[0] != k {
            if s.contains(k) {
                let j = choose|j: int| 0 <= j < s.len() && s[j] == k;
                assert(s.drop_first()[j - 1] == k);
            }
            if s.drop_first().contains(k) {
                let j = choose|j: int| 0 <= j < s.drop_first().len() && s.drop_first()[j] == k;
                assert(s[j + 1] == k);
            }
        }
    }
}

/// An ordered pile of cards; the top is the end that cards are drawn from.
#[derive(Clone, Debug, Default, PartialEq)]
pub struct CardVec(pub Vec<CardKind>);

impl View for CardVec {
    type V = Seq<CardKind>;

    open spec fn view(&self) -> Seq<CardKind> {
        self.0@
    }
}

/// Counts the cards of kind `k` in `v`.
pub fn count_in(v: &[CardKind], k: CardKind) -> (r: usize)
    ensures
        r == count(v@, k),
{
    let mut n: usize = 0;
    let mut i: usize = 0;
    while i < v.len()
        invariant
            i <= v@.len(),
            n == count(v@.take(i as int), k),
            n <= i,
        decreases v@.len() - i,
    {
        proof {
            assert(v@.take(i as int + 1) =~= v@.take(i as int).push(v@[i as int]));
            lemma_count_push(v@.take(i as int), v@[i as int], k);
        }
        if v[i] == k {
            n = n + 1;
        }
        i = i + 1;
    }
    assert(v@.take(i as int) =~= v@);
    n
}

/// True when `v` holds every card of `cards`, counting repeats.
pub fn contains_all(v: &[CardKind], cards: &[CardKind]) -> (r: bool)
    ensures
        r == included(cards@, v@),
{
    let mut i: usize = 0;
    while i < cards.len()
        invariant
            i <= cards@.len(),
            forall|j: int| 0 <= j < i ==> count(cards@, #[trigger] cards@[j]) <= count(v@, cards@[j]),
        decreases cards@.len() - i,
    {
        if count_in(cards, cards[i]) > count_in(v, cards[i]) {
            proof {
                assert(count(cards@, cards@[i as int]) > count(v@, cards@[i as int]));
            }
            return false;
        }
        i = i + 1;
    }
    proof {
        assert forall|k: CardKind| #[trigger] count(cards@, k) <= count(v@, k) by {
            lemma_count_contains(cards@, k);
            if cards@.contains(k) {
                let j = choose|j: int| 0 <= j < cards@.len() && cards@[j] == k;
                assert(count(cards@, cards@[j]) <= count(v@, cards@[j]));
            }
        }
    }
    true
}

impl CardVec {
    /// An empty pile.
    pub fn new() -> (r: Self)
        ensures
            r@ == Seq::<CardKind>::empty(),
    {
        CardVec(Vec::new())
    }

    pub fn len(&self) -> (r: usize)
        ensures
            r == self@.len(),
    {
        self.0.len()
    }

    pub fn is_empty(&self) -> (r: bool)
        ensures
            r == (self@.len() == 0),
    {
        self.0.len() == 0
    }

    /// The card at position `index`, or `None` past the end.
    pub fn get(&self, index: usize) -> (r: Option<CardKind>)
        ensures
            r == if index < self@.len() {
                Some(self@[index as int])
            } else {
                None::<CardKind>
            },
    {
        if index < self.0.len() {
            Some(self.0[index])
        } else {
            None
        }
    }

    /// The position of the first card of kind `card`, or `None`.
    pub fn find(&self, card: CardKind) -> (r: Option<usize>)
        ensures
            r is Some <==> self@.contains(card),
            r is Some ==> r->0 as int == first_index(self@, card) && r->0 < self@.len()
                && self@[r->0 as int] == card,
    {
        proof {
            lemma_first_index(self@, card);
        }
        let mut i: usize = 0;
        while i < self.0.len()
            invariant
                i <= self@.len(),
                forall|j: int| 0 <= j < i ==> self@[j] != card,
            decreases self@.len() - i,
        {
            if self.0[i] == card {
                proof {
                    lemma_first_index_at(self@, card, i as int);
                }
                return Some(i);
            }
            i = i + 1;
        }
        proof {
            if self@.contains(card) {
                let j = choose|j: int| 0 <= j < self@.len() && self@[j] == card;
                assert(self@[j] != card);
            }
        }
        None
    }

    /// Adds `card` on top.
    pub fn add_card(&mut self, card: CardKind)
        ensures
            final(self)@ == old(self)@.push(card),
    {
        self.0.push(card);
    }

    /// Removes and returns the card at `index`, shifting the cards above it down.
    pub fn remove(&mut self, index: usize) -> (r: Result<CardKind, Error>)
        ensures
            index < old(self)@.len() ==> r == Ok::<CardKind, Error>(old(self)@[index as int])
                && final(self)@ == old(self)@.remove(index as int),
            index >= old(self)@.len() ==> r == Err::<CardKind, Error>(Error::InvalidIndex)
                && *final(self) == *old(self),
    {
        if index < self.0.len() {
            Ok(self.0.remove(index))
        } else {
            Err(Error::InvalidIndex)
        }
    }

    /// Removes the first card of kind `card`.
    pub fn remove_card(&mut self, card: CardKind) -> (r: Result<CardKind, Error>)
        ensures
            old(self)@.contains(card) ==> r == Ok::<CardKind, Error>(card)
                && final(self)@ == old(self)@.remove(first_index(old(self)@, card)),
            !old(self)@.contains(card) ==> r == Err::<CardKind, Error>(Error::InvalidCard)
                && *final(self) == *old(self),
    {
        proof {
            lemma_first_index(self@, card);
        }
        match self.find(card) {
            Some(i) => Ok(self.0.remove(i)),
            None => Err(Error::InvalidCard),
        }
    }

    /// Moves the card at `index` on top of `other`.
    pub fn move_index(&mut self, other: &mut CardVec, index: usize) -> (r: Result<CardKind, Error>)
        ensures
            index < old(self)@.len() ==> r == Ok::<CardKind, Error>(old(self)@[index as int])
                && final(self)@ == old(self)@.remove(index as int)
                && final(other)@ == old(other)@.push(old(self)@[index as int]),
            index >= old(self)@.len() ==> r == Err::<CardKind, Error>(Error::InvalidIndex)
                && *final(self) == *old(self) && *final(other) == *old(other),
    {
        let c = self.remove(index)?;
        other.add_card(c);
        Ok(c)
    }

    /// Moves the first card of kind `card` on top of `other`.
    pub fn move_card(&mut self, other: &mut CardVec, card: CardKind) -> (r: Result<CardKind, Error>)
        ensures
            old(self)@.contains(card) ==> r == Ok::<CardKind, Error>(card)
                && final(self)@ == old(self)@.remove(first_index(old(self)@, card))
                && final(other)@ == old(other)@.push(card),
            !old(self)@.contains(card) ==> r == Err::<CardKind, Error>(Error::InvalidCard)
                && *final(self) == *old(self) && *final(other) == *old(other),
    {
        let c = self.remove_card(card)?;
        other.add_card(c);
        Ok(c)
    }

    /// Moves the card that `which` names on top of `other`: `InvalidIndex` for a top
    /// or a position that is not there, `InvalidCard` for a kind that is not there.
    pub fn move_specified(&mut self, other: &mut CardVec, which: CardSpecifier) -> (r: Result<CardKind, Error>)
        ensures
            r is Err ==> *final(self) == *old(self) && *final(other) == *old(other),
            which is Top ==> (old(self)@.len() > 0 ==> r == Ok::<CardKind, Error>(old(self)@.last())
                && final(self)@ == old(self)@.drop_last() && final(other)@ == old(other)@.push(
                old(self)@.last(),
            )) && (old(self)@.len() == 0 ==> r == Err::<CardKind, Error>(Error::InvalidIndex)),
            which is Index ==> (which->Index_0 < old(self)@.len() ==> r == Ok::<CardKind, Error>(
                old(self)@[which->Index_0 as int],
            ) && final(self)@ == old(self)@.remove(which->Index_0 as int) && final(other)@ == old(
                other,
            )@.push(old(self)@[which->Index_0 as int])) && (which->Index_0 >= old(self)@.len()
                ==> r == Err::<CardKind, Error>(Error::InvalidIndex)),
            which is Card ==> (old(self)@.contains(which->Card_0) ==> r == Ok::<CardKind, Error>(
                which->Card_0,
            ) && final(self)@ == old(self)@.remove(first_index(old(self)@, which->Card_0))
                && final(other)@ == old(other)@.push(which->Card_0)) && (!old(self)@.contains(
                which->Card_0,
            ) ==> r == Err::<CardKind, Error>(Error::InvalidCard)),
    {
        match which {
            CardSpecifier::Top => {
                let n = self.0.len();
                if n == 0 {
                    return Err(Error::InvalidIndex);
                }
                let r = self.move_index(other, n - 1);
                assert(old(self)@.remove(n - 1) =~= old(self)@.drop_last());
                r
            },
            CardSpecifier::Index(i) => self.move_index(other, i),
            CardSpecifier::Card(k) => self.move_card(other, k),
        }
    }

    /// Moves the cards at the positions `indices` on top of `other`, highest position
    /// first, or nothing when a position repeats or is out of range.
    pub fn move_all(&mut self, other: &mut CardVec, indices: &[usize]) -> (r: Result<(), Error>)
        ensures
            r is Ok <==> valid_positions(indices@, old(self)@.len()),
            r is Err ==> r == Err::<(), Error>(Error::InvalidIndex) && *final(self) == *old(self)
                && *final(other) == *old(other),
            r is Ok ==> final(self)@ == kept_from(old(self)@, indices@, 0) && final(other)@ == old(
                other,
            )@ + picked_from(old(self)@, indices@, 0),
    {
        let n = self.0.len();
        let mut a: usize = 0;
        while a < indices.len()
            invariant
                a <= indices@.len(),
                n == self@.len(),
                forall|x: int, y: int| 0 <= x < y < a ==> indices@[x] != indices@[y],
                forall|x: int| 0 <= x < a ==> #[trigger] indices@[x] < n,
            decreases indices@.len() - a,
        {
            if indices[a] >= n {
                return Err(Error::InvalidIndex);
            }
            let mut b: usize = 0;
            while b < a
                invariant
                    b <= a < indices@.len(),
                    forall|y: int| 0 <= y < b ==> indices@[y] != indices@[a as int],
                decreases a - b,
            {
                if indices[b] == indices[a] {
                    return Err(Error::InvalidIndex);
                }
                b = b + 1;
            }
            a = a + 1;
        }
        let ghost s0 = self@;
        let ghost o0 = other@;
        let mut j: usize = n;
        while j > 0
            invariant
                j <= n,
                n == s0.len(),
                self@ == s0.take(j as int) + kept_from(s0, indices@, j as int),
                other@ == o0 + picked_from(s0, indices@, j as int),
            decreases j,
        {
            let i = j - 1;
            let mut found = false;
            let mut b: usize = 0;
            while b < indices.len()
                invariant
                    b <= indices@.len(),
                    found == exists|y: int| 0 <= y < b && indices@[y] == i,
                decreases indices@.len() - b,
            {
                if indices[b] == i {
                    found = true;
                }
                b = b + 1;
            }
            proof {
                assert(found == indices@.contains(i));
                assert(s0.take(j as int) =~= s0.take(i as int).push(s0[i as int]));
                assert(self@[i as int] == s0[i as int]);
            }
            if found {
                let c = self.0.remove(i);
                other.add_card(c);
                proof {
                    assert(self@ =~= s0.take(i as int) + kept_from(s0, indices@, j as int));
                    assert(other@ =~= o0 + picked_from(s0, indices@, i as int));
                }
            } else {
                proof {
                    assert(self@ =~= s0.take(i as int) + kept_from(s0, indices@, i as int));
                }
            }
            j = i;
        }
        assert(s0.take(0) + kept_from(s0, indices@, 0) =~= kept_from(s0, indices@, 0));
        Ok(())
    }

    /// Moves one card of each entry of `cards` on top of `other`, in the order of
    /// `cards`, or nothing at all when `self` does not hold them all.
    pub fn move_all_cards(&mut self, other: &mut CardVec, cards: &[CardKind]) -> (r: Result<(), Error>)
        ensures
            included(cards@, old(self)@) ==> r == Ok::<(), Error>(())
                && final(other)@ == old(other)@ + cards@
                && final(self)@.len() + cards@.len() == old(self)@.len()
                && final(self)@ == remove_each(old(self)@, cards@)
                && forall|k: CardKind| #[trigger] count(final(self)@, k) + count(cards@, k) == count(old(self)@, k),
            !included(cards@, old(self)@) ==> r == Err::<(), Error>(Error::InvalidCard)
                && *final(self) == *old(self) && *final(other) == *old(other),
    {
        if !contains_all(self.0.as_slice(), cards) {
            return Err(Error::InvalidCard);
        }
        let ghost s0 = self@;
        let ghost o0 = other@;
        assert(cards@.take(0) =~= Seq::<CardKind>::empty());
        let mut i: usize = 0;
        while i < cards.len()
            invariant
                i <= cards@.len(),
                included(cards@, s0),
                other@ == o0 + cards@.take(i as int),
                self@ == remove_each(s0, cards@.take(i as int)),
                self@.len() + i == s0.len(),
                forall|k: CardKind| #[trigger] count(self@, k) + count(cards@.take(i as int), k) == count(s0, k),
            decreases cards@.len() - i,
        {
            let c = cards[i];
            proof {
                let t = cards@.take(i as int + 1);
                assert(t =~= cards@.take(i as int).push(c));
                lemma_count_push(cards@.take(i as int), c, c);
                lemma_count_add(t, cards@.skip(i as int + 1), c);
                assert(t + cards@.skip(i as int + 1) =~= cards@);
                lemma_count_contains(self@, c);
                lemma_first_index(self@, c);
            }
            let ghost before = self@;
            let _ = self.move_card(other, c);
            proof {
                let t = cards@.take(i as int + 1);
                assert forall|k: CardKind| #[trigger] count(self@, k) + count(t, k) == count(s0, k) by {
                    lemma_count_push(cards@.take(i as int), c, k);
                    lemma_count_remove(before, first_index(before, c), k);
                }
                assert(o0 + t =~= (o0 + cards@.take(i as int)).push(c));
                assert(t.drop_last() =~= cards@.take(i as int));
            }
            i = i + 1;
        }
        assert(cards@.take(i as int) =~= cards@);
        Ok(())
    }
}

/// The cards of `s` from position `j` on whose positions are not in `idx`, in order.
pub open spec fn kept_from(s: Seq<CardKind>, idx: Seq<usize>, j: int) -> Seq<CardKind>
    decreases s.len() - j,
{
    if j < 0 || j >= s.len() {
        Seq::empty()
    } else {
        let r = kept_from(s, idx, j + 1);
        if idx.contains(j as usize) {
            r
        } else {
            seq![s[j]] + r
        }
    }
}

/// The cards of `s` from position `j` on whose positions are in `idx`, highest
/// position first.
pub open spec fn picked_from(s: Seq<CardKind>, idx: Seq<usize>, j: int) -> Seq<CardKind>
    decreases s.len() - j,
{
    if j < 0 || j >= s.len() {
        Seq::empty()
    } else {
        let r = picked_from(s, idx, j + 1);
        if idx.contains(j as usize) {
            r.push(s[j])
        } else {
            r
        }
    }
}

/// No position is named twice, and every one is below `n`.
pub open spec fn valid_positions(idx: Seq<usize>, n: nat) -> bool {
    &&& forall|a: int, b: int| 0 <= a < b < idx.len() ==> idx[a] != idx[b]
    &&& forall|a: int| 0 <= a < idx.len() ==> #[trigger] idx[a] < n
}

pub proof fn lemma_first_index_at(s: Seq<CardKind>, k: CardKind, i: int)
    requires
        0 <= i < s.len(),
        s[i] == k,
        forall|j: int| 0 <= j < i ==> s[j] != k,
    ensures
        first_index(s, k) == i,
        s.contains(k),
    decreases i,
{
    if i > 0 {
        assert forall|j: int| 0 <= j < i - 1 implies s.drop_first()[j] != k by {
            assert(s[j + 1] != k);
        }
        lemma_first_index_at(s.drop_first(), k, i - 1);
    }
}

} // verus!

verus! {

/// A place cards can be taken from and put into: an ordered pile or the supply.
pub trait Location: Sized {
    /// The place is in a consistent state.
    spec fn well_formed(&self) -> bool;

    /// How many cards of kind `k` the place holds.
    spec fn holds(&self, k: CardKind) -> nat;

    /// The place can receive a card of kind `k`.
    spec fn accepts(&self, k: CardKind) -> bool;

    /// Whether a card of kind `card` can be put here.
    fn can_take(&self, card: CardKind) -> (r: bool)
        requires
            self.well_formed(),
        ensures
            r == self.accepts(card),
    ;

    /// Takes one card of kind `card` out.
    fn take_card(&mut self, card: CardKind) -> (r: Result<CardKind, Error>)
        requires
            old(self).well_formed(),
        ensures
            final(self).well_formed(),
            r is Ok <==> old(self).holds(card) > 0,
            r is Ok ==> r == Ok::<CardKind, Error>(card),
            r is Ok ==> forall|k: CardKind| #[trigger] final(self).holds(k) + (if k == card {
                1nat
            } else {
                0nat
            }) == old(self).holds(k),
            r is Ok ==> forall|k: CardKind| #[trigger] final(self).accepts(k) == old(self).accepts(k),
            r is Err ==> *final(self) == *old(self),
    ;

    /// Puts one card of kind `card` in.
    fn put_card(&mut self, card: CardKind) -> (r: Result<CardKind, Error>)
        requires
            old(self).well_formed(),
            old(self).holds(card) < usize::MAX,
        ensures
            final(self).well_formed(),
            r is Ok <==> old(self).accepts(card),
            r is Ok ==> r == Ok::<CardKind, Error>(card),
            r is Ok ==> forall|k: CardKind| #[trigger] final(self).holds(k) == old(self).holds(k) + (
            if k == card {
                1nat
            } else {
                0nat
            }),
            r is Err ==> *final(self) == *old(self),
    ;
}

/// Moves one card of kind `card` from `from` to `to`; nothing moves when `from`
/// has none or `to` cannot take it.
pub fn move_between<F: Location, T: Location>(from: &mut F, to: &mut T, card: CardKind) -> (r: Result<CardKind, Error>)
    requires
        old(from).well_formed(),
        old(to).well_formed(),
        old(to).holds(card) < usize::MAX,
    ensures
        final(from).well_formed(),
        final(to).well_formed(),
        r is Ok <==> old(from).holds(card) > 0 && old(to).accepts(card),
        r is Err ==> *final(from) == *old(from) && *final(to) == *old(to),
        r is Ok ==> forall|k: CardKind|
            #[trigger] final(from).holds(k) + final(to).holds(k) == old(from).holds(k) + old(to).holds(k),
        r is Ok ==> final(to).holds(card) == old(to).holds(card) + 1,
{
    if !to.can_take(card) {
        return Err(Error::InvalidCard);
    }
    let c = from.take_card(card)?;
    let _ = to.put_card(c);
    Ok(c)
}

impl Location for CardVec {
    open spec fn well_formed(&self) -> bool {
        true
    }

    open spec fn holds(&self, k: CardKind) -> nat {
        count(self@, k)
    }

    open spec fn accepts(&self, k: CardKind) -> bool {
        true
    }

    fn can_take(&self, card: CardKind) -> (r: bool) {
        true
    }

    fn take_card(&mut self, card: CardKind) -> (r: Result<CardKind, Error>) {
        proof {
            lemma_count_contains(self@, card);
            lemma_first_index(self@, card);
        }
        let ghost s0 = self@;
        let r = self.remove_card(card);
        proof {
            if r is Ok {
                assert forall|k: CardKind| #[trigger] count(self@, k) + (if k == card {
                    1nat
                } else {
                    0nat
                }) == count(s0, k) by {
                    lemma_count_remove(s0, first_index(s0, card), k);
                }
            }
        }
        r
    }

    fn put_card(&mut self, card: CardKind) -> (r: Result<CardKind, Error>) {
        let ghost s0 = self@;
        self.add_card(card);
        proof {
            assert forall|k: CardKind| #[trigger] count(self@, k) == count(s0, k) + (if k == card {
                1nat
            } else {
                0nat
            }) by {
                lemma_count_push(s0, card, k);
            }
        }
        Ok(card)
    }
}

} // verus!
