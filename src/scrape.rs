use vstd::prelude::*;

verus! {

/// What a card list page yields: the sets, the card types, and the cards.
#[derive(Clone, Debug, PartialEq)]
pub struct Scrape {
    pub sets: Vec<CardSet>,
    pub types: Vec<String>,
    pub cards: Vec<Card>,
}

/// A named set and the positions of its cards in `Scrape::cards`.
#[derive(Clone, Debug, PartialEq)]
pub struct CardSet {
    pub name: String,
    pub card_indices: Vec<usize>,
}

/// The printed price of a card.
#[derive(Copy, Clone, Debug, PartialEq, Eq, Structural)]
pub enum Cost {
    Unpriced,
    Copper(u8),
    Potion(u8),
    Special(u8),
}

/// One row of the card list.
#[derive(Clone, Debug, PartialEq)]
pub struct Card {
    pub name: String,
    pub type_indices: Vec<usize>,
    pub cost: Cost,
    pub description: String,
}

pub open spec fn is_digit(c: u8) -> bool {
    48 <= c <= 57
}

/// The length of the run of digits at the start of `s`.
pub open spec fn digit_run(s: Seq<u8>) -> nat
    decreases s.len(),
{
    if s.len() > 0 && is_digit(s[0]) {
        1 + digit_run(s.drop_first())
    } else {
        0
    }
}

/// The value of the decimal digits `s`.
pub open spec fn decimal(s: Seq<u8>) -> int
    decreases s.len(),
{
    if s.len() == 0 {
        0
    } else {
        decimal(s.drop_last()) * 10 + (s.last() - 48)
    }
}

/// The bytes of the potion sign.
pub open spec fn potion_sign() -> Seq<u8> {
    seq![0xe2u8, 0x97, 0x89]
}

/// The cost a price text denotes: `$` and digits, then an optional potion sign or
/// `*`; a text that does not start with `$` and a digit has no price. `None` when
/// the number does not fit a `u8`.
pub open spec fn spec_parse_cost(t: Seq<u8>) -> Option<Cost> {
    if t.len() >= 2 && t[0] == 36 && is_digit(t[1]) {
        let n = digit_run(t.drop_first());
        let v = decimal(t.subrange(1, 1 + n as int));
        let rest = t.subrange(1 + n as int, t.len() as int);
        if v > 255 {
            None
        } else if rest.len() >= 3 && rest.subrange(0, 3) == potion_sign() {
            Some(Cost::Potion(v as u8))
        } else if rest.len() >= 1 && rest[0] == 42 {
            Some(Cost::Special(v as u8))
        } else {
            Some(Cost::Copper(v as u8))
        }
    } else {
        Some(Cost::Unpriced)
    }
}

pub proof fn lemma_digit_run(s: Seq<u8>, i: int)
    requires
        0 <= i <= s.len(),
        forall|j: int| 0 <= j < i ==> is_digit(#[trigger] s[j]),
        i == s.len() || !is_digit(s[i]),
    ensures
        digit_run(s) == i,
    decreases i,
{
    if i > 0 {
        assert forall|j: int| 0 <= j < i - 1 implies is_digit(#[trigger] s.drop_first()[j]) by {
            assert(is_digit(s[j + 1]));
        }
        lemma_digit_run(s.drop_first(), i - 1);
    }
}

pub proof fn lemma_decimal_grows(s: Seq<u8>, n: int)
    requires
        0 <= n <= s.len(),
        forall|j: int| 0 <= j < s.len() ==> is_digit(#[trigger] s[j]),
    ensures
        decimal(s) >= decimal(s.subrange(0, n)) >= 0,
    decreases s.len(),
{
    if s.len() > 0 {
        let m = if n == s.len() {
            n - 1
        } else {
            n
        };
        assert(s.drop_last().subrange(0, m) =~= s.subrange(0, m));
        lemma_decimal_grows(s.drop_last(), m);
        if n == s.len() {
            assert(s.subrange(0, n) =~= s);
        }
    } else {
        assert(s.subrange(0, n) =~= s);
    }
}

/// Reads the price text of a card (already trimmed).
pub fn parse_cost(t: &[u8]) -> (r: Option<Cost>)
    ensures
        r == spec_parse_cost(t@),
{
    if t.len() < 2 || t[0] != 36 || t[1] < 48 || t[1] > 57 {
        return Some(Cost::Unpriced);
    }
    let mut i: usize = 1;
    let mut v: u32 = 0;
    while i < t.len() && 48 <= t[i] && t[i] <= 57
        invariant
            1 <= i <= t@.len(),
            t@.len() >= 2 && t@[0] == 36 && is_digit(t@[1]),
            forall|j: int| 1 <= j < i ==> is_digit(#[trigger] t@[j]),
            v == decimal(t@.subrange(1, i as int)),
            v <= 255,
        decreases t@.len() - i,
    {
        proof {
            assert(t@.subrange(1, i as int + 1).drop_last() =~= t@.subrange(1, i as int));
        }
        let d = (t[i] - 48) as u32;
        let next = v * 10 + d;
        if next > 255 {
            proof {
                let k: int = i as int;
                let end: int = 1 + digit_run(t@.drop_first()) as int;
                lemma_run_bound(t@, k);
                let s = t@.subrange(1, end);
                assert forall|j: int| 0 <= j < s.len() implies is_digit(#[trigger] s[j]) by {
                    lemma_run_prefix(t@, 1 + j);
                }
                assert(s.subrange(0, k) =~= t@.subrange(1, k + 1));
                assert(t@.subrange(1, k + 1).drop_last() =~= t@.subrange(1, k));
                assert(decimal(t@.subrange(1, k + 1)) == v * 10 + d);
                lemma_decimal_grows(s, k);
            }
            return None;
        }
        v = next;
        i = i + 1;
    }
    proof {
        assert forall|j: int| 0 <= j < i - 1 implies is_digit(#[trigger] t@.drop_first()[j]) by {
            assert(is_digit(t@[j + 1]));
        }
        lemma_digit_run(t@.drop_first(), i - 1);
    }
    let n = i;
    let rest_len = t.len() - n;
    proof {
        let rest = t@.subrange(n as int, t@.len() as int);
        if rest.len() >= 3 {
            assert(rest.subrange(0, 3) =~= seq![t@[n as int], t@[n + 1], t@[n + 2]]);
        }
    }
    if rest_len >= 3 && t[n] == 0xe2 && t[n + 1] == 0x97 && t[n + 2] == 0x89 {
        Some(Cost::Potion(v as u8))
    } else if rest_len >= 1 && t[n] == 42 {
        Some(Cost::Special(v as u8))
    } else {
        Some(Cost::Copper(v as u8))
    }
}

/// Positions before the end of the digit run after `$` hold digits, and the run
/// reaches at least past position `k`.
pub proof fn lemma_run_bound(t: Seq<u8>, k: int)
    requires
        1 <= k < t.len(),
        forall|j: int| 1 <= j <= k ==> is_digit(#[trigger] t[j]),
    ensures
        1 + digit_run(t.drop_first()) > k,
        1 + digit_run(t.drop_first()) <= t.len(),
{
    lemma_run_len(t.drop_first());
    lemma_run_at_least(t.drop_first(), k);
}

pub proof fn lemma_run_len(s: Seq<u8>)
    ensures
        digit_run(s) <= s.len(),
    decreases s.len(),
{
    if s.len() > 0 {
        lemma_run_len(s.drop_first());
    }
}

pub proof fn lemma_run_at_least(s: Seq<u8>, k: int)
    requires
        0 <= k <= s.len(),
        forall|j: int| 0 <= j < k ==> is_digit(#[trigger] s[j]),
    ensures
        digit_run(s) >= k,
    decreases k,
{
    if k > 0 {
        assert forall|j: int| 0 <= j < k - 1 implies is_digit(#[trigger] s.drop_first()[j]) by {
            assert(is_digit(s[j + 1]));
        }
        lemma_run_at_least(s.drop_first(), k - 1);
    }
}

pub proof fn lemma_run_prefix(t: Seq<u8>, j: int)
    requires
        t.len() >= 1,
        1 <= j < 1 + digit_run(t.drop_first()),
    ensures
        j < t.len() && is_digit(t[j]),
{
    lemma_run_digits(t.drop_first(), j - 1);
    assert(t.drop_first()[j - 1] == t[j]);
}

pub proof fn lemma_run_digits(s: Seq<u8>, j: int)
    requires
        0 <= j < digit_run(s),
    ensures
        j < s.len() && is_digit(s[j]),
    decreases j,
{
    if j > 0 {
        lemma_run_digits(s.drop_first(), j - 1);
    }
}

} // verus!

verus! {

/// The position of the type `name` in `types`, adding it at the end when it is new.
pub fn intern_type(types: &mut Vec<String>, name: String) -> (r: usize)
    requires
        old(types)@.len() < usize::MAX,
    ensures
        r < final(types)@.len(),
        final(types)@[r as int]@ == name@,
        (exists|i: int| 0 <= i < old(types)@.len() && (#[trigger] old(types)@[i])@ == name@)
            ==> final(types)@ == old(types)@ && forall|i: int|
            0 <= i < r ==> (#[trigger] old(types)@[i])@ != name@,
        !(exists|i: int| 0 <= i < old(types)@.len() && (#[trigger] old(types)@[i])@ == name@)
            ==> final(types)@ == old(types)@.push(name) && r == old(types)@.len(),
{
    let mut i: usize = 0;
    while i < types.len()
        invariant
            i <= types@.len(),
            types@ == old(types)@,
            forall|j: int| 0 <= j < i ==> (#[trigger] types@[j])@ != name@,
        decreases types@.len() - i,
    {
        if types[i] == name {
            return i;
        }
        i = i + 1;
    }
    let n = types.len();
    types.push(name);
    n
}

} // verus!
