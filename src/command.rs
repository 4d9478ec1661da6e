use crate::card::{all_kinds, CardKind};
use crate::types::Location;
use vstd::prelude::*;
use vstd::slice::slice_subrange;
use vstd::string::StringSliceAdditionalSpecFns;

verus! {

/// Why a line of text is not a command.
#[derive(Copy, Clone, Debug, PartialEq, Eq, Structural)]
pub enum ParseCommandError {
    InvalidCommand,
    InvalidPlayerId,
    UnspecifiedPlayerId,
    UndefinedCardKind,
    UnspecifiedCardKind,
}

impl ParseCommandError {
    /// A short explanation of the error.
    pub fn description(&self) -> (r: &'static str) {
        match self {
            ParseCommandError::InvalidCommand => "failed to parse command",
            ParseCommandError::InvalidPlayerId => "failed to parse player id arg",
            ParseCommandError::UnspecifiedPlayerId => "no player id arg to parse",
            ParseCommandError::UndefinedCardKind => "failed to parse card arg",
            ParseCommandError::UnspecifiedCardKind => "no card arg to parse",
        }
    }
}

/// One request of a player at the text interface.
#[derive(Clone, Debug, PartialEq)]
pub enum Command {
    View(Location),
    EndPhase,
    PlayCard(CardKind),
    BuyCard(CardKind),
    SelectCards(Vec<CardKind>),
}

/// ASCII white space, as `split_whitespace` treats it.
pub open spec fn is_space(c: u8) -> bool {
    c == 32 || (9 <= c && c <= 13)
}

/// The white-space separated words of `b`, in order.
pub open spec fn words(b: Seq<u8>) -> Seq<Seq<u8>>
    decreases b.len(),
{
    if b.len() == 0 {
        Seq::empty()
    } else {
        let w = words(b.drop_last());
        let c = b.last();
        if is_space(c) {
            w
        } else if b.len() == 1 || is_space(b[b.len() - 2]) {
            w.push(seq![c])
        } else {
            w.update(w.len() - 1, w.last().push(c))
        }
    }
}

/// Splits `b` at white space: the start and end of each word.
pub fn split_words(b: &[u8]) -> (r: Vec<(usize, usize)>)
    ensures
        r@.len() == words(b@).len(),
        forall|i: int|
            0 <= i < r@.len() ==> (#[trigger] r@[i]).0 < r@[i].1 <= b@.len() && b@.subrange(
                r@[i].0 as int,
                r@[i].1 as int,
            ) == words(b@)[i],
{
    let mut spans: Vec<(usize, usize)> = Vec::new();
    let mut i: usize = 0;
    while i < b.len()
        invariant
            i <= b@.len(),
            spans@.len() == words(b@.take(i as int)).len(),
            forall|j: int|
                0 <= j < spans@.len() ==> (#[trigger] spans@[j]).0 < spans@[j].1 <= i
                    && b@.subrange(spans@[j].0 as int, spans@[j].1 as int) == words(
                    b@.take(i as int),
                )[j],
            i > 0 && !is_space(b@[i - 1]) ==> spans@.len() > 0 && spans@.last().1 == i,
        decreases b@.len() - i,
    {
        let ghost t = b@.take(i as int + 1);
        proof {
            assert(t.drop_last() =~= b@.take(i as int));
            assert(t.last() == b@[i as int]);
            if i > 0 {
                assert(t[t.len() - 2] == b@[i - 1]);
            }
        }
        let c = b[i];
        let space = c == 32 || (9 <= c && c <= 13);
        if !space {
            if i == 0 || {
                let p = b[i - 1];
                p == 32 || (9 <= p && p <= 13)
            } {
                spans.push((i, i + 1));
                proof {
                    assert(b@.subrange(i as int, i as int + 1) =~= seq![c]);
                }
            } else {
                let last = spans.len() - 1;
                let (s, _) = spans[last];
                spans.set(last, (s, i + 1));
                proof {
                    assert(b@.subrange(s as int, i as int + 1) =~= b@.subrange(s as int, i as int).push(c));
                }
            }
        }
        i = i + 1;
    }
    assert(b@.take(i as int) =~= b@);
    spans
}

/// True when `a` and `b` hold the same bytes.
pub fn bytes_eq(a: &[u8], b: &[u8]) -> (r: bool)
    ensures
        r == (a@ == b@),
{
    if a.len() != b.len() {
        return false;
    }
    let mut i: usize = 0;
    while i < a.len()
        invariant
            a@.len() == b@.len(),
            i <= a@.len(),
            forall|j: int| 0 <= j < i ==> a@[j] == b@[j],
        decreases a@.len() - i,
    {
        if a[i] != b[i] {
            return false;
        }
        i = i + 1;
    }
    assert(a@ =~= b@);
    true
}

/// The value of a non-empty run of decimal digits, optionally after one `+`.
pub open spec fn digits_value(s: Seq<u8>) -> int
    decreases s.len(),
{
    if s.len() == 0 {
        0
    } else {
        digits_value(s.drop_last()) * 10 + (s.last() - 48)
    }
}

pub open spec fn all_digits(s: Seq<u8>) -> bool {
    forall|i: int| 0 <= i < s.len() ==> 48 <= #[trigger] s[i] <= 57
}

/// The number a word denotes as a player id, if it is one.
pub open spec fn digits_part(s: Seq<u8>) -> Seq<u8> {
    if s.len() > 0 && s[0] == 43 {
        s.drop_first()
    } else {
        s
    }
}

pub open spec fn spec_parse_usize(s: Seq<u8>) -> Option<usize> {
    let d = digits_part(s);
    if d.len() > 0 && all_digits(d) && digits_value(d) <= usize::MAX {
        Some(digits_value(d) as usize)
    } else {
        None
    }
}

/// Reads a player id: decimal digits, optionally after `+`.
pub fn parse_usize(s: &[u8]) -> (r: Option<usize>)
    ensures
        r == spec_parse_usize(s@),
{
    let start: usize = if s.len() > 0 && s[0] == 43 {
        1
    } else {
        0
    };
    let ghost d = digits_part(s@);
    proof {
        assert(d =~= s@.subrange(start as int, s@.len() as int));
    }
    if start == s.len() {
        return None;
    }
    let mut v: usize = 0;
    let mut i: usize = start;
    while i < s.len()
        invariant
            start <= i <= s@.len(),
            d == digits_part(s@),
            d =~= s@.subrange(start as int, s@.len() as int),
            all_digits(s@.subrange(start as int, i as int)),
            v == digits_value(s@.subrange(start as int, i as int)),
        decreases s@.len() - i,
    {
        let c = s[i];
        let ghost p = s@.subrange(start as int, i as int + 1);
        proof {
            assert(p.drop_last() =~= s@.subrange(start as int, i as int));
        }
        if c < 48 || c > 57 {
            proof {
                assert(d[i - start] == c);
                assert(!(48 <= d[i - start] <= 57));
            }
            return None;
        }
        let digit = (c - 48) as usize;
        if v > (usize::MAX - digit) / 10 {
            proof {
                assert(d.subrange(0, (i - start) as int + 1) =~= p);
                if all_digits(d) {
                    lemma_digits_grow(d, (i - start) as int + 1);
                }
                assert(digits_value(p) > usize::MAX) by (nonlinear_arith)
                    requires
                        digits_value(p) == v * 10 + digit,
                        v > (usize::MAX - digit) / 10,
                        0 <= digit <= 9,
                ;
            }
            return None;
        }
        v = v * 10 + digit;
        i = i + 1;
    }
    Some(v)
}

/// Digit values only grow as digits are added.
pub proof fn lemma_digits_grow(d: Seq<u8>, n: int)
    requires
        0 <= n <= d.len(),
        all_digits(d),
    ensures
        digits_value(d) >= digits_value(d.subrange(0, n)),
        digits_value(d.subrange(0, n)) >= 0,
    decreases d.len(),
{
    if d.len() > 0 {
        if n == d.len() {
            assert(d.subrange(0, n) =~= d);
        } else {
            assert(d.drop_last().subrange(0, n) =~= d.subrange(0, n));
            assert(all_digits(d.drop_last()));
        }
        lemma_digits_grow(d.drop_last(), if n == d.len() { n - 1 } else { n });
        assert(d.subrange(0, if n == d.len() { n - 1 } else { n }) =~= d.drop_last().subrange(0, if n == d.len() { n - 1 } else { n }));
    } else {
        assert(d.subrange(0, n) =~= d);
    }
}

} // verus!

verus! {

/// The bytes of the name of kind `k`.
pub open spec fn name_bytes(k: CardKind) -> Seq<u8> {
    k.spec_name().spec_bytes()
}

/// Some kind has the name `w`.
pub open spec fn names_card(w: Seq<u8>) -> bool {
    exists|k: CardKind| name_bytes(k) == w
}

/// The kind whose name is the word `w`, if any.
pub fn card_from_name(w: &[u8]) -> (r: Option<CardKind>)
    ensures
        r is Some <==> names_card(w@),
        r is Some ==> name_bytes(r->0) == w@,
{
    let kinds = all_kinds();
    let mut i: usize = 0;
    while i < kinds.len()
        invariant
            i <= kinds@.len(),
            forall|k: CardKind| #[trigger] kinds@.contains(k),
            forall|j: int| 0 <= j < i ==> name_bytes(#[trigger] kinds@[j]) != w@,
        decreases kinds@.len() - i,
    {
        let k = kinds[i];
        if bytes_eq(k.name().as_bytes(), w) {
            assert(name_bytes(k) == w@);
            return Some(k);
        }
        i = i + 1;
    }
    proof {
        if names_card(w@) {
            let k = choose|k: CardKind| name_bytes(k) == w@;
            assert(kinds@.contains(k));
            let j = choose|j: int| 0 <= j < kinds@.len() && kinds@[j] == k;
            assert(name_bytes(kinds@[j]) != w@);
        }
    }
    None
}

pub open spec fn kw_end() -> Seq<u8> {
    seq![101u8, 110, 100]
}

pub open spec fn kw_play() -> Seq<u8> {
    seq![112u8, 108, 97, 121]
}

pub open spec fn kw_buy() -> Seq<u8> {
    seq![98u8, 117, 121]
}

pub open spec fn kw_select() -> Seq<u8> {
    seq![115u8, 101, 108, 101, 99, 116]
}

pub open spec fn kw_supply() -> Seq<u8> {
    seq![115u8, 117, 112, 112, 108, 121]
}

pub open spec fn kw_hand() -> Seq<u8> {
    seq![104u8, 97, 110, 100]
}

pub open spec fn kw_discard() -> Seq<u8> {
    seq![100u8, 105, 115, 99, 97, 114, 100]
}

/// What parsing a line whose words are `w` gives.
pub open spec fn parse_post(w: Seq<Seq<u8>>, r: Result<Command, ParseCommandError>) -> bool {
    if w.len() == 0 {
        r == Err::<Command, ParseCommandError>(ParseCommandError::InvalidCommand)
    } else if w[0] == kw_end() {
        r == Ok::<Command, ParseCommandError>(Command::EndPhase)
    } else if w[0] == kw_play() || w[0] == kw_buy() {
        if w.len() < 2 {
            r == Err::<Command, ParseCommandError>(ParseCommandError::UnspecifiedCardKind)
        } else if !names_card(w[1]) {
            r == Err::<Command, ParseCommandError>(ParseCommandError::UndefinedCardKind)
        } else if w[0] == kw_play() {
            r is Ok && r->Ok_0 is PlayCard && name_bytes(r->Ok_0->PlayCard_0) == w[1]
        } else {
            r is Ok && r->Ok_0 is BuyCard && name_bytes(r->Ok_0->BuyCard_0) == w[1]
        }
    } else if w[0] == kw_select() {
        if forall|i: int| 1 <= i < w.len() ==> names_card(#[trigger] w[i]) {
            r is Ok && r->Ok_0 is SelectCards && r->Ok_0->SelectCards_0@.len() == w.len() - 1
                && forall|i: int|
                0 <= i < w.len() - 1 ==> name_bytes(#[trigger] r->Ok_0->SelectCards_0@[i]) == w[i + 1]
        } else {
            r == Err::<Command, ParseCommandError>(ParseCommandError::UndefinedCardKind)
        }
    } else if w[0] == kw_supply() {
        r == Ok::<Command, ParseCommandError>(Command::View(Location::Supply))
    } else if w[0] == kw_hand() || w[0] == kw_discard() {
        if w.len() < 2 {
            r == Err::<Command, ParseCommandError>(ParseCommandError::UnspecifiedPlayerId)
        } else {
            match spec_parse_usize(w[1]) {
                None => r == Err::<Command, ParseCommandError>(ParseCommandError::InvalidPlayerId),
                Some(n) => if w[0] == kw_hand() {
                    r == Ok::<Command, ParseCommandError>(Command::View(Location::Hand { player_id: n }))
                } else {
                    r == Ok::<Command, ParseCommandError>(
                        Command::View(Location::Discard { player_id: n }),
                    )
                },
            }
        }
    } else {
        r == Err::<Command, ParseCommandError>(ParseCommandError::InvalidCommand)
    }
}

/// The bytes of `b` in `span`.
fn word<'a>(b: &'a [u8], span: (usize, usize)) -> (r: &'a [u8])
    requires
        span.0 <= span.1 <= b@.len(),
    ensures
        r@ == b@.subrange(span.0 as int, span.1 as int),
{
    slice_subrange(b, span.0, span.1)
}

/// The word of `b` in `span` is `kw`.
fn is_word(b: &[u8], span: (usize, usize), kw: Vec<u8>) -> (r: bool)
    requires
        span.0 <= span.1 <= b@.len(),
    ensures
        r == (b@.subrange(span.0 as int, span.1 as int) == kw@),
{
    bytes_eq(word(b, span), kw.as_slice())
}

/// Reads one command from a line of text.
pub fn parse_command(s: &str) -> (r: Result<Command, ParseCommandError>)
    ensures
        parse_post(words(s.spec_bytes()), r),
{
    let b = s.as_bytes();
    let spans = split_words(b);
    let ghost w = words(b@);
    if spans.len() == 0 {
        return Err(ParseCommandError::InvalidCommand);
    }
    let s0 = spans[0];
    if is_word(b, s0, vec![101u8, 110, 100]) {
        return Ok(Command::EndPhase);
    }
    let is_play = is_word(b, s0, vec![112u8, 108, 97, 121]);
    let is_buy = is_word(b, s0, vec![98u8, 117, 121]);
    if is_play || is_buy {
        if spans.len() < 2 {
            return Err(ParseCommandError::UnspecifiedCardKind);
        }
        return match card_from_name(word(b, spans[1])) {
            None => Err(ParseCommandError::UndefinedCardKind),
            Some(k) => if is_play {
                Ok(Command::PlayCard(k))
            } else {
                Ok(Command::BuyCard(k))
            },
        };
    }
    if is_word(b, s0, vec![115u8, 101, 108, 101, 99, 116]) {
        let mut cards: Vec<CardKind> = Vec::new();
        let mut i: usize = 1;
        while i < spans.len()
            invariant
                1 <= i <= spans@.len(),
                w == words(b@),
                b@ == s.spec_bytes(),
                w[0] != kw_end() && w[0] != kw_play() && w[0] != kw_buy() && w[0] == kw_select(),
                spans@.len() == w.len(),
                forall|j: int|
                    0 <= j < spans@.len() ==> (#[trigger] spans@[j]).0 < spans@[j].1 <= b@.len()
                        && b@.subrange(spans@[j].0 as int, spans@[j].1 as int) == w[j],
                cards@.len() == i - 1,
                forall|j: int| 1 <= j < i ==> names_card(#[trigger] w[j]),
                forall|j: int| 0 <= j < i - 1 ==> name_bytes(#[trigger] cards@[j]) == w[j + 1],
            decreases spans@.len() - i,
        {
            match card_from_name(word(b, spans[i])) {
                None => {
                    proof {
                        assert(!names_card(w[i as int]));
                    }
                    return Err(ParseCommandError::UndefinedCardKind);
                },
                Some(k) => {
                    cards.push(k);
                },
            }
            i = i + 1;
        }
        return Ok(Command::SelectCards(cards));
    }
    if is_word(b, s0, vec![115u8, 117, 112, 112, 108, 121]) {
        return Ok(Command::View(Location::Supply));
    }
    let is_hand = is_word(b, s0, vec![104u8, 97, 110, 100]);
    let is_discard = is_word(b, s0, vec![100u8, 105, 115, 99, 97, 114, 100]);
    if is_hand || is_discard {
        if spans.len() < 2 {
            return Err(ParseCommandError::UnspecifiedPlayerId);
        }
        return match parse_usize(word(b, spans[1])) {
            None => Err(ParseCommandError::InvalidPlayerId),
            Some(n) => if is_hand {
                Ok(Command::View(Location::Hand { player_id: n }))
            } else {
                Ok(Command::View(Location::Discard { player_id: n }))
            },
        };
    }
    Err(ParseCommandError::InvalidCommand)
}

/// The commands the text interface understands.
pub fn help() -> (r: &'static str) {
    "Valid commands:\n\
     hand <i> - view player <i>'s hand\n\
     discard <i>- view player <i>'s discard pile\n\
     supply - view the game's supply\n\
     end - ends the current phase (action or buy)\n\
     play <card>\n\
     buy <card>\n\
     select <card>... - answer the pending decision"
}

impl std::str::FromStr for Command {
    type Err = ParseCommandError;

    fn from_str(s: &str) -> Result<Command, ParseCommandError> {
        parse_command(s)
    }
}

} // verus!
