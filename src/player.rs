use crate::card::CardKind;
use crate::location::{
    count, included, lemma_count_add, lemma_count_push, lemma_count_remove, lemma_first_index,
    CardVec,
};
use crate::types::Error;
use rand::rngs::StdRng;
use vstd::prelude::*;

verus! {

#[verifier::external_type_specification]
#[verifier::external_body]
pub struct ExStdRng(StdRng);

/// Relies on rand's `SliceRandom::shuffle` (Fisher-Yates by swaps): the cards are
/// permuted in place, so the length and the number of each kind stay the same.
#[verifier::external_body]
fn shuffle(cards: &mut Vec<CardKind>, rng: &mut StdRng)
    ensures
        final(cards)@.len() == old(cards)@.len(),
        forall|k: CardKind| #[trigger] count(final(cards)@, k) == count(old(cards)@, k),
{
    rand::seq::SliceRandom::shuffle(cards.as_mut_slice(), rng)
}

/// Relies on rand's `SeedableRng::seed_from_u64`: a generator whose stream depends
/// on the seed alone.
#[verifier::external_body]
pub(crate) fn seeded_rng(seed: u64) -> StdRng {
    <StdRng as rand::SeedableRng>::seed_from_u64(seed)
}

/// The cards one player owns, in their five zones.
#[derive(Clone, Debug, PartialEq)]
pub struct Player {
    pub draw_pile: CardVec,
    pub hand: CardVec,
    pub play_zone: CardVec,
    pub stage: CardVec,
    pub discard_pile: CardVec,
}

/// Cards of kind `k` that the player owns, over all zones.
pub open spec fn player_count(p: Player, k: CardKind) -> nat {
    count(p.draw_pile@, k) + count(p.hand@, k) + count(p.play_zone@, k) + count(p.stage@, k)
        + count(p.discard_pile@, k)
}

/// Cards that `draw_card` can still reach: the draw pile and the discard pile.
pub open spec fn drawable(p: Player) -> nat {
    p.draw_pile@.len() + p.discard_pile@.len()
}

impl Player {
    /// A starting deck: seven coppers and three estates, shuffled, in the draw pile.
    pub fn new(rng: &mut StdRng) -> (r: Player)
        ensures
            r.draw_pile@.len() == 10,
            count(r.draw_pile@, CardKind::Copper) == 7,
            count(r.draw_pile@, CardKind::Estate) == 3,
            forall|k: CardKind|
                k != CardKind::Copper && k != CardKind::Estate ==> #[trigger] count(r.draw_pile@, k) == 0,
            r.hand@.len() == 0,
            r.play_zone@.len() == 0,
            r.stage@.len() == 0,
            r.discard_pile@.len() == 0,
    {
        let mut draw_pile: Vec<CardKind> = Vec::new();
        let mut i: usize = 0;
        while i < 10
            invariant
                i <= 10,
                draw_pile@.len() == i,
                count(draw_pile@, CardKind::Copper) == if i < 7 {
                    i as nat
                } else {
                    7
                },
                count(draw_pile@, CardKind::Estate) == if i < 7 {
                    0
                } else {
                    (i - 7) as nat
                },
                forall|k: CardKind|
                    k != CardKind::Copper && k != CardKind::Estate ==> #[trigger] count(draw_pile@, k) == 0,
            decreases 10 - i,
        {
            let c = if i < 7 {
                CardKind::Copper
            } else {
                CardKind::Estate
            };
            proof {
                assert forall|k: CardKind| true implies #[trigger] count(draw_pile@.push(c), k) == count(draw_pile@, k) + if c == k { 1nat } else { 0nat } by {
                    lemma_count_push(draw_pile@, c, k);
                }
            }
            draw_pile.push(c);
            i = i + 1;
        }
        shuffle(&mut draw_pile, rng);
        Player {
            draw_pile: CardVec(draw_pile),
            hand: CardVec::new(),
            play_zone: CardVec::new(),
            stage: CardVec::new(),
            discard_pile: CardVec::new(),
        }
    }

    /// Moves the top card of the draw pile to the hand. An empty draw pile is first
    /// refilled with the shuffled discard pile; with both empty nothing is drawn.
    pub fn draw_card(&mut self, rng: &mut StdRng) -> (r: Option<CardKind>)
        ensures
            r is Some <==> drawable(*old(self)) > 0,
            final(self).play_zone == old(self).play_zone,
            final(self).stage == old(self).stage,
            old(self).draw_pile@.len() > 0 ==> r == Some(old(self).draw_pile@.last())
                && final(self).draw_pile@ == old(self).draw_pile@.drop_last()
                && final(self).discard_pile == old(self).discard_pile,
            old(self).draw_pile@.len() == 0 ==> final(self).discard_pile@.len() == 0,
            r is None ==> final(self).hand == old(self).hand && final(self).draw_pile@.len() == 0
                && final(self).discard_pile@.len() == 0,
            r is Some ==> final(self).hand@ == old(self).hand@.push(r->0),
            r is Some ==> drawable(*final(self)) + 1 == drawable(*old(self)),
            forall|k: CardKind| #[trigger] player_count(*final(self), k) == player_count(*old(self), k),
    {
        let ghost old_self = *self;
        if self.draw_pile.0.len() == 0 {
            std::mem::swap(&mut self.draw_pile, &mut self.discard_pile);
            self.shuffle_deck(rng);
        }
        let ghost mid = *self;
        assert(forall|k: CardKind| #[trigger] player_count(mid, k) == player_count(old_self, k));
        match self.draw_pile.0.pop() {
            Some(c) => {
                self.hand.add_card(c);
                proof {
                    assert(mid.draw_pile@ =~= self.draw_pile@.push(c));
                    assert forall|k: CardKind| #[trigger] player_count(*self, k) == player_count(old_self, k) by {
                        lemma_count_push(self.draw_pile@, c, k);
                        lemma_count_push(mid.hand@, c, k);
                    }
                }
                Some(c)
            },
            None => None,
        }
    }

    /// Moves the play zone and the hand to the discard pile, then draws five cards.
    pub fn cleanup(&mut self, rng: &mut StdRng)
        ensures
            final(self).play_zone@.len() == 0,
            final(self).stage == old(self).stage,
            old(self).draw_pile@.len() >= 5 ==> final(self).draw_pile@ == old(self).draw_pile@.take(
                old(self).draw_pile@.len() - 5,
            ) && final(self).discard_pile@ == old(self).discard_pile@ + old(self).play_zone@ + old(
                self,
            ).hand@,
            final(self).hand@.len() == if drawable(*old(self)) + old(self).hand@.len()
                + old(self).play_zone@.len() >= 5 {
                5
            } else {
                drawable(*old(self)) + old(self).hand@.len() + old(self).play_zone@.len()
            },
            forall|k: CardKind| #[trigger] player_count(*final(self), k) == player_count(*old(self), k),
    {
        let ghost s0 = *self;
        self.discard_pile.0.append(&mut self.play_zone.0);
        self.discard_pile.0.append(&mut self.hand.0);
        proof {
            assert forall|k: CardKind| #[trigger] player_count(*self, k) == player_count(s0, k) by {
                lemma_count_add(s0.discard_pile@, s0.play_zone@, k);
                lemma_count_add(s0.discard_pile@ + s0.play_zone@, s0.hand@, k);
                assert(self.hand@ =~= Seq::<CardKind>::empty());
                assert(self.play_zone@ =~= Seq::<CardKind>::empty());
            }
        }
        let ghost d1 = self.discard_pile@;
        proof {
            assert(d1 =~= s0.discard_pile@ + s0.play_zone@ + s0.hand@);
            assert(s0.draw_pile@.take(s0.draw_pile@.len() as int) =~= s0.draw_pile@);
        }
        let mut i: usize = 0;
        while i < 5
            invariant
                i <= 5,
                d1 == s0.discard_pile@ + s0.play_zone@ + s0.hand@,
                s0.draw_pile@.len() >= 5 ==> self.draw_pile@ == s0.draw_pile@.take(
                    s0.draw_pile@.len() - i,
                ) && self.discard_pile@ == d1,
                self.play_zone@.len() == 0,
                self.stage == s0.stage,
                drawable(*self) + self.hand@.len() == drawable(s0) + s0.hand@.len()
                    + s0.play_zone@.len(),
                self.hand@.len() == if drawable(s0) + s0.hand@.len() + s0.play_zone@.len() >= i {
                    i as nat
                } else {
                    drawable(s0) + s0.hand@.len() + s0.play_zone@.len()
                },
                forall|k: CardKind| #[trigger] player_count(*self, k) == player_count(s0, k),
            decreases 5 - i,
        {
            let ghost before = self.draw_pile@;
            self.draw_card(rng);
            proof {
                if s0.draw_pile@.len() >= 5 {
                    assert(before.drop_last() =~= s0.draw_pile@.take(s0.draw_pile@.len() - i - 1));
                }
            }
            i = i + 1;
        }
    }

    /// True when any zone of the player holds a card of kind `card`.
    pub fn in_deck(&self, card: CardKind) -> (r: bool)
        ensures
            r == (player_count(*self, card) > 0),
    {
        crate::location::count_in(self.draw_pile.0.as_slice(), card) > 0
            || crate::location::count_in(self.hand.0.as_slice(), card) > 0
            || crate::location::count_in(self.play_zone.0.as_slice(), card) > 0
            || crate::location::count_in(self.stage.0.as_slice(), card) > 0
            || crate::location::count_in(self.discard_pile.0.as_slice(), card) > 0
    }

    /// Moves the cards of `cards` from the hand to the discard pile, all or none.
    pub fn hand_to_discard(&mut self, cards: &[CardKind]) -> (r: Result<(), Error>)
        ensures
            r is Ok <==> included(cards@, old(self).hand@),
            r is Err ==> *final(self) == *old(self),
            r is Ok ==> final(self).discard_pile@ == old(self).discard_pile@ + cards@
                && final(self).hand@.len() + cards@.len() == old(self).hand@.len(),
            r is Ok ==> forall|k: CardKind| #[trigger] count(final(self).hand@, k) + count(cards@, k) == count(old(self).hand@, k),
            final(self).draw_pile == old(self).draw_pile,
            final(self).play_zone == old(self).play_zone,
            final(self).stage == old(self).stage,
            forall|k: CardKind| #[trigger] player_count(*final(self), k) == player_count(*old(self), k),
    {
        let ghost s0 = *self;
        let r = self.hand.move_all_cards(&mut self.discard_pile, cards);
        proof {
            if r is Ok {
                assert forall|k: CardKind| #[trigger] player_count(*self, k) == player_count(s0, k) by {
                    lemma_count_add(s0.discard_pile@, cards@, k);
                }
            }
        }
        r
    }

    /// Moves the first card of kind `card` from the hand on top of the play zone.
    pub fn hand_to_play(&mut self, card: CardKind) -> (r: Result<CardKind, Error>)
        ensures
            r is Ok <==> old(self).hand@.contains(card),
            r is Err ==> *final(self) == *old(self),
            r is Ok ==> final(self).play_zone@ == old(self).play_zone@.push(card)
                && final(self).hand@ == old(self).hand@.remove(crate::location::first_index(old(self).hand@, card))
                && final(self).hand@.len() + 1 == old(self).hand@.len()
                && count(final(self).hand@, card) + 1 == count(old(self).hand@, card),
            final(self).draw_pile == old(self).draw_pile,
            final(self).discard_pile == old(self).discard_pile,
            final(self).stage == old(self).stage,
            forall|k: CardKind| #[trigger] player_count(*final(self), k) == player_count(*old(self), k),
    {
        let ghost s0 = *self;
        proof {
            lemma_first_index(s0.hand@, card);
        }
        let r = self.hand.move_card(&mut self.play_zone, card);
        proof {
            if r is Ok {
                assert forall|k: CardKind| #[trigger] player_count(*self, k) == player_count(s0, k) by {
                    lemma_count_push(s0.play_zone@, card, k);
                    lemma_count_remove(s0.hand@, crate::location::first_index(s0.hand@, card), k);
                }
                lemma_count_remove(s0.hand@, crate::location::first_index(s0.hand@, card), card);
            }
        }
        r
    }

    /// Moves the first card of kind `card` from the hand on top of the draw pile.
    pub fn hand_to_draw(&mut self, card: CardKind) -> (r: Result<CardKind, Error>)
        ensures
            r is Ok <==> old(self).hand@.contains(card),
            r is Err ==> *final(self) == *old(self),
            r is Ok ==> final(self).draw_pile@ == old(self).draw_pile@.push(card)
                && final(self).hand@ == old(self).hand@.remove(crate::location::first_index(old(self).hand@, card))
                && final(self).hand@.len() + 1 == old(self).hand@.len(),
            final(self).play_zone == old(self).play_zone,
            final(self).discard_pile == old(self).discard_pile,
            final(self).stage == old(self).stage,
            forall|k: CardKind| #[trigger] player_count(*final(self), k) == player_count(*old(self), k),
    {
        let ghost s0 = *self;
        proof {
            lemma_first_index(s0.hand@, card);
        }
        let r = self.hand.move_card(&mut self.draw_pile, card);
        proof {
            if r is Ok {
                assert forall|k: CardKind| #[trigger] player_count(*self, k) == player_count(s0, k) by {
                    lemma_count_push(s0.draw_pile@, card, k);
                    lemma_count_remove(s0.hand@, crate::location::first_index(s0.hand@, card), k);
                }
            }
        }
        r
    }

    /// Moves the first card of kind `card` from the discard pile on top of the draw pile.
    pub fn discard_to_draw(&mut self, card: CardKind) -> (r: Result<CardKind, Error>)
        ensures
            r is Ok <==> old(self).discard_pile@.contains(card),
            r is Err ==> *final(self) == *old(self),
            r is Ok ==> final(self).draw_pile@ == old(self).draw_pile@.push(card)
                && final(self).discard_pile@.len() + 1 == old(self).discard_pile@.len(),
            final(self).hand == old(self).hand,
            final(self).play_zone == old(self).play_zone,
            final(self).stage == old(self).stage,
            forall|k: CardKind| #[trigger] player_count(*final(self), k) == player_count(*old(self), k),
    {
        let ghost s0 = *self;
        proof {
            lemma_first_index(s0.discard_pile@, card);
        }
        let r = self.discard_pile.move_card(&mut self.draw_pile, card);
        proof {
            if r is Ok {
                assert forall|k: CardKind| #[trigger] player_count(*self, k) == player_count(s0, k) by {
                    lemma_count_push(s0.draw_pile@, card, k);
                    lemma_count_remove(s0.discard_pile@, crate::location::first_index(s0.discard_pile@, card), k);
                }
            }
        }
        r
    }

    /// Moves the top card of the draw pile on top of the discard pile; `None` when
    /// the draw pile is empty.
    pub fn discard_top(&mut self) -> (r: Option<CardKind>)
        ensures
            r is Some <==> old(self).draw_pile@.len() > 0,
            r is None ==> *final(self) == *old(self),
            r is Some ==> r->0 == old(self).draw_pile@.last() && final(self).draw_pile@
                == old(self).draw_pile@.drop_last() && final(self).discard_pile@
                == old(self).discard_pile@.push(r->0),
            final(self).hand == old(self).hand,
            final(self).play_zone == old(self).play_zone,
            final(self).stage == old(self).stage,
            forall|k: CardKind| #[trigger] player_count(*final(self), k) == player_count(*old(self), k),
    {
        let ghost s0 = *self;
        if self.draw_pile.0.len() == 0 {
            return None;
        }
        match self.draw_pile.0.pop() {
            Some(c) => {
                self.discard_pile.add_card(c);
                proof {
                    assert(s0.draw_pile@ =~= self.draw_pile@.push(c));
                    assert forall|k: CardKind| #[trigger] player_count(*self, k) == player_count(s0, k) by {
                        lemma_count_push(self.draw_pile@, c, k);
                        lemma_count_push(s0.discard_pile@, c, k);
                    }
                }
                Some(c)
            },
            None => None,
        }
    }

    fn shuffle_deck(&mut self, rng: &mut StdRng)
        ensures
            final(self).draw_pile@.len() == old(self).draw_pile@.len(),
            forall|k: CardKind| #[trigger] count(final(self).draw_pile@, k) == count(old(self).draw_pile@, k),
            final(self).hand == old(self).hand,
            final(self).play_zone == old(self).play_zone,
            final(self).stage == old(self).stage,
            final(self).discard_pile == old(self).discard_pile,
    {
        shuffle(&mut self.draw_pile.0, rng);
    }
}

} // verus!
