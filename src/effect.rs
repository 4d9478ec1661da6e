use crate::arena::{lemma_total_frame, Arena};
use crate::card::CardKind;
use crate::location::{contains_all, count, included, lemma_count_add, lemma_count_push, CardVec};
use crate::player::{drawable, player_count, Player};
use crate::supply::empty_piles;
use crate::turn::{ActionPhase, Turn};
use crate::types::Error;
use vstd::prelude::*;

verus! {

/// One step of a card's effect. Conditional steps need a selection of cards from
/// a player; unconditional ones run on their own.
#[derive(Copy, Clone, Debug, PartialEq, Eq, Structural)]
pub enum Effect {
    AddResources,
    CellarDiscard,
    ChapelTrash,
    HarbingerTopdeck,
    VassalReveal,
    VassalPlay,
    WorkshopGain,
    BureaucratGainSilver,
    BureaucratReveal,
    MilitiaDiscard,
    MoneylenderTrash,
    PoacherCheck,
    PoacherDiscard,
    ThroneRoomReplay,
}

impl Effect {
    pub open spec fn spec_is_conditional(self) -> bool {
        !(self is AddResources || self is VassalReveal || self is BureaucratGainSilver
            || self is PoacherCheck)
    }

    /// The fixed text of a conditional step; empty for unconditional steps.
    pub open spec fn spec_description(self) -> &'static str {
        match self {
            Effect::CellarDiscard => "Discard any number of cards, then draw that many.",
            Effect::ChapelTrash => "Trash up to 4 cards from your hand.",
            Effect::HarbingerTopdeck => "Look through your discard pile. You may put a card from it onto your deck.",
            Effect::VassalPlay => "Discard the top card of your deck. If it is an Action card, you may play it.",
            Effect::WorkshopGain => "Gain a card costing up to $4.",
            Effect::BureaucratReveal => "Each other player reveals a Victory card from their hand and puts it onto their deck (or reveals a hand with no Victory cards).",
            Effect::MilitiaDiscard => "Each other player discards down to 3 cards in their hand.",
            Effect::MoneylenderTrash => "You may trash a Copper from your hand. If you do, +$3.",
            Effect::PoacherDiscard => "Discard a card per empty Supply pile.",
            Effect::ThroneRoomReplay => "You may play an Action card from your hand twice.",
            _ => "",
        }
    }

    /// Steps that may add one conditional step behind them weigh two, others one.
    pub open spec fn weight(self) -> nat {
        if self is VassalReveal || self is PoacherCheck {
            2
        } else {
            1
        }
    }

    pub fn is_conditional(&self) -> (r: bool)
        ensures
            r == self.spec_is_conditional(),
    {
        !matches!(
            self,
            Effect::AddResources | Effect::VassalReveal | Effect::BureaucratGainSilver
                | Effect::PoacherCheck
        )
    }

    pub fn description(&self) -> (r: &'static str)
        ensures
            r == self.spec_description(),
    {
        match self {
            Effect::CellarDiscard => "Discard any number of cards, then draw that many.",
            Effect::ChapelTrash => "Trash up to 4 cards from your hand.",
            Effect::HarbingerTopdeck => "Look through your discard pile. You may put a card from it onto your deck.",
            Effect::VassalPlay => "Discard the top card of your deck. If it is an Action card, you may play it.",
            Effect::WorkshopGain => "Gain a card costing up to $4.",
            Effect::BureaucratReveal => "Each other player reveals a Victory card from their hand and puts it onto their deck (or reveals a hand with no Victory cards).",
            Effect::MilitiaDiscard => "Each other player discards down to 3 cards in their hand.",
            Effect::MoneylenderTrash => "You may trash a Copper from your hand. If you do, +$3.",
            Effect::PoacherDiscard => "Discard a card per empty Supply pile.",
            Effect::ThroneRoomReplay => "You may play an Action card from your hand twice.",
            _ => "",
        }
    }
}

/// The steps a played card of kind `card` goes through: its resource template first,
/// then what the kind itself does.
pub open spec fn effects_of(card: CardKind) -> Seq<Effect> {
    match card {
        CardKind::Cellar => seq![Effect::AddResources, Effect::CellarDiscard],
        CardKind::Chapel => seq![Effect::AddResources, Effect::ChapelTrash],
        CardKind::Harbinger => seq![Effect::AddResources, Effect::HarbingerTopdeck],
        CardKind::Vassal => seq![Effect::AddResources, Effect::VassalReveal],
        CardKind::Workshop => seq![Effect::AddResources, Effect::WorkshopGain],
        CardKind::Bureaucrat => seq![
            Effect::AddResources,
            Effect::BureaucratGainSilver,
            Effect::BureaucratReveal,
        ],
        CardKind::Militia => seq![Effect::AddResources, Effect::MilitiaDiscard],
        CardKind::Moneylender => seq![Effect::AddResources, Effect::MoneylenderTrash],
        CardKind::Poacher => seq![Effect::AddResources, Effect::PoacherCheck],
        CardKind::ThroneRoom => seq![Effect::AddResources, Effect::ThroneRoomReplay],
        _ => seq![Effect::AddResources],
    }
}

/// The resolution state of one played card: the card and its unresolved steps.
#[derive(Clone, Debug, PartialEq)]
pub struct CardAction {
    pub card: CardKind,
    pub effects: Vec<Effect>,
}

/// The played cards whose effects are not resolved yet, oldest first.
#[derive(Clone, Debug, PartialEq)]
pub struct CardActionQueue {
    pub actions: Vec<CardAction>,
}

/// What a step hands back: new played cards for the back of the queue, one more
/// step for the card being resolved, or nothing.
#[derive(Clone, Debug, PartialEq)]
pub enum Outcome {
    Actions(CardActionQueue),
    Effect(Effect),
    Nothing,
}

/// The weight of a card's remaining steps; it bounds how long they can run.
pub open spec fn steps_weight(s: Seq<Effect>) -> nat
    decreases s.len(),
{
    if s.len() == 0 {
        0
    } else {
        s[0].weight() + steps_weight(s.drop_first())
    }
}

/// The weight of all queued steps.
pub open spec fn queue_weight(q: Seq<CardAction>) -> nat
    decreases q.len(),
{
    if q.len() == 0 {
        0
    } else {
        steps_weight(q[0].effects@) + queue_weight(q.drop_first())
    }
}

pub proof fn lemma_steps_weight_push(s: Seq<Effect>, e: Effect)
    ensures
        steps_weight(s.push(e)) == steps_weight(s) + e.weight(),
    decreases s.len(),
{
    if s.len() == 0 {
        assert(s.push(e).drop_first() =~= Seq::<Effect>::empty());
        assert(steps_weight(Seq::<Effect>::empty()) == 0);
        assert(s.push(e)[0] == e);
    } else {
        lemma_steps_weight_push(s.drop_first(), e);
        assert(s.push(e).drop_first() =~= s.drop_first().push(e));
        assert(s.push(e)[0] == s[0]);
    }
}

/// Every queued card still has a step to resolve.
pub open spec fn queue_wf(q: Seq<CardAction>) -> bool {
    forall|i: int| 0 <= i < q.len() ==> (#[trigger] q[i]).effects@.len() > 0
}

/// The step that blocks or runs next.
pub open spec fn front_step(q: Seq<CardAction>) -> Effect {
    q[0].effects@[0]
}

/// The description of the first conditional step in the queue, if any.
pub open spec fn pending_description(q: Seq<CardAction>) -> Option<&'static str> {
    if q.len() > 0 && front_step(q).spec_is_conditional() {
        Some(front_step(q).spec_description())
    } else {
        None
    }
}

impl CardAction {
    /// The resolution state of a freshly played card of kind `card`.
    pub fn new(card: CardKind) -> (r: CardAction)
        ensures
            r.card == card,
            r.effects@ == effects_of(card),
    {
        let effects: Vec<Effect> = match card {
            CardKind::Cellar => vec![Effect::AddResources, Effect::CellarDiscard],
            CardKind::Chapel => vec![Effect::AddResources, Effect::ChapelTrash],
            CardKind::Harbinger => vec![Effect::AddResources, Effect::HarbingerTopdeck],
            CardKind::Vassal => vec![Effect::AddResources, Effect::VassalReveal],
            CardKind::Workshop => vec![Effect::AddResources, Effect::WorkshopGain],
            CardKind::Bureaucrat => vec![
                Effect::AddResources,
                Effect::BureaucratGainSilver,
                Effect::BureaucratReveal,
            ],
            CardKind::Militia => vec![Effect::AddResources, Effect::MilitiaDiscard],
            CardKind::Moneylender => vec![Effect::AddResources, Effect::MoneylenderTrash],
            CardKind::Poacher => vec![Effect::AddResources, Effect::PoacherCheck],
            CardKind::ThroneRoom => vec![Effect::AddResources, Effect::ThroneRoomReplay],
            _ => vec![Effect::AddResources],
        };
        assert(effects@ =~= effects_of(card));
        CardAction { card, effects }
    }

    /// The description of the first conditional step of this card, if any.
    pub fn condition(&self) -> (r: Option<&'static str>)
        ensures
            r is Some <==> exists|i: int|
                0 <= i < self.effects@.len() && (#[trigger] self.effects@[i]).spec_is_conditional(),
            self.effects@.len() > 0 && self.effects@[0].spec_is_conditional() ==> r == Some(
                self.effects@[0].spec_description(),
            ),
    {
        let mut i: usize = 0;
        while i < self.effects.len()
            invariant
                i <= self.effects@.len(),
                forall|j: int| 0 <= j < i ==> !(#[trigger] self.effects@[j]).spec_is_conditional(),
            decreases self.effects@.len() - i,
        {
            if self.effects[i].is_conditional() {
                return Some(self.effects[i].description());
            }
            i = i + 1;
        }
        None
    }
}

impl CardActionQueue {
    /// An empty queue: nothing is pending.
    pub fn new() -> (r: Self)
        ensures
            r.actions@.len() == 0,
    {
        CardActionQueue { actions: Vec::new() }
    }

    /// A queue holding one freshly played card.
    pub fn from_card(card: CardKind) -> (r: Self)
        ensures
            r.actions@.len() == 1,
            r.actions@[0].card == card,
            r.actions@[0].effects@ == effects_of(card),
    {
        let mut q = CardActionQueue::new();
        q.add_card(card);
        q
    }

    /// Puts a freshly played card at the back.
    pub fn add_card(&mut self, card: CardKind)
        ensures
            final(self).actions@.len() == old(self).actions@.len() + 1,
            final(self).actions@.drop_last() == old(self).actions@,
            final(self).actions@.last().card == card,
            final(self).actions@.last().effects@ == effects_of(card),
    {
        self.actions.push(CardAction::new(card));
        assert(self.actions@.drop_last() =~= old(self).actions@);
    }

    /// Moves all of `other` to the back of `self`.
    pub fn append(&mut self, other: &mut Self)
        ensures
            final(self).actions@ == old(self).actions@ + old(other).actions@,
            final(other).actions@.len() == 0,
    {
        self.actions.append(&mut other.actions);
    }

    /// No decision is pending.
    pub fn is_resolved(&self) -> (r: bool)
        ensures
            r == (self.actions@.len() == 0),
    {
        self.actions.len() == 0
    }

    /// The description of the first conditional step of the queue, if any.
    pub fn resolve_condition(&self) -> (r: Option<&'static str>)
        ensures
            self.actions@.len() == 0 ==> r is None,
            queue_wf(self.actions@) && pending_description(self.actions@) is Some ==> r
                == pending_description(self.actions@),
    {
        let mut i: usize = 0;
        while i < self.actions.len()
            invariant
                i <= self.actions@.len(),
                queue_wf(self.actions@) && pending_description(self.actions@) is Some ==> i == 0,
            decreases self.actions@.len() - i,
        {
            let c = self.actions[i].condition();
            if c.is_some() {
                return c;
            }
            i = i + 1;
        }
        None
    }
}

} // verus!

verus! {

/// `x + y`, held at the largest `u32`.
pub open spec fn sat_add(x: u32, y: u32) -> u32 {
    if x + y > u32::MAX {
        u32::MAX
    } else {
        (x + y) as u32
    }
}

/// The failure a conditional step reports while its selection is missing or wrong.
pub open spec fn rejected(e: Effect) -> Result<Outcome, Error> {
    Err(Error::UnresolvedActionEffect(e.spec_description()))
}

/// What every step keeps: well-formedness, the number of players, the active
/// player, the queue, the phase, and the number of cards of each kind.
pub open spec fn step_frame(a: Arena, b: Arena) -> bool {
    &&& b.wf()
    &&& b.players@.len() == a.players@.len()
    &&& b.current_player_id == a.current_player_id
    &&& b.actions == a.actions
    &&& (b.turn is Action <==> a.turn is Action)
    &&& forall|k: CardKind| #[trigger] b.total(k) == a.total(k)
    &&& a.cur().play_zone@.is_prefix_of(b.cur().play_zone@)
    &&& counters_grow(a.turn, b.turn)
}

/// No counter of an action phase went down.
pub open spec fn counters_grow(a: Turn, b: Turn) -> bool {
    a is Action && b is Action ==> b->Action_0.remaining_actions >= a->Action_0.remaining_actions
        && b->Action_0.remaining_buys >= a->Action_0.remaining_buys
        && b->Action_0.remaining_copper >= a->Action_0.remaining_copper
}

/// Among the players only player `i` may have changed.
pub open spec fn others_same(a: Arena, b: Arena, i: int) -> bool {
    forall|j: int| 0 <= j < a.players@.len() && j != i ==> b.players@[j] == a.players@[j]
}

/// Supply, trash and turn are as they were.
pub open spec fn shared_same(a: Arena, b: Arena) -> bool {
    b.supply == a.supply && b.trash == a.trash && b.turn == a.turn
}

/// The number of cards a poacher makes its player discard.
pub open spec fn poacher_count(a: Arena) -> nat {
    let h = a.cur().hand@.len();
    let e = empty_piles(a.supply.entries());
    if h < e {
        h
    } else {
        e
    }
}

/// When a conditional step takes `sel` from player `pid`.
pub open spec fn accepts(a: Arena, e: Effect, pid: usize, sel: Seq<CardKind>) -> bool {
    let me = a.current_player_id;
    let hand = a.players@[pid as int].hand@;
    match e {
        Effect::CellarDiscard => pid == me && included(sel, hand),
        Effect::ChapelTrash => pid == me && sel.len() <= 4 && included(sel, hand),
        Effect::HarbingerTopdeck => pid == me && (sel.len() == 0 || (sel.len() == 1
            && a.cur().discard_pile@.contains(sel[0]))),
        Effect::VassalPlay => pid == me && (sel.len() == 0 || (sel.len() == 1
            && a.cur().discard_pile@.len() > 0 && sel[0] == a.cur().discard_pile@.last())),
        Effect::WorkshopGain => pid == me && ((sel.len() == 0 && !exists|i: int|
            0 <= i < a.supply.entries().len() && (#[trigger] a.supply.entries()[i]).0.spec_cost()
                <= 4 && a.supply.entries()[i].1 > 0) || (sel.len() == 1 && sel[0].spec_cost() <= 4
            && a.supply.count(sel[0]) > 0)),
        Effect::BureaucratReveal => pid != me && ((sel.len() == 1 && sel[0].spec_is_victory()
            && hand.contains(sel[0])) || (sel.len() == 0 && !exists|i: int|
            0 <= i < hand.len() && (#[trigger] hand[i]).spec_is_victory())),
        Effect::MilitiaDiscard => pid != me && ((hand.len() <= 3 && sel.len() == 0) || (hand.len()
            == sel.len() + 3 && included(sel, hand))),
        Effect::MoneylenderTrash => pid == me && (sel.len() == 0 || (sel.len() == 1 && sel[0]
            == CardKind::Copper && hand.contains(CardKind::Copper))),
        Effect::PoacherDiscard => pid == me && sel.len() == poacher_count(a) && included(sel, hand),
        Effect::ThroneRoomReplay => pid == me && (sel.len() == 0 || (sel.len() == 1
            && sel[0].spec_is_action() && hand.contains(sel[0]))),
        _ => false,
    }
}

/// A spawned queue of played cards that all have steps left.
pub open spec fn spawned_wf(o: Outcome) -> bool {
    o is Actions ==> queue_wf(o->Actions_0.actions@)
}

/// What `add_resources` does for a played card of kind `card`.
pub open spec fn add_resources_post(a: Arena, b: Arena, card: CardKind) -> bool {
    &&& step_frame(a, b)
    &&& others_same(a, b, a.current_player_id as int)
    &&& b.supply == a.supply
    &&& b.trash == a.trash
    &&& b.cur().play_zone == a.cur().play_zone
    &&& b.cur().stage == a.cur().stage
    &&& card.spec_action() is None ==> b.turn == a.turn && b.players == a.players
    &&& card.spec_action() is Some ==> {
        let t = card.spec_action()->0;
        let p = a.turn->Action_0;
        let d = drawable(a.cur());
        &&& b.turn == Turn::Action(
            ActionPhase {
                remaining_actions: sat_add(p.remaining_actions, t.actions),
                remaining_buys: sat_add(p.remaining_buys, t.buys),
                remaining_copper: sat_add(p.remaining_copper, t.copper),
            },
        )
        &&& b.cur().hand@.len() == a.cur().hand@.len() + if t.cards <= d {
            t.cards as nat
        } else {
            d
        }
    }
}

/// What `cellar_discard` does.
pub open spec fn cellar_discard_post(a: Arena, b: Arena, pid: usize, cards: Seq<CardKind>, r: Result<Outcome, Error>) -> bool {
    &&& !accepts(a, Effect::CellarDiscard, pid, cards) ==> r == rejected(Effect::CellarDiscard)
                && b == a
    &&& accepts(a, Effect::CellarDiscard, pid, cards) ==> r == Ok::<Outcome, Error>(Outcome::Nothing)
                && step_frame(a, b)
                && others_same(a, b, a.current_player_id as int)
                && shared_same(a, b)
                && b.cur().hand@.len() == a.cur().hand@.len()
    &&& accepts(a, Effect::CellarDiscard, pid, cards) ==> b.cur().play_zone == a.cur().play_zone
        && b.cur().stage == a.cur().stage
    &&& accepts(a, Effect::CellarDiscard, pid, cards) && a.cur().draw_pile@.len() >= cards.len() ==> b.cur().discard_pile@
        == a.cur().discard_pile@ + cards && b.cur().draw_pile@ == a.cur().draw_pile@.take(
        a.cur().draw_pile@.len() - cards.len(),
    )
}

/// What `chapel_trash` does.
pub open spec fn chapel_trash_post(a: Arena, b: Arena, pid: usize, cards: Seq<CardKind>, r: Result<Outcome, Error>) -> bool {
    &&& !accepts(a, Effect::ChapelTrash, pid, cards) ==> r == rejected(Effect::ChapelTrash)
                && b == a
    &&& accepts(a, Effect::ChapelTrash, pid, cards) ==> r == Ok::<Outcome, Error>(Outcome::Nothing)
                && step_frame(a, b)
                && others_same(a, b, a.current_player_id as int)
                && b.supply == a.supply && b.turn == a.turn
                && b.trash@ == a.trash@ + cards
                && b.cur().hand@.len() + cards.len() == a.cur().hand@.len()
    &&& accepts(a, Effect::ChapelTrash, pid, cards) ==> b.cur().draw_pile == a.cur().draw_pile
        && b.cur().play_zone == a.cur().play_zone && b.cur().stage == a.cur().stage
        && b.cur().discard_pile == a.cur().discard_pile
        && forall|k: CardKind| #[trigger] count(b.cur().hand@, k) + count(cards, k) == count(a.cur().hand@, k)
}

/// What `harbinger_topdeck` does.
pub open spec fn harbinger_topdeck_post(a: Arena, b: Arena, pid: usize, cards: Seq<CardKind>, r: Result<Outcome, Error>) -> bool {
    &&& !accepts(a, Effect::HarbingerTopdeck, pid, cards) ==> r == rejected(
                Effect::HarbingerTopdeck
        ) && b == a
    &&& accepts(a, Effect::HarbingerTopdeck, pid, cards) ==> r == Ok::<Outcome, Error>(Outcome::Nothing)
                && step_frame(a, b)
                && others_same(a, b, a.current_player_id as int)
                && shared_same(a, b)
    &&& accepts(a, Effect::HarbingerTopdeck, pid, cards) && cards.len() == 1
                ==> b.cur().draw_pile@ == a.cur().draw_pile@.push(cards[0])
                && b.cur().discard_pile@.len() + 1 == a.cur().discard_pile@.len()
    &&& cards.len() == 0 && accepts(a, Effect::HarbingerTopdeck, pid, cards) ==> b == a
}

/// What `vassal_play` does.
pub open spec fn vassal_play_post(a: Arena, b: Arena, pid: usize, cards: Seq<CardKind>, r: Result<Outcome, Error>) -> bool {
    &&& b == a
    &&& !accepts(a, Effect::VassalPlay, pid, cards) ==> r == rejected(Effect::VassalPlay)
    &&& accepts(a, Effect::VassalPlay, pid, cards) && cards.len() == 0 ==> r == Ok::<Outcome, Error>(Outcome::Nothing)
    &&& accepts(a, Effect::VassalPlay, pid, cards) && cards.len() == 1 ==> r is Ok
                && r->Ok_0 is Actions && r->Ok_0->Actions_0.actions@.len() == 1
                && r->Ok_0->Actions_0.actions@[0].card == cards[0]
                && r->Ok_0->Actions_0.actions@[0].effects@ == effects_of(cards[0])
}

/// What `workshop_gain` does.
pub open spec fn workshop_gain_post(a: Arena, b: Arena, pid: usize, cards: Seq<CardKind>, r: Result<Outcome, Error>) -> bool {
    &&& !accepts(a, Effect::WorkshopGain, pid, cards) ==> r == rejected(Effect::WorkshopGain)
                && b == a
    &&& accepts(a, Effect::WorkshopGain, pid, cards) ==> r == Ok::<Outcome, Error>(Outcome::Nothing)
                && step_frame(a, b)
                && others_same(a, b, a.current_player_id as int)
                && b.trash == a.trash && b.turn == a.turn
    &&& accepts(a, Effect::WorkshopGain, pid, cards) && cards.len() == 0 ==> b == a
    &&& accepts(a, Effect::WorkshopGain, pid, cards) && cards.len() == 1
                ==> b.cur().discard_pile@ == a.cur().discard_pile@.push(cards[0])
                && b.supply.count(cards[0]) + 1 == a.supply.count(cards[0])
}

/// What `bureaucrat_reveal` does.
pub open spec fn bureaucrat_reveal_post(a: Arena, b: Arena, pid: usize, cards: Seq<CardKind>, r: Result<Outcome, Error>) -> bool {
    &&& !accepts(a, Effect::BureaucratReveal, pid, cards) ==> r == rejected(
                Effect::BureaucratReveal
        ) && b == a
    &&& accepts(a, Effect::BureaucratReveal, pid, cards) ==> r == Ok::<Outcome, Error>(Outcome::Nothing)
                && step_frame(a, b)
                && others_same(a, b, pid as int)
                && shared_same(a, b)
    &&& accepts(a, Effect::BureaucratReveal, pid, cards) && cards.len() == 0 ==> b == a
    &&& accepts(a, Effect::BureaucratReveal, pid, cards) && cards.len() == 1
                ==> b.players@[pid as int].draw_pile@ == a.players@[pid as int].draw_pile@.push(cards[0])
                && b.players@[pid as int].hand@.len() + 1 == a.players@[pid as int].hand@.len()
    &&& accepts(a, Effect::BureaucratReveal, pid, cards) && cards.len() == 1 ==> b.players@[pid as int].play_zone == a.players@[pid as int].play_zone
        && b.players@[pid as int].stage == a.players@[pid as int].stage && b.players@[pid as int].discard_pile == a.players@[pid as int].discard_pile
        && b.players@[pid as int].hand@ == a.players@[pid as int].hand@.remove(crate::location::first_index(a.players@[pid as int].hand@, cards[0]))
}

/// What `militia_discard` does.
pub open spec fn militia_discard_post(a: Arena, b: Arena, pid: usize, cards: Seq<CardKind>, r: Result<Outcome, Error>) -> bool {
    &&& !accepts(a, Effect::MilitiaDiscard, pid, cards) ==> r == rejected(
                Effect::MilitiaDiscard
        ) && b == a
    &&& accepts(a, Effect::MilitiaDiscard, pid, cards) ==> r == Ok::<Outcome, Error>(Outcome::Nothing)
                && step_frame(a, b)
                && others_same(a, b, pid as int)
                && shared_same(a, b)
                && b.players@[pid as int].discard_pile@ == a.players@[pid as int].discard_pile@ + cards
                && b.players@[pid as int].hand@.len() == if a.players@[pid as int].hand@.len() <= 3 {
                    a.players@[pid as int].hand@.len()
                } else {
                    3
                }
    &&& accepts(a, Effect::MilitiaDiscard, pid, cards) ==> b.players@[pid as int].draw_pile == a.players@[pid as int].draw_pile
        && b.players@[pid as int].play_zone == a.players@[pid as int].play_zone && b.players@[pid as int].stage == a.players@[pid as int].stage
        && forall|k: CardKind| #[trigger] count(b.players@[pid as int].hand@, k) + count(cards, k) == count(a.players@[pid as int].hand@, k)
}

/// What `moneylender_trash` does.
pub open spec fn moneylender_trash_post(a: Arena, b: Arena, pid: usize, cards: Seq<CardKind>, r: Result<Outcome, Error>) -> bool {
    &&& !accepts(a, Effect::MoneylenderTrash, pid, cards) ==> r == rejected(
                Effect::MoneylenderTrash
        ) && b == a
    &&& accepts(a, Effect::MoneylenderTrash, pid, cards) ==> r == Ok::<Outcome, Error>(Outcome::Nothing)
                && step_frame(a, b)
                && others_same(a, b, a.current_player_id as int)
                && b.supply == a.supply
    &&& accepts(a, Effect::MoneylenderTrash, pid, cards) && cards.len() == 0 ==> b == a
    &&& accepts(a, Effect::MoneylenderTrash, pid, cards) && cards.len() == 1
                ==> b.trash@ == a.trash@.push(CardKind::Copper)
                && b.cur().hand@.len() + 1 == a.cur().hand@.len()
                && b.turn == Turn::Action(ActionPhase {
                    remaining_copper: sat_add(a.turn->Action_0.remaining_copper, 3),
                    ..a.turn->Action_0
                })
    &&& accepts(a, Effect::MoneylenderTrash, pid, cards) && cards.len() == 1 ==> b.cur().draw_pile == a.cur().draw_pile
        && b.cur().play_zone == a.cur().play_zone && b.cur().stage == a.cur().stage
        && b.cur().discard_pile == a.cur().discard_pile
        && b.cur().hand@ == a.cur().hand@.remove(crate::location::first_index(a.cur().hand@, CardKind::Copper))
}

/// What `poacher_discard` does.
pub open spec fn poacher_discard_post(a: Arena, b: Arena, pid: usize, cards: Seq<CardKind>, r: Result<Outcome, Error>) -> bool {
    &&& !accepts(a, Effect::PoacherDiscard, pid, cards) ==> r == rejected(Effect::PoacherDiscard)
                && b == a
    &&& accepts(a, Effect::PoacherDiscard, pid, cards) ==> r == Ok::<Outcome, Error>(Outcome::Nothing)
                && step_frame(a, b)
                && others_same(a, b, a.current_player_id as int)
                && shared_same(a, b)
                && b.cur().discard_pile@ == a.cur().discard_pile@ + cards
                && b.cur().hand@.len() + cards.len() == a.cur().hand@.len()
    &&& accepts(a, Effect::PoacherDiscard, pid, cards) ==> b.cur().draw_pile == a.cur().draw_pile
        && b.cur().play_zone == a.cur().play_zone && b.cur().stage == a.cur().stage
        && forall|k: CardKind| #[trigger] count(b.cur().hand@, k) + count(cards, k) == count(a.cur().hand@, k)
}

/// What `throne_room_replay` does.
pub open spec fn throne_room_replay_post(a: Arena, b: Arena, pid: usize, cards: Seq<CardKind>, r: Result<Outcome, Error>) -> bool {
    &&& !accepts(a, Effect::ThroneRoomReplay, pid, cards) ==> r == rejected(
                Effect::ThroneRoomReplay
        ) && b == a
    &&& accepts(a, Effect::ThroneRoomReplay, pid, cards) ==> r is Ok
                && step_frame(a, b)
                && others_same(a, b, a.current_player_id as int)
                && shared_same(a, b)
    &&& accepts(a, Effect::ThroneRoomReplay, pid, cards) && cards.len() == 0 ==> r == Ok::<Outcome, Error>(Outcome::Nothing)
                && b == a
    &&& accepts(a, Effect::ThroneRoomReplay, pid, cards) && cards.len() == 1
                ==> b.cur().play_zone@ == a.cur().play_zone@.push(cards[0])
                && b.cur().hand@.len() + 1 == a.cur().hand@.len()
                && r->Ok_0 is Actions && r->Ok_0->Actions_0.actions@.len() == 2
                && r->Ok_0->Actions_0.actions@[0].card == cards[0]
                && r->Ok_0->Actions_0.actions@[1].card == cards[0]
                && r->Ok_0->Actions_0.actions@[0].effects@ == effects_of(cards[0])
                && r->Ok_0->Actions_0.actions@[1].effects@ == effects_of(cards[0])
}

/// What `vassal_reveal` does.
pub open spec fn vassal_reveal_post(a: Arena, b: Arena, r: Outcome) -> bool {
    &&& step_frame(a, b)
    &&& others_same(a, b, a.current_player_id as int)
    &&& shared_same(a, b)
    &&& a.cur().draw_pile@.len() == 0 ==> r == Outcome::Nothing && b == a
    &&& a.cur().draw_pile@.len() > 0 ==> b.cur().draw_pile@ == a.cur().draw_pile@.drop_last()
                && b.cur().discard_pile@ == a.cur().discard_pile@.push(
                a.cur().draw_pile@.last()
        ) && b.cur().hand == a.cur().hand
                && r == if a.cur().draw_pile@.last().spec_is_action() {
                Outcome::Effect(Effect::VassalPlay)
        } else {
                Outcome::Nothing
        }
}

/// What `bureaucrat_gain_silver` does.
pub open spec fn bureaucrat_gain_silver_post(a: Arena, b: Arena, r: Outcome) -> bool {
    &&& r == Outcome::Nothing
    &&& step_frame(a, b)
    &&& others_same(a, b, a.current_player_id as int)
    &&& b.trash == a.trash
    &&& b.turn == a.turn
    &&& a.supply.count(CardKind::Silver) == 0 ==> b == a
    &&& a.supply.count(CardKind::Silver) > 0 ==> b.cur().draw_pile@ == a.cur().draw_pile@.push(CardKind::Silver)
                && b.supply.count(CardKind::Silver) + 1 == a.supply.count(CardKind::Silver)
}

/// What `poacher_check` does.
pub open spec fn poacher_check_post(a: Arena, b: Arena, r: Outcome) -> bool {
    &&& b == a
    &&& r == if poacher_count(a) > 0 {
                Outcome::Effect(Effect::PoacherDiscard)
        } else {
                Outcome::Nothing
        }
}

/// Applies the resource template of `card`: counters of the action phase grow and
/// the active player draws.
pub fn add_resources(arena: &mut Arena, card: CardKind)
    requires
        old(arena).wf(),
        old(arena).turn is Action,
    ensures
        add_resources_post(*old(arena), *final(arena), card),
{
    match card.action() {
        None => {},
        Some(t) => {
            let me = arena.current_player_id;
            match &mut arena.turn {
                Turn::Action(a) => {
                    a.remaining_actions = a.remaining_actions.saturating_add(t.actions);
                    a.remaining_buys = a.remaining_buys.saturating_add(t.buys);
                    a.remaining_copper = a.remaining_copper.saturating_add(t.copper);
                },
                Turn::Buy(_) => {},
            }
            let ghost a0 = *arena;
            let mut i: u32 = 0;
            while i < t.cards
                invariant
                    i <= t.cards,
                    me == a0.current_player_id,
                    arena.wf(),
                    arena.players@.len() == a0.players@.len(),
                    arena.current_player_id == me,
                    arena.actions == a0.actions,
                    arena.turn == a0.turn,
                    arena.supply == a0.supply,
                    arena.trash == a0.trash,
                    others_same(a0, *arena, me as int),
                    forall|k: CardKind| #[trigger] arena.total(k) == a0.total(k),
                    arena.cur().hand@.len() + drawable(arena.cur()) == a0.cur().hand@.len()
                        + drawable(a0.cur()),
                    arena.cur().play_zone == a0.cur().play_zone,
                    arena.cur().stage == a0.cur().stage,
                    arena.cur().hand@.len() == a0.cur().hand@.len() + if i <= drawable(a0.cur()) {
                        i as nat
                    } else {
                        drawable(a0.cur())
                    },
                decreases t.cards - i,
            {
                let ghost b = *arena;
                arena.players[me].draw_card(&mut arena.rng);
                proof {
                    lemma_total_frame(b, *arena, me as int);
                }
                i = i + 1;
            }
        },
    }
}

} // verus!

verus! {

/// The failure of the conditional step `e`.
fn reject(e: Effect) -> (r: Result<Outcome, Error>)
    ensures
        r == rejected(e),
{
    Err(Error::UnresolvedActionEffect(e.description()))
}

/// Cellar: the active player discards the selected cards from hand and draws as many.
pub fn cellar_discard(arena: &mut Arena, player_id: usize, cards: &[CardKind]) -> (r: Result<Outcome, Error>)
    requires
        old(arena).wf(),
        player_id < old(arena).players@.len(),
    ensures
        cellar_discard_post(*old(arena), *final(arena), player_id, cards@, r),
{
    let me = arena.current_player_id;
    if player_id != me || !contains_all(arena.players[me].hand.0.as_slice(), cards) {
        return reject(Effect::CellarDiscard);
    }
    let ghost a0 = *arena;
    let _ = arena.players[me].hand_to_discard(cards);
    proof {
        lemma_total_frame(a0, *arena, me as int);
    }
    let ghost a1 = *arena;
    assert(a0.cur().draw_pile@.take(a0.cur().draw_pile@.len() as int) =~= a0.cur().draw_pile@);
    let mut i: usize = 0;
    while i < cards.len()
        invariant
            i <= cards@.len(),
            me == a0.current_player_id,
            arena.wf(),
            arena.players@.len() == a0.players@.len(),
            arena.current_player_id == me,
            arena.actions == a0.actions,
            shared_same(a0, *arena),
            others_same(a0, *arena, me as int),
            forall|k: CardKind| #[trigger] arena.total(k) == a0.total(k),
            drawable(a1.cur()) >= cards@.len(),
            arena.cur().hand@.len() == a1.cur().hand@.len() + i,
            drawable(arena.cur()) + i == drawable(a1.cur()),
            arena.cur().play_zone == a0.cur().play_zone,
            arena.cur().stage == a0.cur().stage,
            a1.cur().draw_pile == a0.cur().draw_pile,
            a1.cur().discard_pile@ == a0.cur().discard_pile@ + cards@,
            a0.cur().draw_pile@.len() >= cards@.len() ==> arena.cur().discard_pile@ == a1.cur().discard_pile@
                && arena.cur().draw_pile@ == a0.cur().draw_pile@.take(a0.cur().draw_pile@.len() - i),
        decreases cards@.len() - i,
    {
        let ghost b = *arena;
        let ghost dp = arena.cur().draw_pile@;
        arena.players[me].draw_card(&mut arena.rng);
        proof {
            if a0.cur().draw_pile@.len() >= cards@.len() {
                assert(dp.drop_last() =~= a0.cur().draw_pile@.take(a0.cur().draw_pile@.len() - i - 1));
            }
            lemma_total_frame(b, *arena, me as int);
        }
        i = i + 1;
    }
    Ok(Outcome::Nothing)
}

/// Chapel: the active player trashes up to four selected cards from hand.
pub fn chapel_trash(arena: &mut Arena, player_id: usize, cards: &[CardKind]) -> (r: Result<Outcome, Error>)
    requires
        old(arena).wf(),
        player_id < old(arena).players@.len(),
    ensures
        chapel_trash_post(*old(arena), *final(arena), player_id, cards@, r),
{
    let me = arena.current_player_id;
    if player_id != me || cards.len() > 4 || !contains_all(arena.players[me].hand.0.as_slice(), cards) {
        return reject(Effect::ChapelTrash);
    }
    let ghost a0 = *arena;
    let _ = arena.players[me].hand.move_all_cards(&mut arena.trash, cards);
    proof {
        lemma_total_frame(a0, *arena, me as int);
        assert forall|k: CardKind| #[trigger] arena.total(k) == a0.total(k) by {
            lemma_count_add(a0.trash@, cards@, k);
        }
    }
    Ok(Outcome::Nothing)
}

/// Harbinger: the active player may put one card of the discard pile onto the deck.
pub fn harbinger_topdeck(arena: &mut Arena, player_id: usize, cards: &[CardKind]) -> (r: Result<Outcome, Error>)
    requires
        old(arena).wf(),
        player_id < old(arena).players@.len(),
    ensures
        harbinger_topdeck_post(*old(arena), *final(arena), player_id, cards@, r),
{
    let me = arena.current_player_id;
    if player_id != me || cards.len() > 1 {
        return reject(Effect::HarbingerTopdeck);
    }
    if cards.len() == 0 {
        return Ok(Outcome::Nothing);
    }
    if count_in_vec(&arena.players[me].discard_pile, cards[0]) == 0 {
        return reject(Effect::HarbingerTopdeck);
    }
    let ghost a0 = *arena;
    let _ = arena.players[me].discard_to_draw(cards[0]);
    proof {
        lemma_total_frame(a0, *arena, me as int);
    }
    Ok(Outcome::Nothing)
}

/// The number of cards of kind `k` in `v`.
fn count_in_vec(v: &CardVec, k: CardKind) -> (r: usize)
    ensures
        r == count(v@, k),
        r > 0 <==> v@.contains(k),
{
    proof {
        crate::location::lemma_count_contains(v@, k);
    }
    crate::location::count_in(v.0.as_slice(), k)
}

/// Vassal, first part: the top card of the active player's deck is discarded; when it
/// is an action card, the choice to play it follows.
pub fn vassal_reveal(arena: &mut Arena) -> (r: Outcome)
    requires
        old(arena).wf(),
    ensures
        vassal_reveal_post(*old(arena), *final(arena), r),
{
    let me = arena.current_player_id;
    if arena.players[me].draw_pile.len() == 0 {
        return Outcome::Nothing;
    }
    let ghost a0 = *arena;
    let c = arena.players[me].discard_top();
    proof {
        lemma_total_frame(a0, *arena, me as int);
    }
    match c {
        Some(card) => if card.is_action() {
            Outcome::Effect(Effect::VassalPlay)
        } else {
            Outcome::Nothing
        },
        None => Outcome::Nothing,
    }
}

/// Vassal, second part: the active player names the discarded action card to play
/// it, or selects nothing.
pub fn vassal_play(arena: &mut Arena, player_id: usize, cards: &[CardKind]) -> (r: Result<Outcome, Error>)
    requires
        old(arena).wf(),
        player_id < old(arena).players@.len(),
    ensures
        vassal_play_post(*old(arena), *final(arena), player_id, cards@, r),
{
    let me = arena.current_player_id;
    if player_id != me || cards.len() > 1 {
        return reject(Effect::VassalPlay);
    }
    if cards.len() == 0 {
        return Ok(Outcome::Nothing);
    }
    let n = arena.players[me].discard_pile.len();
    if n == 0 || arena.players[me].discard_pile.0[n - 1] != cards[0] {
        return reject(Effect::VassalPlay);
    }
    Ok(Outcome::Actions(CardActionQueue::from_card(cards[0])))
}

/// Workshop: the active player gains a card costing up to 4; selecting nothing is
/// allowed only when no such card is left.
pub fn workshop_gain(arena: &mut Arena, player_id: usize, cards: &[CardKind]) -> (r: Result<Outcome, Error>)
    requires
        old(arena).wf(),
        player_id < old(arena).players@.len(),
    ensures
        workshop_gain_post(*old(arena), *final(arena), player_id, cards@, r),
{
    let me = arena.current_player_id;
    if player_id != me || cards.len() > 1 {
        return reject(Effect::WorkshopGain);
    }
    if cards.len() == 0 {
        if arena.supply.any_affordable(4) {
            return reject(Effect::WorkshopGain);
        }
        return Ok(Outcome::Nothing);
    }
    let c = cards[0];
    if c.cost() > 4 {
        return reject(Effect::WorkshopGain);
    }
    match arena.supply.get_count(c) {
        Some(n) => if n == 0 {
            return reject(Effect::WorkshopGain);
        },
        None => {
            proof {
                crate::supply::lemma_pile_index(arena.supply.entries(), c);
            }
            return reject(Effect::WorkshopGain);
        },
    }
    let ghost a0 = *arena;
    let _ = arena.supply.move_card(&mut arena.players[me].discard_pile, c);
    proof {
        lemma_total_frame(a0, *arena, me as int);
        assert forall|k: CardKind| #[trigger] arena.total(k) == a0.total(k) by {
            lemma_count_push(a0.cur().discard_pile@, c, k);
        }
    }
    Ok(Outcome::Nothing)
}

/// Bureaucrat, first part: a silver from the supply goes onto the active player's
/// deck, if one is left.
pub fn bureaucrat_gain_silver(arena: &mut Arena) -> (r: Outcome)
    requires
        old(arena).wf(),
    ensures
        bureaucrat_gain_silver_post(*old(arena), *final(arena), r),
{
    let me = arena.current_player_id;
    match arena.supply.get_count(CardKind::Silver) {
        Some(n) => if n == 0 {
            return Outcome::Nothing;
        },
        None => {
            proof {
                crate::supply::lemma_pile_index(arena.supply.entries(), CardKind::Silver);
            }
            return Outcome::Nothing;
        },
    }
    let ghost a0 = *arena;
    let _ = arena.supply.move_card(&mut arena.players[me].draw_pile, CardKind::Silver);
    proof {
        lemma_total_frame(a0, *arena, me as int);
        assert forall|k: CardKind| #[trigger] arena.total(k) == a0.total(k) by {
            lemma_count_push(a0.cur().draw_pile@, CardKind::Silver, k);
        }
    }
    Outcome::Nothing
}

/// True when `v` holds a victory card.
fn has_victory(v: &CardVec) -> (r: bool)
    ensures
        r == exists|i: int| 0 <= i < v@.len() && (#[trigger] v@[i]).spec_is_victory(),
{
    let mut i: usize = 0;
    while i < v.0.len()
        invariant
            i <= v@.len(),
            forall|j: int| 0 <= j < i ==> !(#[trigger] v@[j]).spec_is_victory(),
        decreases v@.len() - i,
    {
        if v.0[i].is_victory() {
            return true;
        }
        i = i + 1;
    }
    false
}

/// Bureaucrat, second part: another player puts a victory card from hand onto the
/// deck, or shows a hand without one by selecting nothing.
pub fn bureaucrat_reveal(arena: &mut Arena, player_id: usize, cards: &[CardKind]) -> (r: Result<Outcome, Error>)
    requires
        old(arena).wf(),
        player_id < old(arena).players@.len(),
    ensures
        bureaucrat_reveal_post(*old(arena), *final(arena), player_id, cards@, r),
{
    if player_id == arena.current_player_id || cards.len() > 1 {
        return reject(Effect::BureaucratReveal);
    }
    if cards.len() == 0 {
        if has_victory(&arena.players[player_id].hand) {
            return reject(Effect::BureaucratReveal);
        }
        return Ok(Outcome::Nothing);
    }
    if !cards[0].is_victory() || count_in_vec(&arena.players[player_id].hand, cards[0]) == 0 {
        return reject(Effect::BureaucratReveal);
    }
    let ghost a0 = *arena;
    let _ = arena.players[player_id].hand_to_draw(cards[0]);
    proof {
        lemma_total_frame(a0, *arena, player_id as int);
    }
    Ok(Outcome::Nothing)
}

/// Militia: another player discards down to three cards; with three or fewer the
/// selection must be empty.
pub fn militia_discard(arena: &mut Arena, player_id: usize, cards: &[CardKind]) -> (r: Result<Outcome, Error>)
    requires
        old(arena).wf(),
        player_id < old(arena).players@.len(),
    ensures
        militia_discard_post(*old(arena), *final(arena), player_id, cards@, r),
{
    if player_id == arena.current_player_id {
        return reject(Effect::MilitiaDiscard);
    }
    let n = arena.players[player_id].hand.len();
    let ok = if n <= 3 {
        cards.len() == 0
    } else {
        n - 3 == cards.len() && contains_all(arena.players[player_id].hand.0.as_slice(), cards)
    };
    if !ok {
        return reject(Effect::MilitiaDiscard);
    }
    let ghost a0 = *arena;
    proof {
        if n <= 3 {
            assert forall|k: CardKind| #[trigger] count(cards@, k) <= count(a0.players@[player_id as int].hand@, k) by {
                crate::location::lemma_count_empty(k);
                assert(cards@ =~= Seq::<CardKind>::empty());
            }
        }
    }
    let _ = arena.players[player_id].hand_to_discard(cards);
    proof {
        lemma_total_frame(a0, *arena, player_id as int);
    }
    Ok(Outcome::Nothing)
}

/// Moneylender: the active player may trash a copper from hand for three more resource.
pub fn moneylender_trash(arena: &mut Arena, player_id: usize, cards: &[CardKind]) -> (r: Result<Outcome, Error>)
    requires
        old(arena).wf(),
        old(arena).turn is Action,
        player_id < old(arena).players@.len(),
    ensures
        moneylender_trash_post(*old(arena), *final(arena), player_id, cards@, r),
{
    let me = arena.current_player_id;
    if player_id != me || cards.len() > 1 {
        return reject(Effect::MoneylenderTrash);
    }
    if cards.len() == 0 {
        return Ok(Outcome::Nothing);
    }
    if cards[0] != CardKind::Copper || count_in_vec(&arena.players[me].hand, CardKind::Copper) == 0 {
        return reject(Effect::MoneylenderTrash);
    }
    match &mut arena.turn {
        Turn::Action(a) => {
            a.remaining_copper = a.remaining_copper.saturating_add(3);
        },
        Turn::Buy(_) => {},
    }
    let ghost a0 = *arena;
    proof {
        crate::location::lemma_first_index(a0.cur().hand@, CardKind::Copper);
    }
    let _ = arena.players[me].hand.move_card(&mut arena.trash, CardKind::Copper);
    proof {
        lemma_total_frame(a0, *arena, me as int);
        assert forall|k: CardKind| #[trigger] arena.total(k) == a0.total(k) by {
            lemma_count_push(a0.trash@, CardKind::Copper, k);
            crate::location::lemma_count_remove(
                a0.cur().hand@,
                crate::location::first_index(a0.cur().hand@, CardKind::Copper),
                k,
            );
        }
    }
    Ok(Outcome::Nothing)
}

/// Poacher, first part: with empty supply piles, the discard choice follows.
pub fn poacher_check(arena: &mut Arena) -> (r: Outcome)
    requires
        old(arena).wf(),
    ensures
        poacher_check_post(*old(arena), *final(arena), r),
{
    if empty_count(arena) > 0 {
        Outcome::Effect(Effect::PoacherDiscard)
    } else {
        Outcome::Nothing
    }
}

/// The number of cards the poacher's discard asks for: one per empty pile, at most
/// the hand.
pub fn empty_count(arena: &Arena) -> (r: usize)
    requires
        arena.wf(),
    ensures
        r == poacher_count(*arena),
{
    let n = arena.supply.count_empty();
    let h = arena.players[arena.current_player_id].hand.len();
    if h < n {
        h
    } else {
        n
    }
}

/// Poacher, second part: the active player discards exactly one card per empty pile
/// (at most the whole hand).
pub fn poacher_discard(arena: &mut Arena, player_id: usize, cards: &[CardKind]) -> (r: Result<Outcome, Error>)
    requires
        old(arena).wf(),
        player_id < old(arena).players@.len(),
    ensures
        poacher_discard_post(*old(arena), *final(arena), player_id, cards@, r),
{
    let me = arena.current_player_id;
    if player_id != me || cards.len() != empty_count(arena) || !contains_all(
        arena.players[me].hand.0.as_slice(),
        cards,
    ) {
        return reject(Effect::PoacherDiscard);
    }
    let ghost a0 = *arena;
    let _ = arena.players[me].hand_to_discard(cards);
    proof {
        lemma_total_frame(a0, *arena, me as int);
    }
    Ok(Outcome::Nothing)
}

/// Throne Room: the active player plays an action card from hand twice, or selects
/// nothing.
pub fn throne_room_replay(arena: &mut Arena, player_id: usize, cards: &[CardKind]) -> (r: Result<Outcome, Error>)
    requires
        old(arena).wf(),
        player_id < old(arena).players@.len(),
    ensures
        throne_room_replay_post(*old(arena), *final(arena), player_id, cards@, r),
{
    let me = arena.current_player_id;
    if player_id != me || cards.len() > 1 {
        return reject(Effect::ThroneRoomReplay);
    }
    if cards.len() == 0 {
        return Ok(Outcome::Nothing);
    }
    let c = cards[0];
    if !c.is_action() || count_in_vec(&arena.players[me].hand, c) == 0 {
        return reject(Effect::ThroneRoomReplay);
    }
    let ghost a0 = *arena;
    let _ = arena.players[me].hand_to_play(c);
    proof {
        lemma_total_frame(a0, *arena, me as int);
    }
    let mut q = CardActionQueue::from_card(c);
    q.add_card(c);
    Ok(Outcome::Actions(q))
}

} // verus!

verus! {

/// What the conditional step `e` does on the selection `cards` of `pid`.
pub open spec fn cond_post(e: Effect, a: Arena, b: Arena, pid: usize, cards: Seq<CardKind>, r: Result<Outcome, Error>) -> bool {
    match e {
        Effect::CellarDiscard => cellar_discard_post(a, b, pid, cards, r),
        Effect::ChapelTrash => chapel_trash_post(a, b, pid, cards, r),
        Effect::HarbingerTopdeck => harbinger_topdeck_post(a, b, pid, cards, r),
        Effect::VassalPlay => vassal_play_post(a, b, pid, cards, r),
        Effect::WorkshopGain => workshop_gain_post(a, b, pid, cards, r),
        Effect::BureaucratReveal => bureaucrat_reveal_post(a, b, pid, cards, r),
        Effect::MilitiaDiscard => militia_discard_post(a, b, pid, cards, r),
        Effect::MoneylenderTrash => moneylender_trash_post(a, b, pid, cards, r),
        Effect::PoacherDiscard => poacher_discard_post(a, b, pid, cards, r),
        Effect::ThroneRoomReplay => throne_room_replay_post(a, b, pid, cards, r),
        _ => r == rejected(e) && b == a,
    }
}

/// What the unconditional step `e` of a played card of kind `card` does.
pub open spec fn uncond_post(e: Effect, a: Arena, b: Arena, card: CardKind, r: Outcome) -> bool {
    match e {
        Effect::VassalReveal => vassal_reveal_post(a, b, r),
        Effect::BureaucratGainSilver => bureaucrat_gain_silver_post(a, b, r),
        Effect::PoacherCheck => poacher_check_post(a, b, r),
        _ => add_resources_post(a, b, card) && r == Outcome::Nothing,
    }
}

/// Runs the conditional step `e` on the selection `cards` made by `player_id`.
pub fn evaluate_conditional(arena: &mut Arena, e: Effect, player_id: usize, cards: &[CardKind]) -> (r: Result<Outcome, Error>)
    requires
        old(arena).wf(),
        old(arena).turn is Action,
        player_id < old(arena).players@.len(),
        e.spec_is_conditional(),
    ensures
        !accepts(*old(arena), e, player_id, cards@) ==> r == rejected(e) && *final(arena) == *old(arena),
        accepts(*old(arena), e, player_id, cards@) ==> r is Ok && step_frame(*old(arena), *final(arena))
            && spawned_wf(r->Ok_0) && !(r->Ok_0 is Effect),
        cond_post(e, *old(arena), *final(arena), player_id, cards@, r),
{
    match e {
        Effect::CellarDiscard => cellar_discard(arena, player_id, cards),
        Effect::ChapelTrash => chapel_trash(arena, player_id, cards),
        Effect::HarbingerTopdeck => harbinger_topdeck(arena, player_id, cards),
        Effect::VassalPlay => vassal_play(arena, player_id, cards),
        Effect::WorkshopGain => workshop_gain(arena, player_id, cards),
        Effect::BureaucratReveal => bureaucrat_reveal(arena, player_id, cards),
        Effect::MilitiaDiscard => militia_discard(arena, player_id, cards),
        Effect::MoneylenderTrash => moneylender_trash(arena, player_id, cards),
        Effect::PoacherDiscard => poacher_discard(arena, player_id, cards),
        Effect::ThroneRoomReplay => throne_room_replay(arena, player_id, cards),
        _ => reject(e),
    }
}

/// Runs the unconditional step `e` of a played card of kind `card`.
pub fn evaluate_unconditional(arena: &mut Arena, e: Effect, card: CardKind) -> (r: Outcome)
    requires
        old(arena).wf(),
        old(arena).turn is Action,
        !e.spec_is_conditional(),
    ensures
        step_frame(*old(arena), *final(arena)),
        r is Nothing || (e is VassalReveal && r == Outcome::Effect(Effect::VassalPlay)) || (
        e is PoacherCheck && r == Outcome::Effect(Effect::PoacherDiscard)),
        uncond_post(e, *old(arena), *final(arena), card, r),
{
    match e {
        Effect::VassalReveal => vassal_reveal(arena),
        Effect::BureaucratGainSilver => bureaucrat_gain_silver(arena),
        Effect::PoacherCheck => poacher_check(arena),
        _ => {
            add_resources(arena, card);
            Outcome::Nothing
        },
    }
}

/// The front step is conditional and cannot take what `pid` selected.
pub open spec fn stuck(a: Arena, pid: usize, sel: Option<Seq<CardKind>>) -> bool {
    !a.resolved() && front_step(a.actions.actions@).spec_is_conditional() && (sel is None
        || !accepts(a, front_step(a.actions.actions@), pid, sel->0))
}

/// The cards of a selection, if one was made.
pub open spec fn sel_view(sel: Option<&[CardKind]>) -> Option<Seq<CardKind>> {
    match sel {
        Some(s) => Some(s@),
        None => None,
    }
}

/// A step that runs on its own and adds nothing behind it.
pub open spec fn plain_step(e: Effect) -> bool {
    e is AddResources || e is BureaucratGainSilver
}

/// Every queued step is plain, so the queue drains without a selection.
pub open spec fn plain_queue(q: Seq<CardAction>) -> bool {
    forall|i: int, j: int|
        0 <= i < q.len() && 0 <= j < q[i].effects@.len() ==> plain_step(#[trigger] q[i].effects@[j])
}

/// The played cards an outcome adds to the back of the queue.
pub open spec fn spawned(o: Outcome) -> Seq<CardAction> {
    if o is Actions {
        o->Actions_0.actions@
    } else {
        Seq::empty()
    }
}

/// `q2` is the queue `q` once its front step has run with outcome `o`: the step is
/// gone, a step the outcome names is added behind the card's other steps, a card
/// with no step left leaves the queue, and spawned cards go to the back.
pub open spec fn queue_next(q: Seq<CardAction>, o: Outcome, q2: Seq<CardAction>) -> bool {
    let rest = q[0].effects@.drop_first();
    let effs = if o is Effect {
        rest.push(o->Effect_0)
    } else {
        rest
    };
    if effs.len() == 0 {
        q2 == q.drop_first() + spawned(o)
    } else {
        &&& q2.len() == q.len() + spawned(o).len()
        &&& q2[0].card == q[0].card
        &&& q2[0].effects@ == effs
        &&& forall|i: int| 1 <= i < q.len() ==> q2[i] == q[i]
        &&& forall|j: int| 0 <= j < spawned(o).len() ==> q2[q.len() + j] == spawned(o)[j]
    }
}

/// `t` is `m` with only the queue changed.
pub open spec fn same_but_queue(m: Arena, t: Arena) -> bool {
    &&& t.supply == m.supply
    &&& t.trash == m.trash
    &&& t.players == m.players
    &&& t.turn == m.turn
    &&& t.current_player_id == m.current_player_id
    &&& t.rng == m.rng
}

/// A moment of a drain: the game, the selection not yet used, and who made it.
pub type DrainState = (Arena, Option<Seq<CardKind>>, usize);

/// From `x` to `y` the front step ran: a conditional one accepted the unused
/// selection and used it up, an unconditional one ran on its own; `m` is the game
/// right after the step, `o` its outcome.
pub open spec fn step_via(x: DrainState, y: DrainState, o: Outcome, m: Arena) -> bool {
    let s = x.0;
    let q = s.actions.actions@;
    &&& q.len() > 0
    &&& if front_step(q).spec_is_conditional() {
        &&& x.1 is Some
        &&& accepts(s, front_step(q), x.2, x.1->0)
        &&& cond_post(front_step(q), s, m, x.2, x.1->0, Ok(o))
        &&& y.1 is None
        &&& y.2 == s.current_player_id
    } else {
        &&& uncond_post(front_step(q), s, m, q[0].card, o)
        &&& y.1 == x.1
        &&& y.2 == x.2
    }
    &&& same_but_queue(m, y.0)
    &&& queue_next(q, o, y.0.actions.actions@)
}

/// One step of the drain leads from `x` to `y`.
pub open spec fn step_of(x: DrainState, y: DrainState) -> bool {
    exists|o: Outcome, m: Arena| #[trigger] step_via(x, y, o, m)
}

/// Each moment of `tr` follows from the one before by one step.
pub open spec fn is_run(tr: Seq<DrainState>) -> bool {
    &&& tr.len() >= 1
    &&& forall|i: int| #![trigger tr[i]] 0 <= i < tr.len() - 1 ==> step_of(tr[i], tr[i + 1])
}

/// The drain stops at `x` with `r`: the queue is empty, or its front step is
/// conditional and has no usable selection.
pub open spec fn halted(x: DrainState, r: Result<(), Error>) -> bool {
    if x.0.resolved() {
        r is Ok
    } else {
        let e = front_step(x.0.actions.actions@);
        &&& e.spec_is_conditional()
        &&& x.1 is None || !accepts(x.0, e, x.2, x.1->0)
        &&& r == Err::<(), Error>(Error::UnresolvedActionEffect(e.spec_description()))
    }
}

/// `tr` runs from `a` with selection `sel` of `pid` to `b`, where it stops with `r`.
pub open spec fn run_from(
    tr: Seq<DrainState>,
    a: Arena,
    b: Arena,
    pid: usize,
    sel: Option<Seq<CardKind>>,
    r: Result<(), Error>,
) -> bool {
    &&& is_run(tr)
    &&& tr[0] == (a, sel, pid)
    &&& tr.last().0 == b
    &&& halted(tr.last(), r)
}

/// `b` and `r` come from draining the queue of `a` step by step.
pub open spec fn drained(a: Arena, b: Arena, pid: usize, sel: Option<Seq<CardKind>>, r: Result<(), Error>) -> bool {
    exists|tr: Seq<DrainState>| #[trigger] run_from(tr, a, b, pid, sel, r)
}

/// A queue holding one played card of kind `card` whose only step is its template
/// drains in that one step: the result is the template applied, and `Ok`.
pub proof fn lemma_single_template(
    a: Arena,
    b: Arena,
    pid: usize,
    sel: Option<Seq<CardKind>>,
    r: Result<(), Error>,
)
    requires
        drained(a, b, pid, sel, r),
        a.actions.actions@.len() == 1,
        a.actions.actions@[0].effects@ == seq![Effect::AddResources],
    ensures
        r is Ok,
        exists|m: Arena| add_resources_post(a, m, a.actions.actions@[0].card) && #[trigger] same_but_queue(m, b),
{
    let tr = choose|tr: Seq<DrainState>| #[trigger] run_from(tr, a, b, pid, sel, r);
    assert(tr[0].0 == a);
    assert(!halted(tr[0], r) || tr.len() > 1) by {
        assert(!a.resolved());
    }
    assert(tr.len() > 1);
    assert(step_of(tr[0], tr[1]));
    let (o, m) = choose|o: Outcome, m: Arena| #[trigger] step_via(tr[0], tr[1], o, m);
    assert(front_step(a.actions.actions@) == Effect::AddResources);
    assert(tr[1].0.actions.actions@ =~= Seq::<CardAction>::empty());
    if tr.len() > 2 {
        assert(step_of(tr[1], tr[2]));
        let (o2, m2) = choose|o2: Outcome, m2: Arena| #[trigger] step_via(tr[1], tr[2], o2, m2);
        assert(false);
    }
    assert(tr.last() == tr[1]);
    assert(same_but_queue(m, b));
}

/// What a call of `resolve` from `a` to `b` guarantees.
pub open spec fn resolve_post(
    a: Arena,
    b: Arena,
    pid: usize,
    sel: Option<Seq<CardKind>>,
    r: Result<(), Error>,
) -> bool {
    &&& b.wf()
    &&& b.players@.len() == a.players@.len()
    &&& b.current_player_id == a.current_player_id
    &&& (b.turn is Action <==> a.turn is Action)
    &&& forall|k: CardKind| #[trigger] b.total(k) == a.total(k)
    &&& a.cur().play_zone@.is_prefix_of(b.cur().play_zone@)
    &&& counters_grow(a.turn, b.turn)
    &&& (r is Ok <==> b.resolved())
    &&& a.resolved() ==> b == a && r is Ok
    &&& drained(a, b, pid, sel, r)
    &&& plain_queue(a.actions.actions@) ==> r is Ok
    &&& r is Err ==> front_step(b.actions.actions@).spec_is_conditional() && r == Err::<(), Error>(
        Error::UnresolvedActionEffect(front_step(b.actions.actions@).spec_description()),
    )
    &&& stuck(a, pid, sel) ==> b == a && r == Err::<(), Error>(
        Error::UnresolvedActionEffect(front_step(a.actions.actions@).spec_description()),
    )
}

/// Drains the queue front to back. The selection, if any, answers the first
/// conditional step reached and no later one; the first step that cannot run stops
/// the drain and its description is returned.
pub fn resolve(arena: &mut Arena, player_id: usize, selected_cards: Option<&[CardKind]>) -> (r: Result<(), Error>)
    requires
        old(arena).wf(),
        player_id < old(arena).players@.len(),
    ensures
        resolve_post(*old(arena), *final(arena), player_id, sel_view(selected_cards), r),
{
    let ghost a0 = *arena;
    let mut pid = player_id;
    let mut sel = selected_cards;
    let ghost mut untouched = true;
    let ghost mut tr: Seq<DrainState> = seq![(a0, sel_view(selected_cards), player_id)];
    loop
        invariant
            a0 == *old(arena),
            is_run(tr),
            tr[0] == (a0, sel_view(selected_cards), player_id),
            tr.last() == (*arena, sel_view(sel), pid),
            arena.wf(),
            pid < arena.players@.len(),
            arena.players@.len() == a0.players@.len(),
            arena.current_player_id == a0.current_player_id,
            arena.turn is Action <==> a0.turn is Action,
            forall|k: CardKind| #[trigger] arena.total(k) == a0.total(k),
            untouched ==> *arena == a0 && pid == player_id && sel == selected_cards,
            stuck(a0, player_id, sel_view(selected_cards)) ==> untouched,
            a0.resolved() ==> untouched,
            plain_queue(a0.actions.actions@) ==> plain_queue(arena.actions.actions@),
            a0.cur().play_zone@.is_prefix_of(arena.cur().play_zone@),
            counters_grow(a0.turn, arena.turn),
        decreases (if sel is Some {
            1nat
        } else {
            0nat
        }), queue_weight(arena.actions.actions@),
    {
        if arena.actions.actions.len() == 0 {
            proof {
                assert(run_from(tr, a0, *arena, player_id, sel_view(selected_cards), Ok(())));
            }
            return Ok(());
        }
        let ghost s0 = *arena;
        let card = arena.actions.actions[0].card;
        let step = arena.actions.actions[0].effects[0];
        let ghost q0 = arena.actions.actions@;
        proof {
            assert(q0[0].effects@.len() > 0);
        }
        let conditional = step.is_conditional();
        let outcome = if conditional {
            match sel {
                None => {
                    proof {
                        assert(run_from(
                            tr,
                            a0,
                            *arena,
                            player_id,
                            sel_view(selected_cards),
                            Err(Error::UnresolvedActionEffect(step.spec_description())),
                        ));
                    }
                    return Err(Error::UnresolvedActionEffect(step.description()));
                },
                Some(cards) => match evaluate_conditional(arena, step, pid, cards) {
                    Err(e) => {
                        proof {
                            assert(!accepts(s0, step, pid, cards@));
                            assert(run_from(
                                tr,
                                a0,
                                *arena,
                                player_id,
                                sel_view(selected_cards),
                                Err(e),
                            ));
                        }
                        return Err(e);
                    },
                    Ok(o) => o,
                },
            }
        } else {
            evaluate_unconditional(arena, step, card)
        };
        let ghost q1 = arena.actions.actions@;
        let ghost out = outcome;
        let ghost a1 = *arena;
        assert(forall|k: CardKind| #[trigger] a1.total(k) == a0.total(k));
        assert(q1 == q0);
        arena.actions.actions[0].effects.remove(0);
        match outcome {
            Outcome::Actions(mut q) => {
                arena.actions.actions.append(&mut q.actions);
            },
            Outcome::Effect(e) => {
                arena.actions.actions[0].effects.push(e);
            },
            Outcome::Nothing => {},
        }
        let ghost q2 = arena.actions.actions@;
        proof {
            if plain_queue(q0) {
                assert(plain_step(q0[0].effects@[0]));
                assert(out is Nothing);
                assert forall|i: int, j: int|
                    0 <= i < q2.len() && 0 <= j < q2[i].effects@.len() implies plain_step(#[trigger] q2[i].effects@[j]) by {
                    if i == 0 {
                        assert(q2[0].effects@[j] == q0[0].effects@[j + 1]);
                    } else {
                        assert(q2[i] == q0[i]);
                    }
                }
            }
            if !conditional {
                assert(q2.drop_first() =~= q0.drop_first());
                assert(q0[0].effects@.drop_first() =~= q0[0].effects@.remove(0));
                match out {
                    Outcome::Effect(e) => {
                        lemma_steps_weight_push(q0[0].effects@.remove(0), e);
                    },
                    _ => {},
                }
                assert(queue_weight(q2) < queue_weight(q0));
            }
        }
        if arena.actions.actions[0].effects.len() == 0 {
            arena.actions.actions.remove(0);
            proof {
                assert(arena.actions.actions@ =~= q2.drop_first());
                if plain_queue(q2) {
                    assert forall|i: int, j: int|
                        0 <= i < arena.actions.actions@.len() && 0 <= j < arena.actions.actions@[i].effects@.len()
                        implies plain_step(#[trigger] arena.actions.actions@[i].effects@[j]) by {
                        assert(arena.actions.actions@[i] == q2[i + 1]);
                    }
                }
            }
        }
        proof {
            assert forall|i: int| 0 <= i < arena.actions.actions@.len() implies (#[trigger] arena.actions.actions@[i]).effects@.len() > 0 by {
                if q2[0].effects@.len() == 0 {
                    assert(arena.actions.actions@[i] == q2[i + 1]);
                }
            }
        }
        assert(arena.players == a1.players && arena.trash == a1.trash && arena.supply == a1.supply);
        assert(forall|k: CardKind| #[trigger] arena.total(k) == a1.total(k));
        let ghost x = (s0, sel_view(sel), pid);
        if conditional {
            sel = None;
            pid = arena.current_player_id;
        }
        proof {
            untouched = false;
            let y = (*arena, sel_view(sel), pid);
            let qf = arena.actions.actions@;
            let rest = q0[0].effects@.drop_first();
            let effs = if out is Effect {
                rest.push(out->Effect_0)
            } else {
                rest
            };
            assert(q2[0].effects@ =~= effs);
            if effs.len() == 0 {
                assert(qf =~= q0.drop_first() + spawned(out));
            } else {
                assert(qf == q2);
                assert(forall|i: int| 1 <= i < q0.len() ==> qf[i] == q0[i]);
                assert(forall|j: int| 0 <= j < spawned(out).len() ==> qf[q0.len() + j] == spawned(out)[j]);
            }
            assert(queue_next(q0, out, qf));
            assert(same_but_queue(a1, *arena));
            assert(step_via(x, y, out, a1));
            let tr2 = tr.push(y);
            assert forall|i: int| #![trigger tr2[i]] 0 <= i < tr2.len() - 1 implies step_of(tr2[i], tr2[i + 1]) by {
                if i < tr.len() - 1 {
                    assert(tr2[i] == tr[i] && tr2[i + 1] == tr[i + 1]);
                } else {
                    assert(tr2[i] == x && tr2[i + 1] == y);
                }
            }
            tr = tr2;
        }
    }
}

} // verus!

verus! {

/// After a failed resolution one conditional step blocks the queue and the failure
/// names it; a further attempt that this step refuses changes nothing and reports
/// the same description.
pub proof fn lemma_one_decision(
    a0: Arena,
    a1: Arena,
    a2: Arena,
    p1: usize,
    s1: Option<Seq<CardKind>>,
    r1: Result<(), Error>,
    p2: usize,
    s2: Option<Seq<CardKind>>,
    r2: Result<(), Error>,
)
    requires
        resolve_post(a0, a1, p1, s1, r1),
        r1 is Err,
        resolve_post(a1, a2, p2, s2, r2),
        s2 is None || !accepts(a1, front_step(a1.actions.actions@), p2, s2->0),
    ensures
        !a1.resolved(),
        front_step(a1.actions.actions@).spec_is_conditional(),
        r1 == Err::<(), Error>(
            Error::UnresolvedActionEffect(front_step(a1.actions.actions@).spec_description()),
        ),
        a2 == a1,
        r2 == r1,
{
}

/// Militia against a five-card hand: a selection of any size but two is refused
/// and leaves the game as it was; an accepted selection has two cards, so three
/// stay in hand.
pub proof fn lemma_militia_bounds(a: Arena, pid: usize, sel: Seq<CardKind>)
    requires
        a.wf(),
        pid < a.players@.len(),
        pid != a.current_player_id,
        a.players@[pid as int].hand@.len() == 5,
        !a.resolved(),
        front_step(a.actions.actions@) == Effect::MilitiaDiscard,
    ensures
        sel.len() != 2 ==> stuck(a, pid, Some(sel)),
        accepts(a, Effect::MilitiaDiscard, pid, sel) ==> sel.len() == 2
            && a.players@[pid as int].hand@.len() - sel.len() == 3,
{
}

} // verus!
