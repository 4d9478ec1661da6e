use crate::card::CardKind;
use crate::effect::{
    counters_grow, effects_of, front_step, queue_wf, resolve, resolve_post, sel_view,
    CardActionQueue,
};
use crate::kingdom::KingdomSet;
use crate::location::{count, first_index, CardVec};
use crate::player::{drawable, player_count, seeded_rng, Player};
use crate::supply::{Entry, Supply};
use crate::turn::{initial_turn, ActionPhase, BuyPhase, Turn};
use crate::types::{Error, Location, LocationView};
use rand::rngs::StdRng;
use vstd::prelude::*;

verus! {

/// Cards of kind `k` owned by the players of `ps`.
pub open spec fn players_count(ps: Seq<Player>, k: CardKind) -> nat
    decreases ps.len(),
{
    if ps.len() == 0 {
        0
    } else {
        players_count(ps.drop_last(), k) + player_count(ps.last(), k)
    }
}

pub proof fn lemma_players_update(ps: Seq<Player>, i: int, p: Player, k: CardKind)
    requires
        0 <= i < ps.len(),
    ensures
        players_count(ps.update(i, p), k) + player_count(ps[i], k) == players_count(ps, k)
            + player_count(p, k),
    decreases ps.len(),
{
    let u = ps.update(i, p);
    if i == ps.len() - 1 {
        assert(u.drop_last() =~= ps.drop_last());
    } else {
        lemma_players_update(ps.drop_last(), i, p, k);
        assert(u.drop_last() =~= ps.drop_last().update(i, p));
    }
}

/// Replacing player `i` moves the totals by that player's difference only.
pub proof fn lemma_total_frame(a: Arena, b: Arena, i: int)
    requires
        0 <= i < a.players@.len(),
        b.players@ == a.players@.update(i, b.players@[i]),
    ensures
        forall|k: CardKind|
            #[trigger] b.total(k) + player_count(a.players@[i], k) + count(a.trash@, k)
                + a.supply.count(k) == a.total(k) + player_count(b.players@[i], k) + count(
                b.trash@,
                k,
            ) + b.supply.count(k),
{
    assert forall|k: CardKind|
        #[trigger] b.total(k) + player_count(a.players@[i], k) + count(a.trash@, k)
            + a.supply.count(k) == a.total(k) + player_count(b.players@[i], k) + count(
            b.trash@,
            k,
        ) + b.supply.count(k) by {
        lemma_players_update(a.players@, i, b.players@[i], k);
    }
}

/// Among the players only player `i` may differ between `a` and `b`.
pub open spec fn others_unchanged(a: Arena, b: Arena, i: int) -> bool {
    forall|j: int| 0 <= j < a.players@.len() && j != i ==> b.players@[j] == a.players@[j]
}

/// `b` holds as many cards of each kind as `a`.
pub open spec fn keeps_totals(a: Arena, b: Arena) -> bool {
    forall|k: CardKind| #[trigger] b.total(k) == a.total(k)
}

/// Along any sequence of games where each one follows from the one before by an
/// operation of `Arena` (each keeps the number of cards of every kind, as their
/// contracts state), the last game holds as many cards of each kind as the first.
pub proof fn lemma_conservation(games: Seq<Arena>)
    requires
        games.len() > 0,
        forall|i: int| 0 <= i < games.len() - 1 ==> #[trigger] keeps_totals(games[i], games[i + 1]),
    ensures
        keeps_totals(games[0], games.last()),
    decreases games.len(),
{
    if games.len() > 1 {
        let front = games.drop_last();
        assert forall|i: int| 0 <= i < front.len() - 1 implies #[trigger] keeps_totals(front[i], front[i + 1]) by {
            assert(keeps_totals(games[i], games[i + 1]));
        }
        lemma_conservation(front);
        let n = games.len() - 2;
        assert(keeps_totals(games[n], games[n + 1]));
        assert(front.last() == games[n]);
        assert(front[0] == games[0]);
        assert forall|k: CardKind| #[trigger] games.last().total(k) == games[0].total(k) by {
            assert(games.last().total(k) == games[n].total(k));
            assert(front.last().total(k) == front[0].total(k));
        }
    }
}

/// Cards of kind `k` in a starting deck.
pub open spec fn starting_count(k: CardKind) -> nat {
    if k == CardKind::Copper {
        7
    } else if k == CardKind::Estate {
        3
    } else {
        0
    }
}

/// The whole state of one game.
#[derive(Debug)]
pub struct Arena {
    pub supply: Supply,
    pub trash: CardVec,
    pub players: Vec<Player>,
    pub turn: Turn,
    pub current_player_id: usize,
    pub actions: CardActionQueue,
    pub rng: StdRng,
}

impl Arena {
    pub open spec fn wf(&self) -> bool {
        &&& self.players@.len() >= 1
        &&& self.current_player_id < self.players@.len()
        &&& self.supply.wf()
        &&& queue_wf(self.actions.actions@)
        &&& self.actions.actions@.len() > 0 ==> self.turn is Action
    }

    /// Cards of kind `k` anywhere in the game: zones, trash and supply.
    pub open spec fn total(&self, k: CardKind) -> nat {
        players_count(self.players@, k) + count(self.trash@, k) + self.supply.count(k)
    }

    /// Well-formed, and a non-empty queue is blocked on a conditional step.
    pub open spec fn stable(&self) -> bool {
        &&& self.wf()
        &&& !self.resolved() ==> front_step(self.actions.actions@).spec_is_conditional()
    }

    /// The failure every operation but a selection reports while a decision is pending.
    pub open spec fn pending_error(&self) -> Result<(), Error> {
        Err(Error::UnresolvedActionEffect(front_step(self.actions.actions@).spec_description()))
    }

    pub open spec fn resolved(&self) -> bool {
        self.actions.actions@.len() == 0
    }

    pub open spec fn cur(&self) -> Player {
        self.players@[self.current_player_id as int]
    }

    pub open spec fn spec_next_player_id(&self) -> usize {
        ((self.current_player_id + 1) % (self.players@.len() as int)) as usize
    }

    /// A game for `num_players` with the kingdom of `kingdom_set`; every player has
    /// drawn a first hand and player 0 starts in the action phase.
    pub fn new(kingdom_set: KingdomSet, num_players: usize) -> (r: Self)
        requires
            1 <= num_players <= 8,
        ensures
            r.stable(),
            r.players@.len() == num_players,
            r.current_player_id == 0,
            r.turn == initial_turn(),
            r.resolved(),
            r.trash@.len() == 0,
            r.supply.kingdom_cards@.len() == kingdom_set.spec_cards().len(),
            forall|i: int|
                0 <= i < kingdom_set.spec_cards().len() ==> #[trigger] r.supply.kingdom_cards@[i] == (
                kingdom_set.spec_cards()[i],
                crate::supply::spec_kingdom_card_size(kingdom_set.spec_cards()[i], num_players),
            ),
            forall|i: int|
                0 <= i < 7 ==> #[trigger] r.supply.base_cards@[i] == (
                crate::supply::base_kinds()[i],
                crate::supply::spec_base_card_size(i, num_players),
            ),
            forall|i: int| 0 <= i < num_players ==> (#[trigger] r.players@[i]).hand@.len() == 5,
            forall|i: int|
                0 <= i < num_players ==> (#[trigger] r.players@[i]).draw_pile@.len() == 5
                    && r.players@[i].discard_pile@.len() == 0 && r.players@[i].play_zone@.len() == 0
                    && r.players@[i].stage@.len() == 0,
            forall|i: int, k: CardKind|
                0 <= i < num_players ==> #[trigger] player_count(r.players@[i], k) == starting_count(k),
    {
        Arena::with_seed(kingdom_set, num_players, 1)
    }

    /// The same as `new`, with the shuffles drawn from a generator seeded with `seed`.
    pub fn with_seed(kingdom_set: KingdomSet, num_players: usize, seed: u64) -> (r: Self)
        requires
            1 <= num_players <= 8,
        ensures
            r.stable(),
            r.players@.len() == num_players,
            r.current_player_id == 0,
            r.turn == initial_turn(),
            r.resolved(),
            r.trash@.len() == 0,
            r.supply.kingdom_cards@.len() == kingdom_set.spec_cards().len(),
            forall|i: int|
                0 <= i < kingdom_set.spec_cards().len() ==> #[trigger] r.supply.kingdom_cards@[i] == (
                kingdom_set.spec_cards()[i],
                crate::supply::spec_kingdom_card_size(kingdom_set.spec_cards()[i], num_players),
            ),
            forall|i: int|
                0 <= i < 7 ==> #[trigger] r.supply.base_cards@[i] == (
                crate::supply::base_kinds()[i],
                crate::supply::spec_base_card_size(i, num_players),
            ),
            forall|i: int| 0 <= i < num_players ==> (#[trigger] r.players@[i]).hand@.len() == 5,
            forall|i: int|
                0 <= i < num_players ==> (#[trigger] r.players@[i]).draw_pile@.len() == 5
                    && r.players@[i].discard_pile@.len() == 0 && r.players@[i].play_zone@.len() == 0
                    && r.players@[i].stage@.len() == 0,
            forall|i: int, k: CardKind|
                0 <= i < num_players ==> #[trigger] player_count(r.players@[i], k) == starting_count(k),
    {
        let kingdom = kingdom_set.cards();
        proof {
            assert forall|i: int| 0 <= i < kingdom@.len() implies !crate::supply::base_kinds().contains(
                #[trigger] kingdom@[i],
            ) by {
                if crate::supply::base_kinds().contains(kingdom@[i]) {
                    let j = choose|j: int| 0 <= j < 7 && crate::supply::base_kinds()[j] == kingdom@[i];
                    assert(crate::supply::base_kinds()[j] == kingdom@[i]);
                }
            }
        }
        let mut rng = seeded_rng(seed);
        let mut players: Vec<Player> = Vec::new();
        let mut i: usize = 0;
        while i < num_players
            invariant
                i <= num_players,
                players@.len() == i,
                forall|j: int| 0 <= j < i ==> (#[trigger] players@[j]).hand@.len() == 5,
                forall|j: int|
                    0 <= j < i ==> (#[trigger] players@[j]).draw_pile@.len() == 5
                        && players@[j].discard_pile@.len() == 0 && players@[j].play_zone@.len() == 0
                        && players@[j].stage@.len() == 0,
                forall|j: int, k: CardKind|
                    0 <= j < i ==> #[trigger] player_count(players@[j], k) == starting_count(k),
            decreases num_players - i,
        {
            let mut p = Player::new(&mut rng);
            p.cleanup(&mut rng);
            players.push(p);
            i = i + 1;
        }
        Arena {
            supply: Supply::new(kingdom.as_slice(), num_players),
            trash: CardVec::new(),
            players,
            turn: Turn::new(),
            current_player_id: 0,
            actions: CardActionQueue::new(),
            rng,
        }
    }
}

impl Arena {
    /// The kingdom kinds of the game, in supply order.
    pub fn kingdom(&self) -> (r: Vec<CardKind>)
        ensures
            r@.len() == self.supply.kingdom_cards@.len(),
            forall|i: int| 0 <= i < r@.len() ==> r@[i] == (#[trigger] self.supply.kingdom_cards@[i]).0,
    {
        let mut r: Vec<CardKind> = Vec::new();
        let mut i: usize = 0;
        while i < self.supply.kingdom_cards.len()
            invariant
                i <= self.supply.kingdom_cards@.len(),
                r@.len() == i,
                forall|j: int| 0 <= j < i ==> r@[j] == (#[trigger] self.supply.kingdom_cards@[j]).0,
            decreases self.supply.kingdom_cards@.len() - i,
        {
            r.push(self.supply.kingdom_cards[i].0);
            i = i + 1;
        }
        r
    }

    /// The game ends on an empty province pile or three empty piles.
    pub fn is_game_over(&self) -> (r: bool)
        requires
            self.wf(),
        ensures
            r == self.supply.game_over(),
    {
        self.supply.is_game_over()
    }

    /// Whether player `player_id` owns a card of kind `card` in any zone.
    pub fn in_deck(&self, player_id: usize, card: CardKind) -> (r: Result<bool, Error>)
        ensures
            player_id >= self.players@.len() ==> r == Err::<bool, Error>(Error::InvalidPlayerId),
            player_id < self.players@.len() ==> r == Ok::<bool, Error>(
                player_count(self.players@[player_id as int], card) > 0,
            ),
    {
        match self.player(player_id) {
            Ok(p) => Ok(p.in_deck(card)),
            Err(e) => Err(e),
        }
    }

    /// The phase of the turn with its counters.
    pub fn turn(&self) -> (r: Turn)
        ensures
            r == self.turn,
    {
        self.turn
    }

    /// The player whose turn it is.
    pub fn current_player_id(&self) -> (r: usize)
        ensures
            r == self.current_player_id,
    {
        self.current_player_id
    }

    /// The player after the current one, wrapping around.
    pub fn next_player_id(&self) -> (r: usize)
        requires
            self.wf(),
        ensures
            r == self.spec_next_player_id(),
    {
        let n = self.players.len();
        (self.current_player_id + 1) % n
    }

    /// Player `player_id`, or `InvalidPlayerId`.
    pub fn player(&self, player_id: usize) -> (r: Result<&Player, Error>)
        ensures
            player_id < self.players@.len() ==> r is Ok && *r->Ok_0 == self.players@[player_id as int],
            player_id >= self.players@.len() ==> r == Err::<&Player, Error>(Error::InvalidPlayerId),
    {
        if player_id >= self.players.len() {
            Err(Error::InvalidPlayerId)
        } else {
            Ok(&self.players[player_id])
        }
    }

    /// Player `player_id` for changing, or `InvalidPlayerId`.
    pub fn player_mut(&mut self, player_id: usize) -> (r: Result<&mut Player, Error>)
        ensures
            player_id < old(self).players@.len() ==> r is Ok && *r->Ok_0 == old(self).players@[player_id as int]
                && final(self).players@ == old(self).players@.update(player_id as int, *final(r->Ok_0))
                && final(self).supply == old(self).supply && final(self).trash == old(self).trash
                && final(self).turn == old(self).turn && final(self).current_player_id == old(self).current_player_id
                && final(self).actions == old(self).actions,
            player_id >= old(self).players@.len() ==> r == Err::<&mut Player, Error>(Error::InvalidPlayerId)
                && *final(self) == *old(self),
    {
        if player_id >= self.players.len() {
            Err(Error::InvalidPlayerId)
        } else {
            Ok(&mut self.players[player_id])
        }
    }

    /// The supply.
    pub fn supply(&self) -> (r: &Supply)
        ensures
            *r == self.supply,
    {
        &self.supply
    }

    /// All players, in turn order.
    pub fn players(&self) -> (r: &Vec<Player>)
        ensures
            *r == self.players,
    {
        &self.players
    }

    /// The player whose turn it is, for changing.
    pub fn current_player_mut(&mut self) -> (r: &mut Player)
        requires
            old(self).wf(),
        ensures
            *r == old(self).cur(),
            final(self).players@ == old(self).players@.update(
                old(self).current_player_id as int,
                *final(r),
            ),
            final(self).supply == old(self).supply,
            final(self).trash == old(self).trash,
            final(self).turn == old(self).turn,
            final(self).current_player_id == old(self).current_player_id,
            final(self).actions == old(self).actions,
    {
        let me = self.current_player_id;
        &mut self.players[me]
    }

    /// The player whose turn it is.
    pub fn current_player(&self) -> (r: &Player)
        requires
            self.wf(),
        ensures
            *r == self.cur(),
    {
        &self.players[self.current_player_id]
    }

    /// `Ok` when no decision is pending; else the pending step's description.
    pub fn check_actions_resolved(&self) -> (r: Result<(), Error>)
        requires
            self.stable(),
        ensures
            self.resolved() ==> r == Ok::<(), Error>(()),
            !self.resolved() ==> r == self.pending_error(),
    {
        if self.actions.is_resolved() {
            Ok(())
        } else {
            match self.actions.resolve_condition() {
                Some(d) => Err(Error::UnresolvedActionEffect(d)),
                None => Err(Error::UnresolvedActionEffect("")),
            }
        }
    }

    /// Ends the current phase: action to buy, or buy to the next player's turn.
    pub fn end_turn_phase(&mut self) -> (r: Result<(), Error>)
        requires
            old(self).stable(),
        ensures
            final(self).stable(),
            forall|k: CardKind| #[trigger] final(self).total(k) == old(self).total(k),
            !old(self).resolved() ==> r == old(self).pending_error() && *final(self) == *old(self),
            old(self).resolved() ==> r is Ok,
            old(self).resolved() ==> final(self).supply == old(self).supply && final(self).trash
                == old(self).trash && final(self).resolved(),
            old(self).resolved() && old(self).turn is Action ==> final(self).turn == Turn::Buy(
                old(self).turn->Action_0.to_buy_phase_spec(),
            ) && final(self).players == old(self).players
                && final(self).current_player_id == old(self).current_player_id,
            old(self).resolved() && old(self).turn is Buy ==> final(self).turn == initial_turn()
                && final(self).current_player_id == old(self).spec_next_player_id()
                && others_unchanged(*old(self), *final(self), old(self).current_player_id as int),
    {
        match self.turn {
            Turn::Action(_) => self.end_action_phase(),
            Turn::Buy(_) => self.end_buy_phase(),
        }
    }

    /// Action phase to buy phase; buys and resource carry over.
    pub fn end_action_phase(&mut self) -> (r: Result<(), Error>)
        requires
            old(self).stable(),
        ensures
            final(self).stable(),
            !old(self).resolved() ==> r == old(self).pending_error() && *final(self) == *old(self),
            old(self).resolved() && old(self).turn is Buy ==> r == Err::<(), Error>(Error::WrongTurnPhase)
                && *final(self) == *old(self),
            old(self).resolved() && old(self).turn is Action ==> r is Ok && final(self).turn == Turn::Buy(
                old(self).turn->Action_0.to_buy_phase_spec(),
            ) && final(self).players == old(self).players && final(self).supply == old(self).supply
                && final(self).trash == old(self).trash
                && final(self).current_player_id == old(self).current_player_id,
    {
        self.check_actions_resolved()?;
        match self.turn {
            Turn::Action(a) => {
                self.turn = Turn::Buy(a.to_buy_phase());
                Ok(())
            },
            Turn::Buy(_) => Err(Error::WrongTurnPhase),
        }
    }

    /// Buy phase to the next player's action phase: the current player cleans up
    /// and draws a new hand.
    pub fn end_buy_phase(&mut self) -> (r: Result<(), Error>)
        requires
            old(self).stable(),
        ensures
            final(self).stable(),
            forall|k: CardKind| #[trigger] final(self).total(k) == old(self).total(k),
            !old(self).resolved() ==> r == old(self).pending_error() && *final(self) == *old(self),
            old(self).resolved() && old(self).turn is Action ==> r == Err::<(), Error>(Error::WrongTurnPhase)
                && *final(self) == *old(self),
            old(self).resolved() && old(self).turn is Buy ==> r is Ok && final(self).turn == initial_turn()
                && final(self).current_player_id == old(self).spec_next_player_id()
                && final(self).supply == old(self).supply && final(self).trash == old(self).trash
                && final(self).resolved() && final(self).players@.len() == old(self).players@.len()
                && others_unchanged(*old(self), *final(self), old(self).current_player_id as int)
                && final(self).players@[old(self).current_player_id as int].stage == old(self).cur().stage
                && (old(self).cur().draw_pile@.len() >= 5 ==> final(self).players@[old(
                self,
            ).current_player_id as int].draw_pile@.len() + 5 == old(self).cur().draw_pile@.len()
                && final(self).players@[old(self).current_player_id as int].discard_pile@ == old(
                self,
            ).cur().discard_pile@ + old(self).cur().play_zone@ + old(self).cur().hand@)
                && final(self).players@[old(self).current_player_id as int].play_zone@.len() == 0
                && final(self).players@[old(self).current_player_id as int].hand@.len() == if drawable(old(self).cur())
                + old(self).cur().hand@.len() + old(self).cur().play_zone@.len() >= 5 {
                5
            } else {
                drawable(old(self).cur()) + old(self).cur().hand@.len() + old(self).cur().play_zone@.len()
            },
    {
        self.check_actions_resolved()?;
        if let Turn::Action(_) = self.turn {
            return Err(Error::WrongTurnPhase);
        }
        let me = self.current_player_id;
        let ghost a0 = *self;
        self.players[me].cleanup(&mut self.rng);
        proof {
            lemma_total_frame(a0, *self, me as int);
            assert(forall|k: CardKind| #[trigger] self.total(k) == a0.total(k));
        }
        let ghost a1 = *self;
        self.turn = Turn::new();
        self.current_player_id = self.next_player_id();
        assert(self.players == a1.players && self.supply == a1.supply && self.trash == a1.trash);
        assert(forall|k: CardKind| #[trigger] self.total(k) == a1.total(k));
        Ok(())
    }

    /// Plays `card` from the hand: an action in the action phase, a treasure in the
    /// buy phase.
    pub fn play_card(&mut self, card: CardKind) -> (r: Result<(), Error>)
        requires
            old(self).stable(),
        ensures
            final(self).stable(),
            forall|k: CardKind| #[trigger] final(self).total(k) == old(self).total(k),
            old(self).turn is Action ==> play_action_post(*old(self), *final(self), card, r),
            old(self).turn is Buy ==> play_treasure_post(*old(self), *final(self), card, r),
    {
        match self.turn {
            Turn::Action(_) => self.play_action(card),
            Turn::Buy(_) => self.play_treasure(card),
        }
    }

    /// Plays the action `card` from the hand and resolves what it does as far as it
    /// goes without a selection.
    pub fn play_action(&mut self, card: CardKind) -> (r: Result<(), Error>)
        requires
            old(self).stable(),
        ensures
            final(self).stable(),
            forall|k: CardKind| #[trigger] final(self).total(k) == old(self).total(k),
            play_action_post(*old(self), *final(self), card, r),
    {
        let remaining = match self.turn {
            Turn::Action(a) => a.remaining_actions,
            Turn::Buy(_) => {
                return Err(Error::WrongTurnPhase);
            },
        };
        self.check_actions_resolved()?;
        if remaining == 0 {
            return Err(Error::NoMoreActions);
        }
        if !card.is_action() {
            return Err(Error::InvalidCard);
        }
        let me = self.current_player_id;
        if crate::location::count_in(self.players[me].hand.0.as_slice(), card) == 0 {
            proof {
                crate::location::lemma_count_contains(self.cur().hand@, card);
            }
            return Err(Error::InvalidCard);
        }
        proof {
            crate::location::lemma_count_contains(self.cur().hand@, card);
        }
        let ghost a0 = *self;
        let _ = self.players[me].hand_to_play(card);
        proof {
            lemma_total_frame(a0, *self, me as int);
            assert(forall|k: CardKind| #[trigger] self.total(k) == a0.total(k));
        }
        let ghost am = *self;
        self.turn = Turn::Action(ActionPhase { remaining_actions: remaining - 1, ..self.turn_action() });
        self.actions.add_card(card);
        assert(self.players == am.players && self.supply == am.supply && self.trash == am.trash);
        proof {
            assert(effects_of(card).len() > 0);
            assert forall|i: int| 0 <= i < self.actions.actions@.len() implies (#[trigger] self.actions.actions@[i]).effects@.len() > 0 by {
                assert(i == 0);
            }
        }
        let ghost a1 = *self;
        proof {
            if effects_of(card) == seq![crate::effect::Effect::AddResources] {
                assert(a1.actions.actions@.len() == 1);
                assert(crate::effect::plain_queue(a1.actions.actions@));
            }
        }
        assert forall|k: CardKind| #[trigger] a1.total(k) == a0.total(k) by {
            assert(a1.total(k) == am.total(k));
            assert(am.total(k) == a0.total(k));
        }
        let r = resolve(self, me, None);
        proof {
            assert(resolve_post(a1, *self, me, None, r));
            assert(started(*old(self), a1, card));
            if effects_of(card) == seq![crate::effect::Effect::AddResources] {
                crate::effect::lemma_single_template(a1, *self, me, None, r);
                let m = choose|m: Arena| crate::effect::add_resources_post(a1, m, card) && #[trigger] crate::effect::same_but_queue(m, *self);
                assert(drawable(a1.cur()) == drawable(old(self).cur()));
            }
        }
        r
    }

    /// The counters of the action phase.
    fn turn_action(&self) -> (r: ActionPhase)
        requires
            self.turn is Action,
        ensures
            r == self.turn->Action_0,
    {
        match self.turn {
            Turn::Action(a) => a,
            Turn::Buy(_) => ActionPhase { remaining_actions: 0, remaining_buys: 0, remaining_copper: 0 },
        }
    }

    /// Plays the treasure `card` from the hand in the buy phase, adding its value to
    /// the resource.
    pub fn play_treasure(&mut self, card: CardKind) -> (r: Result<(), Error>)
        requires
            old(self).stable(),
        ensures
            final(self).stable(),
            forall|k: CardKind| #[trigger] final(self).total(k) == old(self).total(k),
            play_treasure_post(*old(self), *final(self), card, r),
    {
        let b = match self.turn {
            Turn::Buy(b) => b,
            Turn::Action(_) => {
                return Err(Error::WrongTurnPhase);
            },
        };
        let value = match card.treasure() {
            Some(v) => v,
            None => {
                return Err(Error::InvalidCard);
            },
        };
        let me = self.current_player_id;
        if crate::location::count_in(self.players[me].hand.0.as_slice(), card) == 0 {
            proof {
                crate::location::lemma_count_contains(self.cur().hand@, card);
            }
            return Err(Error::InvalidCard);
        }
        proof {
            crate::location::lemma_count_contains(self.cur().hand@, card);
        }
        let ghost a0 = *self;
        let _ = self.players[me].hand_to_play(card);
        proof {
            lemma_total_frame(a0, *self, me as int);
            assert(forall|k: CardKind| #[trigger] self.total(k) == a0.total(k));
        }
        let ghost a1 = *self;
        self.turn = Turn::Buy(
            BuyPhase {
                remaining_buys: b.remaining_buys,
                remaining_copper: b.remaining_copper.saturating_add(value),
            },
        );
        assert(forall|k: CardKind| #[trigger] self.total(k) == a1.total(k));
        Ok(())
    }

    /// Buys `card`: one card leaves its supply pile for the buyer's discard pile, one
    /// buy and the card's cost are spent.
    pub fn buy_card(&mut self, card: CardKind) -> (r: Result<(), Error>)
        requires
            old(self).stable(),
        ensures
            final(self).stable(),
            forall|k: CardKind| #[trigger] final(self).total(k) == old(self).total(k),
            r is Err ==> *final(self) == *old(self),
            !old(self).resolved() ==> r == old(self).pending_error(),
            old(self).resolved() && old(self).turn is Action ==> r == Err::<(), Error>(Error::WrongTurnPhase),
            old(self).turn is Buy && !old(self).supply.stocks(card) ==> r == Err::<(), Error>(Error::InvalidCard),
            old(self).turn is Buy && old(self).supply.stocks(card) && old(self).supply.count(card) == 0
                ==> r == Err::<(), Error>(Error::NoMoreCards),
            old(self).turn is Buy && old(self).supply.count(card) > 0 && old(self).turn->Buy_0.remaining_buys == 0
                ==> r == Err::<(), Error>(Error::NoMoreBuys),
            old(self).turn is Buy && old(self).supply.count(card) > 0 && old(self).turn->Buy_0.remaining_buys > 0
                && old(self).turn->Buy_0.remaining_copper < card.spec_cost()
                ==> r == Err::<(), Error>(Error::NotEnoughCopper),
            old(self).turn is Buy && old(self).supply.count(card) > 0 && old(self).turn->Buy_0.remaining_buys > 0
                && old(self).turn->Buy_0.remaining_copper >= card.spec_cost() ==> r is Ok,
            r is Ok ==> final(self).supply.count(card) + 1 == old(self).supply.count(card)
                && final(self).cur().discard_pile@ == old(self).cur().discard_pile@.push(card)
                && final(self).turn == Turn::Buy(BuyPhase {
                    remaining_buys: (old(self).turn->Buy_0.remaining_buys - 1) as u32,
                    remaining_copper: (old(self).turn->Buy_0.remaining_copper - card.spec_cost()) as u32,
                })
                && final(self).current_player_id == old(self).current_player_id
                && final(self).trash == old(self).trash,
            r is Ok ==> forall|k: CardKind| k != card ==> #[trigger] final(self).supply.count(k) == old(self).supply.count(k),
            r is Ok ==> others_unchanged(*old(self), *final(self), old(self).current_player_id as int)
                && final(self).players@.len() == old(self).players@.len()
                && final(self).cur().draw_pile == old(self).cur().draw_pile
                && final(self).cur().hand == old(self).cur().hand
                && final(self).cur().play_zone == old(self).cur().play_zone
                && final(self).cur().stage == old(self).cur().stage,
    {
        self.check_actions_resolved()?;
        let b = match self.turn {
            Turn::Buy(b) => b,
            Turn::Action(_) => {
                return Err(Error::WrongTurnPhase);
            },
        };
        proof {
            crate::supply::lemma_pile_index(self.supply.entries(), card);
        }
        match self.supply.get_count(card) {
            None => {
                return Err(Error::InvalidCard);
            },
            Some(n) => if n == 0 {
                return Err(Error::NoMoreCards);
            },
        }
        if b.remaining_buys == 0 {
            return Err(Error::NoMoreBuys);
        }
        let cost = card.cost() as u32;
        if b.remaining_copper < cost {
            return Err(Error::NotEnoughCopper);
        }
        let me = self.current_player_id;
        let ghost a0 = *self;
        let _ = self.supply.move_card(&mut self.players[me].discard_pile, card);
        proof {
            lemma_total_frame(a0, *self, me as int);
            assert forall|k: CardKind| #[trigger] self.total(k) == a0.total(k) by {
                crate::location::lemma_count_push(a0.cur().discard_pile@, card, k);
            }
        }
        let ghost a1 = *self;
        self.turn = Turn::Buy(
            BuyPhase {
                remaining_buys: b.remaining_buys - 1,
                remaining_copper: b.remaining_copper - cost,
            },
        );
        assert(forall|k: CardKind| #[trigger] self.total(k) == a1.total(k));
        Ok(())
    }

    /// Answers the pending decision with the cards `cards` chosen by `player_id`.
    pub fn select_cards(&mut self, player_id: usize, cards: &[CardKind]) -> (r: Result<(), Error>)
        requires
            old(self).stable(),
        ensures
            final(self).stable(),
            player_id >= old(self).players@.len() ==> r == Err::<(), Error>(Error::InvalidPlayerId)
                && *final(self) == *old(self),
            player_id < old(self).players@.len() ==> resolve_post(
                *old(self),
                *final(self),
                player_id,
                Some(cards@),
                r,
            ),
    {
        if player_id >= self.players.len() {
            return Err(Error::InvalidPlayerId);
        }
        self.try_resolve(player_id, Some(cards))
    }

    /// Resolves the queue with the given selection.
    pub fn try_resolve(&mut self, player_id: usize, selected_cards: Option<&[CardKind]>) -> (r: Result<(), Error>)
        requires
            old(self).wf(),
            player_id < old(self).players@.len(),
        ensures
            final(self).stable(),
            resolve_post(*old(self), *final(self), player_id, sel_view(selected_cards), r),
    {
        resolve(self, player_id, selected_cards)
    }

    /// A copy of what a zone holds, or `InvalidPlayerId`.
    pub fn view(&self, location: Location) -> (r: Result<LocationView, Error>)
        requires
            self.wf(),
        ensures
            location == Location::Supply ==> r is Ok && r->Ok_0 == LocationView::Unordered(
                r->Ok_0->Unordered_0,
            ) && r->Ok_0->Unordered_0@ == self.supply.entries(),
            location == Location::Trash ==> r is Ok && r->Ok_0 is Ordered
                && r->Ok_0->Ordered_0@ == self.trash@,
            location_player(location) is Some && location_player(location)->0 >= self.players@.len()
                ==> r == Err::<LocationView, Error>(Error::InvalidPlayerId),
            location_player(location) is Some && location_player(location)->0 < self.players@.len()
                ==> r is Ok && r->Ok_0 is Ordered && r->Ok_0->Ordered_0@ == zone_of(
                self.players@[location_player(location)->0 as int],
                location,
            ),
    {
        match location {
            Location::Supply => Ok(LocationView::Unordered(self.supply.iter())),
            Location::Trash => Ok(LocationView::Ordered(copy_cards(&self.trash))),
            Location::Draw { player_id } => {
                let p = self.player(player_id)?;
                Ok(LocationView::Ordered(copy_cards(&p.draw_pile)))
            },
            Location::Discard { player_id } => {
                let p = self.player(player_id)?;
                Ok(LocationView::Ordered(copy_cards(&p.discard_pile)))
            },
            Location::Hand { player_id } => {
                let p = self.player(player_id)?;
                Ok(LocationView::Ordered(copy_cards(&p.hand)))
            },
            Location::Play { player_id } => {
                let p = self.player(player_id)?;
                Ok(LocationView::Ordered(copy_cards(&p.play_zone)))
            },
            Location::Stage { player_id } => {
                let p = self.player(player_id)?;
                Ok(LocationView::Ordered(copy_cards(&p.stage)))
            },
        }
    }
}

/// What playing the action `card` from `a` gives: the refusals, and on success the
/// card in play, one action spent, and the resolution as far as it went.
pub open spec fn play_action_post(a: Arena, b: Arena, card: CardKind, r: Result<(), Error>) -> bool {
    &&& a.turn is Buy ==> r == Err::<(), Error>(Error::WrongTurnPhase) && b == a
    &&& a.turn is Action && !a.resolved() ==> r == a.pending_error() && b == a
    &&& a.turn is Action && a.resolved() && a.turn->Action_0.remaining_actions == 0 ==> r == Err::<
        (),
        Error,
    >(Error::NoMoreActions) && b == a
    &&& a.turn is Action && a.resolved() && a.turn->Action_0.remaining_actions > 0 && (
    !card.spec_is_action() || !a.cur().hand@.contains(card)) ==> r == Err::<(), Error>(
        Error::InvalidCard,
    ) && b == a
    &&& a.turn is Action && a.resolved() && a.turn->Action_0.remaining_actions > 0
        && card.spec_is_action() && a.cur().hand@.contains(card) ==> {
        &&& exists|m: Arena| #[trigger] started(a, m, card) && resolve_post(m, b, a.current_player_id, None, r)
        &&& effects_of(card) == seq![crate::effect::Effect::AddResources] ==> {
            let t = a.turn->Action_0;
            let res = card.spec_action()->0;
            let d = drawable(a.cur());
            &&& r is Ok
            &&& b.turn == Turn::Action(
                ActionPhase {
                    remaining_actions: crate::effect::sat_add((t.remaining_actions - 1) as u32, res.actions),
                    remaining_buys: crate::effect::sat_add(t.remaining_buys, res.buys),
                    remaining_copper: crate::effect::sat_add(t.remaining_copper, res.copper),
                },
            )
            &&& b.cur().hand@.len() + 1 == a.cur().hand@.len() + if res.cards <= d {
                res.cards as nat
            } else {
                d
            }
            &&& b.cur().play_zone@ == a.cur().play_zone@.push(card)
        }
    }
}

/// `m` is `a` once the action `card` has left the hand for the play zone, one
/// action is spent and the card is queued for resolution.
pub open spec fn started(a: Arena, m: Arena, card: CardKind) -> bool {
    let me = a.current_player_id as int;
    let t = a.turn->Action_0;
    &&& m.turn == Turn::Action(ActionPhase { remaining_actions: (t.remaining_actions - 1) as u32, ..t })
    &&& m.cur().hand@ == a.cur().hand@.remove(first_index(a.cur().hand@, card))
    &&& m.cur().play_zone@ == a.cur().play_zone@.push(card)
    &&& m.cur().draw_pile == a.cur().draw_pile
    &&& m.cur().discard_pile == a.cur().discard_pile
    &&& m.cur().stage == a.cur().stage
    &&& others_unchanged(a, m, me)
    &&& m.players@.len() == a.players@.len()
    &&& m.current_player_id == a.current_player_id
    &&& m.supply == a.supply
    &&& m.trash == a.trash
    &&& m.rng == a.rng
    &&& m.actions.actions@.len() == 1
    &&& m.actions.actions@[0].card == card
    &&& m.actions.actions@[0].effects@ == effects_of(card)
}

/// What playing the treasure `card` from `a` gives: the refusals, and on success
/// the card in play and its value added to the resource.
pub open spec fn play_treasure_post(a: Arena, b: Arena, card: CardKind, r: Result<(), Error>) -> bool {
    &&& a.turn is Action ==> r == Err::<(), Error>(Error::WrongTurnPhase) && b == a
    &&& a.turn is Buy && (!card.spec_is_treasure() || !a.cur().hand@.contains(card)) ==> r == Err::<
        (),
        Error,
    >(Error::InvalidCard) && b == a
    &&& a.turn is Buy && card.spec_is_treasure() && a.cur().hand@.contains(card) ==> r is Ok
        && b.turn == Turn::Buy(
        BuyPhase {
            remaining_buys: a.turn->Buy_0.remaining_buys,
            remaining_copper: crate::effect::sat_add(
                a.turn->Buy_0.remaining_copper,
                card.spec_treasure()->0,
            ),
        },
    ) && b.cur().play_zone@ == a.cur().play_zone@.push(card) && b.cur().hand@.len() + 1
        == a.cur().hand@.len() && b.current_player_id == a.current_player_id && b.supply
        == a.supply && b.trash == a.trash
}

/// The player a zone belongs to, if any.
pub open spec fn location_player(l: Location) -> Option<usize> {
    match l {
        Location::Draw { player_id } => Some(player_id),
        Location::Discard { player_id } => Some(player_id),
        Location::Hand { player_id } => Some(player_id),
        Location::Play { player_id } => Some(player_id),
        Location::Stage { player_id } => Some(player_id),
        _ => None,
    }
}

/// The cards of player `p` in zone `l`.
pub open spec fn zone_of(p: Player, l: Location) -> Seq<CardKind> {
    match l {
        Location::Draw { .. } => p.draw_pile@,
        Location::Discard { .. } => p.discard_pile@,
        Location::Hand { .. } => p.hand@,
        Location::Play { .. } => p.play_zone@,
        _ => p.stage@,
    }
}

/// A copy of the cards of `v`, in order.
fn copy_cards(v: &CardVec) -> (r: Vec<CardKind>)
    ensures
        r@ == v@,
{
    let mut r: Vec<CardKind> = Vec::new();
    let mut i: usize = 0;
    while i < v.0.len()
        invariant
            i <= v@.len(),
            r@ == v@.take(i as int),
        decreases v@.len() - i,
    {
        proof {
            assert(v@.take(i as int + 1) =~= v@.take(i as int).push(v@[i as int]));
        }
        r.push(v.0[i]);
        i = i + 1;
    }
    assert(v@.take(i as int) =~= v@);
    r
}

} // verus!
