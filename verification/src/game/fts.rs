//! The flop-matching game: cards are dealt three at a time, and the wagers
//! are on where the first three cards of one suit come.

use vstd::prelude::*;

use crate::card::Card;
use crate::config::fts::{Fts as FtsConfig, FtsWagerType, Odds};
use crate::deck::{standard_cards, Deck};
use crate::game::{Error, GameType};
use crate::payout::{
    payouts_view, scaled, settle, settlement, settlement_view, stakes_of, sum_amounts,
    within_risk, ErrorView, Outcome, Payout, PayoutView, Stake,
};
use crate::state::{GameState, State};
use crate::transition::{GameTransition, Transition};
use crate::wager::{all_wagers, Entries, PlacedWager, Wager};

verus! {

/// The three cards of the flop at `index` are of one suit.
pub open spec fn same_suit(cards: Seq<Card>, index: int) -> bool {
    &&& cards[3 * index].suit() == cards[3 * index + 1].suit()
    &&& cards[3 * index + 1].suit() == cards[3 * index + 2].suit()
}

/// `found` is the place of the first flop of one suit among the flops that
/// `cards` hold in full, or nothing where they hold no such flop.
pub open spec fn is_first_flop(cards: Seq<Card>, found: Option<int>) -> bool {
    match found {
        Some(index) => {
            &&& 0 <= index < cards.len() / 3
            &&& same_suit(cards, index)
            &&& forall|earlier: int| 0 <= earlier < index ==> !same_suit(cards, earlier)
        },
        None => forall|index: int| 0 <= index < cards.len() / 3 ==> !same_suit(cards, index),
    }
}

/// The place of the first flop depends on the cards alone.
pub proof fn lemma_first_flop_is_unique(cards: Seq<Card>, found: Option<int>, other: Option<int>)
    requires
        is_first_flop(cards, found),
        is_first_flop(cards, other),
    ensures
        found == other,
{
}

/// Finds the first flop of one suit among the flops that `cards` hold in full.
pub fn find_first_flop(cards: &[Card]) -> (found: Option<usize>)
    ensures
        is_first_flop(
            cards@,
            match found {
                Some(index) => Some(index as int),
                None => None,
            },
        ),
{
    let len = cards.len();
    let flops = len / 3;
    let mut index: usize = 0;
    while index < flops
        invariant
            index <= flops,
            len == cards@.len(),
            flops == len / 3,
            forall|earlier: int| 0 <= earlier < index ==> !same_suit(cards@, earlier),
        decreases flops - index,
    {
        let first = cards[3 * index].get_suit();
        let second = cards[3 * index + 1].get_suit();
        let third = cards[3 * index + 2].get_suit();
        if first == second && second == third {
            return Some(index);
        }
        index += 1;
    }
    None
}

/// The number of flops that a wager asks to be dealt: a wager on the full
/// deck asks for as many as a deck gives, a wager on a place or on a range
/// for as many as the number of its place or of the end of its range.
pub open spec fn flops_asked(wager_type: FtsWagerType, max_possible: int) -> int {
    match wager_type {
        FtsWagerType::FullDeck => max_possible,
        FtsWagerType::AtFlop(place) => place as int,
        FtsWagerType::FlopRange(_, end) => end as int,
    }
}

/// The largest number of flops that any of the wagers asks for, and 0 for
/// no wagers.
pub open spec fn most_flops_asked(
    wagers: Seq<PlacedWager<FtsWagerType>>,
    max_possible: int,
) -> int
    decreases wagers.len(),
{
    if wagers.len() == 0 {
        0
    } else {
        let before = most_flops_asked(wagers.drop_last(), max_possible);
        let last = flops_asked(wagers.last().wager.wager_type(), max_possible);
        if last > before {
            last
        } else {
            before
        }
    }
}

/// What a wager of `amount` wins, or loses where the result is negative,
/// when the first flop came at `flopped_at` or never came.
///
/// A wager on the full deck loses the amount for each flop that a deck gives
/// when no flop came, and else wins the amount for each point of the odds
/// less the place of the flop. A wager on a place wins the amount times the
/// odds when the flop came there, loses the amount when it came later or
/// never, and comes to nothing when it came earlier. A wager on a range wins
/// the amount for each point of the odds less the distance of the flop from
/// the start of the range when the flop came within it, loses the amount for
/// each place of the range when it came later or never, and comes to nothing
/// when it came earlier.
pub open spec fn net_of(
    wager_type: FtsWagerType,
    amount: int,
    odds: Odds,
    max_possible: int,
    flopped_at: Option<u8>,
) -> int {
    match wager_type {
        FtsWagerType::FullDeck => match flopped_at {
            None => -(amount * max_possible),
            Some(flop) => amount * (odds.full_deck - flop),
        },
        FtsWagerType::AtFlop(place) => match flopped_at {
            None => -amount,
            Some(flop) => if flop == place {
                amount * odds.at_flop
            } else if flop > place {
                -amount
            } else {
                0
            },
        },
        FtsWagerType::FlopRange(start, end) => match flopped_at {
            None => -(amount * (end - start + 1)),
            Some(flop) => if start <= flop <= end {
                amount * (odds.flop_range - (flop - start))
            } else if flop > end {
                -(amount * (end - start + 1))
            } else {
                0
            },
        },
    }
}

/// What a wager of `amount` puts at risk: the amount for each flop of a
/// deck, the amount, or the amount for each place of the range.
pub open spec fn max_loss_of(wager_type: FtsWagerType, amount: int, max_possible: int) -> int {
    match wager_type {
        FtsWagerType::FullDeck => amount * max_possible,
        FtsWagerType::AtFlop(_) => amount,
        FtsWagerType::FlopRange(start, end) => amount * (end - start + 1),
    }
}

/// What a wager comes to.
pub open spec fn stake_of(
    placed: PlacedWager<FtsWagerType>,
    odds: Odds,
    max_possible: int,
    flopped_at: Option<u8>,
) -> Stake {
    Stake {
        player_id: placed.player,
        wager_id: placed.wager.id(),
        staked: placed.wager.amount(),
        net: net_of(
            placed.wager.wager_type(),
            placed.wager.amount(),
            odds,
            max_possible,
            flopped_at,
        ),
        max_loss: max_loss_of(placed.wager.wager_type(), placed.wager.amount(), max_possible),
    }
}

/// What each wager of a table comes to, in the order of `all_wagers`.
pub open spec fn stakes_in(
    entries: Entries<FtsWagerType>,
    odds: Odds,
    max_possible: int,
    flopped_at: Option<u8>,
) -> Seq<Stake> {
    Seq::new(
        all_wagers(entries).len(),
        |k: int| stake_of(all_wagers(entries)[k], odds, max_possible, flopped_at),
    )
}

/// Computes `net_of` for a wager.
pub fn wager_net(
    wager: &Wager<FtsWagerType>,
    odds: &Odds,
    max_possible: u8,
    flopped_at: Option<u8>,
) -> (net: i64)
    ensures
        net == net_of(
            wager.wager_type(),
            wager.amount(),
            *odds,
            max_possible as int,
            flopped_at,
        ),
{
    let amount: i32 = *wager.get_amount();
    match *wager.get_wager_type() {
        FtsWagerType::FullDeck => match flopped_at {
            None => -scaled(amount, max_possible as i64),
            Some(flop) => scaled(amount, *odds.get_full_deck() as i64 - flop as i64),
        },
        FtsWagerType::AtFlop(place) => match flopped_at {
            None => -(amount as i64),
            Some(flop) => if flop == place {
                scaled(amount, *odds.get_at_flop() as i64)
            } else if flop > place {
                -(amount as i64)
            } else {
                0
            },
        },
        FtsWagerType::FlopRange(start, end) => match flopped_at {
            None => -scaled(amount, end as i64 - start as i64 + 1),
            Some(flop) => if start <= flop && flop <= end {
                scaled(amount, *odds.get_flop_range() as i64 - (flop as i64 - start as i64))
            } else if flop > end {
                -scaled(amount, end as i64 - start as i64 + 1)
            } else {
                0
            },
        },
    }
}

/// Computes `max_loss_of` for a wager.
pub fn wager_max_loss(wager: &Wager<FtsWagerType>, max_possible: u8) -> (max_loss: i64)
    ensures
        max_loss == max_loss_of(wager.wager_type(), wager.amount(), max_possible as int),
{
    let amount: i32 = *wager.get_amount();
    match *wager.get_wager_type() {
        FtsWagerType::FullDeck => scaled(amount, max_possible as i64),
        FtsWagerType::AtFlop(_) => amount as i64,
        FtsWagerType::FlopRange(start, end) => scaled(amount, end as i64 - start as i64 + 1),
    }
}

/// One game: a deck, the wagers, and where the first flop came once the
/// game has been played.
#[derive(Debug)]
pub struct Fts {
    deck: Deck,
    config: FtsConfig,
    state: State,
    max_flop_count: u8,
    flopped_at: Option<u8>,
}

impl Fts {
    /// The deck.
    pub closed spec fn deck(self) -> Deck {
        self.deck
    }

    /// What the game was set up with.
    pub closed spec fn config(self) -> FtsConfig {
        self.config
    }

    /// The state.
    pub closed spec fn state(self) -> State {
        self.state
    }

    /// The number of flops that the game deals.
    pub closed spec fn max_flop_count(self) -> int {
        self.max_flop_count as int
    }

    /// The place of the first flop of one suit, once the game has ended.
    pub closed spec fn flopped_at(self) -> Option<u8> {
        self.flopped_at
    }

    /// The number of flops that the deck gives.
    pub open spec fn max_possible_flops(self) -> int {
        (self.deck()@.len() / 3) as int
    }

    /// The cards that the game has dealt.
    pub open spec fn dealt(self) -> Seq<Card> {
        self.deck()@.take(self.deck().cursor() as int)
    }

    /// The game deals as many flops as its wagers ask for. Before it is
    /// played it holds one standard deck in its first order, with nothing
    /// dealt. Once it has ended it holds the cards of that deck in some order,
    /// the flops are dealt, and the place of the first flop of one suit among
    /// them is known. Of a game that is being played nothing more is known.
    #[verifier::type_invariant]
    pub open spec fn wf(self) -> bool {
        &&& self.config().wf()
        &&& self.max_flop_count() == most_flops_asked(all_wagers(self.config().entries()), 17)
        &&& match self.state() {
            State::Game(GameState::Setup) => {
                &&& self.deck()@ == standard_cards(1)
                &&& self.deck().cursor() == 0
                &&& self.flopped_at() is None
            },
            State::Game(GameState::Started) => true,
            State::Game(GameState::Ended) => {
                &&& self.deck()@.len() == 52
                &&& self.deck()@.to_multiset() == standard_cards(1).to_multiset()
                &&& 0 < self.max_flop_count()
                &&& self.deck().cursor() == 3 * self.max_flop_count()
                &&& self.deck().cursor() <= self.deck()@.len()
                &&& is_first_flop(
                    self.dealt(),
                    match self.flopped_at() {
                        Some(flop) => Some(flop as int),
                        None => None,
                    },
                )
            },
            State::Cta(_) => false,
        }
    }

    /// Why the game turns a request down, if it does: it is not waiting to be
    /// started or the request is not to start it; no wager asks for a flop;
    /// the deck holds fewer cards than the flops take.
    pub open spec fn refusal(self, transition: Transition) -> Option<Error> {
        if self.state() != State::Game(GameState::Setup) || transition != Transition::Game(
            GameTransition::Start,
        ) {
            Some(Error::InvalidTransition)
        } else if self.max_flop_count() == 0 {
            Some(Error::ZeroFlops)
        } else if 3 * self.max_flop_count() > self.deck()@.len() {
            Some(Error::InsufficientCards)
        } else {
            None
        }
    }

    /// `result` and `after` are what a request makes of this game. A request
    /// that is turned down gives the error and leaves the game as it was. The
    /// request to start plays the game to its end: the cards of the deck come
    /// into some order, as many flops are dealt from its top as the wagers
    /// ask for, and the place of the first flop of one suit among them is
    /// kept.
    pub open spec fn transition_gives(
        self,
        transition: Transition,
        result: Result<(), Error>,
        after: Fts,
    ) -> bool {
        match self.refusal(transition) {
            Some(error) => result == Err::<(), Error>(error) && after == self,
            None => {
                &&& result is Ok
                &&& after.state() == State::Game(GameState::Ended)
                &&& after.config() == self.config()
                &&& after.max_flop_count() == self.max_flop_count()
                &&& after.deck()@.to_multiset() == self.deck()@.to_multiset()
                &&& after.deck()@.len() == self.deck()@.len()
                &&& after.deck().cursor() == 3 * self.max_flop_count()
                &&& is_first_flop(
                    after.dealt(),
                    match after.flopped_at() {
                        Some(flop) => Some(flop as int),
                        None => None,
                    },
                )
            },
        }
    }

    /// The requests that the game takes in its state: to start it while it
    /// is set up, and none once it has ended.
    pub open spec fn valid_transitions(self) -> Seq<Transition> {
        if self.state() == State::Game(GameState::Setup) {
            seq![Transition::Game(GameTransition::Start)]
        } else {
            Seq::empty()
        }
    }

    /// What each wager comes to.
    pub open spec fn stakes(self) -> Seq<Stake> {
        stakes_in(
            self.config().entries(),
            self.config().odds(),
            self.max_possible_flops(),
            self.flopped_at(),
        )
    }

    /// What `get_payout` gives: nothing before the game has ended, and then
    /// the settlement of the stakes.
    pub open spec fn payout(self) -> Result<Seq<PayoutView>, ErrorView> {
        if self.state() == State::Game(GameState::Ended) {
            settlement(self.stakes(), self.config().house_id())
        } else {
            Ok(Seq::empty())
        }
    }

    /// A game in its setup, with one standard deck that is not shuffled yet.
    pub fn new(config: FtsConfig) -> (result: Result<Fts, Error>)
        ensures
            result matches Ok(game) && game.wf() && game.config() == config && game.state()
                == State::Game(GameState::Setup),
    {
        proof {
            use_type_invariant(&config);
        }
        let deck = Deck::default();
        let max_possible: u8 = (deck.total_len() / 3) as u8;
        let max_flop_count = Fts::apply_config(&config, max_possible);
        Ok(
            Fts {
                deck,
                config,
                state: State::Game(GameState::Setup),
                max_flop_count,
                flopped_at: None,
            },
        )
    }

    /// The number of flops to deal: the most that any wager asks for.
    fn apply_config(config: &FtsConfig, max_possible: u8) -> (most: u8)
        ensures
            most == most_flops_asked(all_wagers(config.entries()), max_possible as int),
    {
        let row = config.get_base_config().get_wagers().flatten();
        let ghost wagers = all_wagers(config.entries());
        let mut most: u8 = 0;
        let mut k: usize = 0;
        while k < row.len()
            invariant
                k <= row@.len(),
                row@.len() == wagers.len(),
                forall|n: int| 0 <= n < row@.len() ==> (#[trigger] row@[n])@ == wagers[n],
                most == most_flops_asked(wagers.take(k as int), max_possible as int),
            decreases row@.len() - k,
        {
            proof {
                assert(wagers.take(k + 1).drop_last() =~= wagers.take(k as int));
            }
            let asked: u8 = match *row[k].wager.get_wager_type() {
                FtsWagerType::FullDeck => max_possible,
                FtsWagerType::AtFlop(place) => place,
                FtsWagerType::FlopRange(_, end) => end,
            };
            if asked > most {
                most = asked;
            }
            k += 1;
        }
        proof {
            assert(wagers.take(k as int) =~= wagers);
        }
        most
    }

    /// Whether the game can be played: some wager asks for a flop, and the
    /// deck holds the cards that the flops take.
    fn can_start(&self) -> (result: Result<(), Error>)
        ensures
            self.max_flop_count() == 0 ==> result == Err::<(), Error>(Error::ZeroFlops),
            self.max_flop_count() > 0 && 3 * self.max_flop_count() > self.deck()@.len() ==> result
                == Err::<(), Error>(Error::InsufficientCards),
            0 < self.max_flop_count() && 3 * self.max_flop_count() <= self.deck()@.len()
                ==> result is Ok,
    {
        if self.max_flop_count == 0 {
            return Err(Error::ZeroFlops);
        }
        if self.max_flop_count as usize > self.deck.total_len() / 3 {
            return Err(Error::InsufficientCards);
        }
        Ok(())
    }

    /// The number of flops that the deck gives.
    fn get_max_possible_flop_count(&self) -> (count: u8)
        requires
            self.deck()@.len() == 52,
        ensures
            count == self.max_possible_flops(),
            count == 17,
    {
        (self.deck.total_len() / 3) as u8
    }

    /// Plays the game: shuffles the deck, deals the flops and finds the
    /// first flop of one suit. While this goes on the game is in play.
    fn start_game(&mut self) -> (result: Result<(), Error>)
        requires
            old(self).state() == State::Game(GameState::Setup),
        ensures
            old(self).max_flop_count() == 0 ==> result == Err::<(), Error>(Error::ZeroFlops),
            old(self).max_flop_count() > 0 && 3 * old(self).max_flop_count() > 52 ==> result
                == Err::<(), Error>(Error::InsufficientCards),
            result is Err ==> *final(self) == *old(self),
            0 < old(self).max_flop_count() && 3 * old(self).max_flop_count() <= 52 ==> {
                &&& result is Ok
                &&& final(self).state() == State::Game(GameState::Started)
                &&& final(self).deck()@.to_multiset() == old(self).deck()@.to_multiset()
                &&& final(self).deck()@.len() == 52
                &&& final(self).deck().cursor() == 3 * old(self).max_flop_count()
                &&& is_first_flop(
                    final(self).dealt(),
                    match final(self).flopped_at() {
                        Some(flop) => Some(flop as int),
                        None => None,
                    },
                )
                &&& final(self).config == old(self).config
                &&& final(self).max_flop_count == old(self).max_flop_count
            },
    {
        proof {
            use_type_invariant(&*self);
        }
        match self.can_start() {
            Ok(()) => {},
            Err(error) => {
                return Err(error);
            },
        }
        self.state = State::Game(GameState::Started);
        let mut deck = Deck::new();
        core::mem::swap(&mut self.deck, &mut deck);
        deck.shuffle();
        let count: usize = self.max_flop_count as usize * 3;
        let dealt = deck.deal_multi(count).is_some();
        assert(dealt);
        let found = find_first_flop(deck.get_dealt_cards());
        core::mem::swap(&mut self.deck, &mut deck);
        match found {
            Some(flop) => {
                self.flopped_at = Some(flop as u8);
            },
            None => {
                self.flopped_at = None;
            },
        }
        Ok(())
    }

    /// The state that a request leads to, after the game has done what the
    /// request asks for.
    fn transition_state(&mut self, transition: Transition) -> (result: Result<State, Error>)
        ensures
            old(self).refusal(transition) matches Some(error) ==> result == Err::<State, Error>(
                error,
            ) && *final(self) == *old(self),
            old(self).refusal(transition) is None ==> {
                &&& result == Ok::<State, Error>(State::Game(GameState::Ended))
                &&& final(self).state() == State::Game(GameState::Started)
                &&& final(self).deck()@.to_multiset() == old(self).deck()@.to_multiset()
                &&& final(self).deck()@.len() == 52
                &&& old(self).deck()@.len() == 52
                &&& old(self).deck()@ == standard_cards(1)
                &&& 0 < old(self).max_flop_count()
                &&& 3 * old(self).max_flop_count() <= 52
                &&& final(self).deck().cursor() == 3 * old(self).max_flop_count()
                &&& is_first_flop(
                    final(self).dealt(),
                    match final(self).flopped_at() {
                        Some(flop) => Some(flop as int),
                        None => None,
                    },
                )
                &&& final(self).config == old(self).config
                &&& final(self).max_flop_count == old(self).max_flop_count
            },
    {
        proof {
            use_type_invariant(&*self);
        }
        match self.state {
            State::Game(GameState::Setup) => match transition {
                Transition::Game(GameTransition::Start) => {
                    match self.start_game() {
                        Ok(()) => Ok(State::Game(GameState::Ended)),
                        Err(error) => Err(error),
                    }
                },
                _ => Err(Error::InvalidTransition),
            },
            _ => Err(Error::InvalidTransition),
        }
    }

    /// The kind of the game.
    pub fn get_type(&self) -> (game_type: GameType)
        ensures
            game_type == GameType::Fts,
    {
        GameType::Fts
    }

    /// Plays the game on the request to start it: shuffles the deck, deals
    /// the flops that the wagers ask for and ends the game. A request that
    /// is turned down leaves the game as it was.
    pub fn transition(&mut self, transition: Transition) -> (result: Result<(), Error>)
        ensures
            final(self).wf(),
            old(self).transition_gives(transition, result, *final(self)),
    {
        proof {
            use_type_invariant(&*self);
        }
        match self.transition_state(transition) {
            Ok(new_state) => {
                proof {
                    use_type_invariant(&*self);
                }
                self.state = new_state;
                Ok(())
            },
            Err(error) => Err(error),
        }
    }

    /// Lists the requests that the game takes in its state.
    pub fn get_valid_transitions(&self) -> (transitions: Vec<Transition>)
        ensures
            transitions@ == self.valid_transitions(),
    {
        let mut transitions: Vec<Transition> = Vec::new();
        match self.state {
            State::Game(GameState::Setup) => {
                transitions.push(Transition::Game(GameTransition::Start));
                proof {
                    assert(transitions@ =~= seq![Transition::Game(GameTransition::Start)]);
                }
            },
            _ => {},
        }
        transitions
    }

    /// Settles the game once it has ended; before that nobody is paid.
    pub fn get_payout(&self) -> (result: Result<Vec<Payout>, crate::payout::Error>)
        ensures
            settlement_view(result) == self.payout(),
            result matches Ok(payouts) ==> sum_amounts(payouts_view(payouts@)) == 0,
    {
        proof {
            use_type_invariant(self);
        }
        if self.state != State::Game(GameState::Ended) {
            let payouts: Vec<Payout> = Vec::new();
            proof {
                assert(payouts_view(payouts@) =~= Seq::<PayoutView>::empty());
            }
            return Ok(payouts);
        }
        let max_possible = self.get_max_possible_flop_count();
        let odds = self.config.get_odds();
        let base_config = self.config.get_base_config();
        let row = base_config.get_wagers().flatten();
        let ghost stakes = self.stakes();
        let mut outcomes: Vec<Outcome<'_, FtsWagerType>> = Vec::new();
        let mut k: usize = 0;
        while k < row.len()
            invariant
                k <= row@.len(),
                row@.len() == stakes.len(),
                forall|n: int|
                    0 <= n < row@.len() ==> stake_of(
                        (#[trigger] row@[n])@,
                        *odds,
                        max_possible as int,
                        self.flopped_at,
                    ) == stakes[n],
                outcomes@.len() == k,
                forall|n: int| 0 <= n < k ==> (#[trigger] outcomes@[n])@ == stakes[n],
            decreases row@.len() - k,
        {
            let placed = &row[k];
            let net = wager_net(placed.wager, odds, max_possible, self.flopped_at);
            let max_loss = wager_max_loss(placed.wager, max_possible);
            outcomes.push(Outcome { player: placed.player, wager: placed.wager, net, max_loss });
            k += 1;
        }
        proof {
            assert(stakes_of(outcomes@) =~= stakes);
        }
        settle(&outcomes, base_config.get_house_id())
    }

    pub fn get_state(&self) -> (state: State)
        ensures
            state == self.state(),
    {
        self.state
    }

    pub fn get_max_flop_count(&self) -> (count: u8)
        ensures
            count == self.max_flop_count(),
    {
        self.max_flop_count
    }

    pub fn get_flopped_at(&self) -> (flopped_at: Option<u8>)
        ensures
            flopped_at == self.flopped_at(),
    {
        self.flopped_at
    }

    pub fn get_deck(&self) -> (deck: &Deck)
        ensures
            *deck == self.deck(),
    {
        &self.deck
    }

    pub fn get_config(&self) -> (config: &FtsConfig)
        ensures
            *config == self.config(),
    {
        &self.config
    }
}

/// Where the first flop came depends on the order of the deck and on the
/// wagers alone: two games that have ended with the same wagers and with
/// their decks in the same order have their first flop at the same place, the
/// lowest at which the three cards are of one suit, or have none.
pub proof fn lemma_flop_depends_on_deck_and_wagers(game: Fts, other: Fts)
    requires
        game.wf(),
        other.wf(),
        game.state() == State::Game(GameState::Ended),
        other.state() == State::Game(GameState::Ended),
        game.deck()@ == other.deck()@,
        game.config().entries() == other.config().entries(),
    ensures
        game.flopped_at() == other.flopped_at(),
        game.max_flop_count() == other.max_flop_count(),
        is_first_flop(
            game.deck()@.take(3 * game.max_flop_count()),
            match game.flopped_at() {
                Some(flop) => Some(flop as int),
                None => None,
            },
        ),
{
    lemma_first_flop_is_unique(
        game.dealt(),
        match game.flopped_at() {
            Some(flop) => Some(flop as int),
            None => None,
        },
        match other.flopped_at() {
            Some(flop) => Some(flop as int),
            None => None,
        },
    );
}

/// Settling a game twice gives the same: what `get_payout` gives depends on
/// the game alone.
pub proof fn lemma_payout_is_repeatable(
    game: Fts,
    first: Result<Vec<Payout>, crate::payout::Error>,
    second: Result<Vec<Payout>, crate::payout::Error>,
)
    requires
        settlement_view(first) == game.payout(),
        settlement_view(second) == game.payout(),
    ensures
        settlement_view(first) == settlement_view(second),
{
}

/// The payouts of a game that has ended sum to zero.
pub proof fn lemma_payouts_sum_to_zero(game: Fts)
    requires
        game.payout() is Ok,
    ensures
        sum_amounts(game.payout()->Ok_0) == 0,
{
    if game.state() == State::Game(GameState::Ended) {
        crate::payout::lemma_settlement_sums_to_zero(game.stakes(), game.config().house_id());
    }
}

/// With odds that are not negative no wager loses more than it puts at
/// risk: a wager on the full deck at most the amount for each flop of a deck,
/// a wager on a place at most the amount, a wager on a range at most the
/// amount for each place of the range. So a game with such odds is settled
/// unless an amount is too large to be paid out.
pub proof fn lemma_loss_within_risk(game: Fts)
    requires
        game.wf(),
        game.config().odds().full_deck >= 0,
        game.config().odds().at_flop >= 0,
        game.config().odds().flop_range >= 0,
    ensures
        game.state() == State::Game(GameState::Ended) ==> forall|k: int|
            0 <= k < game.stakes().len() ==> within_risk(#[trigger] game.stakes()[k]),
        game.payout() matches Err(error) ==> error == ErrorView::AmountOutOfRange,
{
    if game.state() == State::Game(GameState::Ended) {
        let odds = game.config().odds();
        let flopped_at = game.flopped_at();
        assert forall|k: int| 0 <= k < game.stakes().len() implies within_risk(
            #[trigger] game.stakes()[k],
        ) by {
            let placed = all_wagers(game.config().entries())[k];
            let amount = placed.wager.amount();
            assert(amount > 0);
            match (placed.wager.wager_type(), flopped_at) {
                (FtsWagerType::FullDeck, Some(flop)) => {
                    let factor: int = odds.full_deck - flop;
                    assert(amount * factor >= -(amount * 17)) by (nonlinear_arith)
                        requires
                            amount > 0,
                            factor >= -17,
                    ;
                },
                (FtsWagerType::AtFlop(place), Some(flop)) => {
                    let factor: int = odds.at_flop as int;
                    assert(amount * factor >= 0) by (nonlinear_arith)
                        requires
                            amount > 0,
                            factor >= 0,
                    ;
                },
                (FtsWagerType::FlopRange(start, end), Some(flop)) => {
                    if start <= flop <= end {
                        let factor: int = odds.flop_range - (flop - start);
                        let places: int = end - start + 1;
                        assert(amount * factor >= -(amount * places)) by (nonlinear_arith)
                            requires
                                amount > 0,
                                factor >= -places,
                        ;
                    }
                },
                _ => {},
            }
        }
        crate::payout::lemma_settlement_within_risk(game.stakes(), game.config().house_id());
    }
}

} // verus!
