//! The deck-cutting game: the decks of a pool are cut until a cut turns up
//! an ace, and the wagers are on how many cuts that takes.

use vstd::multiset::Multiset;
use vstd::prelude::*;

use crate::card::Card;
use crate::config::cta::{Cta as CtaConfig, CtaWagerType, Odds};
use crate::deck::{standard_cards, Deck};
use crate::game::{Error, GameType};
use crate::payout::{
    payouts_view, scaled, settle, settlement, settlement_view, stakes_of, sum_amounts,
    within_risk, ErrorView, Outcome, Payout, PayoutView, Stake,
};
use crate::state::{CtaState, GameState, State};
use crate::transition::cta::{CtaTransition, Error as CutError};
use crate::transition::{GameTransition, Transition};
use crate::wager::{all_wagers, Entries, PlacedWager, Wager};

verus! {

/// A deck of the pool, with what is known of its two ends: whether a cut
/// has shown its top card, and whether one has shown its bottom card.
#[derive(Debug)]
pub struct DeckInfo {
    pub deck: Deck,
    pub top_reveal: bool,
    pub bottom_reveal: bool,
}

impl DeckInfo {
    /// A deck of which no card has been shown.
    pub fn new(deck: Deck) -> (info: DeckInfo)
        ensures
            info == (DeckInfo { deck, top_reveal: false, bottom_reveal: false }),
    {
        DeckInfo { deck, top_reveal: false, bottom_reveal: false }
    }

    /// A deck with what is known of its two ends.
    pub fn new_with_info(deck: Deck, top_reveal: bool, bottom_reveal: bool) -> (info: DeckInfo)
        ensures
            info == (DeckInfo { deck, top_reveal, bottom_reveal }),
    {
        DeckInfo { deck, top_reveal, bottom_reveal }
    }

    /// For each card of the deck, whether a cut has shown it: the top card
    /// where the top is marked, the bottom card where the bottom is marked, and
    /// no card in between.
    pub open spec fn revealed(self) -> Seq<bool> {
        Seq::new(
            self.deck@.len(),
            |i: int|
                (i == 0 && self.top_reveal) || (i == self.deck@.len() - 1 && self.bottom_reveal),
        )
    }
}

/// The number of cards in all the decks of a pool.
pub open spec fn total_cards(pool: Seq<DeckInfo>) -> int
    decreases pool.len(),
{
    if pool.len() == 0 {
        0
    } else {
        total_cards(pool.drop_last()) + pool.last().deck@.len()
    }
}

/// The cards of all the decks of a pool, each as often as the decks hold it.
pub open spec fn pool_cards(pool: Seq<DeckInfo>) -> Multiset<Card>
    decreases pool.len(),
{
    if pool.len() == 0 {
        Multiset::empty()
    } else {
        pool_cards(pool.drop_last()).add(pool.last().deck@.to_multiset())
    }
}

/// Some wager is a reverse wager.
pub open spec fn any_reverse(wagers: Seq<PlacedWager<CtaWagerType>>) -> bool {
    exists|k: int|
        0 <= k < wagers.len() && (#[trigger] wagers[k]).wager.wager_type() == CtaWagerType::Reverse
}

/// The upper part that a cut behind the card at `position` leaves of a deck:
/// the cards up to that card. Its bottom card has now been shown.
pub open spec fn upper_part(info: DeckInfo, position: int, part: DeckInfo) -> bool {
    &&& part.deck.wf()
    &&& part.deck@ == info.deck@.take(position + 1)
    &&& part.deck.cursor() == 0
    &&& part.top_reveal == info.top_reveal
    &&& part.bottom_reveal
}

/// The lower part that a cut behind the card at `position` takes off a deck:
/// the cards after that card. Its top card has now been shown, and its bottom
/// card is the one that the deck had.
pub open spec fn lower_part(info: DeckInfo, position: int, part: DeckInfo) -> bool {
    &&& part.deck.wf()
    &&& part.deck@ == info.deck@.skip(position + 1)
    &&& part.deck.cursor() == 0
    &&& part.top_reveal
    &&& part.bottom_reveal == info.bottom_reveal
}

/// What a wager of `amount` wins, or loses where the result is negative,
/// after `cuts` cuts. A forward wager wins the amount times the odds, those
/// of a pair where the last cut parted two aces, and pays the amount for
/// each cut. A reverse wager wins the amount for each cut and pays the amount
/// times the reverse odds.
pub open spec fn net_of(
    wager_type: CtaWagerType,
    amount: int,
    odds: Odds,
    cuts: int,
    cut_pair: bool,
) -> int {
    match wager_type {
        CtaWagerType::Forward => amount * (if cut_pair {
            odds.pair
        } else {
            odds.forward
        }) - amount * cuts,
        CtaWagerType::Reverse => cuts * amount - amount * odds.reverse,
    }
}

/// What a wager of `amount` puts at risk: the amount for each cut, or the
/// amount times the reverse odds.
pub open spec fn max_loss_of(wager_type: CtaWagerType, amount: int, odds: Odds, cuts: int) -> int {
    match wager_type {
        CtaWagerType::Forward => amount * cuts,
        CtaWagerType::Reverse => amount * odds.reverse,
    }
}

/// What a wager comes to.
pub open spec fn stake_of(
    placed: PlacedWager<CtaWagerType>,
    odds: Odds,
    cuts: int,
    cut_pair: bool,
) -> Stake {
    Stake {
        player_id: placed.player,
        wager_id: placed.wager.id(),
        staked: placed.wager.amount(),
        net: net_of(placed.wager.wager_type(), placed.wager.amount(), odds, cuts, cut_pair),
        max_loss: max_loss_of(placed.wager.wager_type(), placed.wager.amount(), odds, cuts),
    }
}

/// What each wager of a table comes to, in the order of `all_wagers`.
pub open spec fn stakes_in(
    entries: Entries<CtaWagerType>,
    odds: Odds,
    cuts: int,
    cut_pair: bool,
) -> Seq<Stake> {
    Seq::new(
        all_wagers(entries).len(),
        |k: int| stake_of(all_wagers(entries)[k], odds, cuts, cut_pair),
    )
}

/// Computes `net_of` for a wager, for no more cuts than a deck has cards.
pub fn wager_net(wager: &Wager<CtaWagerType>, odds: &Odds, cuts: u8, cut_pair: bool) -> (net: i64)
    ensures
        net == net_of(wager.wager_type(), wager.amount(), *odds, cuts as int, cut_pair),
{
    let amount: i32 = *wager.get_amount();
    match *wager.get_wager_type() {
        CtaWagerType::Forward => {
            let win = if cut_pair {
                scaled(amount, *odds.get_pair() as i64)
            } else {
                scaled(amount, *odds.get_forward() as i64)
            };
            let paid = scaled(amount, cuts as i64);
            assert(0 <= paid <= 0x7fff_ffff * 255) by (nonlinear_arith)
                requires
                    paid == amount * cuts,
                    0 < amount <= 0x7fff_ffff,
                    0 <= cuts <= 255,
            ;
            win - paid
        },
        CtaWagerType::Reverse => {
            let won = scaled(amount, cuts as i64);
            assert(0 <= won <= 0x7fff_ffff * 255 && won == cuts * amount) by (nonlinear_arith)
                requires
                    won == amount * cuts,
                    0 < amount <= 0x7fff_ffff,
                    0 <= cuts <= 255,
            ;
            won - scaled(amount, *odds.get_reverse() as i64)
        },
    }
}

/// Computes `max_loss_of` for a wager.
pub fn wager_max_loss(wager: &Wager<CtaWagerType>, odds: &Odds, cuts: u8) -> (max_loss: i64)
    ensures
        max_loss == max_loss_of(wager.wager_type(), wager.amount(), *odds, cuts as int),
{
    let amount: i32 = *wager.get_amount();
    match *wager.get_wager_type() {
        CtaWagerType::Forward => scaled(amount, cuts as i64),
        CtaWagerType::Reverse => scaled(amount, *odds.get_reverse() as i64),
    }
}

/// One game: the pool of decks, the wagers, and how the game stands.
#[derive(Debug)]
pub struct Cta {
    config: CtaConfig,
    state: State,
    deck_pool: Vec<DeckInfo>,
    bottom_deck_index: usize,
    enforce_optimal_cut: bool,
    cut_pair: bool,
}

impl Cta {
    /// What the game was set up with.
    pub closed spec fn config(self) -> CtaConfig {
        self.config
    }

    /// The state.
    pub closed spec fn state(self) -> State {
        self.state
    }

    /// The decks of the pool, in the order in which the cuts made them.
    pub closed spec fn pool(self) -> Seq<DeckInfo> {
        self.deck_pool@
    }

    /// The place in the pool of the deck that holds the bottom card of the
    /// deck that the game began with.
    pub closed spec fn bottom_deck_index(self) -> int {
        self.bottom_deck_index as int
    }

    /// Whether every cut has to show two cards that no cut has shown.
    pub closed spec fn enforce_optimal_cut(self) -> bool {
        self.enforce_optimal_cut
    }

    /// Whether the cut that ended the game parted two aces.
    pub closed spec fn cut_pair(self) -> bool {
        self.cut_pair
    }

    /// The number of cuts made so far.
    pub open spec fn cuts(self) -> int {
        self.pool().len() - 1
    }

    /// The decks of the pool as a game holds them when it is not in play: the
    /// 52 cards of a standard deck, in decks of which none is empty and none
    /// has dealt a card. Cuts have shown the top card of
    /// every deck but the first, and the bottom card of every deck but the
    /// bottom deck.
    pub open spec fn pool_wf(self) -> bool {
        &&& self.pool().len() >= 1
        &&& forall|i: int|
            0 <= i < self.pool().len() ==> {
                &&& (#[trigger] self.pool()[i]).deck@.len() >= 1
                &&& self.pool()[i].deck.cursor() == 0
                &&& self.pool()[i].top_reveal == (i != 0)
                &&& self.pool()[i].bottom_reveal == (i != self.bottom_deck_index())
            }
        &&& total_cards(self.pool()) == 52
        &&& pool_cards(self.pool()) == standard_cards(1).to_multiset()
        &&& 0 <= self.bottom_deck_index() < self.pool().len()
    }

    /// Optimal cuts are enforced exactly when some wager is a reverse wager.
    /// Before the game has started the pool is one standard deck, uncut; only
    /// a game that has ended can have parted two aces. Of a game that is in
    /// play, in the middle of a cut, nothing more is known.
    #[verifier::type_invariant]
    pub open spec fn wf(self) -> bool {
        &&& self.config().wf()
        &&& self.enforce_optimal_cut() == any_reverse(all_wagers(self.config().entries()))
        &&& match self.state() {
            State::Game(GameState::Setup) => {
                &&& self.pool_wf()
                &&& self.pool().len() == 1
                &&& self.pool()[0].deck@ == standard_cards(1)
                &&& !self.cut_pair()
            },
            State::Game(GameState::Started) => true,
            State::Cta(CtaState::AwaitCut) => self.pool_wf() && !self.cut_pair(),
            State::Game(GameState::Ended) => self.pool_wf(),
        }
    }

    /// Why a cut of the deck at `deck_index` behind the card at `position`
    /// is turned down, if it is. It is invalid where there is no such deck or
    /// no card follows the one at `position`. Where optimal cuts are enforced
    /// it is unoptimal where the deck holds just two cards, and where it would
    /// show a top or bottom card that has been shown.
    pub open spec fn cut_refusal(self, deck_index: int, position: int) -> Option<CutError> {
        if deck_index >= self.pool().len() {
            Some(CutError::InvalidCut(deck_index as usize, position as usize))
        } else {
            let info = self.pool()[deck_index];
            let len = info.deck@.len();
            if len <= 1 || position >= len - 1 {
                Some(CutError::InvalidCut(deck_index as usize, position as usize))
            } else if self.enforce_optimal_cut() && (len <= 2 || (position == 0 && info.top_reveal)
                || (position == len - 2 && info.bottom_reveal)) {
                Some(CutError::UnoptimalCut(position as usize))
            } else {
                None
            }
        }
    }

    /// Why the game turns a request down, if it does. It starts only from
    /// its setup. It ends, and takes a cut, only while it waits for a cut, and
    /// then it takes only a cut that `cut_refusal` lets pass.
    pub open spec fn refusal(self, transition: Transition) -> Option<Error> {
        match transition {
            Transition::Game(GameTransition::Start) => if self.state() == State::Game(
                GameState::Setup,
            ) {
                None
            } else {
                Some(Error::InvalidTransition)
            },
            Transition::Game(GameTransition::End) => if self.state() == State::Cta(
                CtaState::AwaitCut,
            ) {
                None
            } else {
                Some(Error::InvalidTransition)
            },
            Transition::Cta(CtaTransition::Cut { deck_index, position }) => if self.state()
                != State::Cta(CtaState::AwaitCut) {
                Some(Error::InvalidTransition)
            } else {
                match self.cut_refusal(deck_index as int, position as int) {
                    Some(error) => Some(Error::Cut(error)),
                    None => None,
                }
            },
        }
    }

    /// `after` is the game that a cut of the deck at `deck_index` behind the
    /// card at `position` makes of this game. The deck keeps its place and
    /// its upper part; the lower part goes to the end of the pool, and is from
    /// now on the bottom deck if the deck that was cut was. The game ends when
    /// one of the two cards at the cut is an ace, and has parted two aces when
    /// both are.
    pub open spec fn cut_gives(self, deck_index: int, position: int, after: Cta) -> bool {
        let info = self.pool()[deck_index];
        let upper = after.pool()[deck_index];
        let lower = after.pool()[self.pool().len() as int];
        let ace_above = info.deck@[position].rank() == 1;
        let ace_below = info.deck@[position + 1].rank() == 1;
        &&& after.config() == self.config()
        &&& after.enforce_optimal_cut() == self.enforce_optimal_cut()
        &&& after.pool().len() == self.pool().len() + 1
        &&& forall|i: int|
            0 <= i < self.pool().len() && i != deck_index ==> after.pool()[i] == self.pool()[i]
        &&& upper_part(info, position, upper)
        &&& lower_part(info, position, lower)
        &&& after.bottom_deck_index() == if self.bottom_deck_index() == deck_index {
            self.pool().len() as int
        } else {
            self.bottom_deck_index()
        }
        &&& after.state() == if ace_above || ace_below {
            State::Game(GameState::Ended)
        } else {
            self.state()
        }
        &&& after.cut_pair() == (self.cut_pair() || (ace_above && ace_below))
    }

    /// `after` is this game in the state `state`, with nothing else changed.
    pub open spec fn moves_to(self, state: State, after: Cta) -> bool {
        &&& after.state() == state
        &&& after.config() == self.config()
        &&& after.pool() == self.pool()
        &&& after.bottom_deck_index() == self.bottom_deck_index()
        &&& after.enforce_optimal_cut() == self.enforce_optimal_cut()
        &&& after.cut_pair() == self.cut_pair()
    }

    /// `result` and `after` are what a request makes of this game. A request
    /// that is turned down gives the error and leaves the game as it was. The
    /// request to start makes the game wait for a cut, the request to end ends
    /// it, and a cut does what `cut_gives` says.
    pub open spec fn transition_gives(
        self,
        transition: Transition,
        result: Result<(), Error>,
        after: Cta,
    ) -> bool {
        match self.refusal(transition) {
            Some(error) => result == Err::<(), Error>(error) && after == self,
            None => result is Ok && match transition {
                Transition::Game(GameTransition::Start) => self.moves_to(
                    State::Cta(CtaState::AwaitCut),
                    after,
                ),
                Transition::Game(GameTransition::End) => self.moves_to(
                    State::Game(GameState::Ended),
                    after,
                ),
                Transition::Cta(CtaTransition::Cut { deck_index, position }) => self.cut_gives(
                    deck_index as int,
                    position as int,
                    after,
                ),
            },
        }
    }

    /// The cuts of the deck at `deck_index` behind one of its first `upto`
    /// cards that pass the check, in the order of the cards.
    pub open spec fn cuts_of_deck(self, deck_index: int, upto: int) -> Seq<Transition>
        decreases upto,
    {
        if upto <= 0 {
            Seq::empty()
        } else {
            let before = self.cuts_of_deck(deck_index, upto - 1);
            if self.cut_refusal(deck_index, upto - 1) is None {
                before.push(
                    Transition::Cta(
                        CtaTransition::Cut {
                            deck_index: deck_index as usize,
                            position: (upto - 1) as usize,
                        },
                    ),
                )
            } else {
                before
            }
        }
    }

    /// The cuts of the first `decks` decks of the pool that pass the check,
    /// deck after deck.
    pub open spec fn cuts_of_pool(self, decks: int) -> Seq<Transition>
        decreases decks,
    {
        if decks <= 0 {
            Seq::empty()
        } else {
            self.cuts_of_pool(decks - 1) + self.cuts_of_deck(
                decks - 1,
                self.pool()[decks - 1].deck@.len() as int,
            )
        }
    }

    /// The requests that the game takes in its state: to start it while it
    /// is set up; while it waits for a cut, to end it and every cut that
    /// passes the check; none once it has ended.
    pub open spec fn valid_transitions(self) -> Seq<Transition> {
        match self.state() {
            State::Game(GameState::Setup) => seq![Transition::Game(GameTransition::Start)],
            State::Cta(CtaState::AwaitCut) => seq![Transition::Game(GameTransition::End)]
                + self.cuts_of_pool(self.pool().len() as int),
            _ => Seq::empty(),
        }
    }

    /// What each wager comes to.
    pub open spec fn stakes(self) -> Seq<Stake> {
        stakes_in(self.config().entries(), self.config().odds(), self.cuts(), self.cut_pair())
    }

    /// What `get_payout` gives: nothing before the game has ended, and then
    /// the settlement of the stakes.
    pub open spec fn payout(self) -> Result<Seq<PayoutView>, ErrorView> {
        if self.state() == State::Game(GameState::Ended) {
            settlement(self.stakes(), self.config().house_id())
        } else {
            Ok(Seq::empty())
        }
    }

    /// A game in its setup, with a pool of one standard deck.
    pub fn new(config: CtaConfig) -> (result: Result<Cta, Error>)
        ensures
            result matches Ok(game) && game.wf() && game.config() == config && game.state()
                == State::Game(GameState::Setup),
    {
        proof {
            use_type_invariant(&config);
        }
        let mut deck_pool: Vec<DeckInfo> = Vec::new();
        deck_pool.push(DeckInfo::new(Deck::default()));
        proof {
            assert(deck_pool@.drop_last() =~= Seq::<DeckInfo>::empty());
            assert(total_cards(deck_pool@.drop_last()) == 0);
            assert(pool_cards(deck_pool@.drop_last()) =~= Multiset::<Card>::empty());
            assert(deck_pool@.last().deck@ == standard_cards(1));
            assert(pool_cards(deck_pool@) =~= standard_cards(1).to_multiset());
        }
        let enforce_optimal_cut = Cta::apply_config(&config);
        Ok(
            Cta {
                config,
                state: State::Game(GameState::Setup),
                deck_pool,
                bottom_deck_index: 0,
                enforce_optimal_cut,
                cut_pair: false,
            },
        )
    }

    /// Whether optimal cuts are to be enforced: they are where some wager
    /// is a reverse wager.
    fn apply_config(config: &CtaConfig) -> (enforce: bool)
        ensures
            enforce == any_reverse(all_wagers(config.entries())),
    {
        let row = config.get_base_config().get_wagers().flatten();
        let ghost wagers = all_wagers(config.entries());
        let mut found = false;
        let mut k: usize = 0;
        while k < row.len()
            invariant
                k <= row@.len(),
                row@.len() == wagers.len(),
                forall|n: int| 0 <= n < row@.len() ==> (#[trigger] row@[n])@ == wagers[n],
                found == any_reverse(wagers.take(k as int)),
            decreases row@.len() - k,
        {
            let reverse = match *row[k].wager.get_wager_type() {
                CtaWagerType::Reverse => true,
                CtaWagerType::Forward => false,
            };
            proof {
                let shorter = wagers.take(k as int);
                let longer = wagers.take(k + 1);
                if found {
                    let at = choose|n: int|
                        0 <= n < shorter.len() && (#[trigger] shorter[n]).wager.wager_type()
                            == CtaWagerType::Reverse;
                    assert(longer[at] == shorter[at]);
                }
                if reverse {
                    assert(longer[k as int] == wagers[k as int]);
                }
                if any_reverse(longer) {
                    let at = choose|n: int|
                        0 <= n < longer.len() && (#[trigger] longer[n]).wager.wager_type()
                            == CtaWagerType::Reverse;
                    if at < k {
                        assert(shorter[at] == longer[at]);
                    }
                }
            }
            if reverse {
                found = true;
            }
            k += 1;
        }
        proof {
            assert(wagers.take(k as int) =~= wagers);
        }
        found
    }

    /// Whether the game can start: it must be in its setup.
    fn start_game(&mut self) -> (result: Result<(), Error>)
        ensures
            *final(self) == *old(self),
            old(self).state() == State::Game(GameState::Setup) ==> result is Ok,
            old(self).state() != State::Game(GameState::Setup) ==> result == Err::<(), Error>(
                Error::InvalidTransition,
            ),
    {
        if self.state != State::Game(GameState::Setup) {
            Err(Error::InvalidTransition)
        } else {
            Ok(())
        }
    }

    /// Whether the game can end: it must be waiting for a cut.
    fn end_game(&mut self) -> (result: Result<(), Error>)
        ensures
            *final(self) == *old(self),
            old(self).state() == State::Cta(CtaState::AwaitCut) ==> result is Ok,
            old(self).state() != State::Cta(CtaState::AwaitCut) ==> result == Err::<(), Error>(
                Error::InvalidTransition,
            ),
    {
        if self.state != State::Cta(CtaState::AwaitCut) {
            Err(Error::InvalidTransition)
        } else {
            Ok(())
        }
    }

    /// Whether the deck at `deck_index` can be cut at all: there must be such
    /// a deck, with more than one card, and with more than two where optimal
    /// cuts are enforced.
    fn can_cut_deck(&self, deck_index: usize) -> (can: bool)
        ensures
            can == (deck_index < self.pool().len() && self.pool()[deck_index as int].deck@.len() > 1
                && (self.enforce_optimal_cut() ==> self.pool()[deck_index as int].deck@.len()
                > 2)),
    {
        if deck_index >= self.deck_pool.len() {
            return false;
        }
        let len = self.deck_pool[deck_index].deck.total_len();
        if len <= 1 {
            return false;
        }
        if self.enforce_optimal_cut {
            if len <= 2 {
                return false;
            }
        }
        true
    }

    /// Whether the deck at `deck_index` can be cut behind the card at
    /// `card_index`: a card must follow that one, and where optimal cuts are
    /// enforced the cut must not show a top or bottom card that has been shown.
    fn can_cut_at(&self, deck_index: usize, card_index: usize) -> (can: bool)
        requires
            deck_index < self.pool().len(),
            self.pool()[deck_index as int].deck@.len() > 1,
        ensures
            can == (card_index < self.pool()[deck_index as int].deck@.len() - 1 && (
            self.enforce_optimal_cut() ==> !(card_index == 0 && self.pool()[deck_index as int].top_reveal)
                && !(card_index == self.pool()[deck_index as int].deck@.len() - 2
                && self.pool()[deck_index as int].bottom_reveal))),
    {
        let info = &self.deck_pool[deck_index];
        let len = info.deck.total_len();
        if card_index >= len - 1 {
            return false;
        }
        if self.enforce_optimal_cut {
            if info.top_reveal && card_index == 0 {
                return false;
            }
            if info.bottom_reveal && card_index == len - 2 {
                return false;
            }
        }
        true
    }

    /// Checks a cut as `cut_refusal` says.
    fn check_cut(&self, deck_index: usize, card_index: usize) -> (result: Result<(), CutError>)
        ensures
            self.cut_refusal(deck_index as int, card_index as int) matches Some(error) ==> result
                == Err::<(), CutError>(error),
            self.cut_refusal(deck_index as int, card_index as int) is None ==> result is Ok,
    {
        if deck_index >= self.deck_pool.len() {
            return Err(CutError::InvalidCut(deck_index, card_index));
        }
        let len = self.deck_pool[deck_index].deck.total_len();
        if len <= 1 || card_index >= len - 1 {
            return Err(CutError::InvalidCut(deck_index, card_index));
        }
        if !self.can_cut_deck(deck_index) || !self.can_cut_at(deck_index, card_index) {
            return Err(CutError::UnoptimalCut(card_index));
        }
        Ok(())
    }

    /// Cuts the deck at `deck_index` behind the card at `card_index`, if the
    /// cut passes the check. While the decks are parted the game is in play.
    fn make_cut(&mut self, deck_index: usize, card_index: usize) -> (result: Result<(), Error>)
        requires
            old(self).state() == State::Cta(CtaState::AwaitCut),
        ensures
            old(self).cut_refusal(deck_index as int, card_index as int) matches Some(error)
                ==> result == Err::<(), Error>(Error::Cut(error)) && *final(self) == *old(self),
            old(self).cut_refusal(deck_index as int, card_index as int) is None ==> result is Ok
                && old(self).cut_gives(deck_index as int, card_index as int, *final(self)),
    {
        proof {
            use_type_invariant(&*self);
        }
        match self.check_cut(deck_index, card_index) {
            Ok(()) => {},
            Err(error) => {
                return Err(Error::Cut(error));
            },
        }
        let ghost before = self.deck_pool@;
        let ghost info = before[deck_index as int];
        self.state = State::Game(GameState::Started);
        let mut pool: Vec<DeckInfo> = Vec::new();
        core::mem::swap(&mut self.deck_pool, &mut pool);
        let new_deck = match pool[deck_index].deck.split(card_index) {
            Ok(new_deck) => new_deck,
            Err(_) => {
                core::mem::swap(&mut self.deck_pool, &mut pool);
                self.state = State::Cta(CtaState::AwaitCut);
                return Err(Error::Cut(CutError::InvalidCut(deck_index, card_index)));
            },
        };
        let inherited = pool[deck_index].bottom_reveal;
        let pool_len = pool.len();
        pool[deck_index].bottom_reveal = true;
        let ghost upper = pool@[deck_index as int];
        proof {
            assert(pool@ =~= before.update(deck_index as int, upper));
            lemma_total_cards_update(before, deck_index as int, upper);
            lemma_pool_cards_update(before, deck_index as int, upper);
        }
        let ace_below = match new_deck.get_top() {
            Some(card) => card.get_rank() == 1,
            None => false,
        };
        let ace_above = match pool[deck_index].deck.get_bottom() {
            Some(card) => card.get_rank() == 1,
            None => false,
        };
        let lower = DeckInfo::new_with_info(new_deck, true, inherited);
        pool.push(lower);
        proof {
            assert(pool@.drop_last() =~= before.update(deck_index as int, upper));
            assert(total_cards(pool@) == 52);
            vstd::seq_lib::lemma_multiset_commutative(upper.deck@, lower.deck@);
            assert(info.deck@ == upper.deck@ + lower.deck@);
            let changed = pool_cards(before.update(deck_index as int, upper));
            assert(pool_cards(pool@) == changed.add(lower.deck@.to_multiset()));
            assert forall|card: Card| pool_cards(pool@).count(card) == pool_cards(before).count(
                card,
            ) by {
                assert(changed.add(info.deck@.to_multiset()).count(card) == pool_cards(
                    before,
                ).add(upper.deck@.to_multiset()).count(card));
                assert(info.deck@.to_multiset().count(card) == upper.deck@.to_multiset().add(
                    lower.deck@.to_multiset(),
                ).count(card));
            }
            assert(pool_cards(pool@) =~= pool_cards(before));
        }
        core::mem::swap(&mut self.deck_pool, &mut pool);
        if self.bottom_deck_index == deck_index {
            self.bottom_deck_index = pool_len;
        }
        if ace_above || ace_below {
            if ace_above && ace_below {
                self.cut_pair = true;
            }
            self.state = State::Game(GameState::Ended);
        } else {
            self.state = State::Cta(CtaState::AwaitCut);
        }
        Ok(())
    }

    /// The kind of the game.
    pub fn get_type(&self) -> (game_type: GameType)
        ensures
            game_type == GameType::Cta,
    {
        GameType::Cta
    }

    /// Moves the game on: starts it, ends it, or makes a cut. A request that
    /// is turned down leaves the game as it was.
    pub fn transition(&mut self, transition: Transition) -> (result: Result<(), Error>)
        ensures
            final(self).wf(),
            old(self).transition_gives(transition, result, *final(self)),
    {
        proof {
            use_type_invariant(&*self);
        }
        match transition {
            Transition::Game(GameTransition::Start) => {
                match self.start_game() {
                    Ok(()) => {},
                    Err(error) => {
                        return Err(error);
                    },
                }
                self.state = State::Cta(CtaState::AwaitCut);
            },
            Transition::Game(GameTransition::End) => {
                match self.end_game() {
                    Ok(()) => {},
                    Err(error) => {
                        return Err(error);
                    },
                }
                self.state = State::Game(GameState::Ended);
            },
            Transition::Cta(CtaTransition::Cut { deck_index, position }) => {
                if self.state != State::Cta(CtaState::AwaitCut) {
                    return Err(Error::InvalidTransition);
                }
                let result = self.make_cut(deck_index, position);
                proof {
                    use_type_invariant(&*self);
                }
                return result;
            },
        }
        Ok(())
    }

    /// Lists the requests that the game takes in its state.
    pub fn get_valid_transitions(&self) -> (transitions: Vec<Transition>)
        ensures
            transitions@ == self.valid_transitions(),
    {
        let mut transitions: Vec<Transition> = Vec::new();
        match self.state {
            State::Game(GameState::Setup) => {
                transitions.push(Transition::Game(GameTransition::Start));
                proof {
                    assert(transitions@ =~= seq![Transition::Game(GameTransition::Start)]);
                }
            },
            State::Cta(CtaState::AwaitCut) => {
                transitions.push(Transition::Game(GameTransition::End));
                let ghost end = seq![Transition::Game(GameTransition::End)];
                proof {
                    assert(transitions@ =~= end + self.cuts_of_pool(0));
                }
                let mut deck_index: usize = 0;
                while deck_index < self.deck_pool.len()
                    invariant
                        deck_index <= self.pool().len(),
                        end == seq![Transition::Game(GameTransition::End)],
                        transitions@ == end + self.cuts_of_pool(deck_index as int),
                    decreases self.pool().len() - deck_index,
                {
                    let len = self.deck_pool[deck_index].deck.total_len();
                    let ghost done = transitions@;
                    proof {
                        assert(transitions@ =~= done + self.cuts_of_deck(deck_index as int, 0));
                    }
                    let mut position: usize = 0;
                    while position < len
                        invariant
                            position <= len,
                            deck_index < self.pool().len(),
                            len == self.pool()[deck_index as int].deck@.len(),
                            transitions@ == done + self.cuts_of_deck(
                                deck_index as int,
                                position as int,
                            ),
                        decreases len - position,
                    {
                        let ghost before = self.cuts_of_deck(deck_index as int, position as int);
                        if self.check_cut(deck_index, position).is_ok() {
                            transitions.push(
                                Transition::Cta(CtaTransition::Cut { deck_index, position }),
                            );
                            proof {
                                assert(transitions@ =~= done + before.push(
                                    Transition::Cta(CtaTransition::Cut { deck_index, position }),
                                ));
                            }
                        }
                        position += 1;
                    }
                    proof {
                        assert(transitions@ =~= end + self.cuts_of_pool(deck_index + 1));
                    }
                    deck_index += 1;
                }
            },
            _ => {},
        }
        transitions
    }

    /// Settles the game once it has ended; before that nobody is paid.
    pub fn get_payout(&self) -> (result: Result<Vec<Payout>, crate::payout::Error>)
        ensures
            settlement_view(result) == self.payout(),
            result matches Ok(payouts) ==> sum_amounts(payouts_view(payouts@)) == 0,
    {
        proof {
            use_type_invariant(self);
        }
        if self.state != State::Game(GameState::Ended) {
            let payouts: Vec<Payout> = Vec::new();
            proof {
                assert(payouts_view(payouts@) =~= Seq::<PayoutView>::empty());
            }
            return Ok(payouts);
        }
        proof {
            lemma_total_cards_bounds_pool(self.pool());
        }
        let cuts: u8 = (self.deck_pool.len() - 1) as u8;
        let odds = self.config.get_odds();
        let base_config = self.config.get_base_config();
        let row = base_config.get_wagers().flatten();
        let ghost stakes = self.stakes();
        let mut outcomes: Vec<Outcome<'_, CtaWagerType>> = Vec::new();
        let mut k: usize = 0;
        while k < row.len()
            invariant
                k <= row@.len(),
                row@.len() == stakes.len(),
                forall|n: int|
                    0 <= n < row@.len() ==> stake_of(
                        (#[trigger] row@[n])@,
                        *odds,
                        cuts as int,
                        self.cut_pair,
                    ) == stakes[n],
                outcomes@.len() == k,
                forall|n: int| 0 <= n < k ==> (#[trigger] outcomes@[n])@ == stakes[n],
            decreases row@.len() - k,
        {
            let placed = &row[k];
            let net = wager_net(placed.wager, odds, cuts, self.cut_pair);
            let max_loss = wager_max_loss(placed.wager, odds, cuts);
            outcomes.push(Outcome { player: placed.player, wager: placed.wager, net, max_loss });
            k += 1;
        }
        proof {
            assert(stakes_of(outcomes@) =~= stakes);
        }
        settle(&outcomes, base_config.get_house_id())
    }

    pub fn get_state(&self) -> (state: State)
        ensures
            state == self.state(),
    {
        self.state
    }

    pub fn get_deck_pool(&self) -> (pool: &Vec<DeckInfo>)
        ensures
            pool@ == self.pool(),
    {
        &self.deck_pool
    }

    pub fn get_bottom_deck_index(&self) -> (index: usize)
        ensures
            index == self.bottom_deck_index(),
    {
        self.bottom_deck_index
    }

    pub fn is_optimal_cut_enforced(&self) -> (enforced: bool)
        ensures
            enforced == self.enforce_optimal_cut(),
    {
        self.enforce_optimal_cut
    }

    pub fn is_cut_pair(&self) -> (cut_pair: bool)
        ensures
            cut_pair == self.cut_pair(),
    {
        self.cut_pair
    }

    pub fn get_config(&self) -> (config: &CtaConfig)
        ensures
            *config == self.config(),
    {
        &self.config
    }
}

/// Putting another deck in the place of one changes the number of cards in
/// the pool by the difference of the two.
pub proof fn lemma_total_cards_update(pool: Seq<DeckInfo>, at: int, info: DeckInfo)
    requires
        0 <= at < pool.len(),
    ensures
        total_cards(pool.update(at, info)) == total_cards(pool) - pool[at].deck@.len()
            + info.deck@.len(),
    decreases pool.len(),
{
    if at == pool.len() - 1 {
        assert(pool.update(at, info).drop_last() =~= pool.drop_last());
    } else {
        assert(pool.update(at, info).drop_last() =~= pool.drop_last().update(at, info));
        lemma_total_cards_update(pool.drop_last(), at, info);
    }
}

/// Putting another deck in the place of one changes the cards of the pool
/// by the cards of the two: the cards of the new pool together with those of
/// the deck that left are the cards of the old pool together with those of
/// the deck that came.
pub proof fn lemma_pool_cards_update(pool: Seq<DeckInfo>, at: int, info: DeckInfo)
    requires
        0 <= at < pool.len(),
    ensures
        pool_cards(pool.update(at, info)).add(pool[at].deck@.to_multiset()) == pool_cards(
            pool,
        ).add(info.deck@.to_multiset()),
    decreases pool.len(),
{
    let changed = pool.update(at, info);
    let rest = pool_cards(pool.drop_last());
    if at == pool.len() - 1 {
        assert(changed.drop_last() =~= pool.drop_last());
        assert(pool_cards(changed) == rest.add(info.deck@.to_multiset()));
        assert(pool_cards(pool) == rest.add(pool[at].deck@.to_multiset()));
    } else {
        assert(changed.drop_last() =~= pool.drop_last().update(at, info));
        lemma_pool_cards_update(pool.drop_last(), at, info);
        assert(pool.drop_last()[at] == pool[at]);
        assert(changed.last() == pool.last());
        assert(pool_cards(changed) == pool_cards(changed.drop_last()).add(
            pool.last().deck@.to_multiset(),
        ));
        assert(pool_cards(pool) == rest.add(pool.last().deck@.to_multiset()));
    }
    let left = pool_cards(changed).add(pool[at].deck@.to_multiset());
    let right = pool_cards(pool).add(info.deck@.to_multiset());
    assert forall|card: Card| left.count(card) == right.count(card) by {
        if at < pool.len() - 1 {
            let inner_left = pool_cards(changed.drop_last()).add(pool[at].deck@.to_multiset());
            let inner_right = rest.add(info.deck@.to_multiset());
            assert(inner_left.count(card) == inner_right.count(card));
        }
    }
    assert(left =~= right);
}

/// A pool without an empty deck holds at least as many cards as decks.
pub proof fn lemma_total_cards_bounds_pool(pool: Seq<DeckInfo>)
    requires
        forall|i: int| 0 <= i < pool.len() ==> (#[trigger] pool[i]).deck@.len() >= 1,
    ensures
        pool.len() <= total_cards(pool),
    decreases pool.len(),
{
    if pool.len() > 0 {
        assert forall|i: int| 0 <= i < pool.drop_last().len() implies (
        #[trigger] pool.drop_last()[i]).deck@.len() >= 1 by {
            assert(pool.drop_last()[i] == pool[i]);
        }
        lemma_total_cards_bounds_pool(pool.drop_last());
    }
}

/// No deck of a pool holds more cards than the pool.
pub proof fn lemma_total_cards_bounds_deck(pool: Seq<DeckInfo>, at: int)
    requires
        0 <= at < pool.len(),
    ensures
        pool[at].deck@.len() <= total_cards(pool),
        0 <= total_cards(pool),
    decreases pool.len(),
{
    lemma_total_cards_not_negative(pool.drop_last());
    if at < pool.len() - 1 {
        assert(pool.drop_last()[at] == pool[at]);
        lemma_total_cards_bounds_deck(pool.drop_last(), at);
    }
}

/// A pool holds no negative number of cards.
proof fn lemma_total_cards_not_negative(pool: Seq<DeckInfo>)
    ensures
        0 <= total_cards(pool),
    decreases pool.len(),
{
    if pool.len() > 0 {
        lemma_total_cards_not_negative(pool.drop_last());
    }
}

/// In a game that enforces optimal cuts, a cut that passes the check shows
/// two cards that no cut has shown: neither the card behind which the deck
/// is cut nor the card after it is marked as shown.
pub proof fn lemma_optimal_cut_shows_unseen_cards(game: Cta, deck_index: int, position: int)
    requires
        game.wf(),
        game.enforce_optimal_cut(),
        0 <= deck_index,
        0 <= position,
        game.cut_refusal(deck_index, position) is None,
    ensures
        !game.pool()[deck_index].revealed()[position],
        !game.pool()[deck_index].revealed()[position + 1],
{
}

/// A cut marks as shown the two cards at the cut and no other card: the
/// marks of the upper part followed by those of the lower part are the marks
/// that the deck had, with the card behind which it was cut and the card
/// after it marked.
pub proof fn lemma_cut_shows_two_cards(
    info: DeckInfo,
    position: int,
    upper: DeckInfo,
    lower: DeckInfo,
)
    requires
        0 <= position < info.deck@.len() - 1,
        upper_part(info, position, upper),
        lower_part(info, position, lower),
    ensures
        upper.revealed() + lower.revealed() == info.revealed().update(position, true).update(
            position + 1,
            true,
        ),
{
    assert(upper.revealed() + lower.revealed() =~= info.revealed().update(position, true).update(
        position + 1,
        true,
    ));
}

/// A cut is among the cuts of a deck that pass the check exactly when it is
/// a cut of that deck behind one of the cards looked at, and passes the check.
proof fn lemma_cuts_of_deck(game: Cta, deck_index: int, upto: int, transition: Transition)
    requires
        0 <= deck_index <= usize::MAX,
        0 <= upto <= usize::MAX,
    ensures
        game.cuts_of_deck(deck_index, upto).contains(transition) <==> (transition matches Transition::Cta(
            CtaTransition::Cut { deck_index: deck, position },
        ) && deck == deck_index && position < upto && game.cut_refusal(
            deck_index,
            position as int,
        ) is None),
    decreases upto,
{
    if upto > 0 {
        lemma_cuts_of_deck(game, deck_index, upto - 1, transition);
        let before = game.cuts_of_deck(deck_index, upto - 1);
        if game.cut_refusal(deck_index, upto - 1) is None {
            let cut = Transition::Cta(
                CtaTransition::Cut {
                    deck_index: deck_index as usize,
                    position: (upto - 1) as usize,
                },
            );
            let cuts = before.push(cut);
            assert(cuts[cuts.len() - 1] == cut);
            if before.contains(transition) {
                let at = choose|at: int| 0 <= at < before.len() && before[at] == transition;
                assert(cuts[at] == transition);
            }
        }
    }
}

/// A cut is among the cuts of the first decks of the pool that pass the
/// check exactly when it is a cut of one of those decks, and passes the check.
proof fn lemma_cuts_of_pool(game: Cta, decks: int, transition: Transition)
    requires
        game.pool_wf(),
        0 <= decks <= game.pool().len(),
    ensures
        game.cuts_of_pool(decks).contains(transition) <==> (transition matches Transition::Cta(
            CtaTransition::Cut { deck_index, position },
        ) && deck_index < decks && game.cut_refusal(deck_index as int, position as int) is None),
    decreases decks,
{
    lemma_total_cards_bounds_pool(game.pool());
    if decks > 0 {
        let len = game.pool()[decks - 1].deck@.len() as int;
        lemma_total_cards_bounds_deck(game.pool(), decks - 1);
        lemma_cuts_of_pool(game, decks - 1, transition);
        lemma_cuts_of_deck(game, decks - 1, len, transition);
        let earlier = game.cuts_of_pool(decks - 1);
        let last = game.cuts_of_deck(decks - 1, len);
        if earlier.contains(transition) {
            let at = choose|at: int| 0 <= at < earlier.len() && earlier[at] == transition;
            assert((earlier + last)[at] == transition);
        }
        if last.contains(transition) {
            let at = choose|at: int| 0 <= at < last.len() && last[at] == transition;
            assert((earlier + last)[earlier.len() + at] == transition);
        }
    }
}

/// The requests that a game lists are those that it takes: a request is
/// among the valid transitions exactly when the game does not turn it down.
pub proof fn lemma_valid_transitions_are_taken(game: Cta, transition: Transition)
    requires
        game.wf(),
    ensures
        game.valid_transitions().contains(transition) <==> game.refusal(transition) is None,
{
    let start = Transition::Game(GameTransition::Start);
    let end = Transition::Game(GameTransition::End);
    match game.state() {
        State::Game(GameState::Setup) => {
            assert(seq![start][0] == start);
        },
        State::Cta(CtaState::AwaitCut) => {
            let cuts = game.cuts_of_pool(game.pool().len() as int);
            lemma_cuts_of_pool(game, game.pool().len() as int, transition);
            assert((seq![end] + cuts)[0] == end);
            if cuts.contains(transition) {
                let at = choose|at: int| 0 <= at < cuts.len() && cuts[at] == transition;
                assert((seq![end] + cuts)[at + 1] == transition);
            }
        },
        _ => {},
    }
}

/// Settling a game twice gives the same: what `get_payout` gives depends on
/// the game alone.
pub proof fn lemma_payout_is_repeatable(
    game: Cta,
    first: Result<Vec<Payout>, crate::payout::Error>,
    second: Result<Vec<Payout>, crate::payout::Error>,
)
    requires
        settlement_view(first) == game.payout(),
        settlement_view(second) == game.payout(),
    ensures
        settlement_view(first) == settlement_view(second),
{
}

/// The payouts of a game that has ended sum to zero.
pub proof fn lemma_payouts_sum_to_zero(game: Cta)
    requires
        game.payout() is Ok,
    ensures
        sum_amounts(game.payout()->Ok_0) == 0,
{
    if game.state() == State::Game(GameState::Ended) {
        crate::payout::lemma_settlement_sums_to_zero(game.stakes(), game.config().house_id());
    }
}

/// No wager loses more than it puts at risk, whatever the number of cuts:
/// a forward wager loses at most the amount for each cut, a reverse wager at
/// most the amount times the reverse odds. So a game is settled unless an
/// amount is too large to be paid out.
pub proof fn lemma_loss_within_risk(game: Cta)
    requires
        game.wf(),
        game.config().odds().forward >= 0,
        game.config().odds().pair >= 0,
        game.cuts() >= 0,
    ensures
        forall|k: int| 0 <= k < game.stakes().len() ==> within_risk(#[trigger] game.stakes()[k]),
        game.payout() matches Err(error) ==> error == ErrorView::AmountOutOfRange,
{
    let odds = game.config().odds();
    let cuts = game.cuts();
    assert forall|k: int| 0 <= k < game.stakes().len() implies within_risk(
        #[trigger] game.stakes()[k],
    ) by {
        let placed = all_wagers(game.config().entries())[k];
        let amount = placed.wager.amount();
        assert(amount > 0);
        match placed.wager.wager_type() {
            CtaWagerType::Forward => {
                let factor: int = if game.cut_pair() {
                    odds.pair as int
                } else {
                    odds.forward as int
                };
                assert(amount * factor >= 0) by (nonlinear_arith)
                    requires
                        amount > 0,
                        factor >= 0,
                ;
            },
            CtaWagerType::Reverse => {
                assert(cuts * amount >= 0) by (nonlinear_arith)
                    requires
                        amount > 0,
                        cuts >= 0,
                ;
            },
        }
    }
    crate::payout::lemma_settlement_within_risk(game.stakes(), game.config().house_id());
}

} // verus!
