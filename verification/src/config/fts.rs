//! Setup of the flop-matching game.

use vstd::prelude::*;

use crate::config::{rejects, valid_wagers, Config, ConfigError};
use crate::keyed::distinct_keys;
use crate::wager::{positive_amounts, Entries, WagerMap};

verus! {

/// What a winning wager pays for each unit staked, by the type of the wager.
#[derive(PartialEq, Eq, Structural, Clone, Copy, Debug)]
pub struct Odds {
    pub full_deck: i32,
    pub at_flop: i32,
    pub flop_range: i32,
}

impl Odds {
    /// Odds for each type of wager.
    pub fn new(full_deck: i32, at_flop: i32, flop_range: i32) -> (odds: Odds)
        ensures
            odds == (Odds { full_deck, at_flop, flop_range }),
    {
        Odds { full_deck, at_flop, flop_range }
    }

    pub fn get_full_deck(&self) -> (odds: &i32)
        ensures
            *odds == self.full_deck,
    {
        &self.full_deck
    }

    pub fn get_at_flop(&self) -> (odds: &i32)
        ensures
            *odds == self.at_flop,
    {
        &self.at_flop
    }

    pub fn get_flop_range(&self) -> (odds: &i32)
        ensures
            *odds == self.flop_range,
    {
        &self.flop_range
    }
}

impl Default for Odds {
    /// Seventeen to one on every type of wager.
    fn default() -> (odds: Odds)
        ensures
            odds == (Odds { full_deck: 17, at_flop: 17, flop_range: 17 }),
    {
        Odds { full_deck: 17, at_flop: 17, flop_range: 17 }
    }
}

/// What a wager of the flop-matching game is on. Flops are counted from 0.
#[derive(PartialEq, Eq, Structural, Clone, Copy, Debug)]
pub enum FtsWagerType {
    /// A flop somewhere in the deck.
    FullDeck,
    /// A flop at this place.
    AtFlop(u8),
    /// A flop at a place from the first number to the second, both included.
    FlopRange(u8, u8),
}

/// The wagers, the house and the odds of one flop-matching game.
#[derive(Debug)]
pub struct Fts {
    base_config: Config<FtsWagerType>,
    odds: Odds,
}

impl Fts {
    /// The wagers are valid and of positive amounts, and no two entries are
    /// of the same player.
    #[verifier::type_invariant]
    pub open spec fn wf(self) -> bool {
        &&& distinct_keys(self.entries())
        &&& valid_wagers(self.entries())
        &&& positive_amounts(self.entries())
    }

    /// The entries of the table of wagers.
    pub closed spec fn entries(self) -> Entries<FtsWagerType> {
        self.base_config.entries()
    }

    /// The characters of the identifier of the house.
    pub closed spec fn house_id(self) -> Seq<char> {
        self.base_config.house_id()
    }

    /// The odds.
    pub closed spec fn odds(self) -> Odds {
        self.odds
    }

    /// Checks the wagers as `Config::new` does. Without odds of its own the
    /// game has the default odds.
    pub fn new(wagers: WagerMap<FtsWagerType>, house_id: String, opt_odds: Option<Odds>) -> (result:
        Result<Fts, ConfigError>)
        ensures
            valid_wagers(wagers@) ==> (result matches Ok(config) && config.wf() && config.entries()
                == wagers@ && config.house_id() == house_id@ && config.odds() == match opt_odds {
                Some(odds) => odds,
                None => (Odds { full_deck: 17, at_flop: 17, flop_range: 17 }),
            }),
            !valid_wagers(wagers@) ==> (result matches Err(error) && rejects(wagers@, error)),
    {
        let base_config = match Config::new(wagers, house_id) {
            Ok(base_config) => base_config,
            Err(error) => {
                return Err(error);
            },
        };
        let odds = match opt_odds {
            Some(odds) => odds,
            None => Odds::default(),
        };
        Ok(Fts { base_config, odds })
    }

    /// The wagers and the house.
    pub fn get_base_config(&self) -> (config: &Config<FtsWagerType>)
        ensures
            config.wf(),
            config.entries() == self.entries(),
            config.house_id() == self.house_id(),
    {
        proof {
            use_type_invariant(self);
        }
        &self.base_config
    }

    /// The odds.
    pub fn get_odds(&self) -> (odds: &Odds)
        ensures
            *odds == self.odds(),
    {
        &self.odds
    }
}

} // verus!
