//! Setup of the deck-cutting game.

use vstd::prelude::*;

use crate::config::{rejects, valid_wagers, Config, ConfigError};
use crate::keyed::distinct_keys;
use crate::wager::{positive_amounts, Entries, WagerMap};

verus! {

/// What a wager pays or costs for each unit staked, by the type of the wager.
#[derive(PartialEq, Eq, Structural, Clone, Copy, Debug)]
pub struct Odds {
    pub forward: i32,
    pub reverse: i32,
    pub pair: i32,
}

impl Odds {
    pub fn get_forward(&self) -> (odds: &i32)
        ensures
            *odds == self.forward,
    {
        &self.forward
    }

    pub fn get_reverse(&self) -> (odds: &i32)
        ensures
            *odds == self.reverse,
    {
        &self.reverse
    }

    pub fn get_pair(&self) -> (odds: &i32)
        ensures
            *odds == self.pair,
    {
        &self.pair
    }
}

impl Default for Odds {
    /// Four to one forward, five to one in reverse, twenty to one on a pair.
    fn default() -> (odds: Odds)
        ensures
            odds == (Odds { forward: 4, reverse: 5, pair: 20 }),
    {
        Odds { forward: 4, reverse: 5, pair: 20 }
    }
}

/// What a wager of the deck-cutting game is on.
#[derive(PartialEq, Eq, Structural, Clone, Copy, Debug)]
pub enum CtaWagerType {
    /// That a cut turns up an ace.
    Forward,
    /// That cuts fail to turn up an ace.
    Reverse,
}

/// The wagers, the house and the odds of one deck-cutting game.
#[derive(Debug)]
pub struct Cta {
    base_config: Config<CtaWagerType>,
    odds: Odds,
    fast: bool,
}

impl Cta {
    /// The wagers are valid and of positive amounts, and no two entries are
    /// of the same player.
    #[verifier::type_invariant]
    pub open spec fn wf(self) -> bool {
        &&& distinct_keys(self.entries())
        &&& valid_wagers(self.entries())
        &&& positive_amounts(self.entries())
    }

    /// The entries of the table of wagers.
    pub closed spec fn entries(self) -> Entries<CtaWagerType> {
        self.base_config.entries()
    }

    /// The characters of the identifier of the house.
    pub closed spec fn house_id(self) -> Seq<char> {
        self.base_config.house_id()
    }

    /// The odds.
    pub closed spec fn odds(self) -> Odds {
        self.odds
    }

    /// Checks the wagers as `Config::new` does. The game has the default odds.
    pub fn new(wagers: WagerMap<CtaWagerType>, house_id: String) -> (result: Result<
        Cta,
        ConfigError,
    >)
        ensures
            valid_wagers(wagers@) ==> (result matches Ok(config) && config.wf() && config.entries()
                == wagers@ && config.house_id() == house_id@ && config.odds() == (Odds {
                forward: 4,
                reverse: 5,
                pair: 20,
            })),
            !valid_wagers(wagers@) ==> (result matches Err(error) && rejects(wagers@, error)),
    {
        let base_config = match Config::new(wagers, house_id) {
            Ok(base_config) => base_config,
            Err(error) => {
                return Err(error);
            },
        };
        Ok(Cta { base_config, odds: Odds::default(), fast: false })
    }

    /// The wagers and the house.
    pub fn get_base_config(&self) -> (config: &Config<CtaWagerType>)
        ensures
            config.wf(),
            config.entries() == self.entries(),
            config.house_id() == self.house_id(),
    {
        proof {
            use_type_invariant(self);
        }
        &self.base_config
    }

    /// The odds.
    pub fn get_odds(&self) -> (odds: &Odds)
        ensures
            *odds == self.odds(),
    {
        &self.odds
    }
}

} // verus!
