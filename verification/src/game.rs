//! The games, and what they have in common.

pub mod cta;
pub mod fts;

use vstd::prelude::*;

use crate::config::cta::{Cta as CtaConfig, CtaWagerType, Odds as CtaOdds};
use crate::config::fts::{Fts as FtsConfig, FtsWagerType, Odds as FtsOdds};
use crate::config::{rejects, valid_wagers, ConfigError};
use crate::dto::{ConfigDto, ConfigPayload};
use crate::game::cta::Cta;
use crate::game::fts::Fts;
use crate::payout::{payouts_view, settlement_view, sum_amounts, ErrorView, Payout, PayoutView};
use crate::state::{GameState, State};
use crate::transition::Transition;
use crate::wager::Entries;

verus! {

/// Why a game could not be made or moved on.
#[derive(PartialEq, Eq, Debug)]
pub enum Error {
    /// Something went wrong that no other error names.
    Generic,
    /// The setup of the game could not be read.
    ParseConfig(String),
    /// There is no game of the kind asked for.
    UnknownGame,
    /// The game is in no state for the request, or does not know it.
    InvalidTransition,
    /// No game has this identifier.
    NotFound(String),
    /// The wagers were turned down.
    Config(ConfigError),
    /// The cut was turned down.
    Cut(crate::transition::cta::Error),
    /// No wager asks for a flop, so there is nothing to play.
    ZeroFlops,
    /// The deck holds fewer cards than the flops take.
    InsufficientCards,
}

/// The kinds of game: the flop-matching game and the deck-cutting game.
#[derive(PartialEq, Eq, Structural, Clone, Copy, Debug)]
pub enum GameType {
    Fts,
    Cta,
}

impl GameType {
    /// The kind of game that a name stands for: `Fts` for the flop-matching
    /// game and `Cta` for the deck-cutting game.
    pub open spec fn named(name: Seq<char>) -> Option<GameType> {
        if name == "Fts"@ {
            Some(GameType::Fts)
        } else if name == "Cta"@ {
            Some(GameType::Cta)
        } else {
            None
        }
    }

    /// Reads the kind of game from its name.
    pub fn from_name(name: &str) -> (result: Result<GameType, Error>)
        ensures
            GameType::named(name@) matches Some(game_type) ==> result == Ok::<GameType, Error>(
                game_type,
            ),
            GameType::named(name@) is None ==> result == Err::<GameType, Error>(
                Error::UnknownGame,
            ),
    {
        let name = name.to_owned();
        if name == "Fts".to_owned() {
            Ok(GameType::Fts)
        } else if name == "Cta".to_owned() {
            Ok(GameType::Cta)
        } else {
            Err(Error::UnknownGame)
        }
    }
}

/// A game of one of the two kinds.
#[derive(Debug)]
pub enum Game {
    Fts(Fts),
    Cta(Cta),
}

impl Game {
    /// The game is well formed as a game of its kind.
    pub open spec fn wf(self) -> bool {
        match self {
            Game::Fts(game) => game.wf(),
            Game::Cta(game) => game.wf(),
        }
    }

    /// The kind of the game.
    pub open spec fn game_type(self) -> GameType {
        match self {
            Game::Fts(_) => GameType::Fts,
            Game::Cta(_) => GameType::Cta,
        }
    }

    /// The state.
    pub open spec fn state(self) -> State {
        match self {
            Game::Fts(game) => game.state(),
            Game::Cta(game) => game.state(),
        }
    }

    /// Why the game turns a request down, if it does.
    pub open spec fn refusal(self, transition: Transition) -> Option<Error> {
        match self {
            Game::Fts(game) => game.refusal(transition),
            Game::Cta(game) => game.refusal(transition),
        }
    }

    /// `result` and `after` are what a request makes of this game: what it
    /// makes of a game of its kind.
    pub open spec fn transition_gives(
        self,
        transition: Transition,
        result: Result<(), Error>,
        after: Game,
    ) -> bool {
        match (self, after) {
            (Game::Fts(game), Game::Fts(after)) => game.transition_gives(transition, result, after),
            (Game::Cta(game), Game::Cta(after)) => game.transition_gives(transition, result, after),
            _ => false,
        }
    }

    /// The requests that the game takes in its state.
    pub open spec fn valid_transitions(self) -> Seq<Transition> {
        match self {
            Game::Fts(game) => game.valid_transitions(),
            Game::Cta(game) => game.valid_transitions(),
        }
    }

    /// What `get_payout` gives.
    pub open spec fn payout(self) -> Result<Seq<PayoutView>, ErrorView> {
        match self {
            Game::Fts(game) => game.payout(),
            Game::Cta(game) => game.payout(),
        }
    }

    /// The kind of the game.
    pub fn get_type(&self) -> (game_type: GameType)
        ensures
            game_type == self.game_type(),
    {
        match self {
            Game::Fts(game) => game.get_type(),
            Game::Cta(game) => game.get_type(),
        }
    }

    /// Moves the game on as a game of its kind does.
    pub fn transition(&mut self, transition: Transition) -> (result: Result<(), Error>)
        ensures
            final(self).wf(),
            old(self).transition_gives(transition, result, *final(self)),
    {
        match self {
            Game::Fts(game) => game.transition(transition),
            Game::Cta(game) => game.transition(transition),
        }
    }

    /// Lists the requests that the game takes in its state.
    pub fn get_valid_transitions(&self) -> (transitions: Vec<Transition>)
        ensures
            transitions@ == self.valid_transitions(),
    {
        match self {
            Game::Fts(game) => game.get_valid_transitions(),
            Game::Cta(game) => game.get_valid_transitions(),
        }
    }

    /// Settles the game once it has ended; before that nobody is paid.
    pub fn get_payout(&self) -> (result: Result<Vec<Payout>, crate::payout::Error>)
        ensures
            settlement_view(result) == self.payout(),
            result matches Ok(payouts) ==> sum_amounts(payouts_view(payouts@)) == 0,
    {
        match self {
            Game::Fts(game) => game.get_payout(),
            Game::Cta(game) => game.get_payout(),
        }
    }
}

/// The message for a setup that is not of the kind of game asked for.
pub open spec fn message_other_game() -> Seq<char> {
    "Wagers are of another game"@
}

/// The message for a setup without wagers.
pub open spec fn message_empty_wagers() -> Seq<char> {
    "Empty wager map"@
}

/// The message for a setup without a house.
pub open spec fn message_no_house() -> Seq<char> {
    "This is an edged game, house id must exist"@
}

/// `game` is a new flop-matching game with these wagers and this house, and
/// with the default odds.
pub open spec fn new_fts_game(
    game: Game,
    entries: Entries<FtsWagerType>,
    house_id: Seq<char>,
) -> bool {
    &&& game matches Game::Fts(fts)
    &&& fts.wf()
    &&& fts.state() == State::Game(GameState::Setup)
    &&& fts.config().entries() == entries
    &&& fts.config().house_id() == house_id
    &&& fts.config().odds() == (FtsOdds { full_deck: 17, at_flop: 17, flop_range: 17 })
}

/// `game` is a new deck-cutting game with these wagers and this house, and
/// with the default odds.
pub open spec fn new_cta_game(
    game: Game,
    entries: Entries<CtaWagerType>,
    house_id: Seq<char>,
) -> bool {
    &&& game matches Game::Cta(cta)
    &&& cta.wf()
    &&& cta.state() == State::Game(GameState::Setup)
    &&& cta.config().entries() == entries
    &&& cta.config().house_id() == house_id
    &&& cta.config().odds() == (CtaOdds { forward: 4, reverse: 5, pair: 20 })
}

/// A game can be made of the setup: it has wagers, which are valid, and a
/// house.
pub open spec fn can_create<T>(dto: ConfigDto<T>) -> bool {
    &&& dto.wager_map@.len() > 0
    &&& dto.house_id is Some
    &&& valid_wagers(dto.wager_map@)
}

/// `error` is why no game is made of the setup. A setup without wagers, and
/// then one without a house, cannot be read. Wagers that are not valid are
/// turned down as `Config::new` turns them down.
pub open spec fn creation_fails<T>(dto: ConfigDto<T>, error: Error) -> bool {
    if dto.wager_map@.len() == 0 {
        error matches Error::ParseConfig(message) && message@ == message_empty_wagers()
    } else if dto.house_id is None {
        error matches Error::ParseConfig(message) && message@ == message_no_house()
    } else {
        error matches Error::Config(error) && rejects(dto.wager_map@, error)
    }
}

/// Makes a game of the kind asked for from its setup. A setup of the other
/// kind of game cannot be read.
pub fn create_game(game_type: &GameType, payload: ConfigPayload) -> (result: Result<Game, Error>)
    ensures
        match (*game_type, payload) {
            (GameType::Fts, ConfigPayload::Fts(dto)) => if can_create(dto) {
                result matches Ok(game) && new_fts_game(
                    game,
                    dto.wager_map@,
                    dto.house_id->Some_0@,
                )
            } else {
                result matches Err(error) && creation_fails(dto, error)
            },
            (GameType::Cta, ConfigPayload::Cta(dto)) => if can_create(dto) {
                result matches Ok(game) && new_cta_game(
                    game,
                    dto.wager_map@,
                    dto.house_id->Some_0@,
                )
            } else {
                result matches Err(error) && creation_fails(dto, error)
            },
            _ => result matches Err(Error::ParseConfig(message)) && message@
                == message_other_game(),
        },
{
    match game_type {
        GameType::Fts => match payload {
            ConfigPayload::Fts(config_dto) => {
                if config_dto.wager_map.is_empty() {
                    return Err(Error::ParseConfig("Empty wager map".to_owned()));
                }
                let house_id = match config_dto.house_id {
                    Some(house_id) => house_id,
                    None => {
                        return Err(
                            Error::ParseConfig(
                                "This is an edged game, house id must exist".to_owned(),
                            ),
                        );
                    },
                };
                let fts_config = match FtsConfig::new(config_dto.wager_map, house_id, None) {
                    Ok(fts_config) => fts_config,
                    Err(error) => {
                        return Err(Error::Config(error));
                    },
                };
                match Fts::new(fts_config) {
                    Ok(game) => Ok(Game::Fts(game)),
                    Err(error) => Err(error),
                }
            },
            ConfigPayload::Cta(_) => Err(
                Error::ParseConfig("Wagers are of another game".to_owned()),
            ),
        },
        GameType::Cta => match payload {
            ConfigPayload::Cta(config_dto) => {
                if config_dto.wager_map.is_empty() {
                    return Err(Error::ParseConfig("Empty wager map".to_owned()));
                }
                let house_id = match config_dto.house_id {
                    Some(house_id) => house_id,
                    None => {
                        return Err(
                            Error::ParseConfig(
                                "This is an edged game, house id must exist".to_owned(),
                            ),
                        );
                    },
                };
                let cta_config = match CtaConfig::new(config_dto.wager_map, house_id) {
                    Ok(cta_config) => cta_config,
                    Err(error) => {
                        return Err(Error::Config(error));
                    },
                };
                match Cta::new(cta_config) {
                    Ok(game) => Ok(Game::Cta(game)),
                    Err(error) => Err(error),
                }
            },
            ConfigPayload::Fts(_) => Err(
                Error::ParseConfig("Wagers are of another game".to_owned()),
            ),
        },
    }
}

} // verus!
