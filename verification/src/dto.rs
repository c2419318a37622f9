//! The setup of a game as it comes in, before it is checked.

use vstd::prelude::*;

use crate::config::cta::CtaWagerType;
use crate::config::fts::FtsWagerType;
use crate::wager::WagerMap;

verus! {

/// The wagers of the players and, where it was given, the house.
#[derive(Debug)]
pub struct ConfigDto<T> {
    pub wager_map: WagerMap<T>,
    pub house_id: Option<String>,
}

/// The setup of a game of one of the two kinds.
#[derive(Debug)]
pub enum ConfigPayload {
    Fts(ConfigDto<FtsWagerType>),
    Cta(ConfigDto<CtaWagerType>),
}

} // verus!
