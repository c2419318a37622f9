//! The requests that move a game from one state to the next.

pub mod cta;

use vstd::prelude::*;

pub use crate::transition::cta::CtaTransition;

verus! {

/// The requests that every game knows.
#[derive(PartialEq, Eq, Structural, Clone, Copy, Debug)]
pub enum GameTransition {
    Start,
    End,
}

/// A request to a game: one that every game knows, or one of the
/// deck-cutting game.
#[derive(PartialEq, Eq, Structural, Clone, Copy, Debug)]
pub enum Transition {
    Game(GameTransition),
    Cta(CtaTransition),
}

} // verus!
