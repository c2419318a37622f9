//! The states that a game passes through.

use vstd::prelude::*;

verus! {

/// The states that every game has.
#[derive(PartialEq, Eq, Structural, Clone, Copy, Debug)]
pub enum GameState {
    /// The game is set up and has not started.
    Setup,
    /// The game is in play: a deal or a cut is under way.
    Started,
    /// The game has ended and can be settled.
    Ended,
}

/// The states that only the deck-cutting game has.
#[derive(PartialEq, Eq, Structural, Clone, Copy, Debug)]
pub enum CtaState {
    /// The game waits for the next cut.
    AwaitCut,
}

/// The state of a game: one that every game has, or one of the
/// deck-cutting game.
#[derive(PartialEq, Eq, Structural, Clone, Copy, Debug)]
pub enum State {
    Game(GameState),
    Cta(CtaState),
}

} // verus!
