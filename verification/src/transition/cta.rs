//! The requests that only the deck-cutting game knows.

use vstd::prelude::*;

verus! {

/// Why a cut was turned down.
#[derive(PartialEq, Eq, Structural, Clone, Copy, Debug)]
pub enum Error {
    /// There is no such deck, or the deck cannot be cut behind that card.
    InvalidCut(usize, usize),
    /// The cut would show a card that an earlier cut has shown.
    UnoptimalCut(usize),
}

/// The requests of the deck-cutting game.
#[derive(PartialEq, Eq, Structural, Clone, Copy, Debug)]
pub enum CtaTransition {
    /// Cut the deck at `deck_index` behind the card at `position`.
    Cut { deck_index: usize, position: usize },
}

} // verus!
