//! Engine for two card wagering games played against a house: a
//! flop-matching game and a deck-cutting game.
//!
//! The library is verified with Verus. Its contracts are stated over the spec
//! functions and views that each module defines next to its types. Two calls
//! leave the library and are believed, not proved: the shuffle of a deck, in
//! `deck`, and the drawing of an identifier for a game, in `game_storage`.

pub mod card;
pub mod deck;
pub mod keyed;
pub mod player;
pub mod wager;
pub mod config;
pub mod payout;
pub mod state;
pub mod transition;
pub mod dto;
pub mod game;
pub mod game_storage;
