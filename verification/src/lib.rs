//! Rules engine of a single-player blackjack game.
//!
//! The engine keeps a bankroll, deals cards, scores hands with aces counted
//! high or low, and moves a round through betting, the player's turn and the
//! dealer's turn. Every operation carries a contract over the mathematical
//! model of the game, and the contracts are proved.

pub mod app;
pub mod cards;
pub mod game;
pub mod laws;
pub mod score;

