//! A Monte-Carlo simulator of the race game "eels and escalators".
//!
//! Players advance along a row of tiles by rolling a set of dice. An eel tile
//! and an escalator tile each send the player who lands there to another
//! index, and a game is over as soon as one player has moved past the last
//! tile. The library holds the dice, the board, the rules of one turn and of
//! one game, the counter from which parallel workers claim the games they
//! play, and the figures that sum up the rounds the games took.

pub mod tileboard;
pub mod random;
pub mod dice;
pub mod play;
pub mod claims;
pub mod stats;
pub mod worker;
pub mod loader;
