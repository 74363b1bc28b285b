//! A two-player race along a straight board of one hundred spaces.
//!
//! Players take turns rolling a six-sided die. Only a five moves a player, and
//! only a second five lets the player keep the space just gained. Two players
//! may never share a space other than the start: whoever is caught there goes
//! back to the start together with the player who arrived.
//!
//! The library holds the rules of a turn, the snapshot format of a game and
//! the formatting of large turn numbers. Reading and writing files, logging
//! and signal handling belong to the program around it.

pub mod codec;
pub mod dice;
pub mod laws;
pub mod pretty;
pub mod state;
pub mod turn;

pub use codec::{load_game, save_game, EncodeFailed, LoadStatus, SavePlan};
pub use dice::roll_d6;
pub use pretty::number_to_pretty_string;
pub use state::{Game, Player, BOARD_SIZE, PLAYER_COUNT};
pub use turn::{next_directive, Directive, Outcome, TurnReport, LUCKY_ROLL};
