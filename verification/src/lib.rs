//! The game-state model of a Balatro bot: the card, hand and phase enums with
//! their names and numbers on the wire, and the readers that turn the tables
//! of the game state into per-variant arrays.
pub mod cards;
pub mod enum_array;
pub mod fields;
pub mod state;
pub mod text;
