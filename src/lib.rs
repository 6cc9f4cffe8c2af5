//! Game engine for a multiplayer, turn-based card game in the style of UNO:
//! the card model, the turn state machine, and the room that applies player
//! commands one at a time and decides what is broadcast.

pub mod card;
pub mod game;
pub mod game_messages;
pub mod lobby;
pub mod player;
pub mod room;
pub mod seating;
pub mod user;
