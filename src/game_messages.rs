//! What players send to a room and what a room sends back.

use vstd::prelude::*;
use crate::card::{Card, Color};
use crate::game::TurnDirection;
use crate::user::User;

verus! {

/// A command from a player's connection.
pub enum Request {
    PlaySpecialCard(usize, Color),
    PlayCards(Vec<usize>),
    TakeCard,
    SendMessage { content: String },
}

/// An event sent to a player's connection.
pub enum Response {
    ChatMessage(ChatMessage),
    GameState(GameState),
}

/// A chat line and the name of whoever wrote it.
pub struct ChatMessage {
    pub content: String,
    pub user_name: String,
}

/// One player's view of the game: every seat's user and hand size, the
/// player's own hand, whose turn it is, the top of the discard pile, the
/// player's own seat, the direction of play, the number of cards played and
/// the most recent discards, oldest first.
pub struct GameState {
    pub users: Vec<PlayerInfo>,
    pub direction: TurnDirection,
    pub own_cards: Vec<Card>,
    pub turn_index: usize,
    pub top_card: Option<Card>,
    pub self_index: usize,
    pub cards_played: usize,
    pub last_played_cards: Vec<Card>,
}

/// What other players see of a seat: who sits there and how many cards
/// they hold.
pub struct PlayerInfo {
    pub user: User,
    pub card_count: usize,
}

} // verus!
