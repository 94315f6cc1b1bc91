//! Plain values that travel between clients and the world.

use vstd::prelude::*;
use std::collections::HashMap;
use tokio::sync::mpsc::UnboundedSender;
use tokio::sync::oneshot;

verus! {

/// A character in the world: its identifier and its square on the board.
#[derive(Clone, Copy, Debug, PartialEq, Eq, Structural)]
pub struct Character {
    pub id: u128,
    pub x: u32,
    pub y: u32,
}

/// What a session is told about the world.
#[derive(Clone, Debug, PartialEq, Eq)]
pub enum OutgoingMessage {
    /// Every online character, keyed by its identifier.
    CharactersSnapshot { characters: HashMap<u128, Character> },
    /// A line of chat said by character `id`.
    ChatBroadcast { id: u128, text: String },
}

/// What a client may ask for, once its text frame has been decoded.
#[derive(Clone, Debug, PartialEq, Eq)]
pub enum ClientMessage {
    JoinGame { id: u128 },
    MoveTo { id: u128, x: u32, y: u32 },
    CastSpell { spell_id: u32, target_x: u32, target_y: u32 },
    Chat { id: u128, text: String },
}

/// A change handed to the world, one at a time.
pub enum GameEvent {
    /// Character `id` enters the world; `session_tx` is its session's queue.
    CharacterJoined { id: u128, session_tx: UnboundedSender<OutgoingMessage> },
    /// Character `id` leaves the world.
    CharacterLeft { id: u128 },
    /// Character `id` asks to stand on square (`x`, `y`).
    CharacterMoved { id: u128, x: u32, y: u32 },
    /// Someone asks how many characters are online; the answer goes to `sender`.
    Snapshot { sender: oneshot::Sender<usize> },
    /// Character `id` says `text` to everyone.
    ChatMessage { id: u128, text: String },
}

} // verus!
