//! One client's connection: what each frame read from its socket asks of the
//! world, and when to stop reading.

use vstd::prelude::*;
use crate::game::SessionTx;
use crate::channels::clone_sender;
use crate::types::{ClientMessage, GameEvent};

verus! {

/// A frame read from a client's socket.
#[derive(Debug)]
pub enum Frame {
    /// A text frame that decoded into a client message.
    Message(ClientMessage),
    /// A text frame that did not decode.
    Unreadable,
    /// A binary frame.
    Binary,
    /// The client closed the connection.
    Close,
    /// Any other frame (ping, pong, raw frame).
    Other,
    /// Reading the socket failed.
    Failed,
}

/// What the connection does after one frame.
pub struct Reaction {
    /// The event to hand to the world, if any.
    pub event: Option<GameEvent>,
    /// Whether to go on reading frames.
    pub keep_reading: bool,
}

/// The character a connection has joined as after `frame`, if it had joined
/// as `before`: a join frame's id, else unchanged.
pub open spec fn joined_after(before: Option<u128>, frame: Frame) -> Option<u128> {
    match frame {
        Frame::Message(ClientMessage::JoinGame { id }) => Some(id),
        _ => before,
    }
}

/// The event that `frame` asks of the world, for a connection with queue
/// `session_tx` that has joined as `before`: a join (on that queue), a move
/// or a chat line as decoded; at a close or failed read, the leave of the
/// joined character; nothing otherwise.
pub open spec fn event_for(before: Option<u128>, frame: Frame, session_tx: SessionTx) -> Option<GameEvent> {
    match frame {
        Frame::Message(ClientMessage::JoinGame { id }) => Some(GameEvent::CharacterJoined { id, session_tx }),
        Frame::Message(ClientMessage::MoveTo { id, x, y }) => Some(GameEvent::CharacterMoved { id, x, y }),
        Frame::Message(ClientMessage::Chat { id, text }) => Some(GameEvent::ChatMessage { id, text }),
        Frame::Close | Frame::Failed => match before {
            Some(id) => Some(GameEvent::CharacterLeft { id }),
            None => None,
        },
        _ => None,
    }
}

/// `frame` ends the reading: a close or a failed read.
pub open spec fn ends_reading(frame: Frame) -> bool {
    frame is Close || frame is Failed
}

/// `frame` is ignored: a spell, an undecodable text, a binary or another frame.
pub open spec fn is_ignored(frame: Frame) -> bool {
    match frame {
        Frame::Message(ClientMessage::CastSpell { .. }) | Frame::Unreadable | Frame::Binary | Frame::Other => true,
        _ => false,
    }
}

/// The reaction to `frame` of a connection with queue `session_tx` whose
/// character was `before` and is `after` the frame.
pub open spec fn reacts_to(
    before: Option<u128>,
    after: Option<u128>,
    frame: Frame,
    session_tx: SessionTx,
    reaction: Reaction,
) -> bool {
    &&& after == joined_after(before, frame)
    &&& reaction.event == event_for(before, frame, session_tx)
    &&& reaction.keep_reading == !ends_reading(frame)
}

/// The event of `frame`, as a sequence of zero or one events.
pub open spec fn events_of_frame(before: Option<u128>, frame: Frame, session_tx: SessionTx) -> Seq<GameEvent> {
    match event_for(before, frame, session_tx) {
        Some(e) => seq![e],
        None => Seq::empty(),
    }
}

/// The events a connection with queue `session_tx`, joined as `before`,
/// asks of the world while it reads `frames`: each frame's event in turn, up
/// to and including the first close or failed read; the frames after it are
/// never read.
pub open spec fn session_events(before: Option<u128>, frames: Seq<Frame>, session_tx: SessionTx) -> Seq<GameEvent>
    decreases frames.len(),
{
    if frames.len() == 0 {
        Seq::empty()
    } else if ends_reading(frames[0]) {
        events_of_frame(before, frames[0], session_tx)
    } else {
        events_of_frame(before, frames[0], session_tx)
            + session_events(joined_after(before, frames[0]), frames.drop_first(), session_tx)
    }
}

/// The character a connection joined as `before` has joined as after reading
/// all of `frames`: the last join's id, if any.
pub open spec fn joined_after_all(before: Option<u128>, frames: Seq<Frame>) -> Option<u128>
    decreases frames.len(),
{
    if frames.len() == 0 {
        before
    } else {
        joined_after_all(joined_after(before, frames[0]), frames.drop_first())
    }
}

/// The events handed to the world by the reactions `reactions`, in order.
pub open spec fn events_of(reactions: Seq<Reaction>) -> Seq<GameEvent>
    decreases reactions.len(),
{
    if reactions.len() == 0 {
        Seq::empty()
    } else {
        (match reactions[0].event {
            Some(e) => seq![e],
            None => Seq::empty(),
        }) + events_of(reactions.drop_first())
    }
}

/// The state of one client's connection: the character it joined as, if any.
pub struct Connection {
    character_id: Option<u128>,
}

impl Connection {
    /// A connection that has not joined yet.
    pub fn new() -> (conn: Connection)
        ensures
            conn.joined() is None,
    {
        Connection { character_id: None }
    }

    /// The character this connection last joined as.
    pub closed spec fn joined(&self) -> Option<u128> {
        self.character_id
    }

    /// The character this connection last joined as, if any.
    pub fn character_id(&self) -> (id: Option<u128>)
        ensures
            id == self.joined(),
    {
        self.character_id
    }

    /// Reacts to one frame: a decoded join, move or chat becomes the matching
    /// event (a join carrying another handle to this connection's queue `session_tx`,
    /// and remembered as the connection's character); a spell, an undecodable
    /// text, a binary or any other frame is ignored; a close or a failed read
    /// stops the reading and, once joined, makes the character leave.
    pub fn on_frame(&mut self, frame: Frame, session_tx: &SessionTx) -> (reaction: Reaction)
        ensures
            reacts_to(old(self).joined(), final(self).joined(), frame, *session_tx, reaction),
    {
        match frame {
            Frame::Message(message) => match message {
                ClientMessage::JoinGame { id } => {
                    self.character_id = Some(id);
                    let session_tx = clone_sender(session_tx);
                    Reaction {
                        event: Some(GameEvent::CharacterJoined { id, session_tx }),
                        keep_reading: true,
                    }
                },
                ClientMessage::Chat { id, text } => Reaction {
                    event: Some(GameEvent::ChatMessage { id, text }),
                    keep_reading: true,
                },
                ClientMessage::MoveTo { id, x, y } => Reaction {
                    event: Some(GameEvent::CharacterMoved { id, x, y }),
                    keep_reading: true,
                },
                ClientMessage::CastSpell { .. } => Reaction { event: None, keep_reading: true },
            },
            Frame::Close | Frame::Failed => {
                let event = match self.character_id {
                    Some(id) => Some(GameEvent::CharacterLeft { id }),
                    None => None,
                };
                Reaction { event, keep_reading: false }
            },
            Frame::Unreadable | Frame::Binary | Frame::Other => Reaction {
                event: None,
                keep_reading: true,
            },
        }
    }
}

} // verus!
