use game_server::connection::{Connection, Frame};
use game_server::types::{ClientMessage, GameEvent, OutgoingMessage};
use tokio::sync::mpsc::{unbounded_channel, UnboundedReceiver, UnboundedSender};

fn queue() -> (UnboundedSender<OutgoingMessage>, UnboundedReceiver<OutgoingMessage>) {
    unbounded_channel()
}

#[test]
fn fresh_connection_has_not_joined() {
    assert_eq!(Connection::new().character_id(), None);
}

#[test]
fn join_frame_becomes_join_event_on_own_queue() {
    let (tx, mut rx) = queue();
    let mut conn = Connection::new();
    let reaction = conn.on_frame(Frame::Message(ClientMessage::JoinGame { id: 42 }), &tx);
    assert!(reaction.keep_reading);
    assert_eq!(conn.character_id(), Some(42));
    match reaction.event {
        Some(GameEvent::CharacterJoined { id, session_tx }) => {
            assert_eq!(id, 42);
            session_tx.send(OutgoingMessage::ChatBroadcast { id: 1, text: "x".to_string() }).unwrap();
            assert!(rx.try_recv().is_ok());
        }
        _ => panic!("expected a join"),
    }
}

#[test]
fn move_and_chat_frames_are_forwarded() {
    let (tx, _rx) = queue();
    let mut conn = Connection::new();
    let r = conn.on_frame(Frame::Message(ClientMessage::MoveTo { id: 3, x: 4, y: 5 }), &tx);
    assert!(r.keep_reading);
    assert!(matches!(r.event, Some(GameEvent::CharacterMoved { id: 3, x: 4, y: 5 })));
    let r = conn.on_frame(Frame::Message(ClientMessage::Chat { id: 3, text: "hi".to_string() }), &tx);
    assert!(r.keep_reading);
    match r.event {
        Some(GameEvent::ChatMessage { id, text }) => {
            assert_eq!(id, 3);
            assert_eq!(text, "hi");
        }
        _ => panic!("expected a chat line"),
    }
    assert_eq!(conn.character_id(), None);
}

#[test]
fn ignored_frames_ask_nothing() {
    let (tx, _rx) = queue();
    let mut conn = Connection::new();
    let frames = vec![
        Frame::Message(ClientMessage::CastSpell { spell_id: 1, target_x: 2, target_y: 3 }),
        Frame::Unreadable,
        Frame::Binary,
        Frame::Other,
    ];
    for frame in frames {
        let r = conn.on_frame(frame, &tx);
        assert!(r.event.is_none());
        assert!(r.keep_reading);
    }
    assert_eq!(conn.character_id(), None);
}

#[test]
fn close_before_join_stops_without_leave() {
    let (tx, _rx) = queue();
    let mut conn = Connection::new();
    let r = conn.on_frame(Frame::Close, &tx);
    assert!(r.event.is_none());
    assert!(!r.keep_reading);
    let r = conn.on_frame(Frame::Failed, &tx);
    assert!(r.event.is_none());
    assert!(!r.keep_reading);
}

#[test]
fn close_after_join_makes_character_leave() {
    let (tx, _rx) = queue();
    let mut conn = Connection::new();
    conn.on_frame(Frame::Message(ClientMessage::JoinGame { id: 9 }), &tx);
    let r = conn.on_frame(Frame::Close, &tx);
    assert!(!r.keep_reading);
    assert!(matches!(r.event, Some(GameEvent::CharacterLeft { id: 9 })));
}

#[test]
fn failure_after_two_joins_makes_the_latest_leave() {
    let (tx, _rx) = queue();
    let mut conn = Connection::new();
    conn.on_frame(Frame::Message(ClientMessage::JoinGame { id: 1 }), &tx);
    conn.on_frame(Frame::Message(ClientMessage::JoinGame { id: 2 }), &tx);
    assert_eq!(conn.character_id(), Some(2));
    let r = conn.on_frame(Frame::Failed, &tx);
    assert!(!r.keep_reading);
    assert!(matches!(r.event, Some(GameEvent::CharacterLeft { id: 2 })));
}

fn run(frames: Vec<Frame>, tx: &UnboundedSender<OutgoingMessage>) -> Vec<String> {
    let mut conn = Connection::new();
    let mut asked = Vec::new();
    for frame in frames {
        let r = conn.on_frame(frame, tx);
        if let Some(event) = r.event {
            asked.push(match event {
                GameEvent::CharacterJoined { id, .. } => format!("join {id}"),
                GameEvent::CharacterLeft { id } => format!("leave {id}"),
                GameEvent::CharacterMoved { id, x, y } => format!("move {id} {x} {y}"),
                GameEvent::ChatMessage { id, text } => format!("chat {id} {text}"),
                GameEvent::Snapshot { .. } => "snapshot".to_string(),
            });
        }
        if !r.keep_reading {
            break;
        }
    }
    asked
}

#[test]
fn ignored_frames_and_frames_after_close_change_nothing() {
    let (tx, _rx) = queue();
    let with_noise = vec![
        Frame::Binary,
        Frame::Message(ClientMessage::JoinGame { id: 5 }),
        Frame::Unreadable,
        Frame::Message(ClientMessage::MoveTo { id: 5, x: 1, y: 2 }),
        Frame::Other,
        Frame::Message(ClientMessage::CastSpell { spell_id: 3, target_x: 0, target_y: 0 }),
        Frame::Failed,
        Frame::Message(ClientMessage::JoinGame { id: 6 }),
        Frame::Close,
    ];
    let plain = vec![
        Frame::Message(ClientMessage::JoinGame { id: 5 }),
        Frame::Message(ClientMessage::MoveTo { id: 5, x: 1, y: 2 }),
        Frame::Failed,
    ];
    let expected = vec!["join 5".to_string(), "move 5 1 2".to_string(), "leave 5".to_string()];
    assert_eq!(run(with_noise, &tx), expected);
    assert_eq!(run(plain, &tx), expected);
}
