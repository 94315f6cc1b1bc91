use std::collections::HashMap;

use game_server::game::{EventOutcome, GameState, BOARD_SIZE};
use game_server::types::{Character, GameEvent, OutgoingMessage};
use tokio::sync::mpsc::{unbounded_channel, UnboundedReceiver, UnboundedSender};
use tokio::sync::oneshot;

fn session() -> (UnboundedSender<OutgoingMessage>, UnboundedReceiver<OutgoingMessage>) {
    unbounded_channel()
}

fn snapshot(chars: &[Character]) -> OutgoingMessage {
    let mut characters = HashMap::new();
    for c in chars {
        characters.insert(c.id, *c);
    }
    OutgoingMessage::CharactersSnapshot { characters }
}

fn recipients(outcome: EventOutcome) -> Vec<u128> {
    match outcome {
        EventOutcome::SnapshotSent { recipients } => {
            let mut r = recipients;
            r.sort();
            r
        }
        EventOutcome::ChatSent { recipients } => {
            let mut r = recipients;
            r.sort();
            r
        }
        other => panic!("unexpected outcome {:?}", other),
    }
}

fn join(state: &mut GameState, id: u128) -> (UnboundedReceiver<OutgoingMessage>, EventOutcome) {
    let (tx, rx) = session();
    let outcome = state.apply_event(GameEvent::CharacterJoined { id, session_tx: tx });
    (rx, outcome)
}

#[test]
fn new_world_is_empty() {
    let state = GameState::new();
    assert_eq!(state.online_count(), 0);
    assert_eq!(state.character(1), None);
    assert!(!state.has_session(1));
    let state = GameState::default();
    assert_eq!(state.online_count(), 0);
}

#[test]
fn join_places_character_at_origin_and_sends_snapshot() {
    let mut state = GameState::new();
    let (mut rx, outcome) = join(&mut state, 7);
    assert_eq!(recipients(outcome), vec![7]);
    assert_eq!(state.character(7), Some(Character { id: 7, x: 0, y: 0 }));
    assert!(state.has_session(7));
    assert_eq!(state.online_count(), 1);
    assert_eq!(rx.try_recv().unwrap(), snapshot(&[Character { id: 7, x: 0, y: 0 }]));
    assert!(rx.try_recv().is_err());
}

#[test]
fn second_join_notifies_everyone() {
    let mut state = GameState::new();
    let (mut rx1, _) = join(&mut state, 1);
    let (mut rx2, outcome) = join(&mut state, 2);
    assert_eq!(recipients(outcome), vec![1, 2]);
    let both = snapshot(&[Character { id: 1, x: 0, y: 0 }, Character { id: 2, x: 0, y: 0 }]);
    assert_eq!(rx1.try_recv().unwrap(), snapshot(&[Character { id: 1, x: 0, y: 0 }]));
    assert_eq!(rx1.try_recv().unwrap(), both);
    assert_eq!(rx2.try_recv().unwrap(), both);
    assert!(rx2.try_recv().is_err());
}

#[test]
fn rejoin_resets_position() {
    let mut state = GameState::new();
    let (_rx, _) = join(&mut state, 5);
    state.apply_event(GameEvent::CharacterMoved { id: 5, x: 3, y: 4 });
    assert_eq!(state.character(5), Some(Character { id: 5, x: 3, y: 4 }));
    let (_rx2, _) = join(&mut state, 5);
    assert_eq!(state.character(5), Some(Character { id: 5, x: 0, y: 0 }));
    assert_eq!(state.online_count(), 1);
}

#[test]
fn leave_removes_character_and_session() {
    let mut state = GameState::new();
    let (mut rx1, _) = join(&mut state, 1);
    let (mut rx2, _) = join(&mut state, 2);
    while rx1.try_recv().is_ok() {}
    while rx2.try_recv().is_ok() {}
    let outcome = state.apply_event(GameEvent::CharacterLeft { id: 2 });
    assert_eq!(recipients(outcome), vec![1]);
    assert_eq!(state.character(2), None);
    assert!(!state.has_session(2));
    assert!(state.has_session(1));
    assert_eq!(rx1.try_recv().unwrap(), snapshot(&[Character { id: 1, x: 0, y: 0 }]));
    assert!(rx2.try_recv().is_err());
}

#[test]
fn leave_of_absent_character_changes_nothing_but_still_notifies() {
    let mut state = GameState::new();
    let (mut rx, _) = join(&mut state, 1);
    rx.try_recv().unwrap();
    let outcome = state.apply_event(GameEvent::CharacterLeft { id: 99 });
    assert_eq!(recipients(outcome), vec![1]);
    assert_eq!(state.online_count(), 1);
    assert_eq!(rx.try_recv().unwrap(), snapshot(&[Character { id: 1, x: 0, y: 0 }]));
}

#[test]
fn join_then_leave_restores_the_world() {
    let mut state = GameState::new();
    let (_rx1, _) = join(&mut state, 1);
    state.apply_event(GameEvent::CharacterMoved { id: 1, x: 2, y: 6 });
    let (_rx2, _) = join(&mut state, 2);
    state.apply_event(GameEvent::CharacterLeft { id: 2 });
    assert_eq!(state.online_count(), 1);
    assert_eq!(state.character(1), Some(Character { id: 1, x: 2, y: 6 }));
    assert_eq!(state.character(2), None);
    assert!(!state.has_session(2));
}

#[test]
fn move_on_board_updates_and_notifies() {
    let mut state = GameState::new();
    let (mut rx, _) = join(&mut state, 4);
    rx.try_recv().unwrap();
    let outcome = state.apply_event(GameEvent::CharacterMoved { id: 4, x: 9, y: 9 });
    assert_eq!(recipients(outcome), vec![4]);
    assert_eq!(state.character(4), Some(Character { id: 4, x: 9, y: 9 }));
    assert_eq!(rx.try_recv().unwrap(), snapshot(&[Character { id: 4, x: 9, y: 9 }]));
}

#[test]
fn move_off_board_is_rejected_silently() {
    let mut state = GameState::new();
    let (mut rx, _) = join(&mut state, 4);
    rx.try_recv().unwrap();
    assert_eq!(BOARD_SIZE, 10);
    for (x, y) in [(10u32, 0u32), (0, 10), (10, 10), (u32::MAX, 3)] {
        let outcome = state.apply_event(GameEvent::CharacterMoved { id: 4, x, y });
        assert!(matches!(outcome, EventOutcome::MoveRejected));
        assert_eq!(state.character(4), Some(Character { id: 4, x: 0, y: 0 }));
        assert!(rx.try_recv().is_err());
    }
}

#[test]
fn move_of_absent_character_changes_nothing_but_notifies() {
    let mut state = GameState::new();
    let (mut rx, _) = join(&mut state, 4);
    rx.try_recv().unwrap();
    let outcome = state.apply_event(GameEvent::CharacterMoved { id: 8, x: 1, y: 1 });
    assert_eq!(recipients(outcome), vec![4]);
    assert_eq!(state.character(8), None);
    assert_eq!(state.online_count(), 1);
    assert_eq!(rx.try_recv().unwrap(), snapshot(&[Character { id: 4, x: 0, y: 0 }]));
}

#[test]
fn move_with_no_sessions_sends_to_nobody() {
    let mut state = GameState::new();
    let outcome = state.apply_event(GameEvent::CharacterMoved { id: 1, x: 1, y: 1 });
    assert_eq!(recipients(outcome), Vec::<u128>::new());
    assert_eq!(state.online_count(), 0);
}

#[test]
fn chat_goes_to_every_session() {
    let mut state = GameState::new();
    let (mut rx1, _) = join(&mut state, 1);
    let (mut rx2, _) = join(&mut state, 2);
    while rx1.try_recv().is_ok() {}
    while rx2.try_recv().is_ok() {}
    let outcome = state.apply_event(GameEvent::ChatMessage { id: 1, text: "hello".to_string() });
    assert_eq!(recipients(outcome), vec![1, 2]);
    let line = OutgoingMessage::ChatBroadcast { id: 1, text: "hello".to_string() };
    assert_eq!(rx1.try_recv().unwrap(), line);
    assert_eq!(rx2.try_recv().unwrap(), line);
    assert_eq!(state.online_count(), 2);
    assert_eq!(state.character(1), Some(Character { id: 1, x: 0, y: 0 }));
}

#[test]
fn snapshot_request_reports_the_count() {
    let mut state = GameState::new();
    let (_rx1, _) = join(&mut state, 1);
    let (_rx2, _) = join(&mut state, 2);
    let (tx, mut rx) = oneshot::channel();
    let outcome = state.apply_event(GameEvent::Snapshot { sender: tx });
    assert!(matches!(outcome, EventOutcome::CountReported { count: 2 }));
    assert_eq!(rx.try_recv().unwrap(), 2);
    assert_eq!(state.online_count(), 2);
}

#[test]
fn closed_session_does_not_stop_the_world() {
    let mut state = GameState::new();
    let (rx, _) = join(&mut state, 1);
    drop(rx);
    let (mut rx2, outcome) = join(&mut state, 2);
    assert_eq!(recipients(outcome), vec![1, 2]);
    assert_eq!(state.online_count(), 2);
    assert!(rx2.try_recv().is_ok());
}

#[test]
fn characters_stay_on_the_board() {
    let mut state = GameState::new();
    let mut receivers = Vec::new();
    for id in 0..5u128 {
        let (rx, _) = join(&mut state, id);
        receivers.push(rx);
    }
    let moves = [(0u128, 3u32, 12u32), (1, 9, 0), (2, 10, 10), (3, 4, 4), (4, 11, 2), (1, 0, 9)];
    for (id, x, y) in moves {
        state.apply_event(GameEvent::CharacterMoved { id, x, y });
    }
    for id in 0..5u128 {
        let c = state.character(id).unwrap();
        assert_eq!(c.id, id);
        assert!(c.x < BOARD_SIZE && c.y < BOARD_SIZE);
        assert!(state.has_session(id));
    }
    assert_eq!(state.character(1), Some(Character { id: 1, x: 0, y: 9 }));
    assert_eq!(state.character(3), Some(Character { id: 3, x: 4, y: 4 }));
    assert_eq!(state.character(0), Some(Character { id: 0, x: 0, y: 0 }));
}
