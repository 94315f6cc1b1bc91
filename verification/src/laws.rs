//! What holds of the world and of a connection across events and frames.

use vstd::prelude::*;
use crate::connection::{
    ends_reading, events_of, events_of_frame, is_ignored, joined_after, joined_after_all, reacts_to,
    session_events, Frame, Reaction,
};
use crate::channels::{Handoff, Reply};
use crate::game::{BOARD_SIZE, on_board, GameView, SessionTx, names_each_once, outcome_of, EventOutcome};
use crate::types::{Character, ClientMessage, GameEvent, OutgoingMessage};

verus! {

/// A character that joins stands on square (0, 0), filed under its own
/// identifier, and its session is registered, whatever the world was.
pub proof fn lemma_join_places_at_origin(world: GameView, id: u128, session_tx: SessionTx)
    ensures
        world.after(GameEvent::CharacterJoined { id, session_tx }).characters[id]
            == (Character { id, x: 0, y: 0 }),
        world.after(GameEvent::CharacterJoined { id, session_tx }).sessions[id] == session_tx,
{
}

/// A character that joins and then leaves, having not been online before,
/// leaves the world as it found it.
pub proof fn lemma_join_then_leave_restores(world: GameView, id: u128, session_tx: SessionTx)
    requires
        !world.characters.contains_key(id),
        !world.sessions.contains_key(id),
    ensures
        world.after(GameEvent::CharacterJoined { id, session_tx }).after(
            GameEvent::CharacterLeft { id },
        ) == world,
{
    let next = world.after(GameEvent::CharacterJoined { id, session_tx }).after(
        GameEvent::CharacterLeft { id },
    );
    assert(next.characters =~= world.characters);
    assert(next.sessions =~= world.sessions);
}

/// In a well-formed world, the leave of a character that is not online
/// changes nothing.
pub proof fn lemma_leave_of_absent_is_noop(world: GameView, id: u128)
    requires
        world.wf(),
        !world.characters.contains_key(id),
    ensures
        world.after(GameEvent::CharacterLeft { id }) == world,
{
    let next = world.after(GameEvent::CharacterLeft { id });
    assert(next.characters =~= world.characters);
    assert(next.sessions =~= world.sessions);
}

/// A move to a square off the board changes nothing.
pub proof fn lemma_off_board_move_is_ignored(world: GameView, id: u128, x: u32, y: u32)
    requires
        !on_board(x, y),
    ensures
        world.after(GameEvent::CharacterMoved { id, x, y }) == world,
{
}

/// A move by a character that is not online changes nothing.
pub proof fn lemma_move_of_absent_is_ignored(world: GameView, id: u128, x: u32, y: u32)
    requires
        !world.characters.contains_key(id),
    ensures
        world.after(GameEvent::CharacterMoved { id, x, y }) == world,
{
}

/// A move onto the board puts the online mover on the square asked for and
/// leaves every other character, and every session, where it was.
pub proof fn lemma_move_touches_only_the_mover(world: GameView, id: u128, x: u32, y: u32, other: u128)
    requires
        on_board(x, y),
        world.characters.contains_key(id),
        other != id,
    ensures
        world.after(GameEvent::CharacterMoved { id, x, y }).characters[id].x == x,
        world.after(GameEvent::CharacterMoved { id, x, y }).characters[id].y == y,
        world.after(GameEvent::CharacterMoved { id, x, y }).characters.dom() == world.characters.dom(),
        world.characters.contains_key(other) ==> world.after(
            GameEvent::CharacterMoved { id, x, y },
        ).characters[other] == world.characters[other],
        world.after(GameEvent::CharacterMoved { id, x, y }).sessions == world.sessions,
{
    assert(world.after(GameEvent::CharacterMoved { id, x, y }).characters.dom() =~= world.characters.dom());
}

/// Chat lines and count requests leave the world unchanged.
pub proof fn lemma_chat_and_count_change_nothing(world: GameView, event: GameEvent)
    requires
        event is ChatMessage || event is Snapshot,
    ensures
        world.after(event) == world,
{
}

/// In a well-formed world, an event that sends snapshots hands exactly one
/// to the session of each character online after it, and to no one else.
pub proof fn lemma_snapshots_reach_the_online(
    before: GameView,
    event: GameEvent,
    outcome: EventOutcome,
    sent: Seq<Handoff>,
    replied: Seq<Reply>,
)
    requires
        before.wf(),
        outcome_of(before, before.after(event), event, outcome, sent, replied),
        outcome is SnapshotSent,
    ensures
        names_each_once(outcome->SnapshotSent_recipients@, before.after(event).characters.dom()),
        sent.len() == outcome->SnapshotSent_recipients@.len(),
        forall|i: int| 0 <= i < sent.len() ==> #[trigger] sent[i].tx
            == before.after(event).sessions[outcome->SnapshotSent_recipients@[i]],
{
    crate::game::lemma_after_preserves_wf(before, event);
}

/// A connection that joined as `id` and then closes, or fails, makes
/// character `id` leave, whatever it had joined as before.
pub proof fn lemma_join_then_close_leaves(
    start: Option<u128>,
    joined: Option<u128>,
    closed: Option<u128>,
    id: u128,
    session_tx: SessionTx,
    join: Reaction,
    end: Frame,
    close: Reaction,
)
    requires
        reacts_to(start, joined, Frame::Message(ClientMessage::JoinGame { id }), session_tx, join),
        end is Close || end is Failed,
        reacts_to(joined, closed, end, session_tx, close),
    ensures
        close.event == Some(GameEvent::CharacterLeft { id }),
        !close.keep_reading,
{
}

/// The join that a connection asks for, once applied, registers that
/// connection's own queue as the session of the character it joined as.
pub proof fn lemma_join_frame_registers_own_queue(
    world: GameView,
    before: Option<u128>,
    after: Option<u128>,
    id: u128,
    session_tx: SessionTx,
    join: Reaction,
)
    requires
        reacts_to(before, after, Frame::Message(ClientMessage::JoinGame { id }), session_tx, join),
    ensures
        join.event is Some,
        world.after(join.event->0).sessions[id] == session_tx,
        after == Some(id),
{
}

/// A connection that never joined asks for no leave when it closes or fails.
pub proof fn lemma_close_before_join_is_silent(
    after: Option<u128>,
    end: Frame,
    session_tx: SessionTx,
    close: Reaction,
)
    requires
        end is Close || end is Failed,
        reacts_to(None, after, end, session_tx, close),
    ensures
        close.event is None,
        !close.keep_reading,
{
}

/// A connection that reacts to `frames` one after another (going on to the
/// next frame only while the reaction says to keep reading), starting joined
/// as `states[0]`, hands the world exactly `session_events` of those frames,
/// and ends joined as the last join among them made it.
pub proof fn lemma_reactions_give_session_events(
    states: Seq<Option<u128>>,
    frames: Seq<Frame>,
    session_tx: SessionTx,
    reactions: Seq<Reaction>,
)
    requires
        states.len() == frames.len() + 1,
        reactions.len() == frames.len(),
        forall|i: int| #![trigger reactions[i]] 0 <= i < frames.len() ==>
            reacts_to(states[i], states[i + 1], frames[i], session_tx, reactions[i]),
        forall|i: int| #![trigger reactions[i]] 0 <= i < frames.len() - 1 ==> reactions[i].keep_reading,
    ensures
        events_of(reactions) == session_events(states[0], frames, session_tx),
        states[frames.len() as int] == joined_after_all(states[0], frames),
    decreases frames.len(),
{
    if frames.len() > 0 {
        let r0 = reactions[0];
        assert(reacts_to(states[0], states[1], frames[0], session_tx, r0));
        if ends_reading(frames[0]) {
            assert(frames.len() == 1);
            assert(reactions.drop_first().len() == 0);
            assert(events_of(reactions.drop_first()) =~= Seq::<GameEvent>::empty());
            assert(events_of(reactions) =~= events_of_frame(states[0], frames[0], session_tx));
            assert(frames.drop_first().len() == 0);
        } else {
            let rest_states = states.drop_first();
            let rest_frames = frames.drop_first();
            let rest_reactions = reactions.drop_first();
            assert forall|i: int| #![trigger rest_reactions[i]] 0 <= i < rest_frames.len() implies
                reacts_to(rest_states[i], rest_states[i + 1], rest_frames[i], session_tx, rest_reactions[i]) by {
                assert(rest_reactions[i] == reactions[i + 1]);
                assert(reacts_to(states[i + 1], states[i + 2], frames[i + 1], session_tx, reactions[i + 1]));
            }
            assert forall|i: int| #![trigger rest_reactions[i]] 0 <= i < rest_frames.len() - 1 implies
                rest_reactions[i].keep_reading by {
                assert(rest_reactions[i] == reactions[i + 1]);
            }
            lemma_reactions_give_session_events(rest_states, rest_frames, session_tx, rest_reactions);
            assert(events_of(reactions) =~= events_of_frame(states[0], frames[0], session_tx)
                + events_of(rest_reactions));
        }
    }
}

/// Reading stops at a close or a failed read: whatever follows frame `i`,
/// when that frame ends the reading, asks nothing of the world.
pub proof fn lemma_frames_after_close_are_never_read(
    before: Option<u128>,
    frames: Seq<Frame>,
    session_tx: SessionTx,
    i: int,
)
    requires
        0 <= i < frames.len(),
        ends_reading(frames[i]),
    ensures
        session_events(before, frames, session_tx) == session_events(before, frames.take(i + 1), session_tx),
    decreases i,
{
    let t = frames.take(i + 1);
    assert(t[0] == frames[0]);
    if !ends_reading(frames[0]) {
        lemma_frames_after_close_are_never_read(
            joined_after(before, frames[0]),
            frames.drop_first(),
            session_tx,
            i - 1,
        );
        assert(t.drop_first() =~= frames.drop_first().take(i));
    }
}

/// An ignored frame (a spell, an undecodable text, a binary or another
/// frame) changes nothing: the connection asks the world for exactly what it
/// would ask without that frame.
pub proof fn lemma_ignored_frame_changes_nothing(
    before: Option<u128>,
    frames: Seq<Frame>,
    session_tx: SessionTx,
    i: int,
)
    requires
        0 <= i < frames.len(),
        is_ignored(frames[i]),
    ensures
        session_events(before, frames, session_tx) == session_events(before, frames.remove(i), session_tx),
    decreases i,
{
    let r = frames.remove(i);
    if i == 0 {
        assert(r =~= frames.drop_first());
        assert(events_of_frame(before, frames[0], session_tx) =~= Seq::<GameEvent>::empty());
        assert(session_events(before, frames, session_tx) =~= session_events(before, r, session_tx));
    } else {
        assert(r[0] == frames[0]);
        if !ends_reading(frames[0]) {
            lemma_ignored_frame_changes_nothing(
                joined_after(before, frames[0]),
                frames.drop_first(),
                session_tx,
                i - 1,
            );
            assert(r.drop_first() =~= frames.drop_first().remove(i - 1));
        }
    }
}

/// A close or failed read after frames that do not end the reading asks,
/// after their events, for the leave of the character joined last (and for
/// nothing if the connection never joined).
pub proof fn lemma_close_leaves_last_joined(
    before: Option<u128>,
    frames: Seq<Frame>,
    session_tx: SessionTx,
    end: Frame,
)
    requires
        forall|j: int| 0 <= j < frames.len() ==> !ends_reading(#[trigger] frames[j]),
        ends_reading(end),
    ensures
        session_events(before, frames.push(end), session_tx) == session_events(before, frames, session_tx)
            + events_of_frame(joined_after_all(before, frames), end, session_tx),
        events_of_frame(joined_after_all(before, frames), end, session_tx) == (match joined_after_all(before, frames) {
            Some(id) => seq![GameEvent::CharacterLeft { id }],
            None => Seq::<GameEvent>::empty(),
        }),
    decreases frames.len(),
{
    let p = frames.push(end);
    if frames.len() == 0 {
        assert(p[0] == end);
        assert(session_events(before, frames, session_tx) =~= Seq::<GameEvent>::empty());
        assert(session_events(before, p, session_tx) =~= session_events(before, frames, session_tx)
            + events_of_frame(before, end, session_tx));
    } else {
        assert(p[0] == frames[0]);
        assert(!ends_reading(frames[0]));
        assert(p.drop_first() =~= frames.drop_first().push(end));
        lemma_close_leaves_last_joined(joined_after(before, frames[0]), frames.drop_first(), session_tx, end);
        assert(session_events(before, p, session_tx) =~= session_events(before, frames, session_tx)
            + events_of_frame(joined_after_all(before, frames), end, session_tx));
    }
}

/// A leave removes the leaver, and only the leaver, from the characters
/// and from the sessions, wherever the leaver stood and whether or not it
/// was online: every other character and session stays exactly as it was.
pub proof fn lemma_leave_removes_only_the_leaver(world: GameView, id: u128, other: u128)
    ensures
        !world.after(GameEvent::CharacterLeft { id }).characters.contains_key(id),
        !world.after(GameEvent::CharacterLeft { id }).sessions.contains_key(id),
        world.after(GameEvent::CharacterLeft { id }).characters == world.characters.remove(id),
        world.after(GameEvent::CharacterLeft { id }).sessions == world.sessions.remove(id),
        other != id ==> {
            let next = world.after(GameEvent::CharacterLeft { id });
            &&& next.characters.contains_key(other) == world.characters.contains_key(other)
            &&& next.sessions.contains_key(other) == world.sessions.contains_key(other)
            &&& world.characters.contains_key(other) ==> next.characters[other] == world.characters[other]
            &&& world.sessions.contains_key(other) ==> next.sessions[other] == world.sessions[other]
        },
{
    let next = world.after(GameEvent::CharacterLeft { id });
    assert(next.characters =~= world.characters.remove(id));
    assert(next.sessions =~= world.sessions.remove(id));
}

/// A join changes only the joiner's entries, even when the joiner was
/// already online: the joiner stands at (0, 0) with the new queue, and every
/// other character and session stays exactly as it was.
pub proof fn lemma_join_touches_only_the_joiner(world: GameView, id: u128, session_tx: SessionTx, other: u128)
    ensures
        world.after(GameEvent::CharacterJoined { id, session_tx }).characters
            == world.characters.insert(id, Character { id, x: 0, y: 0 }),
        world.after(GameEvent::CharacterJoined { id, session_tx }).sessions
            == world.sessions.insert(id, session_tx),
        other != id ==> {
            let next = world.after(GameEvent::CharacterJoined { id, session_tx });
            &&& next.characters.contains_key(other) == world.characters.contains_key(other)
            &&& next.sessions.contains_key(other) == world.sessions.contains_key(other)
            &&& world.characters.contains_key(other) ==> next.characters[other] == world.characters[other]
            &&& world.sessions.contains_key(other) ==> next.sessions[other] == world.sessions[other]
        },
        world.after(GameEvent::CharacterJoined { id, session_tx }).characters.dom()
            == world.characters.dom().insert(id),
{
    let next = world.after(GameEvent::CharacterJoined { id, session_tx });
    assert(next.characters.dom() =~= world.characters.dom().insert(id));
}

/// A decoded chat frame asks the world for exactly that chat line, keeps the
/// connection reading and leaves its character as it was, whether or not the
/// connection has joined, and as whom.
pub proof fn lemma_chat_frame_forwards_the_line(
    before: Option<u128>,
    after: Option<u128>,
    id: u128,
    text: String,
    session_tx: SessionTx,
    reaction: Reaction,
)
    requires
        reacts_to(before, after, Frame::Message(ClientMessage::Chat { id, text }), session_tx, reaction),
    ensures
        reaction.event == Some(GameEvent::ChatMessage { id, text }),
        reaction.keep_reading,
        after == before,
{
}

/// A decoded move frame asks the world for exactly that move, whatever the
/// square and whether or not the connection has joined, keeps the connection
/// reading and leaves its character as it was.
pub proof fn lemma_move_frame_forwards_the_move(
    before: Option<u128>,
    after: Option<u128>,
    id: u128,
    x: u32,
    y: u32,
    session_tx: SessionTx,
    reaction: Reaction,
)
    requires
        reacts_to(before, after, Frame::Message(ClientMessage::MoveTo { id, x, y }), session_tx, reaction),
    ensures
        reaction.event == Some(GameEvent::CharacterMoved { id, x, y }),
        reaction.keep_reading,
        after == before,
{
}

/// A decoded move frame, once the world applies the move it asks for, puts
/// the mover, if online, on the square asked for when that square is on the
/// board, and otherwise leaves the world as it was.
pub proof fn lemma_move_frame_reaches_the_world(
    world: GameView,
    before: Option<u128>,
    after: Option<u128>,
    id: u128,
    x: u32,
    y: u32,
    session_tx: SessionTx,
    reaction: Reaction,
)
    requires
        reacts_to(before, after, Frame::Message(ClientMessage::MoveTo { id, x, y }), session_tx, reaction),
    ensures
        reaction.event is Some,
        on_board(x, y) && world.characters.contains_key(id) ==> {
            &&& world.after(reaction.event->0).characters[id].x == x
            &&& world.after(reaction.event->0).characters[id].y == y
        },
        !(on_board(x, y) && world.characters.contains_key(id)) ==> world.after(reaction.event->0) == world,
{
}

/// A chat line is handed, as that very line of that character, to every
/// session once, through the session's own queue; no reply is handed.
pub proof fn lemma_chat_reaches_every_session(
    before: GameView,
    id: u128,
    text: String,
    outcome: EventOutcome,
    sent: Seq<Handoff>,
    replied: Seq<Reply>,
)
    requires
        outcome_of(before, before.after(GameEvent::ChatMessage { id, text }),
            GameEvent::ChatMessage { id, text }, outcome, sent, replied),
    ensures
        outcome matches EventOutcome::ChatSent { recipients } && {
            &&& recipients@.no_duplicates()
            &&& recipients@.to_set() == before.sessions.dom()
            &&& sent.len() == recipients@.len()
            &&& forall|i: int| 0 <= i < sent.len() ==> {
                &&& #[trigger] sent[i].tx == before.sessions[recipients@[i]]
                &&& sent[i].message matches OutgoingMessage::ChatBroadcast { id: who, text: line }
                    && who == id && line@ == text@
            }
        },
        replied.len() == 0,
{
    let recipients = outcome->ChatSent_recipients;
    assert forall|i: int| 0 <= i < sent.len() implies {
        &&& #[trigger] sent[i].tx == before.sessions[recipients@[i]]
        &&& sent[i].message matches OutgoingMessage::ChatBroadcast { id: who, text: line }
            && who == id && line@ == text@
    } by {
        assert(sent[i].tx == before.sessions[recipients@[i]]);
    }
}

/// A join, a leave or a move onto the board hands every session after it
/// one snapshot holding exactly the characters online after it, through the
/// session's own queue; no reply is handed.
pub proof fn lemma_changes_reach_every_session(
    before: GameView,
    event: GameEvent,
    outcome: EventOutcome,
    sent: Seq<Handoff>,
    replied: Seq<Reply>,
)
    requires
        event is CharacterJoined || event is CharacterLeft
            || (event matches GameEvent::CharacterMoved { x, y, .. } && on_board(x, y)),
        outcome_of(before, before.after(event), event, outcome, sent, replied),
    ensures
        outcome matches EventOutcome::SnapshotSent { recipients } && {
            &&& recipients@.no_duplicates()
            &&& recipients@.to_set() == before.after(event).sessions.dom()
            &&& sent.len() == recipients@.len()
            &&& forall|i: int| 0 <= i < sent.len() ==> {
                &&& #[trigger] sent[i].tx == before.after(event).sessions[recipients@[i]]
                &&& sent[i].message matches OutgoingMessage::CharactersSnapshot { characters }
                    && characters@ == before.after(event).characters
            }
        },
        replied.len() == 0,
{
    let recipients = outcome->SnapshotSent_recipients;
    assert forall|i: int| 0 <= i < sent.len() implies {
        &&& #[trigger] sent[i].tx == before.after(event).sessions[recipients@[i]]
        &&& sent[i].message matches OutgoingMessage::CharactersSnapshot { characters }
            && characters@ == before.after(event).characters
    } by {
        assert(sent[i].tx == before.after(event).sessions[recipients@[i]]);
    }
}

/// A move off the board is refused and hands nothing to anyone.
pub proof fn lemma_off_board_move_sends_nothing(
    before: GameView,
    id: u128,
    x: u32,
    y: u32,
    outcome: EventOutcome,
    sent: Seq<Handoff>,
    replied: Seq<Reply>,
)
    requires
        x >= BOARD_SIZE || y >= BOARD_SIZE,
        outcome_of(before, before.after(GameEvent::CharacterMoved { id, x, y }),
            GameEvent::CharacterMoved { id, x, y }, outcome, sent, replied),
    ensures
        outcome is MoveRejected,
        sent.len() == 0,
        replied.len() == 0,
{
}

/// A count request hands the asker's channel, and only it, the number of
/// characters online, and hands nothing to the sessions.
pub proof fn lemma_count_reaches_the_asker(
    before: GameView,
    sender: tokio::sync::oneshot::Sender<usize>,
    outcome: EventOutcome,
    sent: Seq<Handoff>,
    replied: Seq<Reply>,
)
    requires
        outcome_of(before, before.after(GameEvent::Snapshot { sender }),
            GameEvent::Snapshot { sender }, outcome, sent, replied),
    ensures
        sent.len() == 0,
        replied.len() == 1,
        replied[0].to == sender,
        replied[0].count == before.characters.len(),
        outcome matches EventOutcome::CountReported { count } && count == before.characters.len(),
{
}

} // verus!
