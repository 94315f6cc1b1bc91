//! The world: the characters that are online and the sessions that hear
//! about them, changed one event at a time.

use vstd::prelude::*;
use std::collections::HashMap;
use tokio::sync::mpsc::UnboundedSender;
use vstd::std_specs::iter::IteratorSpec;
use crate::channels::{Handoff, Outbox, Reply};
use crate::types::{Character, GameEvent, OutgoingMessage};

verus! {

broadcast use vstd::std_specs::hash::group_hash_axioms;

/// The board is `BOARD_SIZE` squares wide and high.
pub const BOARD_SIZE: u32 = 10;

/// Square (`x`, `y`) lies on the board.
pub open spec fn on_board(x: u32, y: u32) -> bool {
    x < BOARD_SIZE && y < BOARD_SIZE
}

/// A session's outgoing queue.
pub type SessionTx = UnboundedSender<OutgoingMessage>;

/// The world as the contracts see it.
pub struct GameView {
    /// The online characters, keyed by identifier.
    pub characters: Map<u128, Character>,
    /// The queue of each joined session, keyed by its character's identifier.
    pub sessions: Map<u128, SessionTx>,
}

impl GameView {
    /// The world after `event`.
    pub open spec fn after(self, event: GameEvent) -> GameView {
        match event {
            GameEvent::CharacterJoined { id, session_tx } => GameView {
                characters: self.characters.insert(id, Character { id, x: 0, y: 0 }),
                sessions: self.sessions.insert(id, session_tx),
            },
            GameEvent::CharacterLeft { id } => GameView {
                characters: self.characters.remove(id),
                sessions: self.sessions.remove(id),
            },
            GameEvent::CharacterMoved { id, x, y } => {
                if on_board(x, y) && self.characters.contains_key(id) {
                    GameView {
                        characters: self.characters.insert(
                            id,
                            Character { id: self.characters[id].id, x, y },
                        ),
                        sessions: self.sessions,
                    }
                } else {
                    self
                }
            },
            GameEvent::Snapshot { .. } => self,
            GameEvent::ChatMessage { .. } => self,
        }
    }

    /// The world is well formed: each character is filed under its own
    /// identifier and stands on the board, and exactly the online characters
    /// have a session.
    pub open spec fn wf(self) -> bool {
        &&& forall|id: u128| #[trigger]
            self.characters.contains_key(id) ==> {
                &&& self.characters[id].id == id
                &&& on_board(self.characters[id].x, self.characters[id].y)
            }
        &&& self.characters.dom() == self.sessions.dom()
    }
}

/// `recipients` names each member of `ids` once and nothing else.
pub open spec fn names_each_once(recipients: Seq<u128>, ids: Set<u128>) -> bool {
    recipients.no_duplicates() && recipients.to_set() == ids
}

/// What applying one event did besides changing the world.
#[derive(Debug)]
pub enum EventOutcome {
    /// Each session in `recipients` was sent a snapshot of every online character.
    SnapshotSent { recipients: Vec<u128> },
    /// Each session in `recipients` was sent the chat line.
    ChatSent { recipients: Vec<u128> },
    /// The move was refused because its square is off the board; nothing was sent.
    MoveRejected,
    /// The number of online characters, `count`, was handed to the asker.
    CountReported { count: usize },
}

/// What applying `event` to a world that was `before` and is `after` it
/// returns (`outcome`), hands to session queues (`sent`) and hands to reply
/// channels (`replied`):
/// - a join, a leave or a move onto the board: one snapshot of the
///   characters after it to each session after it, nothing to reply channels;
/// - a move off the board: nothing anywhere;
/// - a chat line: one copy of it to each session, nothing to reply channels;
/// - a count request: nothing to the sessions, and the number of characters
///   online to the asker's reply channel.
pub open spec fn outcome_of(
    before: GameView,
    after: GameView,
    event: GameEvent,
    outcome: EventOutcome,
    sent: Seq<Handoff>,
    replied: Seq<Reply>,
) -> bool {
    match event {
        GameEvent::CharacterMoved { x, y, .. } => if on_board(x, y) {
            &&& outcome matches EventOutcome::SnapshotSent { recipients }
            &&& hands_each_once(sent, recipients@, after.sessions,
                    |m: OutgoingMessage| is_snapshot_of(m, after.characters))
            &&& replied.len() == 0
        } else {
            &&& outcome is MoveRejected
            &&& sent.len() == 0
            &&& replied.len() == 0
        },
        GameEvent::CharacterJoined { .. } | GameEvent::CharacterLeft { .. } => {
            &&& outcome matches EventOutcome::SnapshotSent { recipients }
            &&& hands_each_once(sent, recipients@, after.sessions,
                    |m: OutgoingMessage| is_snapshot_of(m, after.characters))
            &&& replied.len() == 0
        },
        GameEvent::ChatMessage { id, text } => {
            &&& outcome matches EventOutcome::ChatSent { recipients }
            &&& hands_each_once(sent, recipients@, after.sessions,
                    |m: OutgoingMessage| is_chat_of(m, id, text@))
            &&& replied.len() == 0
        },
        GameEvent::Snapshot { sender } => {
            &&& outcome matches EventOutcome::CountReported { count }
            &&& count == before.characters.len()
            &&& sent.len() == 0
            &&& replied == seq![Reply { to: sender, count }]
        },
    }
}

/// The snapshot message of `characters`.
pub open spec fn is_snapshot_of(message: OutgoingMessage, characters: Map<u128, Character>) -> bool {
    message matches OutgoingMessage::CharactersSnapshot { characters: c } && c@ == characters
}

/// The chat message of character `id` saying `text`.
pub open spec fn is_chat_of(message: OutgoingMessage, id: u128, text: Seq<char>) -> bool {
    message matches OutgoingMessage::ChatBroadcast { id: i, text: t } && i == id && t@ == text
}

/// `sent` hands each session named in `recipients` exactly one message,
/// through that session's own queue in `sessions`, in that order;
/// `recipients` names each session of `sessions` once; and each message
/// satisfies `fits`.
pub open spec fn hands_each_once(
    sent: Seq<Handoff>,
    recipients: Seq<u128>,
    sessions: Map<u128, SessionTx>,
    fits: spec_fn(OutgoingMessage) -> bool,
) -> bool {
    &&& names_each_once(recipients, sessions.dom())
    &&& sent.len() == recipients.len()
    &&& forall|i: int| #![trigger sent[i]]
        0 <= i < sent.len() ==> sent[i].tx == sessions[recipients[i]] && fits(sent[i].message)
}

/// The state of the world.
pub struct GameState {
    online_characters: HashMap<u128, Character>,
    sessions: HashMap<u128, SessionTx>,
    outbox: Outbox,
}

impl View for GameState {
    type V = GameView;

    closed spec fn view(&self) -> GameView {
        GameView { characters: self.online_characters@, sessions: self.sessions@ }
    }
}

impl Default for GameState {
    fn default() -> (state: GameState)
        ensures
            state@.characters == Map::<u128, Character>::empty(),
            state@.sessions == Map::<u128, SessionTx>::empty(),
            state@.wf(),
            state.handed() == Seq::<Handoff>::empty(),
            state.replied() == Seq::<Reply>::empty(),
    {
        GameState::new()
    }
}

impl GameState {
    /// Every world is well formed.
    #[verifier::type_invariant]
    spec fn well_formed(self) -> bool {
        self@.wf()
    }

    /// An empty world: nobody online, no sessions, nothing handed yet.
    pub fn new() -> (state: GameState)
        ensures
            state@.characters == Map::<u128, Character>::empty(),
            state@.sessions == Map::<u128, SessionTx>::empty(),
            state@.wf(),
            state.handed() == Seq::<Handoff>::empty(),
            state.replied() == Seq::<Reply>::empty(),
    {
        GameState {
            online_characters: HashMap::new(),
            sessions: HashMap::new(),
            outbox: Outbox::new(),
        }
    }

    /// Every message handed so far to a session queue, in order.
    pub closed spec fn handed(&self) -> Seq<Handoff> {
        self.outbox.handed()
    }

    /// Every count handed so far to a reply channel, in order.
    pub closed spec fn replied(&self) -> Seq<Reply> {
        self.outbox.replied()
    }

    /// The character filed under `id`, if it is online: it carries `id` and
    /// stands on the board.
    pub fn character(&self, id: u128) -> (found: Option<Character>)
        ensures
            match found {
                Some(c) => {
                    &&& self@.characters.contains_key(id)
                    &&& c == self@.characters[id]
                    &&& c.id == id
                    &&& on_board(c.x, c.y)
                },
                None => !self@.characters.contains_key(id),
            },
            self@.wf(),
    {
        proof {
            use_type_invariant(self);
        }
        match self.online_characters.get(&id) {
            Some(c) => Some(*c),
            None => None,
        }
    }

    /// How many characters are online.
    pub fn online_count(&self) -> (count: usize)
        ensures
            count == self@.characters.len(),
            self@.wf(),
    {
        proof {
            use_type_invariant(self);
        }
        self.online_characters.len()
    }

    /// Whether a session is registered under `id`.
    pub fn has_session(&self, id: u128) -> (found: bool)
        ensures
            found == self@.sessions.contains_key(id),
            found == self@.characters.contains_key(id),
            self@.wf(),
    {
        proof {
            use_type_invariant(self);
        }
        self.sessions.contains_key(&id)
    }


    /// Applies `event` to the world and tells the sessions about it: a join,
    /// a leave or an accepted move hands every session (those after the
    /// event) one snapshot of all online characters; a chat line is handed
    /// to every session; a move off the board changes nothing and hands
    /// nothing; a count request hands the number of online characters to the
    /// asker.
    pub fn apply_event(&mut self, event: GameEvent) -> (outcome: EventOutcome)
        ensures
            final(self)@ == old(self)@.after(event),
            old(self).handed().len() <= final(self).handed().len(),
            final(self).handed().take(old(self).handed().len() as int) == old(self).handed(),
            old(self).replied().len() <= final(self).replied().len(),
            final(self).replied().take(old(self).replied().len() as int) == old(self).replied(),
            outcome_of(
                old(self)@,
                final(self)@,
                event,
                outcome,
                final(self).handed().skip(old(self).handed().len() as int),
                final(self).replied().skip(old(self).replied().len() as int),
            ),
            old(self)@.wf(),
            final(self)@.wf(),
    {
        proof {
            use_type_invariant(&*self);
        }
        let ghost before = self@;
        let ghost handed_before = self.outbox.handed();
        let ghost replied_before = self.outbox.replied();
        let ghost event_copy = event;
        // Take the whole world out, so that it may pass through states that
        // are not well formed (a join fills two maps one after the other).
        let mut current = GameState::new();
        std::mem::swap(self, &mut current);
        let GameState { online_characters: mut characters, mut sessions, mut outbox } = current;
        let outcome = match event {
            GameEvent::CharacterJoined { id, session_tx } => {
                characters.insert(id, Character { id: id, x: 0, y: 0 });
                sessions.insert(id, session_tx);
                let recipients = broadcast(&sessions, &Notice::Snapshot(&characters), &mut outbox);
                EventOutcome::SnapshotSent { recipients }
            },
            GameEvent::CharacterLeft { id } => {
                characters.remove(&id);
                sessions.remove(&id);
                let recipients = broadcast(&sessions, &Notice::Snapshot(&characters), &mut outbox);
                EventOutcome::SnapshotSent { recipients }
            },
            GameEvent::ChatMessage { id, text } => {
                let recipients = broadcast(&sessions, &Notice::Chat(id, &text), &mut outbox);
                EventOutcome::ChatSent { recipients }
            },
            GameEvent::CharacterMoved { id, x, y } => {
                if x >= BOARD_SIZE || y >= BOARD_SIZE {
                    EventOutcome::MoveRejected
                } else {
                    let found = match characters.get(&id) {
                        Some(c) => Some(*c),
                        None => None,
                    };
                    if let Some(character) = found {
                        characters.insert(id, Character { id: character.id, x: x, y: y });
                    }
                    let recipients = broadcast(&sessions, &Notice::Snapshot(&characters), &mut outbox);
                    EventOutcome::SnapshotSent { recipients }
                }
            },
            GameEvent::Snapshot { sender } => {
                let count = characters.len();
                outbox.reply_count(sender, count);
                EventOutcome::CountReported { count }
            },
        };
        proof {
            lemma_after_preserves_wf(before, event_copy);
            assert(characters@ =~= before.after(event_copy).characters);
            assert(sessions@ =~= before.after(event_copy).sessions);
            assert(outbox.handed().take(handed_before.len() as int) =~= handed_before);
            assert(outbox.replied().take(replied_before.len() as int) =~= replied_before);
            let sent = outbox.handed().skip(handed_before.len() as int);
            let replied = outbox.replied().skip(replied_before.len() as int);
            match event_copy {
                GameEvent::Snapshot { sender } => {
                    assert(sent =~= Seq::<Handoff>::empty());
                    assert(replied =~= seq![Reply { to: sender, count: outcome->CountReported_count }]);
                },
                GameEvent::CharacterMoved { x, y, .. } => {
                    assert(replied =~= Seq::<Reply>::empty());
                    if !on_board(x, y) {
                        assert(sent =~= Seq::<Handoff>::empty());
                    }
                },
                _ => {
                    assert(replied =~= Seq::<Reply>::empty());
                },
            }
        }
        *self = GameState { online_characters: characters, sessions, outbox };
        outcome
    }
}

/// What a broadcast tells every session.
enum Notice<'a> {
    /// A snapshot of these characters.
    Snapshot(&'a HashMap<u128, Character>),
    /// Character `.0`'s chat line `.1`.
    Chat(u128, &'a String),
}

/// `message` tells what `notice` asks for.
spec fn tells(notice: Notice, message: OutgoingMessage) -> bool {
    match notice {
        Notice::Snapshot(characters) => is_snapshot_of(message, characters@),
        Notice::Chat(id, text) => is_chat_of(message, id, text@),
    }
}

/// A fresh message telling what `notice` asks for.
fn notice_message(notice: &Notice) -> (message: OutgoingMessage)
    ensures
        tells(*notice, message),
{
    match notice {
        Notice::Snapshot(characters) => OutgoingMessage::CharactersSnapshot { characters: (*characters).clone() },
        Notice::Chat(id, text) => OutgoingMessage::ChatBroadcast { id: *id, text: (*text).clone() },
    }
}

/// Hands a fresh message telling `notice` to every session of `sessions`;
/// returns who was handed one.
fn broadcast(
    sessions: &HashMap<u128, SessionTx>,
    notice: &Notice,
    outbox: &mut Outbox,
) -> (recipients: Vec<u128>)
    ensures
        old(outbox).handed().len() <= final(outbox).handed().len(),
        final(outbox).handed().take(old(outbox).handed().len() as int) == old(outbox).handed(),
        hands_each_once(
            final(outbox).handed().skip(old(outbox).handed().len() as int),
            recipients@,
            sessions@,
            |m: OutgoingMessage| tells(*notice, m),
        ),
        final(outbox).replied() == old(outbox).replied(),
{
    let iter = sessions.iter();
    let ghost entries = iter.remaining();
    let ghost start = outbox.handed();
    let mut recipients: Vec<u128> = Vec::new();
    for entry in it: iter
        invariant
            it.seq() == entries,
            recipients@.len() == it.index(),
            forall|i: int| 0 <= i < it.index() ==> recipients@[i] == *entries[i].0,
            outbox.handed().len() == start.len() + it.index(),
            outbox.handed().take(start.len() as int) == start,
            outbox.replied() == old(outbox).replied(),
            start == old(outbox).handed(),
            forall|i: int| #![trigger outbox.handed()[start.len() + i]] 0 <= i < it.index() ==> {
                &&& outbox.handed()[start.len() + i].tx == *entries[i].1
                &&& tells(*notice, outbox.handed()[start.len() + i].message)
            },
    {
        let (id, tx) = entry;
        let message = notice_message(notice);
        let ghost prev = outbox.handed();
        outbox.send_outgoing(tx, message);
        proof {
            assert(outbox.handed().take(start.len() as int) =~= prev.take(start.len() as int));
        }
        recipients.push(*id);
    }
    proof {
        lemma_iteration_keys(sessions, entries, recipients@);
        lemma_handoffs_follow_entries(sessions, entries, recipients@);
        let sent = outbox.handed().skip(start.len() as int);
        assert forall|i: int| #![trigger sent[i]] 0 <= i < sent.len() implies
            sent[i].tx == sessions@[recipients@[i]] && tells(*notice, sent[i].message) by {
            assert(sent[i] == outbox.handed()[start.len() + i]);
        }
    }
    recipients
}

/// Every event keeps a well-formed world well formed.
pub proof fn lemma_after_preserves_wf(world: GameView, event: GameEvent)
    requires
        world.wf(),
    ensures
        world.after(event).wf(),
{
    let next = world.after(event);
    match event {
        GameEvent::CharacterJoined { id, session_tx } => {
            assert(next.characters.dom() =~= next.sessions.dom());
        },
        GameEvent::CharacterLeft { id } => {
            assert(next.characters.dom() =~= next.sessions.dom());
        },
        GameEvent::CharacterMoved { id, x, y } => {
            assert(next.characters.dom() =~= next.sessions.dom());
        },
        _ => {},
    }
}

/// The keys met while walking a map's entries are filed in the map with the
/// values met beside them.
proof fn lemma_handoffs_follow_entries(
    m: &HashMap<u128, SessionTx>,
    entries: Seq<(&u128, &SessionTx)>,
    keys: Seq<u128>,
)
    requires
        entries == m.iter().remaining(),
        keys.len() == entries.len(),
        forall|i: int| 0 <= i < keys.len() ==> keys[i] == *entries[i].0,
    ensures
        forall|i: int| #![trigger keys[i]] 0 <= i < keys.len() ==> m@.contains_key(keys[i])
            && m@[keys[i]] == *entries[i].1,
{
    assert forall|i: int| #![trigger keys[i]] 0 <= i < keys.len() implies m@.contains_key(keys[i])
        && m@[keys[i]] == *entries[i].1 by {
        assert(m@.contains_key(*entries[i].0));
        assert(m@[*entries[i].0] == *entries[i].1);
    }
}

/// The keys met while walking a map's entries, in the order met, name each
/// key of the map once.
proof fn lemma_iteration_keys<V>(
    m: &HashMap<u128, V>,
    entries: Seq<(&u128, &V)>,
    keys: Seq<u128>,
)
    requires
        entries == m.iter().remaining(),
        entries.no_duplicates(),
        keys.len() == entries.len(),
        forall|i: int| 0 <= i < keys.len() ==> keys[i] == *entries[i].0,
    ensures
        names_each_once(keys, m@.dom()),
{
    assert forall|i: int, j: int| 0 <= i < keys.len() && 0 <= j < keys.len() && i != j
        implies keys[i] != keys[j] by {
        if keys[i] == keys[j] {
            assert(m@[*entries[i].0] == *entries[i].1);
            assert(m@[*entries[j].0] == *entries[j].1);
            assert(entries[i] == entries[j]);
        }
    }
    assert forall|k: u128| keys.to_set().contains(k) implies m@.dom().contains(k) by {
        let i = choose|i: int| 0 <= i < keys.len() && keys[i] == k;
        assert(m@.contains_key(*entries[i].0));
    }
    assert forall|k: u128| m@.dom().contains(k) implies keys.to_set().contains(k) by {
        assert(entries.contains((&k, &m@[k])));
        let i = choose|i: int| 0 <= i < entries.len() && entries[i] == (&k, &m@[k]);
        assert(keys[i] == k);
    }
    assert(keys.to_set() =~= m@.dom());
}

} // verus!
