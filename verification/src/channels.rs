//! The channel handles of `tokio` that the world state talks through, and
//! the outbox that hands messages to them.

use vstd::prelude::*;
use tokio::sync::mpsc::UnboundedSender;
use tokio::sync::oneshot;
use crate::types::OutgoingMessage;

verus! {

/// `tokio::sync::mpsc::UnboundedSender`: the sending half of a session's
/// outgoing queue. Verus carries it through without looking inside.
#[verifier::external_type_specification]
#[verifier::external_body]
#[verifier::reject_recursive_types(T)]
pub struct ExUnboundedSender<T>(UnboundedSender<T>);

/// `tokio::sync::oneshot::Sender`: the sending half of a single reply.
#[verifier::external_type_specification]
#[verifier::external_body]
#[verifier::reject_recursive_types(T)]
pub struct ExOneshotSender<T>(oneshot::Sender<T>);

/// A message handed to a session's queue `tx`.
pub struct Handoff {
    pub tx: UnboundedSender<OutgoingMessage>,
    pub message: OutgoingMessage,
}

/// A count handed to the one-shot reply channel `to`.
pub struct Reply {
    pub to: oneshot::Sender<usize>,
    pub count: usize,
}

/// Where the world hands its messages to `tokio`. It keeps, as ghost logs,
/// every message handed to a session queue and every count handed to a
/// reply channel, in order.
pub struct Outbox {
    handed: Ghost<Seq<Handoff>>,
    replied: Ghost<Seq<Reply>>,
}

impl Outbox {
    /// An outbox that has handed nothing yet.
    pub fn new() -> (outbox: Outbox)
        ensures
            outbox.handed() == Seq::<Handoff>::empty(),
            outbox.replied() == Seq::<Reply>::empty(),
    {
        Outbox { handed: Ghost(Seq::empty()), replied: Ghost(Seq::empty()) }
    }

    /// Every message handed so far to a session queue, in order.
    pub closed spec fn handed(&self) -> Seq<Handoff> {
        self.handed@
    }

    /// Every count handed so far to a reply channel, in order.
    pub closed spec fn replied(&self) -> Seq<Reply> {
        self.replied@
    }

    /// Calls `UnboundedSender::send`, which queues `message` on `tx` without
    /// waiting, or hands it back when the queue's receiving half is gone.
    /// The contract records the handoff; whether a receiver is still there
    /// depends on another task and is left unsaid.
    #[verifier::external_body]
    pub(crate) fn send_outgoing(&mut self, tx: &UnboundedSender<OutgoingMessage>, message: OutgoingMessage)
        ensures
            final(self).handed() == old(self).handed().push(Handoff { tx: *tx, message }),
            final(self).replied() == old(self).replied(),
    {
        let _ = tx.send(message);
    }

    /// Calls `oneshot::Sender::send`, which hands `count` to the waiting
    /// receiver of `sender`, or hands it back when that receiver is gone.
    /// The contract records the handoff; whether the receiver is still there
    /// depends on another task and is left unsaid.
    #[verifier::external_body]
    pub(crate) fn reply_count(&mut self, sender: oneshot::Sender<usize>, count: usize)
        ensures
            final(self).replied() == old(self).replied().push(Reply { to: sender, count }),
            final(self).handed() == old(self).handed(),
    {
        let _ = sender.send(count);
    }
}

/// Calls `Clone::clone` on an `UnboundedSender`. The clone holds the same
/// shared channel (`Arc`) as `tx` and nothing else, so it is the same value:
/// another handle to the same queue.
#[verifier::external_body]
pub(crate) fn clone_sender(tx: &UnboundedSender<OutgoingMessage>) -> (copy: UnboundedSender<OutgoingMessage>)
    ensures
        copy == *tx,
{
    tx.clone()
}

} // verus!
