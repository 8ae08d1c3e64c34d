//! Session mailboxes.
//!
//! A [`Mailbox`] is a session's inbox, owned by the session. An [`Address`] is
//! the handle that reaches it. Both ends are those of a bounded tokio channel:
//! a slow session's mailbox fills, further frames are refused, and the sender
//! is never held up.

use bytes::Bytes;
use tokio::sync::mpsc;

use vstd::prelude::*;

verus! {

/// The receiving end of a bounded tokio channel.
#[verifier::external_type_specification]
#[verifier::external_body]
#[verifier::reject_recursive_types(T)]
pub struct ExReceiver<T>(mpsc::Receiver<T>);

/// The sending end of a bounded tokio channel.
#[verifier::external_type_specification]
#[verifier::external_body]
#[verifier::reject_recursive_types(T)]
pub struct ExSender<T>(mpsc::Sender<T>);

/// One session's inbox. Owned by the session, written by others through an
/// [`Address`].
pub type Mailbox<M> = mpsc::Receiver<M>;

/// A handle to send messages to a session.
pub type Address<M> = mpsc::Sender<M>;

/// What became of a frame that was offered to a mailbox.
#[derive(Debug, Clone, Copy, PartialEq, Eq, Structural)]
pub enum Outcome {
    /// The mailbox took it.
    Queued,
    /// The mailbox was full; the frame was dropped.
    Full,
    /// The session is gone; the frame was dropped.
    Closed,
}

/// A frame that was offered to a mailbox, how the mailbox stood at that moment,
/// and what became of the frame.
pub struct Offer {
    /// The frame.
    pub frame: Seq<u8>,
    /// Whether the receiving end was still there.
    pub open: bool,
    /// How many places were taken, by frames that had not been received yet.
    pub taken: nat,
    /// What became of the frame.
    pub outcome: Outcome,
}

/// What there is to know about an address.
pub struct Outbox {
    /// Which channel it is the sending end of.
    pub channel: int,
    /// How many frames the channel holds at most.
    pub depth: nat,
    /// What was offered through it so far, oldest first.
    pub offers: Seq<Offer>,
}

/// How many of the offers were queued.
pub open spec fn queued(offers: Seq<Offer>) -> nat
    decreases offers.len(),
{
    if offers.len() == 0 {
        0
    } else if offers.last().outcome == Outcome::Queued {
        queued(offers.drop_last()) + 1
    } else {
        queued(offers.drop_last())
    }
}

/// What becomes of a frame that is offered to a mailbox of the given depth.
pub open spec fn fate(open: bool, taken: nat, depth: nat) -> Outcome {
    if !open {
        Outcome::Closed
    } else if taken < depth {
        Outcome::Queued
    } else {
        Outcome::Full
    }
}

impl Outbox {
    /// The receiving end was found gone before.
    pub open spec fn known_closed(self) -> bool {
        self.offers.len() > 0 && !self.offers.last().open
    }

    /// `after` is this outbox with one more offer, of `frame`.
    ///
    /// Where the mailbox stands in between is up to the receiving session, but
    /// no more places can be taken than frames were queued, nor than there
    /// are, and a receiving end that is gone does not come back.
    pub open spec fn offered(self, frame: Seq<u8>, after: Outbox) -> bool {
        let offer = after.offers.last();
        &&& after.channel == self.channel
        &&& after.depth == self.depth
        &&& after.offers.len() == self.offers.len() + 1
        &&& after.offers.drop_last() == self.offers
        &&& offer.frame == frame
        &&& offer.taken <= queued(self.offers)
        &&& offer.taken <= self.depth
        &&& self.known_closed() ==> !offer.open
        &&& offer.outcome == fate(offer.open, offer.taken, self.depth)
    }
}

/// The outbox that an address stands for.
pub uninterp spec fn outbox(tx: mpsc::Sender<Bytes>) -> Outbox;

/// The channel that a mailbox is the receiving end of.
pub uninterp spec fn inbox(rx: mpsc::Receiver<Bytes>) -> int;

/// A fresh outbox into the mailbox `rx`.
pub open spec fn fresh_outbox(rx: Mailbox<Bytes>, depth: nat) -> Outbox {
    Outbox { channel: inbox(rx), depth, offers: Seq::empty() }
}

/// `tokio::sync::mpsc::channel`: the two ends of a new bounded channel. It
/// panics on a capacity of zero, and on one over an eighth of the `usize`
/// range.
///
/// The capacity governs how many frames a slow session can queue before
/// further ones are dropped.
#[verifier::external_body]
pub fn channel(capacity: usize) -> (r: (Address<Bytes>, Mailbox<Bytes>))
    requires
        0 < capacity <= usize::MAX / 8,
    ensures
        outbox(r.0).channel == inbox(r.1),
        outbox(r.0).depth == capacity,
        outbox(r.0).offers.len() == 0,
{
    mpsc::channel(capacity)
}

/// A frame is queued if and only if the receiving end is there and a place is
/// free; it is refused as full only where none is, and as closed only where
/// nobody is there.
pub proof fn law_fate_of_a_frame(open: bool, taken: nat, depth: nat)
    ensures
        fate(open, taken, depth) == Outcome::Queued <==> open && taken < depth,
        fate(open, taken, depth) == Outcome::Full <==> open && taken >= depth,
        fate(open, taken, depth) == Outcome::Closed <==> !open,
{
}

/// A fresh outbox leads into its mailbox, with all places free.
pub proof fn law_fresh_outbox(rx: Mailbox<Bytes>, depth: nat)
    ensures
        fresh_outbox(rx, depth).channel == inbox(rx),
        fresh_outbox(rx, depth).depth == depth,
        fresh_outbox(rx, depth).offers.len() == 0,
{
}

} // verus!
