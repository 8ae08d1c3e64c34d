//! The hub: registry of sessions and router of frames.
//!
//! A session registers under its username and gets a bounded mailbox. Frames
//! are encoded once and handed to every registered session but the one they
//! come from. A session that is slow loses frames; the rest of the room does
//! not notice.

use std::sync::Arc;

use bytes::Bytes;
use papaya::HashMap;
use tokio::sync::mpsc;

use vstd::multiset::Multiset;
use vstd::prelude::*;

use crate::buffer;
use crate::limits::SESSION_QUEUE_DEPTH;
use crate::mailbox;
use crate::mailbox::{Address, Mailbox, Outbox, Outcome};
use crate::text;

verus! {

// ---------------------------------------------------------------------------
// The registry
// ---------------------------------------------------------------------------

/// The concurrent hash map of the `papaya` crate.
#[verifier::external_type_specification]
#[verifier::external_body]
#[verifier::reject_recursive_types(K)]
#[verifier::reject_recursive_types(V)]
#[verifier::reject_recursive_types(S)]
pub struct ExHashMap<K, V, S>(HashMap<K, V, S>);

/// The outbox registered under each username.
pub uninterp spec fn registry(m: HashMap<Arc<str>, mpsc::Sender<Bytes>>) -> Map<Seq<char>, Outbox>;

/// `papaya::HashMap::new`: nothing is registered.
#[verifier::external_body]
fn empty_registry() -> (m: HashMap<Arc<str>, Address<Bytes>>)
    ensures
        registry(m) =~= Map::empty(),
{
    HashMap::new()
}

/// `papaya::HashMap::try_insert`: adds the entry where the key is free, and
/// leaves the map alone where it is not. Keys are compared by their text.
#[verifier::external_body]
fn insert_if_free(
    m: &mut HashMap<Arc<str>, Address<Bytes>>,
    name: Arc<str>,
    tx: Address<Bytes>,
) -> (inserted: bool)
    ensures
        inserted == !registry(*old(m)).contains_key(name@),
        registry(*final(m)) == if inserted {
            registry(*old(m)).insert(name@, mailbox::outbox(tx))
        } else {
            registry(*old(m))
        },
{
    m.pin().try_insert(name, tx).is_ok()
}

/// `papaya::HashMap::remove`: takes the entry out, and tells whether there was
/// one.
#[verifier::external_body]
fn remove_entry(m: &mut HashMap<Arc<str>, Address<Bytes>>, name: &Arc<str>) -> (removed: bool)
    ensures
        removed == registry(*old(m)).contains_key(name@),
        registry(*final(m)) == registry(*old(m)).remove(name@),
{
    m.pin().remove(&**name).is_some()
}

/// `papaya::HashMap::keys`: each key once, in no particular order.
#[verifier::external_body]
fn registered_names(m: &HashMap<Arc<str>, Address<Bytes>>) -> (names: Vec<Arc<str>>)
    ensures
        forall|i: int, j: int|
            0 <= i < j < names@.len() ==> #[trigger] names@[i]@ != #[trigger] names@[j]@,
        forall|i: int| 0 <= i < names@.len() ==> registry(*m).contains_key(#[trigger] names@[i]@),
        forall|name: Seq<char>| #[trigger]
            registry(*m).contains_key(name) ==> exists|i: int|
                0 <= i < names@.len() && #[trigger] names@[i]@ == name,
{
    m.pin().keys().cloned().collect()
}

/// `papaya::HashMap::get` finds the address under `name`, and
/// `tokio::sync::mpsc::Sender::try_send` offers the frame through it.
///
/// The frame is refused as closed where the receiving end is closed or gone,
/// which is for good, and as full where every place is taken; otherwise it is
/// queued and takes a place until it is received. Frames come into the channel
/// through this sender only. Whether the receiving end is there, and how many
/// frames it has received, is up to the receiving session.
#[verifier::external_body]
fn offer(m: &mut HashMap<Arc<str>, Address<Bytes>>, name: &Arc<str>, frame: Bytes) -> (r: Outcome)
    requires
        registry(*old(m)).contains_key(name@),
    ensures
        registry(*old(m))[name@].offered(
            buffer::shared_bytes(frame),
            registry(*final(m))[name@],
        ),
        registry(*final(m))[name@].offers.last().outcome == r,
        registry(*final(m)) == registry(*old(m)).insert(name@, registry(*final(m))[name@]),
{
    match m.pin().get(&**name).unwrap().try_send(frame) {
        Ok(()) => Outcome::Queued,
        Err(mpsc::error::TrySendError::Full(_)) => Outcome::Full,
        Err(mpsc::error::TrySendError::Closed(_)) => Outcome::Closed,
    }
}

// ---------------------------------------------------------------------------
// The hub
// ---------------------------------------------------------------------------

/// The registry of connected sessions, and the router between them.
pub struct Hub {
    sessions: HashMap<Arc<str>, Address<Bytes>>,
    occupancy: usize,
}

/// A registered username.
///
/// Only [`Hub::try_register`] makes one, and [`Hub::release`] takes it back.
/// Dropping it gives nothing back: whoever holds it sees to its release.
#[derive(Debug)]
pub struct ClaimHandle {
    username: Arc<str>,
}

impl View for Hub {
    type V = Map<Seq<char>, Outbox>;

    /// The outbox registered under each username.
    closed spec fn view(&self) -> Map<Seq<char>, Outbox> {
        registry(self.sessions)
    }
}

impl View for ClaimHandle {
    type V = Seq<char>;

    closed spec fn view(&self) -> Seq<char> {
        self.username@
    }
}

/// `frame` was offered once to every session in `before` but the one named
/// `origin`; nobody came or went.
pub open spec fn fanned_out(
    before: Map<Seq<char>, Outbox>,
    origin: Seq<char>,
    frame: Seq<u8>,
    after: Map<Seq<char>, Outbox>,
) -> bool {
    &&& after.dom() == before.dom()
    &&& forall|name: Seq<char>| #[trigger]
        after.contains_key(name) ==> if name == origin {
            after[name] == before[name]
        } else {
            before[name].offered(frame, after[name])
        }
}

impl Hub {
    /// The occupancy counter agrees with the registry, and every mailbox has
    /// the same depth.
    pub closed spec fn wf(&self) -> bool {
        &&& registry(self.sessions).dom().finite()
        &&& self.occupancy == registry(self.sessions).dom().len()
        &&& forall|name: Seq<char>| #[trigger]
            registry(self.sessions).contains_key(name) ==> registry(self.sessions)[name].depth
                == SESSION_QUEUE_DEPTH
    }

    /// Constructs a hub with nobody in it.
    pub fn new() -> (hub: Hub)
        ensures
            hub.wf(),
            hub@ == Map::<Seq<char>, Outbox>::empty(),
    {
        Hub { sessions: empty_registry(), occupancy: 0 }
    }

    /// Attempts to register a new session under `username`.
    ///
    /// On success, returns the claim on the username and the session's
    /// mailbox. Where the username is taken, returns `None`.
    pub fn try_register(&mut self, username: Arc<str>) -> (r: Option<
        (ClaimHandle, Mailbox<Bytes>),
    >)
        requires
            old(self).wf(),
            old(self)@.dom().len() < usize::MAX,
        ensures
            final(self).wf(),
            match r {
                Some((claim, mailbox)) => {
                    &&& !old(self)@.contains_key(username@)
                    &&& claim@ == username@
                    &&& final(self)@.dom().len() == old(self)@.dom().len() + 1
                    &&& final(self)@ == old(self)@.insert(
                        username@,
                        mailbox::fresh_outbox(mailbox, SESSION_QUEUE_DEPTH as nat),
                    )
                },
                None => {
                    &&& old(self)@.contains_key(username@)
                    &&& final(self)@ == old(self)@
                },
            },
    {
        let (tx, rx) = mailbox::channel(SESSION_QUEUE_DEPTH);
        assert(mailbox::outbox(tx).offers =~= Seq::empty());
        if insert_if_free(&mut self.sessions, username.clone(), tx) {
            self.occupancy = self.occupancy + 1;
            Some((ClaimHandle { username }, rx))
        } else {
            None
        }
    }

    /// Offers an encoded frame to every session except `origin`.
    ///
    /// The origin is told by its text: whichever `Arc` the name comes in, the
    /// session that holds that name is left out.
    ///
    /// A mailbox that is full, or whose session is gone, misses the frame; the
    /// others get it all the same.
    pub fn broadcast(&mut self, origin: &Arc<str>, payload: Bytes)
        requires
            old(self).wf(),
        ensures
            final(self).wf(),
            fanned_out(old(self)@, origin@, buffer::shared_bytes(payload), final(self)@),
    {
        let names = registered_names(&self.sessions);
        let ghost before = self@;
        let ghost frame = buffer::shared_bytes(payload);
        for i in 0..names.len()
            invariant
                self.wf(),
                before.dom() == self@.dom(),
                frame == buffer::shared_bytes(payload),
                forall|a: int, b: int|
                    0 <= a < b < names@.len() ==> #[trigger] names@[a]@ != #[trigger] names@[b]@,
                forall|a: int|
                    0 <= a < names@.len() ==> before.contains_key(#[trigger] names@[a]@),
                forall|a: int|
                    0 <= a < names@.len() ==> {
                        let name = #[trigger] names@[a]@;
                        if a < i && name != origin@ {
                            before[name].offered(frame, self@[name])
                        } else {
                            self@[name] == before[name]
                        }
                    },
        {
            let ghost current = self@;
            assert(current.contains_key(names@[i as int]@));
            if !text::same_text(&names[i], origin) {
                offer(&mut self.sessions, &names[i], payload.clone());
                assert(self@.dom() =~= current.dom());
            }
        }
    }

    /// Number of currently registered sessions.
    pub fn occupancy(&self) -> (n: usize)
        requires
            self.wf(),
        ensures
            n == self@.dom().len(),
    {
        self.occupancy
    }

    /// Gives a username back: its session is no longer registered.
    pub fn release(&mut self, claim: ClaimHandle)
        requires
            old(self).wf(),
        ensures
            final(self).wf(),
            final(self)@ == old(self)@.remove(claim@),
            final(self)@.dom().len() == if old(self)@.contains_key(claim@) {
                old(self)@.dom().len() - 1
            } else {
                old(self)@.dom().len() as int
            },
    {
        if remove_entry(&mut self.sessions, &claim.username) {
            self.occupancy = self.occupancy - 1;
        } else {
            assert(self@ =~= old(self)@);
        }
    }
}

impl Default for Hub {
    fn default() -> (hub: Hub)
        ensures
            hub.wf(),
            hub@ == Map::<Seq<char>, Outbox>::empty(),
    {
        Hub::new()
    }
}

impl ClaimHandle {
    /// The claimed username.
    pub fn username(&self) -> (r: &Arc<str>)
        ensures
            r@ == self@,
    {
        &self.username
    }
}

// ---------------------------------------------------------------------------
// Laws
// ---------------------------------------------------------------------------

/// Every mailbox of a hub has the same depth.
pub proof fn law_mailbox_depth(hub: Hub, name: Seq<char>)
    requires
        hub.wf(),
        hub@.contains_key(name),
    ensures
        hub@[name].depth == SESSION_QUEUE_DEPTH,
{
}

/// A hub holds finitely many usernames.
pub proof fn law_finitely_many_names(hub: Hub)
    requires
        hub.wf(),
    ensures
        hub@.dom().finite(),
{
}

/// Registering a username and giving it back leaves the hub as it was, the
/// number of usernames included, and the username can be registered again.
pub proof fn law_release_undoes_register(before: Map<Seq<char>, Outbox>, name: Seq<char>, o: Outbox)
    requires
        !before.contains_key(name),
    ensures
        before.insert(name, o).contains_key(name),
        before.insert(name, o).remove(name) == before,
        before.insert(name, o).remove(name).dom().len() == before.dom().len(),
        !before.insert(name, o).remove(name).contains_key(name),
{
    assert(before.insert(name, o).remove(name) =~= before);
}

/// Different usernames coexist: registering one leaves the others alone.
pub proof fn law_usernames_coexist(
    before: Map<Seq<char>, Outbox>,
    name: Seq<char>,
    o: Outbox,
    other: Seq<char>,
)
    requires
        name != other,
    ensures
        before.insert(name, o).contains_key(other) == before.contains_key(other),
        before.contains_key(other) ==> before.insert(name, o)[other] == before[other],
        before.remove(name).contains_key(other) == before.contains_key(other),
        before.contains_key(other) ==> before.remove(name)[other] == before[other],
{
}

/// Whatever becomes of a frame at one session, every other session but the
/// sender is offered it once. A session that is there and whose mailbox has
/// room gets it; one is found full only where every place of its mailbox is
/// taken, which takes as many frames queued before.
pub proof fn law_slow_session_affects_nobody_else(
    before: Hub,
    origin: Seq<char>,
    frame: Seq<u8>,
    after: Map<Seq<char>, Outbox>,
    name: Seq<char>,
)
    requires
        before.wf(),
        fanned_out(before@, origin, frame, after),
        before@.contains_key(name),
        name != origin,
    ensures
        after.contains_key(name),
        after[name].offers == before@[name].offers.push(after[name].offers.last()),
        after[name].offers.last().frame == frame,
        after[name].offers.last().outcome == mailbox::fate(
            after[name].offers.last().open,
            after[name].offers.last().taken,
            SESSION_QUEUE_DEPTH as nat,
        ),
        after[name].offers.last().outcome == Outcome::Full ==> {
            &&& after[name].offers.last().taken == SESSION_QUEUE_DEPTH
            &&& mailbox::queued(before@[name].offers) >= SESSION_QUEUE_DEPTH
        },
{
    assert(after.contains_key(name));
    assert(after[name].offers =~= before@[name].offers.push(after[name].offers.last()));
}

/// The sender of a frame is not offered it.
pub proof fn law_broadcast_excludes_origin(
    before: Map<Seq<char>, Outbox>,
    origin: Seq<char>,
    frame: Seq<u8>,
    after: Map<Seq<char>, Outbox>,
)
    requires
        fanned_out(before, origin, frame, after),
        before.contains_key(origin),
    ensures
        after.contains_key(origin),
        after[origin] == before[origin],
{
    assert(after.contains_key(origin));
}

// ---------------------------------------------------------------------------
// Histories
// ---------------------------------------------------------------------------

/// A call that changes a hub, and how it went.
pub enum Call {
    /// A username was registered, and a claim on it given out.
    Registered { name: Seq<char>, outbox: Outbox },
    /// A username was taken, and no claim given out.
    Refused { name: Seq<char> },
    /// A frame was offered to everybody but its origin.
    Broadcast { origin: Seq<char>, frame: Seq<u8> },
    /// A claim was given back.
    Released { name: Seq<char> },
}

/// What a call does to the usernames and outboxes of a hub.
pub open spec fn called(
    before: Map<Seq<char>, Outbox>,
    call: Call,
    after: Map<Seq<char>, Outbox>,
) -> bool {
    match call {
        Call::Registered { name, outbox } => {
            &&& !before.contains_key(name)
            &&& after == before.insert(name, outbox)
        },
        Call::Refused { name } => before.contains_key(name) && after == before,
        Call::Broadcast { origin, frame } => fanned_out(before, origin, frame, after),
        Call::Released { name } => after == before.remove(name),
    }
}

/// The calls take a hub through these states.
pub open spec fn history(rooms: Seq<Map<Seq<char>, Outbox>>, calls: Seq<Call>) -> bool {
    &&& rooms.len() == calls.len() + 1
    &&& forall|i: int|
        0 <= i < calls.len() ==> called(rooms[i], #[trigger] calls[i], rooms[i + 1])
}

/// The usernames that are registered after some calls, where `names` were
/// before.
pub open spec fn names_after(names: Set<Seq<char>>, calls: Seq<Call>) -> Set<Seq<char>>
    decreases calls.len(),
{
    if calls.len() == 0 {
        names
    } else {
        let earlier = names_after(names, calls.drop_last());
        match calls.last() {
            Call::Registered { name, outbox: _ } => earlier.insert(name),
            Call::Released { name } => earlier.remove(name),
            _ => earlier,
        }
    }
}

/// The claims that were given out in some calls and not given back.
pub open spec fn claims_held(calls: Seq<Call>) -> Multiset<Seq<char>>
    decreases calls.len(),
{
    if calls.len() == 0 {
        Multiset::empty()
    } else {
        let earlier = claims_held(calls.drop_last());
        match calls.last() {
            Call::Registered { name, outbox: _ } => earlier.insert(name),
            Call::Released { name } => earlier.remove(name),
            _ => earlier,
        }
    }
}

/// Only claims that are held are given back.
pub open spec fn own_claims_only(calls: Seq<Call>) -> bool {
    forall|i: int|
        0 <= i < calls.len() ==> (#[trigger] calls[i] matches Call::Released { name }
            ==> claims_held(calls.take(i)).count(name) > 0)
}

/// The occupancy of a hub is the number of claims that it gave out and that
/// were not given back: it holds after any calls on a new hub, refused
/// registrations and broadcasts among them. Each username has one claim while
/// it is registered, and none otherwise.
pub proof fn law_occupancy_counts_claims(rooms: Seq<Map<Seq<char>, Outbox>>, calls: Seq<Call>)
    requires
        history(rooms, calls),
        rooms[0] == Map::<Seq<char>, Outbox>::empty(),
        own_claims_only(calls),
    ensures
        rooms.last().dom().finite(),
        rooms.last().dom().len() == claims_held(calls).len(),
        forall|name: Seq<char>| #[trigger]
            claims_held(calls).count(name) == if rooms.last().contains_key(name) {
                1nat
            } else {
                0nat
            },
    decreases calls.len(),
{
    broadcast use vstd::multiset::group_multiset_axioms;

    if calls.len() == 0 {
        assert(rooms.last().dom() =~= Set::<Seq<char>>::empty());
    } else {
        let n = calls.len() - 1;
        let earlier = calls.drop_last();
        lemma_history_prefix(rooms, calls);
        assert forall|i: int|
            0 <= i < earlier.len() implies (#[trigger] earlier[i] matches Call::Released { name }
            ==> claims_held(earlier.take(i)).count(name) > 0) by {
            assert(earlier.take(i) =~= calls.take(i));
            assert(earlier[i] == calls[i]);
        }
        law_occupancy_counts_claims(rooms.drop_last(), earlier);
        let before = rooms[n];
        let after = rooms[n + 1];
        assert(called(before, calls[n], after));
        assert(calls.take(n) =~= earlier);
        match calls[n] {
            Call::Registered { name, outbox } => {
                assert(after.dom() =~= before.dom().insert(name));
                assert(claims_held(earlier).count(name) == 0);
            },
            Call::Refused { name } => {},
            Call::Broadcast { origin, frame } => {
                assert forall|name: Seq<char>|
                    after.contains_key(name) == before.contains_key(name) by {
                    assert(after.dom().contains(name) == before.dom().contains(name));
                }
            },
            Call::Released { name } => {
                assert(claims_held(earlier).count(name) > 0);
                assert(after.dom() =~= before.dom().remove(name));
            },
        }
    }
}

/// A history without its last call is a history.
pub proof fn lemma_history_prefix(rooms: Seq<Map<Seq<char>, Outbox>>, calls: Seq<Call>)
    requires
        history(rooms, calls),
        calls.len() > 0,
    ensures
        history(rooms.drop_last(), calls.drop_last()),
        rooms.drop_last().last() == rooms[calls.len() - 1],
{
    assert forall|i: int| 0 <= i < calls.drop_last().len() implies called(
        rooms.drop_last()[i],
        #[trigger] calls.drop_last()[i],
        rooms.drop_last()[i + 1],
    ) by {
        assert(called(rooms[i], calls[i], rooms[i + 1]));
    }
}

/// The usernames that are registered in a hub follow from the calls: they come
/// by registrations, go by releases, and nothing else changes them.
pub proof fn law_names_follow_from_calls(rooms: Seq<Map<Seq<char>, Outbox>>, calls: Seq<Call>)
    requires
        history(rooms, calls),
    ensures
        rooms.last().dom() == names_after(rooms[0].dom(), calls),
    decreases calls.len(),
{
    if calls.len() > 0 {
        let n = calls.len() - 1;
        lemma_history_prefix(rooms, calls);
        law_names_follow_from_calls(rooms.drop_last(), calls.drop_last());
        assert(called(rooms[n], calls[n], rooms[n + 1]));
        assert(rooms.last().dom() =~= names_after(rooms[0].dom(), calls));
    }
}

/// A frame that is offered to everybody but its origin is one more offer for
/// each of them: nothing that was offered before is lost, everybody keeps
/// their mailbox, and nobody comes or goes.
pub proof fn law_everybody_else_is_offered_once(
    before: Map<Seq<char>, Outbox>,
    origin: Seq<char>,
    frame: Seq<u8>,
    after: Map<Seq<char>, Outbox>,
    name: Seq<char>,
)
    requires
        fanned_out(before, origin, frame, after),
    ensures
        after.contains_key(name) == before.contains_key(name),
        before.contains_key(name) && name == origin ==> after[name] == before[name],
        before.contains_key(name) && name != origin ==> {
            let offers = after[name].offers;
            &&& offers.len() == before[name].offers.len() + 1
            &&& offers.drop_last() == before[name].offers
            &&& offers.last().frame == frame
            &&& after[name].channel == before[name].channel
            &&& after[name].depth == before[name].depth
        },
{
    assert(after.dom().contains(name) == before.dom().contains(name));
    if before.contains_key(name) {
        assert(after.contains_key(name));
    }
}

} // verus!
