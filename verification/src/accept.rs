//! What the accept loop decides: whether to serve a connection, and when the
//! server is done.

use vstd::prelude::*;

verus! {

/// What can happen to the accept loop.
///
/// Where both happen at once, a shutdown is handled before a connection.
#[derive(Debug, Clone, Copy, PartialEq, Eq, Structural)]
pub enum AcceptEvent {
    /// The server is asked to shut down.
    Shutdown,
    /// A connection came in.
    Accepted,
    /// No connection can be accepted any more.
    AcceptFailed,
    /// One of the sessions has ended.
    SessionEnded,
}

/// What the accept loop does next.
#[derive(Debug, Clone, Copy, PartialEq, Eq, Structural)]
pub enum AcceptStep {
    /// Wait for a connection or a shutdown.
    Listen,
    /// Start a session for the connection, then listen on.
    Serve,
    /// Accept no more connections; wait for a session to end.
    Drain,
    /// The server is done; the accept failure that ended it, if one did, is
    /// its result.
    Return,
}

/// The accept loop.
#[derive(Debug)]
pub struct AcceptLoop {
    accepting: bool,
    failed: bool,
    active: usize,
}

/// The state of an [`AcceptLoop`].
pub struct AcceptLoopView {
    /// Connections are still accepted.
    pub accepting: bool,
    /// Accepting failed.
    pub failed: bool,
    /// How many sessions were started and have not ended.
    pub active: nat,
}

impl View for AcceptLoop {
    type V = AcceptLoopView;

    closed spec fn view(&self) -> AcceptLoopView {
        AcceptLoopView {
            accepting: self.accepting,
            failed: self.failed,
            active: self.active as nat,
        }
    }
}

impl AcceptLoopView {
    /// What to do where nothing new came in.
    pub open spec fn pause(self) -> AcceptStep {
        if self.accepting {
            AcceptStep::Listen
        } else if self.active > 0 {
            AcceptStep::Drain
        } else {
            AcceptStep::Return
        }
    }

    /// The state after an event.
    pub open spec fn next(self, event: AcceptEvent) -> AcceptLoopView {
        match event {
            AcceptEvent::Shutdown => AcceptLoopView { accepting: false, ..self },
            AcceptEvent::Accepted => if self.accepting {
                AcceptLoopView { active: self.active + 1, ..self }
            } else {
                self
            },
            AcceptEvent::AcceptFailed => if self.accepting {
                AcceptLoopView { accepting: false, failed: true, ..self }
            } else {
                self
            },
            AcceptEvent::SessionEnded => AcceptLoopView {
                active: if self.active > 0 {
                    (self.active - 1) as nat
                } else {
                    0
                },
                ..self
            },
        }
    }

    /// What to do about an event.
    pub open spec fn step(self, event: AcceptEvent) -> AcceptStep {
        if event == AcceptEvent::Accepted && self.accepting {
            AcceptStep::Serve
        } else {
            self.next(event).pause()
        }
    }
}

impl AcceptLoop {
    /// A loop that listens.
    pub fn new() -> (r: AcceptLoop)
        ensures
            r@ == (AcceptLoopView { accepting: true, failed: false, active: 0 }),
    {
        AcceptLoop { accepting: true, failed: false, active: 0 }
    }

    /// Decides what to do about an event.
    pub fn on_event(&mut self, event: AcceptEvent) -> (r: AcceptStep)
        requires
            event == AcceptEvent::Accepted ==> old(self)@.active < usize::MAX,
        ensures
            final(self)@ == old(self)@.next(event),
            r == old(self)@.step(event),
    {
        match event {
            AcceptEvent::Shutdown => {
                self.accepting = false;
            },
            AcceptEvent::Accepted => {
                if self.accepting {
                    self.active = self.active + 1;
                    return AcceptStep::Serve;
                }
            },
            AcceptEvent::AcceptFailed => {
                if self.accepting {
                    self.accepting = false;
                    self.failed = true;
                }
            },
            AcceptEvent::SessionEnded => {
                if self.active > 0 {
                    self.active = self.active - 1;
                }
            },
        }
        if self.accepting {
            AcceptStep::Listen
        } else if self.active > 0 {
            AcceptStep::Drain
        } else {
            AcceptStep::Return
        }
    }

    /// How many sessions were started and have not ended.
    pub fn active(&self) -> (n: usize)
        ensures
            n == self@.active,
    {
        self.active
    }

    /// Whether an accept failure ended the loop.
    pub fn failed(&self) -> (r: bool)
        ensures
            r == self@.failed,
    {
        self.failed
    }
}

/// The state after several events.
pub open spec fn after(state: AcceptLoopView, events: Seq<AcceptEvent>) -> AcceptLoopView
    decreases events.len(),
{
    if events.len() == 0 {
        state
    } else {
        after(state, events.drop_last()).next(events.last())
    }
}

/// Once the loop was told to shut down, or accepting failed, it serves no
/// further connection, whatever happens.
pub proof fn law_no_connection_after_shutdown(
    state: AcceptLoopView,
    stop: AcceptEvent,
    events: Seq<AcceptEvent>,
    event: AcceptEvent,
)
    requires
        stop == AcceptEvent::Shutdown || stop == AcceptEvent::AcceptFailed,
    ensures
        !after(state.next(stop), events).accepting,
        after(state.next(stop), events).step(event) != AcceptStep::Serve,
        after(state.next(stop), events).step(event) != AcceptStep::Listen,
    decreases events.len(),
{
    if events.len() > 0 {
        law_no_connection_after_shutdown(state, stop, events.drop_last(), event);
    }
}

/// The server returns only when every session it started has ended.
pub proof fn law_returns_only_when_drained(state: AcceptLoopView, event: AcceptEvent)
    ensures
        state.step(event) == AcceptStep::Return ==> state.next(event).active == 0 && !state.next(
            event,
        ).accepting,
{
}

// ---------------------------------------------------------------------------
// What the loop does over time
// ---------------------------------------------------------------------------

/// The loop is told to stop somewhere in these events.
pub open spec fn has_stop(events: Seq<AcceptEvent>) -> bool {
    exists|i: int|
        0 <= i < events.len() && (#[trigger] events[i] == AcceptEvent::Shutdown || events[i]
            == AcceptEvent::AcceptFailed)
}

/// How many connections came in before the loop was told to stop.
pub open spec fn arrivals(events: Seq<AcceptEvent>) -> nat
    decreases events.len(),
{
    if events.len() == 0 {
        0
    } else if events.last() == AcceptEvent::Accepted && !has_stop(events.drop_last()) {
        arrivals(events.drop_last()) + 1
    } else {
        arrivals(events.drop_last())
    }
}

/// How many sessions ended.
pub open spec fn endings(events: Seq<AcceptEvent>) -> nat
    decreases events.len(),
{
    if events.len() == 0 {
        0
    } else if events.last() == AcceptEvent::SessionEnded {
        endings(events.drop_last()) + 1
    } else {
        endings(events.drop_last())
    }
}

/// At no time did more sessions end than were started.
pub open spec fn plausible(events: Seq<AcceptEvent>) -> bool {
    forall|k: int| 0 <= k <= events.len() ==> endings(#[trigger] events.take(k)) <= arrivals(
        events.take(k),
    )
}

/// Over any events on a new loop, every connection that came in before the
/// stop has its session: as many sessions are active as connections came in
/// before the stop, less those that have ended. The loop accepts until it is
/// told to stop.
pub proof fn law_active_counts_sessions(events: Seq<AcceptEvent>)
    requires
        plausible(events),
    ensures
        ({
            let start = AcceptLoopView { accepting: true, failed: false, active: 0 };
            let state = after(start, events);
            &&& state.active == arrivals(events) - endings(events)
            &&& state.accepting == !has_stop(events)
        }),
    decreases events.len(),
{
    assert(events.take(events.len() as int) =~= events);
    if events.len() > 0 {
        let earlier = events.drop_last();
        assert forall|k: int| 0 <= k <= earlier.len() implies endings(#[trigger] earlier.take(k))
            <= arrivals(earlier.take(k)) by {
            assert(earlier.take(k) =~= events.take(k));
        }
        law_active_counts_sessions(earlier);
        assert(events =~= earlier.push(events.last()));
        let n = events.len() - 1;
        if has_stop(earlier) {
            let i = choose|i: int|
                0 <= i < earlier.len() && (#[trigger] earlier[i] == AcceptEvent::Shutdown
                    || earlier[i] == AcceptEvent::AcceptFailed);
            assert(events[i] == earlier[i]);
        }
        if has_stop(events) && !has_stop(earlier) {
            let i = choose|i: int|
                0 <= i < events.len() && (#[trigger] events[i] == AcceptEvent::Shutdown
                    || events[i] == AcceptEvent::AcceptFailed);
            if i < n {
                assert(earlier[i] == events[i]);
            }
        }
        if events.last() == AcceptEvent::Shutdown || events.last() == AcceptEvent::AcceptFailed {
            assert(events[n] == events.last());
        }
    }
}

/// While the loop accepts, every connection is served, however many sessions
/// there are, and is one more active session.
pub proof fn law_every_connection_is_served(state: AcceptLoopView)
    requires
        state.accepting,
    ensures
        state.step(AcceptEvent::Accepted) == AcceptStep::Serve,
        state.next(AcceptEvent::Accepted) == (AcceptLoopView {
            accepting: true,
            failed: state.failed,
            active: state.active + 1,
        }),
{
}

/// A connection is served only where one came in. What the loop does
/// otherwise follows from how things stand after the event: it listens while
/// it accepts, then waits while sessions are active, then returns.
pub proof fn law_what_the_loop_does(state: AcceptLoopView, event: AcceptEvent)
    requires
        !(state.accepting && event == AcceptEvent::Accepted),
    ensures
        ({
            let next = state.next(event);
            &&& state.step(event) == AcceptStep::Listen <==> next.accepting
            &&& state.step(event) == AcceptStep::Drain <==> !next.accepting && next.active > 0
            &&& state.step(event) == AcceptStep::Return <==> !next.accepting && next.active == 0
        }),
{
}

/// An accept failure is the loop's result if and only if it came while the
/// loop accepted; nothing else is a failure, and no failure is forgotten.
pub proof fn law_which_failures_count(state: AcceptLoopView, event: AcceptEvent)
    ensures
        state.next(event).failed <==> state.failed || (state.accepting && event
            == AcceptEvent::AcceptFailed),
{
}

/// The end of a session is one less active session and changes nothing else; a
/// stop, and a connection that is not served, change no session.
pub proof fn law_sessions_end_one_by_one(state: AcceptLoopView, event: AcceptEvent)
    ensures
        event == AcceptEvent::SessionEnded ==> state.next(event) == (AcceptLoopView {
            active: if state.active == 0 {
                0
            } else {
                (state.active - 1) as nat
            },
            ..state
        }),
        event == AcceptEvent::Shutdown || event == AcceptEvent::AcceptFailed ==> {
            &&& state.next(event).active == state.active
            &&& !state.next(event).accepting
        },
        event == AcceptEvent::Accepted && !state.accepting ==> state.next(event) == state,
{
}

} // verus!
