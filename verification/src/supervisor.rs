//! The uplink supervisor: an infinite retry loop around sessions.
//!
//! The supervisor cycles `Connecting -> Streaming -> Backoff -> Connecting ...`
//! forever. Every failed handshake and every ended session, clean or not, leads
//! into `Backoff`, which waits a fixed delay and then reconnects; there is no
//! terminal state and no retry limit.

use vstd::prelude::*;

verus! {

/// Seconds the supervisor waits in `Backoff` before the next handshake.
pub const BACKOFF_SECS: u64 = 5;

/// Seconds between two sampling ticks within a session.
pub const TICK_SECS: u64 = 1;

#[derive(PartialEq, Eq, Structural, Clone, Copy, Debug)]
pub enum SupervisorState {
    /// Building and sending the authenticated handshake.
    Connecting,
    /// A session is live: sampling, sending, and draining inbound frames.
    Streaming,
    /// Waiting out the fixed delay after a failure or a session end.
    Backoff,
}

#[derive(PartialEq, Eq, Structural, Clone, Copy, Debug)]
pub enum SupervisorEvent {
    /// The handshake was accepted; a connection is live.
    HandshakeSucceeded,
    /// The handshake failed (bad endpoint, network or upgrade refusal).
    HandshakeFailed,
    /// The session ended with a transport error (send or receive failed).
    SessionFailed,
    /// The peer closed the connection cleanly.
    SessionClosedNormally,
    /// The backoff delay has fully elapsed.
    BackoffElapsed,
}

#[derive(PartialEq, Eq, Structural, Clone, Copy, Debug)]
pub enum SupervisorAction {
    /// Attempt a fresh authenticated handshake.
    OpenConnection,
    /// Run the session loop on the live connection.
    RunSession,
    /// Wait this many seconds before anything else.
    Sleep(u64),
}

/// Which events a state can observe.
pub open spec fn event_fits(s: SupervisorState, e: SupervisorEvent) -> bool {
    match s {
        SupervisorState::Connecting => e is HandshakeSucceeded || e is HandshakeFailed,
        SupervisorState::Streaming => e is SessionFailed || e is SessionClosedNormally,
        SupervisorState::Backoff => e is BackoffElapsed,
    }
}

/// The transition function of the supervisor.
pub open spec fn spec_step(s: SupervisorState, e: SupervisorEvent) -> (SupervisorState,
    SupervisorAction)
    recommends
        event_fits(s, e),
{
    match s {
        SupervisorState::Connecting => if e is HandshakeSucceeded {
            (SupervisorState::Streaming, SupervisorAction::RunSession)
        } else {
            (SupervisorState::Backoff, SupervisorAction::Sleep(BACKOFF_SECS))
        },
        SupervisorState::Streaming => (
            SupervisorState::Backoff,
            SupervisorAction::Sleep(BACKOFF_SECS),
        ),
        SupervisorState::Backoff => (SupervisorState::Connecting, SupervisorAction::OpenConnection),
    }
}

/// One supervisor transition: the next state, and what the host loop must do.
pub fn step(s: SupervisorState, e: SupervisorEvent) -> (r: (SupervisorState, SupervisorAction))
    ensures
        r == spec_step(s, e),
{
    match s {
        SupervisorState::Connecting => if let SupervisorEvent::HandshakeSucceeded = e {
            (SupervisorState::Streaming, SupervisorAction::RunSession)
        } else {
            (SupervisorState::Backoff, SupervisorAction::Sleep(BACKOFF_SECS))
        },
        SupervisorState::Streaming => (
            SupervisorState::Backoff,
            SupervisorAction::Sleep(BACKOFF_SECS),
        ),
        SupervisorState::Backoff => (SupervisorState::Connecting, SupervisorAction::OpenConnection),
    }
}

/// The trace of a run: for each event, the state entered and the action taken.
pub open spec fn run_trace(s0: SupervisorState, events: Seq<SupervisorEvent>) -> Seq<
    (SupervisorState, SupervisorAction),
>
    decreases events.len(),
{
    if events.len() == 0 {
        Seq::empty()
    } else {
        let pre = run_trace(s0, events.drop_last());
        let s = if pre.len() == 0 {
            s0
        } else {
            pre.last().0
        };
        pre.push(spec_step(s, events.last()))
    }
}

/// The state after a run.
pub open spec fn state_after(s0: SupervisorState, events: Seq<SupervisorEvent>) -> SupervisorState {
    if events.len() == 0 {
        s0
    } else {
        run_trace(s0, events).last().0
    }
}

/// How many transitions of a trace enter `Backoff`.
pub open spec fn count_backoffs(tr: Seq<(SupervisorState, SupervisorAction)>) -> int
    decreases tr.len(),
{
    if tr.len() == 0 {
        0int
    } else {
        count_backoffs(tr.drop_last()) + if tr.last().0 is Backoff {
            1int
        } else {
            0int
        }
    }
}

/// Every transition that reports a failed handshake or an ended session, clean
/// or not, enters `Backoff` and waits the full fixed delay of 5 seconds before
/// anything else happens.
pub proof fn lemma_failure_backs_off(s: SupervisorState, e: SupervisorEvent)
    requires
        event_fits(s, e),
        e is HandshakeFailed || e is SessionFailed || e is SessionClosedNormally,
    ensures
        spec_step(s, e).0 is Backoff,
        spec_step(s, e).1 == SupervisorAction::Sleep(5u64),
{
}

/// Backoff never gives up: once the delay has elapsed, the supervisor always
/// attempts the next handshake.
pub proof fn lemma_backoff_reconnects()
    ensures
        spec_step(SupervisorState::Backoff, SupervisorEvent::BackoffElapsed) == (
            SupervisorState::Connecting,
            SupervisorAction::OpenConnection,
        ),
{
}

/// Every entry of every trace that is in `Backoff` took the full fixed delay:
/// no path shortens or skips the wait.
pub proof fn lemma_every_backoff_waits(s0: SupervisorState, events: Seq<SupervisorEvent>)
    ensures
        forall|i: int|
            0 <= i < run_trace(s0, events).len() && (#[trigger] run_trace(s0, events)[i]).0
                is Backoff ==> run_trace(s0, events)[i].1 == SupervisorAction::Sleep(BACKOFF_SECS),
    decreases events.len(),
{
    if events.len() > 0 {
        lemma_every_backoff_waits(s0, events.drop_last());
        assert(run_trace(s0, events).drop_last() =~= run_trace(s0, events.drop_last()));
        assert forall|i: int|
            0 <= i < run_trace(s0, events).len() && (#[trigger] run_trace(s0, events)[i]).0
                is Backoff implies run_trace(s0, events)[i].1 == SupervisorAction::Sleep(
            BACKOFF_SECS,
        ) by {
            if i < run_trace(s0, events).len() - 1 {
                assert(run_trace(s0, events)[i] == run_trace(s0, events.drop_last())[i]);
            }
        }
    }
}

/// A trace extends over concatenated event sequences.
pub proof fn lemma_trace_append(
    s0: SupervisorState,
    a: Seq<SupervisorEvent>,
    b: Seq<SupervisorEvent>,
)
    ensures
        run_trace(s0, a + b) =~= run_trace(s0, a) + run_trace(state_after(s0, a), b),
        state_after(s0, a + b) == state_after(state_after(s0, a), b),
    decreases b.len(),
{
    if b.len() == 0 {
        assert(a + b =~= a);
    } else {
        lemma_trace_append(s0, a, b.drop_last());
        assert((a + b).drop_last() =~= a + b.drop_last());
        assert((a + b).last() == b.last());
    }
}

/// Backoff counting is additive over concatenated traces.
pub proof fn lemma_count_backoffs_append(
    a: Seq<(SupervisorState, SupervisorAction)>,
    b: Seq<(SupervisorState, SupervisorAction)>,
)
    ensures
        count_backoffs(a + b) == count_backoffs(a) + count_backoffs(b),
    decreases b.len(),
{
    if b.len() == 0 {
        assert(a + b =~= a);
    } else {
        lemma_count_backoffs_append(a, b.drop_last());
        assert((a + b).drop_last() =~= a + b.drop_last());
        assert((a + b).last() == b.last());
    }
}

/// One full failure cycle: a handshake fails, the backoff delay elapses.
pub open spec fn failure_cycle() -> Seq<SupervisorEvent> {
    seq![SupervisorEvent::HandshakeFailed, SupervisorEvent::BackoffElapsed]
}

/// `n` consecutive failure cycles, one after the other.
pub open spec fn repeated_failures(n: nat) -> Seq<SupervisorEvent>
    decreases n,
{
    if n == 0 {
        Seq::empty()
    } else {
        repeated_failures((n - 1) as nat) + failure_cycle()
    }
}

/// The supervisor retries indefinitely: `n` consecutive handshake failures
/// produce exactly `n` transitions into `Backoff`, and after all of them the
/// supervisor is attempting to connect again; it never aborts.
pub proof fn lemma_retries_indefinitely(n: nat)
    ensures
        state_after(SupervisorState::Connecting, repeated_failures(n))
            is Connecting,
        count_backoffs(run_trace(SupervisorState::Connecting, repeated_failures(n))) == n,
    decreases n,
{
    if n == 0 {
        assert(count_backoffs(Seq::<(SupervisorState, SupervisorAction)>::empty()) == 0);
    } else {
        let pre = repeated_failures((n - 1) as nat);
        lemma_retries_indefinitely((n - 1) as nat);
        lemma_trace_append(SupervisorState::Connecting, pre, failure_cycle());
        lemma_count_backoffs_append(
            run_trace(SupervisorState::Connecting, pre),
            run_trace(SupervisorState::Connecting, failure_cycle()),
        );
        lemma_cycle_from_connecting();
        assert(run_trace(state_after(SupervisorState::Connecting, pre), failure_cycle())
            =~= run_trace(SupervisorState::Connecting, failure_cycle()));
    }
}

/// From `Connecting`, one failure cycle visits `Backoff` once, sleeps the full
/// delay, and returns to `Connecting`.
pub proof fn lemma_cycle_from_connecting()
    ensures
        run_trace(SupervisorState::Connecting, failure_cycle()) =~= seq![
            (SupervisorState::Backoff, SupervisorAction::Sleep(BACKOFF_SECS)),
            (SupervisorState::Connecting, SupervisorAction::OpenConnection),
        ],
        state_after(SupervisorState::Connecting, failure_cycle()) is Connecting,
        count_backoffs(run_trace(SupervisorState::Connecting, failure_cycle())) == 1,
{
    let c = failure_cycle();
    assert(c.drop_last() =~= seq![SupervisorEvent::HandshakeFailed]);
    assert(seq![SupervisorEvent::HandshakeFailed].drop_last() =~= Seq::<
        SupervisorEvent,
    >::empty());
    assert(run_trace(SupervisorState::Connecting, Seq::<SupervisorEvent>::empty()) =~= Seq::<
        (SupervisorState, SupervisorAction),
    >::empty());
    assert(run_trace(SupervisorState::Connecting, seq![SupervisorEvent::HandshakeFailed].drop_last())
        =~= Seq::<(SupervisorState, SupervisorAction)>::empty());
    let t1 = run_trace(SupervisorState::Connecting, seq![SupervisorEvent::HandshakeFailed]);
    assert(t1 =~= Seq::empty().push(
        spec_step(SupervisorState::Connecting, SupervisorEvent::HandshakeFailed),
    ));
    let t2 = run_trace(SupervisorState::Connecting, c);
    assert(t2 == t1.push(spec_step(t1.last().0, c.last())));
    assert(t2 =~= seq![
        (SupervisorState::Backoff, SupervisorAction::Sleep(BACKOFF_SECS)),
        (SupervisorState::Connecting, SupervisorAction::OpenConnection),
    ]);
    assert(count_backoffs(t2) == count_backoffs(t2.drop_last()) + 0);
    assert(t2.drop_last() =~= t1);
    assert(count_backoffs(t1) == count_backoffs(t1.drop_last()) + 1);
    assert(t1.drop_last() =~= Seq::<(SupervisorState, SupervisorAction)>::empty());
}

} // verus!
