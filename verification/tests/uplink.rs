use timelens_core::session::ReceiveEvent;
use timelens_core::session::SessionState;
use timelens_core::session::SessionVerdict;
use timelens_core::session::TickOutcome;
use timelens_core::session::on_receive;
use timelens_core::supervisor::BACKOFF_SECS;
use timelens_core::supervisor::SupervisorAction;
use timelens_core::supervisor::SupervisorEvent;
use timelens_core::supervisor::SupervisorState;
use timelens_core::supervisor::TICK_SECS;
use timelens_core::supervisor::step;

fn expect_send(r: TickOutcome, label: &str) {
    match r {
        TickOutcome::Send(l) => assert_eq!(l, label),
        TickOutcome::Unchanged => panic!("expected a send, got Unchanged"),
        TickOutcome::SampleFailed => panic!("expected a send, got SampleFailed"),
    }
}

#[test]
fn first_sample_is_sent() {
    let mut s = SessionState::new();
    expect_send(s.on_tick(Some(String::from("Firefox"))), "Firefox");
}

#[test]
fn repeated_sample_is_deduplicated() {
    let mut s = SessionState::new();
    expect_send(s.on_tick(Some(String::from("A"))), "A");
    assert!(matches!(s.on_tick(Some(String::from("A"))), TickOutcome::Unchanged));
    expect_send(s.on_tick(Some(String::from("B"))), "B");
    assert!(matches!(s.on_tick(Some(String::from("B"))), TickOutcome::Unchanged));
    expect_send(s.on_tick(Some(String::from("A"))), "A");
}

#[test]
fn failed_sample_changes_nothing() {
    let mut s = SessionState::new();
    expect_send(s.on_tick(Some(String::from("A"))), "A");
    assert!(matches!(s.on_tick(None), TickOutcome::SampleFailed));
    assert!(matches!(s.on_tick(Some(String::from("A"))), TickOutcome::Unchanged));
}

#[test]
fn failed_sample_on_fresh_session_sends_nothing() {
    let mut s = SessionState::new();
    assert!(matches!(s.on_tick(None), TickOutcome::SampleFailed));
    expect_send(s.on_tick(Some(String::from("A"))), "A");
}

#[test]
fn dedup_state_resets_across_sessions() {
    let mut first = SessionState::new();
    expect_send(first.on_tick(Some(String::from("A"))), "A");
    let mut second = SessionState::new();
    expect_send(second.on_tick(Some(String::from("A"))), "A");
}

#[test]
fn inbound_frames_are_discarded() {
    assert_eq!(on_receive(&ReceiveEvent::Frame), SessionVerdict::Continue);
}

#[test]
fn receive_error_ends_session_with_error() {
    assert_eq!(on_receive(&ReceiveEvent::ReceiveError), SessionVerdict::EndError);
}

#[test]
fn clean_close_ends_session_normally() {
    assert_eq!(on_receive(&ReceiveEvent::Closed), SessionVerdict::EndNormal);
}

#[test]
fn fixed_delays() {
    assert_eq!(BACKOFF_SECS, 5);
    assert_eq!(TICK_SECS, 1);
}

#[test]
fn handshake_success_starts_streaming() {
    assert_eq!(
        step(SupervisorState::Connecting, SupervisorEvent::HandshakeSucceeded),
        (SupervisorState::Streaming, SupervisorAction::RunSession)
    );
}

#[test]
fn handshake_failure_backs_off() {
    assert_eq!(
        step(SupervisorState::Connecting, SupervisorEvent::HandshakeFailed),
        (SupervisorState::Backoff, SupervisorAction::Sleep(5))
    );
}

#[test]
fn session_end_backs_off_either_way() {
    assert_eq!(
        step(SupervisorState::Streaming, SupervisorEvent::SessionFailed),
        (SupervisorState::Backoff, SupervisorAction::Sleep(5))
    );
    assert_eq!(
        step(SupervisorState::Streaming, SupervisorEvent::SessionClosedNormally),
        (SupervisorState::Backoff, SupervisorAction::Sleep(5))
    );
}

#[test]
fn backoff_reconnects() {
    assert_eq!(
        step(SupervisorState::Backoff, SupervisorEvent::BackoffElapsed),
        (SupervisorState::Connecting, SupervisorAction::OpenConnection)
    );
}

#[test]
fn three_consecutive_failures_back_off_three_times_and_no_abort() {
    let mut state = SupervisorState::Connecting;
    let mut backoffs = 0;
    for _ in 0..3 {
        let (next, action) = step(state, SupervisorEvent::HandshakeFailed);
        assert_eq!(next, SupervisorState::Backoff);
        assert_eq!(action, SupervisorAction::Sleep(5));
        backoffs += 1;
        let (next, action) = step(next, SupervisorEvent::BackoffElapsed);
        assert_eq!(next, SupervisorState::Connecting);
        assert_eq!(action, SupervisorAction::OpenConnection);
        state = next;
    }
    assert_eq!(backoffs, 3);
    assert_eq!(state, SupervisorState::Connecting);
}
