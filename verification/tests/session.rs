use decoyssh::frame::generate_random_alphanumeric;
use decoyssh::session::{Session, SessionAction, SessionEvent, SessionPhase, WriteOutcome};
use decoyssh::{ConnectionPool, PeerAddr};

fn v4(ip: u32, port: u16) -> PeerAddr {
    PeerAddr { v6: false, ip: ip as u128, port }
}

#[test]
fn test_admitted_session_alternates_write_and_sleep() {
    let mut s = Session::new(v4(1, 22), 10000);
    assert_eq!(s.phase, SessionPhase::Admitting);

    let a = s.step(SessionEvent::AdmitResult(true));
    assert_eq!(a, SessionAction::WriteFrame);
    assert_eq!(s.phase, SessionPhase::Draining);

    // Between any two frames the session demands the configured sleep.
    for _ in 0..3 {
        let a = s.step(SessionEvent::Wrote(WriteOutcome::Written));
        assert_eq!(a, SessionAction::Sleep(10000));
        let a = s.step(SessionEvent::Slept);
        assert_eq!(a, SessionAction::WriteFrame);
    }
}

#[test]
fn test_would_block_is_not_fatal() {
    let mut s = Session::new(v4(2, 22), 7);
    s.step(SessionEvent::AdmitResult(true));
    let a = s.step(SessionEvent::Wrote(WriteOutcome::WouldBlock));
    assert_eq!(a, SessionAction::Sleep(7));
    assert_eq!(s.phase, SessionPhase::Draining);
}

#[test]
fn test_rejected_session_closes_without_release() {
    let mut s = Session::new(v4(3, 22), 10000);
    let a = s.step(SessionEvent::AdmitResult(false));
    assert_eq!(a, SessionAction::CloseConnection);
    assert_eq!(s.phase, SessionPhase::Closed);
}

#[test]
fn test_fatal_write_releases_slot_then_closes() {
    let mut s = Session::new(v4(4, 22), 10000);
    s.step(SessionEvent::AdmitResult(true));
    let a = s.step(SessionEvent::Wrote(WriteOutcome::Fatal));
    assert_eq!(a, SessionAction::ReleaseSlot);
    assert_eq!(s.phase, SessionPhase::Closing);
    let a = s.step(SessionEvent::Released);
    assert_eq!(a, SessionAction::CloseConnection);
    assert_eq!(s.phase, SessionPhase::Closed);
}

/// capacity 2, length 5, delay 0: of three simultaneous connections
/// exactly two are admitted and drip frames; the third is closed with
/// no frame sent; once an admitted peer disconnects, the rejected one
/// is admitted on retry.
#[test]
fn test_three_connections_against_capacity_two() {
    let length = 5;
    let delay = 0;
    let mut pool = ConnectionPool::with_capacity(2);
    let peers = [v4(101, 40001), v4(102, 40002), v4(103, 40003)];

    let mut sessions: Vec<Session> = Vec::new();
    let mut frames_sent = [0u32; 3];
    let mut admitted = Vec::new();
    for (i, &peer) in peers.iter().enumerate() {
        let mut s = Session::new(peer, delay);
        let granted = pool.insert(peer);
        let action = s.step(SessionEvent::AdmitResult(granted));
        match action {
            SessionAction::WriteFrame => {
                let line = generate_random_alphanumeric(length);
                assert_eq!(line.len(), length + 2);
                frames_sent[i] += 1;
                admitted.push(i);
            }
            SessionAction::CloseConnection => {
                assert_eq!(s.phase, SessionPhase::Closed);
            }
            other => panic!("unexpected action {other:?}"),
        }
        sessions.push(s);
    }

    assert_eq!(admitted, vec![0, 1]);
    assert_eq!(frames_sent, [1, 1, 0]);
    assert_eq!(pool.len(), 2);

    // The first admitted peer disconnects: its next write fails hard,
    // its slot goes back, and its connection closes.
    let gone = 0;
    let a = sessions[gone].step(SessionEvent::Wrote(WriteOutcome::Fatal));
    assert_eq!(a, SessionAction::ReleaseSlot);
    assert!(pool.remove(&peers[gone]));
    let a = sessions[gone].step(SessionEvent::Released);
    assert_eq!(a, SessionAction::CloseConnection);

    // The previously rejected peer retries and is now admitted.
    let mut retry = Session::new(peers[2], delay);
    let granted = pool.insert(peers[2]);
    assert!(granted);
    let action = retry.step(SessionEvent::AdmitResult(granted));
    assert_eq!(action, SessionAction::WriteFrame);
    assert_eq!(pool.len(), 2);
}
