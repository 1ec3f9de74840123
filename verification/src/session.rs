//! The drip-session state machine. A session owns one admitted
//! connection and keeps the peer engaged indefinitely: write one
//! filler frame, sleep for the configured delay, repeat, until the
//! peer disconnects or the write fails hard — then release the pool
//! slot exactly once and close the connection.
//!
//! The machine is pure: it maps (phase, event) to (next phase, next
//! action). The driver outside this crate performs the actions —
//! admitting against the pool, writing, sleeping, releasing, closing —
//! and reports each outcome back as the next event. The laws at the
//! bottom prove, over any such event trace, that a sleep of the
//! configured delay lies between any two frames, and that a fatal
//! write is answered by the slot's release in the very same step.

use vstd::prelude::*;

use crate::peer::PeerAddr;

verus! {

/// What one write to the peer reported, as far as the session cares.
#[derive(Clone, Copy, PartialEq, Eq, Structural, Debug)]
pub enum WriteOutcome {
    /// The whole frame was handed to the transport.
    Written,
    /// A transient try-again condition: the peer is slow to read.
    /// Dripping slowly is the point, so this is not a failure.
    WouldBlock,
    /// Any other write error: peer reset, broken pipe, connection
    /// closed. Fatal to this session only.
    Fatal,
}

/// What the driver observed and reports to the session.
#[derive(Clone, Copy, PartialEq, Eq, Structural, Debug)]
pub enum SessionEvent {
    /// The admission pool answered the session's admission attempt.
    AdmitResult(bool),
    /// A frame write finished with this outcome.
    Wrote(WriteOutcome),
    /// The pacing sleep finished.
    Slept,
    /// The session's pool slot has been released.
    Released,
}

/// What the session asks the driver to do next.
#[derive(Clone, Copy, PartialEq, Eq, Structural, Debug)]
pub enum SessionAction {
    /// Fill the frame buffer and write it to the peer.
    WriteFrame,
    /// Sleep for this many milliseconds before the next frame.
    Sleep(u64),
    /// Release the session's slot in the admission pool.
    ReleaseSlot,
    /// Close the connection in both directions.
    CloseConnection,
    /// Nothing: the session is finished, or the event was not one this
    /// phase can answer.
    Idle,
}

/// Where the session stands.
#[derive(Clone, Copy, PartialEq, Eq, Structural, Debug)]
pub enum SessionPhase {
    /// Waiting for the admission pool's answer. A refusal closes the
    /// connection at once, without a release: a rejected session never
    /// held a slot.
    Admitting,
    /// Admitted: writing frames and sleeping in turn, indefinitely.
    Draining,
    /// The connection is gone; the slot is being given back.
    Closing,
    /// Terminal. The connection is closed and no slot is held.
    Closed,
}

/// The phase the session moves to on `event`.
pub open spec fn next_phase(phase: SessionPhase, event: SessionEvent) -> SessionPhase {
    match (phase, event) {
        (SessionPhase::Admitting, SessionEvent::AdmitResult(granted)) => if granted {
            SessionPhase::Draining
        } else {
            SessionPhase::Closed
        },
        (SessionPhase::Draining, SessionEvent::Wrote(outcome)) => if outcome
            == WriteOutcome::Fatal {
            SessionPhase::Closing
        } else {
            SessionPhase::Draining
        },
        (SessionPhase::Draining, SessionEvent::Slept) => SessionPhase::Draining,
        (SessionPhase::Closing, SessionEvent::Released) => SessionPhase::Closed,
        _ => phase,
    }
}

/// The action the session asks for on `event`, with `delay` the
/// configured pacing in milliseconds.
pub open spec fn next_action(phase: SessionPhase, event: SessionEvent, delay: u64) -> SessionAction {
    match (phase, event) {
        (SessionPhase::Admitting, SessionEvent::AdmitResult(granted)) => if granted {
            SessionAction::WriteFrame
        } else {
            SessionAction::CloseConnection
        },
        (SessionPhase::Draining, SessionEvent::Wrote(outcome)) => if outcome
            == WriteOutcome::Fatal {
            SessionAction::ReleaseSlot
        } else {
            SessionAction::Sleep(delay)
        },
        (SessionPhase::Draining, SessionEvent::Slept) => SessionAction::WriteFrame,
        (SessionPhase::Closing, SessionEvent::Released) => SessionAction::CloseConnection,
        _ => SessionAction::Idle,
    }
}

/// One tarpit session: the peer it serves, its pacing delay, and the
/// phase it stands in.
pub struct Session {
    pub peer: PeerAddr,
    pub delay: u64,
    pub phase: SessionPhase,
}

impl Session {
    /// A fresh session for `peer`, about to ask the pool for a slot.
    pub fn new(peer: PeerAddr, delay: u64) -> (s: Session)
        ensures
            s.peer == peer,
            s.delay == delay,
            s.phase == SessionPhase::Admitting,
    {
        Session { peer, delay, phase: SessionPhase::Admitting }
    }

    /// Feeds one event to the session. The phase moves exactly as
    /// [`next_phase`] says and the returned action is exactly what
    /// [`next_action`] says; the peer and the delay never change.
    pub fn step(&mut self, event: SessionEvent) -> (action: SessionAction)
        ensures
            final(self).peer == old(self).peer,
            final(self).delay == old(self).delay,
            final(self).phase == next_phase(old(self).phase, event),
            action == next_action(old(self).phase, event, old(self).delay),
    {
        match (self.phase, event) {
            (SessionPhase::Admitting, SessionEvent::AdmitResult(granted)) => {
                if granted {
                    self.phase = SessionPhase::Draining;
                    SessionAction::WriteFrame
                } else {
                    self.phase = SessionPhase::Closed;
                    SessionAction::CloseConnection
                }
            },
            (SessionPhase::Draining, SessionEvent::Wrote(outcome)) => {
                if outcome == WriteOutcome::Fatal {
                    self.phase = SessionPhase::Closing;
                    SessionAction::ReleaseSlot
                } else {
                    SessionAction::Sleep(self.delay)
                }
            },
            (SessionPhase::Draining, SessionEvent::Slept) => SessionAction::WriteFrame,
            (SessionPhase::Closing, SessionEvent::Released) => {
                self.phase = SessionPhase::Closed;
                SessionAction::CloseConnection
            },
            _ => SessionAction::Idle,
        }
    }
}

/// The phase after the first `i` events of a trace, starting from a
/// fresh session.
pub open spec fn phase_after(events: Seq<SessionEvent>, i: int) -> SessionPhase
    decreases i,
{
    if i <= 0 {
        SessionPhase::Admitting
    } else {
        next_phase(phase_after(events, i - 1), events[i - 1])
    }
}

/// The action the session asks for at step `i` of a trace.
pub open spec fn action_at(events: Seq<SessionEvent>, delay: u64, i: int) -> SessionAction {
    next_action(phase_after(events, i), events[i], delay)
}

/// A faithful driver reports `Slept` only right after the session told
/// it to sleep: every `Slept` in the trace follows a `Sleep(delay)`
/// action.
pub open spec fn sleeps_follow_sleep_actions(events: Seq<SessionEvent>, delay: u64) -> bool {
    forall|k: int|
        0 <= k < events.len() && events[k] == SessionEvent::Slept ==> k >= 1 && #[trigger] action_at(
            events,
            delay,
            k - 1,
        ) == SessionAction::Sleep(delay)
}

/// A session that has left the admission phase never returns to it.
proof fn lemma_no_return_to_admitting(events: Seq<SessionEvent>, i: int, j: int)
    requires
        0 <= i <= j,
        phase_after(events, i) != SessionPhase::Admitting,
    ensures
        phase_after(events, j) != SessionPhase::Admitting,
    decreases j - i,
{
    if j > i {
        lemma_no_return_to_admitting(events, i, j - 1);
    }
}

/// Pacing: on any trace whose driver reports sleeps faithfully, two
/// frame writes are never adjacent — the step just before the later
/// write is the pacing sleep of the configured delay. So at least
/// `delay` milliseconds pass between two consecutive frames of one
/// session.
pub proof fn lemma_pacing_between_frames(events: Seq<SessionEvent>, delay: u64, i: int, j: int)
    requires
        0 <= i < j < events.len(),
        sleeps_follow_sleep_actions(events, delay),
        action_at(events, delay, i) == SessionAction::WriteFrame,
        action_at(events, delay, j) == SessionAction::WriteFrame,
    ensures
        i < j - 1,
        action_at(events, delay, j - 1) == SessionAction::Sleep(delay),
{
    assert(phase_after(events, i + 1) == SessionPhase::Draining);
    lemma_no_return_to_admitting(events, i + 1, j);
    assert(events[j] == SessionEvent::Slept);
}

/// Once a session is closing or closed, it stays so.
proof fn lemma_closing_is_final(events: Seq<SessionEvent>, i: int, j: int)
    requires
        0 <= i <= j,
        phase_after(events, i) == SessionPhase::Closing || phase_after(events, i)
            == SessionPhase::Closed,
    ensures
        phase_after(events, j) == SessionPhase::Closing || phase_after(events, j)
            == SessionPhase::Closed,
    decreases j - i,
{
    if j > i {
        lemma_closing_is_final(events, i, j - 1);
    }
}

/// The slot is given back at most once: after the step that asks for
/// the release, no later step of the same session's trace asks for it
/// again.
pub proof fn lemma_release_at_most_once(events: Seq<SessionEvent>, delay: u64, i: int, j: int)
    requires
        0 <= i < j,
        action_at(events, delay, i) == SessionAction::ReleaseSlot,
    ensures
        action_at(events, delay, j) != SessionAction::ReleaseSlot,
{
    assert(phase_after(events, i + 1) == SessionPhase::Closing);
    lemma_closing_is_final(events, i + 1, j);
}

/// A refused admission wastes nothing: the session closes the
/// connection at once, and no step of its trace ever writes a frame
/// or touches the pool again.
pub proof fn lemma_rejected_session_stays_silent(events: Seq<SessionEvent>, delay: u64, j: int)
    requires
        events.len() >= 1,
        events[0] == SessionEvent::AdmitResult(false),
        0 <= j,
    ensures
        action_at(events, delay, 0) == SessionAction::CloseConnection,
        j >= 1 ==> action_at(events, delay, j) != SessionAction::WriteFrame,
        action_at(events, delay, j) != SessionAction::ReleaseSlot,
{
    assert(phase_after(events, 1) == SessionPhase::Closed);
    if j >= 1 {
        lemma_closing_is_final(events, 1, j);
    }
}

/// Cleanup on disconnect: when the peer has gone and a write comes
/// back fatal, that very step asks for the slot's release, and the
/// session is in its closing phase immediately afterwards.
pub proof fn lemma_fatal_write_releases(events: Seq<SessionEvent>, delay: u64, k: int)
    requires
        0 <= k,
        phase_after(events, k) == SessionPhase::Draining,
        events[k] == SessionEvent::Wrote(WriteOutcome::Fatal),
    ensures
        action_at(events, delay, k) == SessionAction::ReleaseSlot,
        phase_after(events, k + 1) == SessionPhase::Closing,
{
}

} // verus!
