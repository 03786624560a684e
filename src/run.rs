//! The phases of a run, from construction to exit.

use vstd::prelude::*;

verus! {

/// Where a run stands.
#[derive(Clone, Copy, Debug, PartialEq, Eq, Structural)]
pub enum Phase {
    /// Plugins are loaded; the connection is not authenticated yet.
    Constructed,
    /// Authentication completed; nothing has been received yet.
    Authenticated,
    /// The receive loop, the plugins' background tasks and the HTTP server
    /// run.
    Running,
    /// Every activity ended without error.
    Exited,
    /// A fatal condition ended the run.
    Fatal,
}

/// Something that happened to a run.
#[derive(Clone, Copy, Debug, PartialEq, Eq, Structural)]
pub enum RunEvent {
    /// The authentication sequence completed.
    AuthSucceeded,
    /// A call of the authentication sequence failed.
    AuthFailed,
    /// The concurrent activities were started.
    ActivitiesStarted,
    /// One inbound message's dispatch failed in a plugin's handler.
    DispatchFailed,
    /// The connection's inbound stream ended or failed.
    InboundEnded,
    /// A plugin's background task returned, with or without error.
    BackgroundTaskEnded,
    /// A plugin's observation of an outbound message failed.
    ObservationFailed,
    /// Sending on the connection failed.
    SendFailed,
    /// The HTTP server failed.
    ServerFailed,
    /// Every activity returned without error.
    AllActivitiesEnded,
}

/// The phase a run moves to on an event. Exit and failure are final; a
/// failed dispatch of one message keeps the run going; every other failure
/// is fatal, and there is no retry.
pub open spec fn spec_next_phase(phase: Phase, event: RunEvent) -> Phase {
    match (phase, event) {
        (Phase::Exited, _) => Phase::Exited,
        (Phase::Fatal, _) => Phase::Fatal,
        (Phase::Constructed, RunEvent::AuthSucceeded) => Phase::Authenticated,
        (Phase::Authenticated, RunEvent::ActivitiesStarted) => Phase::Running,
        (Phase::Running, RunEvent::DispatchFailed) => Phase::Running,
        (Phase::Running, RunEvent::AllActivitiesEnded) => Phase::Exited,
        _ => Phase::Fatal,
    }
}

/// The phase a run moves to on an event.
pub fn next_phase(phase: Phase, event: RunEvent) -> (r: Phase)
    ensures
        r == spec_next_phase(phase, event),
{
    match (phase, event) {
        (Phase::Exited, _) => Phase::Exited,
        (Phase::Fatal, _) => Phase::Fatal,
        (Phase::Constructed, RunEvent::AuthSucceeded) => Phase::Authenticated,
        (Phase::Authenticated, RunEvent::ActivitiesStarted) => Phase::Running,
        (Phase::Running, RunEvent::DispatchFailed) => Phase::Running,
        (Phase::Running, RunEvent::AllActivitiesEnded) => Phase::Exited,
        _ => Phase::Fatal,
    }
}

/// The phase reached from `phase` after the events, in order.
pub open spec fn phase_after(phase: Phase, events: Seq<RunEvent>) -> Phase
    decreases events.len(),
{
    if events.len() == 0 {
        phase
    } else {
        spec_next_phase(phase_after(phase, events.drop_last()), events.last())
    }
}

/// Whether the run has ended, for good or not.
pub fn is_final(phase: Phase) -> (r: bool)
    ensures
        r == (phase == Phase::Exited || phase == Phase::Fatal),
{
    match phase {
        Phase::Exited | Phase::Fatal => true,
        _ => false,
    }
}

/// Nothing is received before authentication: a run that starts constructed
/// is running only after an authentication success that came before the
/// start of the activities. And an ended run stays ended.
pub proof fn lemma_run_order(events: Seq<RunEvent>)
    ensures
        phase_after(Phase::Constructed, events) == Phase::Running ==> exists|a: int, b: int|
            0 <= a < b < events.len() && #[trigger] events[a] == RunEvent::AuthSucceeded
                && #[trigger] events[b] == RunEvent::ActivitiesStarted,
        phase_after(Phase::Constructed, events) == Phase::Authenticated ==> exists|a: int|
            0 <= a < events.len() && #[trigger] events[a] == RunEvent::AuthSucceeded,
        phase_after(Phase::Fatal, events) == Phase::Fatal,
        phase_after(Phase::Exited, events) == Phase::Exited,
    decreases events.len(),
{
    if events.len() > 0 {
        let prefix = events.drop_last();
        lemma_run_order(prefix);
        let before = phase_after(Phase::Constructed, prefix);
        if phase_after(Phase::Constructed, events) == Phase::Running {
            if before == Phase::Running {
                let (a, b) = choose|a: int, b: int|
                    0 <= a < b < prefix.len() && #[trigger] prefix[a] == RunEvent::AuthSucceeded
                        && #[trigger] prefix[b] == RunEvent::ActivitiesStarted;
                assert(events[a] == prefix[a] && events[b] == prefix[b]);
            } else {
                let a = choose|a: int| 0 <= a < prefix.len() && #[trigger] prefix[a] == RunEvent::AuthSucceeded;
                assert(events[a] == prefix[a]);
                assert(events[events.len() - 1] == RunEvent::ActivitiesStarted);
            }
        }
        if phase_after(Phase::Constructed, events) == Phase::Authenticated {
            assert(events[events.len() - 1] == RunEvent::AuthSucceeded);
        }
    }
}

} // verus!
