//! Decisions of the bridge launcher: start the local Hydroxide bridge when it is not
//! already serving IMAP, wait for it to come up, and stop it on exit only when this
//! process started it.

use vstd::prelude::*;

verus! {

/// How many times readiness is probed after a start.
pub const READY_PROBES: u32 = 30;

/// Pause between two readiness probes, in milliseconds.
pub const PROBE_INTERVAL_MS: u64 = 500;

/// What to do after the first probe of the bridge's IMAP port.
#[derive(Debug, PartialEq, Eq)]
pub enum LaunchDecision {
    /// Something already listens: leave it alone and remember nothing.
    AlreadyRunning,
    /// Nothing listens: start the bridge.
    Start,
}

/// What to do after one readiness probe of a bridge this process started.
#[derive(Debug, PartialEq, Eq)]
pub enum ReadinessStep {
    /// The port answers; about `waited_ms` milliseconds have passed since the start.
    Ready { waited_ms: u64 },
    /// Sleep `sleep_ms` milliseconds and probe again.
    SleepThenProbe { sleep_ms: u64 },
    /// Sleep `sleep_ms` milliseconds, then stop waiting: the bridge did not come up.
    SleepThenGiveUp { sleep_ms: u64 },
}

/// Decision after the first probe of the IMAP port.
pub fn launch_decision(port_answers: bool) -> (d: LaunchDecision)
    ensures
        d == (if port_answers { LaunchDecision::AlreadyRunning } else { LaunchDecision::Start }),
{
    if port_answers {
        LaunchDecision::AlreadyRunning
    } else {
        LaunchDecision::Start
    }
}

/// Decision after readiness probe number `attempt` (counted from 0) of a started
/// bridge: probes are `PROBE_INTERVAL_MS` apart and there are `READY_PROBES` of them.
pub fn readiness_step(attempt: u32, port_answers: bool) -> (s: ReadinessStep)
    requires
        attempt < READY_PROBES,
    ensures
        s == (if port_answers {
            ReadinessStep::Ready { waited_ms: (attempt * PROBE_INTERVAL_MS) as u64 }
        } else if attempt + 1 < READY_PROBES {
            ReadinessStep::SleepThenProbe { sleep_ms: PROBE_INTERVAL_MS }
        } else {
            ReadinessStep::SleepThenGiveUp { sleep_ms: PROBE_INTERVAL_MS }
        }),
{
    if port_answers {
        ReadinessStep::Ready { waited_ms: (attempt as u64) * PROBE_INTERVAL_MS }
    } else if attempt + 1 < READY_PROBES {
        ReadinessStep::SleepThenProbe { sleep_ms: PROBE_INTERVAL_MS }
    } else {
        ReadinessStep::SleepThenGiveUp { sleep_ms: PROBE_INTERVAL_MS }
    }
}

/// On exit: hands back the bridge process for stopping when this process started one,
/// and forgets it, so that a second call stops nothing.
pub fn stop_if_we_started<T>(started: &mut Option<T>) -> (to_stop: Option<T>)
    ensures
        to_stop == *old(started),
        *final(started) == None::<T>,
{
    started.take()
}

} // verus!
