//! The daemon's decisions about the audio router: how long to wait between
//! the attempts at finding the ALSA nodes at startup, and what to do with
//! the router on each turn of the main loop.
//!
//! The daemon performs what is decided here: it runs the discovery, sleeps,
//! and starts, stops and polls the `pw-loopback` processes.

use vstd::prelude::*;

verus! {

/// Attempts at finding the ALSA nodes before the daemon starts without an
/// audio router.
pub const STARTUP_DISCOVERY_ATTEMPTS: u32 = 10;

/// Wait before the second startup attempt, in seconds.
pub const FIRST_RETRY_DELAY_SECS: u64 = 1;

/// Longest wait between two startup attempts, in seconds.
pub const MAX_RETRY_DELAY_SECS: u64 = 16;

/// Seconds between two attempts at finding the ALSA nodes once the daemon
/// runs without a router.
pub const DISCOVERY_RETRY_SECS: u64 = 30;

/// The wait after `delay`: twice as long, but never longer than
/// `MAX_RETRY_DELAY_SECS`.
pub open spec fn doubled_delay(delay: u64) -> u64 {
    if 2 * delay < MAX_RETRY_DELAY_SECS {
        (2 * delay) as u64
    } else {
        MAX_RETRY_DELAY_SECS
    }
}

/// What the daemon does after a startup attempt at finding the ALSA nodes.
#[derive(Debug, Clone, Copy, PartialEq, Eq, Structural)]
pub enum StartupStep {
    /// The nodes were found: start the router with them.
    Found,
    /// A shutdown was requested: stop looking.
    Stop,
    /// Wait `wait_secs` seconds; then try again when `retry` holds, or go on
    /// without a router. `next_delay` is the wait after the next failure.
    Wait { wait_secs: u64, retry: bool, next_delay: u64 },
}

/// The decision after startup attempt `attempt` (from 1), made with the
/// current wait `delay_secs`: `found` tells whether it found the nodes,
/// `running` whether the daemon is still to run.
pub fn startup_step(attempt: u32, delay_secs: u64, found: bool, running: bool) -> (step: StartupStep)
    requires
        1 <= attempt <= STARTUP_DISCOVERY_ATTEMPTS,
    ensures
        found ==> step == StartupStep::Found,
        !found && !running ==> step == StartupStep::Stop,
        !found && running ==> step == (StartupStep::Wait {
            wait_secs: delay_secs,
            retry: attempt < STARTUP_DISCOVERY_ATTEMPTS,
            next_delay: doubled_delay(delay_secs),
        }),
{
    if found {
        StartupStep::Found
    } else if !running {
        StartupStep::Stop
    } else {
        let next_delay = if delay_secs < MAX_RETRY_DELAY_SECS / 2 {
            2 * delay_secs
        } else {
            MAX_RETRY_DELAY_SECS
        };
        StartupStep::Wait {
            wait_secs: delay_secs,
            retry: attempt < STARTUP_DISCOVERY_ATTEMPTS,
            next_delay,
        }
    }
}

/// The state of the audio router as the main loop sees it.
#[derive(Debug, Clone, Copy, PartialEq, Eq, Structural)]
pub enum RouterStatus {
    /// No router: the ALSA nodes were not found yet.
    Absent,
    /// All loopback processes of the router are alive.
    Running,
    /// At least one loopback process has exited.
    Died,
}

/// What the main loop does with the router on one turn.
#[derive(Debug, Clone, Copy, PartialEq, Eq, Structural)]
pub enum RouterAction {
    /// Leave it as it is.
    Keep,
    /// Stop what is left of it and start it again.
    Restart,
    /// Look for the ALSA nodes again, start a router if they are there, and
    /// look next after `DISCOVERY_RETRY_SECS`.
    Discover,
}

/// The decision for one turn of the main loop: a dead router is restarted;
/// without a router the nodes are looked for again once the retry interval
/// has passed (`discovery_due`).
pub fn router_action(status: RouterStatus, discovery_due: bool) -> (action: RouterAction)
    ensures
        action == (match status {
            RouterStatus::Running => RouterAction::Keep,
            RouterStatus::Died => RouterAction::Restart,
            RouterStatus::Absent => if discovery_due {
                RouterAction::Discover
            } else {
                RouterAction::Keep
            },
        }),
{
    match status {
        RouterStatus::Running => RouterAction::Keep,
        RouterStatus::Died => RouterAction::Restart,
        RouterStatus::Absent => if discovery_due {
            RouterAction::Discover
        } else {
            RouterAction::Keep
        },
    }
}

/// The startup waits never exceed `MAX_RETRY_DELAY_SECS` once they start
/// below it, and they grow until they reach it.
pub proof fn lemma_retry_delay_bounded(delay: u64)
    requires
        delay <= MAX_RETRY_DELAY_SECS,
    ensures
        doubled_delay(delay) <= MAX_RETRY_DELAY_SECS,
        delay > 0 ==> (doubled_delay(delay) > delay || doubled_delay(delay) == MAX_RETRY_DELAY_SECS),
{
}

} // verus!
