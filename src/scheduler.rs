//! The frame scheduler: the decisions of a host-driven frame loop.
//!
//! The host runs the loop. It calls `start` and `stop`, and `tick` once per
//! display frame with a timestamp in microseconds; each call says what the host
//! must do next (request or cancel a frame, advance the scene by a step).
use vstd::prelude::*;

verus! {

/// What a tick asks of the host.
#[derive(Clone, Copy, Debug, PartialEq, Eq, Structural)]
pub enum Tick {
    /// The tick came while no frame was pending: do nothing.
    Ignored,
    /// The first tick after a start: the timestamp is the clock's baseline.
    /// Request the next frame; nothing moves.
    Baseline,
    /// Advance the scene by this many microseconds, render it, and request
    /// the next frame.
    Advance(u64),
}

#[derive(Clone, Copy, Debug, PartialEq, Eq, Structural)]
pub struct Scheduler {
    pub running: bool,
    /// A frame request is outstanding with the host.
    pub pending: bool,
    /// Timestamp of the last tick since the clock was reset, if any.
    pub last_timestamp: Option<u64>,
}

/// The scheduler before any start.
pub open spec fn idle() -> Scheduler {
    Scheduler { running: false, pending: false, last_timestamp: None }
}

/// The scheduler after a stop.
pub open spec fn stopped(s: Scheduler) -> Scheduler {
    Scheduler { running: false, pending: false, ..s }
}

/// Time between two timestamps; a timestamp before the last one counts as no time.
pub open spec fn elapsed(last: u64, now: u64) -> u64 {
    if now >= last {
        (now - last) as u64
    } else {
        0
    }
}

/// The state a tick leaves and what it asks of the host.
pub open spec fn ticked(s: Scheduler, timestamp: u64) -> (Scheduler, Tick) {
    if !(s.running && s.pending) {
        (s, Tick::Ignored)
    } else {
        let next = Scheduler { last_timestamp: Some(timestamp), ..s };
        match s.last_timestamp {
            None => (next, Tick::Baseline),
            Some(last) => (next, Tick::Advance(elapsed(last, timestamp))),
        }
    }
}

impl Scheduler {
    pub fn new() -> (s: Self)
        ensures
            s == idle(),
    {
        Scheduler { running: false, pending: false, last_timestamp: None }
    }

    pub fn is_running(&self) -> (r: bool)
        ensures
            r == self.running,
    {
        self.running
    }

    pub fn has_pending(&self) -> (r: bool)
        ensures
            r == self.pending,
    {
        self.pending
    }

    /// Starts the loop, resetting the clock. Returns whether the host must
    /// request the first frame: not when already running, which changes nothing.
    pub fn start(&mut self) -> (request: bool)
        ensures
            old(self).running ==> *final(self) == *old(self) && !request,
            !old(self).running ==> request && *final(self) == (Scheduler {
                running: true,
                pending: true,
                last_timestamp: None,
            }),
    {
        if self.running {
            false
        } else {
            self.running = true;
            self.pending = true;
            self.last_timestamp = None;
            true
        }
    }

    /// Stops the loop. Returns whether the host must cancel an outstanding
    /// frame request. Also the way back to idle after a failed render.
    pub fn stop(&mut self) -> (cancel: bool)
        ensures
            *final(self) == stopped(*old(self)),
            cancel == old(self).pending,
    {
        let cancel = self.pending;
        self.running = false;
        self.pending = false;
        cancel
    }

    /// A display frame fired at `timestamp`. A tick while stopped, or with no
    /// request outstanding, is ignored; the first one after a start sets the
    /// baseline; later ones advance by the time since the previous tick.
    pub fn tick(&mut self, timestamp: u64) -> (r: Tick)
        ensures
            (*final(self), r) == ticked(*old(self), timestamp),
    {
        if !(self.running && self.pending) {
            return Tick::Ignored;
        }
        let previous = self.last_timestamp;
        self.last_timestamp = Some(timestamp);
        match previous {
            None => Tick::Baseline,
            Some(last) => {
                if timestamp >= last {
                    Tick::Advance(timestamp - last)
                } else {
                    Tick::Advance(0)
                }
            },
        }
    }
}

/// Stopping is idempotent: a second stop changes nothing and finds no
/// request to cancel, and a stop before any start leaves the scheduler idle.
pub proof fn lemma_stop_idempotent(s: Scheduler)
    ensures
        stopped(stopped(s)) == stopped(s),
        !stopped(s).running && !stopped(s).pending,
        stopped(idle()) == idle(),
{
}

/// Once stopped, no tick does anything until the next start.
pub proof fn lemma_no_tick_after_stop(s: Scheduler, timestamp: u64)
    ensures
        ticked(stopped(s), timestamp) == (stopped(s), Tick::Ignored),
{
}

} // verus!
