//! The periodic resetter: on every tick of its timer it drains the counter
//! and reports what it found; when the timer gives out it stops for good.
//!
//! The timer itself, the clock and the log belong to the host. The host
//! feeds each timer event to `Resetter::step` and carries out the action
//! that comes back.

use crate::counter::Counter;
use crate::decimal::{decimal, push_decimal};
use vstd::prelude::*;
use vstd::string::StringExecFns;

verus! {

/// Seconds between two resets.
pub const RESET_INTERVAL_SECS: u64 = 60;

/// Where the resetter stands between two timer events. Draining, the third
/// station of its cycle, begins and ends inside one `step`, so it is never
/// seen from outside.
#[derive(Clone, Copy, Debug, PartialEq, Eq)]
pub enum Phase {
    /// Waiting for the next tick.
    Waiting,
    /// The timer gave out; nothing more will be reported.
    Stopped,
}

/// What the timer has to say.
#[derive(Clone, Copy, Debug, PartialEq, Eq)]
pub enum TimerEvent {
    /// An interval has passed; `now` is the wall clock in seconds since the
    /// Unix epoch.
    Tick { now: u64 },
    /// The timer is exhausted or failed.
    Exhausted,
}

/// One interval's reading.
#[derive(Clone, Copy, Debug, PartialEq, Eq)]
pub struct Report {
    /// Seconds since the Unix epoch at which the counter was drained.
    pub timestamp: u64,
    /// Hits counted during the interval.
    pub throughput: usize,
}

/// What the host is to do after a step.
#[derive(Clone, Copy, Debug, PartialEq, Eq)]
pub enum Action {
    /// Log this report and wait for the next tick.
    Emit(Report),
    /// End the activity, silently.
    Stop,
}

/// The text of a report's log line: timestamp, colon, space, throughput.
pub open spec fn log_line_text(timestamp: nat, throughput: nat) -> Seq<char> {
    decimal(timestamp) + seq![':', ' '] + decimal(throughput)
}

impl Report {
    /// The log line for this report, `<unix-timestamp>: <throughput>`.
    pub fn log_line(&self) -> (line: String)
        ensures
            line@ == log_line_text(self.timestamp as nat, self.throughput as nat),
    {
        let mut line = String::new();
        push_decimal(&mut line, self.timestamp);
        line.append(": ");
        push_decimal(&mut line, self.throughput as u64);
        proof {
            reveal_strlit(": ");
            assert(": "@ =~= seq![':', ' ']);
            assert(line@ =~= log_line_text(self.timestamp as nat, self.throughput as nat));
        }
        line
    }
}

/// The resetter's state.
#[derive(Debug)]
pub struct Resetter {
    phase: Phase,
}

impl Resetter {
    /// Where the resetter stands.
    pub closed spec fn phase(&self) -> Phase {
        self.phase
    }

    /// A resetter waiting for its first tick.
    pub fn new() -> (resetter: Self)
        ensures
            resetter.phase() == Phase::Waiting,
    {
        Resetter { phase: Phase::Waiting }
    }

    /// Whether the resetter has stopped.
    pub fn is_stopped(&self) -> (stopped: bool)
        ensures
            stopped <==> self.phase() == Phase::Stopped,
    {
        match self.phase {
            Phase::Waiting => false,
            Phase::Stopped => true,
        }
    }

    /// Drains the counter into a report stamped `now`.
    fn drain(counter: &mut Counter, now: u64) -> (report: Report)
        ensures
            final(counter)@ == 0,
            report.timestamp == now,
            report.throughput as nat == old(counter)@,
    {
        let throughput: usize = counter.reset_and_take();
        Report { timestamp: now, throughput }
    }

    /// Takes one timer event.
    ///
    /// While waiting, a tick drains the counter: the counter is left at zero
    /// and the report carries the tick's timestamp and the value the counter
    /// held; the resetter goes back to waiting. While waiting, an exhausted
    /// timer stops the resetter and leaves the counter alone. Once stopped,
    /// every event is answered with `Stop` and nothing changes.
    pub fn step(&mut self, counter: &mut Counter, event: TimerEvent) -> (action: Action)
        ensures
            match (old(self).phase(), event) {
                (Phase::Waiting, TimerEvent::Tick { now }) => {
                    &&& final(self).phase() == Phase::Waiting
                    &&& final(counter)@ == 0
                    &&& action matches Action::Emit(report)
                    &&& report.timestamp == now
                    &&& report.throughput as nat == old(counter)@
                },
                (Phase::Waiting, TimerEvent::Exhausted) => {
                    &&& final(self).phase() == Phase::Stopped
                    &&& final(counter)@ == old(counter)@
                    &&& action == Action::Stop
                },
                (Phase::Stopped, _) => {
                    &&& final(self).phase() == Phase::Stopped
                    &&& final(counter)@ == old(counter)@
                    &&& action == Action::Stop
                },
            },
    {
        match self.phase {
            Phase::Waiting => match event {
                TimerEvent::Tick { now } => Action::Emit(Self::drain(counter, now)),
                TimerEvent::Exhausted => {
                    self.phase = Phase::Stopped;
                    Action::Stop
                },
            },
            Phase::Stopped => Action::Stop,
        }
    }
}

} // verus!
