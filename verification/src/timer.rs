//! The elapsed-time ticker.
//!
//! A one-second ticker reports seconds since its start while running;
//! stopping it emits a one-shot stop event and then it ticks silently.
//! The loop that sleeps and receives lives outside; these transitions
//! decide what each tick or control message does.

use vstd::prelude::*;
use crate::comms::Event;

verus! {

/// Control messages for the ticker, relayed on their own channel so the
/// clock cannot be starved by store operations.
#[derive(Clone, Copy, Debug, PartialEq, Eq, Structural)]
pub enum TimerCommands {
    /// Reset the start instant and run.
    Start,
    /// Stop running and clear the displayed value.
    Reset,
}

/// The ticker's state: whether it is running and when it started.
pub struct TimerTask {
    pub running: bool,
    pub started: u64,
}

impl TimerTask {
    /// A ticker that starts running at `now`.
    pub fn new(now: u64) -> (r: TimerTask)
        ensures
            r.running,
            r.started == now,
    {
        TimerTask { running: true, started: now }
    }

    /// Apply a control message at time `now`: `Start` begins a fresh
    /// run, `Reset` stops the clock and emits the one-shot stop event.
    pub fn on_command(&mut self, cmd: TimerCommands, now: u64) -> (r: Option<Event>)
        ensures
            match cmd {
                TimerCommands::Start => final(self).running && final(self).started == now && r
                    is None,
                TimerCommands::Reset => !final(self).running && final(self).started == old(
                    self,
                ).started && (r matches Some(Event::StopTick)),
            },
    {
        match cmd {
            TimerCommands::Start => {
                self.running = true;
                self.started = now;
                None
            },
            TimerCommands::Reset => {
                self.running = false;
                Some(Event::StopTick)
            },
        }
    }

    /// What one tick at time `now` reports: the elapsed seconds while
    /// running, nothing while stopped.
    pub fn on_tick(&self, now: u64) -> (r: Option<Event>)
        ensures
            self.running ==> (r matches Some(Event::Tick(s)) && s == if now >= self.started {
                (now - self.started) as u64
            } else {
                0u64
            }),
            !self.running ==> r is None,
    {
        if self.running {
            let elapsed = if now >= self.started {
                now - self.started
            } else {
                0
            };
            Some(Event::Tick(elapsed))
        } else {
            None
        }
    }
}

} // verus!
