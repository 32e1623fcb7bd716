//! The loading gate: a linear ramp from 0 to 100 percent over a fixed
//! time, and a signal, given once, that the ramp is complete.

use crate::timer::total;
use vstd::prelude::*;

verus! {

/// How far the loading has come. Time is in the caller's unit.
#[derive(Clone, Copy, Debug, PartialEq, Eq, Structural)]
pub struct LoadingProgress {
    /// The time accumulated while the loading was not yet complete.
    pub elapsed: u64,
    /// The time after which the loading is complete.
    pub duration: u32,
    /// Whether the completion has been signalled.
    pub announced: bool,
}

/// What can happen to a gate: time passes, or the host asks whether it is
/// to take the loading screen down.
pub enum GateEvent {
    Elapse(u32),
    Poll,
}

/// The share of `duration` that `elapsed` comes to, in whole percent and at
/// most 100.
pub open spec fn percent_of(elapsed: nat, duration: nat) -> nat {
    if elapsed >= duration {
        100
    } else {
        elapsed * 100 / duration
    }
}

/// The time that passes in `events`.
pub open spec fn time_in(events: Seq<GateEvent>) -> nat
    decreases events.len(),
{
    if events.len() == 0 {
        0
    } else {
        time_in(events.drop_last()) + match events.last() {
            GateEvent::Elapse(dt) => dt as nat,
            GateEvent::Poll => 0,
        }
    }
}

/// How often the host asks in `events`.
pub open spec fn polls_in(events: Seq<GateEvent>) -> nat
    decreases events.len(),
{
    if events.len() == 0 {
        0
    } else {
        polls_in(events.drop_last()) + match events.last() {
            GateEvent::Elapse(_) => 0nat,
            GateEvent::Poll => 1nat,
        }
    }
}

impl LoadingProgress {
    /// The progress in percent, from 0 to 100.
    pub open spec fn percent(self) -> nat {
        percent_of(self.elapsed as nat, self.duration as nat)
    }

    /// Whether the progress is 100 percent.
    pub open spec fn complete(self) -> bool {
        self.elapsed >= self.duration
    }

    /// This gate after the time `dt`. A complete gate no longer counts.
    pub open spec fn updated(self, dt: u32) -> LoadingProgress {
        LoadingProgress {
            elapsed: if self.complete() {
                self.elapsed
            } else {
                (self.elapsed + dt) as u64
            },
            duration: self.duration,
            announced: self.announced,
        }
    }

    /// Whether this gate answers a poll with the signal: it is complete and
    /// has not given the signal before.
    pub open spec fn signals(self) -> bool {
        self.complete() && !self.announced
    }

    /// This gate after a poll.
    pub open spec fn polled(self) -> LoadingProgress {
        LoadingProgress {
            elapsed: self.elapsed,
            duration: self.duration,
            announced: self.announced || self.complete(),
        }
    }

    /// This gate after `event`.
    pub open spec fn next(self, event: GateEvent) -> LoadingProgress {
        match event {
            GateEvent::Elapse(dt) => self.updated(dt),
            GateEvent::Poll => self.polled(),
        }
    }

    /// This gate after `events`, in order.
    pub open spec fn run(self, events: Seq<GateEvent>) -> LoadingProgress
        decreases events.len(),
    {
        if events.len() == 0 {
            self
        } else {
            self.run(events.drop_last()).next(events.last())
        }
    }

    /// How many polls in `events` are answered with the signal.
    pub open spec fn signal_count(self, events: Seq<GateEvent>) -> nat
        decreases events.len(),
    {
        if events.len() == 0 {
            0
        } else {
            self.signal_count(events.drop_last()) + if events.last() is Poll && self.run(
                events.drop_last(),
            ).signals() {
                1nat
            } else {
                0nat
            }
        }
    }

    /// A gate at 0 percent that completes after `duration`.
    pub fn new(duration: u32) -> (gate: LoadingProgress)
        ensures
            gate == (LoadingProgress { elapsed: 0, duration, announced: false }),
    {
        LoadingProgress { elapsed: 0, duration, announced: false }
    }

    /// Lets the time `dt` pass. The progress never falls.
    pub fn update(&mut self, dt: u32)
        ensures
            *final(self) == old(self).updated(dt),
            final(self).percent() >= old(self).percent(),
    {
        proof {
            lemma_percent_monotonic(
                self.elapsed as nat,
                (self.elapsed + dt) as nat,
                self.duration as nat,
            );
        }
        if self.elapsed < self.duration as u64 {
            self.elapsed = self.elapsed + dt as u64;
        }
    }

    /// The progress in percent, from 0 to 100.
    pub fn progress(&self) -> (percent: u8)
        ensures
            percent == self.percent(),
            percent <= 100,
            percent == 100 <==> self.complete(),
    {
        proof {
            lemma_percent_range(self.elapsed as nat, self.duration as nat);
        }
        if self.elapsed >= self.duration as u64 {
            100
        } else {
            assert(self.elapsed * 100 <= 0xffff_ffff * 100);
            (self.elapsed * 100 / (self.duration as u64)) as u8
        }
    }

    /// Whether the progress is 100 percent.
    pub fn is_complete(&self) -> (complete: bool)
        ensures
            complete == self.complete(),
    {
        self.elapsed >= self.duration as u64
    }

    /// Asks whether the host is to take the loading screen down now. The
    /// answer is yes on the first poll of a complete gate and no on every
    /// other.
    pub fn poll(&mut self) -> (signal: bool)
        ensures
            signal == old(self).signals(),
            *final(self) == old(self).polled(),
    {
        if self.elapsed >= self.duration as u64 {
            let signal = !self.announced;
            self.announced = true;
            signal
        } else {
            false
        }
    }

    /// The progress is a function of the time that has passed: after any
    /// events it stands at the share of the duration that the time comes
    /// to, however the time was cut into steps and whenever the host
    /// polled.
    pub proof fn lemma_progress(self, events: Seq<GateEvent>)
        ensures
            self.run(events).percent() == percent_of(
                self.elapsed as nat + time_in(events),
                self.duration as nat,
            ),
            self.run(events).duration == self.duration,
            self.run(events).complete() <==> self.elapsed + time_in(events) >= self.duration,
            self.complete() ==> self.run(events).elapsed == self.elapsed,
            !self.run(events).complete() ==> self.run(events).elapsed == self.elapsed + time_in(
                events,
            ),
        decreases events.len(),
    {
        if events.len() > 0 {
            self.lemma_progress(events.drop_last());
        }
    }

    /// The progress never falls and completion is final: whatever happens
    /// to a gate, its progress afterwards is at least what it was, and a
    /// complete gate stays complete.
    pub proof fn lemma_never_falls(self, events: Seq<GateEvent>)
        ensures
            self.run(events).percent() >= self.percent(),
            self.complete() ==> self.run(events).complete(),
    {
        self.lemma_progress(events);
        lemma_percent_monotonic(
            self.elapsed as nat,
            self.elapsed as nat + time_in(events),
            self.duration as nat,
        );
    }

    /// The signal is given at most once: of all the polls in `events` at
    /// most one is answered with it, none if it was given before, and a
    /// gate remembers that it was given.
    pub proof fn lemma_signals_once(self, events: Seq<GateEvent>)
        ensures
            self.signal_count(events) <= 1,
            self.announced ==> self.signal_count(events) == 0,
            self.run(events).announced <==> self.announced || self.signal_count(events) == 1,
            polls_in(events) == 0 ==> self.run(events).announced == self.announced,
        decreases events.len(),
    {
        if events.len() > 0 {
            self.lemma_signals_once(events.drop_last());
        }
    }

    /// The signal is given exactly once: a complete gate that has not
    /// given it gives it on exactly one of the polls that follow, however
    /// many there are.
    pub proof fn lemma_signals_exactly_once(self, events: Seq<GateEvent>)
        requires
            self.complete(),
            !self.announced,
            polls_in(events) >= 1,
        ensures
            self.signal_count(events) == 1,
        decreases events.len(),
    {
        let before = events.drop_last();
        self.lemma_signals_once(before);
        self.lemma_never_falls(before);
        if polls_in(before) >= 1 {
            self.lemma_signals_exactly_once(before);
        }
    }
}

/// The progress grows with the time.
pub proof fn lemma_percent_monotonic(earlier: nat, later: nat, duration: nat)
    requires
        earlier <= later,
    ensures
        percent_of(earlier, duration) <= percent_of(later, duration),
{
    lemma_percent_range(earlier, duration);
    if later < duration {
        assert(earlier * 100 / duration <= later * 100 / duration) by (nonlinear_arith)
            requires
                earlier <= later,
                duration > 0,
        ;
    }
}

/// The progress is at most 100, and is 100 exactly from `duration` on.
pub proof fn lemma_percent_range(elapsed: nat, duration: nat)
    ensures
        percent_of(elapsed, duration) <= 100,
        percent_of(elapsed, duration) == 100 <==> elapsed >= duration,
{
    if elapsed < duration {
        assert(elapsed * 100 / duration < 100) by (nonlinear_arith)
            requires
                elapsed < duration,
        ;
    }
}

} // verus!
