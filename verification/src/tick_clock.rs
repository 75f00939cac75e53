//! Pacing of the driver loop: when enough time has passed for a tick, and when
//! the loop should yield instead.

use vstd::prelude::*;

verus! {

/// A tick is real only when more than this many nanoseconds have passed since
/// the last one: one millisecond.
pub const MIN_TICK_NANOS: u64 = 1_000_000;

/// What the driver loop does next.
#[derive(Clone, Copy, Debug, PartialEq, Eq, Structural)]
pub enum Step {
    /// The run condition no longer holds: the loop ends.
    Stop,
    /// Too little time has passed: give up about a millisecond, then look again.
    Yield,
    /// A real tick, with the time that has passed since the last one.
    Tick { elapsed_nanos: u64 },
}

/// The time from the reading `last` to the reading `now`, in nanoseconds. It is
/// negative when the clock has gone backwards.
pub open spec fn elapsed(last: u64, now: u64) -> int {
    now - last
}

/// Whether a tick is due at the reading `now`, the last one having been at
/// `last`.
pub open spec fn tick_is_due(last: u64, now: u64) -> bool {
    elapsed(last, now) > MIN_TICK_NANOS
}

/// The step that the loop takes at the reading `now`.
pub open spec fn step_at(running: bool, last: u64, now: u64) -> Step {
    if !running {
        Step::Stop
    } else if tick_is_due(last, now) {
        Step::Tick { elapsed_nanos: (now - last) as u64 }
    } else {
        Step::Yield
    }
}

/// The reference point after that step: it moves to `now` with a real tick, and
/// stays where it was otherwise.
pub open spec fn reference_after(running: bool, last: u64, now: u64) -> u64 {
    if running && tick_is_due(last, now) {
        now
    } else {
        last
    }
}

/// The steps that the loop takes at a run of readings, the run condition
/// holding at each of them.
pub open spec fn steps_at(last: u64, readings: Seq<u64>) -> Seq<Step>
    decreases readings.len(),
{
    if readings.len() == 0 {
        Seq::empty()
    } else {
        seq![step_at(true, last, readings.first())] + steps_at(
            reference_after(true, last, readings.first()),
            readings.drop_first(),
        )
    }
}

/// Calls `time::precise_time_ns`, which reads a high-resolution counter in
/// nanoseconds since an epoch that is not specified. Nothing is claimed of the
/// reading.
#[verifier::external_body]
fn precise_nanos() -> u64 {
    time::precise_time_ns()
}

/// The reference point of the last tick, as a reading of the precise clock.
pub struct TickClock {
    last_update: u64,
}

impl TickClock {
    /// The reading at which the last tick took place.
    pub closed spec fn last_update(&self) -> u64 {
        self.last_update
    }

    /// A clock whose last tick was at the reading `now`.
    pub fn starting_at(now: u64) -> (clock: Self)
        ensures
            clock.last_update() == now,
    {
        TickClock { last_update: now }
    }

    /// A clock whose last tick is the present moment.
    pub fn start() -> (clock: Self) {
        Self::starting_at(precise_nanos())
    }

    /// Decides the next step at the reading `now`, and moves the reference point
    /// if the step is a real tick.
    pub fn observe(&mut self, running: bool, now: u64) -> (step: Step)
        ensures
            step == step_at(running, old(self).last_update(), now),
            final(self).last_update() == reference_after(running, old(self).last_update(), now),
    {
        if !running {
            return Step::Stop;
        }
        if now > self.last_update && now - self.last_update > MIN_TICK_NANOS {
            let elapsed_nanos: u64 = now - self.last_update;
            self.last_update = now;
            Step::Tick { elapsed_nanos }
        } else {
            Step::Yield
        }
    }

    /// Reads the precise clock and decides the next step at that reading.
    pub fn poll(&mut self, running: bool) -> (step: Step)
        ensures
            exists|now: u64|
                step == #[trigger] step_at(running, old(self).last_update(), now)
                    && final(self).last_update() == reference_after(
                    running,
                    old(self).last_update(),
                    now,
                ),
    {
        let now: u64 = precise_nanos();
        let step = self.observe(running, now);
        assert(step == step_at(running, old(self).last_update(), now));
        step
    }
}

/// When no more than the minimum has passed since the last tick, the loop
/// yields and the reference point stays where it was.
pub proof fn short_interval_yields(last: u64, now: u64)
    requires
        elapsed(last, now) <= MIN_TICK_NANOS,
    ensures
        step_at(true, last, now) == Step::Yield,
        reference_after(true, last, now) == last,
{
}

/// A real tick carries the time that has passed, which is more than the minimum
/// and so more than nothing, and moves the reference point to the reading.
pub proof fn tick_carries_elapsed_time(last: u64, now: u64)
    requires
        step_at(true, last, now) is Tick,
    ensures
        step_at(true, last, now)->elapsed_nanos == elapsed(last, now),
        step_at(true, last, now)->elapsed_nanos > MIN_TICK_NANOS,
        step_at(true, last, now)->elapsed_nanos > 0,
        reference_after(true, last, now) == now,
{
}

/// Over any run of readings, every real tick carries a time above the minimum,
/// and so above nothing.
pub proof fn every_tick_is_positive(last: u64, readings: Seq<u64>, place: int)
    requires
        0 <= place < readings.len(),
        steps_at(last, readings)[place] is Tick,
    ensures
        steps_at(last, readings).len() == readings.len(),
        steps_at(last, readings)[place]->elapsed_nanos > MIN_TICK_NANOS,
        steps_at(last, readings)[place]->elapsed_nanos > 0,
    decreases readings.len(),
{
    steps_match_readings(last, readings);
    if place > 0 {
        let next = reference_after(true, last, readings.first());
        steps_match_readings(next, readings.drop_first());
        every_tick_is_positive(next, readings.drop_first(), place - 1);
    }
}

/// The loop takes one step at each reading.
pub proof fn steps_match_readings(last: u64, readings: Seq<u64>)
    ensures
        steps_at(last, readings).len() == readings.len(),
    decreases readings.len(),
{
    if readings.len() > 0 {
        steps_match_readings(reference_after(true, last, readings.first()), readings.drop_first());
    }
}

} // verus!
