//! The time between samples.
use vstd::prelude::*;

verus! {

/// The step of the sample rate, in milliseconds.
pub const TICK_DELTA: u64 = 50;

/// The longest time between samples that the keys lead to, in milliseconds.
pub const MAX_TICK: u64 = 2500;

/// A longer time between samples. From the shortest one it goes to the first step.
pub open spec fn slower(tick_ms: int) -> int {
    if tick_ms == 1 {
        TICK_DELTA as int
    } else if tick_ms + TICK_DELTA < MAX_TICK {
        tick_ms + TICK_DELTA
    } else {
        MAX_TICK as int
    }
}

/// A shorter time between samples, but at least a millisecond.
pub open spec fn faster(tick_ms: int) -> int {
    if tick_ms - TICK_DELTA > 1 {
        tick_ms - TICK_DELTA
    } else {
        1
    }
}

/// Makes the time between samples longer.
pub fn slow_down(tick_ms: u64) -> (r: u64)
    ensures
        r == slower(tick_ms as int),
{
    if tick_ms == 1 {
        TICK_DELTA
    } else if tick_ms < MAX_TICK - TICK_DELTA {
        tick_ms + TICK_DELTA
    } else {
        MAX_TICK
    }
}

/// Makes the time between samples shorter.
pub fn speed_up(tick_ms: u64) -> (r: u64)
    ensures
        r == faster(tick_ms as int),
{
    if tick_ms > TICK_DELTA + 1 {
        tick_ms - TICK_DELTA
    } else {
        1
    }
}

/// A length of time, in seconds and nanoseconds.
#[derive(Clone, Copy, PartialEq, Eq, Debug)]
pub struct TimeSpan {
    pub secs: u64,
    pub nanos: u32,
}

/// The nanoseconds of a second.
pub const NANOS_PER_SEC: u128 = 1_000_000_000;

/// The nanoseconds of a millisecond.
pub const NANOS_PER_MILLI: u128 = 1_000_000;

impl TimeSpan {
    /// The length in nanoseconds.
    pub open spec fn total(self) -> int {
        self.secs * NANOS_PER_SEC + self.nanos
    }
}

fn total_nanos(span: TimeSpan) -> (n: u128)
    ensures
        n == span.total(),
{
    span.secs as u128 * NANOS_PER_SEC + span.nanos as u128
}

/// What is left of the time between samples, in nanoseconds.
pub open spec fn time_left(tick_ms: int, elapsed: int) -> int {
    if elapsed < tick_ms * NANOS_PER_MILLI {
        tick_ms * NANOS_PER_MILLI - elapsed
    } else {
        0
    }
}

/// Whether the time between samples has passed. `elapsed` is in nanoseconds.
pub open spec fn is_due(tick_ms: int, elapsed: int) -> bool {
    elapsed >= tick_ms * NANOS_PER_MILLI
}

/// How long to wait for a key.
pub fn poll_timeout(tick_ms: u64, elapsed: TimeSpan) -> (left: TimeSpan)
    ensures
        left.nanos < NANOS_PER_SEC,
        left.total() == time_left(tick_ms as int, elapsed.total()),
{
    let tick: u128 = tick_ms as u128 * NANOS_PER_MILLI;
    let left: u128 = tick.saturating_sub(total_nanos(elapsed));
    TimeSpan { secs: (left / NANOS_PER_SEC) as u64, nanos: (left % NANOS_PER_SEC) as u32 }
}

/// Whether the time between samples has passed.
pub fn sample_due(tick_ms: u64, elapsed: TimeSpan) -> (due: bool)
    ensures
        due == is_due(tick_ms as int, elapsed.total()),
{
    total_nanos(elapsed) >= tick_ms as u128 * NANOS_PER_MILLI
}

/// A wait of the time that is left ends when a sample is due, and not before.
pub proof fn the_wait_ends_when_a_sample_is_due(tick_ms: int, elapsed: int, wait: int)
    requires
        0 <= wait,
    ensures
        is_due(tick_ms, elapsed) <==> time_left(tick_ms, elapsed) == 0,
        is_due(tick_ms, elapsed + wait) <==> wait >= time_left(tick_ms, elapsed),
{
}

/// A step up ends between the first step and the longest time. A step down ends no lower
/// than a millisecond, and lower than it began unless it began there.
pub proof fn rate_stays_in_bounds(tick_ms: int)
    requires
        tick_ms >= 0,
    ensures
        TICK_DELTA <= slower(tick_ms) <= MAX_TICK,
        1 <= faster(tick_ms),
        tick_ms > 1 ==> faster(tick_ms) < tick_ms,
{
}

/// A step down undoes a step up, below the longest time.
pub proof fn faster_undoes_slower(tick_ms: int)
    requires
        1 <= tick_ms <= MAX_TICK - TICK_DELTA,
    ensures
        faster(slower(tick_ms)) == tick_ms,
{
}

/// A step up undoes a step down, from every rate at which the step down is a full one and
/// does not end on the shortest time by chance.
pub proof fn slower_undoes_faster(tick_ms: int)
    requires
        tick_ms == TICK_DELTA || TICK_DELTA + 2 <= tick_ms <= MAX_TICK,
    ensures
        slower(faster(tick_ms)) == tick_ms,
{
}

/// A step is 50 milliseconds. Steps up end at 2500 milliseconds and steps down at 1; from 1
/// the first step up goes to 50.
pub proof fn a_step_is_fifty_milliseconds(tick_ms: int)
    requires
        tick_ms >= 0,
    ensures
        tick_ms == 1 ==> slower(tick_ms) == 50,
        tick_ms != 1 && tick_ms <= 2450 ==> slower(tick_ms) - tick_ms == 50,
        tick_ms > 2450 ==> slower(tick_ms) == 2500,
        tick_ms > 50 ==> tick_ms - faster(tick_ms) == 50,
        tick_ms <= 50 ==> faster(tick_ms) == 1,
{
}

/// A sample is due once as many milliseconds as the time between samples have passed, and
/// until then the wait is what is missing.
pub proof fn samples_are_due_after_the_time_between_samples(tick_ms: u64, elapsed: TimeSpan)
    ensures
        ({
            let passed = elapsed.secs * 1_000_000_000 + elapsed.nanos;
            let tick = tick_ms * 1_000_000;
            &&& is_due(tick_ms as int, elapsed.total()) <==> passed >= tick
            &&& passed <= tick ==> passed + time_left(tick_ms as int, elapsed.total()) == tick
            &&& passed >= tick ==> time_left(tick_ms as int, elapsed.total()) == 0
        }),
{
}

} // verus!
