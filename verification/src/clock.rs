//! Instants and durations of a free-running 32-bit tick counter. The counter
//! wraps, so all arithmetic here is modulo 2^32.

use vstd::prelude::*;
use vstd::arithmetic::div_mod::*;

verus! {

/// The number of values the counter takes before it wraps.
pub open spec fn counter_span() -> int {
    0x1_0000_0000
}

/// `x` brought into the counter's range.
pub open spec fn wrap_ticks(x: int) -> u32 {
    (x % counter_span()) as u32
}

/// A reading of the counter.
#[derive(Clone, Copy, Debug, PartialEq, Eq, Structural)]
pub struct Instant {
    pub ticks: u32,
}

/// A number of ticks.
#[derive(Clone, Copy, Debug, PartialEq, Eq, Structural)]
pub struct Duration {
    pub ticks: u32,
}

impl Instant {
    /// The instant `d` after this one.
    pub open spec fn after(self, d: Duration) -> Instant {
        Instant { ticks: wrap_ticks(self.ticks + d.ticks) }
    }

    /// The ticks that pass from `earlier` to this instant.
    pub open spec fn elapsed(self, earlier: Instant) -> Duration {
        Duration { ticks: wrap_ticks(self.ticks - earlier.ticks) }
    }

    /// Whether this instant is at or past `deadline`. The counter's range is
    /// split in two: a deadline up to half the range behind counts as
    /// reached, anything else as still ahead.
    pub open spec fn reached(self, deadline: Instant) -> bool {
        wrap_ticks(self.ticks - deadline.ticks) < 0x8000_0000
    }

    /// The instant `d` after this one.
    pub fn plus(self, d: Duration) -> (r: Instant)
        ensures
            r == self.after(d),
    {
        Instant { ticks: self.ticks.wrapping_add(d.ticks) }
    }

    /// The ticks that pass from `earlier` to this instant.
    pub fn since(self, earlier: Instant) -> (d: Duration)
        ensures
            d == self.elapsed(earlier),
    {
        Duration { ticks: self.ticks.wrapping_sub(earlier.ticks) }
    }

    /// Whether this instant is at or past `deadline`.
    pub fn has_reached(self, deadline: Instant) -> (b: bool)
        ensures
            b == self.reached(deadline),
    {
        self.ticks.wrapping_sub(deadline.ticks) < 0x8000_0000
    }
}

/// The deadline of the `k`-th run of a periodic task whose first run is due
/// at `first`: each deadline is the one before it plus the period.
pub open spec fn kth_deadline(first: Instant, period: Duration, k: nat) -> Instant
    decreases k,
{
    if k == 0 {
        first
    } else {
        kth_deadline(first, period, (k - 1) as nat).after(period)
    }
}

/// The deadline that a periodic task sets when it runs: one period after
/// the deadline that released it. The instant at which the task was actually
/// dispatched plays no part.
pub open spec fn next_deadline(released_by: Instant, dispatched_at: Instant, period: Duration) -> Instant {
    released_by.after(period)
}

/// The deadline that a periodic task has set after it ran once for each of
/// the instants in `dispatched`, the times at which it was actually started.
pub open spec fn deadline_after_runs(first: Instant, period: Duration, dispatched: Seq<Instant>) -> Instant
    decreases dispatched.len(),
{
    if dispatched.len() == 0 {
        first
    } else {
        next_deadline(
            deadline_after_runs(first, period, dispatched.drop_last()),
            dispatched.last(),
            period,
        )
    }
}

/// Adding a duration and then measuring from the start gives the duration
/// back, also across the wrap.
pub proof fn lemma_after_elapsed(t: Instant, d: Duration)
    ensures
        t.after(d).elapsed(t) == d,
{
    let m = counter_span();
    lemma_sub_mod_noop((t.ticks + d.ticks) as int, t.ticks as int, m);
    lemma_small_mod(t.ticks as nat, m as nat);
    lemma_small_mod(d.ticks as nat, m as nat);
}

/// Measuring from `earlier` and adding that to `earlier` gives the instant
/// back, also across the wrap.
pub proof fn lemma_elapsed_after(t: Instant, earlier: Instant)
    ensures
        earlier.after(t.elapsed(earlier)) == t,
{
    let m = counter_span();
    lemma_add_mod_noop(earlier.ticks as int, (t.ticks - earlier.ticks) as int, m);
    lemma_small_mod(t.ticks as nat, m as nat);
    lemma_small_mod(earlier.ticks as nat, m as nat);
}

/// An instant has reached a deadline set `d` before it exactly when `d` is
/// less than half the counter's range.
pub proof fn lemma_reached_after(t: Instant, d: Duration)
    ensures
        t.after(d).reached(t) <==> d.ticks < 0x8000_0000,
{
    lemma_after_elapsed(t, d);
}

/// Phase lock: the `k`-th deadline is the first plus `k` periods, modulo
/// the counter's range. It depends on nothing else, so late dispatches do
/// not shift it.
pub proof fn lemma_kth_deadline(first: Instant, period: Duration, k: nat)
    ensures
        kth_deadline(first, period, k).ticks == wrap_ticks(first.ticks + k * period.ticks),
    decreases k,
{
    let m = counter_span();
    if k == 0 {
        assert(k * period.ticks == 0) by (nonlinear_arith)
            requires
                k == 0,
        ;
        lemma_small_mod(first.ticks as nat, m as nat);
    } else {
        let j = (k - 1) as nat;
        lemma_kth_deadline(first, period, j);
        let x = first.ticks + j * period.ticks;
        assert(first.ticks + k * period.ticks == x + period.ticks) by (nonlinear_arith)
            requires
                x == first.ticks + j * period.ticks,
                k == j + 1,
        ;
        lemma_add_mod_noop(x, period.ticks as int, m);
        lemma_small_mod(period.ticks as nat, m as nat);
    }
}

/// Phase lock under jitter: however late each run was dispatched, after
/// `k` runs the deadline is the first plus `k` periods, modulo the counter's
/// range.
pub proof fn lemma_phase_lock(first: Instant, period: Duration, dispatched: Seq<Instant>)
    ensures
        deadline_after_runs(first, period, dispatched) == kth_deadline(
            first,
            period,
            dispatched.len(),
        ),
        deadline_after_runs(first, period, dispatched).ticks == wrap_ticks(
            first.ticks + dispatched.len() * period.ticks,
        ),
    decreases dispatched.len(),
{
    if dispatched.len() > 0 {
        lemma_phase_lock(first, period, dispatched.drop_last());
    }
    lemma_kth_deadline(first, period, dispatched.len());
}

} // verus!
