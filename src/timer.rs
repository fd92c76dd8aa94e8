use vstd::prelude::*;
use vstd::arithmetic::div_mod::{lemma_small_mod, lemma_mod_self_0, lemma_add_mod_noop_right};

verus! {

/// A repeating countdown, in nanoseconds. `finished` is a pulse: it holds for
/// the one tick in which an interval ran out, and the timer re-arms itself.
#[derive(Clone, Copy, Debug, PartialEq, Eq, Structural)]
pub struct Timer {
    pub period: u64,
    pub elapsed: u64,
    pub finished: bool,
}

/// The timer after `dt` more nanoseconds have passed.
pub open spec fn tick_of(t: Timer, dt: int) -> Timer {
    let s = t.elapsed + dt;
    Timer { period: t.period, elapsed: (s % (t.period as int)) as u64, finished: s >= t.period }
}

/// A timer with the given period that has not run yet.
pub open spec fn fresh(period: u64) -> Timer {
    Timer { period, elapsed: 0, finished: false }
}

/// The timer after ticking by each delta of `ds` in turn, and how many of
/// those ticks ended with a pulse.
pub open spec fn run(t: Timer, ds: Seq<u64>) -> (Timer, nat)
    decreases ds.len(),
{
    if ds.len() == 0 {
        (t, 0)
    } else {
        let (t1, n) = run(t, ds.drop_last());
        let t2 = tick_of(t1, ds.last() as int);
        (t2, if t2.finished { n + 1 } else { n })
    }
}

pub open spec fn total(ds: Seq<u64>) -> int
    decreases ds.len(),
{
    if ds.len() == 0 {
        0
    } else {
        total(ds.drop_last()) + ds.last()
    }
}

impl Timer {
    /// The period is positive and less than one period has accumulated.
    pub open spec fn wf(self) -> bool {
        &&& self.period > 0
        &&& self.elapsed < self.period
    }

    /// A repeating timer of `period` nanoseconds.
    pub fn new(period: u64) -> (r: Timer)
        requires
            period > 0,
        ensures
            r == fresh(period),
            r.wf(),
    {
        Timer { period, elapsed: 0, finished: false }
    }

    /// Advances the timer by `dt` nanoseconds.
    pub fn tick(&mut self, dt: u64)
        requires
            old(self).wf(),
        ensures
            *final(self) == tick_of(*old(self), dt as int),
            final(self).wf(),
    {
        let s: u128 = self.elapsed as u128 + dt as u128;
        let p: u128 = self.period as u128;
        let e: u128 = s % p;
        assert(e < p);
        self.elapsed = e as u64;
        self.finished = s >= p;
    }

    /// Whether the last tick ended an interval.
    pub fn finished(&self) -> (r: bool)
        ensures
            r == self.finished,
    {
        self.finished
    }
}

/// Within one period of elapsed time, the timer holds exactly the time that
/// passed, and pulses once it has reached the period.
proof fn lemma_run_within_period(period: u64, ds: Seq<u64>)
    requires
        period > 0,
        total(ds) <= period,
    ensures
        total(ds) < period ==> run(fresh(period), ds).0.elapsed == total(ds) && run(fresh(period), ds).1 == 0,
        total(ds) == period ==> run(fresh(period), ds).0.elapsed == 0 && run(fresh(period), ds).1 == 1,
        run(fresh(period), ds).0.period == period,
    decreases ds.len(),
{
    if ds.len() > 0 {
        let p = ds.drop_last();
        lemma_run_within_period(period, p);
        let (t1, n) = run(fresh(period), p);
        let s = t1.elapsed + ds.last();
        if total(ds) < period {
            lemma_small_mod(s as nat, period as nat);
        } else if total(p) == period {
            lemma_small_mod(s as nat, period as nat);
        } else {
            lemma_mod_self_0(period as int);
        }
    }
}

/// Splitting one period of elapsed time into any number of frames gives
/// exactly one pulse, however the frames are sized, and leaves the timer
/// re-armed with nothing accumulated.
pub proof fn lemma_one_pulse_per_period(period: u64, ds: Seq<u64>)
    requires
        period > 0,
        ds.len() >= 1,
        total(ds) == period,
    ensures
        run(fresh(period), ds).1 == 1,
        run(fresh(period), ds).0.elapsed == 0,
{
    lemma_run_within_period(period, ds);
}

/// However the elapsed time is split into frames, the timer ends holding the
/// same remainder: its start plus all the time that passed, modulo the period.
pub proof fn lemma_elapsed_after_frames(t: Timer, ds: Seq<u64>)
    requires
        t.wf(),
    ensures
        run(t, ds).0.elapsed == (t.elapsed + total(ds)) % (t.period as int),
        run(t, ds).0.period == t.period,
        run(t, ds).0.wf(),
    decreases ds.len(),
{
    if ds.len() > 0 {
        let p = ds.drop_last();
        lemma_elapsed_after_frames(t, p);
        let x = t.elapsed + total(p);
        lemma_add_mod_noop_right(ds.last() as int, x, t.period as int);
        assert(ds.last() + x == t.elapsed + total(ds));
        let t1 = run(t, p).0;
        assert((t1.elapsed + ds.last()) % (t.period as int) == (t.elapsed + total(ds)) % (t.period as int));
    } else {
        lemma_small_mod(t.elapsed as nat, t.period as nat);
    }
}

} // verus!
