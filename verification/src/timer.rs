//! The timer that spaces out send cycles.

use vstd::prelude::*;

verus! {

/// The model of a send timer that contracts speak of. Times are whole
/// nanoseconds.
pub struct TimerView {
    /// The least time between two send cycles.
    pub interval: nat,
    /// The time accumulated since the last send cycle.
    pub elapsed: nat,
}

impl TimerView {
    /// A timer with nothing accumulated.
    pub open spec fn new(interval: nat) -> TimerView {
        TimerView { interval, elapsed: 0 }
    }

    /// Whether a tick of `delta` makes the timer fire: the accumulated time
    /// reaches the interval.
    pub open spec fn fires(self, delta: nat) -> bool {
        self.elapsed + delta >= self.interval
    }

    /// The timer after a tick of `delta`: it starts from zero again where it
    /// fires, and has `delta` more accumulated where it does not.
    pub open spec fn tick(self, delta: nat) -> TimerView {
        TimerView {
            interval: self.interval,
            elapsed: if self.fires(delta) {
                0
            } else {
                self.elapsed + delta
            },
        }
    }

    /// The timer after the ticks `deltas`, the first one first.
    pub open spec fn run(self, deltas: Seq<nat>) -> TimerView
        decreases deltas.len(),
    {
        if deltas.len() == 0 {
            self
        } else {
            self.run(deltas.drop_last()).tick(deltas.last())
        }
    }

    /// How many of the ticks `deltas` make the timer fire.
    pub open spec fn firings(self, deltas: Seq<nat>) -> nat
        decreases deltas.len(),
    {
        if deltas.len() == 0 {
            0
        } else {
            let before = self.firings(deltas.drop_last());
            if self.run(deltas.drop_last()).fires(deltas.last()) {
                before + 1
            } else {
                before
            }
        }
    }
}

/// The time that the ticks `deltas` add up to.
pub open spec fn total(deltas: Seq<nat>) -> nat
    decreases deltas.len(),
{
    if deltas.len() == 0 {
        0
    } else {
        total(deltas.drop_last()) + deltas.last()
    }
}

/// While the ticks add up to less than the interval, a fresh timer does not
/// fire, and holds what the ticks add up to.
pub proof fn lemma_quiet_below_interval(interval: nat, deltas: Seq<nat>)
    requires
        total(deltas) < interval,
    ensures
        TimerView::new(interval).firings(deltas) == 0,
        TimerView::new(interval).run(deltas).elapsed == total(deltas),
        TimerView::new(interval).run(deltas).interval == interval,
    decreases deltas.len(),
{
    if deltas.len() > 0 {
        lemma_quiet_below_interval(interval, deltas.drop_last());
    }
}

/// The tick with which the time added up reaches the interval makes a fresh
/// timer fire, for the first time, and leaves nothing accumulated.
pub proof fn lemma_fires_once_at_interval(interval: nat, deltas: Seq<nat>, delta: nat)
    requires
        total(deltas) < interval <= total(deltas) + delta,
    ensures
        TimerView::new(interval).run(deltas).fires(delta),
        TimerView::new(interval).firings(deltas.push(delta)) == 1,
        TimerView::new(interval).run(deltas.push(delta)).elapsed == 0,
{
    lemma_quiet_below_interval(interval, deltas);
    assert(deltas.push(delta).drop_last() =~= deltas);
}

/// Send cycles are at least an interval apart: over any ticks, a fresh timer
/// fires at most once for each full interval of the time that has passed.
pub proof fn lemma_one_firing_per_interval(interval: nat, deltas: Seq<nat>)
    ensures
        TimerView::new(interval).firings(deltas) * interval + TimerView::new(interval).run(
            deltas,
        ).elapsed <= total(deltas),
        TimerView::new(interval).run(deltas).interval == interval,
    decreases deltas.len(),
{
    let timer = TimerView::new(interval);
    if deltas.len() == 0 {
        assert(timer.firings(deltas) * interval == 0) by (nonlinear_arith)
            requires
                timer.firings(deltas) == 0,
        ;
    } else {
        let rest = deltas.drop_last();
        lemma_one_firing_per_interval(interval, rest);
        let count = timer.firings(rest);
        let before = timer.run(rest);
        assert((count + 1) * interval == count * interval + interval) by (nonlinear_arith);
        if before.fires(deltas.last()) {
            assert(timer.firings(deltas) == count + 1);
            assert(timer.run(deltas).elapsed == 0);
        } else {
            assert(timer.firings(deltas) == count);
        }
    }
}

/// Accumulates the time that has passed since the last send cycle and fires
/// once the configured interval has been reached.
pub struct SendTimer {
    interval: u64,
    elapsed: u64,
}

impl View for SendTimer {
    type V = TimerView;

    closed spec fn view(&self) -> TimerView {
        TimerView { interval: self.interval as nat, elapsed: self.elapsed as nat }
    }
}

impl SendTimer {
    #[verifier::type_invariant]
    spec fn stays_below_interval(&self) -> bool {
        self.elapsed < self.interval || (self.interval == 0 && self.elapsed == 0)
    }

    /// A timer with nothing accumulated. With an interval of zero it fires
    /// on every tick.
    pub fn new(interval: u64) -> (timer: SendTimer)
        ensures
            timer@ == TimerView::new(interval as nat),
    {
        SendTimer { interval, elapsed: 0 }
    }

    /// The interval between two send cycles.
    pub fn interval(&self) -> (interval: u64)
        ensures
            interval == self@.interval,
    {
        self.interval
    }

    /// The time accumulated since the timer last fired.
    pub fn elapsed(&self) -> (elapsed: u64)
        ensures
            elapsed == self@.elapsed,
    {
        self.elapsed
    }

    /// Adds `delta` to the accumulated time. Returns `true`, and starts
    /// accumulating from zero again, exactly when the accumulated time has
    /// reached the interval.
    pub fn tick(&mut self, delta: u64) -> (fired: bool)
        ensures
            fired == old(self)@.fires(delta as nat),
            final(self)@ == old(self)@.tick(delta as nat),
    {
        proof {
            use_type_invariant(&*self);
        }
        if delta >= self.interval - self.elapsed {
            self.elapsed = 0;
            true
        } else {
            self.elapsed = self.elapsed + delta;
            false
        }
    }
}

} // verus!
