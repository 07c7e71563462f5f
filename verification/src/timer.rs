//! Timers that gather elapsed time against a duration.

use crate::math::lemma_carry;
use vstd::arithmetic::div_mod::{lemma_fundamental_div_mod_converse, lemma_small_mod};
use vstd::prelude::*;

verus! {

/// What a timer is, as mathematics: its period, the time it has gathered,
/// whether it has reported that it finished, and whether it did so on the
/// last tick.
pub struct TimerView {
    pub duration: nat,
    pub elapsed: nat,
    pub repeating: bool,
    /// For a one-shot timer, whether some tick has reported that it
    /// finished; for a repeating timer, the same as `just_finished`.
    pub fired: bool,
    pub just_finished: bool,
}

impl TimerView {
    /// A timer that has not been ticked yet.
    pub open spec fn fresh(duration: nat, repeating: bool) -> TimerView {
        TimerView { duration, elapsed: 0, repeating, fired: false, just_finished: false }
    }

    /// What holds of every timer that was made by `fresh` and then ticked.
    pub open spec fn wf(self) -> bool {
        &&& self.elapsed <= self.duration
        &&& self.just_finished ==> self.fired
        &&& self.repeating ==> self.fired == self.just_finished
        &&& self.repeating && self.duration > 0 ==> self.elapsed < self.duration
        &&& !self.repeating && self.fired ==> self.elapsed == self.duration
        &&& !self.repeating && self.duration > 0 && self.elapsed == self.duration ==> self.fired
    }

    /// Whether the period has been reached: for a one-shot timer, whether
    /// `elapsed` equals `duration`; for a repeating timer, whether it was
    /// reached on the last tick.
    pub open spec fn finished(self) -> bool {
        if self.repeating {
            self.just_finished
        } else {
            self.elapsed == self.duration
        }
    }

    /// The timer after `delta` more nanoseconds.
    ///
    /// A one-shot timer that has reported that it finished only drops
    /// `just_finished`. Any other timer adds `delta` to `elapsed`. Where
    /// that reaches `duration` the timer finishes on this tick: a repeating
    /// timer keeps the rest of the division by its period, a one-shot timer
    /// stays at `duration`.
    pub open spec fn tick(self, delta: nat) -> TimerView {
        let total = self.elapsed + delta;
        if !self.repeating && self.fired {
            TimerView { just_finished: false, ..self }
        } else if total < self.duration {
            TimerView { elapsed: total, fired: false, just_finished: false, ..self }
        } else if !self.repeating {
            TimerView { elapsed: self.duration, fired: true, just_finished: true, ..self }
        } else if self.duration == 0 {
            TimerView { elapsed: 0, fired: true, just_finished: true, ..self }
        } else {
            TimerView {
                elapsed: (total % self.duration) as nat,
                fired: true,
                just_finished: true,
                ..self
            }
        }
    }

    /// The timer after one tick for each of `deltas`, in order.
    pub open spec fn run(self, deltas: Seq<nat>) -> TimerView
        decreases deltas.len(),
    {
        if deltas.len() == 0 {
            self
        } else {
            self.run(deltas.drop_last()).tick(deltas.last())
        }
    }
}

/// The sum of `deltas`.
pub open spec fn total(deltas: Seq<nat>) -> nat
    decreases deltas.len(),
{
    if deltas.len() == 0 {
        0
    } else {
        total(deltas.drop_last()) + deltas.last()
    }
}

/// Gathers elapsed time against a duration and reports when it is reached,
/// once or again and again.
#[derive(Clone, Copy, Debug, PartialEq, Eq)]
pub struct Timer {
    duration: u64,
    elapsed: u64,
    repeating: bool,
    fired: bool,
    just_finished: bool,
}

impl View for Timer {
    type V = TimerView;

    closed spec fn view(&self) -> TimerView {
        TimerView {
            duration: self.duration as nat,
            elapsed: self.elapsed as nat,
            repeating: self.repeating,
            fired: self.fired,
            just_finished: self.just_finished,
        }
    }
}

impl Timer {
    #[verifier::type_invariant]
    spec fn inv(self) -> bool {
        self@.wf()
    }

    /// A timer of `duration` nanoseconds that has not been ticked yet.
    pub fn new(duration: u64, repeating: bool) -> (t: Timer)
        ensures
            t@ == TimerView::fresh(duration as nat, repeating),
    {
        Timer { duration, elapsed: 0, repeating, fired: false, just_finished: false }
    }

    /// Advances the timer by `delta` nanoseconds.
    pub fn tick(&mut self, delta: u64)
        ensures
            final(self)@ == old(self)@.tick(delta as nat),
            final(self)@.wf(),
    {
        proof {
            use_type_invariant(&*self);
        }
        if !self.repeating && self.fired {
            *self = Timer { just_finished: false, ..*self };
            return ;
        }
        let room: u64 = self.duration - self.elapsed;
        if delta < room {
            *self = Timer {
                elapsed: self.elapsed + delta,
                fired: false,
                just_finished: false,
                ..*self
            };
        } else if !self.repeating {
            *self = Timer { elapsed: self.duration, fired: true, just_finished: true, ..*self };
        } else if self.duration == 0 {
            *self = Timer { elapsed: 0, fired: true, just_finished: true, ..*self };
        } else {
            let over: u64 = delta - room;
            proof {
                lemma_wrap(self.elapsed as int, delta as int, self.duration as int);
                vstd::arithmetic::div_mod::lemma_mod_bound(over as int, self.duration as int);
            }
            *self = Timer {
                elapsed: over % self.duration,
                fired: true,
                just_finished: true,
                ..*self
            };
        }
    }

    /// The period, in nanoseconds.
    pub fn duration(&self) -> (r: u64)
        ensures
            r == self@.duration,
    {
        self.duration
    }

    /// The time gathered so far, in nanoseconds; never more than the period.
    pub fn elapsed(&self) -> (r: u64)
        ensures
            r == self@.elapsed,
            r <= self@.duration,
    {
        proof {
            use_type_invariant(self);
        }
        self.elapsed
    }

    /// Whether the timer starts over each time it finishes.
    pub fn repeating(&self) -> (r: bool)
        ensures
            r == self@.repeating,
    {
        self.repeating
    }

    /// Whether the last tick was the one on which the period was reached.
    pub fn just_finished(&self) -> (r: bool)
        ensures
            r == self@.just_finished,
    {
        self.just_finished
    }

    /// Whether the period has been reached: for a one-shot timer, whether
    /// `elapsed` equals `duration`; for a repeating timer, whether it was
    /// reached on the last tick.
    pub fn finished(&self) -> (r: bool)
        ensures
            r == self@.finished(),
    {
        if self.repeating {
            self.just_finished
        } else {
            self.elapsed == self.duration
        }
    }
}

proof fn lemma_wrap(elapsed: int, delta: int, duration: int)
    requires
        0 <= elapsed < duration,
        delta >= duration - elapsed,
    ensures
        (elapsed + delta) % duration == (delta - (duration - elapsed)) % duration,
{
    let over = delta - (duration - elapsed);
    let q = over / duration;
    let r = over % duration;
    vstd::arithmetic::div_mod::lemma_fundamental_div_mod(over, duration);
    assert(elapsed + delta == (q + 1) * duration + r) by (nonlinear_arith)
        requires
            over == duration * q + r,
            over == delta - (duration - elapsed),
    ;
    lemma_fundamental_div_mod_converse(elapsed + delta, duration, q + 1, r);
}

/// Ticking keeps a well-formed timer well-formed.
pub proof fn lemma_tick_wf(t: TimerView, delta: nat)
    requires
        t.wf(),
    ensures
        t.tick(delta).wf(),
{
    let total = t.elapsed + delta;
    if t.repeating && t.duration > 0 && total >= t.duration {
        vstd::arithmetic::div_mod::lemma_mod_bound(total as int, t.duration as int);
    }
}

/// A one-shot timer with a positive period, ticked from fresh, reports
/// `just_finished` on exactly the tick on which the sum of the deltas first
/// reaches the period, and on no other. It is finished from that tick on,
/// and its elapsed time is the sum of the deltas, held at the period.
pub proof fn lemma_one_shot_fires_once(duration: nat, deltas: Seq<nat>)
    requires
        duration > 0,
    ensures
        ({
            let t = TimerView::fresh(duration, false).run(deltas);
            &&& t.wf()
            &&& t.duration == duration
            &&& !t.repeating
            &&& t.finished() == (total(deltas) >= duration)
            &&& t.elapsed == if total(deltas) >= duration { duration } else { total(deltas) }
            &&& deltas.len() > 0 ==> t.just_finished == (total(deltas.drop_last()) < duration
                <= total(deltas))
            &&& deltas.len() == 0 ==> !t.just_finished
        }),
    decreases deltas.len(),
{
    if deltas.len() > 0 {
        lemma_one_shot_fires_once(duration, deltas.drop_last());
    }
}

/// A repeating timer with a positive period, ticked from fresh, holds the
/// sum of the deltas modulo the period, which is always less than the
/// period, and reports `just_finished` on exactly the ticks on which that sum
/// passes a multiple of the period.
pub proof fn lemma_repeating_wraps(duration: nat, deltas: Seq<nat>)
    requires
        duration > 0,
    ensures
        ({
            let t = TimerView::fresh(duration, true).run(deltas);
            &&& t.wf()
            &&& t.duration == duration
            &&& t.repeating
            &&& t.elapsed == total(deltas) % duration
            &&& t.elapsed < duration
            &&& deltas.len() > 0 ==> t.just_finished == (total(deltas.drop_last()) / duration
                < total(deltas) / duration)
            &&& deltas.len() == 0 ==> !t.just_finished
        }),
    decreases deltas.len(),
{
    let d = duration as int;
    if deltas.len() == 0 {
        lemma_small_mod(0, duration);
    } else {
        let before = deltas.drop_last();
        lemma_repeating_wraps(duration, before);
        let a = total(before) as int;
        let b = deltas.last() as int;
        lemma_carry(a, b, d);
        vstd::arithmetic::div_mod::lemma_mod_bound(a + b, d);
    }
}

} // verus!
