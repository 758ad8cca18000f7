//! The animation as mathematics: what a configuration and a run are, and what one tick
//! does to a run.
//!
//! Values are integers, time is counted in nanoseconds on the clock of the run, and
//! the fraction of a pass that has gone by is counted in whole milliseconds.

use crate::number::scale_of;
use crate::repeat::Loop;
use vstd::prelude::*;

verus! {

/// Nanoseconds in a millisecond.
pub open spec fn nanos_per_milli() -> nat {
    1_000_000
}

/// What a configuration says, with values as integers and spans in nanoseconds.
pub struct Config {
    /// The value at which each pass starts.
    pub from: int,
    /// The value at which each pass ends.
    pub to: int,
    /// The span before the first tick.
    pub delay: nat,
    /// The length of one pass.
    pub duration: nat,
    /// The span between two ticks.
    pub frame: nat,
    /// How often the animation runs.
    pub recur: Loop,
}

impl Config {
    /// The length of one pass in whole milliseconds.
    pub open spec fn duration_ms(self) -> nat {
        self.duration / nanos_per_milli()
    }

    /// The distance from the start value to the end value.
    pub open spec fn span(self) -> int {
        self.to - self.from
    }

    /// Whether the configuration describes an animation that can run: the end value
    /// lies above the start value, a pass lasts a millisecond or more and its
    /// milliseconds fit in 64 bits, and the passes are counted from one.
    pub open spec fn runnable(self) -> bool {
        &&& self.from < self.to
        &&& 1 <= self.duration_ms() <= u64::MAX
        &&& self.recur.wf()
    }

    /// The same configuration with another start value.
    pub open spec fn with_from(self, from: int) -> Config {
        Config { from, ..self }
    }

    /// The same configuration with another end value.
    pub open spec fn with_to(self, to: int) -> Config {
        Config { to, ..self }
    }

    /// The same configuration with another delay.
    pub open spec fn with_delay(self, delay: nat) -> Config {
        Config { delay, ..self }
    }

    /// The same configuration with another length of a pass.
    pub open spec fn with_duration(self, duration: nat) -> Config {
        Config { duration, ..self }
    }

    /// The same configuration with another count of passes.
    pub open spec fn with_recur(self, recur: Loop) -> Config {
        Config { recur, ..self }
    }
}

/// A run in progress.
pub struct Run {
    /// Whether a tick has come, so that the anchor is set.
    pub started: bool,
    /// The value of the last tick, or the start value before the first.
    pub current: int,
    /// The point on the clock from which the time within the pass is counted.
    pub anchor: int,
    /// The passes that are left, the one in progress among them. Zero where the
    /// animation repeats without end.
    pub remaining: nat,
    /// Whether the last pass is complete.
    pub done: bool,
}

/// The run before its first tick.
pub open spec fn initial(cfg: Config) -> Run {
    Run { started: false, current: cfg.from, anchor: 0, remaining: cfg.recur.passes(), done: false }
}

/// The time from `anchor` to `now` in whole milliseconds, zero where `now` lies before
/// the anchor.
pub open spec fn elapsed_ms(anchor: int, now: nat) -> nat {
    if now >= anchor {
        ((now - anchor) / (nanos_per_milli() as int)) as nat
    } else {
        0
    }
}

/// The value after `elapsed` of `duration` milliseconds on the way from `from` to
/// `to`: `from + (to - from) * elapsed / duration`, rounded toward zero and held at
/// `to`.
pub open spec fn interpolate(from: int, to: int, elapsed: nat, duration: nat) -> int {
    let raw = from + scale_of(to - from, elapsed, duration);
    if raw >= to {
        to
    } else {
        raw
    }
}

/// From the end of a pass on the value is the end value: where the time that has gone
/// by is the duration or more, `interpolate` gives `to`.
pub proof fn lemma_interpolate_at_end(from: int, to: int, elapsed: nat, duration: nat)
    requires
        from < to,
        0 < duration <= elapsed,
    ensures
        interpolate(from, to, elapsed, duration) == to,
{
    let span = to - from;
    assert(span * elapsed >= span * duration) by (nonlinear_arith)
        requires
            span > 0,
            elapsed >= duration,
    ;
    assert(span * duration >= 0) by (nonlinear_arith)
        requires
            span > 0,
            duration > 0,
    ;
    vstd::arithmetic::div_mod::lemma_div_is_ordered(span * duration, span * elapsed, duration as int);
    vstd::arithmetic::div_mod::lemma_div_multiples_vanish(span, duration as int);
    assert(span * duration == duration * span) by (nonlinear_arith);
}

/// Within a pass the value lies between the bounds and below the end value: where less
/// than the duration has gone by, `interpolate` gives `from` and the part of the
/// distance that has gone by, rounded down.
pub proof fn lemma_interpolate_inside(from: int, to: int, elapsed: nat, duration: nat)
    requires
        from < to,
        elapsed < duration,
    ensures
        interpolate(from, to, elapsed, duration) == from + ((to - from) * elapsed) / (duration as int),
        from <= interpolate(from, to, elapsed, duration) < to,
{
    let span = to - from;
    assert(0 <= span * elapsed < span * duration) by (nonlinear_arith)
        requires
            span > 0,
            0 <= elapsed < duration,
    ;
    vstd::arithmetic::div_mod::lemma_div_pos_is_pos(span * elapsed, duration as int);
    assert(span * duration == duration * span) by (nonlinear_arith);
    vstd::arithmetic::div_mod::lemma_div_multiples_vanish(span, duration as int);
    if (span * elapsed) / (duration as int) >= span {
        vstd::arithmetic::div_mod::lemma_fundamental_div_mod(span * elapsed, duration as int);
        let q = (span * elapsed) / (duration as int);
        assert(duration * q >= duration * span) by (nonlinear_arith)
            requires
                q >= span,
                duration > 0,
        ;
        vstd::arithmetic::div_mod::lemma_mod_bound(span * elapsed, duration as int);
    }
}

/// Whether the tick that comes next starts a new pass: the last one reached the end
/// value.
pub open spec fn rolls_over(cfg: Config, s: Run) -> bool {
    s.current >= cfg.to
}

/// The anchor with which the next tick at `now` computes: set at the first tick,
/// moved back by one duration where a new pass starts.
pub open spec fn next_anchor(cfg: Config, s: Run, now: nat) -> int {
    let captured = if s.started {
        s.anchor
    } else {
        now as int
    };
    if rolls_over(cfg, s) {
        captured - cfg.duration
    } else {
        captured
    }
}

/// The run after a tick at `now`.
pub open spec fn step(cfg: Config, s: Run, now: nat) -> Run {
    let anchor = next_anchor(cfg, s, now);
    let remaining = if rolls_over(cfg, s) && !(cfg.recur is Infinite) {
        (s.remaining - 1) as nat
    } else {
        s.remaining
    };
    let current = interpolate(cfg.from, cfg.to, elapsed_ms(anchor, now), cfg.duration_ms());
    Run { started: true, current, anchor, remaining, done: current >= cfg.to && remaining == 1 }
}

/// What holds of every run that ticks have led to: the value lies between the bounds,
/// the passes left are counted from one, and the run is done exactly when the last pass
/// has reached the end value.
pub open spec fn inv(cfg: Config, s: Run) -> bool {
    &&& cfg.from <= s.current <= cfg.to
    &&& !s.started ==> s.current == cfg.from
    &&& match cfg.recur {
        Loop::Infinite => s.remaining == 0 && !s.done,
        Loop::N(n) => 1 <= s.remaining <= n && (s.done <==> s.current == cfg.to && s.remaining == 1),
    }
}

/// The run after a tick at `now` as the timer delivers it: a run that is done stays as
/// it is.
pub open spec fn tick(cfg: Config, s: Run, now: nat) -> Run {
    if s.done {
        s
    } else {
        step(cfg, s, now)
    }
}

/// The run after the ticks at `times`, in their order.
pub open spec fn run(cfg: Config, s: Run, times: Seq<nat>) -> Run
    decreases times.len(),
{
    if times.len() == 0 {
        s
    } else {
        tick(cfg, run(cfg, s, times.drop_last()), times.last())
    }
}

} // verus!
