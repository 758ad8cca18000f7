//! What holds of every animation: laws of the model, proved once for all runs.

use crate::model::elapsed_ms;
use crate::model::initial;
use crate::model::interpolate;
use crate::model::inv;
use crate::model::lemma_interpolate_at_end;
use crate::model::lemma_interpolate_inside;
use crate::model::next_anchor;
use crate::model::rolls_over;
use crate::model::run;
use crate::model::step;
use crate::model::tick;
use crate::model::Config;
use crate::model::Run;
use crate::repeat::Loop;
use vstd::prelude::*;

verus! {

/// Whether the times come in order: none lies before the one in front of it.
pub open spec fn in_order(times: Seq<nat>) -> bool {
    forall|i: int, j: int| 0 <= i <= j < times.len() ==> times[i] <= times[j]
}

/// A tick leaves the run one that ticks can have led to, with its value between the
/// bounds: no value lies above the end value or below the start value.
pub proof fn lemma_step_keeps_inv(cfg: Config, s: Run, now: nat)
    requires
        cfg.runnable(),
        inv(cfg, s),
        !s.done,
    ensures
        inv(cfg, step(cfg, s, now)),
        cfg.from <= step(cfg, s, now).current <= cfg.to,
{
    let e = elapsed_ms(next_anchor(cfg, s, now), now);
    if e >= cfg.duration_ms() {
        lemma_interpolate_at_end(cfg.from, cfg.to, e, cfg.duration_ms());
    } else {
        lemma_interpolate_inside(cfg.from, cfg.to, e, cfg.duration_ms());
    }
}

/// A tick gives the end value exactly when a whole duration has gone by since the
/// anchor: the value reaches the end, and not before.
pub proof fn lemma_reaches_end(cfg: Config, s: Run, now: nat)
    requires
        cfg.runnable(),
    ensures
        step(cfg, s, now).current == cfg.to <==> elapsed_ms(next_anchor(cfg, s, now), now)
            >= cfg.duration_ms(),
{
    let e = elapsed_ms(next_anchor(cfg, s, now), now);
    if e >= cfg.duration_ms() {
        lemma_interpolate_at_end(cfg.from, cfg.to, e, cfg.duration_ms());
    } else {
        lemma_interpolate_inside(cfg.from, cfg.to, e, cfg.duration_ms());
    }
}

/// The value grows with the time that has gone by: of two times, the later gives the
/// greater value, or the same.
pub proof fn lemma_interpolate_grows(from: int, to: int, early: nat, late: nat, duration: nat)
    requires
        from < to,
        duration > 0,
        early <= late,
    ensures
        interpolate(from, to, early, duration) <= interpolate(
            from,
            to,
            late,
            duration,
        ),
{
    if late >= duration {
        lemma_interpolate_at_end(from, to, late, duration);
        if early >= duration {
            lemma_interpolate_at_end(from, to, early, duration);
        } else {
            lemma_interpolate_inside(from, to, early, duration);
        }
    } else {
        lemma_interpolate_inside(from, to, early, duration);
        lemma_interpolate_inside(from, to, late, duration);
        let span = to - from;
        assert(span * early <= span * late) by (nonlinear_arith)
            requires
                span > 0,
                early <= late,
        ;
        vstd::arithmetic::div_mod::lemma_div_is_ordered(span * early, span * late, duration as int);
    }
}

/// Of two ticks that follow each other in time, the second gives the greater value, or
/// the same: the values of a run never decrease.
pub proof fn lemma_values_never_decrease(cfg: Config, s: Run, first: nat, second: nat)
    requires
        cfg.runnable(),
        inv(cfg, s),
        !s.done,
        first <= second,
    ensures
        step(cfg, s, first).current <= tick(cfg, step(cfg, s, first), second).current,
{
    let mid = step(cfg, s, first);
    lemma_step_keeps_inv(cfg, s, first);
    if !mid.done {
        let anchor = mid.anchor;
        let e1 = elapsed_ms(anchor, first);
        lemma_step_keeps_inv(cfg, mid, second);
        if rolls_over(cfg, mid) {
            lemma_reaches_end(cfg, s, first);
            let e2 = elapsed_ms(anchor - cfg.duration, second);
            vstd::arithmetic::div_mod::lemma_div_is_ordered(
                first - anchor,
                second - (anchor - cfg.duration),
                1_000_000,
            );
            lemma_interpolate_at_end(cfg.from, cfg.to, e2, cfg.duration_ms());
        } else {
            let e2 = elapsed_ms(anchor, second);
            if first >= anchor {
                vstd::arithmetic::div_mod::lemma_div_is_ordered(first - anchor, second - anchor, 1_000_000);
            }
            lemma_interpolate_grows(cfg.from, cfg.to, e1, e2, cfg.duration_ms());
        }
    }
}

/// The ticks at `times` lead to a run that ticks can have led to.
pub proof fn lemma_run_keeps_inv(cfg: Config, times: Seq<nat>)
    requires
        cfg.runnable(),
    ensures
        inv(cfg, run(cfg, initial(cfg), times)),
    decreases times.len(),
{
    if times.len() > 0 {
        lemma_run_keeps_inv(cfg, times.drop_last());
        let before = run(cfg, initial(cfg), times.drop_last());
        if !before.done {
            lemma_step_keeps_inv(cfg, before, times.last());
        }
    }
}

/// Over ticks that come in order, the value after more ticks is the value after fewer,
/// or greater, and never above the end value.
pub proof fn lemma_run_values_never_decrease(cfg: Config, times: Seq<nat>, fewer: int, more: int)
    requires
        cfg.runnable(),
        in_order(times),
        0 <= fewer <= more <= times.len(),
    ensures
        run(cfg, initial(cfg), times.take(fewer)).current <= run(
            cfg,
            initial(cfg),
            times.take(more),
        ).current <= cfg.to,
    decreases more - fewer,
{
    lemma_run_keeps_inv(cfg, times.take(more));
    if fewer < more {
        lemma_run_values_never_decrease(cfg, times, fewer, more - 1);
        let shorter = times.take(more - 1);
        let longer = times.take(more);
        assert(longer.drop_last() == shorter);
        assert(longer.last() == times[more - 1]);
        let before = run(cfg, initial(cfg), shorter);
        lemma_run_keeps_inv(cfg, shorter);
        if !before.done {
            if more - 1 == 0 {
                assert(shorter.len() == 0);
                lemma_step_keeps_inv(cfg, before, times[more - 1]);
            } else {
                let earlier = times.take(more - 2);
                assert(shorter.drop_last() == earlier);
                assert(shorter.last() == times[more - 2]);
                let origin = run(cfg, initial(cfg), earlier);
                lemma_run_keeps_inv(cfg, earlier);
                assert(!origin.done);
                lemma_values_never_decrease(cfg, origin, times[more - 2], times[more - 1]);
            }
        }
    }
}

/// The passes that a run with a count has completed: those that are no longer left,
/// and the one in progress where it has reached the end value.
pub open spec fn passes_completed(cfg: Config, s: Run) -> int {
    cfg.recur.passes() - s.remaining + if s.current >= cfg.to {
        1int
    } else {
        0int
    }
}

/// How many of the ticks at `times` reached the end value. A tick that finds the run
/// done is not delivered and counts for nothing.
pub open spec fn arrivals(cfg: Config, times: Seq<nat>) -> nat
    decreases times.len(),
{
    if times.len() == 0 {
        0
    } else {
        let before = run(cfg, initial(cfg), times.drop_last());
        let here: nat = if !before.done && step(cfg, before, times.last()).current >= cfg.to {
            1
        } else {
            0
        };
        arrivals(cfg, times.drop_last()) + here
    }
}

/// A run with a count is done exactly when it has completed that many passes, and it
/// never completes more.
pub proof fn lemma_done_at_last_pass(cfg: Config, s: Run)
    requires
        cfg.runnable(),
        inv(cfg, s),
        cfg.recur is N,
    ensures
        0 <= passes_completed(cfg, s) <= cfg.recur.passes(),
        s.done <==> passes_completed(cfg, s) == cfg.recur.passes(),
{
}

/// A tick that reaches the end value completes one pass, and a tick that does not
/// completes none.
pub proof fn lemma_tick_completes_one_pass(cfg: Config, s: Run, now: nat)
    requires
        cfg.runnable(),
        inv(cfg, s),
        cfg.recur is N,
        !s.done,
    ensures
        passes_completed(cfg, step(cfg, s, now)) == passes_completed(cfg, s) + if step(
            cfg,
            s,
            now,
        ).current >= cfg.to {
            1int
        } else {
            0int
        },
{
    lemma_step_keeps_inv(cfg, s, now);
}

/// An animation with a count of `n` makes exactly `n` passes: after any ticks, the
/// passes completed are the ticks that reached the end value; they are at most `n`; and
/// the run is done exactly when they are `n`, which is on the tick that completes the
/// last pass, not before and not after.
pub proof fn lemma_exactly_n_passes(cfg: Config, times: Seq<nat>)
    requires
        cfg.runnable(),
        cfg.recur is N,
    ensures
        passes_completed(cfg, run(cfg, initial(cfg), times)) == arrivals(cfg, times),
        arrivals(cfg, times) <= cfg.recur.passes(),
        run(cfg, initial(cfg), times).done <==> arrivals(cfg, times) == cfg.recur.passes(),
    decreases times.len(),
{
    lemma_run_keeps_inv(cfg, times);
    lemma_done_at_last_pass(cfg, run(cfg, initial(cfg), times));
    if times.len() > 0 {
        lemma_exactly_n_passes(cfg, times.drop_last());
        let before = run(cfg, initial(cfg), times.drop_last());
        lemma_run_keeps_inv(cfg, times.drop_last());
        if !before.done {
            lemma_tick_completes_one_pass(cfg, before, times.last());
        }
    }
}

/// An animation that repeats without end is never done, whatever ticks come.
pub proof fn lemma_infinite_never_done(cfg: Config, times: Seq<nat>)
    requires
        cfg.runnable(),
        cfg.recur is Infinite,
    ensures
        !run(cfg, initial(cfg), times).done,
{
    lemma_run_keeps_inv(cfg, times);
}

/// How many of the ticks at `times` started a new pass.
pub open spec fn rollovers(cfg: Config, times: Seq<nat>) -> nat
    decreases times.len(),
{
    if times.len() == 0 {
        0
    } else {
        let before = run(cfg, initial(cfg), times.drop_last());
        let here: nat = if !before.done && rolls_over(cfg, before) {
            1
        } else {
            0
        };
        rollovers(cfg, times.drop_last()) + here
    }
}

/// The anchor is the time of the first tick, moved back by one duration for each pass
/// that was started since. When the later ticks came has no part in it: a tick that
/// comes late does not move the anchor of the passes that follow.
pub proof fn lemma_anchor_is_exact(cfg: Config, times: Seq<nat>)
    requires
        cfg.runnable(),
        times.len() > 0,
    ensures
        run(cfg, initial(cfg), times).started,
        run(cfg, initial(cfg), times).anchor == times[0] - rollovers(cfg, times) * cfg.duration,
    decreases times.len(),
{
    let before = run(cfg, initial(cfg), times.drop_last());
    let count = rollovers(cfg, times.drop_last());
    if times.len() == 1 {
        assert(times.drop_last().len() == 0);
        assert(rollovers(cfg, times) * cfg.duration == 0) by (nonlinear_arith)
            requires
                rollovers(cfg, times) == 0,
        ;
    } else {
        lemma_anchor_is_exact(cfg, times.drop_last());
        assert(times.drop_last()[0] == times[0]);
        if !before.done && rolls_over(cfg, before) {
            assert((count + 1) * cfg.duration == count * cfg.duration + cfg.duration)
                by (nonlinear_arith);
        }
    }
}

/// Over ticks that come in order, what a delivered tick leaves behind: the value for the
/// time since the first tick, and an anchor that has not moved while the value lies
/// below the end value.
proof fn lemma_run_tracks_first_tick(cfg: Config, times: Seq<nat>, k: int)
    requires
        cfg.runnable(),
        in_order(times),
        0 <= k < times.len(),
        !run(cfg, initial(cfg), times.take(k)).done,
    ensures
        run(cfg, initial(cfg), times.take(k + 1)) == step(
            cfg,
            run(cfg, initial(cfg), times.take(k)),
            times[k],
        ),
        run(cfg, initial(cfg), times.take(k + 1)).current == interpolate(
            cfg.from,
            cfg.to,
            elapsed_ms(times[0] as int, times[k]),
            cfg.duration_ms(),
        ),
        run(cfg, initial(cfg), times.take(k + 1)).anchor <= times[0],
        run(cfg, initial(cfg), times.take(k + 1)).current < cfg.to ==> run(
            cfg,
            initial(cfg),
            times.take(k + 1),
        ).anchor == times[0],
    decreases k,
{
    let before = run(cfg, initial(cfg), times.take(k));
    assert(times.take(k + 1).drop_last() == times.take(k));
    assert(times.take(k + 1).last() == times[k]);
    lemma_run_keeps_inv(cfg, times.take(k));
    if k > 0 {
        let origin = run(cfg, initial(cfg), times.take(k - 1));
        assert(times.take(k).drop_last() == times.take(k - 1));
        assert(times.take(k).last() == times[k - 1]);
        assert(!origin.done);
        lemma_run_tracks_first_tick(cfg, times, k - 1);
        if rolls_over(cfg, before) {
            let e0 = elapsed_ms(times[0] as int, times[k - 1]);
            let e1 = elapsed_ms(times[0] as int, times[k]);
            let e2 = elapsed_ms(before.anchor - cfg.duration, times[k]);
            if e0 < cfg.duration_ms() {
                lemma_interpolate_inside(cfg.from, cfg.to, e0, cfg.duration_ms());
            }
            vstd::arithmetic::div_mod::lemma_div_is_ordered(
                times[k - 1] - times[0],
                times[k] - times[0],
                1_000_000,
            );
            vstd::arithmetic::div_mod::lemma_div_is_ordered(
                times[k] - times[0],
                times[k] - (before.anchor - cfg.duration),
                1_000_000,
            );
            lemma_interpolate_at_end(cfg.from, cfg.to, e1, cfg.duration_ms());
            lemma_interpolate_at_end(cfg.from, cfg.to, e2, cfg.duration_ms());
        }
    } else {
        assert(times.take(0).len() == 0);
    }
}

/// Over ticks that come in order, the value of each delivered tick is the value for the
/// time from the first tick to that tick. When the ticks between them came, and how
/// many they were, has no part in it: a tick that comes late leaves no trace in the
/// values that follow, and the end value is reached by the first tick that comes a
/// whole duration or more after the first.
pub proof fn lemma_value_follows_the_clock(cfg: Config, times: Seq<nat>, k: int)
    requires
        cfg.runnable(),
        in_order(times),
        0 <= k < times.len(),
        !run(cfg, initial(cfg), times.take(k)).done,
    ensures
        run(cfg, initial(cfg), times.take(k + 1)).current == interpolate(
            cfg.from,
            cfg.to,
            elapsed_ms(times[0] as int, times[k]),
            cfg.duration_ms(),
        ),
        run(cfg, initial(cfg), times.take(k + 1)).current == cfg.to <==> elapsed_ms(
            times[0] as int,
            times[k],
        ) >= cfg.duration_ms(),
{
    lemma_run_tracks_first_tick(cfg, times, k);
    let e = elapsed_ms(times[0] as int, times[k]);
    if e >= cfg.duration_ms() {
        lemma_interpolate_at_end(cfg.from, cfg.to, e, cfg.duration_ms());
    } else {
        lemma_interpolate_inside(cfg.from, cfg.to, e, cfg.duration_ms());
    }
}

/// The setters are independent: two of them that set different parts give the same
/// configuration in either order.
pub proof fn lemma_setters_commute(
    cfg: Config,
    from: int,
    to: int,
    delay: nat,
    duration: nat,
    recur: Loop,
)
    ensures
        cfg.with_from(from).with_to(to) == cfg.with_to(to).with_from(from),
        cfg.with_from(from).with_delay(delay) == cfg.with_delay(delay).with_from(from),
        cfg.with_from(from).with_duration(duration) == cfg.with_duration(duration).with_from(from),
        cfg.with_from(from).with_recur(recur) == cfg.with_recur(recur).with_from(from),
        cfg.with_to(to).with_delay(delay) == cfg.with_delay(delay).with_to(to),
        cfg.with_to(to).with_duration(duration) == cfg.with_duration(duration).with_to(to),
        cfg.with_to(to).with_recur(recur) == cfg.with_recur(recur).with_to(to),
        cfg.with_delay(delay).with_duration(duration) == cfg.with_duration(duration).with_delay(
            delay,
        ),
        cfg.with_delay(delay).with_recur(recur) == cfg.with_recur(recur).with_delay(delay),
        cfg.with_duration(duration).with_recur(recur) == cfg.with_recur(recur).with_duration(
            duration,
        ),
{
}

} // verus!
