//! One run of an animation: the state that each tick moves on.

use crate::model::initial;
use crate::model::inv;
use crate::model::lemma_interpolate_at_end;
use crate::model::lemma_interpolate_inside;
use crate::model::step;
use crate::model::tick;
use crate::model::Config;
use crate::model::Run;
use crate::number::Number;
use crate::repeat::Loop;
use crate::time::lemma_millis_of_nanos;
use crate::time::nanos_of;
use crate::time::to_millisecond;
use crate::time::to_nanosecond;
use crate::time::NANOS_MAX;
use std::time::Duration;
use std::time::Instant;
use vstd::prelude::*;

verus! {

/// The earliest anchor that a run stores as it is. An anchor before it lies further back
/// than any tick can reach within a pass, and is stored as this one.
pub const ANCHOR_FLOOR: i128 = -0x4000_0000_0000_0000_0000_0000_0000_0000;

/// One run of an animation.
///
/// It is made by [`crate::Animation::state`] and moved on by one call of
/// [`State::update`] for each tick, until [`State::is_done`].
pub struct State<P> {
    first: bool,
    current: P,
    clock: Instant,
    anchor: i128,
    exact_anchor: Ghost<int>,
    loop_counter: usize,
    done: bool,
    from: P,
    to: P,
    delay: Duration,
    duration: Duration,
    frame: Duration,
    recur: Loop,
}

impl<P: Number> View for State<P> {
    type V = Run;

    closed spec fn view(&self) -> Run {
        Run {
            started: !self.first,
            current: self.current.value(),
            anchor: self.exact_anchor@,
            remaining: self.loop_counter as nat,
            done: self.done,
        }
    }
}

impl<P: Number> State<P> {
    /// The configuration that the run was started from.
    pub closed spec fn config(&self) -> Config {
        Config {
            from: self.from.value(),
            to: self.to.value(),
            delay: nanos_of(self.delay),
            duration: nanos_of(self.duration),
            frame: nanos_of(self.frame),
            recur: self.recur,
        }
    }

    /// The run is one that ticks can have led to, from a configuration that can run.
    pub closed spec fn wf(&self) -> bool {
        &&& self.config().runnable()
        &&& self.config().span() <= P::highest()
        &&& inv(self.config(), self@)
        &&& self.exact_anchor@ <= NANOS_MAX
        &&& self.anchor == if self.exact_anchor@ >= ANCHOR_FLOOR {
            self.exact_anchor@
        } else {
            ANCHOR_FLOOR as int
        }
    }

    /// A run is well formed only on a configuration that can run, within the limits of
    /// the value type, and in a state that ticks can have led to.
    pub proof fn lemma_wf(&self)
        requires
            self.wf(),
        ensures
            self.config().runnable(),
            self.config().span() <= P::highest(),
            inv(self.config(), self@),
    {
    }

    /// The run of a configuration before its first tick, on the clock that starts at
    /// `clock`.
    pub(crate) fn start(
        clock: Instant,
        from: P,
        to: P,
        delay: Duration,
        duration: Duration,
        frame: Duration,
        recur: Loop,
    ) -> (s: State<P>)
        requires
            from.value() < to.value(),
            to.value() - from.value() <= P::highest(),
            1 <= nanos_of(duration) / 1_000_000 <= u64::MAX,
            recur.wf(),
        ensures
            s.wf(),
            s@ == initial(s.config()),
            s.config() == (Config {
                from: from.value(),
                to: to.value(),
                delay: nanos_of(delay),
                duration: nanos_of(duration),
                frame: nanos_of(frame),
                recur,
            }),
    {
        let loop_counter: usize = match recur {
            Loop::N(n) => n,
            Loop::Infinite => 0,
        };
        State {
            first: true,
            current: from,
            clock,
            anchor: 0,
            exact_anchor: Ghost(0int),
            loop_counter,
            done: false,
            from,
            to,
            delay,
            duration,
            frame,
            recur,
        }
    }

    /// Whether the last pass is complete. A run that is done takes no further update.
    pub fn is_done(&self) -> (done: bool)
        ensures
            done == self@.done,
    {
        self.done
    }

    /// The value of the last tick, or the start value before the first.
    pub fn current(&self) -> (value: P)
        ensures
            value.value() == self@.current,
    {
        self.current
    }

    /// The passes that are left, the one in progress among them; zero where the
    /// animation repeats without end.
    pub fn remaining_loops(&self) -> (n: usize)
        ensures
            n == self@.remaining,
    {
        self.loop_counter
    }

    /// Moves the run on by the tick that comes at `now` on the run's clock, and returns
    /// the value for that tick.
    pub fn update_at(&mut self, now: Duration) -> (value: P)
        requires
            old(self).wf(),
            !old(self)@.done,
        ensures
            final(self).wf(),
            final(self).config() == old(self).config(),
            final(self)@ == step(old(self).config(), old(self)@, nanos_of(now)),
            value.value() == final(self)@.current,
            old(self).config().from <= value.value() <= old(self).config().to,
            old(self).config().recur is Infinite ==> !final(self)@.done,
    {
        let ghost cfg = self.config();
        let now_ns: u128 = to_nanosecond(now);
        if self.first {
            self.anchor = now_ns as i128;
            self.exact_anchor = Ghost(now_ns as int);
            self.first = false;
        }
        if self.current.at_least(self.to) {
            if !self.recur.is_infinite() {
                self.loop_counter = self.loop_counter - 1;
            }
            let shift: u128 = to_nanosecond(self.duration);
            let moved: i128 = self.anchor - shift as i128;
            self.anchor = if moved >= ANCHOR_FLOOR {
                moved
            } else {
                ANCHOR_FLOOR
            };
            self.exact_anchor = Ghost(self.exact_anchor@ - shift);
        }
        let since: i128 = now_ns as i128 - self.anchor;
        let elapsed: u128 = if since >= 0 {
            since as u128 / 1_000_000
        } else {
            0
        };
        let duration_ms: u64 = to_millisecond(self.duration);
        proof {
            lemma_millis_of_nanos(self.duration);
            self.from.lemma_limits();
            self.to.lemma_limits();
        }
        if elapsed >= duration_ms as u128 {
            proof {
                lemma_interpolate_at_end(
                    cfg.from,
                    cfg.to,
                    crate::model::elapsed_ms(self.exact_anchor@, nanos_of(now)),
                    cfg.duration_ms(),
                );
            }
            self.current = self.to;
            if self.loop_counter == 1 {
                self.done = true;
            }
        } else {
            proof {
                lemma_interpolate_inside(cfg.from, cfg.to, elapsed as nat, cfg.duration_ms());
            }
            let span: P = self.to.try_sub(self.from).unwrap();
            let gained: P = span.try_scale(elapsed as u64, duration_ms).unwrap();
            self.current = self.from.try_add(gained).unwrap();
        }
        self.current
    }

    /// Moves the run on by a tick that comes now, and returns the value for that tick.
    ///
    /// The time is read from the run's clock; the run moves as [`State::update_at`]
    /// moves it for the time that was read.
    pub fn update(&mut self) -> (value: P)
        requires
            old(self).wf(),
            !old(self)@.done,
        ensures
            final(self).wf(),
            final(self).config() == old(self).config(),
            exists|now: nat| #[trigger] step(old(self).config(), old(self)@, now) == final(self)@,
            value.value() == final(self)@.current,
            old(self).config().from <= value.value() <= old(self).config().to,
            old(self).config().recur is Infinite ==> !final(self)@.done,
    {
        let now: Duration = self.clock.elapsed();
        let value: P = self.update_at(now);
        assert(step(old(self).config(), old(self)@, nanos_of(now)) == self@);
        value
    }

    /// What the timer's tick at `now` on the run's clock leads to: `None` where the run
    /// is done, and the timer is to stop; else the run moves on and the value for the
    /// tick is returned.
    pub fn on_tick_at(&mut self, now: Duration) -> (value: Option<P>)
        requires
            old(self).wf(),
        ensures
            final(self).wf(),
            final(self).config() == old(self).config(),
            final(self)@ == tick(old(self).config(), old(self)@, nanos_of(now)),
            value is None <==> old(self)@.done,
            value matches Some(v) ==> v.value() == final(self)@.current,
    {
        if self.done {
            None
        } else {
            Some(self.update_at(now))
        }
    }

    /// What a tick of the timer that comes now leads to: `None` where the run is done,
    /// and the timer is to stop; else the run moves on by [`State::update`] and the
    /// value for the tick is returned.
    pub fn on_tick(&mut self) -> (value: Option<P>)
        requires
            old(self).wf(),
        ensures
            final(self).wf(),
            final(self).config() == old(self).config(),
            exists|now: nat| #[trigger] tick(old(self).config(), old(self)@, now) == final(self)@,
            value is None <==> old(self)@.done,
            value matches Some(v) ==> v.value() == final(self)@.current,
    {
        let now: Duration = self.clock.elapsed();
        let value: Option<P> = self.on_tick_at(now);
        assert(tick(old(self).config(), old(self)@, nanos_of(now)) == self@);
        value
    }
}

} // verus!
