//! The description of an animation, built step by step.

use crate::laws::lemma_step_keeps_inv;
use crate::model::initial;
use crate::model::tick;
use crate::model::Config;
use crate::number::Number;
use crate::repeat::Loop;
use crate::state::State;
use crate::time::checked_millisecond;
use crate::time::lemma_millis_of_nanos;
use crate::time::nanos_of;
use std::time::Duration;
use std::time::Instant;
use vstd::prelude::*;
use vstd::std_specs::convert::IntoSpec;

verus! {

/// The description of one animation: the bounds between which a value moves, the timing,
/// how often it repeats, and the function that turns each value into a message.
///
/// It is made by [`Animation::new`] with defaults and changed by the setters, each of
/// which changes one part and leaves the others as they are.
pub struct Animation<P, F> {
    callback: F,
    from: P,
    to: P,
    delay: Duration,
    duration: Duration,
    frame: Duration,
    recur: Loop,
}

impl<P: Number, F> View for Animation<P, F> {
    type V = Config;

    closed spec fn view(&self) -> Config {
        Config {
            from: self.from.value(),
            to: self.to.value(),
            delay: nanos_of(self.delay),
            duration: nanos_of(self.duration),
            frame: nanos_of(self.frame),
            recur: self.recur,
        }
    }
}

impl<P: Number, F: Clone> Clone for Animation<P, F> {
    /// A copy that says the same, with a clone of the function.
    fn clone(&self) -> (a: Self)
        ensures
            a@ == self@,
            cloned(self.mapping(), a.mapping()),
    {
        Animation {
            callback: self.callback.clone(),
            from: self.from,
            to: self.to,
            delay: self.delay,
            duration: self.duration,
            frame: self.frame,
            recur: self.recur,
        }
    }
}

impl<P: Number, F> Animation<P, F> {
    /// The function that turns each value into a message.
    pub closed spec fn mapping(&self) -> F {
        self.callback
    }

    /// Whether the animation can run: its configuration can, and the value type holds
    /// the distance between the bounds.
    pub open spec fn runnable(&self) -> bool {
        self@.runnable() && self@.span() <= P::highest()
    }

    /// Sets the value at which each pass starts.
    pub fn from(self, from: P) -> (a: Animation<P, F>)
        ensures
            a@ == self@.with_from(from.value()),
            a.mapping() == self.mapping(),
    {
        let mut a = self;
        a.from = from;
        a
    }

    /// Sets the value at which each pass ends.
    pub fn to(self, to: P) -> (a: Animation<P, F>)
        ensures
            a@ == self@.with_to(to.value()),
            a.mapping() == self.mapping(),
    {
        let mut a = self;
        a.to = to;
        a
    }

    /// Sets how often the animation runs: `true` for ever, `false` for once, or a
    /// count of passes.
    pub fn recur<L: Into<Loop>>(self, recur: L) -> (a: Animation<P, F>)
        ensures
            <L as IntoSpec<Loop>>::obeys_into_spec() ==> a@ == self@.with_recur(recur.into_spec()),
            a@.with_recur(self@.recur) == self@,
            a.mapping() == self.mapping(),
    {
        let mut a = self;
        a.recur = recur.into();
        a
    }

    /// Sets the span before the first tick.
    pub fn delay(self, delay: Duration) -> (a: Animation<P, F>)
        ensures
            a@ == self@.with_delay(nanos_of(delay)),
            a.mapping() == self.mapping(),
    {
        let mut a = self;
        a.delay = delay;
        a
    }

    /// Sets the length of one pass.
    pub fn duration(self, duration: Duration) -> (a: Animation<P, F>)
        ensures
            a@ == self@.with_duration(nanos_of(duration)),
            a.mapping() == self.mapping(),
    {
        let mut a = self;
        a.duration = duration;
        a
    }

    /// The span before the first tick.
    pub fn start_delay(&self) -> (delay: Duration)
        ensures
            nanos_of(delay) == self@.delay,
    {
        self.delay
    }

    /// The span between two ticks.
    pub fn frame(&self) -> (frame: Duration)
        ensures
            nanos_of(frame) == self@.frame,
    {
        self.frame
    }

    /// The function that turns each value into a message.
    pub fn callback(&self) -> (f: &F)
        ensures
            *f == self.mapping(),
    {
        &self.callback
    }

    /// Whether the animation can run.
    pub fn is_runnable(&self) -> (b: bool)
        ensures
            b == self.runnable(),
    {
        proof {
            lemma_millis_of_nanos(self.duration);
            self.from.lemma_limits();
            self.to.lemma_limits();
        }
        let rising: bool = !self.from.at_least(self.to);
        let spans: bool = self.to.try_sub(self.from).is_some();
        let timed: bool = match checked_millisecond(self.duration) {
            Some(ms) => ms >= 1,
            None => false,
        };
        rising && spans && timed && self.recur.is_wf()
    }

    /// A run of the animation before its first tick, on a clock that starts now.
    pub fn state(&self) -> (s: State<P>)
        requires
            self.runnable(),
        ensures
            s.wf(),
            s.config() == self@,
            s@ == initial(self@),
    {
        State::start(Instant::now(), self.from, self.to, self.delay, self.duration, self.frame, self.recur)
    }
}

impl<P: Number, MSG, F: Fn(P) -> MSG> Animation<P, F> {
    /// An animation from zero to one in one second, once, without delay, with a tick
    /// every 16 milliseconds; `callback` turns each value into a message.
    pub fn new(callback: F) -> (a: Animation<P, F>)
        ensures
            a@ == (Config {
                from: 0,
                to: 1,
                delay: 0,
                duration: 1_000_000_000,
                frame: 16_000_000,
                recur: Loop::N(1),
            }),
            a.mapping() == callback,
    {
        Animation {
            callback,
            from: P::zero(),
            to: P::one(),
            delay: Duration::from_secs(0),
            duration: Duration::from_secs(1),
            frame: Duration::from_millis(16),
            recur: Loop::N(1),
        }
    }

    /// The message for a value.
    pub fn notify(&self, value: P) -> (msg: MSG)
        requires
            call_requires(self.mapping(), (value,)),
        ensures
            call_ensures(self.mapping(), (value,), msg),
    {
        (self.callback)(value)
    }

    /// Whether the function takes every value that a run between `from` and `to` can
    /// give.
    pub open spec fn maps_all(&self, from: int, to: int) -> bool {
        forall|p: P| from <= p.value() <= to ==> call_requires(self.mapping(), (p,))
    }

    /// Whether `msg` is a message that the function gives for a value that stands for
    /// `value`.
    pub open spec fn maps_to(&self, value: int, msg: MSG) -> bool {
        exists|p: P| #[trigger] p.value() == value && call_ensures(self.mapping(), (p,), msg)
    }

    /// What the timer's tick at `now` on the clock of `state` leads to: `None` where the
    /// run is done, and the timer is to stop; else the run moves on and the message for
    /// the value of the tick is returned.
    pub fn next_message_at(&self, state: &mut State<P>, now: Duration) -> (msg: Option<MSG>)
        requires
            old(state).wf(),
            self.maps_all(old(state).config().from, old(state).config().to),
        ensures
            final(state).wf(),
            final(state).config() == old(state).config(),
            final(state)@ == tick(old(state).config(), old(state)@, nanos_of(now)),
            msg is None <==> old(state)@.done,
            msg matches Some(m) ==> self.maps_to(final(state)@.current, m),
    {
        proof {
            state.lemma_wf();
        }
        match state.on_tick_at(now) {
            Some(value) => {
                proof {
                    if !old(state)@.done {
                        lemma_step_keeps_inv(old(state).config(), old(state)@, nanos_of(now));
                    }
                }
                let m: MSG = self.notify(value);
                assert(value.value() == state@.current && call_ensures(self.mapping(), (value,), m));
                Some(m)
            },
            None => None,
        }
    }

    /// What a tick of the timer that comes now leads to: `None` where the run is done,
    /// and the timer is to stop; else the run moves on by the time that its clock shows
    /// and the message for the value of the tick is returned.
    pub fn next_message(&self, state: &mut State<P>) -> (msg: Option<MSG>)
        requires
            old(state).wf(),
            self.maps_all(old(state).config().from, old(state).config().to),
        ensures
            final(state).wf(),
            final(state).config() == old(state).config(),
            exists|now: nat| #[trigger] tick(old(state).config(), old(state)@, now) == final(state)@,
            msg is None <==> old(state)@.done,
            msg matches Some(m) ==> self.maps_to(final(state)@.current, m),
    {
        proof {
            state.lemma_wf();
        }
        match state.on_tick() {
            Some(value) => {
                proof {
                    let now = choose|now: nat| #[trigger]
                        tick(old(state).config(), old(state)@, now) == state@;
                    if !old(state)@.done {
                        lemma_step_keeps_inv(old(state).config(), old(state)@, now);
                    }
                }
                let m: MSG = self.notify(value);
                assert(value.value() == state@.current && call_ensures(self.mapping(), (value,), m));
                Some(m)
            },
            None => None,
        }
    }
}

} // verus!
