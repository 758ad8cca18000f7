//! How often an animation repeats.

use vstd::prelude::*;
use vstd::std_specs::convert::FromSpecImpl;

verus! {

/// How often an animation runs from its start value to its end value.
#[derive(Clone, Copy, Debug, PartialEq, Eq, Structural)]
pub enum Loop {
    /// The animation never ends.
    Infinite,
    /// The animation makes this many passes. A count of zero describes no animation.
    N(usize),
}

impl Loop {
    /// A count, where there is one, is at least one.
    pub open spec fn wf(self) -> bool {
        self matches Loop::N(n) ==> n >= 1
    }

    /// The passes that a run starts with: the count, or zero where there is none.
    pub open spec fn passes(self) -> nat {
        match self {
            Loop::Infinite => 0,
            Loop::N(n) => n as nat,
        }
    }

    /// Whether the animation repeats without end.
    pub fn is_infinite(&self) -> (b: bool)
        ensures
            b == (*self is Infinite),
    {
        match *self {
            Loop::Infinite => true,
            Loop::N(_) => false,
        }
    }

    /// Whether a count, where there is one, is at least one.
    pub fn is_wf(&self) -> (b: bool)
        ensures
            b == self.wf(),
    {
        match *self {
            Loop::Infinite => true,
            Loop::N(n) => n >= 1,
        }
    }
}

impl From<bool> for Loop {
    /// `true` repeats forever, `false` makes one pass.
    fn from(infinite: bool) -> (r: Loop) {
        if infinite {
            Loop::Infinite
        } else {
            Loop::N(1)
        }
    }
}

impl FromSpecImpl<bool> for Loop {
    open spec fn obeys_from_spec() -> bool {
        true
    }

    open spec fn from_spec(infinite: bool) -> Loop {
        if infinite {
            Loop::Infinite
        } else {
            Loop::N(1)
        }
    }
}

impl From<usize> for Loop {
    /// A count of passes.
    fn from(n: usize) -> (r: Loop) {
        Loop::N(n)
    }
}

impl FromSpecImpl<usize> for Loop {
    open spec fn obeys_from_spec() -> bool {
        true
    }

    open spec fn from_spec(n: usize) -> Loop {
        Loop::N(n)
    }
}

} // verus!
