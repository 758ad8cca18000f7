//! Tick-driven interpolation of a value between two bounds over wall-clock time.
//!
//! An [`Animation`] describes one run: the bounds, the timing and how often it repeats.
//! A [`State`] is one run in progress. Each tick moves it on by one call of
//! [`State::update`], which returns the value for that tick.

pub mod animation;
pub mod laws;
pub mod model;
pub mod number;
pub mod repeat;
pub mod state;
pub mod time;

pub use animation::Animation;
pub use number::Number;
pub use repeat::Loop;
pub use state::State;
pub use time::to_millisecond;
