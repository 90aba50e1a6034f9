//! Utilities shared by small arcade-style games.
//!
//! The two load-bearing pieces are a fixed-capacity entity pool
//! ([`pool::Pool`]) and an adaptive fixed-timestep main loop
//! ([`mainloop::MainLoop`]), together with the small helpers that the games
//! built on them use: wrapping counters, configuration paths, index-list
//! builders for line loops and triangle fans, and a seedable random number
//! source.

pub mod error;
pub mod input;
pub mod mainloop;
pub mod math;
pub mod paths;
pub mod pool;
pub mod rand;
pub mod slice;
