//! A small telemetry pipeline for periodic temperature measurements,
//! together with a set of self-contained study modules.
//!
//! Temperatures are fixed-point numbers: thousandths of a degree Celsius
//! held in an `i32`.  The bounded history, the protocol handler, the
//! sampling monitor and the fixed-capacity variants all speak of that one
//! representation.
use vstd::prelude::*;

pub mod clock;
pub mod text;
pub mod chars;
pub mod temperature;
pub mod store;
pub mod lookup;
pub mod sensor;
pub mod protocol;
pub mod embedded;
pub mod fixed_text;
pub mod monitor;
pub mod generics;
pub mod pattern_matching;
pub mod library_system;
pub mod error_handling;
pub mod config;
pub mod traits;
pub mod iterators;
pub mod plugin_architecture;
pub mod collections;

verus! {

/// Returns the constant answer, forty-two.
pub fn exercise_example_solution() -> (answer: u64)
    ensures
        answer == 42,
{
    42
}

} // verus!
