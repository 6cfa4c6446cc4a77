//! The preset for tests.
use vstd::prelude::*;
use crate::config::{test_preset, Config};

verus! {

/// The configuration for tests.
pub fn config() -> (config: Config)
    ensures
        config@ == test_preset(),
{
    Config {
        database_url: "postgres://localhost:5432/test_db".to_string(),
        port: 3001,
        debug_mode: true,
        max_connections: 5,
    }
}

} // verus!
