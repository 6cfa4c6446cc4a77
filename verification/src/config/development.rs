//! The preset for development.
use vstd::prelude::*;
use crate::config::{development_preset, Config};

verus! {

/// The configuration for development.
pub fn config() -> (config: Config)
    ensures
        config@ == development_preset(),
{
    Config {
        database_url: "postgres://localhost:5432/dev_db".to_string(),
        port: 3000,
        debug_mode: true,
        max_connections: 10,
    }
}

} // verus!
