//! The preset for production.
use vstd::prelude::*;
use crate::chars::optional_text;
use crate::config::{production_preset, Config};

verus! {

/// The configuration for production; `database_url` is what the variable
/// `DATABASE_URL` holds, if it is set.
pub fn config(database_url: Option<String>) -> (config: Config)
    ensures
        config@ == production_preset(optional_text(database_url)),
{
    Config {
        database_url: match database_url {
            Some(url) => url,
            None => "postgres://prod-server:5432/prod_db".to_string(),
        },
        port: 8080,
        debug_mode: false,
        max_connections: 100,
    }
}

} // verus!
