//! Addresses derived from a configuration.
use vstd::prelude::*;
use vstd::string::StringExecFns;
use crate::config::{Config, ConfigModel};
use crate::text::{decimal, push_decimal};

verus! {

/// The address at which the database is reached: its URL with the number of
/// connections as a parameter.
pub open spec fn connection_text(config: ConfigModel) -> Seq<char> {
    config.database_url + "?max_connections="@ + decimal(config.max_connections as nat)
}

/// The address at which the service listens: every interface, at the
/// configured port.
pub open spec fn server_text(config: ConfigModel) -> Seq<char> {
    "0.0.0.0:"@ + decimal(config.port as nat)
}

/// The address at which the database is reached.
pub fn connection_string(config: &Config) -> (address: String)
    ensures
        address@ == connection_text(config@),
{
    let mut address = config.database_url.clone();
    address.append("?max_connections=");
    push_decimal(&mut address, config.max_connections as u64);
    address
}

/// The address at which the service listens.
pub fn server_address(config: &Config) -> (address: String)
    ensures
        address@ == server_text(config@),
{
    let mut address = "0.0.0.0:".to_string();
    push_decimal(&mut address, config.port as u64);
    address
}

} // verus!
