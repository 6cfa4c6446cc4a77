//! The plugins that come with the library, and one type that stands for any
//! of them.
use vstd::prelude::*;
use crate::plugin_architecture::plugins::auth::AuthPlugin;
use crate::plugin_architecture::plugins::logger::LoggerPlugin;
use crate::plugin_architecture::plugins::metrics::MetricsPlugin;
use crate::plugin_architecture::Plugin;

pub mod auth;
pub mod logger;
pub mod metrics;

verus! {

/// Any of the plugins that come with the library.
pub enum AnyPlugin {
    Logger(LoggerPlugin),
    Metrics(MetricsPlugin),
    Auth(AuthPlugin),
}

impl Plugin for AnyPlugin {
    open spec fn name_text(&self) -> Seq<char> {
        match *self {
            AnyPlugin::Logger(plugin) => plugin.name_text(),
            AnyPlugin::Metrics(plugin) => plugin.name_text(),
            AnyPlugin::Auth(plugin) => plugin.name_text(),
        }
    }

    open spec fn version_text(&self) -> Seq<char> {
        match *self {
            AnyPlugin::Logger(plugin) => plugin.version_text(),
            AnyPlugin::Metrics(plugin) => plugin.version_text(),
            AnyPlugin::Auth(plugin) => plugin.version_text(),
        }
    }

    open spec fn report(&self, uptime: u64) -> Seq<char> {
        match *self {
            AnyPlugin::Logger(plugin) => plugin.report(uptime),
            AnyPlugin::Metrics(plugin) => plugin.report(uptime),
            AnyPlugin::Auth(plugin) => plugin.report(uptime),
        }
    }

    fn name(&self) -> (name: &str) {
        match self {
            AnyPlugin::Logger(plugin) => plugin.name(),
            AnyPlugin::Metrics(plugin) => plugin.name(),
            AnyPlugin::Auth(plugin) => plugin.name(),
        }
    }

    fn execute(&self) -> (line: String) {
        match self {
            AnyPlugin::Logger(plugin) => {
                let line = plugin.execute();
                let ghost uptime = choose|uptime: u64| line@ == plugin.report(uptime);
                assert(line@ == self.report(uptime));
                line
            },
            AnyPlugin::Metrics(plugin) => {
                let line = plugin.execute();
                let ghost uptime = choose|uptime: u64| line@ == plugin.report(uptime);
                assert(line@ == self.report(uptime));
                line
            },
            AnyPlugin::Auth(plugin) => {
                let line = plugin.execute();
                let ghost uptime = choose|uptime: u64| line@ == plugin.report(uptime);
                assert(line@ == self.report(uptime));
                line
            },
        }
    }

    fn version(&self) -> (version: &str) {
        match self {
            AnyPlugin::Logger(plugin) => plugin.version(),
            AnyPlugin::Metrics(plugin) => plugin.version(),
            AnyPlugin::Auth(plugin) => plugin.version(),
        }
    }
}

} // verus!
