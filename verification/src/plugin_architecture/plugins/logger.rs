//! A plugin that logs.
use vstd::prelude::*;
use vstd::string::StringExecFns;
use crate::plugin_architecture::Plugin;

verus! {

/// How much a logger reports.
#[derive(Debug, Clone, Copy, PartialEq, Eq, Structural)]
pub enum LogLevel {
    Debug,
    Info,
    Warn,
    Error,
}

/// The name of a level.
pub open spec fn level_name(level: LogLevel) -> Seq<char> {
    match level {
        LogLevel::Debug => "Debug"@,
        LogLevel::Info => "Info"@,
        LogLevel::Warn => "Warn"@,
        LogLevel::Error => "Error"@,
    }
}

/// A plugin that logs at a level.
pub struct LoggerPlugin {
    name: String,
    level: LogLevel,
}

impl LoggerPlugin {
    /// The level at which the plugin logs.
    pub closed spec fn level(&self) -> LogLevel {
        self.level
    }

    /// A logger named `name` that logs at `level`.
    pub fn new(name: String, level: LogLevel) -> (plugin: LoggerPlugin)
        ensures
            plugin.name_text() == name@,
            plugin.level() == level,
    {
        LoggerPlugin { name, level }
    }
}

impl Plugin for LoggerPlugin {
    closed spec fn name_text(&self) -> Seq<char> {
        self.name@
    }

    open spec fn version_text(&self) -> Seq<char> {
        "2.0.0"@
    }

    open spec fn report(&self, uptime: u64) -> Seq<char> {
        "["@ + self.name_text() + "] Logger plugin executing at level "@ + level_name(self.level())
    }

    fn name(&self) -> (name: &str) {
        self.name.as_str()
    }

    fn execute(&self) -> (line: String) {
        let mut line = "[".to_string();
        line.append(self.name.as_str());
        line.append("] Logger plugin executing at level ");
        line.append(
            match self.level {
                LogLevel::Debug => "Debug",
                LogLevel::Info => "Info",
                LogLevel::Warn => "Warn",
                LogLevel::Error => "Error",
            },
        );
        assert(line@ == self.report(0));
        assert(self.may_report(line@));
        line
    }

    fn version(&self) -> (version: &str) {
        "2.0.0"
    }
}

} // verus!
