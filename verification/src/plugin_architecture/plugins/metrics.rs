//! A plugin that counts what it collects and knows how long it has run.
use vstd::prelude::*;
use vstd::string::StringExecFns;
use std::time::Instant;
use crate::clock::seconds_since;
use crate::plugin_architecture::Plugin;
use crate::text::{decimal, push_decimal};

verus! {

/// A plugin that counts the metrics it collected and reports them with the
/// time it has been up.
pub struct MetricsPlugin {
    name: String,
    start_time: Instant,
    metrics_collected: u64,
}

impl MetricsPlugin {
    /// The number of metrics collected.
    pub closed spec fn collected(&self) -> u64 {
        self.metrics_collected
    }

    /// A plugin named `name`, started now, that has collected nothing.
    pub fn new(name: String) -> (plugin: MetricsPlugin)
        ensures
            plugin.name_text() == name@,
            plugin.collected() == 0,
    {
        MetricsPlugin { name, start_time: Instant::now(), metrics_collected: 0 }
    }

    /// The number of metrics collected.
    pub fn metrics_collected(&self) -> (count: u64)
        ensures
            count == self.collected(),
    {
        self.metrics_collected
    }

    /// Counts one more metric.  The counter must not have run out.
    pub fn collect(&mut self)
        requires
            old(self).collected() < u64::MAX,
        ensures
            final(self).collected() == old(self).collected() + 1,
            final(self).name_text() == old(self).name_text(),
    {
        self.metrics_collected = self.metrics_collected + 1;
    }

    /// The line that the plugin reports after `uptime` seconds.
    pub fn execute_at(&self, uptime: u64) -> (line: String)
        ensures
            line@ == self.report(uptime),
    {
        let mut line = "[".to_string();
        line.append(self.name.as_str());
        line.append("] Metrics plugin - Uptime: ");
        push_decimal(&mut line, uptime);
        line.append("s, Metrics collected: ");
        push_decimal(&mut line, self.metrics_collected);
        line
    }
}

impl Plugin for MetricsPlugin {
    closed spec fn name_text(&self) -> Seq<char> {
        self.name@
    }

    open spec fn report(&self, uptime: u64) -> Seq<char> {
        "["@ + self.name_text() + "] Metrics plugin - Uptime: "@ + decimal(uptime as nat)
            + "s, Metrics collected: "@ + decimal(self.collected() as nat)
    }

    fn name(&self) -> (name: &str) {
        self.name.as_str()
    }

    fn execute(&self) -> (line: String) {
        let uptime = seconds_since(&self.start_time);
        let line = self.execute_at(uptime);
        assert(line@ == self.report(uptime));
        assert(self.may_report(line@));
        line
    }

    fn version(&self) -> (version: &str) {
        "1.0.0"
    }
}

} // verus!
