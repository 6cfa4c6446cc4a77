//! Plugins behind one interface, and a registry that runs them by name.
use vstd::prelude::*;

pub mod plugins;
pub mod registry;

verus! {

/// Something that can be run under a name.  Running it gives the line that
/// it reports.
pub trait Plugin {
    /// The plugin's name.
    spec fn name_text(&self) -> Seq<char>;

    /// The plugin's version; `1.0.0` unless the plugin says otherwise.
    open spec fn version_text(&self) -> Seq<char> {
        "1.0.0"@
    }

    /// The line that the plugin reports when its clock shows that it has
    /// been up for `uptime` seconds.
    spec fn report(&self, uptime: u64) -> Seq<char>;

    /// `line` is what the plugin reports at some reading of its clock.
    open spec fn may_report(&self, line: Seq<char>) -> bool {
        exists|uptime: u64| line == #[trigger] self.report(uptime)
    }

    fn name(&self) -> (name: &str)
        ensures
            name@ == self.name_text(),
    ;

    fn execute(&self) -> (line: String)
        ensures
            self.may_report(line@),
    ;

    fn version(&self) -> (version: &str)
        ensures
            version@ == self.version_text(),
    ;
}

} // verus!
