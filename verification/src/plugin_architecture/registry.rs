//! The registry: plugins by name, run in the order of registration.
use vstd::prelude::*;
use vstd::string::StringExecFns;
use crate::chars::texts;
use crate::lookup::{
    lemma_position_found, lemma_position_meaning, lemma_position_missing, lemma_push_keeps_distinct,
    lemma_remove_keeps_distinct, position,
};
use crate::plugin_architecture::Plugin;
use crate::text::str_eq;

verus! {

/// Plugins of one type by name, in the order in which they were
/// registered.  No two plugins of a registry have the same name.  A
/// registry of plugins of several kinds is a registry of a type that
/// stands for all of them, such as `AnyPlugin`.
pub struct PluginRegistry<P: Plugin> {
    plugins: Vec<P>,
}

/// The names of a list of plugins.
pub open spec fn plugin_names<P: Plugin>(plugins: Seq<P>) -> Seq<Seq<char>> {
    plugins.map_values(|p: P| p.name_text())
}

/// The words that report a plugin that is not registered.
pub open spec fn not_found(name: Seq<char>) -> Seq<char> {
    "Plugin '"@ + name + "' not found"@
}

/// The words that report a plugin whose name is taken.
pub open spec fn already_registered(name: Seq<char>) -> Seq<char> {
    "Plugin '"@ + name + "' already registered"@
}

impl<P: Plugin> View for PluginRegistry<P> {
    type V = Seq<P>;

    closed spec fn view(&self) -> Seq<P> {
        self.plugins@
    }
}

impl<P: Plugin> Default for PluginRegistry<P> {
    fn default() -> (registry: PluginRegistry<P>)
        ensures
            registry.wf(),
            registry@.len() == 0,
    {
        PluginRegistry::new()
    }
}

impl<P: Plugin> PluginRegistry<P> {
    /// No two plugins have the same name.
    pub open spec fn wf(&self) -> bool {
        plugin_names(self@).no_duplicates()
    }

    /// A registry without plugins.
    pub fn new() -> (registry: PluginRegistry<P>)
        ensures
            registry.wf(),
            registry@.len() == 0,
    {
        PluginRegistry { plugins: Vec::new() }
    }

    /// The place of the plugin named `name`.
    fn find(&self, name: &str) -> (found: Option<usize>)
        ensures
            match found {
                Some(at) => position(plugin_names(self@), name@) == Some(at as int) && at < self@.len(),
                None => position(plugin_names(self@), name@) is None,
            },
    {
        let ghost names = plugin_names(self@);
        let mut i: usize = 0;
        while i < self.plugins.len()
            invariant
                i <= self.plugins.len(),
                names == plugin_names(self@),
                names.len() == self.plugins.len(),
                forall|j: int| 0 <= j < i ==> names[j] != name@,
            decreases self.plugins.len() - i,
        {
            if str_eq(self.plugins[i].name(), name) {
                proof {
                    assert(names[i as int] == name@);
                    lemma_position_found(names, name@, i as int);
                }
                return Some(i);
            }
            i = i + 1;
        }
        proof {
            lemma_position_missing(names, name@);
        }
        None
    }

    /// Registers `plugin` after those registered before.  A plugin whose
    /// name is taken is refused, and the registry stays as it was.
    pub fn register(&mut self, plugin: P) -> (outcome: Result<(), String>)
        requires
            old(self).wf(),
        ensures
            final(self).wf(),
            match position(plugin_names(old(self)@), plugin.name_text()) {
                None => outcome is Ok && final(self)@ == old(self)@.push(plugin),
                Some(_) => (outcome matches Err(words) && words@ == already_registered(
                    plugin.name_text(),
                )) && final(self)@ == old(self)@,
            },
    {
        if self.find(plugin.name()).is_some() {
            let mut words = "Plugin '".to_string();
            words.append(plugin.name());
            words.append("' already registered");
            return Err(words);
        }
        proof {
            lemma_push_keeps_distinct(plugin_names(self@), plugin.name_text());
            assert(plugin_names(self@.push(plugin)) =~= plugin_names(self@).push(plugin.name_text()));
        }
        self.plugins.push(plugin);
        Ok(())
    }

    /// Takes the plugin named `name` out.  A name that is not registered is
    /// refused, and the registry stays as it was.
    pub fn unregister(&mut self, name: &str) -> (outcome: Result<(), String>)
        requires
            old(self).wf(),
        ensures
            final(self).wf(),
            match position(plugin_names(old(self)@), name@) {
                Some(at) => outcome is Ok && final(self)@ == old(self)@.remove(at) && position(
                    plugin_names(final(self)@),
                    name@,
                ) is None,
                None => (outcome matches Err(words) && words@ == not_found(name@)) && final(self)@
                    == old(self)@,
            },
    {
        match self.find(name) {
            Some(at) => {
                proof {
                    lemma_remove_keeps_distinct(plugin_names(self@), at as int);
                    assert(plugin_names(self@.remove(at as int)) =~= plugin_names(self@).remove(at as int));
                    lemma_position_missing(plugin_names(self@).remove(at as int), name@);
                }
                self.plugins.remove(at);
                Ok(())
            },
            None => {
                let mut words = "Plugin '".to_string();
                words.append(name);
                words.append("' not found");
                Err(words)
            },
        }
    }

    /// Runs every plugin, in the order of registration, and gives the lines
    /// that they report.
    pub fn execute_all(&self) -> (lines: Vec<String>)
        ensures
            lines@.len() == self@.len(),
            forall|i: int| 0 <= i < self@.len() ==> self@[i].may_report((#[trigger] lines@[i])@),
    {
        let mut lines: Vec<String> = Vec::new();
        let mut i: usize = 0;
        while i < self.plugins.len()
            invariant
                i <= self.plugins.len(),
                lines@.len() == i,
                forall|j: int| 0 <= j < i ==> self@[j].may_report((#[trigger] lines@[j])@),
            decreases self.plugins.len() - i,
        {
            let line = self.plugins[i].execute();
            lines.push(line);
            i = i + 1;
        }
        lines
    }

    /// Runs the plugin named `name` and gives the line that it reports.  A
    /// name that is not registered is refused.
    pub fn execute(&self, name: &str) -> (outcome: Result<String, String>)
        ensures
            match position(plugin_names(self@), name@) {
                Some(at) => outcome matches Ok(line) && self@[at].may_report(line@),
                None => outcome matches Err(words) && words@ == not_found(name@),
            },
    {
        match self.find(name) {
            Some(at) => Ok(self.plugins[at].execute()),
            None => {
                let mut words = "Plugin '".to_string();
                words.append(name);
                words.append("' not found");
                Err(words)
            },
        }
    }

    /// The names of the plugins, in the order of registration.
    pub fn list_plugins(&self) -> (names: Vec<String>)
        ensures
            texts(names@) == plugin_names(self@),
    {
        let mut names: Vec<String> = Vec::new();
        let mut i: usize = 0;
        while i < self.plugins.len()
            invariant
                i <= self.plugins.len(),
                names@.len() == i,
                forall|j: int| 0 <= j < i ==> names@[j]@ == self@[j].name_text(),
            decreases self.plugins.len() - i,
        {
            names.push(self.plugins[i].name().to_string());
            i = i + 1;
        }
        assert(texts(names@) =~= plugin_names(self@));
        names
    }

    /// The name and the version of the plugin named `name`, if it is
    /// registered.
    pub fn get_plugin_info(&self, name: &str) -> (info: Option<(String, String)>)
        ensures
            match position(plugin_names(self@), name@) {
                Some(at) => info matches Some((found, version)) && found@ == name@ && version@
                    == self@[at].version_text(),
                None => info is None,
            },
    {
        match self.find(name) {
            Some(at) => {
                proof {
                    lemma_position_meaning(plugin_names(self@), name@);
                }
                Some((self.plugins[at].name().to_string(), self.plugins[at].version().to_string()))
            },
            None => None,
        }
    }
}

} // verus!
