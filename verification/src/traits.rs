//! Behaviour behind traits: values that can be compared, plugins that can
//! be run and configured, and a filter-and-map over a list.
use vstd::prelude::*;
use vstd::string::StringExecFns;
use crate::chars::{parse_u32, to_chars};
use crate::text::push_decimal;

verus! {

/// How one value stands to another.
#[derive(Debug, Clone, Copy, PartialEq, Eq, Structural)]
pub enum Comparison {
    Less,
    Equal,
    Greater,
}

/// Values that can be compared with one another.
pub trait Comparable {
    /// How `self` stands to `other`.
    spec fn compared(&self, other: &Self) -> Comparison;

    fn compare(&self, other: &Self) -> (order: Comparison)
        ensures
            order == self.compared(other),
    ;

    fn is_greater(&self, other: &Self) -> (greater: bool)
        ensures
            greater == (self.compared(other) == Comparison::Greater),
    {
        matches!(self.compare(other), Comparison::Greater)
    }

    fn is_less(&self, other: &Self) -> (less: bool)
        ensures
            less == (self.compared(other) == Comparison::Less),
    {
        matches!(self.compare(other), Comparison::Less)
    }

    fn is_equal(&self, other: &Self) -> (equal: bool)
        ensures
            equal == (self.compared(other) == Comparison::Equal),
    {
        matches!(self.compare(other), Comparison::Equal)
    }
}

/// How one number stands to another.
pub open spec fn compare_numbers(a: int, b: int) -> Comparison {
    if a < b {
        Comparison::Less
    } else if a > b {
        Comparison::Greater
    } else {
        Comparison::Equal
    }
}

/// How one text stands to another in dictionary order by code point: the
/// first character in which they differ decides, and a text that runs out
/// first comes first.
pub open spec fn compare_texts(a: Seq<char>, b: Seq<char>) -> Comparison
    decreases a.len(),
{
    if a.len() == 0 {
        if b.len() == 0 {
            Comparison::Equal
        } else {
            Comparison::Less
        }
    } else if b.len() == 0 {
        Comparison::Greater
    } else if a[0] != b[0] {
        if (a[0] as u32) < (b[0] as u32) {
            Comparison::Less
        } else {
            Comparison::Greater
        }
    } else {
        compare_texts(a.skip(1), b.skip(1))
    }
}

/// How one text stands to another in dictionary order by code point.
pub fn compare_strings(a: &str, b: &str) -> (order: Comparison)
    ensures
        order == compare_texts(a@, b@),
{
    let left = to_chars(a);
    let right = to_chars(b);
    let mut i: usize = 0;
    assert(a@.skip(0) =~= a@);
    assert(b@.skip(0) =~= b@);
    while i < left.len() && i < right.len()
        invariant
            i <= left.len(),
            i <= right.len(),
            left@ == a@,
            right@ == b@,
            compare_texts(a@, b@) == compare_texts(a@.skip(i as int), b@.skip(i as int)),
        decreases left.len() - i,
    {
        assert(a@.skip(i as int)[0] == left@[i as int]);
        assert(b@.skip(i as int)[0] == right@[i as int]);
        if left[i] != right[i] {
            let x: u32 = left[i] as u32;
            let y: u32 = right[i] as u32;
            if x < y {
                return Comparison::Less;
            } else {
                return Comparison::Greater;
            }
        }
        assert(a@.skip(i as int).skip(1) =~= a@.skip(i as int + 1));
        assert(b@.skip(i as int).skip(1) =~= b@.skip(i as int + 1));
        i = i + 1;
    }
    if i < right.len() {
        Comparison::Less
    } else if i < left.len() {
        Comparison::Greater
    } else {
        Comparison::Equal
    }
}

/// A person.
#[derive(Debug)]
pub struct Person {
    pub name: String,
    pub age: u32,
}

impl Comparable for Person {
    /// People are ordered by age, and people of one age by name.
    open spec fn compared(&self, other: &Self) -> Comparison {
        if self.age != other.age {
            compare_numbers(self.age as int, other.age as int)
        } else {
            compare_texts(self.name@, other.name@)
        }
    }

    fn compare(&self, other: &Self) -> (order: Comparison) {
        if self.age < other.age {
            Comparison::Less
        } else if self.age > other.age {
            Comparison::Greater
        } else {
            compare_strings(self.name.as_str(), other.name.as_str())
        }
    }
}

/// Two texts stand to each other as equals exactly when they are the same
/// text.
pub proof fn lemma_compare_texts_equal(a: Seq<char>, b: Seq<char>)
    ensures
        compare_texts(a, b) == Comparison::Equal <==> a == b,
    decreases a.len(),
{
    if a.len() > 0 && b.len() > 0 {
        lemma_compare_texts_equal(a.skip(1), b.skip(1));
        if a[0] == b[0] && a.skip(1) == b.skip(1) {
            assert(a =~= seq![a[0]] + a.skip(1));
            assert(b =~= seq![b[0]] + b.skip(1));
        }
    } else if a.len() == 0 && b.len() == 0 {
        assert(a =~= b);
    }
}

/// Something that can be run under a name.  Running it gives the line that
/// it reports.
pub trait Plugin {
    /// The plugin's name.
    spec fn name_text(&self) -> Seq<char>;

    /// The line that running the plugin reports.
    spec fn report(&self) -> Seq<char>;

    fn name(&self) -> (name: &str)
        ensures
            name@ == self.name_text(),
    ;

    fn execute(&self) -> (line: String)
        ensures
            line@ == self.report(),
    ;
}

/// Something that takes a setting in words.  The line that it reports of
/// the setting comes back, or none where the setting was not understood.
pub trait Configurable {
    fn configure(&mut self, config: &str) -> Option<String>;
}

/// A plugin that logs at a level.
pub struct LogPlugin {
    pub name: String,
    pub level: String,
}

/// A plugin that collects metrics at an interval, in seconds.
pub struct MetricsPlugin {
    pub name: String,
    pub interval: u32,
}

impl Plugin for LogPlugin {
    open spec fn name_text(&self) -> Seq<char> {
        self.name@
    }

    open spec fn report(&self) -> Seq<char> {
        "["@ + self.name@ + "] Logging at level: "@ + self.level@
    }

    fn name(&self) -> (name: &str) {
        self.name.as_str()
    }

    fn execute(&self) -> (line: String) {
        let mut line = "[".to_string();
        line.append(self.name.as_str());
        line.append("] Logging at level: ");
        line.append(self.level.as_str());
        line
    }
}

impl Configurable for LogPlugin {
    /// Any text is a level.
    fn configure(&mut self, config: &str) -> (line: Option<String>)
        ensures
            final(self).name@ == old(self).name@,
            final(self).level@ == config@,
            line matches Some(words) && words@ == "LogPlugin configured with level: "@ + config@,
    {
        self.level = config.to_string();
        let mut words = "LogPlugin configured with level: ".to_string();
        words.append(self.level.as_str());
        Some(words)
    }
}

impl Plugin for MetricsPlugin {
    open spec fn name_text(&self) -> Seq<char> {
        self.name@
    }

    open spec fn report(&self) -> Seq<char> {
        "["@ + self.name@ + "] Collecting metrics every "@ + crate::text::decimal(self.interval as nat)
            + " seconds"@
    }

    fn name(&self) -> (name: &str) {
        self.name.as_str()
    }

    fn execute(&self) -> (line: String) {
        let mut line = "[".to_string();
        line.append(self.name.as_str());
        line.append("] Collecting metrics every ");
        push_decimal(&mut line, self.interval as u64);
        line.append(" seconds");
        line
    }
}

impl Configurable for MetricsPlugin {
    /// A setting that writes a number of seconds sets the interval; any
    /// other setting is passed over.
    fn configure(&mut self, config: &str) -> (line: Option<String>)
        ensures
            final(self).name@ == old(self).name@,
            match crate::chars::as_u32(config@) {
                Ok(seconds) => final(self).interval == seconds && (line matches Some(words) && words@
                    == "MetricsPlugin configured with interval: "@ + crate::text::decimal(seconds as nat)
                    + " seconds"@),
                Err(_) => final(self).interval == old(self).interval && line is None,
            },
    {
        match parse_u32(config) {
            Ok(seconds) => {
                self.interval = seconds;
                let mut words = "MetricsPlugin configured with interval: ".to_string();
                push_decimal(&mut words, seconds as u64);
                words.append(" seconds");
                Some(words)
            },
            Err(_) => None,
        }
    }
}

/// Holds plugins of one type in the order in which they were registered.
pub struct PluginManager<P: Plugin> {
    plugins: Vec<P>,
}

/// The lines that a list of plugins reports.
pub open spec fn plugin_reports<P: Plugin>(plugins: Seq<P>) -> Seq<Seq<char>> {
    plugins.map_values(|p: P| p.report())
}

impl<P: Plugin> View for PluginManager<P> {
    type V = Seq<P>;

    closed spec fn view(&self) -> Seq<P> {
        self.plugins@
    }
}

impl<P: Plugin> PluginManager<P> {
    /// A manager without plugins.
    pub fn new() -> (manager: PluginManager<P>)
        ensures
            manager@.len() == 0,
    {
        PluginManager { plugins: Vec::new() }
    }

    /// Adds `plugin` after those registered before, and gives the line that
    /// announces it.
    pub fn register(&mut self, plugin: P) -> (line: String)
        ensures
            final(self)@ == old(self)@.push(plugin),
            line@ == "Registering plugin: "@ + plugin.name_text(),
    {
        let mut line = "Registering plugin: ".to_string();
        line.append(plugin.name());
        self.plugins.push(plugin);
        line
    }

    /// The number of plugins registered.
    pub fn len(&self) -> (count: usize)
        ensures
            count == self@.len(),
    {
        self.plugins.len()
    }

    /// Runs every plugin, in the order of registration, and gives the lines
    /// that they report.
    pub fn run_all(&self) -> (lines: Vec<String>)
        ensures
            crate::chars::texts(lines@) == plugin_reports(self@),
    {
        let mut lines: Vec<String> = Vec::new();
        let mut i: usize = 0;
        while i < self.plugins.len()
            invariant
                i <= self.plugins.len(),
                lines@.len() == i,
                forall|j: int| 0 <= j < i ==> lines@[j]@ == self.plugins@[j].report(),
            decreases self.plugins.len() - i,
        {
            lines.push(self.plugins[i].execute());
            i = i + 1;
        }
        assert(crate::chars::texts(lines@) =~= plugin_reports(self@));
        lines
    }
}

/// `outputs` is what is left of `inputs` after `f` was applied to each item
/// in turn and the items for which it gave nothing were dropped.
pub open spec fn filter_mapped<A, B, F: Fn(A) -> Option<B>>(f: F, inputs: Seq<A>, outputs: Seq<B>) -> bool
    decreases inputs.len(),
{
    if inputs.len() == 0 {
        outputs.len() == 0
    } else {
        ||| (f.ensures((inputs.last(),), None::<B>) && filter_mapped(f, inputs.drop_last(), outputs))
        ||| (outputs.len() > 0 && f.ensures((inputs.last(),), Some(outputs.last())) && filter_mapped(
            f,
            inputs.drop_last(),
            outputs.drop_last(),
        ))
    }
}

/// Applies `f` to each item in turn and keeps, in order, what it gives.
pub fn filter_map_custom<A, B, F: Fn(A) -> Option<B>>(items: Vec<A>, f: F) -> (kept: Vec<B>)
    requires
        forall|i: int| 0 <= i < items@.len() ==> f.requires((#[trigger] items@[i],)),
    ensures
        filter_mapped(f, items@, kept@),
        kept@.len() <= items@.len(),
{
    let mut kept: Vec<B> = Vec::new();
    let ghost all = items@;
    for item in it: items.into_iter()
        invariant
            it.seq() == all,
            forall|i: int| 0 <= i < all.len() ==> f.requires((#[trigger] all[i],)),
            filter_mapped(f, all.take(it.index() as int), kept@),
            kept@.len() <= it.index(),
    {
        let ghost before = kept@;
        proof {
            assert(all.take(it.index() as int + 1).drop_last() =~= all.take(it.index() as int));
            assert(all.take(it.index() as int + 1).last() == item);
        }
        match f(item) {
            Some(value) => {
                kept.push(value);
                assert(kept@.drop_last() =~= before);
            },
            None => {},
        }
    }
    assert(all.take(all.len() as int) =~= all);
    kept
}

} // verus!
