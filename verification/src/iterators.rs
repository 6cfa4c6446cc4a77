//! A pipeline over log lines: parse what can be parsed, then select, count
//! and rank the entries.
use vstd::prelude::*;
use crate::chars::{as_u64, contains, contains_text, parse_u64, split, split_on, texts};
use crate::text::str_eq;

verus! {

/// How serious a log entry is.
#[derive(Debug, PartialEq, Eq, Hash, Clone, Copy, Structural)]
pub enum LogLevel {
    Debug,
    Info,
    Warning,
    Error,
}

/// One entry of a log.
#[derive(Debug, Clone)]
pub struct LogEntry {
    pub timestamp: u64,
    pub level: LogLevel,
    pub message: String,
}

/// What a `LogEntry` says.
pub struct LogEntryModel {
    pub timestamp: u64,
    pub level: LogLevel,
    pub message: Seq<char>,
}

impl View for LogEntry {
    type V = LogEntryModel;

    open spec fn view(&self) -> LogEntryModel {
        LogEntryModel { timestamp: self.timestamp, level: self.level, message: self.message@ }
    }
}

/// What each entry of a list says.
pub open spec fn entry_models(entries: Seq<LogEntry>) -> Seq<LogEntryModel> {
    entries.map_values(|entry: LogEntry| entry@)
}

/// The level that a name stands for.
pub open spec fn level_named(name: Seq<char>) -> Option<LogLevel> {
    if name == "DEBUG"@ {
        Some(LogLevel::Debug)
    } else if name == "INFO"@ {
        Some(LogLevel::Info)
    } else if name == "WARNING"@ {
        Some(LogLevel::Warning)
    } else if name == "ERROR"@ {
        Some(LogLevel::Error)
    } else {
        None
    }
}

/// The entry that a line holds.  A line is `timestamp|level|message`: three
/// parts between two bars, the first an unsigned number, the second the
/// name of a level.
pub open spec fn parsed_entry(line: Seq<char>) -> Option<LogEntryModel> {
    let parts = split_on(line, '|');
    if parts.len() != 3 {
        None
    } else {
        match (as_u64(parts[0]), level_named(parts[1])) {
            (Ok(timestamp), Some(level)) => Some(
                LogEntryModel { timestamp: timestamp as u64, level, message: parts[2] },
            ),
            _ => None,
        }
    }
}

/// The entries that a list of lines holds, in order; lines that hold no
/// entry are passed over.
pub open spec fn parsed_entries(lines: Seq<Seq<char>>) -> Seq<LogEntryModel>
    decreases lines.len(),
{
    if lines.len() == 0 {
        Seq::<LogEntryModel>::empty()
    } else {
        match parsed_entry(lines.last()) {
            Some(entry) => parsed_entries(lines.drop_last()).push(entry),
            None => parsed_entries(lines.drop_last()),
        }
    }
}

impl LogEntry {
    /// The entry that a line holds, if it holds one.
    pub fn parse(line: &str) -> (entry: Option<LogEntry>)
        ensures
            match parsed_entry(line@) {
                Some(model) => entry matches Some(found) && found@ == model,
                None => entry is None,
            },
    {
        let parts = split(line, '|');
        assert(texts(parts@).len() == parts@.len());
        if parts.len() != 3 {
            return None;
        }
        assert(texts(parts@)[0] == parts@[0]@);
        assert(texts(parts@)[1] == parts@[1]@);
        assert(texts(parts@)[2] == parts@[2]@);
        let timestamp = match parse_u64(parts[0].as_str()) {
            Ok(timestamp) => timestamp,
            Err(_) => {
                return None;
            },
        };
        let name = parts[1].as_str();
        let level = if str_eq(name, "DEBUG") {
            LogLevel::Debug
        } else if str_eq(name, "INFO") {
            LogLevel::Info
        } else if str_eq(name, "WARNING") {
            LogLevel::Warning
        } else if str_eq(name, "ERROR") {
            LogLevel::Error
        } else {
            return None;
        };
        Some(LogEntry { timestamp, level, message: parts[2].clone() })
    }
}

/// Whether an entry is an error.
pub open spec fn is_error(entry: LogEntryModel) -> bool {
    entry.level == LogLevel::Error
}

/// Whether an entry is a warning or an error.
pub open spec fn is_warning_or_error(entry: LogEntryModel) -> bool {
    entry.level == LogLevel::Warning || entry.level == LogLevel::Error
}

/// The position at which an entry of time `timestamp` enters a list that is
/// ordered from newest to oldest: behind every entry that is as new or
/// newer, before the first that is older.
pub open spec fn entry_point(ranked: Seq<LogEntryModel>, timestamp: u64, at: int) -> bool {
    &&& 0 <= at <= ranked.len()
    &&& forall|j: int| 0 <= j < at ==> ranked[j].timestamp >= timestamp
    &&& at < ranked.len() ==> ranked[at].timestamp < timestamp
}

/// A ranked list with one more entry.
pub open spec fn ranked_with(ranked: Seq<LogEntryModel>, entry: LogEntryModel) -> Seq<LogEntryModel> {
    ranked.insert(choose|at: int| entry_point(ranked, entry.timestamp, at), entry)
}

/// The entries from newest to oldest.  Entries of one time keep the order
/// in which they came.
pub open spec fn ranked(entries: Seq<LogEntryModel>) -> Seq<LogEntryModel>
    decreases entries.len(),
{
    if entries.len() == 0 {
        entries
    } else {
        ranked_with(ranked(entries.drop_last()), entries.last())
    }
}

/// Whether a list runs from newest to oldest.
pub open spec fn newest_first(entries: Seq<LogEntryModel>) -> bool {
    forall|i: int, j: int| 0 <= i <= j < entries.len() ==> entries[i].timestamp >= entries[j].timestamp
}

/// In a list from newest to oldest every entry has an entry point.
proof fn lemma_entry_point_exists(ranked: Seq<LogEntryModel>, timestamp: u64, upto: int)
    requires
        newest_first(ranked),
        0 <= upto <= ranked.len(),
        forall|j: int| 0 <= j < upto ==> ranked[j].timestamp >= timestamp,
    ensures
        exists|at: int| entry_point(ranked, timestamp, at),
    decreases ranked.len() - upto,
{
    if upto == ranked.len() {
        assert(entry_point(ranked, timestamp, upto));
    } else if ranked[upto].timestamp < timestamp {
        assert(entry_point(ranked, timestamp, upto));
    } else {
        lemma_entry_point_exists(ranked, timestamp, upto + 1);
    }
}

/// An entry point is the only one.
proof fn lemma_entry_point_unique(ranked: Seq<LogEntryModel>, timestamp: u64, at: int)
    requires
        entry_point(ranked, timestamp, at),
    ensures
        (choose|k: int| entry_point(ranked, timestamp, k)) == at,
{
    let k = choose|k: int| entry_point(ranked, timestamp, k);
    assert(entry_point(ranked, timestamp, k));
    if k < at {
        assert(ranked[k].timestamp >= timestamp);
    } else if at < k {
        assert(ranked[at].timestamp >= timestamp);
    }
}

/// Ranking gives a list from newest to oldest that holds the same entries,
/// each as often as before.
pub proof fn lemma_ranked(entries: Seq<LogEntryModel>)
    ensures
        newest_first(ranked(entries)),
        ranked(entries).len() == entries.len(),
        ranked(entries).to_multiset() == entries.to_multiset(),
    decreases entries.len(),
{
    broadcast use vstd::seq_lib::group_to_multiset_ensures;

    if entries.len() > 0 {
        let front = entries.drop_last();
        let entry = entries.last();
        lemma_ranked(front);
        let before = ranked(front);
        lemma_entry_point_exists(before, entry.timestamp, 0);
        let at = choose|at: int| entry_point(before, entry.timestamp, at);
        let after = before.insert(at, entry);
        assert(ranked(entries) == after);
        assert forall|i: int, j: int| 0 <= i <= j < after.len() implies after[i].timestamp
            >= after[j].timestamp by {
            if i < at && j > at {
                assert(after[i] == before[i]);
                assert(after[j] == before[j - 1]);
            } else if i < at && j < at {
                assert(after[i] == before[i] && after[j] == before[j]);
            } else if i > at {
                assert(after[i] == before[i - 1] && after[j] == before[j - 1]);
            } else if i == at && j > at {
                assert(after[j] == before[j - 1]);
                assert(before[at].timestamp >= before[j - 1].timestamp);
            }
        }
        assert(entries =~= front.push(entry));
        before.to_multiset_ensures();
        front.to_multiset_ensures();
        assert(after.to_multiset() =~= before.to_multiset().insert(entry));
        assert(entries.to_multiset() =~= front.to_multiset().insert(entry));
    }
}

/// How many entries of a list have a level.
pub open spec fn count_of(entries: Seq<LogEntryModel>, level: LogLevel) -> nat {
    entries.filter(|entry: LogEntryModel| entry.level == level).len()
}

/// How many entries there are of each level.
#[derive(Debug, Clone, Copy, PartialEq, Eq, Structural)]
pub struct LevelCounts {
    debug: usize,
    info: usize,
    warning: usize,
    error: usize,
}

impl LevelCounts {
    /// The count that is kept for a level.
    pub closed spec fn count(&self, level: LogLevel) -> usize {
        match level {
            LogLevel::Debug => self.debug,
            LogLevel::Info => self.info,
            LogLevel::Warning => self.warning,
            LogLevel::Error => self.error,
        }
    }

    /// The number of entries of a level, or none where there is no such
    /// entry.
    pub fn get(&self, level: &LogLevel) -> (count: Option<&usize>)
        ensures
            self.count(*level) == 0 ==> count is None,
            self.count(*level) > 0 ==> count == Some(&self.count(*level)),
    {
        let found = match level {
            LogLevel::Debug => &self.debug,
            LogLevel::Info => &self.info,
            LogLevel::Warning => &self.warning,
            LogLevel::Error => &self.error,
        };
        if *found == 0 {
            None
        } else {
            Some(found)
        }
    }
}

/// Looks at a list of log lines.
pub struct LogAnalyzer<'a> {
    lines: &'a [String],
}

impl<'a> View for LogAnalyzer<'a> {
    type V = Seq<Seq<char>>;

    closed spec fn view(&self) -> Seq<Seq<char>> {
        texts(self.lines@)
    }
}

impl<'a> LogAnalyzer<'a> {
    /// An analyzer of `lines`.
    pub fn new(lines: &'a [String]) -> (analyzer: Self)
        ensures
            analyzer@ == texts(lines@),
    {
        LogAnalyzer { lines }
    }

    /// The entries that the lines hold, in order.
    pub fn parse_entries(&self) -> (entries: Vec<LogEntry>)
        ensures
            entry_models(entries@) == parsed_entries(self@),
    {
        let mut entries: Vec<LogEntry> = Vec::new();
        let mut i: usize = 0;
        assert(self@.take(0) =~= Seq::<Seq<char>>::empty());
        assert(entry_models(entries@) =~= Seq::<LogEntryModel>::empty());
        while i < self.lines.len()
            invariant
                i <= self.lines.len(),
                self@.len() == self.lines.len(),
                entry_models(entries@) == parsed_entries(self@.take(i as int)),
            decreases self.lines.len() - i,
        {
            let ghost before = entry_models(entries@);
            proof {
                assert(self@.take(i as int + 1).drop_last() =~= self@.take(i as int));
                assert(self@.take(i as int + 1).last() == self.lines@[i as int]@);
            }
            match LogEntry::parse(self.lines[i].as_str()) {
                Some(entry) => {
                    entries.push(entry);
                    assert(entry_models(entries@) =~= before.push(entry@));
                },
                None => {},
            }
            i = i + 1;
        }
        assert(self@.take(self.lines.len() as int) =~= self@);
        entries
    }

    /// The entries that are errors.
    pub fn errors_only(&self) -> (entries: Vec<LogEntry>)
        ensures
            entry_models(entries@) == parsed_entries(self@).filter(|entry: LogEntryModel| is_error(entry)),
    {
        let all = self.parse_entries();
        let test = |entry: &LogEntry| -> (wanted: bool)
            ensures
                wanted == is_error(entry@),
            { entry.level == LogLevel::Error };
        keep_where(all, test, Ghost(|entry: LogEntryModel| is_error(entry)))
    }

    /// The entries from time `start` to time `end`, both included.
    pub fn in_time_range(&self, start: u64, end: u64) -> (entries: Vec<LogEntry>)
        ensures
            entry_models(entries@) == parsed_entries(self@).filter(
                |entry: LogEntryModel| start <= entry.timestamp <= end,
            ),
    {
        let all = self.parse_entries();
        let test = |entry: &LogEntry| -> (wanted: bool)
            ensures
                wanted == (start <= entry@.timestamp <= end),
            { entry.timestamp >= start && entry.timestamp <= end };
        keep_where(all, test, Ghost(|entry: LogEntryModel| start <= entry.timestamp <= end))
    }

    /// How many entries there are of each level.
    pub fn count_by_level(&self) -> (counts: LevelCounts)
        ensures
            forall|level: LogLevel| #[trigger] counts.count(level) == count_of(parsed_entries(self@), level),
    {
        let all = self.parse_entries();
        let ghost models = entry_models(all@);
        let mut counts = LevelCounts { debug: 0, info: 0, warning: 0, error: 0 };
        let mut i: usize = 0;
        proof {
            reveal(Seq::filter);
            assert(models.take(0) =~= Seq::<LogEntryModel>::empty());
        }
        while i < all.len()
            invariant
                i <= all.len(),
                models == entry_models(all@),
                models.len() == all.len(),
                forall|level: LogLevel| #[trigger] counts.count(level) == count_of(models.take(i as int), level),
                forall|level: LogLevel| #[trigger] counts.count(level) <= i,
            decreases all.len() - i,
        {
            let ghost before = counts;
            proof {
                reveal(Seq::filter);
                assert(models.take(i as int + 1).drop_last() =~= models.take(i as int));
                assert(models.take(i as int + 1).last() == all@[i as int]@);
                assert(before.count(LogLevel::Debug) <= i);
                assert(before.count(LogLevel::Info) <= i);
                assert(before.count(LogLevel::Warning) <= i);
                assert(before.count(LogLevel::Error) <= i);
            }
            match all[i].level {
                LogLevel::Debug => {
                    counts.debug = counts.debug + 1;
                },
                LogLevel::Info => {
                    counts.info = counts.info + 1;
                },
                LogLevel::Warning => {
                    counts.warning = counts.warning + 1;
                },
                LogLevel::Error => {
                    counts.error = counts.error + 1;
                },
            }
            proof {
                assert forall|level: LogLevel| #[trigger]
                    counts.count(level) == count_of(models.take(i as int + 1), level) by {
                    assert(before.count(level) == count_of(models.take(i as int), level));
                }
                assert forall|level: LogLevel| #[trigger] counts.count(level) <= i + 1 by {
                    assert(before.count(level) <= i);
                }
            }
            i = i + 1;
        }
        assert(models.take(all.len() as int) =~= models);
        counts
    }

    /// The `n` newest entries, newest first; all of them where there are
    /// fewer.  Entries of one time come in the order of their lines.
    pub fn most_recent(&self, n: usize) -> (entries: Vec<LogEntry>)
        ensures
            entry_models(entries@) == ranked(parsed_entries(self@)).take(
                if n <= parsed_entries(self@).len() {
                    n as int
                } else {
                    parsed_entries(self@).len() as int
                },
            ),
    {
        let all = self.parse_entries();
        let ghost models = entry_models(all@);
        let mut sorted: Vec<LogEntry> = Vec::new();
        proof {
            assert(models.take(0) =~= Seq::<LogEntryModel>::empty());
            assert(entry_models(sorted@) =~= ranked(models.take(0)));
        }
        for entry in it: all.into_iter()
            invariant
                it.seq() == all@,
                models == entry_models(all@),
                models.len() == all@.len(),
                entry_models(sorted@) == ranked(models.take(it.index() as int)),
                sorted@.len() == it.index(),
        {
            let ghost before = entry_models(sorted@);
            let ghost seen = models.take(it.index() as int);
            proof {
                assert(models.take(it.index() as int + 1).drop_last() =~= seen);
                assert(models.take(it.index() as int + 1).last() == entry@);
                lemma_ranked(seen);
            }
            let mut at: usize = 0;
            while at < sorted.len() && sorted[at].timestamp >= entry.timestamp
                invariant
                    at <= sorted.len(),
                    before == entry_models(sorted@),
                    forall|j: int| 0 <= j < at ==> before[j].timestamp >= entry.timestamp,
                decreases sorted.len() - at,
            {
                at = at + 1;
            }
            proof {
                assert(entry_point(before, entry.timestamp, at as int));
                lemma_entry_point_unique(before, entry.timestamp, at as int);
            }
            sorted.insert(at, entry);
            assert(entry_models(sorted@) =~= before.insert(at as int, entry@));
        }
        assert(models.take(all@.len() as int) =~= models);
        let ghost full = entry_models(sorted@);
        if n < sorted.len() {
            sorted.truncate(n);
            assert(entry_models(sorted@) =~= full.take(n as int));
        } else {
            assert(full.take(full.len() as int) =~= full);
        }
        sorted
    }

    /// The entries that are warnings or errors.
    pub fn warnings_and_errors(&self) -> (entries: Vec<LogEntry>)
        ensures
            entry_models(entries@) == parsed_entries(self@).filter(
                |entry: LogEntryModel| is_warning_or_error(entry),
            ),
    {
        let all = self.parse_entries();
        let test = |entry: &LogEntry| -> (wanted: bool)
            ensures
                wanted == is_warning_or_error(entry@),
            { matches!(entry.level, LogLevel::Warning | LogLevel::Error) };
        keep_where(all, test, Ghost(|entry: LogEntryModel| is_warning_or_error(entry)))
    }

    /// The entries whose message holds `keyword`.
    pub fn search_message(&self, keyword: &'a str) -> (entries: Vec<LogEntry>)
        ensures
            entry_models(entries@) == parsed_entries(self@).filter(
                |entry: LogEntryModel| contains_text(entry.message, keyword@),
            ),
    {
        let all = self.parse_entries();
        let test = |entry: &LogEntry| -> (wanted: bool)
            ensures
                wanted == contains_text(entry@.message, keyword@),
            { contains(entry.message.as_str(), keyword) };
        keep_where(all, test, Ghost(|entry: LogEntryModel| contains_text(entry.message, keyword@)))
    }
}

/// The entries of `all` that pass `test`, in order.
fn keep_where<F: Fn(&LogEntry) -> bool>(
    all: Vec<LogEntry>,
    test: F,
    Ghost(wanted): Ghost<spec_fn(LogEntryModel) -> bool>,
) -> (kept: Vec<LogEntry>)
    requires
        forall|entry: &LogEntry| #[trigger] test.requires((entry,)),
        forall|entry: &LogEntry, passed: bool| #[trigger]
            test.ensures((entry,), passed) ==> passed == wanted(entry@),
    ensures
        entry_models(kept@) == entry_models(all@).filter(wanted),
{
    let ghost models = entry_models(all@);
    let mut kept: Vec<LogEntry> = Vec::new();
    proof {
        reveal(Seq::filter);
        assert(models.take(0) =~= Seq::<LogEntryModel>::empty());
        assert(entry_models(kept@) =~= Seq::<LogEntryModel>::empty());
    }
    for entry in it: all.into_iter()
        invariant
            it.seq() == all@,
            models == entry_models(all@),
            models.len() == all@.len(),
            forall|entry: &LogEntry| #[trigger] test.requires((entry,)),
            forall|entry: &LogEntry, passed: bool| #[trigger]
                test.ensures((entry,), passed) ==> passed == wanted(entry@),
            entry_models(kept@) == models.take(it.index() as int).filter(wanted),
    {
        let ghost before = entry_models(kept@);
        proof {
            reveal(Seq::filter);
            assert(models.take(it.index() as int + 1).drop_last() =~= models.take(it.index() as int));
            assert(models.take(it.index() as int + 1).last() == entry@);
        }
        if test(&entry) {
            kept.push(entry);
            assert(entry_models(kept@) =~= before.push(entry@));
        }
    }
    assert(models.take(all@.len() as int) =~= models);
    kept
}

} // verus!
