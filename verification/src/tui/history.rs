//! Command history management
//!
//! Provides:
//! - History entry management
//! - History search functionality
//!
//! Where the history is kept on disk is recorded here; reading and writing
//! the file is left to the application.

use crate::text;
use chrono::{DateTime, Utc};
use vstd::prelude::*;

verus! {

/// A UTC point in time: seconds since 1970 and the nanoseconds past them.
#[derive(Debug, Clone, Copy, PartialEq, Eq, Structural)]
pub struct Timestamp {
    pub secs: i64,
    pub nanos: u32,
}

/// The current UTC time as seconds and nanoseconds since 1970: the system
/// clock (`SystemTime::now`), measured from `UNIX_EPOCH`
/// (`SystemTime::duration_since`), made a `DateTime<Utc>` by
/// `DateTime::from_timestamp`. `None` when the clock reads before 1970 or the
/// time is out of the range of `DateTime`. Nothing is stated of the value: it
/// is what the clock reads.
#[verifier::external_body]
pub(crate) fn utc_now() -> Option<Timestamp> {
    let since = std::time::SystemTime::now().duration_since(std::time::UNIX_EPOCH).ok()?;
    let secs = i64::try_from(since.as_secs()).ok()?;
    let now = DateTime::<Utc>::from_timestamp(secs, since.subsec_nanos())?;
    Some(Timestamp { secs: now.timestamp(), nanos: now.timestamp_subsec_nanos() })
}

/// The time stamped on a new entry: the current time, or the start of 1970
/// when the clock cannot give it.
fn entry_time() -> Timestamp {
    match utc_now() {
        Some(t) => t,
        None => Timestamp { secs: 0, nanos: 0 },
    }
}

/// Maximum number of history entries to keep
pub const MAX_HISTORY_ENTRIES: usize = 1000;

/// History entry representing a past command/message
#[derive(Debug)]
pub struct HistoryEntry {
    /// Unique ID
    pub id: u64,
    /// Timestamp when entry was created
    pub timestamp: Timestamp,
    /// The command or message content
    pub content: String,
    /// Whether this was a command (starts with /)
    pub is_command: bool,
    /// Optional result summary
    pub result_summary: Option<String>,
}

/// Command history manager
pub struct CommandHistory {
    /// History entries
    entries: Vec<HistoryEntry>,
    /// Maximum entries to keep
    max_entries: usize,
    /// File path for persistence
    file_path: String,
    /// Next ID for new entries
    next_id: u64,
}

/// History statistics
#[derive(Debug)]
pub struct HistoryStats {
    pub total_entries: usize,
    pub commands: usize,
    pub messages: usize,
    pub oldest_timestamp: Option<Timestamp>,
    pub newest_timestamp: Option<Timestamp>,
}

impl Clone for HistoryEntry {
    fn clone(&self) -> (e: Self)
        ensures
            e == *self,
    {
        HistoryEntry {
            id: self.id,
            timestamp: self.timestamp,
            content: self.content.clone(),
            is_command: self.is_command,
            result_summary: match &self.result_summary {
                Some(s) => Some(s.clone()),
                None => None,
            },
        }
    }
}

impl Clone for HistoryStats {
    fn clone(&self) -> (s: Self)
        ensures
            s == *self,
    {
        HistoryStats {
            total_entries: self.total_entries,
            commands: self.commands,
            messages: self.messages,
            oldest_timestamp: self.oldest_timestamp,
            newest_timestamp: self.newest_timestamp,
        }
    }
}

/// Whether content is a command: it starts with `/`.
pub open spec fn is_command_text(c: Seq<char>) -> bool {
    c.len() > 0 && c[0] == '/'
}

/// Which entries have content `c`.
pub open spec fn content_is(es: Seq<HistoryEntry>, c: Seq<char>) -> spec_fn(int) -> bool {
    |i: int| es[i].content@ == c
}

/// Which entries have id `id`.
pub open spec fn id_is(es: Seq<HistoryEntry>, id: u64) -> spec_fn(int) -> bool {
    |i: int| es[i].id == id
}

/// The index of the first entry with content `c`.
pub open spec fn index_of_content(es: Seq<HistoryEntry>, c: Seq<char>) -> Option<int> {
    text::first_from(0, es.len() as int, content_is(es, c))
}

/// The index of the first entry with id `id`.
pub open spec fn index_of_id(es: Seq<HistoryEntry>, id: u64) -> Option<int> {
    text::first_from(0, es.len() as int, id_is(es, id))
}

/// The entries after adding `e`: the oldest is dropped when there are
/// more than `max`.
pub open spec fn appended(es: Seq<HistoryEntry>, e: HistoryEntry, max: nat) -> Seq<HistoryEntry> {
    if es.len() + 1 > max {
        es.push(e).drop_first()
    } else {
        es.push(e)
    }
}

/// The history never grows past its limit: appending to entries within
/// the limit leaves them within it.
pub proof fn lemma_appended_within_limit(es: Seq<HistoryEntry>, e: HistoryEntry, max: nat)
    requires
        1 <= max,
        es.len() <= max,
    ensures
        appended(es, e, max).len() <= max,
        appended(es, e, max).last() == e,
{
}

/// The members of `es` satisfying `p`, newest first.
pub open spec fn newest_first(es: Seq<HistoryEntry>, p: spec_fn(HistoryEntry) -> bool) -> Seq<HistoryEntry>
    decreases es.len(),
{
    if es.len() == 0 {
        seq![]
    } else if p(es.last()) {
        seq![es.last()] + newest_first(es.drop_last(), p)
    } else {
        newest_first(es.drop_last(), p)
    }
}

/// Whether an entry's content holds `q`, ignoring case.
pub open spec fn content_holds(q: Seq<char>) -> spec_fn(HistoryEntry) -> bool {
    |e: HistoryEntry| text::first_occurrence(text::lowercase(e.content@), text::lowercase(q)) is Some
}

/// Whether an entry's content starts with, holds, or is `q`, ignoring case.
pub open spec fn content_like(q: Seq<char>) -> spec_fn(HistoryEntry) -> bool {
    |e: HistoryEntry|
        {
            let c = text::lowercase(e.content@);
            let l = text::lowercase(q);
            text::starts_with(c, l) || text::first_occurrence(c, l) is Some || c == l
        }
}

/// Whether an entry is a command.
pub open spec fn command_entry() -> spec_fn(HistoryEntry) -> bool {
    |e: HistoryEntry| e.is_command
}

/// Every entry.
pub open spec fn any_entry() -> spec_fn(HistoryEntry) -> bool {
    |e: HistoryEntry| true
}

/// The number of command entries.
pub open spec fn command_count(es: Seq<HistoryEntry>) -> nat
    decreases es.len(),
{
    if es.len() == 0 {
        0
    } else {
        command_count(es.drop_last()) + if es.last().is_command {
            1nat
        } else {
            0nat
        }
    }
}

/// The entries referred to.
pub open spec fn derefs(v: Seq<&HistoryEntry>) -> Seq<HistoryEntry> {
    v.map_values(|r: &HistoryEntry| *r)
}

impl CommandHistory {
    /// Never more entries than the limit, which is at least one.
    #[verifier::type_invariant]
    spec fn inv(self) -> bool {
        &&& 1 <= self.max_entries
    }

    /// The entries, oldest first.
    pub closed spec fn spec_entries(&self) -> Seq<HistoryEntry> {
        self.entries@
    }

    /// The id the next entry gets.
    pub closed spec fn spec_next_id(&self) -> u64 {
        self.next_id
    }

    /// The most entries kept.
    pub closed spec fn spec_max_entries(&self) -> nat {
        self.max_entries as nat
    }

    /// The file the history is kept in.
    pub closed spec fn spec_file_path(&self) -> Seq<char> {
        self.file_path@
    }

    /// Create history manager with custom path
    pub fn with_path(file_path: String) -> (h: Self)
        ensures
            h.spec_entries().len() == 0,
            h.spec_next_id() == 1,
            h.spec_max_entries() == MAX_HISTORY_ENTRIES,
            h.spec_file_path() == file_path@,
    {
        Self { entries: Vec::new(), max_entries: MAX_HISTORY_ENTRIES, file_path, next_id: 1 }
    }

    /// The history read back from its file: the entries as saved, the next
    /// id one past the largest.
    pub fn from_saved(file_path: String, entries: Vec<HistoryEntry>) -> (h: Self)
        requires
            forall|i: int| 0 <= i < entries@.len() ==> #[trigger] entries@[i].id < u64::MAX,
        ensures
            h.spec_entries() == entries@,
            forall|i: int| 0 <= i < entries@.len() ==> #[trigger] entries@[i].id < h.spec_next_id(),
            entries@.len() == 0 ==> h.spec_next_id() == 1,
            entries@.len() > 0 ==> exists|i: int| 0 <= i < entries@.len() && h.spec_next_id() == #[trigger] entries@[i].id + 1,
            h.spec_max_entries() == MAX_HISTORY_ENTRIES,
            h.spec_file_path() == file_path@,
    {
        let mut max_id: u64 = 0;
        let mut i: usize = 0;
        while i < entries.len()
            invariant
                i <= entries@.len(),
                forall|j: int| 0 <= j < entries@.len() ==> #[trigger] entries@[j].id < u64::MAX,
                forall|j: int| 0 <= j < i ==> #[trigger] entries@[j].id <= max_id,
                i == 0 ==> max_id == 0,
                i > 0 ==> exists|j: int| 0 <= j < i && max_id == #[trigger] entries@[j].id,
            decreases entries.len() - i,
        {
            if entries[i].id > max_id || i == 0 {
                max_id = entries[i].id;
            }
            i += 1;
        }
        let next_id = if entries.len() == 0 { 1 } else { max_id + 1 };
        Self { entries, max_entries: MAX_HISTORY_ENTRIES, file_path, next_id }
    }

    /// The file the history is kept in.
    pub fn file_path(&self) -> (p: &str)
        ensures
            p@ == self.spec_file_path(),
    {
        self.file_path.as_str()
    }

    /// The id the next entry gets.
    pub fn next_id(&self) -> (id: u64)
        ensures
            id == self.spec_next_id(),
    {
        self.next_id
    }

    /// Whether an entry with this content exists.
    pub fn contains(&self, content: &str) -> (b: bool)
        ensures
            b == (index_of_content(self.spec_entries(), content@) is Some),
    {
        self.find_content(content).is_some()
    }

    fn find_content(&self, content: &str) -> (r: Option<usize>)
        ensures
            match r {
                Some(i) => index_of_content(self.spec_entries(), content@) == Some(i as int) && i < self.spec_entries().len(),
                None => index_of_content(self.spec_entries(), content@) is None,
            },
    {
        let ghost p = content_is(self.entries@, content@);
        let mut i: usize = 0;
        while i < self.entries.len()
            invariant
                i <= self.entries@.len(),
                p == content_is(self.entries@, content@),
                forall|j: int| 0 <= j < i ==> self.entries@[j].content@ != content@,
            decreases self.entries.len() - i,
        {
            if text::str_eq(self.entries[i].content.as_str(), content) {
                proof {
                    text::lemma_first_from(0, self.entries@.len() as int, p);
                    lemma_first_found(0, self.entries@.len() as int, p, i as int);
                }
                return Some(i);
            }
            i += 1;
        }
        proof {
            lemma_none_found(0, self.entries@.len() as int, p);
        }
        None
    }

    /// Append a new entry, dropping the oldest past the limit.
    fn push_entry(&mut self, entry: HistoryEntry)
        requires
            old(self).spec_next_id() < u64::MAX,
        ensures
            final(self).spec_entries() == appended(old(self).spec_entries(), entry, old(self).spec_max_entries()),
            final(self).spec_entries().len() >= 1,
            final(self).spec_entries().last() == entry,
            final(self).spec_next_id() == old(self).spec_next_id() + 1,
            final(self).spec_max_entries() == old(self).spec_max_entries(),
            final(self).spec_file_path() == old(self).spec_file_path(),
    {
        proof {
            use_type_invariant(&*self);
        }
        let mut entries: Vec<HistoryEntry> = Vec::new();
        std::mem::swap(&mut entries, &mut self.entries);
        entries.push(entry);
        if entries.len() > self.max_entries {
            let _ = entries.remove(0);
        }
        self.next_id = self.next_id + 1;
        std::mem::swap(&mut entries, &mut self.entries);
    }

    /// Add a new entry to history; content already present is not added
    /// again, and its entry is returned.
    pub fn add(&mut self, content: String) -> (e: &HistoryEntry)
        requires
            old(self).spec_next_id() < u64::MAX,
        ensures
            final(self).spec_max_entries() == old(self).spec_max_entries(),
            final(self).spec_file_path() == old(self).spec_file_path(),
            match index_of_content(old(self).spec_entries(), content@) {
                Some(i) => {
                    &&& final(self).spec_entries() == old(self).spec_entries()
                    &&& final(self).spec_next_id() == old(self).spec_next_id()
                    &&& *e == old(self).spec_entries()[i]
                },
                None => {
                    &&& final(self).spec_entries() == appended(old(self).spec_entries(), *e, old(self).spec_max_entries())
                    &&& final(self).spec_next_id() == old(self).spec_next_id() + 1
                    &&& e.id == old(self).spec_next_id()
                    &&& e.content@ == content@
                    &&& e.is_command == is_command_text(content@)
                    &&& e.result_summary is None
                },
            },
    {
        match self.find_content(content.as_str()) {
            Some(i) => {
                return &self.entries[i];
            },
            None => {},
        }
        let is_command = starts_with_slash(content.as_str());
        let entry = HistoryEntry { id: self.next_id, timestamp: entry_time(), content, is_command, result_summary: None };
        self.push_entry(entry);
        let n = self.entries.len();
        &self.entries[n - 1]
    }

    /// Add entry with result summary
    pub fn add_with_result(&mut self, content: String, result_summary: String) -> (e: &HistoryEntry)
        requires
            old(self).spec_next_id() < u64::MAX,
        ensures
            final(self).spec_entries() == appended(old(self).spec_entries(), *e, old(self).spec_max_entries()),
            final(self).spec_next_id() == old(self).spec_next_id() + 1,
            final(self).spec_max_entries() == old(self).spec_max_entries(),
            final(self).spec_file_path() == old(self).spec_file_path(),
            e.id == old(self).spec_next_id(),
            e.content@ == content@,
            e.is_command == is_command_text(content@),
            e.result_summary matches Some(s) && s@ == result_summary@,
    {
        let is_command = starts_with_slash(content.as_str());
        let entry = HistoryEntry {
            id: self.next_id,
            timestamp: entry_time(),
            content,
            is_command,
            result_summary: Some(result_summary),
        };
        self.push_entry(entry);
        let n = self.entries.len();
        &self.entries[n - 1]
    }

    /// Get all entries
    pub fn entries(&self) -> (es: &[HistoryEntry])
        ensures
            es@ == self.spec_entries(),
    {
        self.entries.as_slice()
    }

    /// The entries satisfying `p`, newest first.
    fn collect_newest_first(&self, q: &str, kind: u8) -> (r: Vec<&HistoryEntry>)
        requires
            kind < 4,
        ensures
            derefs(r@) == newest_first(
                self.spec_entries(),
                if kind == 0 {
                    content_holds(q@)
                } else if kind == 1 {
                    content_like(q@)
                } else if kind == 2 {
                    command_entry()
                } else {
                    any_entry()
                },
            ),
    {
        let ghost p = if kind == 0 {
            content_holds(q@)
        } else if kind == 1 {
            content_like(q@)
        } else if kind == 2 {
            command_entry()
        } else {
            any_entry()
        };
        let q_lower = text::str_to_lowercase(q);
        let mut out: Vec<&HistoryEntry> = Vec::new();
        let mut i: usize = self.entries.len();
        assert(self.entries@.take(i as int) =~= self.entries@);
        assert(derefs(out@) =~= Seq::<HistoryEntry>::empty());
        while i > 0
            invariant
                i <= self.entries@.len(),
                kind < 4,
                p == if kind == 0 {
                    content_holds(q@)
                } else if kind == 1 {
                    content_like(q@)
                } else if kind == 2 {
                    command_entry()
                } else {
                    any_entry()
                },
                q_lower@ == text::lowercase(q@),
                derefs(out@) + newest_first(self.entries@.take(i as int), p) == newest_first(self.entries@, p),
            decreases i,
        {
            let e = &self.entries[i - 1];
            let ghost t = self.entries@.take(i as int);
            assert(t.drop_last() =~= self.entries@.take(i - 1));
            assert(t.last() == *e);
            let keep = if kind == 0 {
                let c = text::str_to_lowercase(e.content.as_str());
                text::str_contains(c.as_str(), q_lower.as_str())
            } else if kind == 1 {
                let c = text::str_to_lowercase(e.content.as_str());
                text::str_starts_with(c.as_str(), q_lower.as_str()) || text::str_contains(c.as_str(), q_lower.as_str())
                    || text::str_eq(c.as_str(), q_lower.as_str())
            } else if kind == 2 {
                e.is_command
            } else {
                true
            };
            assert(keep == p(*e));
            let ghost before = derefs(out@);
            if keep {
                out.push(e);
                assert(derefs(out@) =~= before.push(*e));
                assert(before.push(*e) + newest_first(t.drop_last(), p) =~= before + (seq![*e] + newest_first(
                    t.drop_last(),
                    p,
                )));
            }
            i -= 1;
        }
        assert(self.entries@.take(0) =~= Seq::<HistoryEntry>::empty());
        assert(derefs(out@) + Seq::<HistoryEntry>::empty() =~= derefs(out@));
        out
    }

    /// Get recent entries: the last `count`, newest first.
    pub fn recent(&self, count: usize) -> (r: Vec<&HistoryEntry>)
        ensures
            derefs(r@) == newest_first(self.spec_entries(), any_entry()).take(
                if count < self.spec_entries().len() {
                    count as int
                } else {
                    self.spec_entries().len() as int
                },
            ),
    {
        let all = self.collect_newest_first("", 3);
        proof {
            lemma_newest_first_len_all(self.spec_entries());
        }
        let mut out: Vec<&HistoryEntry> = Vec::new();
        let n = if count < all.len() {
            count
        } else {
            all.len()
        };
        let mut i: usize = 0;
        while i < n
            invariant
                i <= n <= all@.len(),
                derefs(out@) == derefs(all@).take(i as int),
            decreases n - i,
        {
            let ghost before = derefs(out@);
            out.push(all[i]);
            assert(derefs(out@) =~= before.push(derefs(all@)[i as int]));
            assert(derefs(all@).take(i + 1) =~= derefs(all@).take(i as int).push(derefs(all@)[i as int]));
            i += 1;
        }
        out
    }

    /// Search history by content: entries holding `query`, ignoring case,
    /// newest first.
    pub fn search(&self, query: &str) -> (r: Vec<&HistoryEntry>)
        ensures
            derefs(r@) == newest_first(self.spec_entries(), content_holds(query@)),
    {
        self.collect_newest_first(query, 0)
    }

    /// Search with fuzzy matching (prefix, contains, or exact), ignoring
    /// case, newest first.
    pub fn search_fuzzy(&self, query: &str) -> (r: Vec<&HistoryEntry>)
        ensures
            derefs(r@) == newest_first(self.spec_entries(), content_like(query@)),
    {
        self.collect_newest_first(query, 1)
    }

    /// Get commands only, newest first.
    pub fn commands(&self) -> (r: Vec<&HistoryEntry>)
        ensures
            derefs(r@) == newest_first(self.spec_entries(), command_entry()),
    {
        self.collect_newest_first("", 2)
    }

    /// Clear all history
    pub fn clear(&mut self)
        ensures
            final(self).spec_entries().len() == 0,
            final(self).spec_next_id() == 1,
            final(self).spec_max_entries() == old(self).spec_max_entries(),
            final(self).spec_file_path() == old(self).spec_file_path(),
    {
        proof {
            use_type_invariant(&*self);
        }
        let mut entries: Vec<HistoryEntry> = Vec::new();
        std::mem::swap(&mut entries, &mut self.entries);
        self.next_id = 1;
    }

    /// Delete a specific entry by ID; returns whether one was deleted.
    pub fn delete(&mut self, id: u64) -> (deleted: bool)
        ensures
            final(self).spec_next_id() == old(self).spec_next_id(),
            final(self).spec_max_entries() == old(self).spec_max_entries(),
            final(self).spec_file_path() == old(self).spec_file_path(),
            match index_of_id(old(self).spec_entries(), id) {
                Some(i) => deleted && final(self).spec_entries() == old(self).spec_entries().remove(i),
                None => !deleted && final(self).spec_entries() == old(self).spec_entries(),
            },
    {
        proof {
            use_type_invariant(&*self);
        }
        match self.find_id(id) {
            Some(i) => {
                let mut entries: Vec<HistoryEntry> = Vec::new();
                std::mem::swap(&mut entries, &mut self.entries);
                let _ = entries.remove(i);
                std::mem::swap(&mut entries, &mut self.entries);
                true
            },
            None => false,
        }
    }

    fn find_id(&self, id: u64) -> (r: Option<usize>)
        ensures
            match r {
                Some(i) => index_of_id(self.spec_entries(), id) == Some(i as int) && i < self.spec_entries().len(),
                None => index_of_id(self.spec_entries(), id) is None,
            },
    {
        let ghost p = id_is(self.entries@, id);
        let mut i: usize = 0;
        while i < self.entries.len()
            invariant
                i <= self.entries@.len(),
                p == id_is(self.entries@, id),
                forall|j: int| 0 <= j < i ==> self.entries@[j].id != id,
            decreases self.entries.len() - i,
        {
            if self.entries[i].id == id {
                proof {
                    lemma_first_found(0, self.entries@.len() as int, p, i as int);
                }
                return Some(i);
            }
            i += 1;
        }
        proof {
            lemma_none_found(0, self.entries@.len() as int, p);
        }
        None
    }

    /// Get entry by ID: the first with that id.
    pub fn get(&self, id: u64) -> (r: Option<&HistoryEntry>)
        ensures
            match index_of_id(self.spec_entries(), id) {
                Some(i) => r == Some(&self.spec_entries()[i]),
                None => r is None,
            },
    {
        match self.find_id(id) {
            Some(i) => Some(&self.entries[i]),
            None => None,
        }
    }

    /// Get history statistics
    pub fn stats(&self) -> (s: HistoryStats)
        ensures
            s.total_entries == self.spec_entries().len(),
            s.commands == command_count(self.spec_entries()),
            s.messages == self.spec_entries().len() - command_count(self.spec_entries()),
            self.spec_entries().len() == 0 ==> s.oldest_timestamp is None && s.newest_timestamp is None,
            self.spec_entries().len() > 0 ==> s.oldest_timestamp == Some(self.spec_entries()[0].timestamp)
                && s.newest_timestamp == Some(self.spec_entries().last().timestamp),
    {
        let mut commands: usize = 0;
        let mut i: usize = 0;
        while i < self.entries.len()
            invariant
                i <= self.entries@.len(),
                commands == command_count(self.entries@.take(i as int)),
                commands <= i,
            decreases self.entries.len() - i,
        {
            assert(self.entries@.take(i as int + 1).drop_last() =~= self.entries@.take(i as int));
            if self.entries[i].is_command {
                commands += 1;
            }
            i += 1;
        }
        assert(self.entries@.take(self.entries@.len() as int) =~= self.entries@);
        let n = self.entries.len();
        let (oldest, newest) = if n == 0 {
            (None, None)
        } else {
            (Some(self.entries[0].timestamp), Some(self.entries[n - 1].timestamp))
        };
        HistoryStats {
            total_entries: n,
            commands,
            messages: n - commands,
            oldest_timestamp: oldest,
            newest_timestamp: newest,
        }
    }
}

/// Whether text starts with `/`.
fn starts_with_slash(s: &str) -> (b: bool)
    ensures
        b == is_command_text(s@),
{
    let cs = text::chars_of(s);
    cs.len() > 0 && cs[0] == '/'
}

/// A search that stops at `i` found the first index satisfying `p`.
proof fn lemma_first_found(from: int, n: int, p: spec_fn(int) -> bool, i: int)
    requires
        from <= i < n,
        p(i),
        forall|j: int| from <= j < i ==> !#[trigger] p(j),
    ensures
        text::first_from(from, n, p) == Some(i),
    decreases i - from,
{
    if from < i {
        lemma_first_found(from + 1, n, p, i);
    }
}

/// A search over indices none of which satisfy `p` finds nothing.
proof fn lemma_none_found(from: int, n: int, p: spec_fn(int) -> bool)
    requires
        forall|j: int| from <= j < n ==> !#[trigger] p(j),
    ensures
        text::first_from(from, n, p) is None,
    decreases n - from,
{
    if from < n {
        lemma_none_found(from + 1, n, p);
    }
}

/// Every entry is kept by a filter that keeps all.
proof fn lemma_newest_first_len_all(es: Seq<HistoryEntry>)
    ensures
        newest_first(es, any_entry()).len() == es.len(),
    decreases es.len(),
{
    if es.len() > 0 {
        lemma_newest_first_len_all(es.drop_last());
    }
}


/// Fuzzy search finds exactly what substring search finds: an entry that
/// starts with or equals the query (ignoring case) also holds it, so every
/// entry holding the query is among the fuzzy results, newest first.
pub proof fn lemma_fuzzy_search_is_substring_search(es: Seq<HistoryEntry>, q: Seq<char>)
    ensures
        newest_first(es, content_like(q)) == newest_first(es, content_holds(q)),
    decreases es.len(),
{
    if es.len() > 0 {
        let c = text::lowercase(es.last().content@);
        let l = text::lowercase(q);
        if text::starts_with(c, l) {
            text::lemma_prefix_occurs(c, l);
        }
        if c == l {
            assert(c.take(l.len() as int) =~= l);
            text::lemma_prefix_occurs(c, l);
        }
        assert(content_like(q)(es.last()) == content_holds(q)(es.last()));
        lemma_fuzzy_search_is_substring_search(es.drop_last(), q);
    }
}

} // verus!
