//! Command history: one entry per command with its execution count and
//! times, search by keyword, deletion, statistics, and orderings by recency
//! and by frequency.
//!
//! The JSON file, and the "smart" ordering by a floating-point score, belong
//! to the application.

use vstd::prelude::*;
use vstd::multiset::Multiset;
use crate::text::{chars_of, contains, has_infix, to_lowercase, lowercase, trim, trim_chars, chars_equal};
use crate::health::clock_millis;

verus! {

/// One command of the history.
#[derive(Debug, Clone)]
pub struct HistoryEntry {
    /// The command.
    pub command: String,
    /// When it first ran, in milliseconds since the Unix epoch.
    pub first_timestamp_ms: i64,
    /// When it last ran.
    pub last_timestamp_ms: i64,
    /// How often it ran.
    pub count: u32,
    /// Whether its last run succeeded.
    pub last_success: bool,
}

impl HistoryEntry {
    /// A command run once, now, successfully.
    pub fn new(command: String) -> (r: HistoryEntry)
        ensures
            r.command == command,
            r.count == 1,
            r.last_success,
            r.first_timestamp_ms == r.last_timestamp_ms,
    {
        let now = clock_millis();
        HistoryEntry { command, first_timestamp_ms: now, last_timestamp_ms: now, count: 1, last_success: true }
    }

    /// Counts another run, now, with its outcome.
    pub fn update(&mut self, success: bool)
        requires
            old(self).count < u32::MAX,
        ensures
            final(self).count == old(self).count + 1,
            final(self).last_success == success,
            final(self).command == old(self).command,
            final(self).first_timestamp_ms == old(self).first_timestamp_ms,
    {
        self.count = self.count + 1;
        self.last_timestamp_ms = clock_millis();
        self.last_success = success;
    }
}

/// How results are ordered.
#[derive(Debug, Clone, Copy, PartialEq, Eq, Structural)]
pub enum SortStrategy {
    /// Most recent first.
    Time,
    /// Most frequent first.
    Frequency,
    /// By a score of frequency and recency.
    Smart,
}

/// Counts of the history.
#[derive(Debug, Clone)]
pub struct HistoryStats {
    /// Entries held.
    pub total_entries: usize,
    /// Runs of all entries together.
    pub total_executions: u64,
    /// Distinct commands.
    pub unique_commands: usize,
}

/// The position of the last entry for `cmd`, which is the one a lookup by
/// command finds.
pub open spec fn last_index_of(s: Seq<HistoryEntry>, cmd: Seq<char>) -> Option<int>
    decreases s.len(),
{
    if s.len() == 0 {
        None
    } else if s.last().command@ == cmd {
        Some(s.len() - 1)
    } else {
        last_index_of(s.drop_last(), cmd)
    }
}

/// Whether a command is recorded: blank commands and commands starting with
/// `/` are not.
pub open spec fn recordable(cmd: Seq<char>) -> bool {
    trim(cmd).len() > 0 && !(cmd.len() > 0 && cmd[0] == '/')
}

/// The runs of all entries together.
pub open spec fn executions(s: Seq<HistoryEntry>) -> nat
    decreases s.len(),
{
    if s.len() == 0 {
        0
    } else {
        executions(s.drop_last()) + s.last().count as nat
    }
}

/// How many entries are the last of their command: the number of distinct
/// commands.
pub open spec fn distinct_commands(s: Seq<HistoryEntry>) -> nat
    decreases s.len(),
{
    if s.len() == 0 {
        0
    } else {
        distinct_commands(s.drop_last()) + if last_index_of(s.drop_last(), s.last().command@) is None {
            1nat
        } else {
            0nat
        }
    }
}

/// The entries whose lowercased command holds `kw`, in order.
pub open spec fn history_matching(s: Seq<HistoryEntry>, kw: Seq<char>) -> Seq<HistoryEntry> {
    s.filter(|e: HistoryEntry| has_infix(lowercase(e.command@), kw))
}

/// The sort key of an ordering: the last run time, or the count.
pub open spec fn sort_key(e: HistoryEntry, by_time: bool) -> int {
    if by_time {
        e.last_timestamp_ms as int
    } else {
        e.count as int
    }
}

/// Keys never increase along the sequence.
pub open spec fn descending(s: Seq<HistoryEntry>, by_time: bool) -> bool {
    forall|i: int, j: int| 0 <= i < j < s.len() ==> sort_key(s[i], by_time) >= sort_key(s[j], by_time)
}

proof fn lemma_last_index_bounds(s: Seq<HistoryEntry>, cmd: Seq<char>)
    ensures
        match last_index_of(s, cmd) {
            Some(i) => 0 <= i < s.len() && s[i].command@ == cmd && forall|j: int|
                i < j < s.len() ==> #[trigger] s[j].command@ != cmd,
            None => forall|j: int| 0 <= j < s.len() ==> #[trigger] s[j].command@ != cmd,
        },
    decreases s.len(),
{
    if s.len() > 0 {
        lemma_last_index_bounds(s.drop_last(), cmd);
        if s.last().command@ != cmd {
            assert forall|j: int| 0 <= j < s.len() - 1 implies s[j] == s.drop_last()[j] by {}
        }
    }
}

proof fn lemma_executions_bound(s: Seq<HistoryEntry>)
    ensures
        executions(s) <= s.len() * 0xffff_ffff,
    decreases s.len(),
{
    if s.len() > 0 {
        lemma_executions_bound(s.drop_last());
    }
}

proof fn lemma_distinct_bound(s: Seq<HistoryEntry>)
    ensures
        distinct_commands(s) <= s.len(),
    decreases s.len(),
{
    if s.len() > 0 {
        lemma_distinct_bound(s.drop_last());
    }
}

/// The last position of `cmd` among `v`'s commands.
fn find_last(v: &Vec<HistoryEntry>, cmd: &[char]) -> (r: Option<usize>)
    ensures
        match r {
            Some(i) => last_index_of(v@, cmd@) == Some(i as int) && i < v@.len(),
            None => last_index_of(v@, cmd@) is None,
        },
{
    let mut i: usize = v.len();
    assert(v@.take(v@.len() as int) =~= v@);
    while i > 0
        invariant
            i <= v@.len(),
            last_index_of(v@.take(i as int), cmd@) == last_index_of(v@, cmd@),
        decreases i,
    {
        let j = i - 1;
        proof {
            assert(v@.take(i as int).drop_last() =~= v@.take(j as int));
            assert(v@.take(i as int).last() == v@[j as int]);
        }
        if chars_equal(chars_of(v[j].command.as_str()).as_slice(), cmd) {
            return Some(j);
        }
        i = j;
    }
    proof {
        assert(v@.take(0) =~= Seq::<HistoryEntry>::empty());
    }
    None
}

fn key_of(e: &HistoryEntry, by_time: bool) -> (k: i64)
    ensures
        k == sort_key(*e, by_time),
{
    if by_time {
        e.last_timestamp_ms
    } else {
        e.count as i64
    }
}

/// Sorts entries by a key, largest first, keeping entries of equal keys in
/// their order.
fn sort_desc(v: Vec<HistoryEntry>, by_time: bool) -> (r: Vec<HistoryEntry>)
    ensures
        descending(r@, by_time),
        r@.to_multiset() == v@.to_multiset(),
{
    let mut rest = v;
    let mut out: Vec<HistoryEntry> = Vec::new();
    let ghost all = rest@;
    proof {
        broadcast use vstd::seq_lib::group_to_multiset_ensures;
        broadcast use vstd::multiset::group_multiset_axioms;
        assert(out@.to_multiset() =~= Multiset::<HistoryEntry>::empty());
        assert(out@.to_multiset().add(rest@.to_multiset()) =~= all.to_multiset());
    }
    while rest.len() > 0
        invariant
            descending(out@, by_time),
            out@.to_multiset().add(rest@.to_multiset()) == all.to_multiset(),
        decreases rest.len(),
    {
        let ghost before_rest = rest@;
        let x = rest.remove(0);
        let kx: i64 = key_of(&x, by_time);
        let mut pos: usize = 0;
        while pos < out.len() && key_of(&out[pos], by_time) >= kx
            invariant
                pos <= out@.len(),
                kx == sort_key(x, by_time),
                forall|j: int| 0 <= j < pos ==> sort_key(out@[j], by_time) >= kx,
            decreases out@.len() - pos,
        {
            pos = pos + 1;
        }
        let ghost before = out@;
        out.insert(pos, x);
        proof {
            broadcast use vstd::seq_lib::group_to_multiset_ensures;
            broadcast use vstd::multiset::group_multiset_axioms;
            assert(before_rest.remove(0) == rest@);
            assert(before_rest[0] == x);
            assert(rest@.to_multiset() == before_rest.to_multiset().remove(x));
            assert(before_rest.to_multiset().contains(x));
            assert(out@.to_multiset().add(rest@.to_multiset()) =~= before.to_multiset().add(before_rest.to_multiset()));
            assert forall|a: int, b: int| 0 <= a < b < out@.len() implies sort_key(out@[a], by_time) >= sort_key(out@[b], by_time) by {
                if b < pos {
                } else if b == pos {
                } else if a < pos {
                    assert(sort_key(before[pos as int], by_time) < kx);
                } else if a == pos {
                    assert(sort_key(before[pos as int], by_time) < kx);
                } else {
                }
            }
        }
    }
    proof {
        broadcast use vstd::seq_lib::group_to_multiset_ensures;
        broadcast use vstd::multiset::group_multiset_axioms;
        assert(rest@ =~= Seq::<HistoryEntry>::empty());
        assert(rest@.to_multiset() =~= Multiset::<HistoryEntry>::empty());
        assert(out@.to_multiset().add(Multiset::<HistoryEntry>::empty()) =~= out@.to_multiset());
    }
    out
}

/// Entries ordered most recent first (entries run at the same time keep
/// their order).
pub fn sort_by_time(v: Vec<HistoryEntry>) -> (r: Vec<HistoryEntry>)
    ensures
        descending(r@, true),
        r@.to_multiset() == v@.to_multiset(),
{
    sort_desc(v, true)
}

/// Entries ordered most frequent first (entries of equal counts keep their
/// order).
pub fn sort_by_frequency(v: Vec<HistoryEntry>) -> (r: Vec<HistoryEntry>)
    ensures
        descending(r@, false),
        r@.to_multiset() == v@.to_multiset(),
{
    sort_desc(v, false)
}

/// A copy of an entry, field by field.
pub fn copy_entry(e: &HistoryEntry) -> (r: HistoryEntry)
    ensures
        r == *e,
{
    HistoryEntry {
        command: e.command.clone(),
        first_timestamp_ms: e.first_timestamp_ms,
        last_timestamp_ms: e.last_timestamp_ms,
        count: e.count,
        last_success: e.last_success,
    }
}

/// The command history.
pub struct HistoryManager {
    entries: Vec<HistoryEntry>,
    file_path: String,
    max_entries: usize,
    auto_save: bool,
}

impl HistoryManager {
    /// The entries, in the order they were first recorded.
    pub closed spec fn entries_view(&self) -> Seq<HistoryEntry> {
        self.entries@
    }

    /// The most entries kept.
    pub closed spec fn max_view(&self) -> nat {
        self.max_entries as nat
    }

    /// The file the history is kept in.
    pub closed spec fn path_view(&self) -> Seq<char> {
        self.file_path@
    }

    /// An empty history kept in `file_path`, of at most `max_entries`
    /// entries, saved after each change.
    pub fn new(file_path: String, max_entries: usize) -> (r: HistoryManager)
        ensures
            r.entries_view() == Seq::<HistoryEntry>::empty(),
            r.max_view() == max_entries,
            r.path_view() == file_path@,
            r.auto_save_view(),
    {
        HistoryManager { entries: Vec::new(), file_path, max_entries, auto_save: true }
    }

    /// Whether the history is saved after each change.
    pub closed spec fn auto_save_view(&self) -> bool {
        self.auto_save
    }

    /// Whether the history is saved after each change.
    pub fn auto_save(&self) -> (r: bool)
        ensures
            r == self.auto_save_view(),
    {
        self.auto_save
    }

    /// The file the history is kept in.
    pub fn file_path(&self) -> (r: &str)
        ensures
            r@ == self.path_view(),
    {
        self.file_path.as_str()
    }

    /// Replaces the entries with those read from the file.
    pub fn load_entries(&mut self, entries: Vec<HistoryEntry>)
        ensures
            final(self).entries_view() == entries@,
            final(self).max_view() == old(self).max_view(),
            final(self).path_view() == old(self).path_view(),
    {
        self.entries = entries;
    }

    /// The entries, in order (what is saved to the file).
    pub fn entries(&self) -> (r: &Vec<HistoryEntry>)
        ensures
            r@ == self.entries_view(),
    {
        &self.entries
    }

    /// Records a run of `command`: blank commands and commands starting with
    /// `/` are ignored; a known command counts one more run, a new one is
    /// appended. Returns whether there are now more entries than allowed, in
    /// which case the application prunes the history.
    pub fn add(&mut self, command: String, success: bool) -> (prune: bool)
        requires
            recordable(command@) ==> (last_index_of(old(self).entries_view(), command@) matches Some(i)
                ==> old(self).entries_view()[i].count < u32::MAX),
        ensures
            !recordable(command@) ==> final(self).entries_view() == old(self).entries_view(),
            recordable(command@) ==> match last_index_of(old(self).entries_view(), command@) {
                Some(i) => {
                    &&& final(self).entries_view().len() == old(self).entries_view().len()
                    &&& forall|j: int| 0 <= j < old(self).entries_view().len() && j != i ==> #[trigger] final(self).entries_view()[j] == old(self).entries_view()[j]
                    &&& final(self).entries_view()[i].command == old(self).entries_view()[i].command
                    &&& final(self).entries_view()[i].count == old(self).entries_view()[i].count + 1
                    &&& final(self).entries_view()[i].last_success == success
                    &&& final(self).entries_view()[i].first_timestamp_ms == old(self).entries_view()[i].first_timestamp_ms
                },
                None => {
                    &&& final(self).entries_view().len() == old(self).entries_view().len() + 1
                    &&& final(self).entries_view().drop_last() == old(self).entries_view()
                    &&& final(self).entries_view().last().command == command
                    &&& final(self).entries_view().last().count == 1
                    &&& final(self).entries_view().last().last_success
                },
            },
            prune == (final(self).entries_view().len() > old(self).max_view()),
            final(self).max_view() == old(self).max_view(),
            final(self).path_view() == old(self).path_view(),
    {
        let cs = chars_of(command.as_str());
        let t = trim_chars(cs.as_slice());
        if t.len() == 0 || (cs.len() > 0 && cs[0] == '/') {
            return self.entries.len() > self.max_entries;
        }
        match find_last(&self.entries, cs.as_slice()) {
            Some(i) => {
                let mut e = self.entries.remove(i);
                e.update(success);
                self.entries.insert(i, e);
                proof {
                    assert forall|j: int| 0 <= j < old(self).entries@.len() && j != i implies #[trigger] self.entries@[j] == old(self).entries@[j] by {
                        if j < i {
                        } else {
                        }
                    }
                }
            },
            None => {
                let e = HistoryEntry::new(command);
                self.entries.push(e);
                proof {
                    assert(self.entries@.drop_last() =~= old(self).entries@);
                }
            },
        }
        self.entries.len() > self.max_entries
    }

    /// Forgets `command`; returns whether it was known.
    pub fn delete(&mut self, command: &str) -> (r: bool)
        ensures
            r == (last_index_of(old(self).entries_view(), command@) is Some),
            match last_index_of(old(self).entries_view(), command@) {
                Some(i) => final(self).entries_view() == old(self).entries_view().remove(i),
                None => final(self).entries_view() == old(self).entries_view(),
            },
            final(self).max_view() == old(self).max_view(),
            final(self).path_view() == old(self).path_view(),
    {
        match find_last(&self.entries, chars_of(command).as_slice()) {
            Some(i) => {
                let _ = self.entries.remove(i);
                true
            },
            None => false,
        }
    }

    /// Forgets every command.
    pub fn clear(&mut self)
        ensures
            final(self).entries_view() == Seq::<HistoryEntry>::empty(),
            final(self).max_view() == old(self).max_view(),
            final(self).path_view() == old(self).path_view(),
    {
        self.entries.clear();
    }

    /// Keeps the entries at the positions `order`, in that order, cut to the
    /// allowed number; the application orders the positions by score.
    pub fn retain_in_order(&mut self, order: &[usize])
        requires
            forall|i: int| 0 <= i < order@.len() ==> #[trigger] order@[i] < old(self).entries_view().len(),
        ensures
            final(self).entries_view().len() == if order@.len() < old(self).max_view() {
                order@.len()
            } else {
                old(self).max_view()
            },
            forall|i: int| 0 <= i < final(self).entries_view().len() ==> #[trigger] final(self).entries_view()[i]
                == old(self).entries_view()[order@[i] as int],
            final(self).max_view() == old(self).max_view(),
            final(self).path_view() == old(self).path_view(),
    {
        let n = if order.len() < self.max_entries { order.len() } else { self.max_entries };
        let mut kept: Vec<HistoryEntry> = Vec::new();
        let mut i: usize = 0;
        while i < n
            invariant
                i <= n,
                n <= order@.len(),
                forall|k: int| 0 <= k < order@.len() ==> #[trigger] order@[k] < self.entries@.len(),
                kept@.len() == i,
                forall|k: int| 0 <= k < i ==> #[trigger] kept@[k] == self.entries@[order@[k] as int],
            decreases n - i,
        {
            kept.push(copy_entry(&self.entries[order[i]]));
            i = i + 1;
        }
        self.entries = kept;
    }

    /// The entries whose command holds `keyword`, ignoring case, in order.
    pub fn matching(&self, keyword: &str) -> (r: Vec<HistoryEntry>)
        ensures
            r@ == history_matching(self.entries_view(), lowercase(keyword@)),
    {
        let kl = to_lowercase(keyword);
        let kw = chars_of(kl.as_str());
        let ghost pred = |e: HistoryEntry| has_infix(lowercase(e.command@), kw@);
        let mut out: Vec<HistoryEntry> = Vec::new();
        let mut i: usize = 0;
        while i < self.entries.len()
            invariant
                i <= self.entries@.len(),
                pred == (|e: HistoryEntry| has_infix(lowercase(e.command@), kw@)),
                out@ == self.entries@.take(i as int).filter(pred),
            decreases self.entries@.len() - i,
        {
            let e = &self.entries[i];
            let lc = to_lowercase(e.command.as_str());
            let keep = contains(chars_of(lc.as_str()).as_slice(), kw.as_slice());
            proof {
                let p = self.entries@.take(i as int);
                let q = self.entries@.take(i + 1);
                assert(q.drop_last() =~= p);
                assert(q.last() == *e);
                assert(q.filter(pred) == if pred(*e) { p.filter(pred).push(*e) } else { p.filter(pred) }) by {
                    reveal(Seq::filter);
                }
            }
            if keep {
                out.push(copy_entry(e));
            }
            i = i + 1;
        }
        proof {
            assert(self.entries@.take(self.entries@.len() as int) =~= self.entries@);
        }
        out
    }

    /// The statistics of the history.
    pub fn stats(&self) -> (r: HistoryStats)
        requires
            executions(self.entries_view()) <= u64::MAX,
        ensures
            r.total_entries == self.entries_view().len(),
            r.total_executions == executions(self.entries_view()),
            r.unique_commands == distinct_commands(self.entries_view()),
    {
        let mut total: u128 = 0;
        let mut unique: usize = 0;
        let mut i: usize = 0;
        proof {
            assert(self.entries@.take(0) =~= Seq::<HistoryEntry>::empty());
        }
        while i < self.entries.len()
            invariant
                i <= self.entries@.len(),
                total == executions(self.entries@.take(i as int)),
                unique == distinct_commands(self.entries@.take(i as int)),
            decreases self.entries@.len() - i,
        {
            let ghost p = self.entries@.take(i as int);
            let ghost q = self.entries@.take(i + 1);
            proof {
                assert(q.drop_last() =~= p);
                assert(q.last() == self.entries@[i as int]);
                lemma_executions_bound(p);
                lemma_distinct_bound(p);
                assert(p.len() * 0xffff_ffffnat + 0xffff_ffffnat < 0x1_0000_0000_0000_0000_0000_0000_0000_0000nat) by (nonlinear_arith)
                    requires
                        p.len() < 0x1_0000_0000_0000_0000,
                ;
            }
            total = total + (self.entries[i].count as u128);
            let mut seen = false;
            let mut j: usize = 0;
            while j < i
                invariant
                    j <= i,
                    i < self.entries@.len(),
                    seen == (last_index_of(self.entries@.take(j as int), self.entries@[i as int].command@) is Some),
                decreases i - j,
            {
                proof {
                    let a = self.entries@.take(j as int);
                    let b = self.entries@.take(j + 1);
                    assert(b.drop_last() =~= a);
                    assert(b.last() == self.entries@[j as int]);
                    lemma_last_index_bounds(a, self.entries@[i as int].command@);
                    lemma_last_index_bounds(b, self.entries@[i as int].command@);
                }
                if chars_equal(
                    chars_of(self.entries[j].command.as_str()).as_slice(),
                    chars_of(self.entries[i].command.as_str()).as_slice(),
                ) {
                    seen = true;
                }
                j = j + 1;
            }
            proof {
                assert(self.entries@.take(i as int) == p);
            }
            if !seen {
                unique = unique + 1;
            }
            i = i + 1;
        }
        proof {
            assert(self.entries@.take(self.entries@.len() as int) =~= self.entries@);
        }
        HistoryStats { total_entries: self.entries.len(), total_executions: total as u64, unique_commands: unique }
    }
}

} // verus!
