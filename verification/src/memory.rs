//! Short-term memory: a bounded ring buffer of conversation entries, with
//! search, filters, importance marks, statistics and a batch of entries
//! waiting to be persisted; plus the storage settings and the working context
//! of the conversation.
//!
//! Reading and appending the JSON-lines files is done by the application.

use vstd::prelude::*;
use std::collections::VecDeque;
use crate::text::{chars_of, string_of, extend_chars, push_decimal, decimal, contains, has_infix, to_lowercase, lowercase};
use crate::logger::{summarize, summary_of};
use crate::health::clock_millis;
pub use crate::context_tracker::{ContextTracker, Entity, EntityType, ReferenceRecord};

verus! {

/// The text chrono writes for a clock reading in milliseconds, read in UTC
/// and formatted by a strftime pattern (chrono
/// `DateTime::from_timestamp_millis`, then `format`), or `None` outside
/// chrono's range of dates.
pub uninterp spec fn utc_formatted(ms: i64, pattern: Seq<char>) -> Option<Seq<char>>;

/// A strftime pattern whose only specifiers are month, day, hour and minute
/// (`%m`, `%d`, `%H`, `%M`); every other character is written as it stands.
pub open spec fn month_day_time_pattern(p: Seq<char>) -> bool {
    forall|i: int|
        0 <= i < p.len() && #[trigger] p[i] == '%' ==> i + 1 < p.len() && (p[i + 1] == 'm'
            || p[i + 1] == 'd' || p[i + 1] == 'H' || p[i + 1] == 'M')
}

/// The pattern of the dates in the memory listing: `MM-DD HH:MM`.
pub open spec fn listing_pattern() -> Seq<char> {
    seq!['%', 'm', '-', '%', 'd', ' ', '%', 'H', ':', '%', 'M']
}

/// Calls chrono to write a clock reading in UTC by `pattern`. The pattern
/// holds only specifiers that chrono always writes, so the formatting does
/// not fail.
#[verifier::external_body]
fn format_utc_millis(ms: i64, pattern: &str) -> (r: Option<String>)
    requires
        month_day_time_pattern(pattern@),
    ensures
        match r {
            Some(s) => utc_formatted(ms, pattern@) == Some(s@),
            None => utc_formatted(ms, pattern@) is None,
        },
{
    chrono::DateTime::from_timestamp_millis(ms).map(|t| t.format(pattern).to_string())
}

// ---------------------------------------------------------------------------
// Entries
// ---------------------------------------------------------------------------

/// Who or what produced an entry.
#[derive(Debug, Clone, Copy, PartialEq, Eq, Hash, Structural)]
pub enum EntryType {
    /// User input.
    User,
    /// Assistant answer.
    Assistant,
    /// System message.
    System,
    /// Shell command.
    Shell,
    /// Tool call.
    Tool,
}

/// The label of an entry type, as its display shows it.
pub open spec fn type_label(t: EntryType) -> Seq<char> {
    match t {
        EntryType::User => "USER"@,
        EntryType::Assistant => "ASSISTANT"@,
        EntryType::System => "SYSTEM"@,
        EntryType::Shell => "SHELL"@,
        EntryType::Tool => "TOOL"@,
    }
}

impl EntryType {
    /// The label of the type (see `type_label`).
    pub fn label(&self) -> (r: &'static str)
        ensures
            r@ == type_label(*self),
    {
        match self {
            EntryType::User => "USER",
            EntryType::Assistant => "ASSISTANT",
            EntryType::System => "SYSTEM",
            EntryType::Shell => "SHELL",
            EntryType::Tool => "TOOL",
        }
    }
}

/// How important an entry is.
#[derive(Debug, Clone, Copy, PartialEq, Eq, Structural)]
pub enum Importance {
    /// Ordinary.
    Normal,
    /// Important.
    Important,
    /// Critical.
    Critical,
}

/// The mark of an importance level: none, `[*]` or `[**]`.
pub open spec fn importance_mark(i: Importance) -> Seq<char> {
    match i {
        Importance::Normal => ""@,
        Importance::Important => "[*]"@,
        Importance::Critical => "[**]"@,
    }
}

/// The name of an importance level, as its display shows it.
pub open spec fn importance_name(i: Importance) -> Seq<char> {
    match i {
        Importance::Normal => "Normal"@,
        Importance::Important => "Important"@,
        Importance::Critical => "Critical"@,
    }
}

impl Importance {
    /// The mark of the level (see `importance_mark`).
    pub fn symbol(&self) -> (r: &'static str)
        ensures
            r@ == importance_mark(*self),
    {
        match self {
            Importance::Normal => "",
            Importance::Important => "[*]",
            Importance::Critical => "[**]",
        }
    }

    /// The name of the level (see `importance_name`).
    pub fn name(&self) -> (r: &'static str)
        ensures
            r@ == importance_name(*self),
    {
        match self {
            Importance::Normal => "Normal",
            Importance::Important => "Important",
            Importance::Critical => "Critical",
        }
    }
}

/// One remembered entry.
#[derive(Debug, Clone)]
pub struct MemoryEntry {
    /// When it was remembered, in milliseconds since the Unix epoch.
    pub timestamp_ms: i64,
    /// Who or what produced it.
    pub entry_type: EntryType,
    /// What was said or run.
    pub content: String,
    /// How important it is.
    pub importance: Importance,
}

/// How long ago something happened, `elapsed` milliseconds before now, at
/// `ts`: `刚刚` under a minute, then whole minutes, hours or days (under a
/// week), and otherwise the UTC date and time.
pub open spec fn relative_text(elapsed: int, ts: i64) -> Seq<char> {
    if elapsed < 60_000 {
        "刚刚"@
    } else if elapsed < 3_600_000 {
        decimal((elapsed / 60_000) as nat) + "分钟前"@
    } else if elapsed < 86_400_000 {
        decimal((elapsed / 3_600_000) as nat) + "小时前"@
    } else if elapsed < 604_800_000 {
        decimal((elapsed / 86_400_000) as nat) + "天前"@
    } else {
        match utc_formatted(ts, listing_pattern()) {
            Some(s) => s,
            None => "-"@,
        }
    }
}

/// An entry's line: `[<when>] <TYPE>:<mark> <text>`, the mark preceded by a
/// space when there is one.
pub open spec fn entry_line(e: MemoryEntry, when: Seq<char>, text: Seq<char>) -> Seq<char> {
    let mark = if importance_mark(e.importance).len() == 0 {
        ""@
    } else {
        " "@ + importance_mark(e.importance)
    };
    "["@ + when + "] "@ + type_label(e.entry_type) + ":"@ + mark + " "@ + text
}

impl MemoryEntry {
    /// A normal entry remembered now, by the system clock.
    pub fn new(content: String, entry_type: EntryType) -> (r: MemoryEntry)
        ensures
            r.content == content,
            r.entry_type == entry_type,
            r.importance == Importance::Normal,
    {
        MemoryEntry { timestamp_ms: clock_millis(), entry_type, content, importance: Importance::Normal }
    }

    /// An entry of the given importance remembered now, by the system clock.
    pub fn new_with_importance(content: String, entry_type: EntryType, importance: Importance) -> (r: MemoryEntry)
        ensures
            r.content == content,
            r.entry_type == entry_type,
            r.importance == importance,
    {
        MemoryEntry { timestamp_ms: clock_millis(), entry_type, content, importance }
    }

    /// How long before `now_ms` the entry was remembered (see `relative_text`).
    pub fn relative_time_at(&self, now_ms: i64) -> (r: String)
        ensures
            r@ == relative_text(now_ms - self.timestamp_ms, self.timestamp_ms),
    {
        let elapsed: i128 = (now_ms as i128) - (self.timestamp_ms as i128);
        let mut out: Vec<char> = Vec::new();
        if elapsed < 60_000 {
            out = chars_of("刚刚");
        } else if elapsed < 3_600_000 {
            push_decimal(&mut out, (elapsed / 60_000) as u64);
            extend_chars(&mut out, chars_of("分钟前").as_slice());
        } else if elapsed < 86_400_000 {
            push_decimal(&mut out, (elapsed / 3_600_000) as u64);
            extend_chars(&mut out, chars_of("小时前").as_slice());
        } else if elapsed < 604_800_000 {
            push_decimal(&mut out, (elapsed / 86_400_000) as u64);
            extend_chars(&mut out, chars_of("天前").as_slice());
        } else {
            let pattern = "%m-%d %H:%M";
            proof {
                reveal_strlit("%m-%d %H:%M");
                assert(pattern@ == listing_pattern());
            }
            match format_utc_millis(self.timestamp_ms, pattern) {
                Some(s) => {
                    out = chars_of(s.as_str());
                },
                None => {
                    out = chars_of("-");
                },
            }
        }
        string_of(out.as_slice())
    }

    fn line_with(&self, when: &str, text: &[char]) -> (r: String)
        ensures
            r@ == entry_line(*self, when@, text@),
    {
        let mut out = chars_of("[");
        extend_chars(&mut out, chars_of(when).as_slice());
        extend_chars(&mut out, chars_of("] ").as_slice());
        extend_chars(&mut out, chars_of(self.entry_type.label()).as_slice());
        extend_chars(&mut out, chars_of(":").as_slice());
        let mark = self.importance.symbol();
        if mark.unicode_len() > 0 {
            extend_chars(&mut out, chars_of(" ").as_slice());
            extend_chars(&mut out, chars_of(mark).as_slice());
        }
        extend_chars(&mut out, chars_of(" ").as_slice());
        extend_chars(&mut out, text);
        proof {
            let m = if importance_mark(self.importance).len() == 0 {
                ""@
            } else {
                " "@ + importance_mark(self.importance)
            };
            reveal_strlit("");
            assert(out@ =~= "["@ + when@ + "] "@ + type_label(self.entry_type) + ":"@ + m + " "@ + text@);
        }
        string_of(out.as_slice())
    }

    /// The entry's line at `now_ms`: when, type, mark and content.
    pub fn format_at(&self, now_ms: i64) -> (r: String)
        ensures
            r@ == entry_line(*self, relative_text(now_ms - self.timestamp_ms, self.timestamp_ms), self.content@),
    {
        let when = self.relative_time_at(now_ms);
        self.line_with(when.as_str(), chars_of(self.content.as_str()).as_slice())
    }

    /// The entry's line now, by the system clock (see `format_at`).
    pub fn format(&self) -> (r: String)
        ensures
            exists|now: i64| r@ == entry_line(*self, #[trigger] relative_text(now - self.timestamp_ms, self.timestamp_ms), self.content@),
    {
        self.format_at(clock_millis())
    }

    /// The entry's line at `now_ms` with the content cut to its first 80
    /// characters (followed by `...` when it is longer).
    pub fn preview_at(&self, now_ms: i64) -> (r: String)
        ensures
            r@ == entry_line(
                *self,
                relative_text(now_ms - self.timestamp_ms, self.timestamp_ms),
                summary_of(self.content@, 80),
            ),
    {
        let when = self.relative_time_at(now_ms);
        let text = summarize(chars_of(self.content.as_str()).as_slice(), 80);
        self.line_with(when.as_str(), text.as_slice())
    }

    /// The entry's preview now, by the system clock (see `preview_at`).
    pub fn preview(&self) -> (r: String)
        ensures
            exists|now: i64| r@ == entry_line(
                *self,
                #[trigger] relative_text(now - self.timestamp_ms, self.timestamp_ms),
                summary_of(self.content@, 80),
            ),
    {
        self.preview_at(clock_millis())
    }
}

// ---------------------------------------------------------------------------
// The ring buffer
// ---------------------------------------------------------------------------

/// The entries after remembering `e` in a buffer of capacity `cap`: the
/// oldest entry goes first when the buffer is full.
pub open spec fn remembered(s: Seq<MemoryEntry>, cap: nat, e: MemoryEntry) -> Seq<MemoryEntry> {
    (if s.len() >= cap && s.len() > 0 {
        s.drop_first()
    } else {
        s
    }).push(e)
}

/// The entries whose lowercased content holds `kw`, in order.
pub open spec fn matching(s: Seq<MemoryEntry>, kw: Seq<char>) -> Seq<MemoryEntry> {
    s.filter(|e: MemoryEntry| has_infix(lowercase(e.content@), kw))
}

/// The entries of type `t`, in order.
pub open spec fn of_type(s: Seq<MemoryEntry>, t: EntryType) -> Seq<MemoryEntry> {
    s.filter(|e: MemoryEntry| e.entry_type == t)
}

/// The entries of importance `i`, in order.
pub open spec fn of_importance(s: Seq<MemoryEntry>, i: Importance) -> Seq<MemoryEntry> {
    s.filter(|e: MemoryEntry| e.importance == i)
}

/// How many entries have type `t`.
pub open spec fn count_type(s: Seq<MemoryEntry>, t: EntryType) -> nat {
    of_type(s, t).len()
}

/// A list of references holds exactly the entries `want`, in order.
pub open spec fn refs_are(r: Seq<&MemoryEntry>, want: Seq<MemoryEntry>) -> bool {
    &&& r.len() == want.len()
    &&& forall|i: int| 0 <= i < r.len() ==> *#[trigger] r[i] == want[i]
}

/// Counts per entry type.
#[derive(Debug, Clone)]
pub struct MemoryStats {
    /// Entries held.
    pub total_entries: usize,
    /// Entries per type, each type present once, in the order first seen.
    pub type_distribution: Vec<(EntryType, usize)>,
    /// When the oldest entry was remembered.
    pub earliest_timestamp_ms: Option<i64>,
    /// When the newest entry was remembered.
    pub latest_timestamp_ms: Option<i64>,
}

/// The per-type counts list each type of the entries once, with its count.
pub open spec fn distribution_matches(d: Seq<(EntryType, usize)>, s: Seq<MemoryEntry>) -> bool {
    &&& forall|i: int| 0 <= i < d.len() ==> #[trigger] d[i].1 == count_type(s, d[i].0)
    &&& forall|i: int, j: int| 0 <= i < j < d.len() ==> #[trigger] d[i].0 != #[trigger] d[j].0
    &&& forall|t: EntryType| count_type(s, t) > 0 ==> exists|i: int| 0 <= i < d.len() && #[trigger] d[i].0 == t
}

/// Short-term memory: at most `capacity` entries (at least the newest one),
/// oldest first, and the entries queued to be persisted.
pub struct Memory {
    entries: VecDeque<MemoryEntry>,
    capacity: usize,
    pending_persist: Vec<MemoryEntry>,
    persist_batch_size: usize,
}

impl Memory {
    /// The entries, oldest first.
    pub closed spec fn entries_view(&self) -> Seq<MemoryEntry> {
        self.entries@
    }

    /// The capacity.
    pub closed spec fn capacity_view(&self) -> nat {
        self.capacity as nat
    }

    /// The entries waiting to be persisted, in order.
    pub closed spec fn pending_view(&self) -> Seq<MemoryEntry> {
        self.pending_persist@
    }

    /// How many pending entries make a batch.
    pub closed spec fn batch_view(&self) -> nat {
        self.persist_batch_size as nat
    }

    /// The buffer never holds more than its capacity, or one entry when the
    /// capacity is 0.
    pub open spec fn wf(&self) -> bool {
        self.entries_view().len() <= if self.capacity_view() == 0 {
            1
        } else {
            self.capacity_view()
        }
    }

    /// An empty memory of the given capacity; batches of 10.
    pub fn new(capacity: usize) -> (r: Memory)
        ensures
            r.wf(),
            r.entries_view() == Seq::<MemoryEntry>::empty(),
            r.capacity_view() == capacity,
            r.pending_view() == Seq::<MemoryEntry>::empty(),
            r.batch_view() == 10,
    {
        Memory { entries: VecDeque::new(), capacity, pending_persist: Vec::new(), persist_batch_size: 10 }
    }

    /// The same memory with another batch size.
    pub fn with_persist_batch_size(self, batch_size: usize) -> (r: Memory)
        ensures
            r.batch_view() == batch_size,
            r.entries_view() == self.entries_view(),
            r.capacity_view() == self.capacity_view(),
            r.pending_view() == self.pending_view(),
    {
        let mut m = self;
        m.persist_batch_size = batch_size;
        m
    }

    /// The capacity.
    pub fn capacity(&self) -> (r: usize)
        ensures
            r == self.capacity_view(),
    {
        self.capacity
    }

    /// Remembers an entry as it is (keeping its timestamp); the oldest entry
    /// goes when the buffer is full.
    pub fn push_entry(&mut self, entry: MemoryEntry)
        requires
            old(self).wf(),
        ensures
            final(self).wf(),
            final(self).entries_view() == remembered(old(self).entries_view(), old(self).capacity_view(), entry),
            final(self).capacity_view() == old(self).capacity_view(),
            final(self).pending_view() == old(self).pending_view(),
            final(self).batch_view() == old(self).batch_view(),
    {
        if self.entries.len() >= self.capacity {
            let ghost before = self.entries@;
            let _ = self.entries.pop_front();
            proof {
                if before.len() > 0 {
                    assert(self.entries@ =~= before.drop_first());
                }
            }
        }
        self.entries.push_back(entry);
    }

    /// Remembers a normal entry made now, by the system clock.
    pub fn add(&mut self, content: String, entry_type: EntryType)
        requires
            old(self).wf(),
        ensures
            final(self).wf(),
            exists|e: MemoryEntry| {
                &&& e.content == content
                &&& e.entry_type == entry_type
                &&& e.importance == Importance::Normal
                &&& #[trigger] remembered(old(self).entries_view(), old(self).capacity_view(), e)
                    == final(self).entries_view()
            },
            final(self).capacity_view() == old(self).capacity_view(),
            final(self).pending_view() == old(self).pending_view(),
            final(self).batch_view() == old(self).batch_view(),
    {
        let entry = MemoryEntry::new(content, entry_type);
        self.push_entry(entry);
    }

    /// The newest `n` entries (all when there are fewer), newest first.
    pub fn recent(&self, n: usize) -> (r: Vec<&MemoryEntry>)
        ensures
            refs_are(r@, self.entries_view().reverse().take(
                if n < self.entries_view().len() { n as int } else { self.entries_view().len() as int },
            )),
    {
        let len = self.entries.len();
        let count = if n < len { n } else { len };
        let mut out: Vec<&MemoryEntry> = Vec::new();
        let mut i: usize = 0;
        while i < count
            invariant
                i <= count,
                count <= len,
                len == self.entries@.len(),
                out@.len() == i,
                forall|j: int| 0 <= j < i ==> *#[trigger] out@[j] == self.entries@[len - 1 - j],
            decreases count - i,
        {
            out.push(&self.entries[len - 1 - i]);
            i = i + 1;
        }
        proof {
            let want = self.entries@.reverse().take(count as int);
            assert forall|j: int| 0 <= j < out@.len() implies *#[trigger] out@[j] == want[j] by {
                assert(want[j] == self.entries@.reverse()[j]);
            }
        }
        out
    }

    /// Collects the entries that satisfy `keep`, in order.
    fn collect_where(&self, Ghost(want): Ghost<Seq<MemoryEntry>>, Ghost(pred): Ghost<spec_fn(MemoryEntry) -> bool>, kw: &[char], mode: u8, t: EntryType, imp: Importance) -> (r: Vec<&MemoryEntry>)
        requires
            want == self.entries@.filter(pred),
            forall|e: MemoryEntry| #[trigger] pred(e) == (if mode == 0 {
                has_infix(lowercase(e.content@), kw@)
            } else if mode == 1 {
                e.entry_type == t
            } else {
                e.importance == imp
            }),
        ensures
            refs_are(r@, want),
    {
        let mut out: Vec<&MemoryEntry> = Vec::new();
        let mut i: usize = 0;
        while i < self.entries.len()
            invariant
                i <= self.entries@.len(),
                forall|e: MemoryEntry| #[trigger] pred(e) == (if mode == 0 {
                    has_infix(lowercase(e.content@), kw@)
                } else if mode == 1 {
                    e.entry_type == t
                } else {
                    e.importance == imp
                }),
                refs_are(out@, self.entries@.take(i as int).filter(pred)),
            decreases self.entries@.len() - i,
        {
            let e = &self.entries[i];
            let keep = if mode == 0 {
                let lc = to_lowercase(e.content.as_str());
                contains(chars_of(lc.as_str()).as_slice(), kw)
            } else if mode == 1 {
                e.entry_type == t
            } else {
                e.importance == imp
            };
            proof {
                let p = self.entries@.take(i as int);
                let q = self.entries@.take(i + 1);
                assert(q.drop_last() =~= p);
                assert(q.last() == *e);
                assert(q.filter(pred) == if pred(*e) { p.filter(pred).push(*e) } else { p.filter(pred) }) by {
                    reveal(Seq::filter);
                }
            }
            if keep {
                out.push(e);
            }
            i = i + 1;
        }
        proof {
            assert(self.entries@.take(self.entries@.len() as int) =~= self.entries@);
        }
        out
    }

    /// The entries whose content holds `keyword`, ignoring case, in order.
    pub fn search(&self, keyword: &str) -> (r: Vec<&MemoryEntry>)
        ensures
            refs_are(r@, matching(self.entries_view(), lowercase(keyword@))),
    {
        let kl = to_lowercase(keyword);
        let kw = chars_of(kl.as_str());
        let ghost pred = |e: MemoryEntry| has_infix(lowercase(e.content@), kw@);
        self.collect_where(Ghost(self.entries@.filter(pred)), Ghost(pred), kw.as_slice(), 0, EntryType::User, Importance::Normal)
    }

    /// The entries of type `entry_type`, in order.
    pub fn filter_by_type(&self, entry_type: EntryType) -> (r: Vec<&MemoryEntry>)
        ensures
            refs_are(r@, of_type(self.entries_view(), entry_type)),
    {
        let ghost pred = |e: MemoryEntry| e.entry_type == entry_type;
        let none: Vec<char> = Vec::new();
        self.collect_where(Ghost(self.entries@.filter(pred)), Ghost(pred), none.as_slice(), 1, entry_type, Importance::Normal)
    }

    /// The entries of importance `importance`, in order.
    pub fn filter_by_importance(&self, importance: Importance) -> (r: Vec<&MemoryEntry>)
        ensures
            refs_are(r@, of_importance(self.entries_view(), importance)),
    {
        let ghost pred = |e: MemoryEntry| e.importance == importance;
        let none: Vec<char> = Vec::new();
        self.collect_where(Ghost(self.entries@.filter(pred)), Ghost(pred), none.as_slice(), 2, EntryType::User, importance)
    }

    /// All entries, oldest first.
    pub fn dump(&self) -> (r: Vec<&MemoryEntry>)
        ensures
            refs_are(r@, self.entries_view()),
    {
        let mut out: Vec<&MemoryEntry> = Vec::new();
        let mut i: usize = 0;
        while i < self.entries.len()
            invariant
                i <= self.entries@.len(),
                out@.len() == i,
                forall|j: int| 0 <= j < i ==> *#[trigger] out@[j] == self.entries@[j],
            decreases self.entries@.len() - i,
        {
            out.push(&self.entries[i]);
            i = i + 1;
        }
        out
    }

    /// Forgets every entry.
    pub fn clear(&mut self)
        ensures
            final(self).wf(),
            final(self).entries_view() == Seq::<MemoryEntry>::empty(),
            final(self).capacity_view() == old(self).capacity_view(),
            final(self).pending_view() == old(self).pending_view(),
            final(self).batch_view() == old(self).batch_view(),
    {
        self.entries.clear();
    }

    /// How many entries are held.
    pub fn len(&self) -> (r: usize)
        ensures
            r == self.entries_view().len(),
    {
        self.entries.len()
    }

    /// Whether no entry is held.
    pub fn is_empty(&self) -> (r: bool)
        ensures
            r == (self.entries_view().len() == 0),
    {
        self.entries.len() == 0
    }

    /// Sets the importance of the entry `index` places from the newest (0 is
    /// the newest); fails when there is no such entry.
    pub fn mark_importance(&mut self, index: usize, importance: Importance) -> (r: Result<(), String>)
        requires
            old(self).wf(),
        ensures
            final(self).wf(),
            r is Ok <==> index < old(self).entries_view().len(),
            r is Ok ==> {
                let k = old(self).entries_view().len() - 1 - index;
                let e = old(self).entries_view()[k];
                final(self).entries_view() == old(self).entries_view().update(
                    k,
                    MemoryEntry { importance, ..e },
                )
            },
            r is Err ==> final(self).entries_view() == old(self).entries_view() && r->Err_0@
                == "索引 "@ + decimal(index as nat) + " 超出范围（总共 "@ + decimal(
                old(self).entries_view().len(),
            ) + " 条记忆）"@,
            final(self).capacity_view() == old(self).capacity_view(),
            final(self).pending_view() == old(self).pending_view(),
            final(self).batch_view() == old(self).batch_view(),
    {
        let len = self.entries.len();
        if index >= len {
            let mut m = chars_of("索引 ");
            push_decimal(&mut m, index as u64);
            extend_chars(&mut m, chars_of(" 超出范围（总共 ").as_slice());
            push_decimal(&mut m, len as u64);
            extend_chars(&mut m, chars_of(" 条记忆）").as_slice());
            return Err(string_of(m.as_slice()));
        }
        let k = len - 1 - index;
        let ghost before = self.entries@;
        let removed = self.entries.remove(k);
        match removed {
            Some(e) => {
                let updated = MemoryEntry { importance, ..e };
                self.entries.insert(k, updated);
                proof {
                    assert(self.entries@ =~= before.update(k as int, updated));
                }
                Ok(())
            },
            None => {
                Err(string_of(chars_of("无法找到指定的记忆条目").as_slice()))
            },
        }
    }

    /// The statistics of the entries.
    pub fn stats(&self) -> (r: MemoryStats)
        ensures
            r.total_entries == self.entries_view().len(),
            distribution_matches(r.type_distribution@, self.entries_view()),
            r.earliest_timestamp_ms == (if self.entries_view().len() > 0 {
                Some(self.entries_view()[0].timestamp_ms)
            } else {
                None
            }),
            r.latest_timestamp_ms == (if self.entries_view().len() > 0 {
                Some(self.entries_view().last().timestamp_ms)
            } else {
                None
            }),
    {
        let mut d: Vec<(EntryType, usize)> = Vec::new();
        let mut i: usize = 0;
        proof {
            assert(self.entries@.take(0) =~= Seq::<MemoryEntry>::empty());
            assert forall|t: EntryType| count_type(Seq::<MemoryEntry>::empty(), t) == 0 by {
                assert(of_type(Seq::<MemoryEntry>::empty(), t) =~= Seq::<MemoryEntry>::empty()) by {
                    reveal(Seq::filter);
                }
            }
        }
        while i < self.entries.len()
            invariant
                i <= self.entries@.len(),
                distribution_matches(d@, self.entries@.take(i as int)),
                d@.len() <= i,
            decreases self.entries@.len() - i,
        {
            let t = self.entries[i].entry_type;
            let ghost p = self.entries@.take(i as int);
            let ghost q = self.entries@.take(i + 1);
            proof {
                assert(q.drop_last() =~= p);
                assert(q.last() == self.entries@[i as int]);
                assert forall|u: EntryType| #[trigger] count_type(q, u) == count_type(p, u) + if u == t {
                    1nat
                } else {
                    0nat
                } by {
                    reveal(Seq::filter);
                    assert(q.drop_last() =~= p);
                }
                assert forall|u: EntryType| #[trigger] count_type(p, u) <= p.len() by {
                    p.filter_lemma(|e: MemoryEntry| e.entry_type == u);
                }
            }
            let mut j: usize = 0;
            let mut hit = false;
            while j < d.len() && !hit
                invariant
                    j <= d@.len(),
                    hit ==> j < d@.len() && d@[j as int].0 == t,
                    forall|k: int| 0 <= k < j ==> #[trigger] d@[k].0 != t,
                decreases d@.len() - j + (if hit { 0int } else { 1int }),
            {
                if d[j].0 == t {
                    hit = true;
                } else {
                    j = j + 1;
                }
            }
            if hit {
                let c = d[j].1;
                let ghost before = d@;
                d.set(j, (t, c + 1));
                proof {
                    assert forall|a: int| 0 <= a < d@.len() implies #[trigger] d@[a].1 == count_type(q, d@[a].0) by {
                        if a != j {
                            assert(before[a].0 != before[j as int].0);
                        }
                    }
                    assert forall|a: int, b: int| 0 <= a < b < d@.len() implies #[trigger] d@[a].0 != #[trigger] d@[b].0 by {
                        assert(before[a].0 != before[b].0);
                    }
                    assert forall|u: EntryType| count_type(q, u) > 0 implies exists|a: int| 0 <= a < d@.len() && #[trigger] d@[a].0 == u by {
                        if u == t {
                            assert(d@[j as int].0 == u);
                        } else {
                            assert(count_type(p, u) > 0);
                            let a = choose|a: int| 0 <= a < before.len() && #[trigger] before[a].0 == u;
                            assert(d@[a].0 == u);
                        }
                    }
                }
            } else {
                proof {
                    if count_type(p, t) > 0 {
                        let a = choose|a: int| 0 <= a < d@.len() && #[trigger] d@[a].0 == t;
                        assert(d@[a].0 != t);
                    }
                }
                let ghost before = d@;
                d.push((t, 1));
                proof {
                    assert forall|a: int| 0 <= a < d@.len() implies #[trigger] d@[a].1 == count_type(q, d@[a].0) by {
                        if a < before.len() {
                            assert(before[a].0 != t);
                        }
                    }
                    assert forall|a: int, b: int| 0 <= a < b < d@.len() implies #[trigger] d@[a].0 != #[trigger] d@[b].0 by {
                        if b < before.len() {
                            assert(before[a].0 != before[b].0);
                        } else {
                            assert(before[a].0 != t);
                        }
                    }
                    assert forall|u: EntryType| count_type(q, u) > 0 implies exists|a: int| 0 <= a < d@.len() && #[trigger] d@[a].0 == u by {
                        if u == t {
                            assert(d@[before.len() as int].0 == u);
                        } else {
                            assert(count_type(p, u) > 0);
                            let a = choose|a: int| 0 <= a < before.len() && #[trigger] before[a].0 == u;
                            assert(d@[a].0 == u);
                        }
                    }
                }
            }
            i = i + 1;
        }
        proof {
            assert(self.entries@.take(self.entries@.len() as int) =~= self.entries@);
        }
        let len = self.entries.len();
        let earliest = if len > 0 { Some(self.entries[0].timestamp_ms) } else { None };
        let latest = if len > 0 { Some(self.entries[len - 1].timestamp_ms) } else { None };
        MemoryStats { total_entries: len, type_distribution: d, earliest_timestamp_ms: earliest, latest_timestamp_ms: latest }
    }

    /// Queues an entry to be persisted.
    pub fn queue_for_persist(&mut self, entry: MemoryEntry)
        ensures
            final(self).pending_view() == old(self).pending_view().push(entry),
            final(self).entries_view() == old(self).entries_view(),
            final(self).capacity_view() == old(self).capacity_view(),
            final(self).batch_view() == old(self).batch_view(),
    {
        self.pending_persist.push(entry);
    }

    /// Whether a full batch is waiting to be persisted.
    pub fn should_flush(&self) -> (r: bool)
        ensures
            r == (self.pending_view().len() >= self.batch_view()),
    {
        self.pending_persist.len() >= self.persist_batch_size
    }

    /// Hands over the queued entries, in order, leaving none queued; the
    /// application appends them to the file.
    pub fn take_pending(&mut self) -> (r: Vec<MemoryEntry>)
        ensures
            r@ == old(self).pending_view(),
            final(self).pending_view() == Seq::<MemoryEntry>::empty(),
            final(self).entries_view() == old(self).entries_view(),
            final(self).capacity_view() == old(self).capacity_view(),
            final(self).batch_view() == old(self).batch_view(),
    {
        let mut taken: Vec<MemoryEntry> = Vec::new();
        std::mem::swap(&mut taken, &mut self.pending_persist);
        taken
    }

    /// Remembers a normal entry made now and, when a persistence file is in
    /// use, queues it; returns whether a full batch is now waiting, which the
    /// application then takes and appends.
    pub fn add_with_persist(&mut self, content: String, entry_type: EntryType, persist: bool) -> (r: bool)
        requires
            old(self).wf(),
        ensures
            final(self).wf(),
            exists|e: MemoryEntry| {
                &&& e.content == content
                &&& e.entry_type == entry_type
                &&& e.importance == Importance::Normal
                &&& #[trigger] remembered(old(self).entries_view(), old(self).capacity_view(), e)
                    == final(self).entries_view()
                &&& final(self).pending_view() == if persist {
                    old(self).pending_view().push(e)
                } else {
                    old(self).pending_view()
                }
            },
            r == (persist && final(self).pending_view().len() >= final(self).batch_view()),
            final(self).capacity_view() == old(self).capacity_view(),
            final(self).batch_view() == old(self).batch_view(),
    {
        let entry = MemoryEntry::new(content, entry_type);
        let ghost e = entry;
        let copy = MemoryEntry {
            timestamp_ms: entry.timestamp_ms,
            entry_type: entry.entry_type,
            content: entry.content.clone(),
            importance: entry.importance,
        };
        self.push_entry(entry);
        if persist {
            self.queue_for_persist(copy);
            self.should_flush()
        } else {
            false
        }
    }
}

impl Default for Memory {
    fn default() -> (r: Memory)
        ensures
            r.wf(),
            r.entries_view() == Seq::<MemoryEntry>::empty(),
            r.capacity_view() == 100,
            r.pending_view() == Seq::<MemoryEntry>::empty(),
            r.batch_view() == 10,
    {
        Memory::new(100)
    }
}

/// Whatever was held, the buffer keeps at most its capacity (one entry when
/// the capacity is 0), and the newest entry is the one just remembered.
pub proof fn law_ring_bounded(s: Seq<MemoryEntry>, cap: nat, e: MemoryEntry)
    requires
        s.len() <= if cap == 0 { 1 } else { cap },
    ensures
        remembered(s, cap, e).len() <= if cap == 0 { 1 } else { cap },
        remembered(s, cap, e).last() == e,
        s.len() < cap ==> remembered(s, cap, e) == s.push(e),
{
}

// ---------------------------------------------------------------------------
// Storage settings
// ---------------------------------------------------------------------------

/// How snapshots are written.
#[derive(Debug, Clone, Copy, PartialEq, Eq, Structural)]
pub enum PersistFormat {
    /// One JSON document.
    Json,
    /// One JSON document per line.
    JsonLines,
    /// Bincode.
    Bincode,
}

/// Settings of memory kept in a storage backend.
#[derive(Debug, Clone)]
pub struct MemoryStorageConfig {
    /// Entries kept in memory.
    pub capacity: usize,
    /// Entries between automatic snapshots.
    pub auto_persist_interval: usize,
    /// Whether snapshots are compressed.
    pub enable_compression: bool,
    /// How snapshots are written.
    pub format: PersistFormat,
}

impl Default for MemoryStorageConfig {
    fn default() -> (r: MemoryStorageConfig)
        ensures
            r.capacity == 100,
            r.auto_persist_interval == 10,
            !r.enable_compression,
            r.format == PersistFormat::Json,
    {
        MemoryStorageConfig {
            capacity: 100,
            auto_persist_interval: 10,
            enable_compression: false,
            format: PersistFormat::Json,
        }
    }
}

/// What a snapshot says of itself.
#[derive(Debug, Clone)]
pub struct SnapshotMetadata {
    /// Entries in the snapshot.
    pub total_entries: usize,
    /// Where it came from.
    pub source: Option<String>,
    /// Its tags.
    pub tags: Vec<String>,
}

impl Default for SnapshotMetadata {
    fn default() -> (r: SnapshotMetadata)
        ensures
            r.total_entries == 0,
            r.source is None,
            r.tags@.len() == 0,
    {
        SnapshotMetadata { total_entries: 0, source: None, tags: Vec::new() }
    }
}

/// The statistics of memory kept in a storage backend.
#[derive(Debug, Clone)]
pub struct MemoryAdapterStats {
    /// Entries held in memory.
    pub memory_entries: usize,
    /// Entries per type (see `MemoryStats`).
    pub type_distribution: Vec<(EntryType, usize)>,
}

impl MemoryAdapterStats {
    /// The adapter's statistics of a memory.
    pub fn of(memory: &Memory) -> (r: MemoryAdapterStats)
        ensures
            r.memory_entries == memory.entries_view().len(),
            distribution_matches(r.type_distribution@, memory.entries_view()),
    {
        let s = memory.stats();
        MemoryAdapterStats { memory_entries: s.total_entries, type_distribution: s.type_distribution }
    }
}

// ---------------------------------------------------------------------------
// Working context
// ---------------------------------------------------------------------------

/// What the user is working on.
#[derive(Debug, Clone)]
pub struct WorkingContext {
    /// The current directory.
    pub current_directory: Option<String>,
    /// The file handled last.
    pub last_file: Option<String>,
    /// The command run last.
    pub last_command: Option<String>,
    /// Variables in use, each name once, in the order first set.
    pub active_variables: Vec<(String, String)>,
    /// The task at hand.
    pub current_task: Option<String>,
}

/// A change of the working context.
#[derive(Debug, Clone)]
pub enum WorkingContextUpdate {
    CurrentDirectory(String),
    LastFile(String),
    LastCommand(String),
    Variable { name: String, value: String },
    CurrentTask(String),
}

/// The variables after setting `name` to `value`: the value of an existing
/// variable is replaced in place, a new variable goes last.
pub open spec fn vars_set(vars: Seq<(String, String)>, name: String, value: String) -> Seq<(String, String)> {
    if exists|i: int| 0 <= i < vars.len() && #[trigger] vars[i].0@ == name@ {
        let i = choose|i: int| 0 <= i < vars.len() && #[trigger] vars[i].0@ == name@;
        vars.update(i, (vars[i].0, value))
    } else {
        vars.push((name, value))
    }
}

/// Each variable name occurs once.
pub open spec fn vars_distinct(vars: Seq<(String, String)>) -> bool {
    forall|i: int, j: int| 0 <= i < j < vars.len() ==> #[trigger] vars[i].0@ != #[trigger] vars[j].0@
}

/// Counts of the context tracker.
#[derive(Debug, Clone)]
pub struct ContextStats {
    pub total_entities: usize,
    pub total_references: usize,
    pub working_context_active: bool,
}

/// `after` is `before` with `u` applied: the part that `u` names is set (a
/// variable as `vars_set` says), and the other parts stay as they were.
pub open spec fn context_updated(before: WorkingContext, after: WorkingContext, u: WorkingContextUpdate) -> bool {
    match u {
        WorkingContextUpdate::CurrentDirectory(d) => after.current_directory == Some(d)
            && after.last_file == before.last_file
            && after.last_command == before.last_command
            && after.active_variables@ == before.active_variables@
            && after.current_task == before.current_task,
        WorkingContextUpdate::LastFile(f) => after.last_file == Some(f)
            && after.current_directory == before.current_directory
            && after.last_command == before.last_command
            && after.active_variables@ == before.active_variables@
            && after.current_task == before.current_task,
        WorkingContextUpdate::LastCommand(c) => after.last_command == Some(c)
            && after.current_directory == before.current_directory
            && after.last_file == before.last_file
            && after.active_variables@ == before.active_variables@
            && after.current_task == before.current_task,
        WorkingContextUpdate::Variable { name, value } => after.active_variables@ == vars_set(
            before.active_variables@,
            name,
            value,
        ) && after.current_directory == before.current_directory && after.last_file == before.last_file
            && after.last_command == before.last_command && after.current_task == before.current_task,
        WorkingContextUpdate::CurrentTask(t) => after.current_task == Some(t)
            && after.current_directory == before.current_directory
            && after.last_file == before.last_file
            && after.last_command == before.last_command
            && after.active_variables@ == before.active_variables@,
    }
}

impl WorkingContext {
    /// An empty context.
    pub fn new() -> (r: WorkingContext)
        ensures
            r.current_directory is None,
            r.last_file is None,
            r.last_command is None,
            r.active_variables@.len() == 0,
            r.current_task is None,
    {
        WorkingContext {
            current_directory: None,
            last_file: None,
            last_command: None,
            active_variables: Vec::new(),
            current_task: None,
        }
    }

    /// Applies a change; the other parts of the context stay as they were.
    pub fn apply(&mut self, update: WorkingContextUpdate)
        requires
            vars_distinct(old(self).active_variables@),
        ensures
            vars_distinct(final(self).active_variables@),
            context_updated(*old(self), *final(self), update),
    {
        match update {
            WorkingContextUpdate::CurrentDirectory(d) => {
                self.current_directory = Some(d);
            },
            WorkingContextUpdate::LastFile(f) => {
                self.last_file = Some(f);
            },
            WorkingContextUpdate::LastCommand(c) => {
                self.last_command = Some(c);
            },
            WorkingContextUpdate::Variable { name, value } => {
                let ghost old_vars = self.active_variables@;
                let mut i: usize = 0;
                while i < self.active_variables.len()
                    invariant
                        i <= self.active_variables@.len(),
                        self.active_variables@ == old_vars,
                        old_vars == old(self).active_variables@,
                        update == (WorkingContextUpdate::Variable { name, value }),
                        self.current_directory == old(self).current_directory,
                        self.last_file == old(self).last_file,
                        self.last_command == old(self).last_command,
                        self.current_task == old(self).current_task,
                        vars_distinct(old_vars),
                        forall|j: int| 0 <= j < i ==> #[trigger] old_vars[j].0@ != name@,
                    decreases self.active_variables@.len() - i,
                {
                    if crate::text::chars_equal(
                        chars_of(self.active_variables[i].0.as_str()).as_slice(),
                        chars_of(name.as_str()).as_slice(),
                    ) {
                        let key = self.active_variables[i].0.clone();
                        let ghost v = value;
                        self.active_variables.set(i, (key, value));
                        proof {
                            assert(exists|k: int| 0 <= k < old_vars.len() && #[trigger] old_vars[k].0@ == name@) by {
                                assert(old_vars[i as int].0@ == name@);
                            }
                            let c = choose|k: int| 0 <= k < old_vars.len() && #[trigger] old_vars[k].0@ == name@;
                            assert(c == i) by {
                                if c < i {
                                } else if c > i {
                                    assert(old_vars[i as int].0@ != old_vars[c].0@);
                                }
                            }
                            assert(self.active_variables@ =~= old_vars.update(i as int, (old_vars[i as int].0, v)));
                            assert(self.active_variables@ == vars_set(old_vars, name, v));
                            assert forall|a: int, b: int| 0 <= a < b < self.active_variables@.len() implies #[trigger] self.active_variables@[a].0@ != #[trigger] self.active_variables@[b].0@ by {
                                assert(old_vars[a].0@ != old_vars[b].0@);
                            }
                        }
                        return;
                    }
                    i = i + 1;
                }
                self.active_variables.push((name, value));
                proof {
                    assert forall|a: int, b: int| 0 <= a < b < self.active_variables@.len() implies #[trigger] self.active_variables@[a].0@ != #[trigger] self.active_variables@[b].0@ by {
                        if b < old_vars.len() {
                            assert(old_vars[a].0@ != old_vars[b].0@);
                        }
                    }
                }
            },
            WorkingContextUpdate::CurrentTask(t) => {
                self.current_task = Some(t);
            },
        }
    }

    /// The value of variable `name`, if it is set.
    pub fn variable(&self, name: &str) -> (r: Option<String>)
        ensures
            match r {
                Some(v) => exists|i: int| 0 <= i < self.active_variables@.len()
                    && #[trigger] self.active_variables@[i].0@ == name@ && self.active_variables@[i].1 == v,
                None => forall|i: int| 0 <= i < self.active_variables@.len()
                    ==> #[trigger] self.active_variables@[i].0@ != name@,
            },
    {
        let mut i: usize = 0;
        while i < self.active_variables.len()
            invariant
                i <= self.active_variables@.len(),
                forall|j: int| 0 <= j < i ==> #[trigger] self.active_variables@[j].0@ != name@,
            decreases self.active_variables@.len() - i,
        {
            if crate::text::chars_equal(
                chars_of(self.active_variables[i].0.as_str()).as_slice(),
                chars_of(name).as_slice(),
            ) {
                return Some(self.active_variables[i].1.clone());
            }
            i = i + 1;
        }
        None
    }
}

/// Setting a variable and reading it back gives the value set, and the other
/// variables keep their values.
pub proof fn law_variable_read_back(vars: Seq<(String, String)>, name: String, value: String, other: Seq<char>)
    requires
        vars_distinct(vars),
    ensures
        exists|i: int| 0 <= i < vars_set(vars, name, value).len()
            && #[trigger] vars_set(vars, name, value)[i].0@ == name@ && vars_set(vars, name, value)[i].1 == value,
        other != name@ ==> forall|i: int| 0 <= i < vars_set(vars, name, value).len()
            && #[trigger] vars_set(vars, name, value)[i].0@ == other ==> (exists|j: int| 0 <= j < vars.len()
                && #[trigger] vars[j].0@ == other && vars[j].1 == vars_set(vars, name, value)[i].1),
{
    let r = vars_set(vars, name, value);
    if exists|i: int| 0 <= i < vars.len() && #[trigger] vars[i].0@ == name@ {
        let c = choose|i: int| 0 <= i < vars.len() && #[trigger] vars[i].0@ == name@;
        assert(r[c].0@ == name@ && r[c].1 == value);
        if other != name@ {
            assert forall|i: int| 0 <= i < r.len() && #[trigger] r[i].0@ == other implies (exists|j: int| 0 <= j < vars.len()
                && #[trigger] vars[j].0@ == other && vars[j].1 == r[i].1) by {
                assert(i != c);
                assert(vars[i].0@ == other);
            }
        }
    } else {
        assert(r[vars.len() as int].0@ == name@);
        if other != name@ {
            assert forall|i: int| 0 <= i < r.len() && #[trigger] r[i].0@ == other implies (exists|j: int| 0 <= j < vars.len()
                && #[trigger] vars[j].0@ == other && vars[j].1 == r[i].1) by {
                assert(i < vars.len());
                assert(vars[i].0@ == other);
            }
        }
    }
}

} // verus!
