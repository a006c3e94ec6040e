//! Choosing among the LLM log files and their records: the order in which
//! files are searched, which files a cleanup removes, and the sessions found
//! in the records.
//!
//! Listing, reading and deleting the files is done by the application; it
//! hands over their sizes, ages and modification times and the parsed
//! records, and performs the deletions chosen here.

use vstd::prelude::*;
use crate::logger::{LlmInteractionLog, LlmLogger, seq_sum};
use crate::text::{chars_of, chars_equal};

verus! {

// ---------------------------------------------------------------------------
// Ordering files by modification time
// ---------------------------------------------------------------------------

/// Whether file `i` is taken before file `j`: by modification time, newest or
/// oldest first; files without a time come last, and ties keep the listed
/// order.
pub open spec fn taken_before(m: Seq<Option<i128>>, newest: bool, i: int, j: int) -> bool {
    match (m[i], m[j]) {
        (Some(a), Some(b)) => if newest {
            a > b || (a == b && i < j)
        } else {
            a < b || (a == b && i < j)
        },
        (Some(_), None) => true,
        (None, Some(_)) => false,
        (None, None) => i < j,
    }
}

/// `order` lists the files, each once, in the order `taken_before` gives.
pub open spec fn sorted_files(m: Seq<Option<i128>>, newest: bool, order: Seq<usize>) -> bool {
    &&& order.len() == m.len()
    &&& forall|a: int| 0 <= a < order.len() ==> #[trigger] order[a] < m.len()
    &&& forall|a: int, b: int|
        0 <= a < b < order.len() ==> taken_before(m, newest, #[trigger] order[a] as int, #[trigger] order[b] as int)
}

fn taken_before_exec(m: &[Option<i128>], newest: bool, i: usize, j: usize) -> (r: bool)
    requires
        i < m@.len(),
        j < m@.len(),
    ensures
        r == taken_before(m@, newest, i as int, j as int),
{
    match (m[i], m[j]) {
        (Some(a), Some(b)) => if newest {
            a > b || (a == b && i < j)
        } else {
            a < b || (a == b && i < j)
        },
        (Some(_), None) => true,
        (None, Some(_)) => false,
        (None, None) => i < j,
    }
}

/// The files in the order `taken_before` gives (a stable sort by
/// modification time).
pub fn sort_files(modified: &[Option<i128>], newest: bool) -> (order: Vec<usize>)
    ensures
        sorted_files(modified@, newest, order@),
{
    let n = modified.len();
    let mut order: Vec<usize> = Vec::new();
    let mut k: usize = 0;
    while k < n
        invariant
            n == modified@.len(),
            k <= n,
            order@.len() == k,
            forall|a: int| 0 <= a < order@.len() ==> #[trigger] order@[a] < k,
            forall|a: int, b: int|
                0 <= a < b < order@.len() ==> taken_before(
                    modified@,
                    newest,
                    #[trigger] order@[a] as int,
                    #[trigger] order@[b] as int,
                ),
        decreases n - k,
    {
        let mut p: usize = 0;
        while p < order.len() && !taken_before_exec(modified, newest, k, order[p])
            invariant
                n == modified@.len(),
                k < n,
                p <= order@.len(),
                forall|a: int| 0 <= a < order@.len() ==> #[trigger] order@[a] < k,
                forall|a: int| 0 <= a < p ==> taken_before(modified@, newest, #[trigger] order@[a] as int, k as int),
            decreases order@.len() - p,
        {
            p = p + 1;
        }
        let ghost before = order@;
        order.insert(p, k);
        proof {
            assert forall|a: int, b: int| 0 <= a < b < order@.len() implies taken_before(
                modified@,
                newest,
                #[trigger] order@[a] as int,
                #[trigger] order@[b] as int,
            ) by {
                if a < p && b == p {
                } else if a < p && b > p {
                    assert(order@[b] == before[b - 1]);
                } else if a == p && b > p {
                    assert(order@[b] == before[b - 1]);
                    assert(taken_before(modified@, newest, k as int, before[p as int] as int));
                    if b - 1 > p {
                        assert(taken_before(modified@, newest, before[p as int] as int, before[b - 1] as int));
                    }
                } else if a > p {
                    assert(order@[a] == before[a - 1]);
                    assert(order@[b] == before[b - 1]);
                }
            }
        }
        k = k + 1;
    }
    order
}

// ---------------------------------------------------------------------------
// Cleaning up by age
// ---------------------------------------------------------------------------

/// A file is old when its age in whole days (as a 32-bit count) is more than
/// `days`.
pub open spec fn older_than(age_secs: u64, days: u32) -> bool {
    (age_secs / 86400) % 0x1_0000_0000 > days
}

/// The indices, in order, of the files older than `days`.
pub open spec fn old_files(ages: Seq<u64>, days: u32) -> Seq<usize>
    decreases ages.len(),
{
    if ages.len() == 0 {
        seq![]
    } else if older_than(ages.last(), days) {
        old_files(ages.drop_last(), days).push((ages.len() - 1) as usize)
    } else {
        old_files(ages.drop_last(), days)
    }
}

// ---------------------------------------------------------------------------
// Cleaning up by size
// ---------------------------------------------------------------------------

/// The total size of the files not removed.
pub open spec fn kept_size(sizes: Seq<u64>, removed: Seq<bool>) -> int
    decreases sizes.len(),
{
    if sizes.len() == 0 {
        0
    } else {
        kept_size(sizes.drop_last(), removed.drop_last()) + if removed.last() {
            0
        } else {
            sizes.last() as int
        }
    }
}

proof fn lemma_kept_at_least(sizes: Seq<u64>, removed: Seq<bool>, i: int)
    requires
        sizes.len() == removed.len(),
        0 <= i < sizes.len(),
        !removed[i],
    ensures
        kept_size(sizes, removed) >= sizes[i],
    decreases sizes.len(),
{
    lemma_kept_nonneg(sizes.drop_last(), removed.drop_last());
    if i < sizes.len() - 1 {
        lemma_kept_at_least(sizes.drop_last(), removed.drop_last(), i);
    }
}

proof fn lemma_kept_nonneg(sizes: Seq<u64>, removed: Seq<bool>)
    ensures
        kept_size(sizes, removed) >= 0,
    decreases sizes.len(),
{
    if sizes.len() > 0 {
        lemma_kept_nonneg(sizes.drop_last(), removed.drop_last());
    }
}

proof fn lemma_kept_remove(sizes: Seq<u64>, removed: Seq<bool>, i: int)
    requires
        sizes.len() == removed.len(),
        0 <= i < sizes.len(),
        !removed[i],
    ensures
        kept_size(sizes, removed.update(i, true)) == kept_size(sizes, removed) - sizes[i],
    decreases sizes.len(),
{
    let r2 = removed.update(i, true);
    if i < sizes.len() - 1 {
        assert(r2.drop_last() =~= removed.drop_last().update(i, true));
        lemma_kept_remove(sizes.drop_last(), removed.drop_last(), i);
    } else {
        assert(r2.drop_last() =~= removed.drop_last());
    }
}

/// The plan of a cleanup by size: while the files kept are over the limit,
/// the oldest file not yet tried is handed out to be deleted; what was
/// deleted is counted.
pub struct SizeCleanup {
    sizes: Vec<u64>,
    modified: Vec<Option<i128>>,
    order: Vec<usize>,
    pos: usize,
    removed: Vec<bool>,
    last: Option<usize>,
    total: u64,
    limit: u64,
    deleted: usize,
    freed: u64,
}

impl SizeCleanup {
    /// The sizes of the files.
    pub closed spec fn sizes_view(&self) -> Seq<u64> {
        self.sizes@
    }

    /// The files oldest first, in the order they are handed out.
    pub closed spec fn order_view(&self) -> Seq<usize> {
        self.order@
    }

    /// How many files were handed out.
    pub closed spec fn handed_out(&self) -> nat {
        self.pos as nat
    }

    /// The file handed out last and not yet reported deleted.
    pub closed spec fn pending(&self) -> Option<usize> {
        self.last
    }

    /// The total size of the files kept.
    pub closed spec fn total_view(&self) -> u64 {
        self.total
    }

    /// The size limit in bytes.
    pub closed spec fn limit_view(&self) -> u64 {
        self.limit
    }

    /// Files deleted and bytes freed so far.
    pub closed spec fn outcome_view(&self) -> (usize, u64) {
        (self.deleted, self.freed)
    }

    /// The plan's invariant.
    pub closed spec fn wf(&self) -> bool {
        let n = self.sizes@.len();
        &&& self.modified@.len() == n
        &&& self.removed@.len() == n
        &&& sorted_files(self.modified@, false, self.order@)
        &&& self.pos <= n
        &&& self.total == kept_size(self.sizes@, self.removed@)
        &&& self.total + self.freed <= u64::MAX
        &&& self.deleted + (if self.last is Some { 1int } else { 0 }) <= self.pos
        &&& forall|i: int| 0 <= i < n && #[trigger] self.removed@[i] ==> exists|a: int|
            0 <= a < self.pos && self.order@[a] == i && self.last != Some(i as usize)
        &&& self.last matches Some(i) ==> self.pos > 0 && self.order@[self.pos - 1] == i && i < n
    }

    /// A plan for files of the given sizes and modification times, to bring
    /// their total down to `max_size_mb` megabytes (of 1024 * 1024 bytes).
    pub fn new(sizes: Vec<u64>, modified: Vec<Option<i128>>, max_size_mb: u32) -> (r: SizeCleanup)
        requires
            sizes@.len() == modified@.len(),
            kept_size(sizes@, Seq::new(sizes@.len(), |i: int| false)) <= u64::MAX,
        ensures
            r.wf(),
            r.sizes_view() == sizes@,
            sorted_files(modified@, false, r.order_view()),
            r.handed_out() == 0,
            r.pending() is None,
            r.total_view() == kept_size(sizes@, Seq::new(sizes@.len(), |i: int| false)),
            r.limit_view() == max_size_mb as int * 1024 * 1024,
            r.outcome_view() == (0usize, 0u64),
    {
        let n = sizes.len();
        let mut removed: Vec<bool> = Vec::new();
        let mut total: u64 = 0;
        let mut i: usize = 0;
        while i < n
            invariant
                n == sizes@.len(),
                i <= n,
                removed@ == Seq::new(i as nat, |j: int| false),
                total == kept_size(sizes@.take(i as int), removed@),
                kept_size(sizes@, Seq::new(sizes@.len(), |j: int| false)) <= u64::MAX,
            decreases n - i,
        {
            proof {
                lemma_kept_prefix_bound(sizes@, (i + 1) as int);
                assert(sizes@.take(i + 1).drop_last() =~= sizes@.take(i as int));
                assert(removed@.push(false).drop_last() =~= removed@);
            }
            total = total + sizes[i];
            removed.push(false);
            assert(removed@ =~= Seq::new((i + 1) as nat, |j: int| false));
            i = i + 1;
        }
        assert(sizes@.take(n as int) =~= sizes@);
        let order = sort_files(modified.as_slice(), false);
        let limit: u64 = (max_size_mb as u64) * 1024 * 1024;
        SizeCleanup { sizes, modified, order, pos: 0, removed, last: None, total, limit, deleted: 0, freed: 0 }
    }

    /// The next file to delete: the oldest one not yet handed out, while the
    /// files kept are over the limit; `None` once they are within it or every
    /// file was handed out.
    pub fn next_file(&mut self) -> (r: Option<usize>)
        requires
            old(self).wf(),
        ensures
            final(self).wf(),
            r == (if old(self).total_view() <= old(self).limit_view() || old(self).handed_out()
                >= old(self).order_view().len() {
                None
            } else {
                Some(old(self).order_view()[old(self).handed_out() as int])
            }),
            final(self).handed_out() == old(self).handed_out() + (if r is Some { 1nat } else { 0 }),
            final(self).pending() == r,
            final(self).sizes_view() == old(self).sizes_view(),
            final(self).order_view() == old(self).order_view(),
            final(self).total_view() == old(self).total_view(),
            final(self).limit_view() == old(self).limit_view(),
            final(self).outcome_view() == old(self).outcome_view(),
    {
        if self.total <= self.limit || self.pos >= self.order.len() {
            self.last = None;
            return None;
        }
        let i = self.order[self.pos];
        let ghost old_pos = self.pos as int;
        let ghost old_last = self.last;
        proof {
            if self.removed@[i as int] {
                let a = choose|a: int| 0 <= a < self.pos && self.order@[a] == i && self.last != Some(i);
                assert(taken_before(self.modified@, false, self.order@[a] as int, self.order@[self.pos as int] as int));
            }
        }
        self.pos = self.pos + 1;
        self.last = Some(i);
        proof {
            assert forall|j: int| 0 <= j < self.sizes@.len() && #[trigger] self.removed@[j] implies exists|a: int|
                0 <= a < self.pos && self.order@[a] == j && self.last != Some(j as usize) by {
                let a = choose|a: int| 0 <= a < old_pos && self.order@[a] == j && old_last != Some(j as usize);
                assert(j != i);
                assert(0 <= a < self.pos && self.order@[a] == j && self.last != Some(j as usize));
            }
        }
        Some(i)
    }

    /// Reports that the file handed out last was deleted: it no longer counts
    /// towards the total, and the deletion is counted. Without a file pending,
    /// nothing changes.
    pub fn file_deleted(&mut self)
        requires
            old(self).wf(),
        ensures
            final(self).wf(),
            final(self).pending() is None,
            final(self).handed_out() == old(self).handed_out(),
            final(self).sizes_view() == old(self).sizes_view(),
            final(self).order_view() == old(self).order_view(),
            final(self).limit_view() == old(self).limit_view(),
            old(self).pending() matches Some(i) ==> {
                &&& final(self).total_view() == old(self).total_view() - old(self).sizes_view()[i as int]
                &&& final(self).outcome_view() == (
                    (old(self).outcome_view().0 + 1) as usize,
                    (old(self).outcome_view().1 + old(self).sizes_view()[i as int]) as u64,
                )
            },
            old(self).pending() is None ==> final(self).total_view() == old(self).total_view()
                && final(self).outcome_view() == old(self).outcome_view(),
    {
        match self.last {
            None => {},
            Some(i) => {
                proof {
                    if self.removed@[i as int] {
                        let a = choose|a: int| 0 <= a < self.pos && self.order@[a] == i && self.last != Some(i);
                    }
                    lemma_kept_at_least(self.sizes@, self.removed@, i as int);
                    lemma_kept_remove(self.sizes@, self.removed@, i as int);
                }
                let size = self.sizes[i];
                let ghost old_removed = self.removed@;
                let ghost old_last = self.last;
                self.total = self.total - size;
                self.freed = self.freed + size;
                self.deleted = self.deleted + 1;
                self.removed.set(i, true);
                self.last = None;
                proof {
                    assert(self.removed@ == old_removed.update(i as int, true));
                    assert forall|j: int| 0 <= j < self.sizes@.len() && #[trigger] self.removed@[j] implies exists|a: int|
                        0 <= a < self.pos && self.order@[a] == j && self.last != Some(j as usize) by {
                        if j == i {
                            assert(0 <= self.pos - 1 < self.pos && self.order@[self.pos - 1] == j);
                        } else {
                            assert(old_removed[j]);
                            let a = choose|a: int| 0 <= a < self.pos && self.order@[a] == j && old_last != Some(j as usize);
                            assert(0 <= a < self.pos && self.order@[a] == j && self.last != Some(j as usize));
                        }
                    }
                }
            },
        }
    }

    /// Files deleted and bytes freed.
    pub fn outcome(&self) -> (r: (usize, u64))
        ensures
            r == self.outcome_view(),
    {
        (self.deleted, self.freed)
    }
}

proof fn lemma_kept_prefix_bound(sizes: Seq<u64>, k: int)
    requires
        0 < k <= sizes.len(),
    ensures
        kept_size(sizes.take(k - 1), Seq::new((k - 1) as nat, |j: int| false)) + sizes[k - 1]
            <= kept_size(sizes, Seq::new(sizes.len(), |j: int| false)),
    decreases sizes.len(),
{
    let f = Seq::new(sizes.len(), |j: int| false);
    assert(f.drop_last() =~= Seq::new((sizes.len() - 1) as nat, |j: int| false));
    if k < sizes.len() {
        lemma_kept_nonneg(sizes.drop_last(), f.drop_last());
        assert(sizes.drop_last().take(k - 1) =~= sizes.take(k - 1));
        lemma_kept_prefix_bound(sizes.drop_last(), k);
    } else {
        assert(sizes.take(k - 1) =~= sizes.drop_last());
    }
}

// ---------------------------------------------------------------------------
// Searching the records
// ---------------------------------------------------------------------------

/// A sequence read from its end.
pub open spec fn backwards<A>(s: Seq<A>) -> Seq<A> {
    Seq::new(s.len(), |i: int| s[s.len() - 1 - i])
}

/// The records in the order they are searched: the files as handed over
/// (newest first), each from its last line to its first.
pub open spec fn search_order(files: Seq<Seq<LlmInteractionLog>>) -> Seq<LlmInteractionLog>
    decreases files.len(),
{
    if files.len() == 0 {
        seq![]
    } else {
        search_order(files.drop_last()) + backwards(files.last())
    }
}

/// The records of the files' views.
pub open spec fn files_view(files: Seq<Vec<LlmInteractionLog>>) -> Seq<Seq<LlmInteractionLog>> {
    files.map_values(|f: Vec<LlmInteractionLog>| f@)
}

/// The records behind a list of references.
pub open spec fn derefs(s: Seq<&LlmInteractionLog>) -> Seq<LlmInteractionLog> {
    s.map_values(|x: &LlmInteractionLog| *x)
}

/// The position of the first record of session `id`, if any.
pub open spec fn first_with_id(s: Seq<LlmInteractionLog>, id: Seq<char>) -> Option<int>
    decreases s.len(),
{
    if s.len() == 0 {
        None
    } else {
        match first_with_id(s.drop_last(), id) {
            Some(i) => Some(i),
            None => if s.last().session_id@ == id {
                Some(s.len() - 1)
            } else {
                None
            },
        }
    }
}

/// The records that open a session: each record whose session was not seen
/// earlier in `s`.
pub open spec fn session_openers(s: Seq<LlmInteractionLog>) -> Seq<LlmInteractionLog>
    decreases s.len(),
{
    if s.len() == 0 {
        seq![]
    } else if exists|j: int| 0 <= j < s.len() - 1 && (#[trigger] s[j]).session_id@ == s.last().session_id@ {
        session_openers(s.drop_last())
    } else {
        session_openers(s.drop_last()).push(s.last())
    }
}

/// What a session listing shows of a record: its session, time, model and
/// request summary.
pub open spec fn session_row(l: LlmInteractionLog) -> (Seq<char>, i64, Seq<char>, Seq<char>) {
    (l.session_id@, l.timestamp_ms, l.model@, l.request.summary@)
}

/// The views of listed sessions.
pub open spec fn rows_view(rows: Seq<(String, i64, String, String)>) -> Seq<(Seq<char>, i64, Seq<char>, Seq<char>)> {
    rows.map_values(|r: (String, i64, String, String)| (r.0@, r.1, r.2@, r.3@))
}

proof fn lemma_openers_ids(s: Seq<LlmInteractionLog>, id: Seq<char>)
    ensures
        (exists|j: int| 0 <= j < s.len() && (#[trigger] s[j]).session_id@ == id) <==> (exists|j: int|
            0 <= j < session_openers(s).len() && (#[trigger] session_openers(s)[j]).session_id@ == id),
    decreases s.len(),
{
    if s.len() > 0 {
        let p = s.drop_last();
        let x = s.last();
        let o = session_openers(s);
        let op = session_openers(p);
        lemma_openers_ids(p, id);
        lemma_openers_ids(p, x.session_id@);
        let seen_x = exists|j: int| 0 <= j < s.len() - 1 && (#[trigger] s[j]).session_id@ == x.session_id@;
        assert(seen_x <==> exists|j: int| 0 <= j < p.len() && (#[trigger] p[j]).session_id@ == x.session_id@) by {
            if seen_x {
                let j = choose|j: int| 0 <= j < s.len() - 1 && (#[trigger] s[j]).session_id@ == x.session_id@;
                assert(p[j] == s[j]);
            }
            if exists|j: int| 0 <= j < p.len() && (#[trigger] p[j]).session_id@ == x.session_id@ {
                let j = choose|j: int| 0 <= j < p.len() && (#[trigger] p[j]).session_id@ == x.session_id@;
                assert(s[j] == p[j]);
            }
        }
        // in s <==> in p or x
        assert((exists|j: int| 0 <= j < s.len() && (#[trigger] s[j]).session_id@ == id) <==> ((exists|j: int|
            0 <= j < p.len() && (#[trigger] p[j]).session_id@ == id) || x.session_id@ == id)) by {
            if exists|j: int| 0 <= j < s.len() && (#[trigger] s[j]).session_id@ == id {
                let j = choose|j: int| 0 <= j < s.len() && (#[trigger] s[j]).session_id@ == id;
                if j < s.len() - 1 {
                    assert(p[j] == s[j]);
                }
            }
            if exists|j: int| 0 <= j < p.len() && (#[trigger] p[j]).session_id@ == id {
                let j = choose|j: int| 0 <= j < p.len() && (#[trigger] p[j]).session_id@ == id;
                assert(s[j] == p[j]);
            }
            if x.session_id@ == id {
                assert(s[s.len() - 1] == x);
            }
        }
        if seen_x {
            assert(o == op);
            if x.session_id@ == id {
                let j = choose|j: int| 0 <= j < p.len() && (#[trigger] p[j]).session_id@ == x.session_id@;
                assert(p[j].session_id@ == id);
            }
        } else {
            assert(o == op.push(x));
            assert((exists|j: int| 0 <= j < o.len() && (#[trigger] o[j]).session_id@ == id) <==> ((exists|j: int|
                0 <= j < op.len() && (#[trigger] op[j]).session_id@ == id) || x.session_id@ == id)) by {
                if exists|j: int| 0 <= j < o.len() && (#[trigger] o[j]).session_id@ == id {
                    let j = choose|j: int| 0 <= j < o.len() && (#[trigger] o[j]).session_id@ == id;
                    if j < op.len() {
                        assert(op[j] == o[j]);
                    }
                }
                if exists|j: int| 0 <= j < op.len() && (#[trigger] op[j]).session_id@ == id {
                    let j = choose|j: int| 0 <= j < op.len() && (#[trigger] op[j]).session_id@ == id;
                    assert(o[j] == op[j]);
                }
                if x.session_id@ == id {
                    assert(o[o.len() - 1] == x);
                }
            }
        }
    }
}

proof fn lemma_openers_prefix(s: Seq<LlmInteractionLog>, k: int)
    requires
        0 <= k <= s.len(),
    ensures
        session_openers(s.take(k)).len() <= session_openers(s).len(),
        session_openers(s).take(session_openers(s.take(k)).len() as int) == session_openers(s.take(k)),
    decreases s.len() - k,
{
    if k < s.len() {
        lemma_openers_prefix(s, k + 1);
        let t = s.take(k + 1);
        assert(t.drop_last() =~= s.take(k));
        let a = session_openers(s.take(k));
        let b = session_openers(t);
        assert(b.take(a.len() as int) =~= a);
        assert(session_openers(s).take(a.len() as int) =~= session_openers(s).take(b.len() as int).take(
            a.len() as int,
        ));
    } else {
        assert(s.take(k) =~= s);
        assert(session_openers(s).take(session_openers(s).len() as int) =~= session_openers(s));
    }
}

fn same_id(a: &str, b: &str) -> (r: bool)
    ensures
        r == (a@ == b@),
{
    let x = chars_of(a);
    let y = chars_of(b);
    chars_equal(x.as_slice(), y.as_slice())
}

/// The records in search order, by reference.
fn search_list<'a>(files: &'a [Vec<LlmInteractionLog>]) -> (r: Vec<&'a LlmInteractionLog>)
    ensures
        derefs(r@) == search_order(files_view(files@)),
{
    let mut out: Vec<&'a LlmInteractionLog> = Vec::new();
    let mut k: usize = 0;
    while k < files.len()
        invariant
            k <= files@.len(),
            derefs(out@) == search_order(files_view(files@.take(k as int))),
        decreases files@.len() - k,
    {
        let f = &files[k];
        let ghost before = derefs(out@);
        let mut j: usize = f.len();
        while j > 0
            invariant
                j <= f@.len(),
                derefs(out@) == before + backwards(f@).take((f@.len() - j) as int),
            decreases j,
        {
            j = j - 1;
            let ghost prev = out@;
            out.push(&f[j]);
            proof {
                assert(derefs(out@) =~= derefs(prev).push(f@[j as int]));
                assert(backwards(f@).take((f@.len() - j) as int) =~= backwards(f@).take((f@.len() - j - 1) as int).push(
                    f@[j as int],
                ));
                assert(derefs(out@) =~= before + backwards(f@).take((f@.len() - j) as int));
            }
        }
        proof {
            assert(backwards(f@).take(f@.len() as int) =~= backwards(f@));
            assert(files_view(files@.take(k + 1)).drop_last() =~= files_view(files@.take(k as int)));
            assert(files_view(files@.take(k + 1)).last() == f@);
        }
        k = k + 1;
    }
    assert(files@.take(files@.len() as int) =~= files@);
    out
}

impl LlmLogger {
    /// The indices, in order, of the log files to remove when cleaning up
    /// logs older than `days` days, given each file's age in seconds (see
    /// `older_than`).
    pub fn clean_old_logs(&self, ages_secs: &[u64], days: u32) -> (r: Vec<usize>)
        ensures
            r@ == old_files(ages_secs@, days),
    {
        let mut out: Vec<usize> = Vec::new();
        let mut i: usize = 0;
        while i < ages_secs.len()
            invariant
                i <= ages_secs@.len(),
                out@ == old_files(ages_secs@.take(i as int), days),
            decreases ages_secs@.len() - i,
        {
            proof {
                assert(ages_secs@.take(i + 1).drop_last() =~= ages_secs@.take(i as int));
            }
            if (ages_secs[i] / 86400) % 0x1_0000_0000 > days as u64 {
                out.push(i);
            }
            i = i + 1;
        }
        assert(ages_secs@.take(ages_secs@.len() as int) =~= ages_secs@);
        out
    }

    /// The total size of the log files of the given sizes.
    pub fn get_total_size(&self, sizes: &[u64]) -> (r: u64)
        requires
            seq_sum(sizes@) <= u64::MAX,
        ensures
            r == seq_sum(sizes@),
    {
        let mut total: u64 = 0;
        let mut i: usize = 0;
        while i < sizes.len()
            invariant
                i <= sizes@.len(),
                total == seq_sum(sizes@.take(i as int)),
                seq_sum(sizes@) <= u64::MAX,
            decreases sizes@.len() - i,
        {
            proof {
                assert(sizes@.take(i + 1).drop_last() =~= sizes@.take(i as int));
                lemma_prefix_sum_le(sizes@, i + 1);
            }
            total = total + sizes[i];
            i = i + 1;
        }
        assert(sizes@.take(sizes@.len() as int) =~= sizes@);
        total
    }

    /// A cleanup by size for log files of the given sizes and modification
    /// times (see `SizeCleanup`).
    pub fn clean_by_size(&self, sizes: Vec<u64>, modified: Vec<Option<i128>>, max_size_mb: u32) -> (r: SizeCleanup)
        requires
            sizes@.len() == modified@.len(),
            kept_size(sizes@, Seq::new(sizes@.len(), |i: int| false)) <= u64::MAX,
        ensures
            r.wf(),
            r.sizes_view() == sizes@,
            sorted_files(modified@, false, r.order_view()),
            r.handed_out() == 0,
            r.pending() is None,
            r.total_view() == kept_size(sizes@, Seq::new(sizes@.len(), |i: int| false)),
            r.limit_view() == max_size_mb as int * 1024 * 1024,
            r.outcome_view() == (0usize, 0u64),
    {
        SizeCleanup::new(sizes, modified, max_size_mb)
    }

    /// The most recent record of session `session_id`: the first one met when
    /// the files (newest first) are searched, each from its end.
    pub fn get_log_by_session_id<'a>(&self, files: &'a [Vec<LlmInteractionLog>], session_id: &str) -> (r:
        Option<&'a LlmInteractionLog>)
        ensures
            match first_with_id(search_order(files_view(files@)), session_id@) {
                Some(i) => r matches Some(l) && *l == search_order(files_view(files@))[i],
                None => r is None,
            },
    {
        let list = search_list(files);
        let ghost all = derefs(list@);
        let mut i: usize = 0;
        while i < list.len()
            invariant
                i <= list@.len(),
                all == derefs(list@),
                all == search_order(files_view(files@)),
                first_with_id(all.take(i as int), session_id@) is None,
            decreases list@.len() - i,
        {
            proof {
                assert(all.take(i + 1).drop_last() =~= all.take(i as int));
            }
            proof {
                assert(all[i as int] == *list@[i as int]);
            }
            if same_id(list[i].session_id.as_str(), session_id) {
                proof {
                    lemma_first_extends(all, i as int + 1, session_id@);
                }
                return Some(list[i]);
            }
            i = i + 1;
        }
        assert(all.take(i as int) =~= all);
        None
    }

    /// The latest sessions, at most `limit`: the session, time, model and
    /// request summary of each record that opens a session, in search order
    /// (see `search_order`).
    pub fn list_recent_sessions(&self, files: &[Vec<LlmInteractionLog>], limit: usize) -> (r: Vec<
        (String, i64, String, String),
    >)
        ensures
            rows_view(r@) == session_openers(search_order(files_view(files@))).take(
                if session_openers(search_order(files_view(files@))).len() < limit {
                    session_openers(search_order(files_view(files@))).len() as int
                } else {
                    limit as int
                },
            ).map_values(|l: LlmInteractionLog| session_row(l)),
    {
        let list = search_list(files);
        let ghost all = derefs(list@);
        let mut out: Vec<(String, i64, String, String)> = Vec::new();
        let mut i: usize = 0;
        while i < list.len() && out.len() < limit
            invariant
                i <= list@.len(),
                all == derefs(list@),
                out@.len() <= limit,
                rows_view(out@) == session_openers(all.take(i as int)).map_values(|m: LlmInteractionLog| session_row(m)),
            decreases list@.len() - i,
        {
            let l = list[i];
            let ghost seen = session_openers(all.take(i as int));
            let ghost t = all.take(i + 1);
            proof {
                assert(all[i as int] == *l);
                assert(t.drop_last() =~= all.take(i as int));
                assert(t.last() == *l);
            }
            let mut found = false;
            let mut j: usize = 0;
            while j < out.len()
                invariant
                    j <= out@.len(),
                    rows_view(out@) == seen.map_values(|m: LlmInteractionLog| session_row(m)),
                    found == exists|a: int| 0 <= a < j && (#[trigger] seen[a]).session_id@ == l.session_id@,
                decreases out@.len() - j,
            {
                proof {
                    assert(rows_view(out@).len() == seen.len());
                    assert(rows_view(out@)[j as int] == session_row(seen[j as int]));
                }
                if same_id(out[j].0.as_str(), l.session_id.as_str()) {
                    found = true;
                }
                proof {
                    if seen[j as int].session_id@ == l.session_id@ {
                        assert(0 <= j < j + 1 && seen[j as int].session_id@ == l.session_id@);
                    }
                }
                j = j + 1;
            }
            proof {
                assert(rows_view(out@).len() == seen.len());
                lemma_openers_ids(all.take(i as int), l.session_id@);
                let p = all.take(i as int);
                let in_p = exists|b: int| 0 <= b < p.len() && (#[trigger] p[b]).session_id@ == l.session_id@;
                let cond = exists|b: int| 0 <= b < t.len() - 1 && (#[trigger] t[b]).session_id@ == t.last().session_id@;
                assert(found == in_p);
                assert(cond == in_p) by {
                    if cond {
                        let b = choose|b: int| 0 <= b < t.len() - 1 && (#[trigger] t[b]).session_id@ == t.last().session_id@;
                        assert(p[b] == t[b]);
                    }
                    if in_p {
                        let b = choose|b: int| 0 <= b < p.len() && (#[trigger] p[b]).session_id@ == l.session_id@;
                        assert(t[b] == p[b]);
                    }
                }
                if found {
                    assert(session_openers(t) == seen);
                } else {
                    assert(session_openers(t) == seen.push(*l));
                }
            }
            if !found {
                let row = (l.session_id.clone(), l.timestamp_ms, l.model.clone(), l.request.summary.clone());
                let ghost prev = out@;
                out.push(row);
                proof {
                    assert(rows_view(out@) =~= rows_view(prev).push(session_row(*l)));
                    assert(seen.push(*l).map_values(|m: LlmInteractionLog| session_row(m)) =~= seen.map_values(
                        |m: LlmInteractionLog| session_row(m),
                    ).push(session_row(*l)));
                }
            }
            i = i + 1;
        }
        proof {
            let o = session_openers(all);
            if i == list@.len() {
                assert(all.take(i as int) =~= all);
                assert(o.take(o.len() as int) =~= o);
            } else {
                lemma_openers_prefix(all, i as int);
            }
        }
        out
    }
}

proof fn lemma_first_extends(s: Seq<LlmInteractionLog>, k: int, id: Seq<char>)
    requires
        0 < k <= s.len(),
        first_with_id(s.take(k - 1), id) is None,
        s[k - 1].session_id@ == id,
    ensures
        first_with_id(s, id) == Some(k - 1),
    decreases s.len() - k,
{
    assert(s.take(k).drop_last() =~= s.take(k - 1));
    assert(s.take(k).last() == s[k - 1]);
    assert(first_with_id(s.take(k), id) == Some(k - 1));
    if k < s.len() {
        lemma_first_stays(s, k, id);
    } else {
        assert(s.take(k) =~= s);
    }
}

proof fn lemma_first_stays(s: Seq<LlmInteractionLog>, k: int, id: Seq<char>)
    requires
        0 < k <= s.len(),
        first_with_id(s.take(k), id) is Some,
    ensures
        first_with_id(s, id) == first_with_id(s.take(k), id),
    decreases s.len() - k,
{
    if k < s.len() {
        assert(s.take(k + 1).drop_last() =~= s.take(k));
        lemma_first_stays(s, k + 1, id);
    } else {
        assert(s.take(k) =~= s);
    }
}


/// A prefix adds up to no more than the whole.
proof fn lemma_prefix_sum_le(s: Seq<u64>, k: int)
    requires
        0 <= k <= s.len(),
    ensures
        seq_sum(s.take(k)) <= seq_sum(s),
    decreases s.len() - k,
{
    if k < s.len() {
        lemma_prefix_sum_le(s, k + 1);
        assert(s.take(k + 1).drop_last() =~= s.take(k));
    } else {
        assert(s.take(k) =~= s);
    }
}

} // verus!
