//! Reports of memory data migrations: counts of migrated, skipped and failed
//! entries, error details, and the formatted summary.

use vstd::prelude::*;
use crate::text::{chars_of, string_of, extend_chars, push_decimal, decimal, join, join_chars, views, trim, trim_chars};
use crate::memory::{Memory, MemoryEntry, remembered};

verus! {

/// Outcome of a migration run.
#[derive(Debug, Clone)]
pub struct MigrationReport {
    /// Entries seen.
    pub total: usize,
    /// Entries migrated.
    pub migrated: usize,
    /// Entries skipped (empty or malformed).
    pub skipped: usize,
    /// Entries that failed.
    pub failed: usize,
    /// Details of skipped and failed entries, in order.
    pub errors: Vec<String>,
}

/// The counts add up: every entry seen was migrated, skipped or failed, and
/// each skipped or failed entry left one detail line.
pub open spec fn report_consistent(r: MigrationReport) -> bool {
    &&& r.total == r.migrated + r.skipped + r.failed
    &&& r.errors@.len() == r.skipped + r.failed
}

/// The detail lines: at most the first ten errors, numbered from 1, and a
/// line with the number of further errors when there are more than ten.
pub open spec fn detail_lines(errors: Seq<Seq<char>>) -> Seq<Seq<char>> {
    let shown = if errors.len() > 10 {
        10
    } else {
        errors.len()
    };
    let numbered = Seq::new(
        shown as nat,
        |i: int| "  "@ + decimal((i + 1) as nat) + ". "@ + errors[i],
    );
    if errors.len() > 10 {
        numbered.push("  ... 还有 "@ + decimal((errors.len() - 10) as nat) + " 个错误"@)
    } else {
        numbered
    }
}

/// The lines of a formatted report, the success rate (a percentage with one
/// decimal) given as `rate`.
pub open spec fn report_lines(r: MigrationReport, rate: Seq<char>) -> Seq<Seq<char>> {
    let head = seq![
        "━━━━━ Memory 数据迁移报告 ━━━━━"@,
        "总条目数: "@ + decimal(r.total as nat),
        "✅ 成功迁移: "@ + decimal(r.migrated as nat),
    ];
    let skipped = if r.skipped > 0 {
        seq!["⏭️  跳过: "@ + decimal(r.skipped as nat)]
    } else {
        Seq::<Seq<char>>::empty()
    };
    let failed = if r.failed > 0 {
        seq!["❌ 失败: "@ + decimal(r.failed as nat)]
    } else {
        Seq::<Seq<char>>::empty()
    };
    let rate = seq!["成功率: "@ + rate + "%"@];
    let errs = r.errors@.map_values(|e: String| e@);
    let details = if errs.len() > 0 {
        seq![Seq::<char>::empty(), "错误详情:"@] + detail_lines(errs)
    } else {
        Seq::<Seq<char>>::empty()
    };
    head + skipped + failed + rate + details + seq!["━━━━━━━━━━━━━━━━━━━━━━━━"@]
}

fn labeled(label: &str, n: u64) -> (r: Vec<char>)
    ensures
        r@ == label@ + decimal(n as nat),
{
    let mut out = chars_of(label);
    push_decimal(&mut out, n);
    out
}

impl MigrationReport {
    /// An empty report.
    pub fn new() -> (r: MigrationReport)
        ensures
            r.total == 0 && r.migrated == 0 && r.skipped == 0 && r.failed == 0,
            r.errors@.len() == 0,
            report_consistent(r),
    {
        MigrationReport { total: 0, migrated: 0, skipped: 0, failed: 0, errors: Vec::new() }
    }

    /// Counts a migrated entry.
    pub fn record_success(&mut self)
        requires
            old(self).total < usize::MAX,
            old(self).migrated < usize::MAX,
        ensures
            final(self).total == old(self).total + 1,
            final(self).migrated == old(self).migrated + 1,
            final(self).skipped == old(self).skipped,
            final(self).failed == old(self).failed,
            final(self).errors == old(self).errors,
            report_consistent(*old(self)) ==> report_consistent(*final(self)),
    {
        self.total = self.total + 1;
        self.migrated = self.migrated + 1;
    }

    /// Counts a skipped entry and records the reason as `Skipped: <reason>`.
    pub fn record_skip(&mut self, reason: String)
        requires
            old(self).total < usize::MAX,
            old(self).skipped < usize::MAX,
        ensures
            final(self).total == old(self).total + 1,
            final(self).skipped == old(self).skipped + 1,
            final(self).migrated == old(self).migrated,
            final(self).failed == old(self).failed,
            final(self).errors@.len() == old(self).errors@.len() + 1,
            forall|i: int| 0 <= i < old(self).errors@.len() ==> final(self).errors@[i] == old(
                self,
            ).errors@[i],
            final(self).errors@.last()@ == "Skipped: "@ + reason@,
            report_consistent(*old(self)) ==> report_consistent(*final(self)),
    {
        self.total = self.total + 1;
        self.skipped = self.skipped + 1;
        let mut line = chars_of("Skipped: ");
        extend_chars(&mut line, chars_of(reason.as_str()).as_slice());
        self.errors.push(string_of(line.as_slice()));
    }

    /// Counts a failed entry and records the error as `Failed: <error>`.
    pub fn record_failure(&mut self, error: String)
        requires
            old(self).total < usize::MAX,
            old(self).failed < usize::MAX,
        ensures
            final(self).total == old(self).total + 1,
            final(self).failed == old(self).failed + 1,
            final(self).migrated == old(self).migrated,
            final(self).skipped == old(self).skipped,
            final(self).errors@.len() == old(self).errors@.len() + 1,
            forall|i: int| 0 <= i < old(self).errors@.len() ==> final(self).errors@[i] == old(
                self,
            ).errors@[i],
            final(self).errors@.last()@ == "Failed: "@ + error@,
            report_consistent(*old(self)) ==> report_consistent(*final(self)),
    {
        self.total = self.total + 1;
        self.failed = self.failed + 1;
        let mut line = chars_of("Failed: ");
        extend_chars(&mut line, chars_of(error.as_str()).as_slice());
        self.errors.push(string_of(line.as_slice()));
    }

    /// A run succeeded when nothing failed and something was migrated.
    pub fn is_success(&self) -> (r: bool)
        ensures
            r == (self.failed == 0 && self.migrated > 0),
    {
        self.failed == 0 && self.migrated > 0
    }

    /// The formatted report (see `report_lines`), lines joined by `'\n'`; the
/// success rate, a percentage with one decimal, is computed by the caller.
    pub fn format(&self, success_rate: &str) -> (r: String)
        ensures
            r@ == join(report_lines(*self, success_rate@), "\n"@),
    {
        let mut lines: Vec<Vec<char>> = Vec::new();
        lines.push(chars_of("━━━━━ Memory 数据迁移报告 ━━━━━"));
        lines.push(labeled("总条目数: ", self.total as u64));
        lines.push(labeled("✅ 成功迁移: ", self.migrated as u64));
        let ghost l1 = views(lines@);
        if self.skipped > 0 {
            lines.push(labeled("⏭️  跳过: ", self.skipped as u64));
        }
        let ghost l2 = views(lines@);
        if self.failed > 0 {
            lines.push(labeled("❌ 失败: ", self.failed as u64));
        }
        let ghost l3 = views(lines@);
        let mut rate = chars_of("成功率: ");
        extend_chars(&mut rate, chars_of(success_rate).as_slice());
        extend_chars(&mut rate, chars_of("%").as_slice());
        lines.push(rate);
        let ghost l4 = views(lines@);
        let ghost errs = self.errors@.map_values(|e: String| e@);
        if self.errors.len() > 0 {
            lines.push(Vec::new());
            lines.push(chars_of("错误详情:"));
            let ghost base = views(lines@);
            assert(base =~= l4 + seq![Seq::<char>::empty(), "错误详情:"@]);
            let shown: usize = if self.errors.len() > 10 {
                10
            } else {
                self.errors.len()
            };
            let mut i: usize = 0;
            while i < shown
                invariant
                    i <= shown,
                    shown <= 10,
                    shown <= self.errors@.len(),
                    errs == self.errors@.map_values(|e: String| e@),
                    views(lines@) == base + Seq::new(
                        i as nat,
                        |j: int| "  "@ + decimal((j + 1) as nat) + ". "@ + errs[j],
                    ),
                decreases shown - i,
            {
                let mut l = chars_of("  ");
                push_decimal(&mut l, (i + 1) as u64);
                extend_chars(&mut l, chars_of(". ").as_slice());
                extend_chars(&mut l, chars_of(self.errors[i].as_str()).as_slice());
                let ghost prev_lines = lines@;
                assert(l@ == "  "@ + decimal((i + 1) as nat) + ". "@ + errs[i as int]);
                lines.push(l);
                proof {
                    assert(lines@ =~= prev_lines.push(l));
                    assert(views(lines@) =~= views(prev_lines).push(l@));
                    assert(views(lines@) =~= base + Seq::new(
                        (i + 1) as nat,
                        |j: int| "  "@ + decimal((j + 1) as nat) + ". "@ + errs[j],
                    ));
                }
                i = i + 1;
            }
            let ghost numbered = Seq::new(
                shown as nat,
                |j: int| "  "@ + decimal((j + 1) as nat) + ". "@ + errs[j],
            );
            let ghost l5 = views(lines@);
            assert(l5 == base + numbered);
            if self.errors.len() > 10 {
                let mut l = chars_of("  ... 还有 ");
                push_decimal(&mut l, (self.errors.len() - 10) as u64);
                extend_chars(&mut l, chars_of(" 个错误").as_slice());
                let ghost prev_lines = lines@;
                lines.push(l);
                proof {
                    assert(lines@ =~= prev_lines.push(l));
                    assert(views(lines@) =~= l5.push(l@));
                }
            }
            proof {
                assert(errs.len() == self.errors@.len());
                assert(detail_lines(errs) =~= if errs.len() > 10 {
                    numbered.push("  ... 还有 "@ + decimal((errs.len() - 10) as nat) + " 个错误"@)
                } else {
                    numbered
                });
                assert(views(lines@) =~= l4 + (seq![Seq::<char>::empty(), "错误详情:"@]
                    + detail_lines(errs)));
            }
        }
        let ghost l6 = views(lines@);
        lines.push(chars_of("━━━━━━━━━━━━━━━━━━━━━━━━"));
        proof {
            let r = *self;
            let skipped = if r.skipped > 0 {
                seq!["⏭️  跳过: "@ + decimal(r.skipped as nat)]
            } else {
                Seq::<Seq<char>>::empty()
            };
            let failed = if r.failed > 0 {
                seq!["❌ 失败: "@ + decimal(r.failed as nat)]
            } else {
                Seq::<Seq<char>>::empty()
            };
            let rl = seq!["成功率: "@ + success_rate@ + "%"@];
            let details = if errs.len() > 0 {
                seq![Seq::<char>::empty(), "错误详情:"@] + detail_lines(errs)
            } else {
                Seq::<Seq<char>>::empty()
            };
            assert(l2 =~= l1 + skipped);
            assert(l3 =~= l2 + failed);
            assert(l4 =~= l3 + rl);
            assert(l6 =~= l4 + details);
            assert(l1 =~= seq![
                "━━━━━ Memory 数据迁移报告 ━━━━━"@,
                "总条目数: "@ + decimal(r.total as nat),
                "✅ 成功迁移: "@ + decimal(r.migrated as nat),
            ]);
            assert(views(lines@) =~= report_lines(r, success_rate@));
        }
        let joined = join_chars(&lines, chars_of("\n").as_slice());
        string_of(joined.as_slice())
    }
}

impl Default for MigrationReport {
    fn default() -> (r: MigrationReport)
        ensures
            r.total == 0 && r.migrated == 0 && r.skipped == 0 && r.failed == 0,
            r.errors@.len() == 0,
    {
        MigrationReport::new()
    }
}


// ---------------------------------------------------------------------------
// Migrating a memory file line by line
// ---------------------------------------------------------------------------

/// A line with nothing but white space.
pub open spec fn blank_line(line: Seq<char>) -> bool {
    trim(line).len() == 0
}

/// The reason recorded for a blank line: `行 <n>: 空行`.
pub open spec fn blank_line_reason(line_number: nat) -> Seq<char> {
    "行 "@ + decimal(line_number) + ": 空行"@
}

/// The error recorded for a line that does not parse: `行 <n>: JSON 解析失败: <error>`.
pub open spec fn parse_failure_error(line_number: nat, error: Seq<char>) -> Seq<char> {
    "行 "@ + decimal(line_number) + ": JSON 解析失败: "@ + error
}

/// Whether a line of a memory file is blank.
pub fn is_blank_line(line: &str) -> (r: bool)
    ensures
        r == blank_line(line@),
{
    let chars = chars_of(line);
    trim_chars(chars.as_slice()).len() == 0
}

/// Migrates one line of a memory file, given the entry the application
/// parsed from it (or the parse error): a blank line is skipped, a line that
/// did not parse fails, and a parsed entry is remembered and counted.
pub fn migrate_line(
    report: &mut MigrationReport,
    memory: &mut Memory,
    line_number: usize,
    line: &str,
    parsed: Result<MemoryEntry, String>,
)
    requires
        report_consistent(*old(report)),
        old(report).total < usize::MAX,
        old(memory).wf(),
    ensures
        report_consistent(*final(report)),
        final(memory).wf(),
        final(report).total == old(report).total + 1,
        forall|i: int| 0 <= i < old(report).errors@.len() ==> final(report).errors@[i] == old(report).errors@[i],
        blank_line(line@) ==> {
            &&& final(report).skipped == old(report).skipped + 1
            &&& final(report).migrated == old(report).migrated
            &&& final(report).failed == old(report).failed
            &&& final(report).errors@.last()@ == "Skipped: "@ + blank_line_reason(line_number as nat)
            &&& *final(memory) == *old(memory)
        },
        !blank_line(line@) ==> match parsed {
            Ok(e) => {
                &&& final(report).migrated == old(report).migrated + 1
                &&& final(report).skipped == old(report).skipped
                &&& final(report).failed == old(report).failed
                &&& final(report).errors == old(report).errors
                &&& final(memory).entries_view() == remembered(
                    old(memory).entries_view(),
                    old(memory).capacity_view(),
                    e,
                )
                &&& final(memory).capacity_view() == old(memory).capacity_view()
            },
            Err(err) => {
                &&& final(report).failed == old(report).failed + 1
                &&& final(report).migrated == old(report).migrated
                &&& final(report).skipped == old(report).skipped
                &&& final(report).errors@.last()@ == "Failed: "@ + parse_failure_error(
                    line_number as nat,
                    err@,
                )
                &&& *final(memory) == *old(memory)
            },
        },
{
    if is_blank_line(line) {
        let mut reason = chars_of("行 ");
        push_decimal(&mut reason, line_number as u64);
        extend_chars(&mut reason, chars_of(": 空行").as_slice());
        report.record_skip(string_of(reason.as_slice()));
    } else {
        match parsed {
            Ok(entry) => {
                memory.push_entry(entry);
                report.record_success();
            },
            Err(err) => {
                let mut error = chars_of("行 ");
                push_decimal(&mut error, line_number as u64);
                extend_chars(&mut error, chars_of(": JSON 解析失败: ").as_slice());
                extend_chars(&mut error, chars_of(err.as_str()).as_slice());
                report.record_failure(string_of(error.as_slice()));
            },
        }
    }
}


/// The entries of a memory after remembering `es` in order.
pub open spec fn remembered_all(s: Seq<MemoryEntry>, cap: nat, es: Seq<MemoryEntry>) -> Seq<MemoryEntry>
    decreases es.len(),
{
    if es.len() == 0 {
        s
    } else {
        remembered(remembered_all(s, cap, es.drop_last()), cap, es.last())
    }
}

/// A copy of an entry, field by field.
fn copy_memory_entry(e: &MemoryEntry) -> (r: MemoryEntry)
    ensures
        r == *e,
{
    MemoryEntry {
        timestamp_ms: e.timestamp_ms,
        entry_type: e.entry_type,
        content: e.content.clone(),
        importance: e.importance,
    }
}

/// Migrates a batch of entries: each is remembered, in order, and counted
/// as migrated.
pub fn migrate_entries(memory: &mut Memory, entries: Vec<MemoryEntry>) -> (r: MigrationReport)
    requires
        old(memory).wf(),
    ensures
        final(memory).wf(),
        report_consistent(r),
        r.total == entries@.len() && r.migrated == entries@.len(),
        r.skipped == 0 && r.failed == 0 && r.errors@.len() == 0,
        final(memory).entries_view() == remembered_all(
            old(memory).entries_view(),
            old(memory).capacity_view(),
            entries@,
        ),
        final(memory).capacity_view() == old(memory).capacity_view(),
{
    let mut report = MigrationReport::new();
    let ghost start = memory.entries_view();
    let ghost cap = memory.capacity_view();
    let mut i: usize = 0;
    while i < entries.len()
        invariant
            i <= entries@.len(),
            memory.wf(),
            memory.capacity_view() == cap,
            memory.entries_view() == remembered_all(start, cap, entries@.take(i as int)),
            report_consistent(report),
            report.total == i && report.migrated == i,
            report.skipped == 0 && report.failed == 0 && report.errors@.len() == 0,
        decreases entries@.len() - i,
    {
        proof {
            assert(entries@.take(i + 1).drop_last() =~= entries@.take(i as int));
        }
        let e = copy_memory_entry(&entries[i]);
        memory.push_entry(e);
        report.record_success();
        i = i + 1;
    }
    assert(entries@.take(entries@.len() as int) =~= entries@);
    report
}

} // verus!
