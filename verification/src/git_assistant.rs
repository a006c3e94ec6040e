//! Git assistant: Conventional Commits messages, porcelain status tallies,
//! ahead/behind parsing and change analysis of unified diffs.
//!
//! Running `git` itself is the application's job; this module turns what
//! `git` prints into the values the assistant works with.

use vstd::prelude::*;
use crate::text::{
    chars_of, string_of, extend_chars, join, join_chars, views, split_lines, lines, split_words,
    words, starts_with, ends_with, contains, has_prefix, has_suffix, has_infix,
    parse_usize_chars, parse_usize,
};

verus! {

// ---------------------------------------------------------------------------
// Status
// ---------------------------------------------------------------------------

/// State of a Git working copy.
#[derive(Debug, Clone)]
pub struct GitStatus {
    /// The branch checked out, when `git` reports one.
    pub current_branch: Option<String>,
    /// Whether anything is staged, modified or untracked.
    pub has_changes: bool,
    /// Number of entries with a staged change.
    pub staged_files: usize,
    /// Number of entries with an unstaged change.
    pub unstaged_files: usize,
    /// Number of untracked entries.
    pub untracked_files: usize,
    /// URL of the `origin` remote.
    pub remote_url: Option<String>,
    /// Commits ahead of the upstream branch.
    pub ahead: usize,
    /// Commits behind the upstream branch.
    pub behind: usize,
}

/// 1 when `b` holds, else 0.
pub open spec fn bit(b: bool) -> nat {
    if b {
        1
    } else {
        0
    }
}

/// A porcelain line whose index column shows a staged change.
pub open spec fn is_staged(l: Seq<char>) -> bool {
    l[0] != ' ' && l[0] != '?'
}

/// A porcelain line whose work-tree column shows an unstaged change.
pub open spec fn is_unstaged(l: Seq<char>) -> bool {
    l[1] != ' ' && l[1] != '?'
}

/// A porcelain line of an untracked entry.
pub open spec fn is_untracked(l: Seq<char>) -> bool {
    l[0] == '?'
}

/// Staged, unstaged and untracked counts over porcelain lines; lines shorter
/// than three characters are ignored.
pub open spec fn status_tally(ls: Seq<Seq<char>>) -> (nat, nat, nat)
    decreases ls.len(),
{
    if ls.len() == 0 {
        (0, 0, 0)
    } else {
        let prev = status_tally(ls.drop_last());
        let l = ls.last();
        if l.len() < 3 {
            prev
        } else {
            (
                prev.0 + bit(is_staged(l)),
                prev.1 + bit(is_unstaged(l)),
                prev.2 + bit(is_untracked(l)),
            )
        }
    }
}

/// The ahead/behind pair that `git rev-list --left-right --count` printed:
/// exactly two words, each read as a count (0 where it is no count), else `(0, 0)`.
pub open spec fn ahead_behind(out: Seq<char>) -> (nat, nat) {
    let w = words(out);
    if w.len() != 2 {
        (0, 0)
    } else {
        (
            match parse_usize(w[0]) {
                Some(v) => v,
                None => 0,
            },
            match parse_usize(w[1]) {
                Some(v) => v,
                None => 0,
            },
        )
    }
}

/// Staged, unstaged and untracked counts of `git status --porcelain` output.
pub fn porcelain_counts(porcelain: &str) -> (r: (usize, usize, usize))
    ensures
        r.0 == status_tally(lines(porcelain@)).0,
        r.1 == status_tally(lines(porcelain@)).1,
        r.2 == status_tally(lines(porcelain@)).2,
{
    let cs = chars_of(porcelain);
    let ls = split_lines(cs.as_slice());
    let ghost vs = views(ls@);
    let mut staged: usize = 0;
    let mut unstaged: usize = 0;
    let mut untracked: usize = 0;
    let mut i: usize = 0;
    while i < ls.len()
        invariant
            i <= ls.len(),
            vs == views(ls@),
            staged <= i && unstaged <= i && untracked <= i,
            (staged as nat, unstaged as nat, untracked as nat) == status_tally(vs.take(i as int)),
        decreases ls.len() - i,
    {
        let l = &ls[i];
        proof {
            assert(vs.take(i + 1).drop_last() =~= vs.take(i as int));
            assert(vs.take(i + 1).last() == l@);
        }
        if l.len() >= 3 {
            if l[0] != ' ' && l[0] != '?' {
                staged = staged + 1;
            }
            if l[1] != ' ' && l[1] != '?' {
                unstaged = unstaged + 1;
            }
            if l[0] == '?' {
                untracked = untracked + 1;
            }
        }
        i = i + 1;
    }
    assert(vs.take(ls.len() as int) =~= vs);
    (staged, unstaged, untracked)
}

/// Reads the ahead/behind counts printed by `git rev-list --left-right --count`.
pub fn parse_ahead_behind(output: &str) -> (r: (usize, usize))
    ensures
        r.0 == ahead_behind(output@).0,
        r.1 == ahead_behind(output@).1,
{
    let cs = chars_of(output);
    let ws = split_words(cs.as_slice());
    let ghost w = views(ws@);
    if ws.len() != 2 {
        return (0, 0);
    }
    assert(w[0] == ws@[0]@ && w[1] == ws@[1]@);
    let a = match parse_usize_chars(ws[0].as_slice()) {
        Some(v) => v,
        None => 0,
    };
    let b = match parse_usize_chars(ws[1].as_slice()) {
        Some(v) => v,
        None => 0,
    };
    (a, b)
}

impl GitStatus {
    /// Assembles the status from the branch, the remote URL, the porcelain
    /// listing and the ahead/behind counts that `git` reported.
    pub fn from_parts(
        current_branch: Option<String>,
        remote_url: Option<String>,
        porcelain: &str,
        ahead: usize,
        behind: usize,
    ) -> (r: GitStatus)
        ensures
            r.current_branch == current_branch,
            r.remote_url == remote_url,
            r.staged_files == status_tally(lines(porcelain@)).0,
            r.unstaged_files == status_tally(lines(porcelain@)).1,
            r.untracked_files == status_tally(lines(porcelain@)).2,
            r.has_changes == (r.staged_files > 0 || r.unstaged_files > 0 || r.untracked_files > 0),
            r.ahead == ahead,
            r.behind == behind,
    {
        let (staged, unstaged, untracked) = porcelain_counts(porcelain);
        GitStatus {
            current_branch,
            has_changes: staged > 0 || unstaged > 0 || untracked > 0,
            staged_files: staged,
            unstaged_files: unstaged,
            untracked_files: untracked,
            remote_url,
            ahead,
            behind,
        }
    }
}

// ---------------------------------------------------------------------------
// Commit messages
// ---------------------------------------------------------------------------

/// A commit message in the Conventional Commits shape.
#[derive(Debug, Clone)]
pub struct CommitMessage {
    /// Type such as `feat`, `fix` or `docs`.
    pub commit_type: String,
    /// Optional scope.
    pub scope: Option<String>,
    /// Short description.
    pub subject: String,
    /// Optional longer description.
    pub body: Option<String>,
    /// Optional footer, such as a closed issue.
    pub footer: Option<String>,
}

/// The header line: `type(scope): subject`, or `type: subject` without a scope.
pub open spec fn commit_header(m: CommitMessage) -> Seq<char> {
    match m.scope {
        Some(sc) => m.commit_type@ + "("@ + sc@ + "): "@ + m.subject@,
        None => m.commit_type@ + ": "@ + m.subject@,
    }
}

/// The lines of a formatted commit message: the header, then a blank line when
/// a body or footer follows, the body, and the footer (after a blank line when
/// there is a body).
pub open spec fn commit_lines(m: CommitMessage) -> Seq<Seq<char>> {
    let head = seq![commit_header(m)];
    let gap = if m.body is Some || m.footer is Some {
        seq![Seq::<char>::empty()]
    } else {
        Seq::<Seq<char>>::empty()
    };
    let body = match m.body {
        Some(b) => seq![b@],
        None => Seq::<Seq<char>>::empty(),
    };
    let foot = match m.footer {
        Some(f) => if m.body is Some {
            seq![Seq::<char>::empty(), f@]
        } else {
            seq![f@]
        },
        None => Seq::<Seq<char>>::empty(),
    };
    head + gap + body + foot
}

impl CommitMessage {
    /// Formats the message in the Conventional Commits layout, lines joined by `'\n'`.
    pub fn format(&self) -> (r: String)
        ensures
            r@ == join(commit_lines(*self), "\n"@),
    {
        let mut header: Vec<char> = chars_of(self.commit_type.as_str());
        match &self.scope {
            Some(sc) => {
                extend_chars(&mut header, chars_of("(").as_slice());
                extend_chars(&mut header, chars_of(sc.as_str()).as_slice());
                extend_chars(&mut header, chars_of("): ").as_slice());
            },
            None => {
                extend_chars(&mut header, chars_of(": ").as_slice());
            },
        }
        extend_chars(&mut header, chars_of(self.subject.as_str()).as_slice());
        assert(header@ =~= commit_header(*self));
        let mut parts: Vec<Vec<char>> = Vec::new();
        parts.push(header);
        let ghost p1 = views(parts@);
        assert(p1 =~= seq![commit_header(*self)]);
        if self.body.is_some() || self.footer.is_some() {
            parts.push(Vec::new());
        }
        let ghost p2 = views(parts@);
        match &self.body {
            Some(b) => {
                parts.push(chars_of(b.as_str()));
            },
            None => {},
        }
        let ghost p3 = views(parts@);
        match &self.footer {
            Some(f) => {
                if self.body.is_some() {
                    parts.push(Vec::new());
                }
                parts.push(chars_of(f.as_str()));
            },
            None => {},
        }
        proof {
            let m = *self;
            let gap = if m.body is Some || m.footer is Some {
                seq![Seq::<char>::empty()]
            } else {
                Seq::<Seq<char>>::empty()
            };
            assert(p2 =~= p1 + gap);
            let body = match m.body {
                Some(b) => seq![b@],
                None => Seq::<Seq<char>>::empty(),
            };
            assert(p3 =~= p1 + gap + body);
            assert(views(parts@) =~= commit_lines(m));
        }
        let nl = chars_of("\n");
        let joined = join_chars(&parts, nl.as_slice());
        string_of(joined.as_slice())
    }
}

// ---------------------------------------------------------------------------
// Repository handle
// ---------------------------------------------------------------------------

/// A Git working copy, known by its root directory.
pub struct GitRepository {
    root: String,
}

impl GitRepository {
    /// The root directory of the working copy.
    pub closed spec fn root_view(&self) -> Seq<char> {
        self.root@
    }

    /// Opens the working copy rooted at `root`; `git_dir_exists` tells whether
    /// `root/.git` exists. Refused with "不是 Git 仓库" when it does not.
    pub fn new(root: String, git_dir_exists: bool) -> (r: Result<GitRepository, String>)
        ensures
            git_dir_exists ==> (r matches Ok(g) && g.root_view() == root@),
            !git_dir_exists ==> (r matches Err(e) && e@ == "不是 Git 仓库"@),
    {
        if !git_dir_exists {
            return Err(string_of(chars_of("不是 Git 仓库").as_slice()));
        }
        Ok(GitRepository { root })
    }

    /// The root directory of the working copy.
    pub fn root(&self) -> (r: &str)
        ensures
            r@ == self.root_view(),
    {
        self.root.as_str()
    }

    /// Analyses a unified diff (see `diff_tally` and `inferred_type`).
    pub fn analyze_changes(&self, diff: &str) -> (r: ChangeAnalysis)
        ensures
            r.tally() == diff_tally(lines(diff@)),
            r.suggested_type matches Some(t) && t@ == inferred_type(diff_tally(lines(diff@))),
            r.suggested_scope matches Some(s) ==> s@ == "config"@,
            r.suggested_scope is Some <==> inferred_config_scope(diff_tally(lines(diff@))),
    {
        let cs = chars_of(diff);
        let ls = split_lines(cs.as_slice());
        let ghost vs = views(ls@);
        let mut a = ChangeAnalysis::default();
        let plus3 = chars_of("+++");
        let minus3 = chars_of("---");
        let plus = chars_of("+");
        let minus = chars_of("-");
        let devnull = chars_of("/dev/null");
        let mut i: usize = 0;
        while i < ls.len()
            invariant
                i <= ls.len(),
                vs == views(ls@),
                plus3@ == "+++"@,
                minus3@ == "---"@,
                plus@ == "+"@,
                minus@ == "-"@,
                devnull@ == "/dev/null"@,
                a.tally() == diff_tally(vs.take(i as int)),
                a.counts_within(i as nat),
                a.suggested_type is None,
                a.suggested_scope is None,
            decreases ls.len() - i,
        {
            let l = &ls[i];
            let ghost prev = a.tally();
            proof {
                assert(vs.take(i + 1).drop_last() =~= vs.take(i as int));
                assert(vs.take(i + 1).last() == l@);
            }
            if starts_with(l.as_slice(), plus3.as_slice()) || starts_with(
                l.as_slice(),
                minus3.as_slice(),
            ) {
                let ws = split_words(l.as_slice());
                proof {
                    assert(views(ws@).len() == ws@.len());
                }
                if ws.len() >= 2 {
                    assert(views(ws@)[1] == ws@[1]@);
                    let eq = starts_with(ws[1].as_slice(), devnull.as_slice()) && ws[1].len()
                        == devnull.len();
                    proof {
                        if eq {
                            assert(ws@[1]@ =~= "/dev/null"@);
                        }
                    }
                    proof {
                        if ws@[1]@ == "/dev/null"@ {
                            assert(ws@[1]@.subrange(0, devnull@.len() as int) =~= ws@[1]@);
                        }
                    }
                    if !eq {
                        let p = strip_b_prefix(ws[1].as_slice());
                        let class = file_class(p.as_slice());
                        if class == 1 {
                            a.rust_files = a.rust_files + 1;
                        } else if class == 2 {
                            a.doc_files = a.doc_files + 1;
                        } else if class == 3 {
                            a.config_files = a.config_files + 1;
                        } else if class == 4 {
                            a.script_files = a.script_files + 1;
                        }
                    }
                }
            } else if starts_with(l.as_slice(), plus.as_slice()) {
                a.additions = a.additions + 1;
                if contains(l.as_slice(), chars_of("fn ").as_slice()) || contains(
                    l.as_slice(),
                    chars_of("impl ").as_slice(),
                ) {
                    a.has_new_functions = true;
                }
                if contains(l.as_slice(), chars_of("struct ").as_slice()) || contains(
                    l.as_slice(),
                    chars_of("enum ").as_slice(),
                ) {
                    a.has_new_types = true;
                }
                if contains(l.as_slice(), chars_of("test").as_slice()) || contains(
                    l.as_slice(),
                    chars_of("#[test]").as_slice(),
                ) {
                    a.has_tests = true;
                }
                if contains(l.as_slice(), chars_of("TODO").as_slice()) || contains(
                    l.as_slice(),
                    chars_of("FIXME").as_slice(),
                ) {
                    a.has_todos = true;
                }
            } else if starts_with(l.as_slice(), minus.as_slice()) {
                a.deletions = a.deletions + 1;
            }
            assert(a.tally() == diff_step(prev, l@));
            i = i + 1;
        }
        assert(vs.take(ls.len() as int) =~= vs);
        a.infer_change_type();
        a
    }
}

/// `s` with every leading `"b/"` removed (std `trim_start_matches("b/")`).
pub open spec fn strip_b(s: Seq<char>) -> Seq<char>
    decreases s.len(),
{
    if has_prefix(s, "b/"@) && s.len() >= 2 {
        strip_b(s.skip(2))
    } else {
        s
    }
}

/// File kind by extension: 1 Rust, 2 documentation, 3 configuration, 4 script, 0 other.
pub open spec fn class_of(p: Seq<char>) -> u8 {
    if has_suffix(p, ".rs"@) {
        1
    } else if has_suffix(p, ".md"@) || has_suffix(p, ".txt"@) {
        2
    } else if has_suffix(p, ".toml"@) || has_suffix(p, ".yaml"@) || has_suffix(p, ".json"@) {
        3
    } else if has_suffix(p, ".sh"@) {
        4
    } else {
        0
    }
}

fn strip_b_prefix(s: &[char]) -> (r: Vec<char>)
    ensures
        r@ == strip_b(s@),
{
    let pre = chars_of("b/");
    proof {
        reveal_strlit("b/");
    }
    let mut i: usize = 0;
    assert(s@.skip(0) =~= s@);
    while s.len() - i >= 2 && s[i] == 'b' && s[i + 1] == '/'
        invariant
            i <= s.len(),
            pre@ == "b/"@,
            strip_b(s@.skip(i as int)) == strip_b(s@),
        decreases s.len() - i,
    {
        proof {
            reveal_strlit("b/");
            let t = s@.skip(i as int);
            assert(t.subrange(0, 2) =~= "b/"@);
            assert(t.skip(2) =~= s@.skip(i + 2));
        }
        i = i + 2;
    }
    let ghost t = s@.skip(i as int);
    proof {
        if has_prefix(t, "b/"@) && t.len() >= 2 {
            assert(t.subrange(0, 2)[0] == s@[i as int]);
            assert(t.subrange(0, 2)[1] == s@[i + 1]);
        }
    }
    let mut r: Vec<char> = Vec::new();
    let mut j: usize = i;
    while j < s.len()
        invariant
            i <= j <= s.len(),
            r@ == s@.subrange(i as int, j as int),
        decreases s.len() - j,
    {
        r.push(s[j]);
        assert(r@ =~= s@.subrange(i as int, j + 1));
        j = j + 1;
    }
    assert(r@ =~= t);
    r
}

fn file_class(p: &[char]) -> (c: u8)
    ensures
        c == class_of(p@),
{
    if ends_with(p, chars_of(".rs").as_slice()) {
        1
    } else if ends_with(p, chars_of(".md").as_slice()) || ends_with(p, chars_of(".txt").as_slice()) {
        2
    } else if ends_with(p, chars_of(".toml").as_slice()) || ends_with(
        p,
        chars_of(".yaml").as_slice(),
    ) || ends_with(p, chars_of(".json").as_slice()) {
        3
    } else if ends_with(p, chars_of(".sh").as_slice()) {
        4
    } else {
        0
    }
}

// ---------------------------------------------------------------------------
// Change analysis
// ---------------------------------------------------------------------------

/// The counters and flags of a change analysis, as mathematical values.
pub struct DiffTally {
    pub additions: nat,
    pub deletions: nat,
    pub rust_files: nat,
    pub doc_files: nat,
    pub config_files: nat,
    pub script_files: nat,
    pub has_new_functions: bool,
    pub has_new_types: bool,
    pub has_tests: bool,
    pub has_todos: bool,
}

/// The tally of an empty diff.
pub open spec fn empty_tally() -> DiffTally {
    DiffTally {
        additions: 0,
        deletions: 0,
        rust_files: 0,
        doc_files: 0,
        config_files: 0,
        script_files: 0,
        has_new_functions: false,
        has_new_types: false,
        has_tests: false,
        has_todos: false,
    }
}

/// How one diff line changes the tally: a `+++`/`---` header line counts its
/// file by kind (unless it is `/dev/null`), an added line counts an addition and
/// sets the flags for new functions, new types, tests and to-do markers, a
/// removed line counts a deletion; other lines change nothing.
pub open spec fn diff_step(a: DiffTally, l: Seq<char>) -> DiffTally {
    if has_prefix(l, "+++"@) || has_prefix(l, "---"@) {
        let w = words(l);
        if w.len() >= 2 && w[1] != "/dev/null"@ {
            let c = class_of(strip_b(w[1]));
            if c == 1 {
                DiffTally { rust_files: a.rust_files + 1, ..a }
            } else if c == 2 {
                DiffTally { doc_files: a.doc_files + 1, ..a }
            } else if c == 3 {
                DiffTally { config_files: a.config_files + 1, ..a }
            } else if c == 4 {
                DiffTally { script_files: a.script_files + 1, ..a }
            } else {
                a
            }
        } else {
            a
        }
    } else if has_prefix(l, "+"@) {
        DiffTally {
            additions: a.additions + 1,
            has_new_functions: a.has_new_functions || has_infix(l, "fn "@) || has_infix(
                l,
                "impl "@,
            ),
            has_new_types: a.has_new_types || has_infix(l, "struct "@) || has_infix(l, "enum "@),
            has_tests: a.has_tests || has_infix(l, "test"@) || has_infix(l, "#[test]"@),
            has_todos: a.has_todos || has_infix(l, "TODO"@) || has_infix(l, "FIXME"@),
            ..a
        }
    } else if has_prefix(l, "-"@) {
        DiffTally { deletions: a.deletions + 1, ..a }
    } else {
        a
    }
}

/// The tally of a sequence of diff lines, line by line from the first.
pub open spec fn diff_tally(ls: Seq<Seq<char>>) -> DiffTally
    decreases ls.len(),
{
    if ls.len() == 0 {
        empty_tally()
    } else {
        diff_step(diff_tally(ls.drop_last()), ls.last())
    }
}

/// The commit type that a tally suggests: `docs` for documentation-only changes,
/// `chore` for configuration-only changes, `test` for tests without new functions,
/// `feat` for new functions or types with more than twice as many additions as
/// deletions (`refactor` otherwise), `refactor` when more is removed than added,
/// and `fix` in all other cases.
pub open spec fn inferred_type(a: DiffTally) -> Seq<char> {
    if a.doc_files > 0 && a.rust_files == 0 {
        "docs"@
    } else if a.config_files > 0 && a.rust_files == 0 {
        "chore"@
    } else if a.has_tests && !a.has_new_functions {
        "test"@
    } else if a.has_new_functions || a.has_new_types {
        if a.additions > a.deletions * 2 {
            "feat"@
        } else {
            "refactor"@
        }
    } else if a.deletions > a.additions {
        "refactor"@
    } else {
        "fix"@
    }
}

/// Whether the suggestion is the configuration chore, which also sets the scope `config`.
pub open spec fn inferred_config_scope(a: DiffTally) -> bool {
    !(a.doc_files > 0 && a.rust_files == 0) && a.config_files > 0 && a.rust_files == 0
}

/// Result of analysing a diff.
#[derive(Debug, Clone)]
pub struct ChangeAnalysis {
    pub additions: usize,
    pub deletions: usize,
    pub rust_files: usize,
    pub doc_files: usize,
    pub config_files: usize,
    pub script_files: usize,
    pub has_new_functions: bool,
    pub has_new_types: bool,
    pub has_tests: bool,
    pub has_todos: bool,
    pub suggested_type: Option<String>,
    pub suggested_scope: Option<String>,
}

impl Default for ChangeAnalysis {
    fn default() -> (r: ChangeAnalysis)
        ensures
            r.tally() == empty_tally(),
            r.suggested_type is None,
            r.suggested_scope is None,
    {
        ChangeAnalysis {
            additions: 0,
            deletions: 0,
            rust_files: 0,
            doc_files: 0,
            config_files: 0,
            script_files: 0,
            has_new_functions: false,
            has_new_types: false,
            has_tests: false,
            has_todos: false,
            suggested_type: None,
            suggested_scope: None,
        }
    }
}

impl ChangeAnalysis {
    /// The counters and flags of this analysis.
    pub open spec fn tally(self) -> DiffTally {
        DiffTally {
            additions: self.additions as nat,
            deletions: self.deletions as nat,
            rust_files: self.rust_files as nat,
            doc_files: self.doc_files as nat,
            config_files: self.config_files as nat,
            script_files: self.script_files as nat,
            has_new_functions: self.has_new_functions,
            has_new_types: self.has_new_types,
            has_tests: self.has_tests,
            has_todos: self.has_todos,
        }
    }

    /// Every counter is at most `n`.
    pub open spec fn counts_within(self, n: nat) -> bool {
        &&& self.additions <= n
        &&& self.deletions <= n
        &&& self.rust_files <= n
        &&& self.doc_files <= n
        &&& self.config_files <= n
        &&& self.script_files <= n
    }

    /// Sets the suggested commit type (see `inferred_type`), and the scope
    /// `config` for configuration chores; counters and flags are unchanged.
    pub fn infer_change_type(&mut self)
        ensures
            final(self).tally() == old(self).tally(),
            final(self).suggested_type matches Some(t) && t@ == inferred_type(old(self).tally()),
            inferred_config_scope(old(self).tally()) ==> (final(self).suggested_scope matches Some(
                s,
            ) && s@ == "config"@),
            !inferred_config_scope(old(self).tally()) ==> final(self).suggested_scope
                == old(self).suggested_scope,
    {
        let t: &str;
        if self.doc_files > 0 && self.rust_files == 0 {
            t = "docs";
        } else if self.config_files > 0 && self.rust_files == 0 {
            t = "chore";
            self.suggested_scope = Some(string_of(chars_of("config").as_slice()));
        } else if self.has_tests && !self.has_new_functions {
            t = "test";
        } else if self.has_new_functions || self.has_new_types {
            if (self.additions as u128) > (self.deletions as u128) * 2 {
                t = "feat";
            } else {
                t = "refactor";
            }
        } else if self.deletions > self.additions {
            t = "refactor";
        } else {
            t = "fix";
        }
        self.suggested_type = Some(string_of(chars_of(t).as_slice()));
    }

    /// The suggested commit type, `chore` when none has been inferred.
    pub fn suggested_commit_type(&self) -> (r: &str)
        ensures
            self.suggested_type matches Some(t) ==> r@ == t@,
            self.suggested_type is None ==> r@ == "chore"@,
    {
        match &self.suggested_type {
            Some(t) => t.as_str(),
            None => "chore",
        }
    }
}


/// The commit type a diff suggests: `docs` when only documentation changed
/// (documentation files and no Rust files), else `chore` when only
/// configuration changed, else `test` when tests were touched without new
/// functions, else for new functions or types `feat` when more than twice as
/// many lines were added as removed and `refactor` otherwise, else `refactor`
/// when more lines were removed than added, and `fix` in every other case.
/// A `fix` therefore never removes more than it adds, and a `feat` always adds
/// something new.
pub proof fn law_commit_type(a: DiffTally)
    ensures
        a.doc_files > 0 && a.rust_files == 0 ==> inferred_type(a) == "docs"@,
        !(a.doc_files > 0 && a.rust_files == 0) && a.config_files > 0 && a.rust_files == 0 ==> inferred_type(a)
            == "chore"@,
        (a.rust_files > 0 || (a.doc_files == 0 && a.config_files == 0)) && a.has_tests && !a.has_new_functions
            ==> inferred_type(a) == "test"@,
        (a.rust_files > 0 || (a.doc_files == 0 && a.config_files == 0)) && !(a.has_tests && !a.has_new_functions)
            && (a.has_new_functions || a.has_new_types) ==> inferred_type(a) == (if a.additions > 2 * a.deletions {
            "feat"@
        } else {
            "refactor"@
        }),
        (a.rust_files > 0 || (a.doc_files == 0 && a.config_files == 0)) && !a.has_tests && !a.has_new_functions
            && !a.has_new_types && a.deletions > a.additions ==> inferred_type(a) == "refactor"@,
        (a.rust_files > 0 || (a.doc_files == 0 && a.config_files == 0)) && !a.has_tests && !a.has_new_functions
            && !a.has_new_types && a.deletions <= a.additions ==> inferred_type(a) == "fix"@,
        inferred_type(a) == "fix"@ ==> a.deletions <= a.additions && !a.has_new_functions && !a.has_new_types,
        inferred_type(a) == "feat"@ ==> (a.has_new_functions || a.has_new_types) && a.additions > 2 * a.deletions,
        inferred_config_scope(a) <==> inferred_type(a) == "chore"@,
{
    reveal_strlit("docs");
    reveal_strlit("chore");
    reveal_strlit("test");
    reveal_strlit("feat");
    reveal_strlit("refactor");
    reveal_strlit("fix");
    assert("fix"@[0] == 'f' && "feat"@[0] == 'f' && "fix"@.len() == 3 && "feat"@.len() == 4);
    assert("docs"@.len() == 4 && "test"@.len() == 4 && "chore"@.len() == 5 && "refactor"@.len() == 8);
    assert("docs"@[0] == 'd' && "test"@[0] == 't');
}

} // verus!
