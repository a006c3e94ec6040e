//! Log analysis: log levels, level detection, message extraction, stack-trace
//! recognition and normalisation of error messages into patterns.
//!
//! Regular expressions are the `regex` crate's; what a compiled expression
//! does to a text is named (`regex_matched`, `regex_replaced_first`,
//! `regex_replaced_all`) and the analysis is proved over those names.

use vstd::prelude::*;
use vstd::multiset::Multiset;
use crate::text::{
    chars_of, string_of, contains, has_infix, has_prefix, starts_with, to_lowercase, lowercase,
    trim_chars, ascii_lower, ascii_text, occurs_at, trim, trim_start, is_space_char, is_space, leading_space,
};

verus! {

// ---------------------------------------------------------------------------
// Regular expressions (trusted wrappers)
// ---------------------------------------------------------------------------

/// Whether `regex::Regex::new` accepts the pattern.
pub uninterp spec fn regex_compiles(pattern: Seq<char>) -> bool;

/// What `Regex::is_match` answers for the pattern and the text.
pub uninterp spec fn regex_matched(pattern: Seq<char>, text: Seq<char>) -> bool;

/// What `Regex::replace` (first match only) returns for the pattern, text and replacement.
pub uninterp spec fn regex_replaced_first(pattern: Seq<char>, text: Seq<char>, rep: Seq<char>) -> Seq<
    char,
>;

/// What `Regex::replace_all` returns for the pattern, text and replacement.
pub uninterp spec fn regex_replaced_all(pattern: Seq<char>, text: Seq<char>, rep: Seq<char>) -> Seq<
    char,
>;

/// Compiles `pattern` with `regex::Regex::new` and, when it compiles, asks
/// `Regex::is_match` about `text`. The answer is named, not spelled out.
#[verifier::external_body]
fn regex_is_match(pattern: &str, text: &str) -> (r: Option<bool>)
    ensures
        r is Some <==> regex_compiles(pattern@),
        r matches Some(b) ==> b == regex_matched(pattern@, text@),
{
    match regex::Regex::new(pattern) {
        Ok(re) => Some(re.is_match(text)),
        Err(_) => None,
    }
}

/// Compiles `pattern` and, when it compiles, replaces its first match in `text`
/// with `rep` (`Regex::replace`).
#[verifier::external_body]
fn regex_replace_first(pattern: &str, text: &str, rep: &str) -> (r: Option<String>)
    ensures
        r is Some <==> regex_compiles(pattern@),
        r matches Some(s) ==> s@ == regex_replaced_first(pattern@, text@, rep@),
{
    match regex::Regex::new(pattern) {
        Ok(re) => Some(re.replace(text, rep).into_owned()),
        Err(_) => None,
    }
}

/// Compiles `pattern` and, when it compiles, replaces all its matches in `text`
/// with `rep` (`Regex::replace_all`).
#[verifier::external_body]
pub(crate) fn regex_replace_all(pattern: &str, text: &str, rep: &str) -> (r: Option<String>)
    ensures
        r is Some <==> regex_compiles(pattern@),
        r matches Some(s) ==> s@ == regex_replaced_all(pattern@, text@, rep@),
{
    match regex::Regex::new(pattern) {
        Ok(re) => Some(re.replace_all(text, rep).into_owned()),
        Err(_) => None,
    }
}

/// The first match of the pattern in the text, as `Regex::find` returns it.
pub uninterp spec fn regex_found(pattern: Seq<char>, text: Seq<char>) -> Option<Seq<char>>;

/// Compiles `pattern` and, when it compiles, finds its first match in `text`
/// (`Regex::find`); the match is named, not spelled out.
#[verifier::external_body]
fn regex_find(pattern: &str, text: &str) -> (r: Option<Option<String>>)
    ensures
        r is Some <==> regex_compiles(pattern@),
        r matches Some(m) ==> match m {
            Some(s) => regex_found(pattern@, text@) == Some(s@),
            None => regex_found(pattern@, text@) is None,
        },
{
    match regex::Regex::new(pattern) {
        Ok(re) => Some(re.find(text).map(|m| m.as_str().to_string())),
        Err(_) => None,
    }
}

/// The instant, in milliseconds since the Unix epoch, that chrono's
/// `NaiveDateTime::parse_from_str` reads from the text with the format, taken
/// as UTC; `None` when it does not parse.
pub uninterp spec fn naive_utc_millis(text: Seq<char>, format: Seq<char>) -> Option<i64>;

/// Parses a date and time with chrono's `NaiveDateTime::parse_from_str` and
/// takes it as UTC (`and_utc().timestamp_millis()`).
#[verifier::external_body]
fn parse_naive_utc(text: &str, format: &str) -> (r: Option<i64>)
    ensures
        r == naive_utc_millis(text@, format@),
{
    chrono::NaiveDateTime::parse_from_str(text, format).ok().map(|t| t.and_utc().timestamp_millis())
}

// ---------------------------------------------------------------------------
// Log levels
// ---------------------------------------------------------------------------

/// Log level.
#[derive(Debug, Clone, Copy, PartialEq, Eq, Hash, Structural)]
pub enum LogLevel {
    Error,
    Warn,
    Info,
    Debug,
    Trace,
    Unknown,
}

/// The level a lowercased word names: it contains `error` or `err`, `warn`
/// or `warning`, `info`, `debug` or `trace`, checked in that order.
pub open spec fn level_named(s: Seq<char>) -> LogLevel {
    if has_infix(s, "error"@) || has_infix(s, "err"@) {
        LogLevel::Error
    } else if has_infix(s, "warn"@) || has_infix(s, "warning"@) {
        LogLevel::Warn
    } else if has_infix(s, "info"@) {
        LogLevel::Info
    } else if has_infix(s, "debug"@) {
        LogLevel::Debug
    } else if has_infix(s, "trace"@) {
        LogLevel::Trace
    } else {
        LogLevel::Unknown
    }
}

/// The priority of a level: Error 5, Warn 4, Info 3, Debug 2, Trace 1, Unknown 0.
pub open spec fn level_priority(l: LogLevel) -> u8 {
    match l {
        LogLevel::Error => 5,
        LogLevel::Warn => 4,
        LogLevel::Info => 3,
        LogLevel::Debug => 2,
        LogLevel::Trace => 1,
        LogLevel::Unknown => 0,
    }
}

/// The upper-case name of a level.
pub open spec fn level_text(l: LogLevel) -> Seq<char> {
    match l {
        LogLevel::Error => "ERROR"@,
        LogLevel::Warn => "WARN"@,
        LogLevel::Info => "INFO"@,
        LogLevel::Debug => "DEBUG"@,
        LogLevel::Trace => "TRACE"@,
        LogLevel::Unknown => "UNKNOWN"@,
    }
}

impl LogLevel {
    /// Reads a level from a word, ignoring case (see `level_named`).
    pub fn from_str(s: &str) -> (r: LogLevel)
        ensures
            r == level_named(lowercase(s@)),
            ascii_text(s@) ==> r == level_named(s@.map_values(|c: char| ascii_lower(c))),
    {
        let lower = to_lowercase(s);
        let l = chars_of(lower.as_str());
        let l = l.as_slice();
        if contains(l, chars_of("error").as_slice()) || contains(l, chars_of("err").as_slice()) {
            LogLevel::Error
        } else if contains(l, chars_of("warn").as_slice()) || contains(
            l,
            chars_of("warning").as_slice(),
        ) {
            LogLevel::Warn
        } else if contains(l, chars_of("info").as_slice()) {
            LogLevel::Info
        } else if contains(l, chars_of("debug").as_slice()) {
            LogLevel::Debug
        } else if contains(l, chars_of("trace").as_slice()) {
            LogLevel::Trace
        } else {
            LogLevel::Unknown
        }
    }

    /// The upper-case name of the level.
    pub fn as_str(&self) -> (r: &'static str)
        ensures
            r@ == level_text(*self),
    {
        match self {
            LogLevel::Error => "ERROR",
            LogLevel::Warn => "WARN",
            LogLevel::Info => "INFO",
            LogLevel::Debug => "DEBUG",
            LogLevel::Trace => "TRACE",
            LogLevel::Unknown => "UNKNOWN",
        }
    }

    /// The priority of the level, for sorting (see `level_priority`).
    pub fn priority(&self) -> (r: u8)
        ensures
            r == level_priority(*self),
    {
        match self {
            LogLevel::Error => 5,
            LogLevel::Warn => 4,
            LogLevel::Info => 3,
            LogLevel::Debug => 2,
            LogLevel::Trace => 1,
            LogLevel::Unknown => 0,
        }
    }
}

/// Priorities order the levels strictly: Error above Warn above Info above
/// Debug above Trace above Unknown, and distinct levels have distinct priorities.
pub proof fn law_priority_order(a: LogLevel, b: LogLevel)
    ensures
        level_priority(a) == level_priority(b) ==> a == b,
        level_priority(LogLevel::Error) > level_priority(LogLevel::Warn) > level_priority(
            LogLevel::Info,
        ) > level_priority(LogLevel::Debug) > level_priority(LogLevel::Trace) > level_priority(
            LogLevel::Unknown,
        ),
{
}

// ---------------------------------------------------------------------------
// Line analysis
// ---------------------------------------------------------------------------

/// The level markers tried in order, each with the level it signals.
pub open spec fn level_markers() -> Seq<(Seq<char>, LogLevel)> {
    seq![
        ("\\[ERROR\\]"@, LogLevel::Error),
        ("\\[WARN\\]"@, LogLevel::Warn),
        ("\\[INFO\\]"@, LogLevel::Info),
        ("\\[DEBUG\\]"@, LogLevel::Debug),
        ("\\[TRACE\\]"@, LogLevel::Trace),
        ("ERROR:"@, LogLevel::Error),
        ("WARN:"@, LogLevel::Warn),
        ("INFO:"@, LogLevel::Info),
        ("DEBUG:"@, LogLevel::Debug),
    ]
}

/// Whether the marker pattern (compiling) matches the line.
pub open spec fn marker_hits(p: Seq<char>, line: Seq<char>) -> bool {
    regex_compiles(p) && regex_matched(p, line)
}

/// The level of a line: the level of the first marker that matches; otherwise
/// Error when the line mentions `exception`, `Exception`, `panic` or `fatal`;
/// otherwise Unknown.
pub open spec fn detected_level(ms: Seq<(Seq<char>, LogLevel)>, line: Seq<char>) -> LogLevel
    decreases ms.len(),
{
    if ms.len() == 0 {
        if has_infix(line, "exception"@) || has_infix(line, "Exception"@) || has_infix(
            line,
            "panic"@,
        ) || has_infix(line, "fatal"@) {
            LogLevel::Error
        } else {
            LogLevel::Unknown
        }
    } else if marker_hits(ms[0].0, line) {
        ms[0].1
    } else {
        detected_level(ms.drop_first(), line)
    }
}

/// Detects the level of a log line (see `detected_level`).
pub fn detect_level(content: &str) -> (r: LogLevel)
    ensures
        r == detected_level(level_markers(), content@),
{
    let markers: Vec<(&str, LogLevel)> = vec![
        ("\\[ERROR\\]", LogLevel::Error),
        ("\\[WARN\\]", LogLevel::Warn),
        ("\\[INFO\\]", LogLevel::Info),
        ("\\[DEBUG\\]", LogLevel::Debug),
        ("\\[TRACE\\]", LogLevel::Trace),
        ("ERROR:", LogLevel::Error),
        ("WARN:", LogLevel::Warn),
        ("INFO:", LogLevel::Info),
        ("DEBUG:", LogLevel::Debug),
    ];
    let ghost mv = markers@.map_values(|m: (&str, LogLevel)| (m.0@, m.1));
    assert(mv =~= level_markers());
    let mut i: usize = 0;
    assert(mv.skip(0) =~= mv);
    while i < markers.len()
        invariant
            i <= markers@.len(),
            mv == markers@.map_values(|m: (&str, LogLevel)| (m.0@, m.1)),
            mv == level_markers(),
            detected_level(mv.skip(i as int), content@) == detected_level(mv, content@),
        decreases markers@.len() - i,
    {
        let (p, level) = markers[i];
        proof {
            assert(mv.skip(i as int)[0] == (p@, level));
            assert(mv.skip(i as int).drop_first() =~= mv.skip(i + 1));
        }
        match regex_is_match(p, content) {
            Some(true) => {
                assert(marker_hits(p@, content@));
                assert(detected_level(mv.skip(i as int), content@) == level);
                return level;
            },
            _ => {},
        }
        i = i + 1;
    }
    assert(mv.skip(i as int).len() == 0);
    let cs = chars_of(content);
    let c = cs.as_slice();
    if contains(c, chars_of("exception").as_slice()) || contains(c, chars_of("Exception").as_slice())
        || contains(c, chars_of("panic").as_slice()) || contains(c, chars_of("fatal").as_slice()) {
        LogLevel::Error
    } else {
        LogLevel::Unknown
    }
}

/// One regex step: replace with the pattern when it compiles, else leave the text.
pub open spec fn replace_step_first(p: Seq<char>, s: Seq<char>, rep: Seq<char>) -> Seq<char> {
    if regex_compiles(p) {
        regex_replaced_first(p, s, rep)
    } else {
        s
    }
}

/// One global regex step: replace all matches when the pattern compiles, else leave the text.
pub open spec fn replace_step_all(p: Seq<char>, s: Seq<char>, rep: Seq<char>) -> Seq<char> {
    if regex_compiles(p) {
        regex_replaced_all(p, s, rep)
    } else {
        s
    }
}

/// The pattern of a leading timestamp.
pub open spec fn timestamp_prefix() -> Seq<char> {
    "^\\[?\\d{4}-\\d{2}-\\d{2}[T ]?\\d{2}:\\d{2}:\\d{2}\\]?\\s*"@
}

/// The pattern of a leading level marker.
pub open spec fn level_prefix() -> Seq<char> {
    "^\\[?(ERROR|WARN|INFO|DEBUG|TRACE)\\]?:?\\s*"@
}

/// The message of a line: the line without its leading timestamp and level
/// marker, trimmed.
pub open spec fn message_of(line: Seq<char>) -> Seq<char> {
    trim(replace_step_first(level_prefix(), replace_step_first(timestamp_prefix(), line, ""@), ""@))
}

fn step_first(pattern: &str, text: String, rep: &str) -> (r: String)
    ensures
        r@ == replace_step_first(pattern@, text@, rep@),
{
    match regex_replace_first(pattern, text.as_str(), rep) {
        Some(s) => s,
        None => text,
    }
}

fn step_all(pattern: &str, text: String, rep: &str) -> (r: String)
    ensures
        r@ == replace_step_all(pattern@, text@, rep@),
{
    match regex_replace_all(pattern, text.as_str(), rep) {
        Some(s) => s,
        None => text,
    }
}

/// The message of a log line (see `message_of`).
pub fn extract_message(content: &str) -> (r: String)
    ensures
        r@ == message_of(content@),
{
    let m = string_of(chars_of(content).as_slice());
    let m = step_first(
        "^\\[?\\d{4}-\\d{2}-\\d{2}[T ]?\\d{2}:\\d{2}:\\d{2}\\]?\\s*",
        m,
        "",
    );
    let m = step_first("^\\[?(ERROR|WARN|INFO|DEBUG|TRACE)\\]?:?\\s*", m, "");
    let t = trim_chars(chars_of(m.as_str()).as_slice());
    string_of(t.as_slice())
}

/// A stack-trace line: after leading white space it starts with `at ` or
/// `File "`, or it mentions `Stack trace:`, `Traceback` or `panicked at`.
pub open spec fn is_stacktrace(line: Seq<char>) -> bool {
    ||| has_prefix(trim_start(line), "at "@)
    ||| has_infix(line, "Stack trace:"@)
    ||| has_infix(line, "Traceback"@)
    ||| has_prefix(trim_start(line), "File \""@)
    ||| has_infix(line, "panicked at"@)
}

/// Whether a line belongs to a stack trace (see `is_stacktrace`).
pub fn is_stacktrace_line(content: &str) -> (r: bool)
    ensures
        r == is_stacktrace(content@),
{
    let cs = chars_of(content);
    let c = cs.as_slice();
    let mut a: usize = 0;
    while a < c.len() && is_space_char(c[a])
        invariant
            a <= c.len(),
            forall|k: int| 0 <= k < a ==> is_space(#[trigger] c@[k]),
        decreases c.len() - a,
    {
        a = a + 1;
    }
    proof {
        crate::text::lemma_leading_space_from(c@, a as int);
    }
    let mut rest: Vec<char> = Vec::new();
    let mut i: usize = a;
    while i < c.len()
        invariant
            a <= i <= c.len(),
            rest@ == c@.subrange(a as int, i as int),
        decreases c.len() - i,
    {
        rest.push(c[i]);
        assert(rest@ =~= c@.subrange(a as int, i + 1));
        i = i + 1;
    }
    assert(rest@ =~= trim_start(c@));
    starts_with(rest.as_slice(), chars_of("at ").as_slice()) || contains(
        c,
        chars_of("Stack trace:").as_slice(),
    ) || contains(c, chars_of("Traceback").as_slice()) || starts_with(
        rest.as_slice(),
        chars_of("File \"").as_slice(),
    ) || contains(c, chars_of("panicked at").as_slice())
}

/// The normalisation of an error message into a pattern: numbers become `N`,
/// paths `/PATH`, quoted texts `"..."` and hexadecimal addresses `0xADDR`,
/// in that order.
pub open spec fn error_pattern_of(message: Seq<char>) -> Seq<char> {
    let a = replace_step_all("\\b\\d+\\b"@, message, "N"@);
    let b = replace_step_all("/[\\w/.-]+"@, a, "/PATH"@);
    let c = replace_step_all("\"[^\"]*\""@, b, "\"...\""@);
    replace_step_all("0x[0-9a-fA-F]+"@, c, "0xADDR"@)
}

// ---------------------------------------------------------------------------
// The analyzer
// ---------------------------------------------------------------------------

/// Settings of a log analyzer.
pub struct AnalyzerSettings {
    pub max_lines: Option<usize>,
    pub errors_only: bool,
    pub include_stacktrace: bool,
    pub max_errors: Option<usize>,
    pub max_warnings: Option<usize>,
}

/// Log analyzer and its settings.
pub struct LogAnalyzer {
    max_lines: Option<usize>,
    errors_only: bool,
    include_stacktrace: bool,
    max_errors: Option<usize>,
    max_warnings: Option<usize>,
}

impl LogAnalyzer {
    /// The settings.
    pub closed spec fn settings(self) -> AnalyzerSettings {
        AnalyzerSettings {
            max_lines: self.max_lines,
            errors_only: self.errors_only,
            include_stacktrace: self.include_stacktrace,
            max_errors: self.max_errors,
            max_warnings: self.max_warnings,
        }
    }

    /// An analyzer with no limits that looks at every level.
    pub fn new() -> (r: LogAnalyzer)
        ensures
            r.settings() == (AnalyzerSettings {
                max_lines: None,
                errors_only: false,
                include_stacktrace: true,
                max_errors: None,
                max_warnings: None,
            }),
    {
        LogAnalyzer {
            max_lines: None,
            errors_only: false,
            include_stacktrace: true,
            max_errors: None,
            max_warnings: None,
        }
    }

    /// Reads at most `max_lines` lines.
    pub fn with_max_lines(self, max_lines: usize) -> (r: LogAnalyzer)
        ensures
            r.settings() == (AnalyzerSettings { max_lines: Some(max_lines), ..self.settings() }),
    {
        LogAnalyzer { max_lines: Some(max_lines), ..self }
    }

    /// Looks at errors only.
    pub fn errors_only(self) -> (r: LogAnalyzer)
        ensures
            r.settings() == (AnalyzerSettings { errors_only: true, ..self.settings() }),
    {
        LogAnalyzer { errors_only: true, ..self }
    }

    /// Keeps at most `max_errors` error entries.
    pub fn with_max_errors(self, max_errors: usize) -> (r: LogAnalyzer)
        ensures
            r.settings() == (AnalyzerSettings { max_errors: Some(max_errors), ..self.settings() }),
    {
        LogAnalyzer { max_errors: Some(max_errors), ..self }
    }

    /// Keeps at most `max_warnings` warning entries.
    pub fn with_max_warnings(self, max_warnings: usize) -> (r: LogAnalyzer)
        ensures
            r.settings() == (AnalyzerSettings {
                max_warnings: Some(max_warnings),
                ..self.settings()
            }),
    {
        LogAnalyzer { max_warnings: Some(max_warnings), ..self }
    }

    /// Normalises an error message into a pattern (see `error_pattern_of`).
    pub fn extract_error_pattern(&self, message: &str) -> (r: String)
        ensures
            r@ == error_pattern_of(message@),
    {
        let p = string_of(chars_of(message).as_slice());
        let p = step_all("\\b\\d+\\b", p, "N");
        let p = step_all("/[\\w/.-]+", p, "/PATH");
        let p = step_all("\"[^\"]*\"", p, "\"...\"");
        step_all("0x[0-9a-fA-F]+", p, "0xADDR")
    }
}

impl Default for LogAnalyzer {
    fn default() -> (r: LogAnalyzer)
        ensures
            r.settings() == (AnalyzerSettings {
                max_lines: None,
                errors_only: false,
                include_stacktrace: true,
                max_errors: None,
                max_warnings: None,
            }),
    {
        LogAnalyzer::new()
    }
}

// ---------------------------------------------------------------------------
// Timestamps and entries
// ---------------------------------------------------------------------------

/// Whether a character is a square bracket.
pub open spec fn is_bracket(c: char) -> bool {
    c == '[' || c == ']'
}

/// How many brackets start the text.
pub open spec fn leading_brackets(s: Seq<char>) -> nat
    decreases s.len(),
{
    if s.len() > 0 && is_bracket(s[0]) {
        1 + leading_brackets(s.drop_first())
    } else {
        0
    }
}

/// How many brackets end the text.
pub open spec fn trailing_brackets(s: Seq<char>) -> nat
    decreases s.len(),
{
    if s.len() > 0 && is_bracket(s.last()) {
        1 + trailing_brackets(s.drop_last())
    } else {
        0
    }
}

/// The text without the brackets at its ends (std `str::trim_matches`).
pub open spec fn trim_brackets(s: Seq<char>) -> Seq<char> {
    let a = leading_brackets(s);
    let rest = s.skip(a as int);
    rest.take(rest.len() - trailing_brackets(rest))
}

proof fn lemma_leading_brackets(s: Seq<char>, i: int)
    requires
        0 <= i <= s.len(),
        forall|k: int| 0 <= k < i ==> is_bracket(#[trigger] s[k]),
        i == s.len() || !is_bracket(s[i]),
    ensures
        leading_brackets(s) == i,
    decreases i,
{
    if i > 0 {
        lemma_leading_brackets(s.drop_first(), i - 1);
    }
}

proof fn lemma_trailing_brackets(s: Seq<char>, n: int)
    requires
        0 <= n <= s.len(),
        forall|k: int| s.len() - n <= k < s.len() ==> is_bracket(#[trigger] s[k]),
        n == s.len() || !is_bracket(s[s.len() - 1 - n]),
    ensures
        trailing_brackets(s) == n,
    decreases n,
{
    if n > 0 {
        lemma_trailing_brackets(s.drop_last(), n - 1);
    }
}

fn strip_brackets(s: &str) -> (r: String)
    ensures
        r@ == trim_brackets(s@),
{
    let cs = chars_of(s);
    let c = cs.as_slice();
    let mut a: usize = 0;
    while a < c.len() && (c[a] == '[' || c[a] == ']')
        invariant
            a <= c.len(),
            forall|k: int| 0 <= k < a ==> is_bracket(#[trigger] c@[k]),
        decreases c.len() - a,
    {
        a = a + 1;
    }
    proof {
        lemma_leading_brackets(c@, a as int);
    }
    let mut rest: Vec<char> = Vec::new();
    let mut i: usize = a;
    while i < c.len()
        invariant
            a <= i <= c.len(),
            rest@ == c@.subrange(a as int, i as int),
        decreases c.len() - i,
    {
        rest.push(c[i]);
        assert(rest@ =~= c@.subrange(a as int, i + 1));
        i = i + 1;
    }
    assert(rest@ =~= c@.skip(a as int));
    let mut n: usize = 0;
    while n < rest.len() && (rest[rest.len() - 1 - n] == '[' || rest[rest.len() - 1 - n] == ']')
        invariant
            n <= rest@.len(),
            forall|k: int| rest@.len() - n <= k < rest@.len() ==> is_bracket(#[trigger] rest@[k]),
        decreases rest@.len() - n,
    {
        n = n + 1;
    }
    proof {
        lemma_trailing_brackets(rest@, n as int);
    }
    let keep = rest.len() - n;
    let mut out: Vec<char> = Vec::new();
    let mut j: usize = 0;
    while j < keep
        invariant
            j <= keep,
            keep <= rest@.len(),
            out@ == rest@.take(j as int),
        decreases keep - j,
    {
        out.push(rest[j]);
        assert(out@ =~= rest@.take(j + 1));
        j = j + 1;
    }
    string_of(out.as_slice())
}

/// The timestamp patterns tried in order, each with the format it is read with.
pub open spec fn timestamp_patterns() -> Seq<(Seq<char>, Seq<char>)> {
    seq![
        ("\\d{4}-\\d{2}-\\d{2}T\\d{2}:\\d{2}:\\d{2}"@, "%Y-%m-%dT%H:%M:%S"@),
        ("\\d{4}-\\d{2}-\\d{2} \\d{2}:\\d{2}:\\d{2}"@, "%Y-%m-%d %H:%M:%S"@),
        ("\\[\\d{4}-\\d{2}-\\d{2} \\d{2}:\\d{2}:\\d{2}\\]"@, "%Y-%m-%d %H:%M:%S"@),
    ]
}

/// The timestamp of a line: for the first pattern that (compiling) is found
/// in the line and whose match, without brackets, parses with its format.
pub open spec fn timestamp_from(ps: Seq<(Seq<char>, Seq<char>)>, line: Seq<char>) -> Option<i64>
    decreases ps.len(),
{
    if ps.len() == 0 {
        None
    } else {
        let found = if regex_compiles(ps[0].0) {
            regex_found(ps[0].0, line)
        } else {
            None
        };
        match found {
            Some(m) => match naive_utc_millis(trim_brackets(m), ps[0].1) {
                Some(t) => Some(t),
                None => timestamp_from(ps.drop_first(), line),
            },
            None => timestamp_from(ps.drop_first(), line),
        }
    }
}

/// The timestamp of a log line (see `timestamp_from`).
pub fn extract_timestamp(content: &str) -> (r: Option<i64>)
    ensures
        r == timestamp_from(timestamp_patterns(), content@),
{
    let pats: Vec<(&str, &str)> = vec![
        ("\\d{4}-\\d{2}-\\d{2}T\\d{2}:\\d{2}:\\d{2}", "%Y-%m-%dT%H:%M:%S"),
        ("\\d{4}-\\d{2}-\\d{2} \\d{2}:\\d{2}:\\d{2}", "%Y-%m-%d %H:%M:%S"),
        ("\\[\\d{4}-\\d{2}-\\d{2} \\d{2}:\\d{2}:\\d{2}\\]", "%Y-%m-%d %H:%M:%S"),
    ];
    let ghost pv = pats@.map_values(|p: (&str, &str)| (p.0@, p.1@));
    assert(pv =~= timestamp_patterns());
    assert(pv.skip(0) =~= pv);
    let mut i: usize = 0;
    while i < pats.len()
        invariant
            i <= pats@.len(),
            pv == pats@.map_values(|p: (&str, &str)| (p.0@, p.1@)),
            pv == timestamp_patterns(),
            timestamp_from(pv.skip(i as int), content@) == timestamp_from(pv, content@),
        decreases pats@.len() - i,
    {
        let (p, f) = pats[i];
        proof {
            assert(pv.skip(i as int)[0] == (p@, f@));
            assert(pv.skip(i as int).drop_first() =~= pv.skip(i + 1));
        }
        match regex_find(p, content) {
            Some(Some(m)) => {
                let t = strip_brackets(m.as_str());
                match parse_naive_utc(t.as_str(), f) {
                    Some(ms) => {
                        return Some(ms);
                    },
                    None => {},
                }
            },
            _ => {},
        }
        i = i + 1;
    }
    assert(pv.skip(i as int).len() == 0);
    None
}

/// One parsed log line.
#[derive(Debug, Clone)]
pub struct LogEntry {
    /// Its line number, from 1.
    pub line_number: usize,
    /// The line as read.
    pub raw_content: String,
    /// Its level.
    pub level: LogLevel,
    /// Its timestamp, in milliseconds since the Unix epoch, when it has one.
    pub timestamp_ms: Option<i64>,
    /// The message without timestamp and level.
    pub message: String,
    /// Whether it belongs to a stack trace.
    pub is_stacktrace: bool,
}

/// `e` is the entry of line `n` with text `line`.
pub open spec fn entry_of(e: LogEntry, n: int, line: Seq<char>) -> bool {
    &&& e.line_number == n
    &&& e.raw_content@ == line
    &&& e.level == detected_level(level_markers(), line)
    &&& e.timestamp_ms == timestamp_from(timestamp_patterns(), line)
    &&& e.message@ == message_of(line)
    &&& e.is_stacktrace == is_stacktrace(line)
}

impl LogEntry {
    /// The entry of line `line_number`.
    pub fn new(line_number: usize, raw_content: String) -> (r: LogEntry)
        ensures
            entry_of(r, line_number as int, raw_content@),
    {
        let level = detect_level(raw_content.as_str());
        let timestamp_ms = extract_timestamp(raw_content.as_str());
        let message = extract_message(raw_content.as_str());
        let is_stacktrace = is_stacktrace_line(raw_content.as_str());
        LogEntry { line_number, raw_content, level, timestamp_ms, message, is_stacktrace }
    }
}

// ---------------------------------------------------------------------------
// Analysis
// ---------------------------------------------------------------------------

/// The non-blank lines, each with its line number (its position from 1).
pub open spec fn nonblank(lines: Seq<Seq<char>>) -> Seq<(int, Seq<char>)>
    decreases lines.len(),
{
    if lines.len() == 0 {
        Seq::empty()
    } else {
        let r = nonblank(lines.drop_last());
        if trim(lines.last()).len() > 0 {
            r.push((lines.len() as int, lines.last()))
        } else {
            r
        }
    }
}

/// The level of a numbered line.
pub open spec fn level_at(c: (int, Seq<char>)) -> LogLevel {
    detected_level(level_markers(), c.1)
}

/// The numbered lines an analysis counts: the non-blank lines, or only
/// those of level Error when `errors_only`.
pub open spec fn considered(lines: Seq<Seq<char>>, errors_only: bool) -> Seq<(int, Seq<char>)>
    decreases lines.len(),
{
    if lines.len() == 0 {
        Seq::empty()
    } else {
        let r = considered(lines.drop_last(), errors_only);
        if trim(lines.last()).len() > 0 && (!errors_only || level_at((lines.len() as int, lines.last())) == LogLevel::Error) {
            r.push((lines.len() as int, lines.last()))
        } else {
            r
        }
    }
}

/// The numbered lines of level `l`, in order.
pub open spec fn of_level(cs: Seq<(int, Seq<char>)>, l: LogLevel) -> Seq<(int, Seq<char>)>
    decreases cs.len(),
{
    if cs.len() == 0 {
        Seq::empty()
    } else {
        let r = of_level(cs.drop_last(), l);
        if level_at(cs.last()) == l {
            r.push(cs.last())
        } else {
            r
        }
    }
}

/// At most `max` of the items (all without `max`).
pub open spec fn capped<A>(s: Seq<A>, max: Option<usize>) -> Seq<A> {
    match max {
        Some(m) => if s.len() <= m { s } else { s.take(m as int) },
        None => s,
    }
}

/// The entries are those of the numbered lines, in order.
pub open spec fn entries_are(es: Seq<LogEntry>, want: Seq<(int, Seq<char>)>) -> bool {
    &&& es.len() == want.len()
    &&& forall|i: int| 0 <= i < es.len() ==> entry_of(#[trigger] es[i], want[i].0, want[i].1)
}

/// The error patterns of the error lines, in order.
pub open spec fn pattern_keys(cs: Seq<(int, Seq<char>)>) -> Seq<Seq<char>> {
    of_level(cs, LogLevel::Error).map_values(|c: (int, Seq<char>)| error_pattern_of(message_of(c.1)))
}

/// How often `k` occurs among the keys.
pub open spec fn key_count(keys: Seq<Seq<char>>, k: Seq<char>) -> nat
    decreases keys.len(),
{
    if keys.len() == 0 {
        0
    } else {
        key_count(keys.drop_last(), k) + if keys.last() == k {
            1nat
        } else {
            0nat
        }
    }
}

/// The tally lists each key once with the number of its occurrences.
pub open spec fn key_tally(t: Seq<(String, usize)>, keys: Seq<Seq<char>>) -> bool {
    &&& forall|i: int| 0 <= i < t.len() ==> #[trigger] t[i].1 == key_count(keys, t[i].0@)
    &&& forall|i: int, j: int| 0 <= i < j < t.len() ==> #[trigger] t[i].0@ != #[trigger] t[j].0@
    &&& forall|k: Seq<char>| key_count(keys, k) > 0 ==> exists|i: int| 0 <= i < t.len() && #[trigger] t[i].0@ == k
}

/// How many of the numbered lines have level `l`.
pub open spec fn level_count(cs: Seq<(int, Seq<char>)>, l: LogLevel) -> nat {
    of_level(cs, l).len()
}

/// The tally lists each level of the lines once with its count.
pub open spec fn level_tally(t: Seq<(LogLevel, usize)>, cs: Seq<(int, Seq<char>)>) -> bool {
    &&& forall|i: int| 0 <= i < t.len() ==> #[trigger] t[i].1 == level_count(cs, t[i].0)
    &&& forall|i: int, j: int| 0 <= i < j < t.len() ==> #[trigger] t[i].0 != #[trigger] t[j].0
    &&& forall|l: LogLevel| level_count(cs, l) > 0 ==> exists|i: int| 0 <= i < t.len() && #[trigger] t[i].0 == l
}

/// The timestamps of the numbered lines that have one, in order.
pub open spec fn stamps(cs: Seq<(int, Seq<char>)>) -> Seq<i64>
    decreases cs.len(),
{
    if cs.len() == 0 {
        Seq::empty()
    } else {
        let r = stamps(cs.drop_last());
        match timestamp_from(timestamp_patterns(), cs.last().1) {
            Some(t) => r.push(t),
            None => r,
        }
    }
}

/// The earliest and latest of the instants, if there are any.
pub open spec fn span(ts: Seq<i64>) -> Option<(i64, i64)>
    decreases ts.len(),
{
    if ts.len() == 0 {
        None
    } else {
        let t = ts.last();
        match span(ts.drop_last()) {
            Some((lo, hi)) => Some((if t < lo { t } else { lo }, if t > hi { t } else { hi })),
            None => Some((t, t)),
        }
    }
}

/// The result of analysing lines.
#[derive(Debug, Clone)]
pub struct LogAnalysis {
    /// Non-blank lines read.
    pub total_lines: usize,
    /// Lines per level, each level once, in the order first seen.
    pub level_counts: Vec<(LogLevel, usize)>,
    /// The error entries kept.
    pub errors: Vec<LogEntry>,
    /// The warning entries kept.
    pub warnings: Vec<LogEntry>,
    /// Error lines per error pattern, each pattern once, in the order first seen.
    pub error_patterns: Vec<(String, usize)>,
    /// The earliest and latest timestamps.
    pub time_range: Option<(i64, i64)>,
}

/// `a` is the analysis of `lines`: `total` non-blank lines, the lines `cs`
/// counted, the errors and warnings kept up to their caps, and (when
/// `with_time`) the span of the timestamps.
pub open spec fn analysis_of(
    a: LogAnalysis,
    lines: Seq<Seq<char>>,
    errors_only: bool,
    max_errors: Option<usize>,
    max_warnings: Option<usize>,
    with_time: bool,
) -> bool {
    let cs = considered(lines, errors_only);
    &&& a.total_lines == nonblank(lines).len()
    &&& level_tally(a.level_counts@, cs)
    &&& entries_are(a.errors@, capped(of_level(cs, LogLevel::Error), max_errors))
    &&& entries_are(a.warnings@, capped(of_level(cs, LogLevel::Warn), max_warnings))
    &&& key_tally(a.error_patterns@, pattern_keys(cs))
    &&& a.time_range == if with_time { span(stamps(cs)) } else { None }
}

proof fn lemma_key_count_bound(keys: Seq<Seq<char>>, k: Seq<char>)
    ensures
        key_count(keys, k) <= keys.len(),
    decreases keys.len(),
{
    if keys.len() > 0 {
        lemma_key_count_bound(keys.drop_last(), k);
    }
}

proof fn lemma_of_level_len(cs: Seq<(int, Seq<char>)>, l: LogLevel)
    ensures
        of_level(cs, l).len() <= cs.len(),
    decreases cs.len(),
{
    if cs.len() > 0 {
        lemma_of_level_len(cs.drop_last(), l);
    }
}

proof fn lemma_nonblank_len(lines: Seq<Seq<char>>)
    ensures
        nonblank(lines).len() <= lines.len(),
        considered(lines, true).len() <= lines.len(),
        considered(lines, false).len() <= lines.len(),
    decreases lines.len(),
{
    if lines.len() > 0 {
        lemma_nonblank_len(lines.drop_last());
    }
}

/// Counts one more occurrence of `key`.
fn tally_key(t: &mut Vec<(String, usize)>, key: String, Ghost(keys): Ghost<Seq<Seq<char>>>)
    requires
        key_tally(old(t)@, keys),
        keys.len() < usize::MAX,
    ensures
        key_tally(final(t)@, keys.push(key@)),
{
    let ghost k2 = keys.push(key@);
    proof {
        assert(k2.drop_last() =~= keys);
    }
    let mut i: usize = 0;
    while i < t.len()
        invariant
            i <= t@.len(),
            t@ == old(t)@,
            key_tally(t@, keys),
            keys.len() < usize::MAX,
            k2 == keys.push(key@),
            k2.drop_last() == keys,
            forall|j: int| 0 <= j < i ==> #[trigger] t@[j].0@ != key@,
        decreases t@.len() - i,
    {
        if crate::text::chars_equal(chars_of(t[i].0.as_str()).as_slice(), chars_of(key.as_str()).as_slice()) {
            let c = t[i].1;
            proof {
                lemma_key_count_bound(keys, key@);
            }
            let k = t[i].0.clone();
            let ghost before = t@;
            t.set(i, (k, c + 1));
            proof {
                assert forall|j: int| 0 <= j < t@.len() implies #[trigger] t@[j].1 == key_count(k2, t@[j].0@) by {
                    if j != i {
                        assert(before[j].0@ != before[i as int].0@);
                    }
                }
                assert forall|a: int, b: int| 0 <= a < b < t@.len() implies #[trigger] t@[a].0@ != #[trigger] t@[b].0@ by {
                    assert(before[a].0@ != before[b].0@);
                }
                assert forall|kk: Seq<char>| key_count(k2, kk) > 0 implies exists|j: int| 0 <= j < t@.len() && #[trigger] t@[j].0@ == kk by {
                    if kk == key@ {
                        assert(t@[i as int].0@ == kk);
                    } else {
                        assert(key_count(keys, kk) > 0);
                        let j = choose|j: int| 0 <= j < before.len() && #[trigger] before[j].0@ == kk;
                        assert(t@[j].0@ == kk);
                    }
                }
            }
            return;
        }
        i = i + 1;
    }
    proof {
        if key_count(keys, key@) > 0 {
            let j = choose|j: int| 0 <= j < t@.len() && #[trigger] t@[j].0@ == key@;
            assert(t@[j].0@ != key@);
        }
    }
    let ghost before = t@;
    let ghost kv = key@;
    t.push((key, 1));
    proof {
        assert forall|j: int| 0 <= j < t@.len() implies #[trigger] t@[j].1 == key_count(k2, t@[j].0@) by {
            if j < before.len() {
                assert(before[j].0@ != kv);
            }
        }
        assert forall|a: int, b: int| 0 <= a < b < t@.len() implies #[trigger] t@[a].0@ != #[trigger] t@[b].0@ by {
            if b < before.len() {
                assert(before[a].0@ != before[b].0@);
            } else {
                assert(before[a].0@ != kv);
            }
        }
        assert forall|kk: Seq<char>| key_count(k2, kk) > 0 implies exists|j: int| 0 <= j < t@.len() && #[trigger] t@[j].0@ == kk by {
            if kk == kv {
                assert(t@[before.len() as int].0@ == kk);
            } else {
                assert(key_count(keys, kk) > 0);
                let j = choose|j: int| 0 <= j < before.len() && #[trigger] before[j].0@ == kk;
                assert(t@[j].0@ == kk);
            }
        }
    }
}

/// Counts one more line of level `l`, the last of `cs`.
fn tally_level(t: &mut Vec<(LogLevel, usize)>, l: LogLevel, Ghost(cs): Ghost<Seq<(int, Seq<char>)>>, Ghost(c): Ghost<(int, Seq<char>)>)
    requires
        level_tally(old(t)@, cs),
        level_at(c) == l,
        cs.len() < usize::MAX,
    ensures
        level_tally(final(t)@, cs.push(c)),
{
    let ghost c2 = cs.push(c);
    proof {
        assert(c2.drop_last() =~= cs);
        assert forall|u: LogLevel| #[trigger] level_count(c2, u) == level_count(cs, u) + if u == l {
            1nat
        } else {
            0nat
        } by {
            assert(c2.drop_last() =~= cs);
        }
        assert forall|u: LogLevel| #[trigger] level_count(cs, u) <= cs.len() by {
            lemma_of_level_len(cs, u);
        }
    }
    let mut i: usize = 0;
    let mut hit = false;
    while i < t.len() && !hit
        invariant
            i <= t@.len(),
            t@ == old(t)@,
            hit ==> i < t@.len() && t@[i as int].0 == l,
            forall|j: int| 0 <= j < i ==> #[trigger] t@[j].0 != l,
        decreases t@.len() - i + (if hit { 0int } else { 1int }),
    {
        if t[i].0 == l {
            hit = true;
        } else {
            i = i + 1;
        }
    }
    if hit {
        let n = t[i].1;
        let ghost before = t@;
        t.set(i, (l, n + 1));
        proof {
            assert forall|a: int| 0 <= a < t@.len() implies #[trigger] t@[a].1 == level_count(c2, t@[a].0) by {
                if a != i {
                    assert(before[a].0 != before[i as int].0);
                }
            }
            assert forall|a: int, b: int| 0 <= a < b < t@.len() implies #[trigger] t@[a].0 != #[trigger] t@[b].0 by {
                assert(before[a].0 != before[b].0);
            }
            assert forall|u: LogLevel| level_count(c2, u) > 0 implies exists|a: int| 0 <= a < t@.len() && #[trigger] t@[a].0 == u by {
                if u == l {
                    assert(t@[i as int].0 == u);
                } else {
                    assert(level_count(cs, u) > 0);
                    let a = choose|a: int| 0 <= a < before.len() && #[trigger] before[a].0 == u;
                    assert(t@[a].0 == u);
                }
            }
        }
    } else {
        proof {
            if level_count(cs, l) > 0 {
                let a = choose|a: int| 0 <= a < t@.len() && #[trigger] t@[a].0 == l;
                assert(t@[a].0 != l);
            }
        }
        let ghost before = t@;
        t.push((l, 1));
        proof {
            assert forall|a: int| 0 <= a < t@.len() implies #[trigger] t@[a].1 == level_count(c2, t@[a].0) by {
                if a < before.len() {
                    assert(before[a].0 != l);
                }
            }
            assert forall|a: int, b: int| 0 <= a < b < t@.len() implies #[trigger] t@[a].0 != #[trigger] t@[b].0 by {
                if b < before.len() {
                    assert(before[a].0 != before[b].0);
                } else {
                    assert(before[a].0 != l);
                }
            }
            assert forall|u: LogLevel| level_count(c2, u) > 0 implies exists|a: int| 0 <= a < t@.len() && #[trigger] t@[a].0 == u by {
                if u == l {
                    assert(t@[before.len() as int].0 == u);
                } else {
                    assert(level_count(cs, u) > 0);
                    let a = choose|a: int| 0 <= a < before.len() && #[trigger] before[a].0 == u;
                    assert(t@[a].0 == u);
                }
            }
        }
    }
}

/// The views of the lines.
pub open spec fn line_views(lines: Seq<String>) -> Seq<Seq<char>> {
    lines.map_values(|s: String| s@)
}

impl LogAnalysis {
    /// An empty analysis.
    pub fn new() -> (r: LogAnalysis)
        ensures
            r.total_lines == 0,
            r.level_counts@.len() == 0,
            r.errors@.len() == 0,
            r.warnings@.len() == 0,
            r.error_patterns@.len() == 0,
            r.time_range is None,
    {
        LogAnalysis {
            total_lines: 0,
            level_counts: Vec::new(),
            errors: Vec::new(),
            warnings: Vec::new(),
            error_patterns: Vec::new(),
            time_range: None,
        }
    }

    fn count_of(&self, l: LogLevel) -> (r: usize)
        ensures
            (exists|i: int| 0 <= i < self.level_counts@.len() && #[trigger] self.level_counts@[i].0 == l
                && self.level_counts@[i].1 == r) || (r == 0 && forall|i: int|
                0 <= i < self.level_counts@.len() ==> #[trigger] self.level_counts@[i].0 != l),
    {
        let mut i: usize = 0;
        while i < self.level_counts.len()
            invariant
                i <= self.level_counts@.len(),
                forall|j: int| 0 <= j < i ==> #[trigger] self.level_counts@[j].0 != l,
            decreases self.level_counts@.len() - i,
        {
            if self.level_counts[i].0 == l {
                return self.level_counts[i].1;
            }
            i = i + 1;
        }
        0
    }

    /// Lines of level Error (0 when none).
    pub fn error_count(&self) -> (r: usize)
        ensures
            (exists|i: int| 0 <= i < self.level_counts@.len() && #[trigger] self.level_counts@[i].0
                == LogLevel::Error && self.level_counts@[i].1 == r) || (r == 0 && forall|i: int|
                0 <= i < self.level_counts@.len() ==> #[trigger] self.level_counts@[i].0 != LogLevel::Error),
    {
        self.count_of(LogLevel::Error)
    }

    /// Lines of level Warn (0 when none).
    pub fn warning_count(&self) -> (r: usize)
        ensures
            (exists|i: int| 0 <= i < self.level_counts@.len() && #[trigger] self.level_counts@[i].0
                == LogLevel::Warn && self.level_counts@[i].1 == r) || (r == 0 && forall|i: int|
                0 <= i < self.level_counts@.len() ==> #[trigger] self.level_counts@[i].0 != LogLevel::Warn),
    {
        self.count_of(LogLevel::Warn)
    }

    /// Lines of level Info (0 when none).
    pub fn info_count(&self) -> (r: usize)
        ensures
            (exists|i: int| 0 <= i < self.level_counts@.len() && #[trigger] self.level_counts@[i].0
                == LogLevel::Info && self.level_counts@[i].1 == r) || (r == 0 && forall|i: int|
                0 <= i < self.level_counts@.len() ==> #[trigger] self.level_counts@[i].0 != LogLevel::Info),
    {
        self.count_of(LogLevel::Info)
    }
}

impl LogAnalyzer {
    /// Analyses the first `limit` lines.
    fn analyze_prefix(&self, lines: &[String], limit: usize, with_time: bool) -> (a: LogAnalysis)
        requires
            limit <= lines@.len(),
            lines@.len() < usize::MAX,
        ensures
            analysis_of(
                a,
                line_views(lines@).take(limit as int),
                self.settings().errors_only,
                self.settings().max_errors,
                self.settings().max_warnings,
                with_time,
            ),
    {
        let ghost lv = line_views(lines@);
        let ghost eo = self.errors_only;
        let mut total: usize = 0;
        let mut levels: Vec<(LogLevel, usize)> = Vec::new();
        let mut errors: Vec<LogEntry> = Vec::new();
        let mut warnings: Vec<LogEntry> = Vec::new();
        let mut patterns: Vec<(String, usize)> = Vec::new();
        let mut range: Option<(i64, i64)> = None;
        let mut i: usize = 0;
        proof {
            assert(lv.take(0) =~= Seq::<Seq<char>>::empty());
            assert(pattern_keys(Seq::<(int, Seq<char>)>::empty()) =~= Seq::<Seq<char>>::empty());
        }
        while i < limit
            invariant
                i <= limit,
                limit <= lines@.len(),
                lines@.len() < usize::MAX,
                lv == line_views(lines@),
                eo == self.errors_only,
                ({
                    let cs = considered(lv.take(i as int), eo);
                    &&& total == nonblank(lv.take(i as int)).len()
                    &&& cs.len() <= i
                    &&& level_tally(levels@, cs)
                    &&& entries_are(errors@, capped(of_level(cs, LogLevel::Error), self.max_errors))
                    &&& entries_are(warnings@, capped(of_level(cs, LogLevel::Warn), self.max_warnings))
                    &&& key_tally(patterns@, pattern_keys(cs))
                    &&& range == span(stamps(cs))
                }),
            decreases limit - i,
        {
            let ghost p = lv.take(i as int);
            let ghost q = lv.take(i + 1);
            let ghost cs = considered(p, eo);
            proof {
                assert(q.drop_last() =~= p);
                assert(q.last() == lines@[i as int]@);
                assert(q.len() == i + 1);
                lemma_nonblank_len(p);
            }
            let line = &lines[i];
            let t = trim_chars(chars_of(line.as_str()).as_slice());
            if t.len() > 0 {
                total = total + 1;
                let entry = LogEntry::new(i + 1, line.clone());
                let ghost c = ((i + 1) as int, lines@[i as int]@);
                if !(self.errors_only && entry.level != LogLevel::Error) {
                    let ghost cs2 = cs.push(c);
                    proof {
                        assert(considered(q, eo) == cs2);
                        assert(cs2.drop_last() =~= cs);
                        assert(cs2.last() == c);
                        lemma_of_level_len(cs, LogLevel::Error);
                    }
                    tally_level(&mut levels, entry.level, Ghost(cs), Ghost(c));
                    match entry.timestamp_ms {
                        Some(ts) => {
                            range = match range {
                                Some((lo, hi)) => Some((if ts < lo { ts } else { lo }, if ts > hi { ts } else { hi })),
                                None => Some((ts, ts)),
                            };
                            proof {
                                assert(stamps(cs2) == stamps(cs).push(ts));
                                assert(stamps(cs).push(ts).drop_last() =~= stamps(cs));
                            }
                        },
                        None => {
                            proof {
                                assert(stamps(cs2) == stamps(cs));
                            }
                        },
                    }
                    match entry.level {
                        LogLevel::Error => {
                            let pat = self.extract_error_pattern(entry.message.as_str());
                            proof {
                                assert(of_level(cs2, LogLevel::Error) == of_level(cs, LogLevel::Error).push(c));
                                assert(of_level(cs2, LogLevel::Warn) == of_level(cs, LogLevel::Warn));
                                assert(pattern_keys(cs2) =~= pattern_keys(cs).push(pat@));
                            }
                            tally_key(&mut patterns, pat, Ghost(pattern_keys(cs)));
                            let keep = match self.max_errors {
                                Some(m) => errors.len() < m,
                                None => true,
                            };
                            let ghost before = errors@;
                            let ghost olds = of_level(cs, LogLevel::Error);
                            if keep {
                                errors.push(entry);
                                proof {
                                    assert(capped(olds.push(c), self.max_errors) =~= capped(olds, self.max_errors).push(c));
                                }
                            } else {
                                proof {
                                    assert(capped(olds.push(c), self.max_errors) =~= capped(olds, self.max_errors));
                                }
                            }
                        },
                        LogLevel::Warn => {
                            proof {
                                assert(of_level(cs2, LogLevel::Warn) == of_level(cs, LogLevel::Warn).push(c));
                                assert(of_level(cs2, LogLevel::Error) == of_level(cs, LogLevel::Error));
                                assert(pattern_keys(cs2) == pattern_keys(cs));
                                lemma_of_level_len(cs, LogLevel::Warn);
                            }
                            let keep = match self.max_warnings {
                                Some(m) => warnings.len() < m,
                                None => true,
                            };
                            let ghost olds = of_level(cs, LogLevel::Warn);
                            if keep {
                                warnings.push(entry);
                                proof {
                                    assert(capped(olds.push(c), self.max_warnings) =~= capped(olds, self.max_warnings).push(c));
                                }
                            } else {
                                proof {
                                    assert(capped(olds.push(c), self.max_warnings) =~= capped(olds, self.max_warnings));
                                }
                            }
                        },
                        _ => {
                            proof {
                                assert(of_level(cs2, LogLevel::Warn) == of_level(cs, LogLevel::Warn));
                                assert(of_level(cs2, LogLevel::Error) == of_level(cs, LogLevel::Error));
                                assert(pattern_keys(cs2) == pattern_keys(cs));
                            }
                        },
                    }
                } else {
                    proof {
                        assert(considered(q, eo) == cs);
                    }
                }
            } else {
                proof {
                    assert(considered(q, eo) == cs);
                }
            }
            i = i + 1;
        }
        LogAnalysis {
            total_lines: total,
            level_counts: levels,
            errors,
            warnings,
            error_patterns: patterns,
            time_range: if with_time { range } else { None },
        }
    }

    /// Analyses the lines of a log file: at most `max_lines` of them, with
    /// the span of their timestamps.
    pub fn analyze_file_lines(&self, lines: &[String]) -> (a: LogAnalysis)
        requires
            lines@.len() < usize::MAX,
        ensures
            analysis_of(
                a,
                match self.settings().max_lines {
                    Some(m) => if m < lines@.len() { line_views(lines@).take(m as int) } else { line_views(lines@) },
                    None => line_views(lines@),
                },
                self.settings().errors_only,
                self.settings().max_errors,
                self.settings().max_warnings,
                true,
            ),
    {
        let limit = match self.max_lines {
            Some(m) => if m < lines.len() { m } else { lines.len() },
            None => lines.len(),
        };
        proof {
            assert(line_views(lines@).take(lines@.len() as int) =~= line_views(lines@));
        }
        self.analyze_prefix(lines, limit, true)
    }

    /// Analyses the last lines of a log (see `tail_lines`), without the span
    /// of their timestamps.
    pub fn analyze_tail_lines(&self, lines: &[String]) -> (a: LogAnalysis)
        requires
            lines@.len() < usize::MAX,
        ensures
            analysis_of(
                a,
                line_views(lines@),
                self.settings().errors_only,
                self.settings().max_errors,
                self.settings().max_warnings,
                false,
            ),
    {
        proof {
            assert(line_views(lines@).take(lines@.len() as int) =~= line_views(lines@));
        }
        self.analyze_prefix(lines, lines.len(), false)
    }
}

/// The last `n` of the lines, as a buffer of `n` lines keeps them (with
/// `n == 0`, the last line).
pub open spec fn tail_of(lines: Seq<String>, n: nat) -> Seq<String> {
    if lines.len() == 0 {
        lines
    } else if n == 0 {
        lines.subrange(lines.len() - 1, lines.len() as int)
    } else if lines.len() <= n {
        lines
    } else {
        lines.subrange(lines.len() - n, lines.len() as int)
    }
}

/// Keeps the last `n` lines (see `tail_of`).
pub fn tail_lines(lines: Vec<String>, n: usize) -> (r: Vec<String>)
    ensures
        r@ == tail_of(lines@, n as nat),
{
    let len = lines.len();
    if len == 0 {
        return lines;
    }
    let keep = if n == 0 { 1 } else if len <= n { len } else { n };
    let mut rest = lines;
    let ghost all = rest@;
    while rest.len() > keep
        invariant
            keep <= all.len(),
            keep >= 1,
            rest@.len() >= keep,
            rest@.len() <= all.len(),
            rest@ == all.subrange(all.len() - rest@.len(), all.len() as int),
        decreases rest.len(),
    {
        let ghost before = rest@;
        let _ = rest.remove(0);
        assert(rest@ =~= all.subrange(all.len() - rest@.len(), all.len() as int)) by {
            assert(rest@ =~= before.subrange(1, before.len() as int));
        }
    }
    proof {
        if all.len() <= n {
            assert(rest@ =~= all);
        }
    }
    rest
}

/// Counts never increase along the sequence.
pub open spec fn counts_descending(s: Seq<(String, usize)>) -> bool {
    forall|i: int, j: int| 0 <= i < j < s.len() ==> s[i].1 >= s[j].1
}

/// Orders pattern counts by count, largest first (equal counts keep their
/// order).
fn sort_counts(v: Vec<(String, usize)>) -> (r: Vec<(String, usize)>)
    ensures
        counts_descending(r@),
        r@.to_multiset() == v@.to_multiset(),
{
    let mut rest = v;
    let mut out: Vec<(String, usize)> = Vec::new();
    let ghost all = rest@;
    proof {
        broadcast use vstd::seq_lib::group_to_multiset_ensures;
        broadcast use vstd::multiset::group_multiset_axioms;
        assert(out@.to_multiset() =~= Multiset::<(String, usize)>::empty());
        assert(out@.to_multiset().add(rest@.to_multiset()) =~= all.to_multiset());
    }
    while rest.len() > 0
        invariant
            counts_descending(out@),
            out@.to_multiset().add(rest@.to_multiset()) == all.to_multiset(),
        decreases rest.len(),
    {
        let ghost before_rest = rest@;
        let x = rest.remove(0);
        let mut pos: usize = 0;
        while pos < out.len() && out[pos].1 >= x.1
            invariant
                pos <= out@.len(),
                forall|j: int| 0 <= j < pos ==> out@[j].1 >= x.1,
            decreases out@.len() - pos,
        {
            pos = pos + 1;
        }
        let ghost before = out@;
        out.insert(pos, x);
        proof {
            broadcast use vstd::seq_lib::group_to_multiset_ensures;
            broadcast use vstd::multiset::group_multiset_axioms;
            assert(before_rest.remove(0) == rest@);
            assert(before_rest[0] == x);
            assert(rest@.to_multiset() == before_rest.to_multiset().remove(x));
            assert(before_rest.to_multiset().contains(x));
            assert(out@.to_multiset().add(rest@.to_multiset()) =~= before.to_multiset().add(before_rest.to_multiset()));
            assert forall|a: int, b: int| 0 <= a < b < out@.len() implies out@[a].1 >= out@[b].1 by {
                if b < pos {
                } else if b == pos {
                } else if a < pos {
                    assert(before[pos as int].1 < x.1);
                } else if a == pos {
                    assert(before[pos as int].1 < x.1);
                } else {
                }
            }
        }
    }
    proof {
        broadcast use vstd::seq_lib::group_to_multiset_ensures;
        broadcast use vstd::multiset::group_multiset_axioms;
        assert(rest@ =~= Seq::<(String, usize)>::empty());
        assert(rest@.to_multiset() =~= Multiset::<(String, usize)>::empty());
        assert(out@.to_multiset().add(Multiset::<(String, usize)>::empty()) =~= out@.to_multiset());
    }
    out
}

impl LogAnalysis {
    /// The `n` most frequent error patterns with their counts, most frequent
    /// first.
    pub fn top_error_patterns(&self, n: usize) -> (r: Vec<(String, usize)>)
        ensures
            exists|s: Seq<(String, usize)>| {
                &&& #[trigger] s.to_multiset() == self.error_patterns@.to_multiset()
                &&& counts_descending(s)
                &&& r@ == s.take(if n < s.len() { n as int } else { s.len() as int })
            },
    {
        let mut copy: Vec<(String, usize)> = Vec::new();
        let mut i: usize = 0;
        while i < self.error_patterns.len()
            invariant
                i <= self.error_patterns@.len(),
                copy@ == self.error_patterns@.take(i as int),
            decreases self.error_patterns@.len() - i,
        {
            let k = self.error_patterns[i].0.clone();
            copy.push((k, self.error_patterns[i].1));
            assert(copy@ =~= self.error_patterns@.take(i + 1));
            i = i + 1;
        }
        assert(copy@ =~= self.error_patterns@);
        let sorted = sort_counts(copy);
        let ghost s = sorted@;
        let mut out: Vec<(String, usize)> = Vec::new();
        let mut rest = sorted;
        let keep = if n < rest.len() { n } else { rest.len() };
        proof {
            broadcast use vstd::seq_lib::group_to_multiset_ensures;
            assert(s.to_multiset().len() == s.len());
            assert(self.error_patterns@.to_multiset().len() == self.error_patterns@.len());
        }
        let mut j: usize = 0;
        while j < keep
            invariant
                j <= keep,
                keep <= s.len(),
                rest@ == s.skip(j as int),
                out@ == s.take(j as int),
            decreases keep - j,
        {
            let x = rest.remove(0);
            out.push(x);
            assert(out@ =~= s.take(j + 1));
            assert(rest@ =~= s.skip(j + 1));
            j = j + 1;
        }
        out
    }
}

impl Default for LogAnalysis {
    fn default() -> (r: LogAnalysis)
        ensures
            r.total_lines == 0,
            r.level_counts@.len() == 0,
            r.errors@.len() == 0,
            r.warnings@.len() == 0,
            r.error_patterns@.len() == 0,
            r.time_range is None,
    {
        LogAnalysis::new()
    }
}

proof fn lemma_considered_within_nonblank(lines: Seq<Seq<char>>, errors_only: bool)
    ensures
        considered(lines, errors_only).len() <= nonblank(lines).len(),
    decreases lines.len(),
{
    if lines.len() > 0 {
        lemma_considered_within_nonblank(lines.drop_last(), errors_only);
    }
}

/// An analysis counts no more lines than it read, keeps no more errors or
/// warnings than their caps allow nor than it counted, and the patterns
/// count exactly the error lines.
pub proof fn law_analysis_bounds(
    a: LogAnalysis,
    lines: Seq<Seq<char>>,
    errors_only: bool,
    max_errors: Option<usize>,
    max_warnings: Option<usize>,
    with_time: bool,
)
    requires
        analysis_of(a, lines, errors_only, max_errors, max_warnings, with_time),
    ensures
        considered(lines, errors_only).len() <= a.total_lines,
        a.errors@.len() <= level_count(considered(lines, errors_only), LogLevel::Error),
        a.warnings@.len() <= level_count(considered(lines, errors_only), LogLevel::Warn),
        max_errors matches Some(m) ==> a.errors@.len() <= m,
        max_warnings matches Some(m) ==> a.warnings@.len() <= m,
        pattern_keys(considered(lines, errors_only)).len() == level_count(considered(lines, errors_only), LogLevel::Error),
{
    lemma_considered_within_nonblank(lines, errors_only);
}


/// A level's name reads back as that level: the name is ASCII, and its
/// lowercase names the level (so `LogLevel::from_str(l.as_str())` is `l`).
pub proof fn law_level_name_reads_back(l: LogLevel)
    ensures
        ascii_text(level_text(l)),
        level_named(level_text(l).map_values(|c: char| ascii_lower(c))) == l,
{
    match l {
        LogLevel::Error => lemma_error_reads_back(),
        LogLevel::Warn => lemma_warn_reads_back(),
        LogLevel::Info => lemma_info_reads_back(),
        LogLevel::Debug => lemma_debug_reads_back(),
        LogLevel::Trace => lemma_trace_reads_back(),
        LogLevel::Unknown => lemma_unknown_reads_back(),
    }
}

proof fn lemma_error_reads_back()
    ensures
        ascii_text(level_text(LogLevel::Error)),
        level_named(level_text(LogLevel::Error).map_values(|c: char| ascii_lower(c))) == LogLevel::Error,
{
    reveal_strlit("ERROR");
    reveal_strlit("error");
    reveal_strlit("err");
    reveal_strlit("warn");
    reveal_strlit("warning");
    reveal_strlit("info");
    reveal_strlit("debug");
    reveal_strlit("trace");
    let low = level_text(LogLevel::Error).map_values(|c: char| ascii_lower(c));
    assert(low =~= "error"@);
    assert(low.subrange(0, 5) =~= "error"@);
    assert(occurs_at(low, "error"@, 0));
}

proof fn lemma_warn_reads_back()
    ensures
        ascii_text(level_text(LogLevel::Warn)),
        level_named(level_text(LogLevel::Warn).map_values(|c: char| ascii_lower(c))) == LogLevel::Warn,
{
    reveal_strlit("WARN");
    reveal_strlit("warn");
    reveal_strlit("error");
    reveal_strlit("err");
    reveal_strlit("warning");
    reveal_strlit("info");
    reveal_strlit("debug");
    reveal_strlit("trace");
    let low = level_text(LogLevel::Warn).map_values(|c: char| ascii_lower(c));
    assert(low =~= "warn"@);
    reveal_with_fuel(pair_free, 8);
    lemma_pair_free_no_infix(low, "error"@);
    lemma_pair_free_no_infix(low, "err"@);
    assert(low.subrange(0, 4) =~= "warn"@);
    assert(occurs_at(low, "warn"@, 0));
}

proof fn lemma_info_reads_back()
    ensures
        ascii_text(level_text(LogLevel::Info)),
        level_named(level_text(LogLevel::Info).map_values(|c: char| ascii_lower(c))) == LogLevel::Info,
{
    reveal_strlit("INFO");
    reveal_strlit("info");
    reveal_strlit("error");
    reveal_strlit("err");
    reveal_strlit("warn");
    reveal_strlit("warning");
    reveal_strlit("debug");
    reveal_strlit("trace");
    let low = level_text(LogLevel::Info).map_values(|c: char| ascii_lower(c));
    assert(low =~= "info"@);
    reveal_with_fuel(pair_free, 8);
    lemma_pair_free_no_infix(low, "error"@);
    lemma_pair_free_no_infix(low, "err"@);
    lemma_pair_free_no_infix(low, "warn"@);
    lemma_pair_free_no_infix(low, "warning"@);
    assert(low.subrange(0, 4) =~= "info"@);
    assert(occurs_at(low, "info"@, 0));
}

proof fn lemma_debug_reads_back()
    ensures
        ascii_text(level_text(LogLevel::Debug)),
        level_named(level_text(LogLevel::Debug).map_values(|c: char| ascii_lower(c))) == LogLevel::Debug,
{
    reveal_strlit("DEBUG");
    reveal_strlit("debug");
    reveal_strlit("error");
    reveal_strlit("err");
    reveal_strlit("warn");
    reveal_strlit("warning");
    reveal_strlit("info");
    reveal_strlit("trace");
    let low = level_text(LogLevel::Debug).map_values(|c: char| ascii_lower(c));
    assert(low =~= "debug"@);
    reveal_with_fuel(pair_free, 8);
    lemma_pair_free_no_infix(low, "error"@);
    lemma_pair_free_no_infix(low, "err"@);
    lemma_pair_free_no_infix(low, "warn"@);
    lemma_pair_free_no_infix(low, "warning"@);
    lemma_pair_free_no_infix(low, "info"@);
    assert(low.subrange(0, 5) =~= "debug"@);
    assert(occurs_at(low, "debug"@, 0));
}

proof fn lemma_trace_reads_back()
    ensures
        ascii_text(level_text(LogLevel::Trace)),
        level_named(level_text(LogLevel::Trace).map_values(|c: char| ascii_lower(c))) == LogLevel::Trace,
{
    reveal_strlit("TRACE");
    reveal_strlit("trace");
    reveal_strlit("error");
    reveal_strlit("err");
    reveal_strlit("warn");
    reveal_strlit("warning");
    reveal_strlit("info");
    reveal_strlit("debug");
    let low = level_text(LogLevel::Trace).map_values(|c: char| ascii_lower(c));
    assert(low =~= "trace"@);
    reveal_with_fuel(pair_free, 8);
    lemma_pair_free_no_infix(low, "error"@);
    lemma_pair_free_no_infix(low, "err"@);
    lemma_pair_free_no_infix(low, "warn"@);
    lemma_pair_free_no_infix(low, "warning"@);
    lemma_pair_free_no_infix(low, "info"@);
    lemma_pair_free_no_infix(low, "debug"@);
    assert(low.subrange(0, 5) =~= "trace"@);
    assert(occurs_at(low, "trace"@, 0));
}

proof fn lemma_unknown_reads_back()
    ensures
        ascii_text(level_text(LogLevel::Unknown)),
        level_named(level_text(LogLevel::Unknown).map_values(|c: char| ascii_lower(c))) == LogLevel::Unknown,
{
    reveal_strlit("UNKNOWN");
    reveal_strlit("unknown");
    reveal_strlit("error");
    reveal_strlit("err");
    reveal_strlit("warn");
    reveal_strlit("warning");
    reveal_strlit("info");
    reveal_strlit("debug");
    reveal_strlit("trace");
    let low = level_text(LogLevel::Unknown).map_values(|c: char| ascii_lower(c));
    assert(low =~= "unknown"@);
    reveal_with_fuel(pair_free, 8);
    lemma_pair_free_no_infix(low, "error"@);
    lemma_pair_free_no_infix(low, "err"@);
    lemma_pair_free_no_infix(low, "warn"@);
    lemma_pair_free_no_infix(low, "warning"@);
    lemma_pair_free_no_infix(low, "info"@);
    lemma_pair_free_no_infix(low, "debug"@);
    lemma_pair_free_no_infix(low, "trace"@);
}


/// No `a` in `s` is directly followed by `b`.
spec fn pair_free(s: Seq<char>, a: char, b: char) -> bool
    decreases s.len(),
{
    if s.len() < 2 {
        true
    } else {
        !(s[0] == a && s[1] == b) && pair_free(s.drop_first(), a, b)
    }
}

proof fn lemma_pair_free_at(s: Seq<char>, a: char, b: char, i: int)
    requires
        pair_free(s, a, b),
        0 <= i,
        i + 1 < s.len(),
    ensures
        !(s[i] == a && s[i + 1] == b),
    decreases s.len(),
{
    if i > 0 {
        lemma_pair_free_at(s.drop_first(), a, b, i - 1);
        assert(s.drop_first()[i - 1] == s[i]);
        assert(s.drop_first()[i] == s[i + 1]);
    }
}

/// A text in which the first two characters of `p` never stand together
/// does not contain `p`.
proof fn lemma_pair_free_no_infix(s: Seq<char>, p: Seq<char>)
    requires
        p.len() >= 2,
        pair_free(s, p[0], p[1]),
    ensures
        !has_infix(s, p),
{
    if has_infix(s, p) {
        let i = choose|i: int| occurs_at(s, p, i);
        assert(s.subrange(i, i + p.len())[0] == s[i]);
        assert(s.subrange(i, i + p.len())[1] == s[i + 1]);
        lemma_pair_free_at(s, p[0], p[1], i);
    }
}


/// How a line's level is found: the markers `[ERROR]`, `[WARN]`, `[INFO]`,
/// `[DEBUG]`, `[TRACE]`, `ERROR:`, `WARN:`, `INFO:`, `DEBUG:` are tried in that
/// order and the first that matches gives its level; a line no marker matches
/// is an error when it mentions `exception`, `Exception`, `panic` or `fatal`,
/// and of unknown level otherwise.
pub proof fn law_line_level(line: Seq<char>)
    ensures
        marker_hits("\\[ERROR\\]"@, line)
            ==> detected_level(level_markers(), line) == LogLevel::Error,
        !marker_hits("\\[ERROR\\]"@, line) && marker_hits("\\[WARN\\]"@, line)
            ==> detected_level(level_markers(), line) == LogLevel::Warn,
        !marker_hits("\\[ERROR\\]"@, line) && !marker_hits("\\[WARN\\]"@, line) && marker_hits("\\[INFO\\]"@, line)
            ==> detected_level(level_markers(), line) == LogLevel::Info,
        !marker_hits("\\[ERROR\\]"@, line) && !marker_hits("\\[WARN\\]"@, line) && !marker_hits("\\[INFO\\]"@, line) && marker_hits("\\[DEBUG\\]"@, line)
            ==> detected_level(level_markers(), line) == LogLevel::Debug,
        !marker_hits("\\[ERROR\\]"@, line) && !marker_hits("\\[WARN\\]"@, line) && !marker_hits("\\[INFO\\]"@, line) && !marker_hits("\\[DEBUG\\]"@, line) && marker_hits("\\[TRACE\\]"@, line)
            ==> detected_level(level_markers(), line) == LogLevel::Trace,
        !marker_hits("\\[ERROR\\]"@, line) && !marker_hits("\\[WARN\\]"@, line) && !marker_hits("\\[INFO\\]"@, line) && !marker_hits("\\[DEBUG\\]"@, line) && !marker_hits("\\[TRACE\\]"@, line) && marker_hits("ERROR:"@, line)
            ==> detected_level(level_markers(), line) == LogLevel::Error,
        !marker_hits("\\[ERROR\\]"@, line) && !marker_hits("\\[WARN\\]"@, line) && !marker_hits("\\[INFO\\]"@, line) && !marker_hits("\\[DEBUG\\]"@, line) && !marker_hits("\\[TRACE\\]"@, line) && !marker_hits("ERROR:"@, line) && marker_hits("WARN:"@, line)
            ==> detected_level(level_markers(), line) == LogLevel::Warn,
        !marker_hits("\\[ERROR\\]"@, line) && !marker_hits("\\[WARN\\]"@, line) && !marker_hits("\\[INFO\\]"@, line) && !marker_hits("\\[DEBUG\\]"@, line) && !marker_hits("\\[TRACE\\]"@, line) && !marker_hits("ERROR:"@, line) && !marker_hits("WARN:"@, line) && marker_hits("INFO:"@, line)
            ==> detected_level(level_markers(), line) == LogLevel::Info,
        !marker_hits("\\[ERROR\\]"@, line) && !marker_hits("\\[WARN\\]"@, line) && !marker_hits("\\[INFO\\]"@, line) && !marker_hits("\\[DEBUG\\]"@, line) && !marker_hits("\\[TRACE\\]"@, line) && !marker_hits("ERROR:"@, line) && !marker_hits("WARN:"@, line) && !marker_hits("INFO:"@, line) && marker_hits("DEBUG:"@, line)
            ==> detected_level(level_markers(), line) == LogLevel::Debug,
        (!marker_hits("\\[ERROR\\]"@, line) && !marker_hits("\\[WARN\\]"@, line) && !marker_hits("\\[INFO\\]"@, line) && !marker_hits("\\[DEBUG\\]"@, line) && !marker_hits("\\[TRACE\\]"@, line) && !marker_hits("ERROR:"@, line) && !marker_hits("WARN:"@, line) && !marker_hits("INFO:"@, line) && !marker_hits("DEBUG:"@, line)) ==> (detected_level(level_markers(), line) == LogLevel::Error <==> (has_infix(line, "exception"@)
            || has_infix(line, "Exception"@) || has_infix(line, "panic"@) || has_infix(line, "fatal"@))),
        (!marker_hits("\\[ERROR\\]"@, line) && !marker_hits("\\[WARN\\]"@, line) && !marker_hits("\\[INFO\\]"@, line) && !marker_hits("\\[DEBUG\\]"@, line) && !marker_hits("\\[TRACE\\]"@, line) && !marker_hits("ERROR:"@, line) && !marker_hits("WARN:"@, line) && !marker_hits("INFO:"@, line) && !marker_hits("DEBUG:"@, line)) ==> (detected_level(level_markers(), line) == LogLevel::Error || detected_level(
            level_markers(),
            line,
        ) == LogLevel::Unknown),
{
    reveal_with_fuel(detected_level, 10);
    let ms = level_markers();
    assert(ms.drop_first() =~= ms.subrange(1, 9));
    assert(ms.subrange(1, 9).drop_first() =~= ms.subrange(2, 9));
    assert(ms.subrange(2, 9).drop_first() =~= ms.subrange(3, 9));
    assert(ms.subrange(3, 9).drop_first() =~= ms.subrange(4, 9));
    assert(ms.subrange(4, 9).drop_first() =~= ms.subrange(5, 9));
    assert(ms.subrange(5, 9).drop_first() =~= ms.subrange(6, 9));
    assert(ms.subrange(6, 9).drop_first() =~= ms.subrange(7, 9));
    assert(ms.subrange(7, 9).drop_first() =~= ms.subrange(8, 9));
    assert(ms.subrange(8, 9).drop_first() =~= Seq::<(Seq<char>, LogLevel)>::empty());
}

} // verus!
