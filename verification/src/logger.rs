//! The LLM interaction log: what one request/response exchange records, the
//! logger's configuration, and the statistics computed over recorded logs.
//!
//! Reading and writing the log files (JSON lines, one file per day) is done by
//! the application; it hands the parsed records to the functions here.

use vstd::prelude::*;
use vstd::relations::{sorted_by, total_ordering};
use vstd::multiset::Multiset;
use crate::text::{chars_of, string_of, extend_chars, contains, has_infix, to_lowercase, lowercase};
use crate::llm::{Message, MessageRole, copy_messages, same_message};
use crate::health::clock_millis;
use std::time::Instant;

verus! {

/// Milliseconds elapsed since `start` on the monotonic clock (std
/// `Instant::elapsed`, in whole milliseconds, saturating at `u64::MAX`). The
/// clock decides the value, so nothing is stated of it.
#[verifier::external_body]
fn elapsed_millis(start: &Instant) -> (ms: u64) {
    u64::try_from(start.elapsed().as_millis()).unwrap_or(u64::MAX)
}

/// A lowercase hexadecimal digit.
pub open spec fn is_lower_hex(c: char) -> bool {
    ('0' <= c && c <= '9') || ('a' <= c && c <= 'f')
}

/// The hyphenated text of a random (version 4) UUID: 36 characters, hyphens
/// at positions 8, 13, 18 and 23, lowercase hexadecimal digits elsewhere, the
/// version digit `4` at position 14 and a variant digit of `8`, `9`, `a` or
/// `b` at position 19.
pub open spec fn is_uuid_v4_text(s: Seq<char>) -> bool {
    &&& s.len() == 36
    &&& s[8] == '-' && s[13] == '-' && s[18] == '-' && s[23] == '-'
    &&& forall|i: int| 0 <= i < 36 && i != 8 && i != 13 && i != 18 && i != 23 ==> is_lower_hex(#[trigger] s[i])
    &&& s[14] == '4'
    &&& (s[19] == '8' || s[19] == '9' || s[19] == 'a' || s[19] == 'b')
}

/// A fresh random session identifier (uuid `Uuid::new_v4`, written by its
/// `Display`, the hyphenated lowercase form). Chance decides the digits; the
/// shape of the text, the version and the variant are fixed.
#[verifier::external_body]
fn new_session_id() -> (s: String)
    ensures
        is_uuid_v4_text(s@),
{
    uuid::Uuid::new_v4().to_string()
}

/// The current instant on the monotonic clock (std `Instant::now`).
#[verifier::external_body]
fn instant_now() -> (t: Instant) {
    Instant::now()
}

// ---------------------------------------------------------------------------
// Records
// ---------------------------------------------------------------------------

/// Tokens an exchange used.
#[derive(Debug, Clone, Copy)]
pub struct TokenUsage {
    /// Tokens of the prompt.
    pub prompt_tokens: u32,
    /// Tokens of the completion.
    pub completion_tokens: u32,
    /// Both together.
    pub total_tokens: u32,
}

/// Where a call came from.
#[derive(Debug, Clone)]
pub struct CallContext {
    /// What the user typed.
    pub user_input: Option<String>,
    /// The recognised intent.
    pub intent: Option<String>,
    /// The tools that were used.
    pub tools_used: Vec<String>,
    /// A summary of the tools' results.
    pub tool_results_summary: Option<String>,
}

/// The recorded request.
#[derive(Debug, Clone)]
pub struct LlmRequest {
    /// How many messages were sent.
    pub message_count: usize,
    /// The start of the last user message (see `request_summary`).
    pub summary: String,
    /// The messages themselves, when the configuration records content.
    pub messages: Option<Vec<Message>>,
    /// The token limit asked for.
    pub max_tokens: Option<u32>,
}

/// The recorded response.
#[derive(Debug, Clone)]
pub struct LlmResponse {
    /// Characters in the response.
    pub content_length: usize,
    /// The start of the response (see `summary_of`).
    pub summary: String,
    /// The response itself, when the configuration records content.
    pub content: Option<String>,
    /// Tokens used, when the service reported them.
    pub usage: Option<TokenUsage>,
    /// Why the response ended.
    pub finish_reason: String,
}

/// How the exchange went.
#[derive(Debug, Clone)]
pub struct LlmMetadata {
    /// Milliseconds from request to response.
    pub latency_ms: u64,
    /// `success`, `error` or `timeout`.
    pub status: String,
    /// The error, if there was one.
    pub error: Option<String>,
    /// Whether the response was streamed.
    pub is_streaming: bool,
    /// When the request started, in milliseconds since the Unix epoch.
    pub started_at_ms: Option<i64>,
    /// When it completed, in milliseconds since the Unix epoch.
    pub completed_at_ms: Option<i64>,
    /// Where the call came from.
    pub context: Option<CallContext>,
}

/// One recorded exchange.
#[derive(Debug, Clone)]
pub struct LlmInteractionLog {
    /// Identifies the exchange.
    pub session_id: String,
    /// When it was recorded, in milliseconds since the Unix epoch.
    pub timestamp_ms: i64,
    /// The model that answered.
    pub model: String,
    /// The request.
    pub request: LlmRequest,
    /// The response, absent when the request failed.
    pub response: Option<LlmResponse>,
    /// How it went.
    pub meta: LlmMetadata,
}

/// What a caller hands over to record an exchange.
pub struct LogInteractionParams<'a> {
    pub session_id: String,
    pub model: String,
    pub messages: &'a [Message],
    pub response_content: Option<String>,
    pub start_time: Instant,
    pub is_streaming: bool,
    pub error: Option<String>,
    pub context: Option<CallContext>,
}

// ---------------------------------------------------------------------------
// Configuration
// ---------------------------------------------------------------------------

/// `b` appended to the path `a` with one separator between them, as std's
/// `Path::join` does for a relative `b`.
pub open spec fn path_join(a: Seq<char>, b: Seq<char>) -> Seq<char> {
    if a.len() == 0 {
        b
    } else if a.last() == '/' {
        a + b
    } else {
        a + "/"@ + b
    }
}

fn join_path(a: &[char], b: &str) -> (r: Vec<char>)
    ensures
        r@ == path_join(a@, b@),
{
    let mut out: Vec<char> = Vec::new();
    extend_chars(&mut out, a);
    if a.len() > 0 && a[a.len() - 1] != '/' {
        out.push('/');
    }
    extend_chars(&mut out, chars_of(b).as_slice());
    proof {
        if a@.len() > 0 && a@.last() != '/' {
            assert(out@ =~= a@ + "/"@ + b@) by {
                reveal_strlit("/");
            }
        }
    }
    out
}

/// The log directory under a home directory: `<home>/.realconsole/llm_logs`.
pub open spec fn log_dir_under(home: Seq<char>) -> Seq<char> {
    path_join(path_join(home, ".realconsole"@), "llm_logs"@)
}

/// Settings of the LLM logger.
#[derive(Debug, Clone)]
pub struct LlmLoggerConfig {
    /// Whether exchanges are recorded.
    pub enabled: bool,
    /// Where the log files go.
    pub log_dir: String,
    /// Whether full messages and responses are recorded.
    pub include_content: bool,
    /// Regular expressions of sensitive words.
    pub sensitive_patterns: Vec<String>,
    /// Days after which logs are cleaned up.
    pub retention_days: u32,
    /// The size in MiB beyond which old logs are cleaned up.
    pub max_size_mb: u32,
}

impl LlmLoggerConfig {
    /// The default settings for a home directory (`None` when it is unknown,
    /// which stands for the current directory): logging off, content
    /// recorded, logs in `<home>/.realconsole/llm_logs`, three sensitive
    /// patterns, 30 days of retention and 100 MiB at most.
    pub fn for_home(home: Option<String>) -> (r: LlmLoggerConfig)
        ensures
            !r.enabled,
            r.include_content,
            r.log_dir@ == log_dir_under(
                match home {
                    Some(h) => h@,
                    None => "."@,
                },
            ),
            r.sensitive_patterns@.len() == 3,
            r.sensitive_patterns@[0]@ == "api[_-]?key"@,
            r.sensitive_patterns@[1]@ == "password"@,
            r.sensitive_patterns@[2]@ == "token"@,
            r.retention_days == 30,
            r.max_size_mb == 100,
    {
        let h: Vec<char> = match &home {
            Some(s) => chars_of(s.as_str()),
            None => chars_of("."),
        };
        let d1 = join_path(h.as_slice(), ".realconsole");
        let d2 = join_path(d1.as_slice(), "llm_logs");
        let mut patterns: Vec<String> = Vec::new();
        patterns.push(string_of(chars_of("api[_-]?key").as_slice()));
        patterns.push(string_of(chars_of("password").as_slice()));
        patterns.push(string_of(chars_of("token").as_slice()));
        LlmLoggerConfig {
            enabled: false,
            log_dir: string_of(d2.as_slice()),
            include_content: true,
            sensitive_patterns: patterns,
            retention_days: 30,
            max_size_mb: 100,
        }
    }
}

impl Default for LlmLoggerConfig {
    /// The default settings when the home directory is not known (see
    /// `for_home`); the application resolves the home directory itself.
    fn default() -> (r: LlmLoggerConfig)
        ensures
            !r.enabled,
            r.include_content,
            r.log_dir@ == log_dir_under("."@),
            r.sensitive_patterns@.len() == 3,
            r.sensitive_patterns@[0]@ == "api[_-]?key"@,
            r.sensitive_patterns@[1]@ == "password"@,
            r.sensitive_patterns@[2]@ == "token"@,
            r.retention_days == 30,
            r.max_size_mb == 100,
    {
        LlmLoggerConfig::for_home(None)
    }
}

// ---------------------------------------------------------------------------
// Building a record
// ---------------------------------------------------------------------------

/// The content of the last user message, if the last user message has one.
pub open spec fn last_user_content(msgs: Seq<Message>) -> Option<Seq<char>>
    decreases msgs.len(),
{
    if msgs.len() == 0 {
        None
    } else if msgs.last().role == MessageRole::User {
        match msgs.last().content {
            Some(c) => Some(c@),
            None => None,
        }
    } else {
        last_user_content(msgs.drop_last())
    }
}

/// The first `n` characters of a text, followed by `...` when it is longer.
pub open spec fn summary_of(c: Seq<char>, n: nat) -> Seq<char> {
    if c.len() > n {
        c.take(n as int) + "..."@
    } else {
        c
    }
}

/// The summary of a request: the start of the last user message (50
/// characters), or `[无内容]` when there is none.
pub open spec fn request_summary(msgs: Seq<Message>) -> Seq<char> {
    match last_user_content(msgs) {
        Some(c) => summary_of(c, 50),
        None => "[无内容]"@,
    }
}

/// The status of an exchange: `error` when it failed, `success` when it
/// answered, `timeout` otherwise.
pub open spec fn status_of(has_error: bool, has_response: bool) -> Seq<char> {
    if has_error {
        "error"@
    } else if has_response {
        "success"@
    } else {
        "timeout"@
    }
}

/// A request record made under `include_content` from `msgs`.
pub open spec fn request_records(req: LlmRequest, include_content: bool, msgs: Seq<Message>) -> bool {
    &&& req.message_count == msgs.len()
    &&& req.summary@ == request_summary(msgs)
    &&& req.max_tokens is None
    &&& (req.messages is Some <==> include_content)
    &&& (req.messages is Some ==> req.messages->0@.len() == msgs.len() && forall|i: int|
        0 <= i < msgs.len() ==> same_message(#[trigger] req.messages->0@[i], msgs[i]))
}

/// A response record made under `include_content` from `content`.
pub open spec fn response_records(resp: LlmResponse, include_content: bool, content: Seq<char>) -> bool {
    &&& resp.content_length == content.len()
    &&& resp.summary@ == summary_of(content, 100)
    &&& (resp.content is Some <==> include_content)
    &&& (resp.content is Some ==> resp.content->0@ == content)
    &&& resp.usage is None
    &&& resp.finish_reason@ == "stop"@
}

/// The first `n` characters of `c`, followed by `...` when `c` is longer.
pub(crate) fn summarize(c: &[char], n: usize) -> (r: Vec<char>)
    ensures
        r@ == summary_of(c@, n as nat),
{
    if c.len() > n {
        let mut out: Vec<char> = Vec::new();
        let mut i: usize = 0;
        while i < n
            invariant
                i <= n,
                n < c.len(),
                out@ == c@.take(i as int),
            decreases n - i,
        {
            out.push(c[i]);
            assert(out@ =~= c@.take(i + 1));
            i = i + 1;
        }
        extend_chars(&mut out, chars_of("...").as_slice());
        out
    } else {
        let mut out: Vec<char> = Vec::new();
        extend_chars(&mut out, c);
        assert(out@ =~= c@);
        out
    }
}

/// The LLM logger: its configuration and the file it last wrote.
pub struct LlmLogger {
    config: LlmLoggerConfig,
    current_log_file: Option<String>,
}

impl LlmLogger {
    /// The configuration.
    pub closed spec fn config_view(&self) -> LlmLoggerConfig {
        self.config
    }

    /// The log file written last, if any.
    pub closed spec fn current_file_view(&self) -> Option<Seq<char>> {
        match self.current_log_file {
            Some(f) => Some(f@),
            None => None,
        }
    }

    /// A logger that has written nothing yet.
    pub fn new(config: LlmLoggerConfig) -> (r: LlmLogger)
        ensures
            r.config_view() == config,
            r.current_file_view() is None,
    {
        LlmLogger { config, current_log_file: None }
    }

    /// A logger with the default settings: recording off, full content,
    /// logs under `./.realconsole/llm_logs`, the sensitive words `api[_-]?key`,
    /// `password` and `token`, 30 days of retention and 100 MiB at most.
    pub fn with_defaults() -> (r: LlmLogger)
        ensures
            !r.config_view().enabled,
            r.config_view().include_content,
            r.config_view().log_dir@ == log_dir_under("."@),
            r.config_view().sensitive_patterns@.len() == 3,
            r.config_view().sensitive_patterns@[0]@ == "api[_-]?key"@,
            r.config_view().sensitive_patterns@[1]@ == "password"@,
            r.config_view().sensitive_patterns@[2]@ == "token"@,
            r.config_view().retention_days == 30,
            r.config_view().max_size_mb == 100,
            r.current_file_view() is None,
    {
        LlmLogger::new(LlmLoggerConfig::default())
    }

    /// Whether exchanges are recorded.
    pub fn is_enabled(&self) -> (r: bool)
        ensures
            r == self.config_view().enabled,
    {
        self.config.enabled
    }

    /// The log directory.
    pub fn log_dir(&self) -> (r: &str)
        ensures
            r@ == self.config_view().log_dir@,
    {
        self.config.log_dir.as_str()
    }

    /// A fresh session identifier (a random UUID, see `is_uuid_v4_text`) and
    /// the instant the exchange starts.
    pub fn start_logging(&self, model: &str) -> (r: (String, Instant))
        ensures
            is_uuid_v4_text(r.0@),
    {
        (new_session_id(), instant_now())
    }

    /// The path of the log file for a day written `YYYY-MM-DD`:
    /// `<log_dir>/llm_<date>.jsonl`.
    pub fn log_file_for(&self, date: &str) -> (r: String)
        ensures
            r@ == path_join(self.config_view().log_dir@, "llm_"@ + date@ + ".jsonl"@),
    {
        let mut name = chars_of("llm_");
        extend_chars(&mut name, chars_of(date).as_slice());
        extend_chars(&mut name, chars_of(".jsonl").as_slice());
        let name_s = string_of(name.as_slice());
        let dir = chars_of(self.config.log_dir.as_str());
        let p = join_path(dir.as_slice(), name_s.as_str());
        string_of(p.as_slice())
    }

    /// Records that `path` is the log file written last.
    pub fn set_current_log_file(&mut self, path: String)
        ensures
            final(self).current_file_view() == Some(path@),
            final(self).config_view() == old(self).config_view(),
    {
        self.current_log_file = Some(path);
    }

    /// The log file written last.
    pub fn get_current_log_file(&self) -> (r: Option<String>)
        ensures
            match r {
                Some(f) => self.current_file_view() == Some(f@),
                None => self.current_file_view() is None,
            },
    {
        match &self.current_log_file {
            Some(f) => Some(f.clone()),
            None => None,
        }
    }

    /// The request record of `messages`.
    pub fn build_request(&self, messages: &[Message]) -> (r: LlmRequest)
        ensures
            request_records(r, self.config_view().include_content, messages@),
    {
        let mut i: usize = messages.len();
        let mut found: Option<usize> = None;
        assert(messages@.take(i as int) =~= messages@);
        while i > 0 && found.is_none()
            invariant
                i <= messages.len(),
                last_user_content(messages@.take(i as int)) == last_user_content(messages@),
                found is Some ==> i > 0 && found->0 == i - 1 && messages@[i - 1].role
                    == MessageRole::User,
            decreases i + (if found is None { 1int } else { 0int }),
        {
            let j = i - 1;
            assert(messages@.take(i as int).drop_last() =~= messages@.take(j as int));
            assert(messages@.take(i as int).last() == messages@[j as int]);
            if messages[j].role == MessageRole::User {
                found = Some(j);
            } else {
                i = j;
            }
        }
        proof {
            if found is Some {
                assert(messages@.take(i as int).last() == messages@[i - 1]);
            }
        }
        let summary = match found {
            Some(j) => match &messages[j].content {
                Some(c) => {
                    let cs = chars_of(c.as_str());
                    string_of(summarize(cs.as_slice(), 50).as_slice())
                },
                None => string_of(chars_of("[无内容]").as_slice()),
            },
            None => {
                assert(messages@.take(0) =~= Seq::<Message>::empty());
                string_of(chars_of("[无内容]").as_slice())
            },
        };
        let msgs = if self.config.include_content {
            Some(copy_messages(messages))
        } else {
            None
        };
        LlmRequest { message_count: messages.len(), summary, messages: msgs, max_tokens: None }
    }

    /// The response record of `content`.
    pub fn build_response(&self, content: &str) -> (r: LlmResponse)
        ensures
            response_records(r, self.config_view().include_content, content@),
    {
        let cs = chars_of(content);
        let summary = string_of(summarize(cs.as_slice(), 100).as_slice());
        let content_opt = if self.config.include_content {
            Some(string_of(cs.as_slice()))
        } else {
            None
        };
        LlmResponse {
            content_length: cs.len(),
            summary,
            content: content_opt,
            usage: None,
            finish_reason: string_of(chars_of("stop").as_slice()),
        }
    }

    /// The record of an exchange, or `None` while logging is off. The
    /// application writes the record to the day's log file.
    pub fn interaction_log(&self, params: LogInteractionParams) -> (r: Option<LlmInteractionLog>)
        ensures
            !self.config_view().enabled ==> r is None,
            self.config_view().enabled ==> r is Some && ({
                let l = r->0;
                &&& l.session_id == params.session_id
                &&& l.model == params.model
                &&& request_records(l.request, self.config_view().include_content, params.messages@)
                &&& (l.response is Some <==> params.response_content is Some)
                &&& (l.response is Some ==> response_records(
                    l.response->0,
                    self.config_view().include_content,
                    params.response_content->0@,
                ))
                &&& l.meta.status@ == status_of(params.error is Some, params.response_content is Some)
                &&& l.meta.error == params.error
                &&& l.meta.is_streaming == params.is_streaming
                &&& l.meta.context == params.context
                &&& l.meta.completed_at_ms == Some(l.timestamp_ms)
                &&& l.meta.started_at_ms == (if l.timestamp_ms - l.meta.latency_ms >= i64::MIN {
                    Some((l.timestamp_ms - l.meta.latency_ms) as i64)
                } else {
                    None
                })
            }),
    {
        if !self.config.enabled {
            return None;
        }
        let latency_ms = elapsed_millis(&params.start_time);
        let now = clock_millis();
        let request = self.build_request(params.messages);
        let response = match &params.response_content {
            Some(c) => Some(self.build_response(c.as_str())),
            None => None,
        };
        let status = if params.error.is_some() {
            string_of(chars_of("error").as_slice())
        } else if response.is_some() {
            string_of(chars_of("success").as_slice())
        } else {
            string_of(chars_of("timeout").as_slice())
        };
        let start: i128 = (now as i128) - (latency_ms as i128);
        let started_at_ms = if start >= (i64::MIN as i128) {
            Some(start as i64)
        } else {
            None
        };
        let meta = LlmMetadata {
            latency_ms,
            status,
            error: params.error,
            is_streaming: params.is_streaming,
            started_at_ms,
            completed_at_ms: Some(now),
            context: params.context,
        };
        Some(LlmInteractionLog {
            session_id: params.session_id,
            timestamp_ms: now,
            model: params.model,
            request,
            response,
            meta,
        })
    }
}

// ---------------------------------------------------------------------------
// Statistics
// ---------------------------------------------------------------------------

/// Statistics over recorded exchanges.
#[derive(Debug, Clone)]
pub struct LogStatistics {
    /// Exchanges counted.
    pub total_requests: u64,
    /// Exchanges with status `success`.
    pub successful_requests: u64,
    /// Exchanges with status `error`.
    pub failed_requests: u64,
    /// Streamed exchanges.
    pub streaming_requests: u64,
    /// Exchanges per model, each model once, in the order first seen.
    pub model_usage: Vec<(String, u64)>,
    /// Mean latency, rounded down (0 without exchanges).
    pub avg_latency_ms: u64,
    /// Smallest latency.
    pub min_latency_ms: u64,
    /// Largest latency.
    pub max_latency_ms: u64,
    /// Latency at position `n / 2` of the ascending latencies.
    pub p50_latency_ms: u64,
    /// Latency at position `n * 95 / 100`.
    pub p95_latency_ms: u64,
    /// Latency at position `n * 99 / 100`.
    pub p99_latency_ms: u64,
    /// Tokens used in all.
    pub total_tokens: u64,
    /// Prompt tokens used in all.
    pub total_prompt_tokens: u64,
    /// Completion tokens used in all.
    pub total_completion_tokens: u64,
}

impl Default for LogStatistics {
    fn default() -> (r: LogStatistics)
        ensures
            r.total_requests == 0 && r.successful_requests == 0 && r.failed_requests == 0,
            r.streaming_requests == 0,
            r.model_usage@.len() == 0,
            r.avg_latency_ms == 0 && r.min_latency_ms == 0 && r.max_latency_ms == 0,
            r.p50_latency_ms == 0 && r.p95_latency_ms == 0 && r.p99_latency_ms == 0,
            r.total_tokens == 0 && r.total_prompt_tokens == 0 && r.total_completion_tokens == 0,
    {
        LogStatistics {
            total_requests: 0,
            successful_requests: 0,
            failed_requests: 0,
            streaming_requests: 0,
            model_usage: Vec::new(),
            avg_latency_ms: 0,
            min_latency_ms: 0,
            max_latency_ms: 0,
            p50_latency_ms: 0,
            p95_latency_ms: 0,
            p99_latency_ms: 0,
            total_tokens: 0,
            total_prompt_tokens: 0,
            total_completion_tokens: 0,
        }
    }
}

/// Whether a record falls in the window that starts at `cutoff`
/// (milliseconds since the epoch); without a cutoff every record does.
pub open spec fn in_window(l: LlmInteractionLog, cutoff: Option<i64>) -> bool {
    match cutoff {
        Some(c) => l.timestamp_ms >= c,
        None => true,
    }
}

/// The records in the window, in order.
pub open spec fn window(logs: Seq<LlmInteractionLog>, cutoff: Option<i64>) -> Seq<LlmInteractionLog>
    decreases logs.len(),
{
    if logs.len() == 0 {
        Seq::empty()
    } else {
        let w = window(logs.drop_last(), cutoff);
        if in_window(logs.last(), cutoff) {
            w.push(logs.last())
        } else {
            w
        }
    }
}

/// How many records have status `s`.
pub open spec fn count_status(w: Seq<LlmInteractionLog>, s: Seq<char>) -> nat
    decreases w.len(),
{
    if w.len() == 0 {
        0
    } else {
        count_status(w.drop_last(), s) + if w.last().meta.status@ == s {
            1nat
        } else {
            0nat
        }
    }
}

/// How many records were streamed.
pub open spec fn count_streaming(w: Seq<LlmInteractionLog>) -> nat
    decreases w.len(),
{
    if w.len() == 0 {
        0
    } else {
        count_streaming(w.drop_last()) + if w.last().meta.is_streaming {
            1nat
        } else {
            0nat
        }
    }
}

/// How many records were answered by model `m`.
pub open spec fn count_model(w: Seq<LlmInteractionLog>, m: Seq<char>) -> nat
    decreases w.len(),
{
    if w.len() == 0 {
        0
    } else {
        count_model(w.drop_last(), m) + if w.last().model@ == m {
            1nat
        } else {
            0nat
        }
    }
}

/// The token usage a record reports, if its response reports one.
pub open spec fn usage_of(l: LlmInteractionLog) -> Option<TokenUsage> {
    match l.response {
        Some(r) => r.usage,
        None => None,
    }
}

/// Tokens reported in all: `which` 0 sums prompt tokens, 1 completion tokens,
/// and otherwise total tokens.
pub open spec fn token_total(w: Seq<LlmInteractionLog>, which: int) -> nat
    decreases w.len(),
{
    if w.len() == 0 {
        0
    } else {
        token_total(w.drop_last(), which) + match usage_of(w.last()) {
            Some(u) => if which == 0 {
                u.prompt_tokens as nat
            } else if which == 1 {
                u.completion_tokens as nat
            } else {
                u.total_tokens as nat
            },
            None => 0nat,
        }
    }
}

/// The latencies of the records, in order.
pub open spec fn latencies(w: Seq<LlmInteractionLog>) -> Seq<u64> {
    w.map_values(|l: LlmInteractionLog| l.meta.latency_ms)
}

/// The sum of a sequence of numbers.
pub open spec fn seq_sum(s: Seq<u64>) -> nat
    decreases s.len(),
{
    if s.len() == 0 {
        0
    } else {
        seq_sum(s.drop_last()) + s.last() as nat
    }
}

/// The ascending order on numbers.
pub open spec fn num_le(a: u64, b: u64) -> bool {
    a <= b
}

/// The numbers in ascending order.
pub open spec fn ascending(s: Seq<u64>) -> Seq<u64> {
    s.sort_by(|a: u64, b: u64| num_le(a, b))
}

/// The per-model counts list each model of the records once, with the number
/// of its records.
pub open spec fn usage_matches(usage: Seq<(String, u64)>, w: Seq<LlmInteractionLog>) -> bool {
    &&& forall|i: int| 0 <= i < usage.len() ==> #[trigger] usage[i].1 == count_model(w, usage[i].0@)
    &&& forall|i: int, j: int| 0 <= i < j < usage.len() ==> #[trigger] usage[i].0@ != #[trigger] usage[j].0@
    &&& forall|m: Seq<char>| count_model(w, m) > 0 ==> exists|i: int| 0 <= i < usage.len() && #[trigger] usage[i].0@ == m
}

/// `st` holds the statistics of the records `w`.
pub open spec fn statistics_of(st: LogStatistics, w: Seq<LlmInteractionLog>) -> bool {
    let n = w.len();
    let s = ascending(latencies(w));
    &&& st.total_requests == n
    &&& st.successful_requests == count_status(w, "success"@)
    &&& st.failed_requests == count_status(w, "error"@)
    &&& st.streaming_requests == count_streaming(w)
    &&& usage_matches(st.model_usage@, w)
    &&& st.total_prompt_tokens == token_total(w, 0)
    &&& st.total_completion_tokens == token_total(w, 1)
    &&& st.total_tokens == token_total(w, 2)
    &&& n == 0 ==> {
        &&& st.avg_latency_ms == 0 && st.min_latency_ms == 0 && st.max_latency_ms == 0
        &&& st.p50_latency_ms == 0 && st.p95_latency_ms == 0 && st.p99_latency_ms == 0
    }
    &&& n > 0 ==> {
        &&& st.avg_latency_ms == seq_sum(latencies(w)) / n
        &&& st.min_latency_ms == s[0]
        &&& st.max_latency_ms == s[n - 1]
        &&& st.p50_latency_ms == s[(n / 2) as int]
        &&& st.p95_latency_ms == s[(n * 95 / 100) as int]
        &&& st.p99_latency_ms == s[(n * 99 / 100) as int]
    }
}

proof fn lemma_count_model_bound(w: Seq<LlmInteractionLog>, m: Seq<char>)
    ensures
        count_model(w, m) <= w.len(),
    decreases w.len(),
{
    if w.len() > 0 {
        lemma_count_model_bound(w.drop_last(), m);
    }
}

proof fn lemma_count_model_push(w: Seq<LlmInteractionLog>, l: LlmInteractionLog)
    ensures
        forall|k: Seq<char>| #[trigger] count_model(w.push(l), k) == count_model(w, k) + if l.model@ == k {
            1nat
        } else {
            0nat
        },
{
    assert(w.push(l).drop_last() =~= w);
}

proof fn lemma_counts_bound(w: Seq<LlmInteractionLog>)
    ensures
        count_status(w, "success"@) <= w.len(),
        count_status(w, "error"@) <= w.len(),
        count_streaming(w) <= w.len(),
    decreases w.len(),
{
    if w.len() > 0 {
        lemma_counts_bound(w.drop_last());
    }
}

proof fn lemma_token_total_bound(w: Seq<LlmInteractionLog>, which: int)
    ensures
        token_total(w, which) <= w.len() * 0xffff_ffff,
    decreases w.len(),
{
    if w.len() > 0 {
        lemma_token_total_bound(w.drop_last(), which);
    }
}

proof fn lemma_seq_sum_bound(s: Seq<u64>)
    ensures
        seq_sum(s) <= s.len() * 0xffff_ffff_ffff_ffff,
    decreases s.len(),
{
    if s.len() > 0 {
        lemma_seq_sum_bound(s.drop_last());
    }
}

/// A window holds no more tokens than all the records.
proof fn lemma_window_tokens(logs: Seq<LlmInteractionLog>, cutoff: Option<i64>, which: int)
    ensures
        token_total(window(logs, cutoff), which) <= token_total(logs, which),
    decreases logs.len(),
{
    if logs.len() > 0 {
        lemma_window_tokens(logs.drop_last(), cutoff, which);
        let w = window(logs.drop_last(), cutoff);
        if in_window(logs.last(), cutoff) {
            assert(w.push(logs.last()).drop_last() =~= w);
        }
    }
}

/// Sorts numbers ascending by insertion.
fn sort_ascending(v: &Vec<u64>) -> (r: Vec<u64>)
    ensures
        r@ == ascending(v@),
{
    let mut out: Vec<u64> = Vec::new();
    let mut i: usize = 0;
    assert(v@.take(0) =~= out@);
    while i < v.len()
        invariant
            i <= v.len(),
            forall|a: int, b: int| 0 <= a < b < out@.len() ==> out@[a] <= out@[b],
            out@.to_multiset() == v@.take(i as int).to_multiset(),
        decreases v.len() - i,
    {
        let x = v[i];
        let mut pos: usize = 0;
        while pos < out.len() && out[pos] <= x
            invariant
                pos <= out.len(),
                forall|j: int| 0 <= j < pos ==> out@[j] <= x,
            decreases out.len() - pos,
        {
            pos = pos + 1;
        }
        let ghost before = out@;
        out.insert(pos, x);
        proof {
            broadcast use vstd::seq_lib::group_to_multiset_ensures;
            assert(out@ == before.insert(pos as int, x));
            assert(v@.take(i + 1) =~= v@.take(i as int).push(x));
            assert forall|a: int, b: int| 0 <= a < b < out@.len() implies out@[a] <= out@[b] by {
                if b < pos {
                } else if b == pos {
                } else if a < pos {
                    assert(before[pos as int] > x);
                    assert(before[a] <= x);
                } else if a == pos {
                    assert(before[pos as int] > x);
                } else {
                }
            }
        }
        i = i + 1;
    }
    proof {
        let leq = |a: u64, b: u64| num_le(a, b);
        assert(v@.take(v@.len() as int) =~= v@);
        v@.lemma_sort_by_ensures(leq);
        assert(sorted_by(out@, leq));
        assert(total_ordering(leq)) by {
            assert(vstd::relations::reflexive(leq));
            assert(vstd::relations::antisymmetric(leq));
            assert(vstd::relations::transitive(leq));
            assert(vstd::relations::strongly_connected(leq));
        }
        vstd::seq_lib::lemma_sorted_unique(out@, v@.sort_by(leq), leq);
    }
    out
}

/// Counts one more record of model `m` in the per-model counts of `w`.
fn add_model(usage: &mut Vec<(String, u64)>, m: &String, Ghost(w): Ghost<Seq<LlmInteractionLog>>, Ghost(l): Ghost<LlmInteractionLog>)
    requires
        usage_matches(old(usage)@, w),
        l.model == *m,
        w.len() < usize::MAX,
    ensures
        usage_matches(final(usage)@, w.push(l)),
{
    let ghost w2 = w.push(l);
    proof {
        lemma_count_model_push(w, l);
    }
    let mut i: usize = 0;
    while i < usage.len()
        invariant
            i <= usage.len(),
            usage@ == old(usage)@,
            usage_matches(usage@, w),
            l.model == *m,
            w.len() < usize::MAX,
            w2 == w.push(l),
            forall|j: int| 0 <= j < i ==> #[trigger] usage@[j].0@ != m@,
        decreases usage.len() - i,
    {
        if crate::text::chars_equal(
            chars_of(usage[i].0.as_str()).as_slice(),
            chars_of(m.as_str()).as_slice(),
        ) {
            let c = usage[i].1;
            proof {
                lemma_count_model_bound(w, m@);
                lemma_count_model_push(w, l);
                assert(usage@[i as int].1 == count_model(w, usage@[i as int].0@));
            }
            let key = usage[i].0.clone();
            let ghost before = usage@;
            usage.set(i, (key, c + 1));
            proof {
                assert forall|j: int| 0 <= j < usage@.len() implies #[trigger] usage@[j].1 == count_model(w2, usage@[j].0@) by {
                    if j != i {
                        assert(before[j].0@ != before[i as int].0@);
                    }
                }
                assert forall|j: int, k: int| 0 <= j < k < usage@.len() implies #[trigger] usage@[j].0@ != #[trigger] usage@[k].0@ by {
                    assert(before[j].0@ != before[k].0@);
                }
                assert forall|mm: Seq<char>| count_model(w2, mm) > 0 implies exists|j: int| 0 <= j < usage@.len() && #[trigger] usage@[j].0@ == mm by {
                    if mm == m@ {
                        assert(usage@[i as int].0@ == mm);
                    } else {
                        assert(count_model(w, mm) > 0);
                        let j = choose|j: int| 0 <= j < before.len() && #[trigger] before[j].0@ == mm;
                        assert(usage@[j].0@ == mm);
                    }
                }
            }
            return;
        }
        i = i + 1;
    }
    proof {
        if count_model(w, m@) > 0 {
            let j = choose|j: int| 0 <= j < usage@.len() && #[trigger] usage@[j].0@ == m@;
            assert(usage@[j].0@ != m@);
        }
    }
    let ghost before = usage@;
    usage.push((m.clone(), 1));
    proof {
        lemma_count_model_push(w, l);
        assert forall|j: int| 0 <= j < usage@.len() implies #[trigger] usage@[j].1 == count_model(w2, usage@[j].0@) by {
            if j < before.len() {
                assert(before[j].0@ != m@);
            }
        }
        assert forall|j: int, k: int| 0 <= j < k < usage@.len() implies #[trigger] usage@[j].0@ != #[trigger] usage@[k].0@ by {
            if k < before.len() {
                assert(before[j].0@ != before[k].0@);
            } else {
                assert(before[j].0@ != m@);
            }
        }
        assert forall|mm: Seq<char>| count_model(w2, mm) > 0 implies exists|j: int| 0 <= j < usage@.len() && #[trigger] usage@[j].0@ == mm by {
            if mm == m@ {
                assert(usage@[before.len() as int].0@ == mm);
            } else {
                assert(count_model(w, mm) > 0);
                let j = choose|j: int| 0 <= j < before.len() && #[trigger] before[j].0@ == mm;
                assert(usage@[j].0@ == mm);
            }
        }
    }
}

/// The statistics of the records in the window that starts at `cutoff`.
pub fn compute_statistics(logs: &[LlmInteractionLog], cutoff: Option<i64>) -> (st: LogStatistics)
    requires
        token_total(window(logs@, cutoff), 0) <= u64::MAX,
        token_total(window(logs@, cutoff), 1) <= u64::MAX,
        token_total(window(logs@, cutoff), 2) <= u64::MAX,
    ensures
        statistics_of(st, window(logs@, cutoff)),
{
    let mut total: u64 = 0;
    let mut ok: u64 = 0;
    let mut failed: u64 = 0;
    let mut streaming: u64 = 0;
    let mut prompt: u128 = 0;
    let mut completion: u128 = 0;
    let mut tokens: u128 = 0;
    let mut lat_sum: u128 = 0;
    let mut lats: Vec<u64> = Vec::new();
    let mut usage: Vec<(String, u64)> = Vec::new();
    let mut k: usize = 0;
    proof {
        assert(logs@.take(0) =~= Seq::<LlmInteractionLog>::empty());
        assert(latencies(Seq::<LlmInteractionLog>::empty()) =~= lats@);
    }
    while k < logs.len()
        invariant
            k <= logs.len(),
            ({
                let w = window(logs@.take(k as int), cutoff);
                &&& w.len() <= k
                &&& total == w.len()
                &&& ok == count_status(w, "success"@)
                &&& failed == count_status(w, "error"@)
                &&& streaming == count_streaming(w)
                &&& prompt == token_total(w, 0)
                &&& completion == token_total(w, 1)
                &&& tokens == token_total(w, 2)
                &&& lats@ == latencies(w)
                &&& lat_sum == seq_sum(lats@)
                &&& usage_matches(usage@, w)
            }),
        decreases logs.len() - k,
    {
        let ghost w = window(logs@.take(k as int), cutoff);
        let l = &logs[k];
        proof {
            assert(logs@.take(k + 1).drop_last() =~= logs@.take(k as int));
            assert(logs@.take(k + 1).last() == logs@[k as int]);
        }
        let keep = match cutoff {
            Some(c) => l.timestamp_ms >= c,
            None => true,
        };
        if keep {
            let ghost w2 = w.push(*l);
            proof {
                assert(window(logs@.take(k + 1), cutoff) == w2);
                assert(w2.drop_last() =~= w);
                lemma_token_total_bound(w, 0);
                lemma_token_total_bound(w, 1);
                lemma_token_total_bound(w, 2);
                lemma_seq_sum_bound(lats@);
                lemma_counts_bound(w);
                assert(w.len() * 0xffff_ffffnat + 0xffff_ffffnat < 0x1_0000_0000_0000_0000_0000_0000_0000_0000nat) by (nonlinear_arith)
                    requires
                        w.len() < 0x1_0000_0000_0000_0000,
                ;
                assert(lats@.len() * 0xffff_ffff_ffff_ffffnat + 0xffff_ffff_ffff_ffffnat < 0x1_0000_0000_0000_0000_0000_0000_0000_0000nat) by (nonlinear_arith)
                    requires
                        lats@.len() < 0x1_0000_0000_0000_0000,
                ;
            }
            total = total + 1;
            if crate::text::chars_equal(chars_of(l.meta.status.as_str()).as_slice(), chars_of("success").as_slice()) {
                ok = ok + 1;
            } else if crate::text::chars_equal(chars_of(l.meta.status.as_str()).as_slice(), chars_of("error").as_slice()) {
                failed = failed + 1;
            }
            if l.meta.is_streaming {
                streaming = streaming + 1;
            }
            add_model(&mut usage, &l.model, Ghost(w), Ghost(*l));
            let ghost prev_lats = lats@;
            lats.push(l.meta.latency_ms);
            lat_sum = lat_sum + (l.meta.latency_ms as u128);
            proof {
                assert(lats@.drop_last() =~= prev_lats);
                assert(latencies(w2) =~= lats@);
            }
            match &l.response {
                Some(r) => match &r.usage {
                    Some(u) => {
                        prompt = prompt + (u.prompt_tokens as u128);
                        completion = completion + (u.completion_tokens as u128);
                        tokens = tokens + (u.total_tokens as u128);
                    },
                    None => {},
                },
                None => {},
            }
            proof {
                reveal_strlit("success");
                reveal_strlit("error");
                assert("success"@.len() == 7);
                assert("error"@.len() == 5);
                assert("success"@ != "error"@);
                assert(w2.last() == *l);
                assert(total == w2.len());
                assert(ok == count_status(w2, "success"@));
                assert(failed == count_status(w2, "error"@));
                assert(streaming == count_streaming(w2));
                assert(prompt == token_total(w2, 0));
                assert(completion == token_total(w2, 1));
                assert(tokens == token_total(w2, 2));
                assert(lat_sum == seq_sum(lats@));
                assert(usage_matches(usage@, w2));
            }
        } else {
            proof {
                assert(window(logs@.take(k + 1), cutoff) == w);
            }
        }
        k = k + 1;
    }
    let ghost w = window(logs@.take(k as int), cutoff);
    proof {
        assert(logs@.take(k as int) =~= logs@);
    }
    let tokens = tokens as u64;
    let prompt = prompt as u64;
    let completion = completion as u64;
    if lats.len() == 0 {
        return LogStatistics {
            total_requests: total,
            successful_requests: ok,
            failed_requests: failed,
            streaming_requests: streaming,
            model_usage: usage,
            avg_latency_ms: 0,
            min_latency_ms: 0,
            max_latency_ms: 0,
            p50_latency_ms: 0,
            p95_latency_ms: 0,
            p99_latency_ms: 0,
            total_tokens: tokens,
            total_prompt_tokens: prompt,
            total_completion_tokens: completion,
        };
    }
    let sorted = sort_ascending(&lats);
    let n: usize = lats.len();
    proof {
        let leq = |a: u64, b: u64| num_le(a, b);
        lats@.lemma_sort_by_ensures(leq);
        assert(sorted@ == lats@.sort_by(leq));
        assert(sorted@.len() == lats@.len()) by {
            broadcast use vstd::seq_lib::group_to_multiset_ensures;
            assert(lats@.to_multiset().len() == lats@.len());
            assert(sorted@.to_multiset().len() == sorted@.len());
        }
        lemma_seq_sum_bound(lats@);
        assert(lat_sum / (n as u128) <= 0xffff_ffff_ffff_ffff) by (nonlinear_arith)
            requires
                lat_sum <= n * 0xffff_ffff_ffff_ffffnat,
                n > 0,
        ;
    }
    let avg = (lat_sum / (n as u128)) as u64;
    let n128 = n as u128;
    proof {
        assert(n128 * 95 / 100 < n128) by (nonlinear_arith)
            requires
                n128 > 0,
        ;
        assert(n128 * 99 / 100 < n128) by (nonlinear_arith)
            requires
                n128 > 0,
        ;
    }
    let i95 = (n128 * 95 / 100) as usize;
    let i99 = (n128 * 99 / 100) as usize;
    LogStatistics {
        total_requests: total,
        successful_requests: ok,
        failed_requests: failed,
        streaming_requests: streaming,
        model_usage: usage,
        avg_latency_ms: avg,
        min_latency_ms: sorted[0],
        max_latency_ms: sorted[n - 1],
        p50_latency_ms: sorted[n / 2],
        p95_latency_ms: sorted[i95],
        p99_latency_ms: sorted[i99],
        total_tokens: tokens,
        total_prompt_tokens: prompt,
        total_completion_tokens: completion,
    }
}

/// The cutoff `days` days before `now_ms` (no cutoff without `days`); a cutoff
/// before the earliest representable instant is that instant.
pub open spec fn cutoff_for(now_ms: int, days: Option<u32>) -> Option<i64> {
    match days {
        Some(d) => {
            let c = now_ms - d * 86_400_000;
            Some(if c < i64::MIN { i64::MIN } else { c as i64 })
        },
        None => None,
    }
}

fn cutoff_from(now_ms: i64, days: Option<u32>) -> (r: Option<i64>)
    ensures
        r == cutoff_for(now_ms as int, days),
{
    match days {
        Some(d) => {
            let c: i128 = (now_ms as i128) - (d as i128) * 86_400_000;
            Some(if c < (i64::MIN as i128) { i64::MIN } else { c as i64 })
        },
        None => None,
    }
}

/// Whether a record mentions the lowercased keyword `kw`: in the lowercased
/// request summary, response summary or model name.
pub open spec fn mentions(l: LlmInteractionLog, kw: Seq<char>) -> bool {
    ||| has_infix(lowercase(l.request.summary@), kw)
    ||| (l.response is Some && has_infix(lowercase(l.response->0.summary@), kw))
    ||| has_infix(lowercase(l.model@), kw)
}

/// The records in the window that mention `kw`, in order.
pub open spec fn found(logs: Seq<LlmInteractionLog>, cutoff: Option<i64>, kw: Seq<char>) -> Seq<LlmInteractionLog>
    decreases logs.len(),
{
    if logs.len() == 0 {
        Seq::empty()
    } else {
        let f = found(logs.drop_last(), cutoff, kw);
        if in_window(logs.last(), cutoff) && mentions(logs.last(), kw) {
            f.push(logs.last())
        } else {
            f
        }
    }
}

/// Newest first: timestamps never increase along the sequence.
pub open spec fn newest_first(r: Seq<LlmInteractionLog>) -> bool {
    forall|i: int, j: int| 0 <= i < j < r.len() ==> r[i].timestamp_ms >= r[j].timestamp_ms
}

fn mentions_keyword(l: &LlmInteractionLog, kw: &[char]) -> (b: bool)
    ensures
        b == mentions(*l, kw@),
{
    let s1 = to_lowercase(l.request.summary.as_str());
    if contains(chars_of(s1.as_str()).as_slice(), kw) {
        return true;
    }
    match &l.response {
        Some(r) => {
            let s2 = to_lowercase(r.summary.as_str());
            if contains(chars_of(s2.as_str()).as_slice(), kw) {
                return true;
            }
        },
        None => {},
    }
    let s3 = to_lowercase(l.model.as_str());
    contains(chars_of(s3.as_str()).as_slice(), kw)
}

impl LlmLogger {
    /// The statistics of the records of the last `days` days (all records
    /// without `days`), by the system clock.
    pub fn statistics(&self, logs: &[LlmInteractionLog], days: Option<u32>) -> (st: LogStatistics)
        requires
            token_total(logs@, 0) <= u64::MAX,
            token_total(logs@, 1) <= u64::MAX,
            token_total(logs@, 2) <= u64::MAX,
        ensures
            exists|now: i64| statistics_of(st, window(logs@, cutoff_for(now as int, days))),
            days is None ==> statistics_of(st, window(logs@, None)),
    {
        let now = clock_millis();
        let cutoff = cutoff_from(now, days);
        proof {
            lemma_window_tokens(logs@, cutoff, 0);
            lemma_window_tokens(logs@, cutoff, 1);
            lemma_window_tokens(logs@, cutoff, 2);
        }
        compute_statistics(logs, cutoff)
    }

    /// The records of the last `days` days (all without `days`), by the system
    /// clock, that mention `keyword` (ignoring case), newest first.
    pub fn search(&self, logs: Vec<LlmInteractionLog>, keyword: &str, days: Option<u32>) -> (r: Vec<LlmInteractionLog>)
        ensures
            newest_first(r@),
            exists|now: i64| r@.to_multiset() == found(logs@, cutoff_for(now as int, days), lowercase(keyword@)).to_multiset(),
    {
        let now = clock_millis();
        let cutoff = cutoff_from(now, days);
        let kw_s = to_lowercase(keyword);
        let kw = chars_of(kw_s.as_str());
        let ghost kwv = lowercase(keyword@);
        let mut rest = logs;
        let mut out: Vec<LlmInteractionLog> = Vec::new();
        proof {
            broadcast use vstd::seq_lib::group_to_multiset_ensures;
            broadcast use vstd::multiset::group_multiset_axioms;
            assert(out@.to_multiset() =~= Multiset::<LlmInteractionLog>::empty());
            assert(out@.to_multiset().add(found(rest@, cutoff, kwv).to_multiset()) =~= found(logs@, cutoff, kwv).to_multiset());
        }
        while rest.len() > 0
            invariant
                kw@ == kwv,
                newest_first(out@),
                out@.to_multiset().add(found(rest@, cutoff, kwv).to_multiset()) == found(logs@, cutoff, kwv).to_multiset(),
            decreases rest.len(),
        {
            let ghost before_rest = rest@;
            let x = rest.pop().unwrap();
            proof {
                assert(rest@ =~= before_rest.drop_last());
                assert(x == before_rest.last());
            }
            let keep = match cutoff {
                Some(c) => x.timestamp_ms >= c,
                None => true,
            } && mentions_keyword(&x, kw.as_slice());
            if keep {
                let mut pos: usize = 0;
                while pos < out.len() && out[pos].timestamp_ms >= x.timestamp_ms
                    invariant
                        pos <= out.len(),
                        forall|j: int| 0 <= j < pos ==> out@[j].timestamp_ms >= x.timestamp_ms,
                    decreases out.len() - pos,
                {
                    pos = pos + 1;
                }
                let ghost before = out@;
                out.insert(pos, x);
                proof {
                    broadcast use vstd::seq_lib::group_to_multiset_ensures;
                    broadcast use vstd::multiset::group_multiset_axioms;
                    assert(out@ == before.insert(pos as int, x));
                    assert(found(before_rest, cutoff, kwv) == found(rest@, cutoff, kwv).push(x));
                    assert(out@.to_multiset().add(found(rest@, cutoff, kwv).to_multiset()) =~= before.to_multiset().add(
                        found(before_rest, cutoff, kwv).to_multiset(),
                    ));
                    assert forall|a: int, b: int| 0 <= a < b < out@.len() implies out@[a].timestamp_ms
                        >= out@[b].timestamp_ms by {
                        if b < pos {
                        } else if b == pos {
                        } else if a < pos {
                            assert(before[pos as int].timestamp_ms < x.timestamp_ms);
                        } else if a == pos {
                            assert(before[pos as int].timestamp_ms < x.timestamp_ms);
                        } else {
                        }
                    }
                }
            } else {
                proof {
                    assert(found(before_rest, cutoff, kwv) == found(rest@, cutoff, kwv));
                }
            }
        }
        proof {
            broadcast use vstd::multiset::group_multiset_axioms;
            assert(rest@ =~= Seq::<LlmInteractionLog>::empty());
            assert(found(rest@, cutoff, kwv) =~= Seq::<LlmInteractionLog>::empty());
            assert(found(rest@, cutoff, kwv).to_multiset() =~= Multiset::<LlmInteractionLog>::empty()) by {
                broadcast use vstd::seq_lib::group_to_multiset_ensures;
            }
            assert(out@.to_multiset().add(Multiset::<LlmInteractionLog>::empty()) =~= out@.to_multiset());
        }
        out
    }
}

/// Statistics never count more successes and failures than requests, and
/// their latency figures are ordered: min ≤ p50 ≤ p95 ≤ p99 ≤ max, with the
/// mean between min and max.
pub proof fn law_statistics_ordered(st: LogStatistics, w: Seq<LlmInteractionLog>)
    requires
        statistics_of(st, w),
    ensures
        st.successful_requests + st.failed_requests <= st.total_requests,
        st.min_latency_ms <= st.p50_latency_ms,
        st.p50_latency_ms <= st.p95_latency_ms,
        st.p95_latency_ms <= st.p99_latency_ms,
        st.p99_latency_ms <= st.max_latency_ms,
        st.min_latency_ms <= st.avg_latency_ms <= st.max_latency_ms,
{
    lemma_success_error_bound(w);
    let n = w.len();
    if n > 0 {
        let leq = |a: u64, b: u64| num_le(a, b);
        let l = latencies(w);
        let s = ascending(l);
        l.lemma_sort_by_ensures(leq);
        assert(s.len() == n) by {
            broadcast use vstd::seq_lib::group_to_multiset_ensures;
            assert(l.to_multiset().len() == l.len());
            assert(s.to_multiset().len() == s.len());
        }
        assert(sorted_by(s, leq));
        let i50 = (n / 2) as int;
        let i95 = (n * 95 / 100) as int;
        let i99 = (n * 99 / 100) as int;
        assert(i50 <= i95 && i95 <= i99 && i99 < n) by (nonlinear_arith)
            requires
                i50 == n / 2,
                i95 == n * 95 / 100,
                i99 == n * 99 / 100,
                n > 0,
        ;
        assert(s[0] <= s[i50]) by {
            if 0 < i50 {
                assert(leq(s[0], s[i50]));
            }
        }
        assert(s[i50] <= s[i95]) by {
            if i50 < i95 {
                assert(leq(s[i50], s[i95]));
            }
        }
        assert(s[i95] <= s[i99]) by {
            if i95 < i99 {
                assert(leq(s[i95], s[i99]));
            }
        }
        assert(s[i99] <= s[n - 1]) by {
            if i99 < n - 1 {
                assert(leq(s[i99], s[n - 1]));
            }
        }
        lemma_sum_between(l, s);
        assert(s[0] * n <= seq_sum(l) <= s[n - 1] * n);
        assert(s[0] <= seq_sum(l) / n <= s[n - 1]) by (nonlinear_arith)
            requires
                s[0] * n <= seq_sum(l) <= s[n - 1] * n,
                n > 0,
        ;
    }
}

proof fn lemma_success_error_bound(w: Seq<LlmInteractionLog>)
    ensures
        count_status(w, "success"@) + count_status(w, "error"@) <= w.len(),
    decreases w.len(),
{
    if w.len() > 0 {
        lemma_success_error_bound(w.drop_last());
        reveal_strlit("success");
        reveal_strlit("error");
        assert("success"@ != "error"@) by {
            assert("success"@.len() != "error"@.len());
        }
    }
}

/// Every latency lies between the smallest and the largest of the ascending
/// order, so their sum lies between `n` times each.
proof fn lemma_sum_between(l: Seq<u64>, s: Seq<u64>)
    requires
        l.len() > 0,
        s == ascending(l),
        s.len() == l.len(),
        sorted_by(s, |a: u64, b: u64| num_le(a, b)),
        l.to_multiset() == s.to_multiset(),
    ensures
        s[0] * l.len() <= seq_sum(l) <= s[l.len() - 1] * l.len(),
{
    let lo = s[0];
    let hi = s[s.len() - 1];
    let leq = |a: u64, b: u64| num_le(a, b);
    assert forall|i: int| 0 <= i < l.len() implies lo <= #[trigger] l[i] <= hi by {
        broadcast use vstd::seq_lib::group_to_multiset_ensures;
        assert(l.contains(l[i]));
        assert(l.to_multiset().count(l[i]) > 0);
        assert(s.to_multiset().count(l[i]) > 0);
        assert(s.contains(l[i]));
        let j = choose|j: int| 0 <= j < s.len() && s[j] == l[i];
        if 0 < j {
            assert(leq(s[0], s[j]));
        }
        if j < s.len() - 1 {
            assert(leq(s[j], s[s.len() - 1]));
        }
    }
    lemma_sum_bounds(l, lo, hi);
}

proof fn lemma_sum_bounds(l: Seq<u64>, lo: u64, hi: u64)
    requires
        forall|i: int| 0 <= i < l.len() ==> lo <= #[trigger] l[i] <= hi,
    ensures
        lo * l.len() <= seq_sum(l) <= hi * l.len(),
    decreases l.len(),
{
    if l.len() > 0 {
        let p = l.drop_last();
        assert forall|i: int| 0 <= i < p.len() implies lo <= #[trigger] p[i] <= hi by {
            assert(p[i] == l[i]);
        }
        lemma_sum_bounds(p, lo, hi);
        assert(lo <= l.last() <= hi);
        assert(lo * l.len() == lo * p.len() + lo) by (nonlinear_arith)
            requires
                l.len() == p.len() + 1,
        ;
        assert(hi * l.len() == hi * p.len() + hi) by (nonlinear_arith)
            requires
                l.len() == p.len() + 1,
        ;
    }
}

} // verus!
