//! Messages, responses, errors and call statistics of LLM clients.
//!
//! The HTTP clients themselves run in the application; what they decide
//! (how a transport failure is classified, whether it is retried, how an
//! error reads) is stated and proved here.

use vstd::prelude::*;
use crate::text::{chars_of, string_of, extend_chars, push_decimal, decimal};

verus! {

// ---------------------------------------------------------------------------
// Errors
// ---------------------------------------------------------------------------

/// Failure of an LLM call.
#[derive(Debug, Clone)]
pub enum LlmError {
    /// The request did not reach the service.
    Network(String),
    /// The service answered with an HTTP error status.
    Http { status: u16, message: String },
    /// The service refused because of rate limiting (HTTP 429).
    RateLimit,
    /// The request timed out.
    Timeout,
    /// The answer could not be parsed.
    Parse(String),
    /// The client is misconfigured.
    Config(String),
    /// Anything else.
    Other(String),
}

/// The text of an error message, as the error's display shows it.
pub open spec fn error_text(e: LlmError) -> Seq<char> {
    match e {
        LlmError::Network(m) => "Network error: "@ + m@,
        LlmError::Http { status, message } => "HTTP "@ + decimal(status as nat) + ": "@ + message@,
        LlmError::RateLimit => "Rate limit exceeded"@,
        LlmError::Timeout => "Timeout"@,
        LlmError::Parse(m) => "Parse error: "@ + m@,
        LlmError::Config(m) => "Config error: "@ + m@,
        LlmError::Other(m) => m@,
    }
}

/// Whether a failed call may be retried: network errors, timeouts, rate limits
/// and HTTP statuses 500 to 599.
pub open spec fn retryable(e: LlmError) -> bool {
    match e {
        LlmError::Network(_) => true,
        LlmError::Timeout => true,
        LlmError::RateLimit => true,
        LlmError::Http { status, .. } => 500 <= status && status <= 599,
        _ => false,
    }
}

impl LlmError {
    /// Classifies a failed transport call from what the HTTP library reported:
    /// whether it timed out, the HTTP status if any, and its description.
    pub fn from_transport_failure(is_timeout: bool, status: Option<u16>, text: String) -> (r:
        LlmError)
        ensures
            is_timeout ==> r is Timeout,
            !is_timeout && status == Some(429u16) ==> r is RateLimit,
            !is_timeout && (status matches Some(s) && s != 429) ==> (r matches LlmError::Http {
                status: s2,
                message,
            } && Some(s2) == status && message@ == text@),
            !is_timeout && status is None ==> (r matches LlmError::Network(m) && m@ == text@),
    {
        if is_timeout {
            LlmError::Timeout
        } else {
            match status {
                Some(s) => {
                    if s == 429 {
                        LlmError::RateLimit
                    } else {
                        LlmError::Http { status: s, message: text }
                    }
                },
                None => LlmError::Network(text),
            }
        }
    }

    /// The message of the error (see `error_text`).
    pub fn message(&self) -> (r: String)
        ensures
            r@ == error_text(*self),
    {
        let mut out: Vec<char> = Vec::new();
        match self {
            LlmError::Network(m) => {
                extend_chars(&mut out, chars_of("Network error: ").as_slice());
                extend_chars(&mut out, chars_of(m.as_str()).as_slice());
            },
            LlmError::Http { status, message } => {
                extend_chars(&mut out, chars_of("HTTP ").as_slice());
                push_decimal(&mut out, *status as u64);
                extend_chars(&mut out, chars_of(": ").as_slice());
                extend_chars(&mut out, chars_of(message.as_str()).as_slice());
            },
            LlmError::RateLimit => {
                extend_chars(&mut out, chars_of("Rate limit exceeded").as_slice());
            },
            LlmError::Timeout => {
                extend_chars(&mut out, chars_of("Timeout").as_slice());
            },
            LlmError::Parse(m) => {
                extend_chars(&mut out, chars_of("Parse error: ").as_slice());
                extend_chars(&mut out, chars_of(m.as_str()).as_slice());
            },
            LlmError::Config(m) => {
                extend_chars(&mut out, chars_of("Config error: ").as_slice());
                extend_chars(&mut out, chars_of(m.as_str()).as_slice());
            },
            LlmError::Other(m) => {
                extend_chars(&mut out, chars_of(m.as_str()).as_slice());
            },
        }
        assert(out@ =~= error_text(*self));
        string_of(out.as_slice())
    }
}

/// Whether a failed call may be retried (see `retryable`).
pub fn is_retryable_error(error: &LlmError) -> (r: bool)
    ensures
        r == retryable(*error),
{
    match error {
        LlmError::Network(_) => true,
        LlmError::Timeout => true,
        LlmError::RateLimit => true,
        LlmError::Http { status, .. } => 500 <= *status && *status <= 599,
        _ => false,
    }
}

// ---------------------------------------------------------------------------
// Messages
// ---------------------------------------------------------------------------

/// Role of a message in a conversation.
#[derive(Debug, Clone, Copy, PartialEq, Eq, Structural)]
pub enum MessageRole {
    System,
    User,
    Assistant,
    Tool,
}

/// A function that the model asks to call.
#[derive(Debug, Clone)]
pub struct FunctionCall {
    pub name: String,
    /// The arguments as a JSON text.
    pub arguments: String,
}

/// A tool call in an assistant message.
#[derive(Debug, Clone)]
pub struct ToolCall {
    pub id: String,
    /// Usually `function`.
    pub call_type: String,
    pub function: FunctionCall,
}

/// A message of a conversation.
#[derive(Debug, Clone)]
pub struct Message {
    pub role: MessageRole,
    pub content: Option<String>,
    pub tool_calls: Option<Vec<ToolCall>>,
    pub tool_call_id: Option<String>,
}

impl Message {
    /// A system message with the given text.
    pub fn system(content: &str) -> (r: Message)
        ensures
            r.role == MessageRole::System,
            r.content matches Some(c) && c@ == content@,
            r.tool_calls is None,
            r.tool_call_id is None,
    {
        Message {
            role: MessageRole::System,
            content: Some(string_of(chars_of(content).as_slice())),
            tool_calls: None,
            tool_call_id: None,
        }
    }

    /// A user message with the given text.
    pub fn user(content: &str) -> (r: Message)
        ensures
            r.role == MessageRole::User,
            r.content matches Some(c) && c@ == content@,
            r.tool_calls is None,
            r.tool_call_id is None,
    {
        Message {
            role: MessageRole::User,
            content: Some(string_of(chars_of(content).as_slice())),
            tool_calls: None,
            tool_call_id: None,
        }
    }

    /// An assistant message with the given text.
    pub fn assistant(content: &str) -> (r: Message)
        ensures
            r.role == MessageRole::Assistant,
            r.content matches Some(c) && c@ == content@,
            r.tool_calls is None,
            r.tool_call_id is None,
    {
        Message {
            role: MessageRole::Assistant,
            content: Some(string_of(chars_of(content).as_slice())),
            tool_calls: None,
            tool_call_id: None,
        }
    }

    /// An assistant message that asks for tool calls.
    pub fn assistant_with_tools(tool_calls: Vec<ToolCall>) -> (r: Message)
        ensures
            r.role == MessageRole::Assistant,
            r.content is None,
            r.tool_calls == Some(tool_calls),
            r.tool_call_id is None,
    {
        Message {
            role: MessageRole::Assistant,
            content: None,
            tool_calls: Some(tool_calls),
            tool_call_id: None,
        }
    }

    /// The result of a tool call, answering the call `tool_call_id`.
    pub fn tool_result(tool_call_id: String, content: String) -> (r: Message)
        ensures
            r.role == MessageRole::Tool,
            r.content == Some(content),
            r.tool_calls is None,
            r.tool_call_id == Some(tool_call_id),
    {
        Message {
            role: MessageRole::Tool,
            content: Some(content),
            tool_calls: None,
            tool_call_id: Some(tool_call_id),
        }
    }
}

/// A copy of a tool call, field by field.
pub fn copy_tool_call(t: &ToolCall) -> (r: ToolCall)
    ensures
        r == *t,
{
    ToolCall {
        id: t.id.clone(),
        call_type: t.call_type.clone(),
        function: FunctionCall {
            name: t.function.name.clone(),
            arguments: t.function.arguments.clone(),
        },
    }
}

fn copy_opt_string(s: &Option<String>) -> (r: Option<String>)
    ensures
        r == *s,
{
    match s {
        Some(x) => Some(x.clone()),
        None => None,
    }
}

/// A copy of a message, field by field.
pub fn copy_message(m: &Message) -> (r: Message)
    ensures
        r.role == m.role,
        r.content == m.content,
        r.tool_call_id == m.tool_call_id,
        r.tool_calls is Some <==> m.tool_calls is Some,
        r.tool_calls is Some ==> r.tool_calls->0@ == m.tool_calls->0@,
{
    let tool_calls = match &m.tool_calls {
        Some(v) => {
            let mut out: Vec<ToolCall> = Vec::new();
            let mut i: usize = 0;
            while i < v.len()
                invariant
                    i <= v.len(),
                    out@ == v@.take(i as int),
                decreases v.len() - i,
            {
                out.push(copy_tool_call(&v[i]));
                assert(out@ =~= v@.take(i + 1));
                i = i + 1;
            }
            assert(out@ =~= v@);
            Some(out)
        },
        None => None,
    };
    Message {
        role: m.role,
        content: copy_opt_string(&m.content),
        tool_calls,
        tool_call_id: copy_opt_string(&m.tool_call_id),
    }
}

/// Two messages agree in every field (their tool calls by their views).
pub open spec fn same_message(a: Message, b: Message) -> bool {
    &&& a.role == b.role
    &&& a.content == b.content
    &&& a.tool_call_id == b.tool_call_id
    &&& (a.tool_calls is Some <==> b.tool_calls is Some)
    &&& (a.tool_calls is Some ==> a.tool_calls->0@ == b.tool_calls->0@)
}

/// Copies of the messages, in order.
pub fn copy_messages(ms: &[Message]) -> (r: Vec<Message>)
    ensures
        r@.len() == ms@.len(),
        forall|i: int| 0 <= i < ms@.len() ==> same_message(#[trigger] r@[i], ms@[i]),
{
    let mut out: Vec<Message> = Vec::new();
    let mut i: usize = 0;
    while i < ms.len()
        invariant
            i <= ms.len(),
            out@.len() == i,
            forall|j: int| 0 <= j < i ==> same_message(#[trigger] out@[j], ms@[j]),
        decreases ms.len() - i,
    {
        out.push(copy_message(&ms[i]));
        i = i + 1;
    }
    out
}

/// The name of a role as its debug rendering shows it.
pub open spec fn role_name(r: MessageRole) -> Seq<char> {
    match r {
        MessageRole::System => "System"@,
        MessageRole::User => "User"@,
        MessageRole::Assistant => "Assistant"@,
        MessageRole::Tool => "Tool"@,
    }
}

/// The name of a role (see `role_name`).
pub fn role_name_of(r: MessageRole) -> (s: &'static str)
    ensures
        s@ == role_name(r),
{
    match r {
        MessageRole::System => "System",
        MessageRole::User => "User",
        MessageRole::Assistant => "Assistant",
        MessageRole::Tool => "Tool",
    }
}

// ---------------------------------------------------------------------------
// Call statistics
// ---------------------------------------------------------------------------

/// Counters of an LLM client; each counter wraps around at `u64::MAX`.
#[derive(Debug, Clone)]
pub struct ClientStats {
    total_calls: u64,
    total_retries: u64,
    total_errors: u64,
    total_success: u64,
}

/// The successor of a counter, wrapping to 0 after `u64::MAX`.
pub open spec fn bump(x: u64) -> u64 {
    if x == u64::MAX {
        0
    } else {
        (x + 1) as u64
    }
}

impl ClientStats {
    /// The counters (calls, retries, errors, successes).
    pub closed spec fn counters(self) -> (u64, u64, u64, u64) {
        (self.total_calls, self.total_retries, self.total_errors, self.total_success)
    }

    /// All counters at zero.
    pub fn new() -> (r: ClientStats)
        ensures
            r.counters() == (0u64, 0u64, 0u64, 0u64),
    {
        ClientStats { total_calls: 0, total_retries: 0, total_errors: 0, total_success: 0 }
    }

    /// A copy with the same counters.
    pub fn copy(&self) -> (r: ClientStats)
        ensures
            r.counters() == self.counters(),
    {
        ClientStats {
            total_calls: self.total_calls,
            total_retries: self.total_retries,
            total_errors: self.total_errors,
            total_success: self.total_success,
        }
    }

    /// Counts a call.
    pub fn record_call(&mut self)
        ensures
            final(self).counters() == (
                bump(old(self).counters().0),
                old(self).counters().1,
                old(self).counters().2,
                old(self).counters().3,
            ),
    {
        self.total_calls = self.total_calls.wrapping_add(1);
    }

    /// Counts a retry.
    pub fn record_retry(&mut self)
        ensures
            final(self).counters() == (
                old(self).counters().0,
                bump(old(self).counters().1),
                old(self).counters().2,
                old(self).counters().3,
            ),
    {
        self.total_retries = self.total_retries.wrapping_add(1);
    }

    /// Counts an error.
    pub fn record_error(&mut self)
        ensures
            final(self).counters() == (
                old(self).counters().0,
                old(self).counters().1,
                bump(old(self).counters().2),
                old(self).counters().3,
            ),
    {
        self.total_errors = self.total_errors.wrapping_add(1);
    }

    /// Counts a success.
    pub fn record_success(&mut self)
        ensures
            final(self).counters() == (
                old(self).counters().0,
                old(self).counters().1,
                old(self).counters().2,
                bump(old(self).counters().3),
            ),
    {
        self.total_success = self.total_success.wrapping_add(1);
    }

    /// Number of calls.
    pub fn total_calls(&self) -> (r: u64)
        ensures
            r == self.counters().0,
    {
        self.total_calls
    }

    /// Number of retries.
    pub fn total_retries(&self) -> (r: u64)
        ensures
            r == self.counters().1,
    {
        self.total_retries
    }

    /// Number of errors.
    pub fn total_errors(&self) -> (r: u64)
        ensures
            r == self.counters().2,
    {
        self.total_errors
    }

    /// Number of successes.
    pub fn total_success(&self) -> (r: u64)
        ensures
            r == self.counters().3,
    {
        self.total_success
    }
}

impl Default for ClientStats {
    fn default() -> (r: ClientStats)
        ensures
            r.counters() == (0u64, 0u64, 0u64, 0u64),
    {
        ClientStats::new()
    }
}

// ---------------------------------------------------------------------------
// Chat responses
// ---------------------------------------------------------------------------

/// A chat answer: text, tool calls, or both.
#[derive(Debug, Clone)]
pub struct ChatResponse {
    pub content: Option<String>,
    pub tool_calls: Vec<ToolCall>,
    /// True when the answer asks for no tool call.
    pub is_final: bool,
}

impl ChatResponse {
    /// A final answer made of text only.
    pub fn text(content: String) -> (r: ChatResponse)
        ensures
            r.content == Some(content),
            r.tool_calls@.len() == 0,
            r.is_final,
    {
        ChatResponse { content: Some(content), tool_calls: Vec::new(), is_final: true }
    }

    /// An answer that asks for tool calls; it is final only when the list of
    /// calls is empty (a final answer is one without tool calls).
    pub fn with_tools(tool_calls: Vec<ToolCall>) -> (r: ChatResponse)
        ensures
            r.content is None,
            r.tool_calls == tool_calls,
            r.is_final == (tool_calls@.len() == 0),
    {
        let is_final = tool_calls.len() == 0;
        ChatResponse { content: None, tool_calls, is_final }
    }
}

// ---------------------------------------------------------------------------
// Endpoints and retries
// ---------------------------------------------------------------------------

/// The endpoint without its trailing slashes (std `str::trim_end_matches('/')`).
pub open spec fn without_trailing_slashes(s: Seq<char>) -> Seq<char>
    decreases s.len(),
{
    if s.len() > 0 && s.last() == '/' {
        without_trailing_slashes(s.drop_last())
    } else {
        s
    }
}

/// Normalises an API endpoint by removing its trailing slashes.
pub fn normalize_endpoint(endpoint: &str) -> (r: String)
    ensures
        r@ == without_trailing_slashes(endpoint@),
{
    let cs = chars_of(endpoint);
    let mut n: usize = cs.len();
    proof {
        assert(cs@.take(n as int) =~= cs@);
    }
    while n > 0 && cs[n - 1] == '/'
        invariant
            n <= cs@.len(),
            without_trailing_slashes(cs@.take(n as int)) == without_trailing_slashes(cs@),
        decreases n,
    {
        proof {
            assert(cs@.take(n as int).drop_last() =~= cs@.take(n - 1));
        }
        n = n - 1;
    }
    let mut out: Vec<char> = Vec::new();
    let mut i: usize = 0;
    while i < n
        invariant
            i <= n,
            n <= cs@.len(),
            out@ == cs@.take(i as int),
        decreases n - i,
    {
        out.push(cs[i]);
        assert(out@ =~= cs@.take(i + 1));
        i = i + 1;
    }
    string_of(out.as_slice())
}

/// The course of a retried call: how many attempts may be made, how many
/// were made, and the last error.
pub struct RetryRun {
    max_attempts: u32,
    attempt: u32,
    last_error: Option<LlmError>,
}

/// What the retry loop does next.
#[derive(Debug, Clone, Copy, PartialEq, Eq, Structural)]
pub enum RetryStep {
    /// Make attempt number `attempt` (after waiting the backoff when it is not the first).
    Attempt(u32),
    /// Stop and report the last error.
    GiveUp,
}

impl RetryRun {
    /// Attempts allowed.
    pub closed spec fn max_view(&self) -> u32 {
        self.max_attempts
    }

    /// Attempts made.
    pub closed spec fn attempt_view(&self) -> u32 {
        self.attempt
    }

    /// The last error.
    pub closed spec fn last_error_view(&self) -> Option<LlmError> {
        self.last_error
    }

    /// A call of at most `max_attempts` attempts, none made yet.
    pub fn new(max_attempts: u32) -> (r: RetryRun)
        ensures
            r.max_view() == max_attempts,
            r.attempt_view() == 0,
            r.last_error_view() is None,
    {
        RetryRun { max_attempts, attempt: 0, last_error: None }
    }

    /// The first step: the first attempt, unless no attempt is allowed.
    pub fn start(&mut self) -> (r: RetryStep)
        requires
            old(self).attempt_view() == 0,
        ensures
            old(self).max_view() >= 1 ==> r == RetryStep::Attempt(1) && final(self).attempt_view() == 1,
            old(self).max_view() == 0 ==> r == RetryStep::GiveUp && final(self).attempt_view() == 0,
            final(self).max_view() == old(self).max_view(),
            final(self).last_error_view() == old(self).last_error_view(),
    {
        if self.max_attempts >= 1 {
            self.attempt = 1;
            RetryStep::Attempt(1)
        } else {
            RetryStep::GiveUp
        }
    }

    /// After the current attempt failed with `error`: another attempt when
    /// attempts remain and the error is retryable, else give up. The error is
    /// kept as the last one.
    pub fn after_failure(&mut self, error: LlmError) -> (r: RetryStep)
        requires
            1 <= old(self).attempt_view() <= old(self).max_view(),
        ensures
            final(self).last_error_view() == Some(error),
            final(self).max_view() == old(self).max_view(),
            (old(self).attempt_view() < old(self).max_view() && retryable(error)) ==> r
                == RetryStep::Attempt((old(self).attempt_view() + 1) as u32) && final(self).attempt_view()
                == old(self).attempt_view() + 1,
            !(old(self).attempt_view() < old(self).max_view() && retryable(error)) ==> r
                == RetryStep::GiveUp && final(self).attempt_view() == old(self).attempt_view(),
            final(self).attempt_view() <= final(self).max_view(),
    {
        let again = self.attempt < self.max_attempts && is_retryable_error(&error);
        self.last_error = Some(error);
        if again {
            self.attempt = self.attempt + 1;
            RetryStep::Attempt(self.attempt)
        } else {
            RetryStep::GiveUp
        }
    }

    /// After the current attempt succeeded: a call that needed more than one
    /// attempt counts one retry in the statistics.
    pub fn after_success(&self, stats: &mut ClientStats)
        ensures
            self.attempt_view() > 1 ==> final(stats).counters() == (
                old(stats).counters().0,
                bump(old(stats).counters().1),
                old(stats).counters().2,
                old(stats).counters().3,
            ),
            self.attempt_view() <= 1 ==> final(stats).counters() == old(stats).counters(),
    {
        if self.attempt > 1 {
            stats.record_retry();
        }
    }

    /// The error a call that gave up reports: the last error, or
    /// `Unknown error after retries` when no attempt was made.
    pub fn into_error(self) -> (r: LlmError)
        ensures
            self.last_error_view() matches Some(e) ==> r == e,
            self.last_error_view() is None ==> (r matches LlmError::Other(m) && m@ == "Unknown error after retries"@),
    {
        match self.last_error {
            Some(e) => e,
            None => LlmError::Other(string_of(chars_of("Unknown error after retries").as_slice())),
        }
    }
}

// ---------------------------------------------------------------------------
// Gemini conversation layout
// ---------------------------------------------------------------------------

/// The turns of a Gemini conversation: each user or assistant message with
/// text, in order, as `(role, text)` with the assistant's role named `model`.
pub open spec fn gemini_turns(ms: Seq<Message>) -> Seq<(Seq<char>, Seq<char>)>
    decreases ms.len(),
{
    if ms.len() == 0 {
        Seq::empty()
    } else {
        let r = gemini_turns(ms.drop_last());
        let m = ms.last();
        match m.content {
            Some(c) => match m.role {
                MessageRole::User => r.push(("user"@, c@)),
                MessageRole::Assistant => r.push(("model"@, c@)),
                _ => r,
            },
            None => r,
        }
    }
}

/// The system instruction: the text of the last system message that has one.
pub open spec fn system_instruction(ms: Seq<Message>) -> Option<Seq<char>>
    decreases ms.len(),
{
    if ms.len() == 0 {
        None
    } else {
        let m = ms.last();
        if m.role == MessageRole::System && m.content is Some {
            Some(m.content->0@)
        } else {
            system_instruction(ms.drop_last())
        }
    }
}

/// Splits a conversation into Gemini's turns and system instruction; tool
/// results are left out.
pub fn convert_messages(messages: &[Message]) -> (r: (Vec<(String, String)>, Option<String>))
    ensures
        r.0@.len() == gemini_turns(messages@).len(),
        forall|i: int| 0 <= i < r.0@.len() ==> (#[trigger] r.0@[i]).0@ == gemini_turns(messages@)[i].0
            && r.0@[i].1@ == gemini_turns(messages@)[i].1,
        match r.1 {
            Some(s) => system_instruction(messages@) == Some(s@),
            None => system_instruction(messages@) is None,
        },
{
    let mut turns: Vec<(String, String)> = Vec::new();
    let mut system: Option<String> = None;
    let mut i: usize = 0;
    proof {
        assert(messages@.take(0) =~= Seq::<Message>::empty());
    }
    while i < messages.len()
        invariant
            i <= messages@.len(),
            turns@.len() == gemini_turns(messages@.take(i as int)).len(),
            forall|j: int| 0 <= j < turns@.len() ==> (#[trigger] turns@[j]).0@ == gemini_turns(messages@.take(i as int))[j].0
                && turns@[j].1@ == gemini_turns(messages@.take(i as int))[j].1,
            match system {
                Some(s) => system_instruction(messages@.take(i as int)) == Some(s@),
                None => system_instruction(messages@.take(i as int)) is None,
            },
        decreases messages@.len() - i,
    {
        let ghost p = messages@.take(i as int);
        let ghost q = messages@.take(i + 1);
        proof {
            assert(q.drop_last() =~= p);
            assert(q.last() == messages@[i as int]);
        }
        let m = &messages[i];
        match &m.content {
            Some(c) => {
                match m.role {
                    MessageRole::System => {
                        system = Some(c.clone());
                    },
                    MessageRole::User => {
                        turns.push((string_of(chars_of("user").as_slice()), c.clone()));
                    },
                    MessageRole::Assistant => {
                        turns.push((string_of(chars_of("model").as_slice()), c.clone()));
                    },
                    MessageRole::Tool => {},
                }
            },
            None => {},
        }
        i = i + 1;
    }
    proof {
        assert(messages@.take(messages@.len() as int) =~= messages@);
    }
    (turns, system)
}

} // verus!
