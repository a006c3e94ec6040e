//! The LLM providers: the settings each client is made with, the URLs and
//! texts it builds, the model list of an Ollama server, the removal of
//! `<think>` blocks, and the decoding of a streamed (server-sent events)
//! answer.
//!
//! The HTTP requests are the application's; what it sends and what the
//! clients make of the answers is stated here.

use vstd::prelude::*;
use crate::text::{chars_of, string_of, extend_chars, push_decimal, decimal, join, has_infix, occurs_at, trim, trim_chars, matches_at};
use crate::llm::{ClientStats, LlmError, error_text, without_trailing_slashes, normalize_endpoint};
use crate::log_analyzer::{regex_replace_all, regex_compiles, regex_replaced_all};

verus! {

// ---------------------------------------------------------------------------
// The HTTP base
// ---------------------------------------------------------------------------

/// What every client shares: its endpoint without trailing slashes, its
/// request timeout and its call statistics.
#[derive(Debug, Clone)]
pub struct HttpClientBase {
    pub endpoint: String,
    pub timeout_secs: u64,
    pub stats: ClientStats,
}

/// A client base made for `endpoint` and `timeout_secs`, with no call counted yet.
pub open spec fn fresh_base(b: HttpClientBase, endpoint: Seq<char>, timeout_secs: u64) -> bool {
    &&& b.endpoint@ == without_trailing_slashes(endpoint)
    &&& b.timeout_secs == timeout_secs
    &&& b.stats.counters() == (0u64, 0u64, 0u64, 0u64)
}

impl HttpClientBase {
    /// A base for `endpoint` (its trailing slashes removed) with a request
    /// timeout of `timeout_secs` seconds. The connection pool itself is built
    /// by the application.
    pub fn new(endpoint: &str, timeout_secs: u64) -> (r: Result<HttpClientBase, LlmError>)
        ensures
            r matches Ok(b) && fresh_base(b, endpoint@, timeout_secs),
    {
        Ok(HttpClientBase { endpoint: normalize_endpoint(endpoint), timeout_secs, stats: ClientStats::new() })
    }
}

/// The error of a client made without an API key.
pub open spec fn missing_key(e: LlmError) -> bool {
    e matches LlmError::Config(m) && m@ == "API key is required"@
}

// ---------------------------------------------------------------------------
// Deepseek
// ---------------------------------------------------------------------------

/// A client of the Deepseek chat API.
#[derive(Debug, Clone)]
pub struct DeepseekClient {
    base: HttpClientBase,
    model: String,
    api_key: String,
}

impl DeepseekClient {
    /// The model asked for.
    pub closed spec fn model_name(&self) -> Seq<char> {
        self.model@
    }

    /// The shared base.
    pub closed spec fn base_of(&self) -> HttpClientBase {
        self.base
    }

    /// The API key.
    pub closed spec fn key(&self) -> Seq<char> {
        self.api_key@
    }

    /// A client with an API key, a model and an endpoint, and a 60 second
    /// timeout; an empty key is refused.
    pub fn new(api_key: &str, model: &str, endpoint: &str) -> (r: Result<DeepseekClient, LlmError>)
        ensures
            api_key@.len() == 0 <==> r is Err,
            r matches Err(e) ==> missing_key(e),
            r matches Ok(c) ==> c.model_name() == model@ && c.key() == api_key@ && fresh_base(c.base_of(), endpoint@, 60),
    {
        if api_key.unicode_len() == 0 {
            return Err(LlmError::Config("API key is required".to_owned()));
        }
        let base = match HttpClientBase::new(endpoint, 60) {
            Ok(b) => b,
            Err(e) => return Err(e),
        };
        Ok(DeepseekClient { base, model: model.to_owned(), api_key: api_key.to_owned() })
    }

    /// A client of `deepseek-chat` at `https://api.deepseek.com/v1`.
    pub fn with_defaults(api_key: &str) -> (r: Result<DeepseekClient, LlmError>)
        ensures
            api_key@.len() == 0 <==> r is Err,
            r matches Err(e) ==> missing_key(e),
            r matches Ok(c) ==> c.model_name() == "deepseek-chat"@ && c.key() == api_key@ && fresh_base(
                c.base_of(),
                "https://api.deepseek.com/v1"@,
                60,
            ),
    {
        DeepseekClient::new(api_key, "deepseek-chat", "https://api.deepseek.com/v1")
    }

    /// The model asked for.
    pub fn model(&self) -> (r: &str)
        ensures
            r@ == self.model_name(),
    {
        self.model.as_str()
    }

    /// The call statistics.
    pub fn stats(&self) -> (r: ClientStats)
        ensures
            r.counters() == self.base_of().stats.counters(),
    {
        self.base.stats.copy()
    }

    /// The value of the `Authorization` header: `Bearer` and the key.
    pub fn authorization(&self) -> (r: String)
        ensures
            r@ == "Bearer "@ + self.key(),
    {
        let mut out = chars_of("Bearer ");
        extend_chars(&mut out, chars_of(self.api_key.as_str()).as_slice());
        string_of(out.as_slice())
    }

    /// The URL of the chat completions.
    pub fn chat_url(&self) -> (r: String)
        ensures
            r@ == self.base_of().endpoint@ + "/chat/completions"@,
    {
        let mut out = chars_of(self.base.endpoint.as_str());
        extend_chars(&mut out, chars_of("/chat/completions").as_slice());
        string_of(out.as_slice())
    }
}

// ---------------------------------------------------------------------------
// Gemini
// ---------------------------------------------------------------------------

/// A client of the Gemini API.
#[derive(Debug, Clone)]
pub struct GeminiClient {
    base: HttpClientBase,
    model: String,
    api_key: String,
}

impl GeminiClient {
    /// The model asked for.
    pub closed spec fn model_name(&self) -> Seq<char> {
        self.model@
    }

    /// The shared base.
    pub closed spec fn base_of(&self) -> HttpClientBase {
        self.base
    }

    /// The API key.
    pub closed spec fn key(&self) -> Seq<char> {
        self.api_key@
    }

    /// A client with an API key, a model and an endpoint, and a 60 second
    /// timeout; an empty key is refused.
    pub fn new(api_key: &str, model: &str, endpoint: &str) -> (r: Result<GeminiClient, LlmError>)
        ensures
            api_key@.len() == 0 <==> r is Err,
            r matches Err(e) ==> missing_key(e),
            r matches Ok(c) ==> c.model_name() == model@ && c.key() == api_key@ && fresh_base(c.base_of(), endpoint@, 60),
    {
        if api_key.unicode_len() == 0 {
            return Err(LlmError::Config("API key is required".to_owned()));
        }
        let base = match HttpClientBase::new(endpoint, 60) {
            Ok(b) => b,
            Err(e) => return Err(e),
        };
        Ok(GeminiClient { base, model: model.to_owned(), api_key: api_key.to_owned() })
    }

    /// A client of `gemini-pro` at `https://generativelanguage.googleapis.com`.
    pub fn with_defaults(api_key: &str) -> (r: Result<GeminiClient, LlmError>)
        ensures
            api_key@.len() == 0 <==> r is Err,
            r matches Err(e) ==> missing_key(e),
            r matches Ok(c) ==> c.model_name() == "gemini-pro"@ && c.key() == api_key@ && fresh_base(
                c.base_of(),
                "https://generativelanguage.googleapis.com"@,
                60,
            ),
    {
        GeminiClient::new(api_key, "gemini-pro", "https://generativelanguage.googleapis.com")
    }

    /// The model asked for.
    pub fn model(&self) -> (r: &str)
        ensures
            r@ == self.model_name(),
    {
        self.model.as_str()
    }

    /// The call statistics.
    pub fn stats(&self) -> (r: ClientStats)
        ensures
            r.counters() == self.base_of().stats.counters(),
    {
        self.base.stats.copy()
    }

    /// The request URL: the model's `generateContent`, the key as a query parameter.
    pub fn build_url(&self) -> (r: String)
        ensures
            r@ == self.base_of().endpoint@ + "/v1beta/models/"@ + self.model_name() + ":generateContent?key="@
                + self.key(),
    {
        let mut out = chars_of(self.base.endpoint.as_str());
        extend_chars(&mut out, chars_of("/v1beta/models/").as_slice());
        extend_chars(&mut out, chars_of(self.model.as_str()).as_slice());
        extend_chars(&mut out, chars_of(":generateContent?key=").as_slice());
        extend_chars(&mut out, chars_of(self.api_key.as_str()).as_slice());
        string_of(out.as_slice())
    }

    /// The diagnosis: endpoint and model.
    pub fn diagnose(&self) -> (r: String)
        ensures
            r@ == "端点: "@ + self.base_of().endpoint@ + "\n模型: "@ + self.model_name() + "\n状态: 待实现"@,
    {
        let mut out = chars_of("端点: ");
        extend_chars(&mut out, chars_of(self.base.endpoint.as_str()).as_slice());
        extend_chars(&mut out, chars_of("\n模型: ").as_slice());
        extend_chars(&mut out, chars_of(self.model.as_str()).as_slice());
        extend_chars(&mut out, chars_of("\n状态: 待实现").as_slice());
        string_of(out.as_slice())
    }
}

// ---------------------------------------------------------------------------
// Ollama
// ---------------------------------------------------------------------------

/// The `<think>` blocks that reasoning models write before their answer.
pub open spec fn think_pattern() -> Seq<char> {
    r"<think>[\s\S]*?</think>"@
}

/// An answer without its `<think>` blocks.
pub open spec fn without_think(text: Seq<char>) -> Seq<char> {
    if regex_compiles(think_pattern()) {
        regex_replaced_all(think_pattern(), text, ""@)
    } else {
        text
    }
}

/// One entry of `/api/tags`: its name, model and id fields, where present.
#[derive(Debug, Clone)]
pub struct OllamaTag {
    pub name: Option<String>,
    pub model: Option<String>,
    pub id: Option<String>,
}

/// One entry of `/v1/models`: its id and name fields, where present.
#[derive(Debug, Clone)]
pub struct CompatModel {
    pub id: Option<String>,
    pub name: Option<String>,
}

/// The first of the options that is present.
pub open spec fn first_present(a: Option<String>, b: Option<String>, c: Option<String>) -> Option<String> {
    if a is Some {
        a
    } else if b is Some {
        b
    } else {
        c
    }
}

/// The name of an `/api/tags` entry: its name, else its model, else its id.
pub open spec fn tag_name(t: OllamaTag) -> Option<String> {
    first_present(t.name, t.model, t.id)
}

/// The name of a `/v1/models` entry: its id, else its name.
pub open spec fn compat_name(m: CompatModel) -> Option<String> {
    first_present(m.id, m.name, None)
}

/// The names that are present, in order.
pub open spec fn present_names(names: Seq<Option<String>>) -> Seq<String>
    decreases names.len(),
{
    if names.len() == 0 {
        Seq::empty()
    } else {
        match names.last() {
            Some(n) => present_names(names.drop_last()).push(n),
            None => present_names(names.drop_last()),
        }
    }
}

/// The models an Ollama server is assumed to have when it lists none.
pub open spec fn fallback_models() -> Seq<Seq<char>> {
    seq!["qwen3:4b"@, "qwen3:8b"@, "qwen3:30b"@, "gemma3:27b"@, "deepseek-r1:8b"@]
}

/// The strings by their characters.
pub open spec fn name_views(v: Seq<String>) -> Seq<Seq<char>> {
    v.map_values(|s: String| s@)
}

/// A client of a local Ollama server; it remembers the model list once read.
#[derive(Debug, Clone)]
pub struct OllamaClient {
    base: HttpClientBase,
    model: String,
    model_cache: Option<Vec<String>>,
}

fn copy_names(v: &Vec<String>) -> (r: Vec<String>)
    ensures
        r@ == v@,
{
    let mut r: Vec<String> = Vec::new();
    let mut i: usize = 0;
    while i < v.len()
        invariant
            i <= v@.len(),
            r@ == v@.take(i as int),
        decreases v@.len() - i,
    {
        r.push(v[i].clone());
        assert(r@ =~= v@.take(i + 1));
        i = i + 1;
    }
    assert(v@.take(v@.len() as int) =~= v@);
    r
}

fn copy_opt(s: &Option<String>) -> (r: Option<String>)
    ensures
        r == *s,
{
    match s {
        Some(v) => Some(v.clone()),
        None => None,
    }
}

impl OllamaClient {
    /// The model asked for.
    pub closed spec fn model_name(&self) -> Seq<char> {
        self.model@
    }

    /// The shared base.
    pub closed spec fn base_of(&self) -> HttpClientBase {
        self.base
    }

    /// The model list remembered, if one was read.
    pub closed spec fn cache(&self) -> Option<Seq<String>> {
        match self.model_cache {
            Some(v) => Some(v@),
            None => None,
        }
    }

    /// A client of `model` at `endpoint`, with a 60 second timeout and no
    /// model list remembered.
    pub fn new(model: &str, endpoint: &str) -> (r: Result<OllamaClient, LlmError>)
        ensures
            r matches Ok(c) && c.model_name() == model@ && fresh_base(c.base_of(), endpoint@, 60) && c.cache() is None,
    {
        let base = match HttpClientBase::new(endpoint, 60) {
            Ok(b) => b,
            Err(e) => return Err(e),
        };
        Ok(OllamaClient { base, model: model.to_owned(), model_cache: None })
    }

    /// A client of `qwen3:4b` at `http://localhost:11434`.
    pub fn with_defaults() -> (r: Result<OllamaClient, LlmError>)
        ensures
            r matches Ok(c) && c.model_name() == "qwen3:4b"@ && fresh_base(c.base_of(), "http://localhost:11434"@, 60)
                && c.cache() is None,
    {
        OllamaClient::new("qwen3:4b", "http://localhost:11434")
    }

    /// The model asked for.
    pub fn model(&self) -> (r: &str)
        ensures
            r@ == self.model_name(),
    {
        self.model.as_str()
    }

    /// The call statistics.
    pub fn stats(&self) -> (r: ClientStats)
        ensures
            r.counters() == self.base_of().stats.counters(),
    {
        self.base.stats.copy()
    }

    /// Removes the `<think>` blocks of an answer (see `without_think`).
    pub fn strip_think_tags(text: &str) -> (r: String)
        ensures
            r@ == without_think(text@),
    {
        match regex_replace_all(r"<think>[\s\S]*?</think>", text, "") {
            Some(s) => s,
            None => text.to_owned(),
        }
    }

    /// The URL of the native model list.
    pub fn tags_url(&self) -> (r: String)
        ensures
            r@ == self.base_of().endpoint@ + "/api/tags"@,
    {
        let mut out = chars_of(self.base.endpoint.as_str());
        extend_chars(&mut out, chars_of("/api/tags").as_slice());
        string_of(out.as_slice())
    }

    /// The URL of the OpenAI-compatible model list.
    pub fn compat_models_url(&self) -> (r: String)
        ensures
            r@ == self.base_of().endpoint@ + "/v1/models"@,
    {
        let mut out = chars_of(self.base.endpoint.as_str());
        extend_chars(&mut out, chars_of("/v1/models").as_slice());
        string_of(out.as_slice())
    }

    /// The model list remembered, if one was read.
    pub fn cached_models(&self) -> (r: Option<Vec<String>>)
        ensures
            match r {
                Some(v) => self.cache() == Some(v@),
                None => self.cache() is None,
            },
    {
        match &self.model_cache {
            Some(v) => Some(copy_names(v)),
            None => None,
        }
    }

    /// Remembers a model list.
    pub fn remember_models(&mut self, models: Vec<String>)
        ensures
            final(self).cache() == Some(models@),
            final(self).model_name() == old(self).model_name(),
            final(self).base_of() == old(self).base_of(),
    {
        self.model_cache = Some(models);
    }

    /// The diagnosis: endpoint and model, then whether the model list could
    /// be read and, if so, how many models there are and their names.
    pub fn diagnose(&self, listing: &Result<Vec<String>, LlmError>) -> (r: String)
        ensures
            r@ == diagnosis_text(self.base_of().endpoint@, self.model_name(), match listing {
                Ok(v) => Ok(name_views(v@)),
                Err(e) => Err(*e),
            }),
    {
        let mut out = chars_of("端点: ");
        extend_chars(&mut out, chars_of(self.base.endpoint.as_str()).as_slice());
        extend_chars(&mut out, chars_of("\n模型: ").as_slice());
        extend_chars(&mut out, chars_of(self.model.as_str()).as_slice());
        let ghost head = out@;
        match listing {
            Ok(models) => {
                extend_chars(&mut out, chars_of("\n✓ 连接成功").as_slice());
                extend_chars(&mut out, chars_of("\n可用模型数: ").as_slice());
                push_decimal(&mut out, models.len() as u64);
                if models.len() > 0 {
                    extend_chars(&mut out, chars_of("\n模型: ").as_slice());
                    let mut i: usize = 0;
                    let ghost before = out@;
                    let ghost names = name_views(models@);
                    while i < models.len()
                        invariant
                            i <= models@.len(),
                            names == name_views(models@),
                            models@.len() > 0,
                            i > 0 ==> out@ == before + join(names.take(i as int), ", "@),
                            i == 0 ==> out@ == before,
                        decreases models@.len() - i,
                    {
                        if i > 0 {
                            extend_chars(&mut out, chars_of(", ").as_slice());
                        }
                        extend_chars(&mut out, chars_of(models[i].as_str()).as_slice());
                        proof {
                            assert(names.take(i + 1).drop_last() =~= names.take(i as int));
                            assert(names.take(i + 1).last() == models@[i as int]@);
                            if i == 0 {
                                assert(join(names.take(1), ", "@) =~= models@[0]@);
                            }
                        }
                        i = i + 1;
                    }
                    assert(names.take(models@.len() as int) =~= names);
                }
                proof {
                    reveal_strlit("");
                }
            },
            Err(e) => {
                extend_chars(&mut out, chars_of("\n✗ 连接失败: ").as_slice());
                extend_chars(&mut out, chars_of(e.message().as_str()).as_slice());
                extend_chars(&mut out, chars_of("\n建议: 确认 'ollama serve' 运行中").as_slice());
            },
        }
        assert(out@ =~= diagnosis_text(self.base_of().endpoint@, self.model_name(), match listing {
            Ok(v) => Ok(name_views(v@)),
            Err(e) => Err(*e),
        }));
        string_of(out.as_slice())
    }
}

/// The diagnosis of an Ollama client at `endpoint` for `model`, given what
/// reading the model list gave.
pub open spec fn diagnosis_text(endpoint: Seq<char>, model: Seq<char>, listing: Result<Seq<Seq<char>>, LlmError>) -> Seq<char> {
    "端点: "@ + endpoint + "\n模型: "@ + model + match listing {
        Ok(names) => "\n✓ 连接成功"@ + "\n可用模型数: "@ + decimal(names.len()) + if names.len() > 0 {
            "\n模型: "@ + join(names, ", "@)
        } else {
            Seq::<char>::empty()
        },
        Err(e) => "\n✗ 连接失败: "@ + error_text(e) + "\n建议: 确认 'ollama serve' 运行中"@,
    }
}

fn first_present_of(a: &Option<String>, b: &Option<String>, c: &Option<String>) -> (r: Option<String>)
    ensures
        r == first_present(*a, *b, *c),
{
    if a.is_some() {
        copy_opt(a)
    } else if b.is_some() {
        copy_opt(b)
    } else {
        copy_opt(c)
    }
}

/// The names of the `/api/tags` entries that have one, in order.
pub fn native_model_names(tags: &Vec<OllamaTag>) -> (r: Vec<String>)
    ensures
        r@ == present_names(tags@.map_values(|t: OllamaTag| tag_name(t))),
{
    let ghost names = tags@.map_values(|t: OllamaTag| tag_name(t));
    let mut r: Vec<String> = Vec::new();
    let mut i: usize = 0;
    assert(names.take(0) =~= Seq::<Option<String>>::empty());
    while i < tags.len()
        invariant
            i <= tags@.len(),
            names == tags@.map_values(|t: OllamaTag| tag_name(t)),
            r@ == present_names(names.take(i as int)),
        decreases tags@.len() - i,
    {
        assert(names.take(i + 1).drop_last() =~= names.take(i as int));
        assert(names.take(i + 1).last() == tag_name(tags@[i as int]));
        match first_present_of(&tags[i].name, &tags[i].model, &tags[i].id) {
            Some(n) => r.push(n),
            None => {},
        }
        i = i + 1;
    }
    assert(names.take(tags@.len() as int) =~= names);
    r
}

/// The names of the `/v1/models` entries that have one, in order.
pub fn compat_model_names(models: &Vec<CompatModel>) -> (r: Vec<String>)
    ensures
        r@ == present_names(models@.map_values(|m: CompatModel| compat_name(m))),
{
    let ghost names = models@.map_values(|m: CompatModel| compat_name(m));
    let mut r: Vec<String> = Vec::new();
    let mut i: usize = 0;
    assert(names.take(0) =~= Seq::<Option<String>>::empty());
    while i < models.len()
        invariant
            i <= models@.len(),
            names == models@.map_values(|m: CompatModel| compat_name(m)),
            r@ == present_names(names.take(i as int)),
        decreases models@.len() - i,
    {
        assert(names.take(i + 1).drop_last() =~= names.take(i as int));
        assert(names.take(i + 1).last() == compat_name(models@[i as int]));
        match first_present_of(&models[i].id, &models[i].name, &None) {
            Some(n) => r.push(n),
            None => {},
        }
        i = i + 1;
    }
    assert(names.take(models@.len() as int) =~= names);
    r
}

/// The model list: the native names when there are any, else the
/// OpenAI-compatible names when those were read and there are any, else
/// the fallback list.
pub fn settle_models(native: Vec<String>, compat: Option<Vec<String>>) -> (r: Vec<String>)
    ensures
        native@.len() > 0 ==> r@ == native@,
        native@.len() == 0 && (compat matches Some(c) && c@.len() > 0) ==> r@ == compat->0@,
        native@.len() == 0 && !(compat matches Some(c) && c@.len() > 0) ==> name_views(r@) == fallback_models(),
{
    if native.len() > 0 {
        return native;
    }
    match compat {
        Some(c) => if c.len() > 0 {
            return c;
        },
        None => {},
    }
    let r = vec![
        "qwen3:4b".to_owned(),
        "qwen3:8b".to_owned(),
        "qwen3:30b".to_owned(),
        "gemma3:27b".to_owned(),
        "deepseek-r1:8b".to_owned(),
    ];
    assert(name_views(r@) =~= fallback_models());
    r
}

// ---------------------------------------------------------------------------
// Streamed answers (server-sent events)
// ---------------------------------------------------------------------------

/// `data: `, which opens an event.
pub open spec fn data_marker() -> Seq<char> {
    seq!['d', 'a', 't', 'a', ':', ' ']
}

/// The blank line that closes an event.
pub open spec fn blank_line() -> Seq<char> {
    seq!['\n', '\n']
}

/// The event that ends the stream.
pub open spec fn done_marker() -> Seq<char> {
    seq!['[', 'D', 'O', 'N', 'E', ']']
}

/// The first position, from `from` on, at which `p` occurs in `s`.
pub open spec fn first_at_or_after(s: Seq<char>, p: Seq<char>, from: nat) -> Option<int>
    decreases s.len() + 1 - from,
{
    if from + p.len() > s.len() {
        None
    } else if occurs_at(s, p, from as int) {
        Some(from as int)
    } else {
        first_at_or_after(s, p, from + 1)
    }
}

/// The complete events at the front of a stream buffer and what is left of
/// it: each `data: ` with what follows up to the next blank line is an event
/// and leaves the buffer; a `[DONE]` event (spaces around it aside) leaves the
/// buffer too and stops the reading; an event not yet closed stays.
pub open spec fn sse_events(buf: Seq<char>) -> (Seq<Seq<char>>, Seq<char>)
    decreases buf.len(),
{
    match first_at_or_after(buf, data_marker(), 0) {
        None => (Seq::empty(), buf),
        Some(ds) => match first_at_or_after(buf, blank_line(), ds as nat) {
            None => (Seq::empty(), buf),
            Some(nl) => {
                if ds < 0 || nl < ds + 6 || nl + 2 > buf.len() {
                    (Seq::empty(), buf)
                } else {
                    let line = buf.subrange(ds + 6, nl);
                    let rest = buf.skip(nl + 2);
                    if trim(line) == done_marker() {
                        (Seq::empty(), rest)
                    } else {
                        (seq![line] + sse_events(rest).0, sse_events(rest).1)
                    }
                }
            },
        },
    }
}

proof fn lemma_first_at_bounds(s: Seq<char>, p: Seq<char>, from: nat)
    ensures
        first_at_or_after(s, p, from) matches Some(i) ==> from <= i && i + p.len() <= s.len() && occurs_at(s, p, i)
            && forall|k: int| from <= k < i ==> !occurs_at(s, p, k),
        first_at_or_after(s, p, from) is None ==> forall|k: int| from <= k ==> !occurs_at(s, p, k),
    decreases s.len() + 1 - from,
{
    if from + p.len() > s.len() {
    } else if occurs_at(s, p, from as int) {
    } else {
        lemma_first_at_bounds(s, p, from + 1);
    }
}

fn find_from(s: &[char], p: &[char], from: usize) -> (r: Option<usize>)
    ensures
        match r {
            Some(i) => first_at_or_after(s@, p@, from as nat) == Some(i as int),
            None => first_at_or_after(s@, p@, from as nat) is None,
        },
{
    let mut i: usize = from;
    while i <= s.len() && p.len() <= s.len() - i
        invariant
            from <= i,
            first_at_or_after(s@, p@, i as nat) == first_at_or_after(s@, p@, from as nat),
        decreases s.len() + 1 - i,
    {
        if matches_at(s, p, i) {
            return Some(i);
        }
        proof {
            if p@.len() == 0 {
                assert(s@.subrange(i as int, i as int) =~= p@);
            }
        }
        i = i + 1;
    }
    None
}

fn copy_range(s: &[char], from: usize, to: usize) -> (r: Vec<char>)
    requires
        from <= to <= s@.len(),
    ensures
        r@ == s@.subrange(from as int, to as int),
{
    let mut r: Vec<char> = Vec::new();
    let mut i: usize = from;
    while i < to
        invariant
            from <= i <= to <= s@.len(),
            r@ == s@.subrange(from as int, i as int),
        decreases to - i,
    {
        r.push(s[i]);
        assert(r@ =~= s@.subrange(from as int, i + 1));
        i = i + 1;
    }
    r
}

/// The views of a vector of character vectors.
pub open spec fn event_views(v: Seq<Vec<char>>) -> Seq<Seq<char>> {
    v.map_values(|x: Vec<char>| x@)
}

/// Takes the complete events from the front of a stream buffer (see `sse_events`).
pub fn take_sse_events(buffer: &mut Vec<char>) -> (r: Vec<Vec<char>>)
    ensures
        event_views(r@) == sse_events(old(buffer)@).0,
        final(buffer)@ == sse_events(old(buffer)@).1,
{
    let ghost orig = buffer@;
    let mut events: Vec<Vec<char>> = Vec::new();
    let data = chars_of("data: ");
    let blank = chars_of("\n\n");
    let done = chars_of("[DONE]");
    proof {
        reveal_strlit("data: ");
        reveal_strlit("\n\n");
        reveal_strlit("[DONE]");
        assert(data@ =~= data_marker());
        assert(blank@ =~= blank_line());
        assert(done@ =~= done_marker());
        assert(event_views(events@) + sse_events(buffer@).0 =~= sse_events(orig).0);
    }
    loop
        invariant_except_break
            event_views(events@) + sse_events(buffer@).0 == sse_events(orig).0,
            sse_events(buffer@).1 == sse_events(orig).1,
        invariant
            data@ == data_marker(),
            blank@ == blank_line(),
            done@ == done_marker(),
        ensures
            event_views(events@) == sse_events(orig).0,
            buffer@ == sse_events(orig).1,
        decreases buffer@.len(),
    {
        let ghost b = buffer@;
        let ds = match find_from(buffer.as_slice(), data.as_slice(), 0) {
            Some(d) => d,
            None => {
                assert(event_views(events@) + Seq::<Seq<char>>::empty() =~= event_views(events@));
                break;
            },
        };
        proof {
            lemma_first_at_bounds(b, data_marker(), 0);
        }
        let nl = match find_from(buffer.as_slice(), blank.as_slice(), ds) {
            Some(n) => n,
            None => {
                assert(event_views(events@) + Seq::<Seq<char>>::empty() =~= event_views(events@));
                break;
            },
        };
        proof {
            lemma_first_at_bounds(b, blank_line(), ds as nat);
            assert forall|k: int| ds <= k < ds + 6 implies !occurs_at(b, blank_line(), k) by {
                assert(b.subrange(ds as int, ds + 6) == data_marker());
                assert(b[k] == data_marker()[k - ds]);
                if k + 2 <= b.len() {
                    assert(b.subrange(k, k + 2)[0] == b[k]);
                }
            }
            assert(nl >= ds + 6);
            assert(nl + 2 <= b.len());
        }
        let total = buffer.len();
        assert(total == b.len());
        let line = copy_range(buffer.as_slice(), ds + 6, nl);
        let rest = copy_range(buffer.as_slice(), nl + 2, total);
        assert(rest@ =~= b.skip(nl + 2));
        *buffer = rest;
        let trimmed = trim_chars(line.as_slice());
        if chars_equal_slices(trimmed.as_slice(), done.as_slice()) {
            assert(sse_events(b) == (Seq::<Seq<char>>::empty(), b.skip(nl + 2)));
            assert(event_views(events@) + Seq::<Seq<char>>::empty() =~= event_views(events@));
            break;
        }
        let ghost lv = line@;
        events.push(line);
        proof {
            assert(event_views(events@) =~= event_views(events@.drop_last()).push(lv));
            assert(sse_events(b).0 == seq![lv] + sse_events(buffer@).0);
            assert(event_views(events@) + sse_events(buffer@).0 =~= event_views(events@.drop_last()) + sse_events(b).0);
        }
    }
    events
}

fn chars_equal_slices(a: &[char], b: &[char]) -> (r: bool)
    ensures
        r == (a@ == b@),
{
    crate::text::chars_equal(a, b)
}

/// What the text of a delta event says: `choices[0].delta.content` of the
/// event read as JSON, when it is a string.
pub uninterp spec fn delta_content(event: Seq<char>) -> Option<Seq<char>>;

/// Reads an event as JSON with serde_json and takes its
/// `choices[0].delta.content` string, named `delta_content`.
#[verifier::external_body]
fn event_delta(event: &str) -> (r: Option<String>)
    ensures
        match r {
            Some(s) => delta_content(event@) == Some(s@),
            None => delta_content(event@) is None,
        },
{
    serde_json::from_str::<serde_json::Value>(event).ok().and_then(|v| v["choices"][0]["delta"]["content"].as_str().map(|s| s.to_string()))
}

/// The text pieces that a list of events carries, in order.
pub open spec fn deltas_of(events: Seq<Seq<char>>) -> Seq<Seq<char>>
    decreases events.len(),
{
    if events.len() == 0 {
        Seq::empty()
    } else {
        match delta_content(events.last()) {
            Some(d) => deltas_of(events.drop_last()).push(d),
            None => deltas_of(events.drop_last()),
        }
    }
}

/// The pieces joined end to end.
pub open spec fn concat(pieces: Seq<Seq<char>>) -> Seq<char>
    decreases pieces.len(),
{
    if pieces.len() == 0 {
        Seq::empty()
    } else {
        concat(pieces.drop_last()) + pieces.last()
    }
}

/// Assembles a streamed answer: the chunks received are buffered, complete
/// events are taken from the buffer, and the text each carries is handed
/// out and added to the answer.
pub struct StreamDecoder {
    buffer: Vec<char>,
    full_response: Vec<char>,
}

impl StreamDecoder {
    /// What is buffered, not yet taken as events.
    pub closed spec fn pending(&self) -> Seq<char> {
        self.buffer@
    }

    /// The answer so far.
    pub closed spec fn answer(&self) -> Seq<char> {
        self.full_response@
    }

    /// Nothing received yet.
    pub fn new() -> (r: StreamDecoder)
        ensures
            r.pending().len() == 0,
            r.answer().len() == 0,
    {
        StreamDecoder { buffer: Vec::new(), full_response: Vec::new() }
    }

    /// Receives a chunk: it joins the buffer, the complete events are taken,
    /// and the pieces of text they carry are returned, in order, and added to
    /// the answer.
    pub fn feed(&mut self, chunk: &str) -> (r: Vec<String>)
        ensures
            ({
                let (events, left) = sse_events(old(self).pending() + chunk@);
                &&& final(self).pending() == left
                &&& name_views(r@) == deltas_of(events)
                &&& final(self).answer() == old(self).answer() + concat(deltas_of(events))
            }),
    {
        extend_chars(&mut self.buffer, chars_of(chunk).as_slice());
        let ghost joined = self.buffer@;
        let events = take_sse_events(&mut self.buffer);
        let ghost evs = event_views(events@);
        let ghost left = self.buffer@;
        let ghost start = self.full_response@;
        let mut out: Vec<String> = Vec::new();
        let mut i: usize = 0;
        assert(evs.take(0) =~= Seq::<Seq<char>>::empty());
        assert(self.full_response@ =~= start + concat(deltas_of(evs.take(0))));
        while i < events.len()
            invariant
                i <= events@.len(),
                evs == event_views(events@),
                self.buffer@ == left,
                name_views(out@) == deltas_of(evs.take(i as int)),
                self.full_response@ == start + concat(deltas_of(evs.take(i as int))),
            decreases events@.len() - i,
        {
            assert(evs.take(i + 1).drop_last() =~= evs.take(i as int));
            assert(evs.take(i + 1).last() == events@[i as int]@);
            let text = string_of(events[i].as_slice());
            match event_delta(text.as_str()) {
                Some(d) => {
                    let ghost before = self.full_response@;
                    extend_chars(&mut self.full_response, chars_of(d.as_str()).as_slice());
                    let ghost dv = d@;
                    let ghost prior = out@;
                    out.push(d);
                    proof {
                        let ds0 = deltas_of(evs.take(i as int));
                        assert(deltas_of(evs.take(i + 1)) == ds0.push(dv));
                        assert(ds0.push(dv).drop_last() =~= ds0);
                        assert(concat(ds0.push(dv)) == concat(ds0) + dv);
                        assert(name_views(out@) =~= name_views(prior).push(dv));
                        assert(self.full_response@ =~= start + concat(deltas_of(evs.take(i + 1))));
                    }
                },
                None => {
                    assert(deltas_of(evs.take(i + 1)) == deltas_of(evs.take(i as int)));
                },
            }
            i = i + 1;
        }
        assert(evs.take(events@.len() as int) =~= evs);
        out
    }

    /// The answer assembled so far.
    pub fn full_response(&self) -> (r: String)
        ensures
            r@ == self.answer(),
    {
        string_of(self.full_response.as_slice())
    }
}

} // verus!
