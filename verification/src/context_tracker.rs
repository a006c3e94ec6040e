//! Conversation context: the entities the user mentions (files, directories,
//! commands, variables, concepts, numbers, URLs), kept most recently used
//! first in a bounded LRU cache; pronouns such as `它` or `this file`
//! resolved against them; and the working context of the session.
//!
//! Entities are found in a text with the `regex` crate. A number is kept
//! with the text its value prints as, which the caller computes.

use vstd::prelude::*;
use lru::LruCache;
use std::collections::hash_map::RandomState;
use crate::text::{chars_of, string_of, extend_chars, chars_equal, to_lowercase, lowercase};
use crate::health::clock_millis;
use crate::log_analyzer::regex_compiles;
use crate::memory::{WorkingContext, WorkingContextUpdate, ContextStats, vars_distinct};

verus! {

// ---------------------------------------------------------------------------
// Entities
// ---------------------------------------------------------------------------

/// What an entity is.
#[derive(Debug, Clone, PartialEq, Eq)]
pub enum EntityType {
    /// A file path.
    File(String),
    /// A directory path.
    Directory(String),
    /// A shell or system command.
    Command(String),
    /// A variable and its value.
    Variable { name: String, value: String },
    /// An abstract concept, such as "日志" or "错误".
    Concept(String),
    /// A number, by the text its value prints as.
    Number(String),
    /// A URL.
    Url(String),
}

/// The name an entity is shown and known by.
pub open spec fn display(t: EntityType) -> Seq<char> {
    match t {
        EntityType::File(p) => p@,
        EntityType::Directory(p) => p@,
        EntityType::Command(c) => c@,
        EntityType::Variable { name, value } => name@ + " = "@ + value@,
        EntityType::Concept(c) => c@,
        EntityType::Number(n) => n@,
        EntityType::Url(u) => u@,
    }
}

/// The name of an entity's kind.
pub open spec fn kind_name(t: EntityType) -> Seq<char> {
    match t {
        EntityType::File(_) => "文件"@,
        EntityType::Directory(_) => "目录"@,
        EntityType::Command(_) => "命令"@,
        EntityType::Variable { .. } => "变量"@,
        EntityType::Concept(_) => "概念"@,
        EntityType::Number(_) => "数字"@,
        EntityType::Url(_) => "URL"@,
    }
}

impl EntityType {
    /// The name the entity is shown and known by: the path, command, concept,
    /// number or URL itself, or `name = value` for a variable.
    pub fn display_name(&self) -> (r: String)
        ensures
            r@ == display(*self),
    {
        match self {
            EntityType::File(p) => p.clone(),
            EntityType::Directory(p) => p.clone(),
            EntityType::Command(c) => c.clone(),
            EntityType::Variable { name, value } => {
                let mut out = chars_of(name.as_str());
                extend_chars(&mut out, chars_of(" = ").as_slice());
                extend_chars(&mut out, chars_of(value.as_str()).as_slice());
                string_of(out.as_slice())
            },
            EntityType::Concept(c) => c.clone(),
            EntityType::Number(n) => n.clone(),
            EntityType::Url(u) => u.clone(),
        }
    }

    /// The name of the entity's kind.
    pub fn type_label(&self) -> (r: &'static str)
        ensures
            r@ == kind_name(*self),
    {
        match self {
            EntityType::File(_) => "文件",
            EntityType::Directory(_) => "目录",
            EntityType::Command(_) => "命令",
            EntityType::Variable { .. } => "变量",
            EntityType::Concept(_) => "概念",
            EntityType::Number(_) => "数字",
            EntityType::Url(_) => "URL",
        }
    }
}

/// An entity the user mentioned.
#[derive(Debug, Clone, PartialEq, Eq)]
pub struct Entity {
    pub entity_type: EntityType,
    /// When it was last mentioned, in milliseconds since the Unix epoch.
    pub mentioned_at_ms: i64,
    /// How many times it was mentioned.
    pub mention_count: u32,
    /// The sentence it was last mentioned in.
    pub context: String,
    /// How sure the extraction was, in hundredths.
    pub confidence: u8,
}

/// `e` is a first mention of `t` in `context` with confidence `confidence`,
/// made at some time.
pub open spec fn first_mention(e: Entity, t: EntityType, context: String, confidence: u8) -> bool {
    e.entity_type == t && e.mention_count == 1 && e.context == context && e.confidence == confidence
}

/// `after` is `before` mentioned once more, in `context`: the count goes up by
/// one (it stays at its largest value), the time is the new mention's, and
/// the kind and confidence stay.
pub open spec fn mentioned_again(before: Entity, after: Entity, context: String) -> bool {
    &&& after.entity_type == before.entity_type
    &&& after.confidence == before.confidence
    &&& after.context == context
    &&& after.mention_count == (if before.mention_count < u32::MAX { before.mention_count + 1 } else { before.mention_count as int })
}

impl Entity {
    /// A first mention, made now.
    pub fn new(entity_type: EntityType, context: String, confidence: u8) -> (r: Entity)
        ensures
            first_mention(r, entity_type, context, confidence),
    {
        Entity { entity_type, mentioned_at_ms: clock_millis(), mention_count: 1, context, confidence }
    }

    /// Records one more mention, made now, in `context`.
    pub fn update_mention(&mut self, context: String)
        ensures
            mentioned_again(*old(self), *final(self), context),
    {
        if self.mention_count < u32::MAX {
            self.mention_count = self.mention_count + 1;
        }
        self.mentioned_at_ms = clock_millis();
        self.context = context;
    }
}

/// A pronoun and the entity it was resolved to.
#[derive(Debug, Clone)]
pub struct ReferenceRecord {
    pub pronoun: String,
    pub resolved_entity: Entity,
    /// When it was resolved, in milliseconds since the Unix epoch.
    pub resolved_at_ms: i64,
}

// ---------------------------------------------------------------------------
// The LRU cache of entities, behind trusted wrappers
// ---------------------------------------------------------------------------

/// The entries of an entity cache, keys by their characters, least recently
/// used first.
pub uninterp spec fn entity_entries(c: LruCache<String, Entity, RandomState>) -> Seq<(Seq<char>, Entity)>;

/// The capacity an entity cache was made with.
pub uninterp spec fn entity_capacity(c: LruCache<String, Entity, RandomState>) -> nat;

/// Some entry has key `k`.
pub open spec fn has_entry(es: Seq<(Seq<char>, Entity)>, k: Seq<char>) -> bool {
    exists|i: int| 0 <= i < es.len() && es[i].0 == k
}

/// The position of the entry with key `k` (meaningful when there is one).
pub open spec fn entry_pos(es: Seq<(Seq<char>, Entity)>, k: Seq<char>) -> int {
    choose|i: int| 0 <= i < es.len() && es[i].0 == k
}

/// No two entries share a key.
pub open spec fn entry_keys_unique(es: Seq<(Seq<char>, Entity)>) -> bool {
    forall|i: int, j: int| 0 <= i < j < es.len() ==> es[i].0 != es[j].0
}

/// `LruCache::new`: an empty cache of capacity `cap` (which must not be zero).
#[verifier::external_body]
fn entity_cache_new(cap: usize) -> (c: LruCache<String, Entity, RandomState>)
    requires
        cap > 0,
    ensures
        entity_entries(c) == Seq::<(Seq<char>, Entity)>::empty(),
        entity_capacity(c) == cap,
{
    LruCache::with_hasher(std::num::NonZeroUsize::new(cap).unwrap(), RandomState::new())
}

/// `LruCache::get` (the value cloned): when `k` is present its value is
/// returned and the entry becomes the most recently used; otherwise nothing changes.
#[verifier::external_body]
fn entity_cache_get(c: &mut LruCache<String, Entity, RandomState>, k: &String) -> (r: Option<Entity>)
    ensures
        entity_capacity(*final(c)) == entity_capacity(*old(c)),
        !has_entry(entity_entries(*old(c)), k@) ==> r is None && entity_entries(*final(c)) == entity_entries(*old(c)),
        has_entry(entity_entries(*old(c)), k@) ==> ({
            let es = entity_entries(*old(c));
            let i = entry_pos(es, k@);
            &&& r == Some(es[i].1)
            &&& entity_entries(*final(c)) == es.remove(i).push(es[i])
        }),
{
    c.get(k).cloned()
}

/// `LruCache::put`: a present key gets the new value and becomes the most
/// recently used; an absent key is added as the most recently used, after
/// evicting the least recently used entry when the cache is full.
#[verifier::external_body]
fn entity_cache_put(c: &mut LruCache<String, Entity, RandomState>, k: String, v: Entity)
    ensures
        entity_capacity(*final(c)) == entity_capacity(*old(c)),
        has_entry(entity_entries(*old(c)), k@) ==> entity_entries(*final(c)) == entity_entries(*old(c)).remove(
            entry_pos(entity_entries(*old(c)), k@),
        ).push((k@, v)),
        !has_entry(entity_entries(*old(c)), k@) && entity_entries(*old(c)).len() < entity_capacity(*old(c))
            ==> entity_entries(*final(c)) == entity_entries(*old(c)).push((k@, v)),
        !has_entry(entity_entries(*old(c)), k@) && entity_entries(*old(c)).len() == entity_capacity(*old(c))
            ==> entity_entries(*final(c)) == entity_entries(*old(c)).drop_first().push((k@, v)),
{
    c.put(k, v);
}

/// `LruCache::len`: the number of entries.
#[verifier::external_body]
fn entity_cache_len(c: &LruCache<String, Entity, RandomState>) -> (r: usize)
    ensures
        r == entity_entries(*c).len(),
{
    c.len()
}

/// `LruCache::clear`: removes every entry.
#[verifier::external_body]
fn entity_cache_clear(c: &mut LruCache<String, Entity, RandomState>)
    ensures
        entity_capacity(*final(c)) == entity_capacity(*old(c)),
        entity_entries(*final(c)) == Seq::<(Seq<char>, Entity)>::empty(),
{
    c.clear()
}

/// The values of the entries, most recently used first.
pub open spec fn most_recent_first(es: Seq<(Seq<char>, Entity)>) -> Seq<Entity> {
    Seq::new(es.len(), |i: int| es[es.len() - 1 - i].1)
}

/// `LruCache::iter`, values cloned: most recently used first; the order of
/// use does not change.
#[verifier::external_body]
fn entity_cache_values(c: &LruCache<String, Entity, RandomState>) -> (r: Vec<Entity>)
    ensures
        r@ == most_recent_first(entity_entries(*c)),
{
    c.iter().map(|(_, e)| e.clone()).collect()
}

// ---------------------------------------------------------------------------
// Finding entities in a text
// ---------------------------------------------------------------------------

/// What `Regex::captures_iter` yields for the pattern and the text: for each
/// match, in order, the text of capture group `group` if it took part.
pub uninterp spec fn regex_groups(pattern: Seq<char>, text: Seq<char>, group: usize) -> Seq<Option<Seq<char>>>;

/// The captures by their characters.
pub open spec fn capture_views(v: Seq<Option<String>>) -> Seq<Option<Seq<char>>> {
    v.map_values(|o: Option<String>| match o {
        Some(s) => Some(s@),
        None => None,
    })
}

/// Compiles `pattern` with `regex::Regex::new` and, when it compiles, lists
/// capture group `group` of every match in `text` (`captures_iter`, then
/// `Captures::get`); group 0, the whole match, is always there.
#[verifier::external_body]
fn regex_captures(pattern: &str, text: &str, group: usize) -> (r: Option<Vec<Option<String>>>)
    ensures
        r is Some <==> regex_compiles(pattern@),
        r matches Some(v) ==> capture_views(v@) == regex_groups(pattern@, text@, group),
        r matches Some(v) ==> (group == 0 ==> forall|i: int| 0 <= i < v@.len() ==> v@[i] is Some),
{
    match regex::Regex::new(pattern) {
        Ok(re) => Some(re.captures_iter(text).map(|c| c.get(group).map(|m| m.as_str().to_string())).collect()),
        Err(_) => None,
    }
}

/// Whether std's `Path::starts_with` holds: `base`'s components begin `path`'s.
pub uninterp spec fn path_starts_with(path: Seq<char>, base: Seq<char>) -> bool;

/// Calls std's `Path::new(path).starts_with(base)`, named `path_starts_with`.
#[verifier::external_body]
fn path_has_base(path: &str, base: &str) -> (r: bool)
    ensures
        r == path_starts_with(path@, base@),
{
    std::path::Path::new(path).starts_with(base)
}

/// A file path: after the start, a space, a comma or a semicolon, an optional
/// `.`, `/` or `~`, directories, and a name with an extension.
pub open spec fn file_pattern() -> Seq<char> {
    r"(?:^|[\s,;])((?:[./~])?(?:[a-zA-Z0-9_-]+/)*[a-zA-Z0-9_-]+\.[a-zA-Z0-9]+)"@
}

/// A directory path: as a file path, but made of directories ending in `/`.
pub open spec fn dir_pattern() -> Seq<char> {
    r"(?:^|[\s,;])((?:[./~])?(?:[a-zA-Z0-9_-]+/)+)"@
}

/// A URL: `http://` or `https://` and what follows up to a space.
pub open spec fn url_pattern() -> Seq<char> {
    r"https?://[^\s]+"@
}

/// A number: digits, with an optional fraction, standing as a word.
pub open spec fn number_pattern() -> Seq<char> {
    r"\b\d+(?:\.\d+)?\b"@
}

/// The captures of a pattern, none when it does not compile.
pub open spec fn captured(pattern: Seq<char>, text: Seq<char>, group: usize) -> Seq<Option<Seq<char>>> {
    if regex_compiles(pattern) {
        regex_groups(pattern, text, group)
    } else {
        Seq::empty()
    }
}

/// The captures that took part, in order.
pub open spec fn present(caps: Seq<Option<Seq<char>>>) -> Seq<Seq<char>>
    decreases caps.len(),
{
    if caps.len() == 0 {
        Seq::empty()
    } else {
        match caps.last() {
            Some(s) => present(caps.drop_last()).push(s),
            None => present(caps.drop_last()),
        }
    }
}

/// Some file among `files` lies under the directory `dir`.
pub open spec fn under_some(files: Seq<Seq<char>>, dir: Seq<char>) -> bool {
    exists|i: int| 0 <= i < files.len() && path_starts_with(#[trigger] files[i], dir)
}

/// The directories that no file among `files` lies under, in order.
pub open spec fn kept_dirs(dirs: Seq<Seq<char>>, files: Seq<Seq<char>>) -> Seq<Seq<char>>
    decreases dirs.len(),
{
    if dirs.len() == 0 {
        Seq::empty()
    } else if under_some(files, dirs.last()) {
        kept_dirs(dirs.drop_last(), files)
    } else {
        kept_dirs(dirs.drop_last(), files).push(dirs.last())
    }
}

/// The code of an entity's kind (its place in the declaration).
pub open spec fn kind_code(t: EntityType) -> int {
    match t {
        EntityType::File(_) => 0,
        EntityType::Directory(_) => 1,
        EntityType::Command(_) => 2,
        EntityType::Variable { .. } => 3,
        EntityType::Concept(_) => 4,
        EntityType::Number(_) => 5,
        EntityType::Url(_) => 6,
    }
}

/// `texts` tagged with kind `code` and confidence `confidence`.
pub open spec fn tagged(texts: Seq<Seq<char>>, code: int, confidence: u8) -> Seq<(int, Seq<char>, u8)> {
    texts.map_values(|t: Seq<char>| (code, t, confidence))
}

/// The kind, text and confidence of each entity found in `text`: the files
/// (confidence 90), then the directories that hold none of those files (80),
/// then the URLs (95).
pub open spec fn found_in(text: Seq<char>) -> Seq<(int, Seq<char>, u8)> {
    let files = present(captured(file_pattern(), text, 1));
    let dirs = kept_dirs(present(captured(dir_pattern(), text, 1)), files);
    let urls = present(captured(url_pattern(), text, 0));
    tagged(files, 0, 90) + tagged(dirs, 1, 80) + tagged(urls, 6, 95)
}

/// The kind, text and confidence of an entity.
pub open spec fn entity_tag(e: Entity) -> (int, Seq<char>, u8) {
    (kind_code(e.entity_type), display(e.entity_type), e.confidence)
}

/// Finds files, directories and URLs in texts. Numbers are matched here too;
/// the text a number's value prints as is the caller's to compute.
#[derive(Debug, Clone)]
pub struct EntityExtractor {
    file_pattern: String,
    dir_pattern: String,
    url_pattern: String,
    number_pattern: String,
}

impl EntityExtractor {
    /// The patterns of this extractor are the ones of this module.
    pub closed spec fn wf(&self) -> bool {
        &&& self.file_pattern@ == file_pattern()
        &&& self.dir_pattern@ == dir_pattern()
        &&& self.url_pattern@ == url_pattern()
        &&& self.number_pattern@ == number_pattern()
    }

    /// An extractor with the patterns of this module.
    pub fn new() -> (r: EntityExtractor)
        ensures
            r.wf(),
    {
        EntityExtractor {
            file_pattern: r"(?:^|[\s,;])((?:[./~])?(?:[a-zA-Z0-9_-]+/)*[a-zA-Z0-9_-]+\.[a-zA-Z0-9]+)".to_owned(),
            dir_pattern: r"(?:^|[\s,;])((?:[./~])?(?:[a-zA-Z0-9_-]+/)+)".to_owned(),
            url_pattern: r"https?://[^\s]+".to_owned(),
            number_pattern: r"\b\d+(?:\.\d+)?\b".to_owned(),
        }
    }

    /// The files, directories and URLs mentioned in `text`, each a first
    /// mention in `text` (see `found_in`).
    pub fn extract(&self, text: &str) -> (r: Vec<Entity>)
        requires
            self.wf(),
        ensures
            r@.map_values(|e: Entity| entity_tag(e)) == found_in(text@),
            forall|i: int| 0 <= i < r@.len() ==> (#[trigger] r@[i]).mention_count == 1 && r@[i].context@ == text@,
    {
        let files = present_texts(regex_captures(self.file_pattern.as_str(), text, 1));
        let dirs = present_texts(regex_captures(self.dir_pattern.as_str(), text, 1));
        let urls = present_texts(regex_captures(self.url_pattern.as_str(), text, 0));
        let kept = keep_dirs(&dirs, &files);
        let mut out: Vec<Entity> = Vec::new();
        push_found(&mut out, &files, 0, text);
        push_found(&mut out, &kept, 1, text);
        push_found(&mut out, &urls, 6, text);
        proof {
            let fs = present(captured(file_pattern(), text@, 1));
            let ds = kept_dirs(present(captured(dir_pattern(), text@, 1)), fs);
            let us = present(captured(url_pattern(), text@, 0));
            assert(out@.map_values(|e: Entity| entity_tag(e)) =~= tagged(fs, 0, 90) + tagged(ds, 1, 80) + tagged(us, 6, 95));
        }
        out
    }

    /// The numbers in `text`, as written, in order.
    pub fn number_matches(&self, text: &str) -> (r: Vec<String>)
        requires
            self.wf(),
        ensures
            views_of(r@) == present(captured(number_pattern(), text@, 0)),
    {
        let v = present_texts(regex_captures(self.number_pattern.as_str(), text, 0));
        v
    }
}

/// The strings by their characters.
pub open spec fn views_of(v: Seq<String>) -> Seq<Seq<char>> {
    v.map_values(|s: String| s@)
}

fn present_texts(caps: Option<Vec<Option<String>>>) -> (r: Vec<String>)
    ensures
        views_of(r@) == present(match caps {
            Some(v) => capture_views(v@),
            None => Seq::empty(),
        }),
{
    let mut r: Vec<String> = Vec::new();
    match caps {
        None => {
            assert(views_of(r@) =~= present(Seq::<Option<Seq<char>>>::empty()));
            r
        },
        Some(v) => {
            let ghost all = capture_views(v@);
            let mut i: usize = 0;
            assert(all.take(0) =~= Seq::<Option<Seq<char>>>::empty());
            assert(views_of(r@) =~= Seq::<Seq<char>>::empty());
            while i < v.len()
                invariant
                    i <= v@.len(),
                    all == capture_views(v@),
                    views_of(r@) == present(all.take(i as int)),
                decreases v@.len() - i,
            {
                assert(all.take(i + 1).drop_last() =~= all.take(i as int));
                let ghost before = r@;
                match &v[i] {
                    Some(s) => {
                        r.push(s.clone());
                        assert(views_of(r@) =~= views_of(before).push(s@));
                    },
                    None => {},
                }
                i = i + 1;
            }
            assert(all.take(v@.len() as int) =~= all);
            r
        },
    }
}

fn covered(files: &Vec<String>, dir: &String) -> (r: bool)
    ensures
        r == under_some(views_of(files@), dir@),
{
    let mut i: usize = 0;
    while i < files.len()
        invariant
            i <= files@.len(),
            forall|k: int| 0 <= k < i ==> !path_starts_with(#[trigger] views_of(files@)[k], dir@),
        decreases files@.len() - i,
    {
        if path_has_base(files[i].as_str(), dir.as_str()) {
            assert(path_starts_with(views_of(files@)[i as int], dir@));
            return true;
        }
        i = i + 1;
    }
    false
}

fn keep_dirs(dirs: &Vec<String>, files: &Vec<String>) -> (r: Vec<String>)
    ensures
        views_of(r@) == kept_dirs(views_of(dirs@), views_of(files@)),
{
    let ghost ds = views_of(dirs@);
    let ghost fs = views_of(files@);
    let mut r: Vec<String> = Vec::new();
    let mut i: usize = 0;
    assert(ds.take(0) =~= Seq::<Seq<char>>::empty());
    assert(views_of(r@) =~= Seq::<Seq<char>>::empty());
    while i < dirs.len()
        invariant
            i <= dirs@.len(),
            ds == views_of(dirs@),
            fs == views_of(files@),
            views_of(r@) == kept_dirs(ds.take(i as int), fs),
        decreases dirs@.len() - i,
    {
        assert(ds.take(i + 1).drop_last() =~= ds.take(i as int));
        assert(ds.take(i + 1).last() == dirs@[i as int]@);
        let ghost before = r@;
        if !covered(files, &dirs[i]) {
            r.push(dirs[i].clone());
            assert(views_of(r@) =~= views_of(before).push(dirs@[i as int]@));
        }
        i = i + 1;
    }
    assert(ds.take(dirs@.len() as int) =~= ds);
    r
}

fn push_found(out: &mut Vec<Entity>, texts: &Vec<String>, code: u8, context: &str)
    requires
        code == 0 || code == 1 || code == 6,
        forall|i: int| 0 <= i < old(out)@.len() ==> (#[trigger] old(out)@[i]).mention_count == 1 && old(out)@[i].context@ == context@,
    ensures
        final(out)@.map_values(|e: Entity| entity_tag(e)) == old(out)@.map_values(|e: Entity| entity_tag(e))
            + tagged(views_of(texts@), code as int, if code == 0 { 90u8 } else if code == 1 { 80u8 } else { 95u8 }),
        forall|i: int| 0 <= i < final(out)@.len() ==> (#[trigger] final(out)@[i]).mention_count == 1 && final(out)@[i].context@ == context@,
{
    let ghost start = old(out)@.map_values(|e: Entity| entity_tag(e));
    let ghost conf: u8 = if code == 0 { 90u8 } else if code == 1 { 80u8 } else { 95u8 };
    let ghost ts = views_of(texts@);
    let mut i: usize = 0;
    assert(ts.take(0) =~= Seq::<Seq<char>>::empty());
    assert(out@.map_values(|e: Entity| entity_tag(e)) =~= start + tagged(ts.take(0), code as int, conf));
    while i < texts.len()
        invariant
            i <= texts@.len(),
            code == 0 || code == 1 || code == 6,
            conf == (if code == 0 { 90u8 } else if code == 1 { 80u8 } else { 95u8 }),
            ts == views_of(texts@),
            out@.map_values(|e: Entity| entity_tag(e)) == start + tagged(ts.take(i as int), code as int, conf),
            forall|k: int| 0 <= k < out@.len() ==> (#[trigger] out@[k]).mention_count == 1 && out@[k].context@ == context@,
        decreases texts@.len() - i,
    {
        let t = texts[i].clone();
        let e = if code == 0 {
            Entity::new(EntityType::File(t), context.to_owned(), 90)
        } else if code == 1 {
            Entity::new(EntityType::Directory(t), context.to_owned(), 80)
        } else {
            Entity::new(EntityType::Url(t), context.to_owned(), 95)
        };
        let ghost before = out@;
        out.push(e);
        proof {
            assert(ts.take(i + 1) =~= ts.take(i as int).push(ts[i as int]));
            assert(entity_tag(e) == (code as int, ts[i as int], conf));
            assert(out@.map_values(|e: Entity| entity_tag(e)) =~= before.map_values(|e: Entity| entity_tag(e)).push(entity_tag(e)));
            assert(tagged(ts.take(i + 1), code as int, conf) =~= tagged(ts.take(i as int), code as int, conf).push((code as int, ts[i as int], conf)));
        }
        i = i + 1;
    }
    assert(ts.take(texts@.len() as int) =~= ts);
}

// ---------------------------------------------------------------------------
// Resolving pronouns
// ---------------------------------------------------------------------------

/// Which entity a pronoun asks for, by its lowercase form: 0 the most recent
/// of any kind (`它`, `it`, `this`, `that`); 1 the most recent file (`这个文件`,
/// `该文件`, `this file`); 2 the most recent directory (`这个目录`, `该目录`,
/// `this directory`); 3 the most recent command (`上一个命令`, `刚才的命令`,
/// `last command`); 4 anything else, answered from the working context.
pub open spec fn pronoun_class(lower: Seq<char>) -> int {
    if lower == "它"@ || lower == "it"@ || lower == "this"@ || lower == "that"@ {
        0
    } else if lower == "这个文件"@ || lower == "该文件"@ || lower == "this file"@ {
        1
    } else if lower == "这个目录"@ || lower == "该目录"@ || lower == "this directory"@ {
        2
    } else if lower == "上一个命令"@ || lower == "刚才的命令"@ || lower == "last command"@ {
        3
    } else {
        4
    }
}

/// The first entity of kind `kind` in `es`.
pub open spec fn first_of_kind(es: Seq<Entity>, kind: Seq<char>) -> Option<Entity>
    decreases es.len(),
{
    if es.len() == 0 {
        None
    } else if kind_name(es[0].entity_type) == kind {
        Some(es[0])
    } else {
        first_of_kind(es.drop_first(), kind)
    }
}

/// `r` is what the pronoun of lowercase form `lower` resolves to, `recent`
/// being the entities most recently used first and `last_file` the file of
/// the working context: the most recent entity of the kind asked for; for
/// any other pronoun, a first mention of the working file in `工作上下文`
/// with confidence 80, or nothing when there is none.
pub open spec fn resolves_to(r: Option<Entity>, lower: Seq<char>, recent: Seq<Entity>, last_file: Option<String>) -> bool {
    let c = pronoun_class(lower);
    if c == 0 {
        r == (if recent.len() > 0 { Some(recent[0]) } else { None::<Entity> })
    } else if c == 1 {
        r == first_of_kind(recent, "文件"@)
    } else if c == 2 {
        r == first_of_kind(recent, "目录"@)
    } else if c == 3 {
        r == first_of_kind(recent, "命令"@)
    } else {
        match last_file {
            Some(f) => r matches Some(e) && e.entity_type == EntityType::File(f) && e.mention_count == 1
                && e.context@ == "工作上下文"@ && e.confidence == 80,
            None => r is None,
        }
    }
}

fn copy_entity_type(t: &EntityType) -> (r: EntityType)
    ensures
        r == *t,
{
    match t {
        EntityType::File(p) => EntityType::File(p.clone()),
        EntityType::Directory(p) => EntityType::Directory(p.clone()),
        EntityType::Command(c) => EntityType::Command(c.clone()),
        EntityType::Variable { name, value } => EntityType::Variable { name: name.clone(), value: value.clone() },
        EntityType::Concept(c) => EntityType::Concept(c.clone()),
        EntityType::Number(n) => EntityType::Number(n.clone()),
        EntityType::Url(u) => EntityType::Url(u.clone()),
    }
}

/// A copy of `e`, equal to it.
pub fn copy_entity(e: &Entity) -> (r: Entity)
    ensures
        r == *e,
{
    Entity {
        entity_type: copy_entity_type(&e.entity_type),
        mentioned_at_ms: e.mentioned_at_ms,
        mention_count: e.mention_count,
        context: e.context.clone(),
        confidence: e.confidence,
    }
}

fn equals(s: &[char], t: &str) -> (r: bool)
    ensures
        r == (s@ == t@),
{
    chars_equal(s, chars_of(t).as_slice())
}

fn first_of_kind_in(es: &Vec<Entity>, kind: &str) -> (r: Option<Entity>)
    ensures
        r == first_of_kind(es@, kind@),
{
    let mut i: usize = 0;
    assert(es@.skip(0) =~= es@);
    while i < es.len()
        invariant
            i <= es@.len(),
            first_of_kind(es@.skip(i as int), kind@) == first_of_kind(es@, kind@),
        decreases es@.len() - i,
    {
        let ghost rest = es@.skip(i as int);
        assert(rest[0] == es@[i as int]);
        assert(rest.drop_first() =~= es@.skip(i + 1));
        if equals(chars_of(es[i].entity_type.type_label()).as_slice(), kind) {
            return Some(copy_entity(&es[i]));
        }
        i = i + 1;
    }
    assert(es@.skip(i as int) =~= Seq::<Entity>::empty());
    None
}

// ---------------------------------------------------------------------------
// The context tracker
// ---------------------------------------------------------------------------

/// Tracks the entities of a conversation (at most 50, the least recently
/// used leaving first), the pronouns resolved (the last 20) and the working
/// context.
pub struct ContextTracker {
    recent_entities: LruCache<String, Entity, RandomState>,
    working_context: WorkingContext,
    reference_history: Vec<ReferenceRecord>,
    max_reference_history: usize,
    extractor: EntityExtractor,
}

/// The history after recording `rec`: it goes last, and the oldest record
/// leaves when there were already 20.
pub open spec fn history_after(h: Seq<ReferenceRecord>, last: Seq<ReferenceRecord>) -> bool {
    &&& last.len() > 0
    &&& last.drop_last() == (if h.len() >= 20 { h.drop_first() } else { h })
}

impl ContextTracker {
    /// The entity entries, keys by their characters, least recently used first.
    pub closed spec fn entries(&self) -> Seq<(Seq<char>, Entity)> {
        entity_entries(self.recent_entities)
    }

    /// The pronouns resolved, oldest first.
    pub closed spec fn history(&self) -> Seq<ReferenceRecord> {
        self.reference_history@
    }

    /// The working context.
    pub closed spec fn context(&self) -> WorkingContext {
        self.working_context
    }

    /// At most 50 entries, each under the name of its entity, no name twice;
    /// at most 20 records; each variable of the working context once.
    pub closed spec fn wf(&self) -> bool {
        &&& entity_capacity(self.recent_entities) == 50
        &&& self.entries().len() <= 50
        &&& entry_keys_unique(self.entries())
        &&& forall|i: int| 0 <= i < self.entries().len() ==> #[trigger] self.entries()[i].0 == display(
            self.entries()[i].1.entity_type,
        )
        &&& self.max_reference_history == 20
        &&& self.reference_history@.len() <= 20
        &&& vars_distinct(self.working_context.active_variables@)
        &&& self.extractor.wf()
    }

    /// An empty tracker.
    pub fn new() -> (r: ContextTracker)
        ensures
            r.wf(),
            r.entries().len() == 0,
            r.history().len() == 0,
            r.context().current_directory is None && r.context().last_file is None
                && r.context().last_command is None && r.context().current_task is None
                && r.context().active_variables@.len() == 0,
    {
        ContextTracker {
            recent_entities: entity_cache_new(50),
            working_context: WorkingContext::new(),
            reference_history: Vec::new(),
            max_reference_history: 20,
            extractor: EntityExtractor::new(),
        }
    }

    /// The files, directories and URLs mentioned in `user_input` (see `EntityExtractor::extract`).
    pub fn extract_entities(&mut self, user_input: &str) -> (r: Vec<Entity>)
        requires
            old(self).wf(),
        ensures
            *final(self) == *old(self),
            r@.map_values(|e: Entity| entity_tag(e)) == found_in(user_input@),
            forall|i: int| 0 <= i < r@.len() ==> (#[trigger] r@[i]).mention_count == 1 && r@[i].context@ == user_input@,
    {
        self.extractor.extract(user_input)
    }

    /// The numbers in `user_input`, as written (see `EntityExtractor::number_matches`).
    pub fn number_matches(&self, user_input: &str) -> (r: Vec<String>)
        requires
            self.wf(),
        ensures
            views_of(r@) == present(captured(number_pattern(), user_input@, 0)),
    {
        self.extractor.number_matches(user_input)
    }

    /// Records a mention of `entity` under its name: a known entity is
    /// mentioned again in the new context and becomes the most recent; a new
    /// one is added as the most recent, the least recently used leaving when
    /// 50 are kept.
    pub fn record_entity(&mut self, entity: Entity)
        requires
            old(self).wf(),
        ensures
            final(self).wf(),
            final(self).history() == old(self).history(),
            final(self).context() == old(self).context(),
            ({
                let es = old(self).entries();
                let k = display(entity.entity_type);
                let after = final(self).entries();
                &&& has_entry(es, k) ==> after.len() == es.len() && after.drop_last() == es.remove(entry_pos(es, k))
                    && after.last().0 == k && mentioned_again(es[entry_pos(es, k)].1, after.last().1, entity.context)
                &&& !has_entry(es, k) && es.len() < 50 ==> after == es.push((k, entity))
                &&& !has_entry(es, k) && es.len() >= 50 ==> after == es.drop_first().push((k, entity))
            }),
    {
        let key = entity.entity_type.display_name();
        let ghost es = self.entries();
        let ghost k = key@;
        match entity_cache_get(&mut self.recent_entities, &key) {
            Some(found) => {
                let ghost i = entry_pos(es, k);
                let ghost mid = es.remove(i).push(es[i]);
                assert(entity_entries(self.recent_entities) == mid);
                let mut existing = found;
                existing.update_mention(entity.context);
                proof {
                    assert(mid[mid.len() - 1].0 == k);
                    assert(has_entry(mid, k));
                    assert forall|a: int, b: int| 0 <= a < b < mid.len() implies mid[a].0 != mid[b].0 by {
                        let ia = if a < i { a } else { a + 1 };
                        let ib = if b < mid.len() - 1 { if b < i { b } else { b + 1 } } else { i };
                        assert(mid[a] == es[ia]);
                        assert(mid[b] == es[ib]);
                    }
                    assert(entry_pos(mid, k) == mid.len() - 1);
                }
                entity_cache_put(&mut self.recent_entities, key, existing);
                proof {
                    let after = self.entries();
                    assert(mid.remove(mid.len() - 1) =~= es.remove(i));
                    assert(after.drop_last() =~= es.remove(i));
                    assert forall|a: int, b: int| 0 <= a < b < after.len() implies after[a].0 != after[b].0 by {
                        let ia = if a < i { a } else { a + 1 };
                        if b < after.len() - 1 {
                            let ib = if b < i { b } else { b + 1 };
                            assert(after[b] == es[ib]);
                        } else {
                            assert(es[i].0 == k);
                        }
                        assert(after[a] == es[ia]);
                    }
                    assert forall|a: int| 0 <= a < after.len() implies #[trigger] after[a].0 == display(after[a].1.entity_type) by {
                        if a < after.len() - 1 {
                            let ia = if a < i { a } else { a + 1 };
                            assert(after[a] == es[ia]);
                        }
                    }
                }
            },
            None => {
                entity_cache_put(&mut self.recent_entities, key, entity);
                proof {
                    let after = self.entries();
                    assert forall|a: int, b: int| 0 <= a < b < after.len() implies after[a].0 != after[b].0 by {
                        if es.len() < 50 {
                            if b < es.len() {
                                assert(after[a] == es[a] && after[b] == es[b]);
                            } else {
                                assert(after[a] == es[a]);
                            }
                        } else {
                            if b < after.len() - 1 {
                                assert(after[a] == es[a + 1] && after[b] == es[b + 1]);
                            } else {
                                assert(after[a] == es[a + 1]);
                            }
                        }
                    }
                    assert forall|a: int| 0 <= a < after.len() implies #[trigger] after[a].0 == display(after[a].1.entity_type) by {
                        if es.len() < 50 {
                            if a < es.len() {
                                assert(after[a] == es[a]);
                            }
                        } else if a < after.len() - 1 {
                            assert(after[a] == es[a + 1]);
                        }
                    }
                }
            },
        }
    }

    /// Records each entity in turn (see `record_entity`); the last one ends
    /// up the most recent.
    pub fn record_entities(&mut self, entities: Vec<Entity>)
        requires
            old(self).wf(),
        ensures
            final(self).wf(),
            final(self).history() == old(self).history(),
            final(self).context() == old(self).context(),
            entities@.len() > 0 ==> final(self).entries().len() > 0 && final(self).entries().last().0 == display(
                entities@.last().entity_type,
            ),
            entities@.len() == 0 ==> final(self).entries() == old(self).entries(),
    {
        let mut i: usize = 0;
        let n = entities.len();
        let mut rest = entities;
        let ghost all = rest@;
        while rest.len() > 0
            invariant
                self.wf(),
                self.history() == old(self).history(),
                self.context() == old(self).context(),
                n == all.len(),
                rest@ == all.skip(i as int),
                i <= n,
                i > 0 ==> self.entries().len() > 0 && self.entries().last().0 == display(all[i - 1].entity_type),
                i == 0 ==> self.entries() == old(self).entries(),
            decreases rest@.len(),
        {
            let e = rest.remove(0);
            assert(e == all[i as int]);
            assert(rest@ =~= all.skip(i + 1));
            self.record_entity(e);
            i = i + 1;
        }
        assert(all.skip(i as int).len() == 0);
    }

    /// Resolves a pronoun (see `pronoun_class` and `resolves_to`); a pronoun
    /// that resolves is recorded with its entity, the oldest record leaving
    /// when 20 are kept. The entities' order of use does not change.
    pub fn resolve_reference(&mut self, pronoun: &str) -> (r: Option<Entity>)
        requires
            old(self).wf(),
        ensures
            final(self).wf(),
            final(self).entries() == old(self).entries(),
            final(self).context() == old(self).context(),
            resolves_to(r, lowercase(pronoun@), most_recent_first(old(self).entries()), old(self).context().last_file),
            r is None ==> final(self).history() == old(self).history(),
            r matches Some(e) ==> history_after(old(self).history(), final(self).history())
                && final(self).history().last().pronoun@ == pronoun@
                && final(self).history().last().resolved_entity == e,
    {
        let lower = to_lowercase(pronoun);
        let l = chars_of(lower.as_str());
        let recent = entity_cache_values(&self.recent_entities);
        let entity = if equals(l.as_slice(), "它") || equals(l.as_slice(), "it") || equals(l.as_slice(), "this")
            || equals(l.as_slice(), "that") {
            if recent.len() > 0 {
                Some(copy_entity(&recent[0]))
            } else {
                None
            }
        } else if equals(l.as_slice(), "这个文件") || equals(l.as_slice(), "该文件") || equals(l.as_slice(), "this file") {
            first_of_kind_in(&recent, "文件")
        } else if equals(l.as_slice(), "这个目录") || equals(l.as_slice(), "该目录") || equals(
            l.as_slice(),
            "this directory",
        ) {
            first_of_kind_in(&recent, "目录")
        } else if equals(l.as_slice(), "上一个命令") || equals(l.as_slice(), "刚才的命令") || equals(
            l.as_slice(),
            "last command",
        ) {
            first_of_kind_in(&recent, "命令")
        } else {
            match &self.working_context.last_file {
                Some(file) => Some(Entity::new(EntityType::File(file.clone()), "工作上下文".to_owned(), 80)),
                None => None,
            }
        };
        match &entity {
            Some(e) => {
                let record = ReferenceRecord {
                    pronoun: pronoun.to_owned(),
                    resolved_entity: copy_entity(e),
                    resolved_at_ms: clock_millis(),
                };
                let ghost h = self.reference_history@;
                self.reference_history.push(record);
                if self.reference_history.len() > self.max_reference_history {
                    self.reference_history.remove(0);
                    assert(self.reference_history@.drop_last() =~= h.drop_first());
                } else {
                    assert(self.reference_history@.drop_last() =~= h);
                }
            },
            None => {},
        }
        entity
    }

    /// Applies a change to the working context (see `WorkingContext::apply`).
    pub fn update_working_context(&mut self, context_update: WorkingContextUpdate)
        requires
            old(self).wf(),
        ensures
            final(self).wf(),
            final(self).entries() == old(self).entries(),
            final(self).history() == old(self).history(),
            crate::memory::context_updated(old(self).context(), final(self).context(), context_update),
    {
        self.working_context.apply(context_update);
    }

    /// The entities, most recently used first; nothing changes.
    pub fn get_all_entities(&mut self) -> (r: Vec<Entity>)
        requires
            old(self).wf(),
        ensures
            *final(self) == *old(self),
            r@ == most_recent_first(old(self).entries()),
    {
        entity_cache_values(&self.recent_entities)
    }

    /// Forgets every entity and record and empties the working context.
    pub fn clear(&mut self)
        requires
            old(self).wf(),
        ensures
            final(self).wf(),
            final(self).entries().len() == 0,
            final(self).history().len() == 0,
            final(self).context().current_directory is None && final(self).context().last_file is None
                && final(self).context().last_command is None && final(self).context().current_task is None
                && final(self).context().active_variables@.len() == 0,
    {
        entity_cache_clear(&mut self.recent_entities);
        self.reference_history.clear();
        self.working_context = WorkingContext::new();
    }

    /// How many entities and records are kept, and whether a task is set.
    pub fn stats(&self) -> (r: ContextStats)
        requires
            self.wf(),
        ensures
            r.total_entities == self.entries().len(),
            r.total_references == self.history().len(),
            r.working_context_active == self.context().current_task is Some,
    {
        ContextStats {
            total_entities: entity_cache_len(&self.recent_entities),
            total_references: self.reference_history.len(),
            working_context_active: self.working_context.current_task.is_some(),
        }
    }

    /// The pronouns resolved, oldest first.
    pub fn reference_history(&self) -> (r: &Vec<ReferenceRecord>)
        ensures
            r@ == self.history(),
    {
        &self.reference_history
    }

    /// The working context.
    pub fn working_context(&self) -> (r: &WorkingContext)
        ensures
            *r == self.context(),
    {
        &self.working_context
    }
}

/// A tracker keeps at most 50 entities, each under its own name and no name
/// twice, and at most 20 resolved pronouns.
pub proof fn law_tracker_bounded(t: ContextTracker)
    requires
        t.wf(),
    ensures
        t.entries().len() <= 50,
        t.history().len() <= 20,
        entry_keys_unique(t.entries()),
        forall|i: int| 0 <= i < t.entries().len() ==> #[trigger] t.entries()[i].0 == display(t.entries()[i].1.entity_type),
{
}


/// The first entity of a kind is the earliest one whose kind has that name:
/// none comes before it, and there is none at all when nothing is found.
proof fn lemma_first_of_kind(es: Seq<Entity>, kind: Seq<char>)
    ensures
        first_of_kind(es, kind) matches Some(e) ==> exists|i: int|
            0 <= i < es.len() && es[i] == e && kind_name(e.entity_type) == kind && forall|j: int|
                0 <= j < i ==> kind_name(#[trigger] es[j].entity_type) != kind,
        first_of_kind(es, kind) is None ==> forall|i: int|
            0 <= i < es.len() ==> kind_name(#[trigger] es[i].entity_type) != kind,
    decreases es.len(),
{
    if es.len() > 0 {
        lemma_first_of_kind(es.drop_first(), kind);
        let t = es.drop_first();
        if kind_name(es[0].entity_type) != kind {
            if first_of_kind(t, kind) is Some {
                let e = first_of_kind(t, kind)->0;
                let i = choose|i: int| 0 <= i < t.len() && t[i] == e && kind_name(e.entity_type) == kind
                    && forall|j: int| 0 <= j < i ==> kind_name(#[trigger] t[j].entity_type) != kind;
                assert(es[i + 1] == e);
                assert forall|j: int| 0 <= j < i + 1 implies kind_name(#[trigger] es[j].entity_type) != kind by {
                    if j > 0 {
                        assert(es[j] == t[j - 1]);
                    }
                }
            } else {
                assert forall|i: int| 0 <= i < es.len() implies kind_name(#[trigger] es[i].entity_type) != kind by {
                    if i > 0 {
                        assert(es[i] == t[i - 1]);
                    }
                }
            }
        }
    }
}

/// What a kind's name says of an entity's type.
proof fn lemma_kind_names(t: EntityType)
    ensures
        (kind_name(t) == "文件"@) == (t is File),
        (kind_name(t) == "目录"@) == (t is Directory),
        (kind_name(t) == "命令"@) == (t is Command),
{
    reveal_strlit("文件");
    reveal_strlit("目录");
    reveal_strlit("命令");
    reveal_strlit("变量");
    reveal_strlit("概念");
    reveal_strlit("数字");
    reveal_strlit("URL");
    assert("文件"@[0] == '文' && "目录"@[0] == '目' && "命令"@[0] == '命' && "变量"@[0] == '变');
    assert("概念"@[0] == '概' && "数字"@[0] == '数' && "URL"@[0] == 'U');
}

/// A pronoun resolves to the most recently used entity of the kind it names:
/// `这个文件`, `该文件`, `this file` to a file, `这个目录`, `该目录`,
/// `this directory` to a directory, and `上一个命令`, `刚才的命令`,
/// `last command` to a command, with no entity of that kind used more
/// recently, and to nothing exactly when no entity of that kind was used;
/// `它`, `it`, `this`, `that` resolve to the most recently used entity; any
/// other word names the working context's file, with confidence 80, or
/// nothing when there is none.
pub proof fn law_pronoun_resolves_to_its_kind(
    r: Option<Entity>,
    lower: Seq<char>,
    recent: Seq<Entity>,
    last_file: Option<String>,
)
    requires
        resolves_to(r, lower, recent, last_file),
    ensures
        lower == "这个文件"@ || lower == "该文件"@ || lower == "this file"@ ==> {
            &&& r matches Some(e) ==> e.entity_type is File && exists|i: int|
                0 <= i < recent.len() && recent[i] == e && forall|j: int|
                    0 <= j < i ==> !(#[trigger] recent[j].entity_type is File)
            &&& r is None <==> forall|i: int| 0 <= i < recent.len() ==> !(#[trigger] recent[i].entity_type is File)
        },
        lower == "这个目录"@ || lower == "该目录"@ || lower == "this directory"@ ==> {
            &&& r matches Some(e) ==> e.entity_type is Directory && exists|i: int|
                0 <= i < recent.len() && recent[i] == e && forall|j: int|
                    0 <= j < i ==> !(#[trigger] recent[j].entity_type is Directory)
            &&& r is None <==> forall|i: int| 0 <= i < recent.len() ==> !(#[trigger] recent[i].entity_type is Directory)
        },
        lower == "上一个命令"@ || lower == "刚才的命令"@ || lower == "last command"@ ==> {
            &&& r matches Some(e) ==> e.entity_type is Command && exists|i: int|
                0 <= i < recent.len() && recent[i] == e && forall|j: int|
                    0 <= j < i ==> !(#[trigger] recent[j].entity_type is Command)
            &&& r is None <==> forall|i: int| 0 <= i < recent.len() ==> !(#[trigger] recent[i].entity_type is Command)
        },
        lower == "它"@ || lower == "it"@ || lower == "this"@ || lower == "that"@ ==> (r == if recent.len() > 0 {
            Some(recent[0])
        } else {
            None::<Entity>
        }),
        lower != "它"@ && lower != "it"@ && lower != "this"@ && lower != "that"@ && lower != "这个文件"@ && lower != "该文件"@ && lower != "this file"@ && lower != "这个目录"@ && lower != "该目录"@ && lower != "this directory"@ && lower != "上一个命令"@ && lower != "刚才的命令"@ && lower != "last command"@ ==> match last_file {
            Some(f) => r matches Some(e) && e.entity_type == EntityType::File(f) && e.context@ == "工作上下文"@
                && e.confidence == 80 && e.mention_count == 1,
            None => r is None,
        },
{
    lemma_pronoun_classes();
    if lower == "这个文件"@ || lower == "该文件"@ || lower == "this file"@ {
        assert(pronoun_class(lower) == 1);
        lemma_first_kind_is(recent, "文件"@, 0);
    }
    if lower == "这个目录"@ || lower == "该目录"@ || lower == "this directory"@ {
        assert(pronoun_class(lower) == 2);
        lemma_first_kind_is(recent, "目录"@, 1);
    }
    if lower == "上一个命令"@ || lower == "刚才的命令"@ || lower == "last command"@ {
        assert(pronoun_class(lower) == 3);
        lemma_first_kind_is(recent, "命令"@, 2);
    }
}

/// The class of each pronoun the tracker knows.
proof fn lemma_pronoun_classes()
    ensures
        pronoun_class("它"@) == 0,
        pronoun_class("it"@) == 0,
        pronoun_class("this"@) == 0,
        pronoun_class("that"@) == 0,
        pronoun_class("这个文件"@) == 1,
        pronoun_class("该文件"@) == 1,
        pronoun_class("this file"@) == 1,
        pronoun_class("这个目录"@) == 2,
        pronoun_class("该目录"@) == 2,
        pronoun_class("this directory"@) == 2,
        pronoun_class("上一个命令"@) == 3,
        pronoun_class("刚才的命令"@) == 3,
        pronoun_class("last command"@) == 3,
{
    assert(pronoun_class("它"@) == 0) by {
        reveal_strlit("它");
        reveal_strlit("it");
        reveal_strlit("this");
        reveal_strlit("that");
        reveal_strlit("这个文件");
        reveal_strlit("该文件");
        reveal_strlit("this file");
        reveal_strlit("这个目录");
        reveal_strlit("该目录");
        reveal_strlit("this directory");
        reveal_strlit("上一个命令");
        reveal_strlit("刚才的命令");
        reveal_strlit("last command");
        assert("这个文件"@[0] == '这' && "这个目录"@[0] == '这' && "this"@[0] == 't' && "that"@[0] == 't');
        assert("这个文件"@[2] == '文' && "这个目录"@[2] == '目' && "this"@[2] == 'i' && "that"@[2] == 'a');
        assert("该文件"@[1] == '文' && "该目录"@[1] == '目' && "上一个命令"@[0] == '上' && "刚才的命令"@[0] == '刚');
    }
    assert(pronoun_class("it"@) == 0) by {
        reveal_strlit("它");
        reveal_strlit("it");
        reveal_strlit("this");
        reveal_strlit("that");
        reveal_strlit("这个文件");
        reveal_strlit("该文件");
        reveal_strlit("this file");
        reveal_strlit("这个目录");
        reveal_strlit("该目录");
        reveal_strlit("this directory");
        reveal_strlit("上一个命令");
        reveal_strlit("刚才的命令");
        reveal_strlit("last command");
        assert("这个文件"@[0] == '这' && "这个目录"@[0] == '这' && "this"@[0] == 't' && "that"@[0] == 't');
        assert("这个文件"@[2] == '文' && "这个目录"@[2] == '目' && "this"@[2] == 'i' && "that"@[2] == 'a');
        assert("该文件"@[1] == '文' && "该目录"@[1] == '目' && "上一个命令"@[0] == '上' && "刚才的命令"@[0] == '刚');
        assert("it"@.len() != "它"@.len());
    }
    assert(pronoun_class("this"@) == 0) by {
        reveal_strlit("它");
        reveal_strlit("it");
        reveal_strlit("this");
        reveal_strlit("that");
        reveal_strlit("这个文件");
        reveal_strlit("该文件");
        reveal_strlit("this file");
        reveal_strlit("这个目录");
        reveal_strlit("该目录");
        reveal_strlit("this directory");
        reveal_strlit("上一个命令");
        reveal_strlit("刚才的命令");
        reveal_strlit("last command");
        assert("这个文件"@[0] == '这' && "这个目录"@[0] == '这' && "this"@[0] == 't' && "that"@[0] == 't');
        assert("这个文件"@[2] == '文' && "这个目录"@[2] == '目' && "this"@[2] == 'i' && "that"@[2] == 'a');
        assert("该文件"@[1] == '文' && "该目录"@[1] == '目' && "上一个命令"@[0] == '上' && "刚才的命令"@[0] == '刚');
        assert("this"@.len() != "它"@.len());
        assert("this"@.len() != "it"@.len());
    }
    assert(pronoun_class("that"@) == 0) by {
        reveal_strlit("它");
        reveal_strlit("it");
        reveal_strlit("this");
        reveal_strlit("that");
        reveal_strlit("这个文件");
        reveal_strlit("该文件");
        reveal_strlit("this file");
        reveal_strlit("这个目录");
        reveal_strlit("该目录");
        reveal_strlit("this directory");
        reveal_strlit("上一个命令");
        reveal_strlit("刚才的命令");
        reveal_strlit("last command");
        assert("这个文件"@[0] == '这' && "这个目录"@[0] == '这' && "this"@[0] == 't' && "that"@[0] == 't');
        assert("这个文件"@[2] == '文' && "这个目录"@[2] == '目' && "this"@[2] == 'i' && "that"@[2] == 'a');
        assert("该文件"@[1] == '文' && "该目录"@[1] == '目' && "上一个命令"@[0] == '上' && "刚才的命令"@[0] == '刚');
        assert("that"@.len() != "它"@.len());
        assert("that"@.len() != "it"@.len());
        assert("that"@[2] != "this"@[2]);
    }
    assert(pronoun_class("这个文件"@) == 1) by {
        reveal_strlit("它");
        reveal_strlit("it");
        reveal_strlit("this");
        reveal_strlit("that");
        reveal_strlit("这个文件");
        reveal_strlit("该文件");
        reveal_strlit("this file");
        reveal_strlit("这个目录");
        reveal_strlit("该目录");
        reveal_strlit("this directory");
        reveal_strlit("上一个命令");
        reveal_strlit("刚才的命令");
        reveal_strlit("last command");
        assert("这个文件"@[0] == '这' && "这个目录"@[0] == '这' && "this"@[0] == 't' && "that"@[0] == 't');
        assert("这个文件"@[2] == '文' && "这个目录"@[2] == '目' && "this"@[2] == 'i' && "that"@[2] == 'a');
        assert("该文件"@[1] == '文' && "该目录"@[1] == '目' && "上一个命令"@[0] == '上' && "刚才的命令"@[0] == '刚');
        assert("这个文件"@.len() != "它"@.len());
        assert("这个文件"@.len() != "it"@.len());
        assert("这个文件"@[0] != "this"@[0]);
        assert("这个文件"@[0] != "that"@[0]);
    }
    assert(pronoun_class("该文件"@) == 1) by {
        reveal_strlit("它");
        reveal_strlit("it");
        reveal_strlit("this");
        reveal_strlit("that");
        reveal_strlit("这个文件");
        reveal_strlit("该文件");
        reveal_strlit("this file");
        reveal_strlit("这个目录");
        reveal_strlit("该目录");
        reveal_strlit("this directory");
        reveal_strlit("上一个命令");
        reveal_strlit("刚才的命令");
        reveal_strlit("last command");
        assert("这个文件"@[0] == '这' && "这个目录"@[0] == '这' && "this"@[0] == 't' && "that"@[0] == 't');
        assert("这个文件"@[2] == '文' && "这个目录"@[2] == '目' && "this"@[2] == 'i' && "that"@[2] == 'a');
        assert("该文件"@[1] == '文' && "该目录"@[1] == '目' && "上一个命令"@[0] == '上' && "刚才的命令"@[0] == '刚');
        assert("该文件"@.len() != "它"@.len());
        assert("该文件"@.len() != "it"@.len());
        assert("该文件"@.len() != "this"@.len());
        assert("该文件"@.len() != "that"@.len());
        assert("该文件"@.len() != "这个文件"@.len());
    }
    assert(pronoun_class("this file"@) == 1) by {
        reveal_strlit("它");
        reveal_strlit("it");
        reveal_strlit("this");
        reveal_strlit("that");
        reveal_strlit("这个文件");
        reveal_strlit("该文件");
        reveal_strlit("this file");
        reveal_strlit("这个目录");
        reveal_strlit("该目录");
        reveal_strlit("this directory");
        reveal_strlit("上一个命令");
        reveal_strlit("刚才的命令");
        reveal_strlit("last command");
        assert("这个文件"@[0] == '这' && "这个目录"@[0] == '这' && "this"@[0] == 't' && "that"@[0] == 't');
        assert("这个文件"@[2] == '文' && "这个目录"@[2] == '目' && "this"@[2] == 'i' && "that"@[2] == 'a');
        assert("该文件"@[1] == '文' && "该目录"@[1] == '目' && "上一个命令"@[0] == '上' && "刚才的命令"@[0] == '刚');
        assert("this file"@.len() != "它"@.len());
        assert("this file"@.len() != "it"@.len());
        assert("this file"@.len() != "this"@.len());
        assert("this file"@.len() != "that"@.len());
        assert("this file"@.len() != "这个文件"@.len());
        assert("this file"@.len() != "该文件"@.len());
    }
    assert(pronoun_class("这个目录"@) == 2) by {
        reveal_strlit("它");
        reveal_strlit("it");
        reveal_strlit("this");
        reveal_strlit("that");
        reveal_strlit("这个文件");
        reveal_strlit("该文件");
        reveal_strlit("this file");
        reveal_strlit("这个目录");
        reveal_strlit("该目录");
        reveal_strlit("this directory");
        reveal_strlit("上一个命令");
        reveal_strlit("刚才的命令");
        reveal_strlit("last command");
        assert("这个文件"@[0] == '这' && "这个目录"@[0] == '这' && "this"@[0] == 't' && "that"@[0] == 't');
        assert("这个文件"@[2] == '文' && "这个目录"@[2] == '目' && "this"@[2] == 'i' && "that"@[2] == 'a');
        assert("该文件"@[1] == '文' && "该目录"@[1] == '目' && "上一个命令"@[0] == '上' && "刚才的命令"@[0] == '刚');
        assert("这个目录"@.len() != "它"@.len());
        assert("这个目录"@.len() != "it"@.len());
        assert("这个目录"@[0] != "this"@[0]);
        assert("这个目录"@[0] != "that"@[0]);
        assert("这个目录"@[2] != "这个文件"@[2]);
        assert("这个目录"@.len() != "该文件"@.len());
        assert("这个目录"@.len() != "this file"@.len());
    }
    assert(pronoun_class("该目录"@) == 2) by {
        reveal_strlit("它");
        reveal_strlit("it");
        reveal_strlit("this");
        reveal_strlit("that");
        reveal_strlit("这个文件");
        reveal_strlit("该文件");
        reveal_strlit("this file");
        reveal_strlit("这个目录");
        reveal_strlit("该目录");
        reveal_strlit("this directory");
        reveal_strlit("上一个命令");
        reveal_strlit("刚才的命令");
        reveal_strlit("last command");
        assert("这个文件"@[0] == '这' && "这个目录"@[0] == '这' && "this"@[0] == 't' && "that"@[0] == 't');
        assert("这个文件"@[2] == '文' && "这个目录"@[2] == '目' && "this"@[2] == 'i' && "that"@[2] == 'a');
        assert("该文件"@[1] == '文' && "该目录"@[1] == '目' && "上一个命令"@[0] == '上' && "刚才的命令"@[0] == '刚');
        assert("该目录"@.len() != "它"@.len());
        assert("该目录"@.len() != "it"@.len());
        assert("该目录"@.len() != "this"@.len());
        assert("该目录"@.len() != "that"@.len());
        assert("该目录"@.len() != "这个文件"@.len());
        assert("该目录"@[1] != "该文件"@[1]);
        assert("该目录"@.len() != "this file"@.len());
        assert("该目录"@.len() != "这个目录"@.len());
    }
    assert(pronoun_class("this directory"@) == 2) by {
        reveal_strlit("它");
        reveal_strlit("it");
        reveal_strlit("this");
        reveal_strlit("that");
        reveal_strlit("这个文件");
        reveal_strlit("该文件");
        reveal_strlit("this file");
        reveal_strlit("这个目录");
        reveal_strlit("该目录");
        reveal_strlit("this directory");
        reveal_strlit("上一个命令");
        reveal_strlit("刚才的命令");
        reveal_strlit("last command");
        assert("这个文件"@[0] == '这' && "这个目录"@[0] == '这' && "this"@[0] == 't' && "that"@[0] == 't');
        assert("这个文件"@[2] == '文' && "这个目录"@[2] == '目' && "this"@[2] == 'i' && "that"@[2] == 'a');
        assert("该文件"@[1] == '文' && "该目录"@[1] == '目' && "上一个命令"@[0] == '上' && "刚才的命令"@[0] == '刚');
        assert("this directory"@.len() != "它"@.len());
        assert("this directory"@.len() != "it"@.len());
        assert("this directory"@.len() != "this"@.len());
        assert("this directory"@.len() != "that"@.len());
        assert("this directory"@.len() != "这个文件"@.len());
        assert("this directory"@.len() != "该文件"@.len());
        assert("this directory"@.len() != "this file"@.len());
        assert("this directory"@.len() != "这个目录"@.len());
        assert("this directory"@.len() != "该目录"@.len());
    }
    assert(pronoun_class("上一个命令"@) == 3) by {
        reveal_strlit("它");
        reveal_strlit("it");
        reveal_strlit("this");
        reveal_strlit("that");
        reveal_strlit("这个文件");
        reveal_strlit("该文件");
        reveal_strlit("this file");
        reveal_strlit("这个目录");
        reveal_strlit("该目录");
        reveal_strlit("this directory");
        reveal_strlit("上一个命令");
        reveal_strlit("刚才的命令");
        reveal_strlit("last command");
        assert("这个文件"@[0] == '这' && "这个目录"@[0] == '这' && "this"@[0] == 't' && "that"@[0] == 't');
        assert("这个文件"@[2] == '文' && "这个目录"@[2] == '目' && "this"@[2] == 'i' && "that"@[2] == 'a');
        assert("该文件"@[1] == '文' && "该目录"@[1] == '目' && "上一个命令"@[0] == '上' && "刚才的命令"@[0] == '刚');
        assert("上一个命令"@.len() != "它"@.len());
        assert("上一个命令"@.len() != "it"@.len());
        assert("上一个命令"@.len() != "this"@.len());
        assert("上一个命令"@.len() != "that"@.len());
        assert("上一个命令"@.len() != "这个文件"@.len());
        assert("上一个命令"@.len() != "该文件"@.len());
        assert("上一个命令"@.len() != "this file"@.len());
        assert("上一个命令"@.len() != "这个目录"@.len());
        assert("上一个命令"@.len() != "该目录"@.len());
        assert("上一个命令"@.len() != "this directory"@.len());
    }
    assert(pronoun_class("刚才的命令"@) == 3) by {
        reveal_strlit("它");
        reveal_strlit("it");
        reveal_strlit("this");
        reveal_strlit("that");
        reveal_strlit("这个文件");
        reveal_strlit("该文件");
        reveal_strlit("this file");
        reveal_strlit("这个目录");
        reveal_strlit("该目录");
        reveal_strlit("this directory");
        reveal_strlit("上一个命令");
        reveal_strlit("刚才的命令");
        reveal_strlit("last command");
        assert("这个文件"@[0] == '这' && "这个目录"@[0] == '这' && "this"@[0] == 't' && "that"@[0] == 't');
        assert("这个文件"@[2] == '文' && "这个目录"@[2] == '目' && "this"@[2] == 'i' && "that"@[2] == 'a');
        assert("该文件"@[1] == '文' && "该目录"@[1] == '目' && "上一个命令"@[0] == '上' && "刚才的命令"@[0] == '刚');
        assert("刚才的命令"@.len() != "它"@.len());
        assert("刚才的命令"@.len() != "it"@.len());
        assert("刚才的命令"@.len() != "this"@.len());
        assert("刚才的命令"@.len() != "that"@.len());
        assert("刚才的命令"@.len() != "这个文件"@.len());
        assert("刚才的命令"@.len() != "该文件"@.len());
        assert("刚才的命令"@.len() != "this file"@.len());
        assert("刚才的命令"@.len() != "这个目录"@.len());
        assert("刚才的命令"@.len() != "该目录"@.len());
        assert("刚才的命令"@.len() != "this directory"@.len());
        assert("刚才的命令"@[0] != "上一个命令"@[0]);
    }
    assert(pronoun_class("last command"@) == 3) by {
        reveal_strlit("它");
        reveal_strlit("it");
        reveal_strlit("this");
        reveal_strlit("that");
        reveal_strlit("这个文件");
        reveal_strlit("该文件");
        reveal_strlit("this file");
        reveal_strlit("这个目录");
        reveal_strlit("该目录");
        reveal_strlit("this directory");
        reveal_strlit("上一个命令");
        reveal_strlit("刚才的命令");
        reveal_strlit("last command");
        assert("这个文件"@[0] == '这' && "这个目录"@[0] == '这' && "this"@[0] == 't' && "that"@[0] == 't');
        assert("这个文件"@[2] == '文' && "这个目录"@[2] == '目' && "this"@[2] == 'i' && "that"@[2] == 'a');
        assert("该文件"@[1] == '文' && "该目录"@[1] == '目' && "上一个命令"@[0] == '上' && "刚才的命令"@[0] == '刚');
        assert("last command"@.len() != "它"@.len());
        assert("last command"@.len() != "it"@.len());
        assert("last command"@.len() != "this"@.len());
        assert("last command"@.len() != "that"@.len());
        assert("last command"@.len() != "这个文件"@.len());
        assert("last command"@.len() != "该文件"@.len());
        assert("last command"@.len() != "this file"@.len());
        assert("last command"@.len() != "这个目录"@.len());
        assert("last command"@.len() != "该目录"@.len());
        assert("last command"@.len() != "this directory"@.len());
        assert("last command"@.len() != "上一个命令"@.len());
        assert("last command"@.len() != "刚才的命令"@.len());
    }
}

/// Whether an entity type is of kind `which`: 0 a file, 1 a directory, 2 a
/// command.
spec fn of_kind(t: EntityType, which: int) -> bool {
    if which == 0 {
        t is File
    } else if which == 1 {
        t is Directory
    } else {
        t is Command
    }
}

/// The first entity of a kind, read by entity type.
proof fn lemma_first_kind_is(es: Seq<Entity>, kind: Seq<char>, which: int)
    requires
        0 <= which <= 2,
        kind == (if which == 0 { "文件"@ } else if which == 1 { "目录"@ } else { "命令"@ }),
    ensures
        first_of_kind(es, kind) matches Some(e) ==> of_kind(e.entity_type, which) && exists|i: int|
            0 <= i < es.len() && es[i] == e && forall|j: int|
                0 <= j < i ==> !of_kind(#[trigger] es[j].entity_type, which),
        first_of_kind(es, kind) is None <==> forall|i: int|
            0 <= i < es.len() ==> !of_kind(#[trigger] es[i].entity_type, which),
{
    lemma_first_of_kind(es, kind);
    assert forall|t: EntityType| (kind_name(t) == kind) == #[trigger] of_kind(t, which) by {
        lemma_kind_names(t);
    }
    if first_of_kind(es, kind) is Some {
        let e = first_of_kind(es, kind)->0;
        let i = choose|i: int| 0 <= i < es.len() && es[i] == e && kind_name(e.entity_type) == kind && forall|j: int|
            0 <= j < i ==> kind_name(#[trigger] es[j].entity_type) != kind;
        assert(of_kind(es[i].entity_type, which));
        assert(!(forall|k: int| 0 <= k < es.len() ==> !of_kind(#[trigger] es[k].entity_type, which)));
    }
}

} // verus!
