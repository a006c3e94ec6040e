//! Internationalisation: supported languages, translation tables with a
//! fallback language, and placeholder substitution.
//!
//! A table is a list of key/value pairs; a later pair overrides an earlier one
//! with the same key, so loading several sources in order is concatenation.
//! Reading locale files and the process-wide instance belong to the application.

use vstd::prelude::*;
use crate::text::{
    chars_of, string_of, chars_equal, to_lowercase, lowercase, replace_chars, replace_all,
    extend_chars, has_infix, occurs_at,
};

verus! {

// ---------------------------------------------------------------------------
// Languages
// ---------------------------------------------------------------------------

/// Supported languages.
#[derive(Debug, Clone, Copy, PartialEq, Eq, Hash, Structural)]
pub enum Language {
    /// Simplified Chinese (China), the default.
    ZhCn,
    /// US English.
    EnUs,
}

impl Default for Language {
    fn default() -> (r: Language)
        ensures
            r == Language::ZhCn,
    {
        Language::ZhCn
    }
}

/// The language a lowercased name stands for.
pub open spec fn language_named(s: Seq<char>) -> Option<Language> {
    if s == "zh-cn"@ || s == "zh"@ || s == "chinese"@ || s == "中文"@ || s == "简体中文"@ {
        Some(Language::ZhCn)
    } else if s == "en-us"@ || s == "en"@ || s == "english"@ || s == "英文"@ {
        Some(Language::EnUs)
    } else {
        None
    }
}

/// The standard code of a language.
pub open spec fn language_code(l: Language) -> Seq<char> {
    match l {
        Language::ZhCn => "zh-CN"@,
        Language::EnUs => "en-US"@,
    }
}

fn is_one_of(s: &[char], names: &Vec<&str>) -> (r: bool)
    ensures
        r == exists|i: int| 0 <= i < names@.len() && s@ == names@[i]@,
{
    let mut i: usize = 0;
    while i < names.len()
        invariant
            i <= names.len(),
            forall|k: int| 0 <= k < i ==> s@ != #[trigger] names@[k]@,
        decreases names.len() - i,
    {
        if chars_equal(s, chars_of(names[i]).as_slice()) {
            return true;
        }
        i = i + 1;
    }
    false
}

impl Language {
    /// Reads a language name, ignoring case: `zh-CN`, `zh`, `chinese`, `中文` or
    /// `简体中文` for Chinese, `en-US`, `en`, `english` or `英文` for English.
    /// Any other name is refused with "Unknown language: " and the name.
    pub fn parse(s: &str) -> (r: Result<Language, String>)
        ensures
            language_named(lowercase(s@)) matches Some(l) ==> r == Ok::<Language, String>(l),
            language_named(lowercase(s@)) is None ==> (r matches Err(e) && e@
                == "Unknown language: "@ + s@),
    {
        let lower = to_lowercase(s);
        let lc = chars_of(lower.as_str());
        let zh: Vec<&str> = vec!["zh-cn", "zh", "chinese", "中文", "简体中文"];
        let en: Vec<&str> = vec!["en-us", "en", "english", "英文"];
        let is_zh = is_one_of(lc.as_slice(), &zh);
        proof {
            let n = lc@;
            if n == "zh-cn"@ { assert(n == zh@[0]@); }
            if n == "zh"@ { assert(n == zh@[1]@); }
            if n == "chinese"@ { assert(n == zh@[2]@); }
            if n == "中文"@ { assert(n == zh@[3]@); }
            if n == "简体中文"@ { assert(n == zh@[4]@); }
        }
        if is_zh {
            return Ok(Language::ZhCn);
        }
        let is_en = is_one_of(lc.as_slice(), &en);
        proof {
            let n = lc@;
            if n == "en-us"@ { assert(n == en@[0]@); }
            if n == "en"@ { assert(n == en@[1]@); }
            if n == "english"@ { assert(n == en@[2]@); }
            if n == "英文"@ { assert(n == en@[3]@); }
        }
        if is_en {
            return Ok(Language::EnUs);
        }
        let mut msg = chars_of("Unknown language: ");
        extend_chars(&mut msg, chars_of(s).as_slice());
        Err(string_of(msg.as_slice()))
    }

    /// The standard code of the language.
    pub fn code(&self) -> (r: &'static str)
        ensures
            r@ == language_code(*self),
    {
        match self {
            Language::ZhCn => "zh-CN",
            Language::EnUs => "en-US",
        }
    }

    /// The name of the language in itself.
    pub fn native_name(&self) -> (r: &'static str)
        ensures
            *self == Language::ZhCn ==> r@ == "简体中文"@,
            *self == Language::EnUs ==> r@ == "English"@,
    {
        match self {
            Language::ZhCn => "简体中文",
            Language::EnUs => "English",
        }
    }

    /// The language that a `LANG` value selects: Chinese for values starting
    /// with `zh`, English for values starting with `en`, Chinese otherwise.
    pub fn from_lang_value(value: Option<&str>) -> (r: Language)
        ensures
            value matches Some(v) && crate::text::has_prefix(v@, "en"@) && !crate::text::has_prefix(
                v@,
                "zh"@,
            ) ==> r == Language::EnUs,
            !(value matches Some(v) && crate::text::has_prefix(v@, "en"@)
                && !crate::text::has_prefix(v@, "zh"@)) ==> r == Language::ZhCn,
    {
        match value {
            Some(v) => {
                let cs = chars_of(v);
                if crate::text::starts_with(cs.as_slice(), chars_of("zh").as_slice()) {
                    Language::ZhCn
                } else if crate::text::starts_with(cs.as_slice(), chars_of("en").as_slice()) {
                    Language::EnUs
                } else {
                    Language::ZhCn
                }
            },
            None => Language::ZhCn,
        }
    }
}

impl std::str::FromStr for Language {
    type Err = String;

    /// Reads a language name as `Language::parse` does.
    fn from_str(s: &str) -> (r: Result<Language, String>)
        ensures
            language_named(lowercase(s@)) matches Some(l) ==> r == Ok::<Language, String>(l),
            language_named(lowercase(s@)) is None ==> (r matches Err(e) && e@
                == "Unknown language: "@ + s@),
    {
        Language::parse(s)
    }
}

// ---------------------------------------------------------------------------
// Tables
// ---------------------------------------------------------------------------

/// The key/value views of a table.
pub open spec fn dict_view(d: Seq<(String, String)>) -> Seq<(Seq<char>, Seq<char>)> {
    d.map_values(|p: (String, String)| (p.0@, p.1@))
}

/// The value of the last pair with key `k`.
pub open spec fn dict_lookup(d: Seq<(Seq<char>, Seq<char>)>, k: Seq<char>) -> Option<Seq<char>>
    decreases d.len(),
{
    if d.len() == 0 {
        None
    } else if d.last().0 == k {
        Some(d.last().1)
    } else {
        dict_lookup(d.drop_last(), k)
    }
}

/// The value of `k` in an optional table.
pub open spec fn table_lookup(t: Option<Seq<(Seq<char>, Seq<char>)>>, k: Seq<char>) -> Option<
    Seq<char>,
> {
    match t {
        Some(d) => dict_lookup(d, k),
        None => None,
    }
}

/// The translation of `k`: from the current language's table, else (when the
/// current language is not the fallback) from the fallback's table, else `k` itself.
pub open spec fn translate(
    current: Option<Seq<(Seq<char>, Seq<char>)>>,
    fallback: Option<Seq<(Seq<char>, Seq<char>)>>,
    current_is_fallback: bool,
    k: Seq<char>,
) -> Seq<char> {
    match table_lookup(current, k) {
        Some(v) => v,
        None => if !current_is_fallback {
            match table_lookup(fallback, k) {
                Some(v) => v,
                None => k,
            }
        } else {
            k
        },
    }
}

/// The table made by loading several sources in order.
pub open spec fn concat_tables(srcs: Seq<Vec<(String, String)>>) -> Seq<(Seq<char>, Seq<char>)>
    decreases srcs.len(),
{
    if srcs.len() == 0 {
        seq![]
    } else {
        concat_tables(srcs.drop_last()) + dict_view(srcs.last()@)
    }
}

/// The built-in table of a language.
pub open spec fn builtin_table(l: Language) -> Seq<(Seq<char>, Seq<char>)> {
    match l {
        Language::ZhCn => builtin_zh_cn(),
        Language::EnUs => builtin_en_us(),
    }
}

/// Each placeholder `{name}` replaced by its value, one argument after the other.
pub open spec fn apply_args(s: Seq<char>, args: Seq<(Seq<char>, Seq<char>)>) -> Seq<char>
    decreases args.len(),
{
    if args.len() == 0 {
        s
    } else {
        replace_all(apply_args(s, args.drop_last()), "{"@ + args.last().0 + "}"@, args.last().1)
    }
}

/// The views of placeholder arguments.
pub open spec fn args_view(args: Seq<(&str, &str)>) -> Seq<(Seq<char>, Seq<char>)> {
    args.map_values(|p: (&str, &str)| (p.0@, p.1@))
}

fn entry(k: &str, v: &str) -> (r: (String, String))
    ensures
        r.0@ == k@,
        r.1@ == v@,
{
    (string_of(chars_of(k).as_slice()), string_of(chars_of(v).as_slice()))
}

/// The position of the last pair with key `key`.
fn find_last(d: &Vec<(String, String)>, key: &[char]) -> (r: Option<usize>)
    ensures
        r matches Some(i) ==> i < d@.len() && dict_lookup(dict_view(d@), key@) == Some(
            d@[i as int].1@,
        ),
        r is None ==> dict_lookup(dict_view(d@), key@) is None,
{
    let ghost dv = dict_view(d@);
    let mut i: usize = d.len();
    assert(dv.take(i as int) =~= dv);
    while i > 0
        invariant
            i <= d@.len(),
            dv == dict_view(d@),
            dict_lookup(dv.take(i as int), key@) == dict_lookup(dv, key@),
        decreases i,
    {
        let k = chars_of(d[i - 1].0.as_str());
        proof {
            assert(dv.take(i as int).drop_last() =~= dv.take(i - 1));
            assert(dv.take(i as int).last() == dv[i - 1]);
        }
        if chars_equal(k.as_slice(), key) {
            return Some(i - 1);
        }
        i = i - 1;
    }
    proof {
        lemma_empty_lookup(dv, key@);
    }
    None
}

proof fn lemma_empty_lookup(dv: Seq<(Seq<char>, Seq<char>)>, k: Seq<char>)
    ensures
        dict_lookup(dv.take(0), k) is None,
{
    assert(dv.take(0).len() == 0);
}

/// The built-in Simplified Chinese translations, in insertion order.
pub open spec fn builtin_zh_cn() -> Seq<(Seq<char>, Seq<char>)> {
    seq![
        ("welcome.version"@, "RealConsole v{version}"@),
        ("welcome.hint"@, "直接输入问题或"@),
        ("welcome.help"@, "/help"@),
        ("welcome.exit"@, "Ctrl-D 退出"@),
        ("command.interrupted"@, "^C"@),
        ("command.bye"@, "Bye 👋"@),
        ("command.error"@, "错误:"@),
        ("config.wizard_title"@, "=== RealConsole 配置向导 ==="@),
        ("config.mode_quick"@, "模式: 快速配置（使用推荐默认值）"@),
        ("config.mode_complete"@, "模式: 完整配置（可自定义所有选项）"@),
        ("config.save_failed"@, "✗ 保存配置失败:"@),
        ("config.wizard_failed"@, "✗ 配置向导失败:"@),
        ("config.not_found"@, "配置文件不存在:"@),
        ("config.run_wizard"@, "请运行 'realconsole wizard' 创建配置"@),
        ("config.file_label"@, "配置文件:"@),
        ("config.read_failed"@, "读取配置文件失败:"@),
        ("first_run.welcome"@, "欢迎使用 RealConsole！"@),
        ("first_run.no_config"@, "未检测到配置文件，首次使用需要进行配置。"@),
        ("first_run.choose_one"@, "请选择以下方式之一："@),
        ("first_run.option1"@, "运行配置向导（推荐）"@),
        ("first_run.option2"@, "快速配置模式"@),
        ("first_run.option3"@, "手动创建 realconsole.yaml 和 .env"@),
        ("first_run.hint"@, "提示: 向导将帮助你在 2 分钟内完成配置"@),
        ("llm.init_failed"@, "⚠ {type} LLM 初始化失败:"@),
        ("llm.client_failed"@, "{provider} 客户端创建失败:"@),
        ("llm.unknown_provider"@, "未知的 LLM provider:"@),
        ("llm.need_api_key"@, "{provider} 需要 api_key"@),
        ("error.env_load_failed"@, "⚠ .env 加载失败:"@),
        ("error.repl_error"@, "REPL 错误:"@),
        ("error.use_default_config"@, "使用默认配置继续运行..."@),
    ]
}

/// The built-in US English translations, in insertion order.
pub open spec fn builtin_en_us() -> Seq<(Seq<char>, Seq<char>)> {
    seq![
        ("welcome.version"@, "RealConsole v{version}"@),
        ("welcome.hint"@, "Enter your question or"@),
        ("welcome.help"@, "/help"@),
        ("welcome.exit"@, "Press Ctrl-D to exit"@),
        ("command.interrupted"@, "^C"@),
        ("command.bye"@, "Bye 👋"@),
        ("command.error"@, "Error:"@),
        ("config.wizard_title"@, "=== RealConsole Configuration Wizard ==="@),
        ("config.mode_quick"@, "Mode: Quick setup (using recommended defaults)"@),
        ("config.mode_complete"@, "Mode: Complete setup (customize all options)"@),
        ("config.save_failed"@, "✗ Failed to save configuration:"@),
        ("config.wizard_failed"@, "✗ Configuration wizard failed:"@),
        ("config.not_found"@, "Configuration file not found:"@),
        ("config.run_wizard"@, "Please run 'realconsole wizard' to create configuration"@),
        ("config.file_label"@, "Configuration file:"@),
        ("config.read_failed"@, "Failed to read configuration file:"@),
        ("first_run.welcome"@, "Welcome to RealConsole!"@),
        ("first_run.no_config"@, "No configuration file detected. Initial setup required."@),
        ("first_run.choose_one"@, "Please choose one of the following:"@),
        ("first_run.option1"@, "Run configuration wizard (recommended)"@),
        ("first_run.option2"@, "Quick configuration mode"@),
        ("first_run.option3"@, "Manually create realconsole.yaml and .env"@),
        ("first_run.hint"@, "Tip: The wizard will help you complete setup in 2 minutes"@),
        ("llm.init_failed"@, "⚠ {type} LLM initialization failed:"@),
        ("llm.client_failed"@, "{provider} client creation failed:"@),
        ("llm.unknown_provider"@, "Unknown LLM provider:"@),
        ("llm.need_api_key"@, "{provider} requires api_key"@),
        ("error.env_load_failed"@, "⚠ Failed to load .env:"@),
        ("error.repl_error"@, "REPL error:"@),
        ("error.use_default_config"@, "Continuing with default configuration..."@),
    ]
}

/// The built-in Simplified Chinese translations (the fallback when no locale file is loaded).
fn builtin_translations_zh_cn() -> (r: Vec<(String, String)>)
    ensures
        dict_view(r@) == builtin_zh_cn(),
{
    let mut r: Vec<(String, String)> = Vec::new();
    r.push(entry("welcome.version", "RealConsole v{version}"));
    r.push(entry("welcome.hint", "直接输入问题或"));
    r.push(entry("welcome.help", "/help"));
    r.push(entry("welcome.exit", "Ctrl-D 退出"));
    r.push(entry("command.interrupted", "^C"));
    r.push(entry("command.bye", "Bye 👋"));
    r.push(entry("command.error", "错误:"));
    r.push(entry("config.wizard_title", "=== RealConsole 配置向导 ==="));
    r.push(entry("config.mode_quick", "模式: 快速配置（使用推荐默认值）"));
    r.push(entry("config.mode_complete", "模式: 完整配置（可自定义所有选项）"));
    r.push(entry("config.save_failed", "✗ 保存配置失败:"));
    r.push(entry("config.wizard_failed", "✗ 配置向导失败:"));
    r.push(entry("config.not_found", "配置文件不存在:"));
    r.push(entry("config.run_wizard", "请运行 'realconsole wizard' 创建配置"));
    r.push(entry("config.file_label", "配置文件:"));
    r.push(entry("config.read_failed", "读取配置文件失败:"));
    r.push(entry("first_run.welcome", "欢迎使用 RealConsole！"));
    r.push(entry("first_run.no_config", "未检测到配置文件，首次使用需要进行配置。"));
    r.push(entry("first_run.choose_one", "请选择以下方式之一："));
    r.push(entry("first_run.option1", "运行配置向导（推荐）"));
    r.push(entry("first_run.option2", "快速配置模式"));
    r.push(entry("first_run.option3", "手动创建 realconsole.yaml 和 .env"));
    r.push(entry("first_run.hint", "提示: 向导将帮助你在 2 分钟内完成配置"));
    r.push(entry("llm.init_failed", "⚠ {type} LLM 初始化失败:"));
    r.push(entry("llm.client_failed", "{provider} 客户端创建失败:"));
    r.push(entry("llm.unknown_provider", "未知的 LLM provider:"));
    r.push(entry("llm.need_api_key", "{provider} 需要 api_key"));
    r.push(entry("error.env_load_failed", "⚠ .env 加载失败:"));
    r.push(entry("error.repl_error", "REPL 错误:"));
    r.push(entry("error.use_default_config", "使用默认配置继续运行..."));
    assert(dict_view(r@) =~= builtin_zh_cn());
    r
}

/// The built-in US English translations (the fallback when no locale file is loaded).
fn builtin_translations_en_us() -> (r: Vec<(String, String)>)
    ensures
        dict_view(r@) == builtin_en_us(),
{
    let mut r: Vec<(String, String)> = Vec::new();
    r.push(entry("welcome.version", "RealConsole v{version}"));
    r.push(entry("welcome.hint", "Enter your question or"));
    r.push(entry("welcome.help", "/help"));
    r.push(entry("welcome.exit", "Press Ctrl-D to exit"));
    r.push(entry("command.interrupted", "^C"));
    r.push(entry("command.bye", "Bye 👋"));
    r.push(entry("command.error", "Error:"));
    r.push(entry("config.wizard_title", "=== RealConsole Configuration Wizard ==="));
    r.push(entry("config.mode_quick", "Mode: Quick setup (using recommended defaults)"));
    r.push(entry("config.mode_complete", "Mode: Complete setup (customize all options)"));
    r.push(entry("config.save_failed", "✗ Failed to save configuration:"));
    r.push(entry("config.wizard_failed", "✗ Configuration wizard failed:"));
    r.push(entry("config.not_found", "Configuration file not found:"));
    r.push(entry("config.run_wizard", "Please run 'realconsole wizard' to create configuration"));
    r.push(entry("config.file_label", "Configuration file:"));
    r.push(entry("config.read_failed", "Failed to read configuration file:"));
    r.push(entry("first_run.welcome", "Welcome to RealConsole!"));
    r.push(entry("first_run.no_config", "No configuration file detected. Initial setup required."));
    r.push(entry("first_run.choose_one", "Please choose one of the following:"));
    r.push(entry("first_run.option1", "Run configuration wizard (recommended)"));
    r.push(entry("first_run.option2", "Quick configuration mode"));
    r.push(entry("first_run.option3", "Manually create realconsole.yaml and .env"));
    r.push(entry("first_run.hint", "Tip: The wizard will help you complete setup in 2 minutes"));
    r.push(entry("llm.init_failed", "⚠ {type} LLM initialization failed:"));
    r.push(entry("llm.client_failed", "{provider} client creation failed:"));
    r.push(entry("llm.unknown_provider", "Unknown LLM provider:"));
    r.push(entry("llm.need_api_key", "{provider} requires api_key"));
    r.push(entry("error.env_load_failed", "⚠ Failed to load .env:"));
    r.push(entry("error.repl_error", "REPL error:"));
    r.push(entry("error.use_default_config", "Continuing with default configuration..."));
    assert(dict_view(r@) =~= builtin_en_us());
    r
}

// ---------------------------------------------------------------------------
// The translator
// ---------------------------------------------------------------------------

/// Translator: a current language, a fallback language and one table per language.
#[derive(Debug)]
pub struct I18n {
    current_lang: Language,
    zh_cn: Vec<(String, String)>,
    en_us: Vec<(String, String)>,
    fallback_lang: Language,
}

impl I18n {
    /// The table of a language.
    pub closed spec fn table(&self, l: Language) -> Seq<(Seq<char>, Seq<char>)> {
        match l {
            Language::ZhCn => dict_view(self.zh_cn@),
            Language::EnUs => dict_view(self.en_us@),
        }
    }

    /// The current language.
    pub closed spec fn current(&self) -> Language {
        self.current_lang
    }

    /// The fallback language.
    pub closed spec fn fallback(&self) -> Language {
        self.fallback_lang
    }

    fn table_of(&self, l: Language) -> (r: &Vec<(String, String)>)
        ensures
            dict_view(r@) == self.table(l),
    {
        match l {
            Language::ZhCn => &self.zh_cn,
            Language::EnUs => &self.en_us,
        }
    }

    /// A translator for `lang` with the built-in tables; Chinese is the fallback.
    pub fn new(lang: Language) -> (r: I18n)
        ensures
            r.current() == lang,
            r.fallback() == Language::ZhCn,
            r.table(Language::ZhCn) == builtin_zh_cn(),
            r.table(Language::EnUs) == builtin_en_us(),
    {
        I18n {
            current_lang: lang,
            zh_cn: builtin_translations_zh_cn(),
            en_us: builtin_translations_en_us(),
            fallback_lang: Language::ZhCn,
        }
    }

    /// Installs the built-in table of `lang`.
    pub fn load_builtin_translations(&mut self, lang: Language)
        ensures
            final(self).table(lang) == builtin_table(lang),
            forall|l: Language| l != lang ==> final(self).table(l) == old(self).table(l),
            final(self).current() == old(self).current(),
            final(self).fallback() == old(self).fallback(),
    {
        match lang {
            Language::ZhCn => {
                self.zh_cn = builtin_translations_zh_cn();
            },
            Language::EnUs => {
                self.en_us = builtin_translations_en_us();
            },
        }
    }

    /// Installs the table of `lang` from the sources that loaded (base, CLI and
    /// prompt files, in that order; later keys override earlier ones). With no
    /// source the built-in table is used.
    pub fn install_language(&mut self, lang: Language, sources: Vec<Vec<(String, String)>>)
        ensures
            sources@.len() == 0 ==> final(self).table(lang) == builtin_table(lang),
            sources@.len() > 0 ==> final(self).table(lang) == concat_tables(sources@),
            forall|l: Language| l != lang ==> final(self).table(l) == old(self).table(l),
            final(self).current() == old(self).current(),
            final(self).fallback() == old(self).fallback(),
    {
        if sources.len() == 0 {
            self.load_builtin_translations(lang);
        } else {
            let table: Vec<(String, String)>;
            let mut acc: Vec<(String, String)> = Vec::new();
            let mut i: usize = 0;
            while i < sources.len()
                invariant
                    i <= sources@.len(),
                    dict_view(acc@) == concat_tables(sources@.take(i as int)),
                decreases sources@.len() - i,
            {
                let src = &sources[i];
                let ghost before = acc@;
                let mut j: usize = 0;
                while j < src.len()
                    invariant
                        j <= src@.len(),
                        acc@ == before + src@.take(j as int),
                    decreases src@.len() - j,
                {
                    let (k, v) = &src[j];
                    acc.push((k.clone(), v.clone()));
                    assert(acc@ =~= before + src@.take(j + 1));
                    j = j + 1;
                }
                proof {
                    assert(src@.take(src@.len() as int) =~= src@);
                    assert(sources@.take(i + 1).drop_last() =~= sources@.take(i as int));
                    assert(dict_view(before + src@) =~= dict_view(before) + dict_view(src@));
                }
                i = i + 1;
            }
            assert(sources@.take(sources@.len() as int) =~= sources@);
            table = acc;
            match lang {
                Language::ZhCn => {
                    self.zh_cn = table;
                },
                Language::EnUs => {
                    self.en_us = table;
                },
            }
        }
    }

    /// The translation of `key` (see `translate`).
    pub fn t(&self, key: &str) -> (r: String)
        ensures
            r@ == translate(
                Some(self.table(self.current())),
                Some(self.table(self.fallback())),
                self.current() == self.fallback(),
                key@,
            ),
    {
        let k = chars_of(key);
        let cur = self.table_of(self.current_lang);
        match find_last(cur, k.as_slice()) {
            Some(i) => {
                return cur[i].1.clone();
            },
            None => {},
        }
        if self.current_lang != self.fallback_lang {
            let fb = self.table_of(self.fallback_lang);
            match find_last(fb, k.as_slice()) {
                Some(i) => {
                    return fb[i].1.clone();
                },
                None => {},
            }
        }
        string_of(k.as_slice())
    }

    /// The translation of `key` with each placeholder `{name}` replaced by the
    /// value given for `name`, arguments applied in order.
    pub fn t_with_args(&self, key: &str, args: &[(&str, &str)]) -> (r: String)
        ensures
            r@ == apply_args(
                translate(
                    Some(self.table(self.current())),
                    Some(self.table(self.fallback())),
                    self.current() == self.fallback(),
                    key@,
                ),
                args_view(args@),
            ),
    {
        let base = self.t(key);
        let mut result = chars_of(base.as_str());
        let ghost av = args_view(args@);
        let mut i: usize = 0;
        while i < args.len()
            invariant
                i <= args@.len(),
                av == args_view(args@),
                result@ == apply_args(base@, av.take(i as int)),
            decreases args@.len() - i,
        {
            let (name, value) = args[i];
            let mut pat = chars_of("{");
            extend_chars(&mut pat, chars_of(name).as_slice());
            extend_chars(&mut pat, chars_of("}").as_slice());
            proof {
                reveal_strlit("{");
                assert(pat@.len() > 0);
                assert(av.take(i + 1).drop_last() =~= av.take(i as int));
                assert(av.take(i + 1).last() == (name@, value@));
            }
            result = replace_chars(result.as_slice(), pat.as_slice(), chars_of(value).as_slice());
            i = i + 1;
        }
        assert(av.take(args@.len() as int) =~= av);
        string_of(result.as_slice())
    }

    /// Switches the current language.
    pub fn set_language(&mut self, lang: Language)
        ensures
            final(self).current() == lang,
            final(self).fallback() == old(self).fallback(),
            forall|l: Language| final(self).table(l) == old(self).table(l),
    {
        self.current_lang = lang;
    }

    /// The current language.
    pub fn current_language(&self) -> (r: Language)
        ensures
            r == self.current(),
    {
        self.current_lang
    }
}

/// A key present in the current language's table translates to its value
/// there; an absent key falls back to the fallback language and then to the key.
pub proof fn law_translation_fallback(
    cur: Seq<(Seq<char>, Seq<char>)>,
    fb: Seq<(Seq<char>, Seq<char>)>,
    same: bool,
    k: Seq<char>,
)
    ensures
        dict_lookup(cur, k) matches Some(v) ==> translate(Some(cur), Some(fb), same, k) == v,
        dict_lookup(cur, k) is None && !same && (dict_lookup(fb, k) matches Some(v)) ==> translate(
            Some(cur),
            Some(fb),
            same,
            k,
        ) == dict_lookup(fb, k)->0,
        dict_lookup(cur, k) is None && (same || dict_lookup(fb, k) is None) ==> translate(
            Some(cur),
            Some(fb),
            same,
            k,
        ) == k,
{
}

/// A later source overrides an earlier one: looking a key up in the
/// concatenation of two tables gives the second table's value when it has the
/// key, and the first table's otherwise.
pub proof fn law_later_source_overrides(
    a: Seq<(Seq<char>, Seq<char>)>,
    b: Seq<(Seq<char>, Seq<char>)>,
    k: Seq<char>,
)
    ensures
        dict_lookup(a + b, k) == (match dict_lookup(b, k) {
            Some(v) => Some(v),
            None => dict_lookup(a, k),
        }),
    decreases b.len(),
{
    if b.len() > 0 {
        assert((a + b).drop_last() =~= a + b.drop_last());
        assert((a + b).last() == b.last());
        law_later_source_overrides(a, b.drop_last(), k);
    } else {
        assert(a + b =~= a);
    }
}


// ---------------------------------------------------------------------------
// Locale files
// ---------------------------------------------------------------------------

/// What serde_yaml_ng reads from a locale file's text when it is parsed as a
/// map from strings to strings; `None` where the text is not such a map.
pub uninterp spec fn yaml_string_map(text: Seq<char>) -> Option<Map<Seq<char>, Seq<char>>>;

/// A table holds exactly the pairs of a map: each key once, with the map's
/// value, and every key of the map.
pub open spec fn table_of_map(t: Seq<(Seq<char>, Seq<char>)>, m: Map<Seq<char>, Seq<char>>) -> bool {
    &&& forall|i: int, j: int| 0 <= i < j < t.len() ==> #[trigger] t[i].0 != #[trigger] t[j].0
    &&& forall|i: int| 0 <= i < t.len() ==> m.contains_key(#[trigger] t[i].0) && m[t[i].0] == t[i].1
    &&& forall|k: Seq<char>| #[trigger] m.contains_key(k) ==> exists|i: int| 0 <= i < t.len() && #[trigger] t[i].0 == k
}

/// Calls serde_yaml_ng to read a text as a map from strings to strings, and
/// hands its pairs out. The map's iteration order is not fixed, so only the
/// pairs are stated, not their order.
#[verifier::external_body]
fn parse_string_map(text: &str) -> (r: Option<Vec<(String, String)>>)
    ensures
        r is Some <==> yaml_string_map(text@) is Some,
        r is Some ==> table_of_map(dict_view(r->0@), yaml_string_map(text@)->0),
{
    serde_yaml_ng::from_str::<std::collections::HashMap<String, String>>(text).ok().map(
        |m| m.into_iter().collect(),
    )
}

/// The text of an optional file.
pub open spec fn text_view(t: Option<&str>) -> Option<Seq<char>> {
    match t {
        Some(s) => Some(s@),
        None => None,
    }
}

/// The map read from an optional file: one map where the file is there and
/// parses, none otherwise.
pub open spec fn parsed_map(t: Option<Seq<char>>) -> Seq<Map<Seq<char>, Seq<char>>> {
    match t {
        Some(s) => match yaml_string_map(s) {
            Some(m) => seq![m],
            None => seq![],
        },
        None => seq![],
    }
}

/// The maps read from a language's base, CLI and prompt files, in that order.
pub open spec fn parsed_maps(
    base: Option<Seq<char>>,
    cli: Option<Seq<char>>,
    prompts: Option<Seq<char>>,
) -> Seq<Map<Seq<char>, Seq<char>>> {
    parsed_map(base) + parsed_map(cli) + parsed_map(prompts)
}

/// The value of `k` in the last map that has it.
pub open spec fn merged_lookup(maps: Seq<Map<Seq<char>, Seq<char>>>, k: Seq<char>) -> Option<Seq<char>>
    decreases maps.len(),
{
    if maps.len() == 0 {
        None
    } else if maps.last().contains_key(k) {
        Some(maps.last()[k])
    } else {
        merged_lookup(maps.drop_last(), k)
    }
}

/// The pairs of a locale file's text, `None` where it is not a map of strings.
pub fn parse_locale_table(text: &str) -> (r: Option<Vec<(String, String)>>)
    ensures
        r is Some <==> yaml_string_map(text@) is Some,
        r is Some ==> table_of_map(dict_view(r->0@), yaml_string_map(text@)->0),
{
    parse_string_map(text)
}

/// The tables of a language's base, CLI and prompt files, in that order: one
/// for each file that is there and parses.
pub fn locale_sources(base: Option<&str>, cli: Option<&str>, prompts: Option<&str>) -> (r: Vec<
    Vec<(String, String)>,
>)
    ensures
        r@.len() == parsed_maps(text_view(base), text_view(cli), text_view(prompts)).len(),
        forall|i: int|
            0 <= i < r@.len() ==> table_of_map(
                dict_view(#[trigger] r@[i]@),
                parsed_maps(text_view(base), text_view(cli), text_view(prompts))[i],
            ),
{
    let ghost maps = parsed_maps(text_view(base), text_view(cli), text_view(prompts));
    let mut out: Vec<Vec<(String, String)>> = Vec::new();
    let texts = [base, cli, prompts];
    let ghost parts = seq![parsed_map(text_view(base)), parsed_map(text_view(cli)), parsed_map(text_view(prompts))];
    let mut i: usize = 0;
    while i < 3
        invariant
            i <= 3,
            texts@ == seq![base, cli, prompts],
            parts == seq![parsed_map(text_view(base)), parsed_map(text_view(cli)), parsed_map(text_view(prompts))],
            out@.len() == (if i == 0 { 0 } else if i == 1 { parts[0].len() } else if i == 2 {
                parts[0].len() + parts[1].len()
            } else {
                parts[0].len() + parts[1].len() + parts[2].len()
            }),
            forall|j: int|
                0 <= j < out@.len() ==> table_of_map(
                    dict_view(#[trigger] out@[j]@),
                    (parts[0] + parts[1] + parts[2])[j],
                ),
        decreases 3 - i,
    {
        if let Some(t) = texts[i] {
            match parse_string_map(t) {
                Some(table) => {
                    out.push(table);
                },
                None => {},
            }
        }
        i = i + 1;
    }
    assert(maps =~= parts[0] + parts[1] + parts[2]);
    out
}

/// Looking a key up in tables that hold exactly the pairs of their maps gives
/// the value from the last map that has the key.
pub proof fn law_merged_tables(
    srcs: Seq<Vec<(String, String)>>,
    maps: Seq<Map<Seq<char>, Seq<char>>>,
    k: Seq<char>,
)
    requires
        srcs.len() == maps.len(),
        forall|i: int| 0 <= i < srcs.len() ==> table_of_map(dict_view(#[trigger] srcs[i]@), maps[i]),
    ensures
        dict_lookup(concat_tables(srcs), k) == merged_lookup(maps, k),
    decreases srcs.len(),
{
    if srcs.len() > 0 {
        let n = srcs.len() - 1;
        law_merged_tables(srcs.drop_last(), maps.drop_last(), k);
        law_later_source_overrides(concat_tables(srcs.drop_last()), dict_view(srcs.last()@), k);
        assert(table_of_map(dict_view(srcs[n]@), maps[n]));
        lemma_lookup_of_map(dict_view(srcs.last()@), maps.last(), k);
    }
}

/// In a table that holds exactly the pairs of a map, a key's value is the map's.
proof fn lemma_lookup_of_map(t: Seq<(Seq<char>, Seq<char>)>, m: Map<Seq<char>, Seq<char>>, k: Seq<char>)
    requires
        table_of_map(t, m),
    ensures
        dict_lookup(t, k) == (if m.contains_key(k) { Some(m[k]) } else { None }),
{
    lemma_lookup_found(t, k);
    if m.contains_key(k) {
        let i = choose|i: int| 0 <= i < t.len() && #[trigger] t[i].0 == k;
        assert(t[i].0 == k);
    }
}

/// A lookup finds a pair with the key exactly when the table has one.
proof fn lemma_lookup_found(t: Seq<(Seq<char>, Seq<char>)>, k: Seq<char>)
    ensures
        (exists|i: int| 0 <= i < t.len() && #[trigger] t[i].0 == k) ==> dict_lookup(t, k) is Some,
        dict_lookup(t, k) matches Some(v) ==> exists|i: int|
            0 <= i < t.len() && #[trigger] t[i].0 == k && t[i].1 == v,
    decreases t.len(),
{
    if t.len() > 0 {
        lemma_lookup_found(t.drop_last(), k);
        if exists|i: int| 0 <= i < t.len() && #[trigger] t[i].0 == k {
            let i = choose|i: int| 0 <= i < t.len() && #[trigger] t[i].0 == k;
            if i < t.len() - 1 {
                assert(t.drop_last()[i].0 == k);
            }
        }
        if dict_lookup(t, k) is Some && t.last().0 != k {
            let v = dict_lookup(t, k)->0;
            let j = choose|j: int| 0 <= j < t.drop_last().len() && #[trigger] t.drop_last()[j].0 == k && t.drop_last()[j].1 == v;
            assert(t[j].0 == k);
        }
    }
}

impl I18n {
    /// Loads a language from the texts of its base, CLI and prompt files
    /// (`None` for a file that is not there): the pairs of the files that
    /// parse make its table, a later file overriding an earlier one; with no
    /// such file the built-in table is used.
    pub fn load_language(
        &mut self,
        lang: Language,
        base: Option<&str>,
        cli: Option<&str>,
        prompts: Option<&str>,
    )
        ensures
            parsed_maps(text_view(base), text_view(cli), text_view(prompts)).len() == 0
                ==> final(self).table(lang) == builtin_table(lang),
            parsed_maps(text_view(base), text_view(cli), text_view(prompts)).len() > 0
                ==> forall|k: Seq<char>|
                #[trigger] dict_lookup(final(self).table(lang), k) == merged_lookup(
                    parsed_maps(text_view(base), text_view(cli), text_view(prompts)),
                    k,
                ),
            forall|l: Language| l != lang ==> final(self).table(l) == old(self).table(l),
            final(self).current() == old(self).current(),
            final(self).fallback() == old(self).fallback(),
    {
        let sources = locale_sources(base, cli, prompts);
        let ghost srcs = sources@;
        self.install_language(lang, sources);
        proof {
            let maps = parsed_maps(text_view(base), text_view(cli), text_view(prompts));
            assert forall|k: Seq<char>| maps.len() > 0 implies #[trigger] dict_lookup(self.table(lang), k)
                == merged_lookup(maps, k) by {
                law_merged_tables(srcs, maps, k);
            }
        }
    }
}


/// The two built-in tables translate the same keys, in the same order.
pub proof fn law_builtin_tables_same_keys()
    ensures
        builtin_zh_cn().len() == builtin_en_us().len(),
        forall|i: int| 0 <= i < builtin_zh_cn().len() ==> #[trigger] builtin_zh_cn()[i].0 == builtin_en_us()[i].0,
{
    assert(builtin_zh_cn().map_values(|p: (Seq<char>, Seq<char>)| p.0) =~= builtin_en_us().map_values(
        |p: (Seq<char>, Seq<char>)| p.0,
    ));
    assert forall|i: int| 0 <= i < builtin_zh_cn().len() implies #[trigger] builtin_zh_cn()[i].0 == builtin_en_us()[i].0 by {
        assert(builtin_zh_cn().map_values(|p: (Seq<char>, Seq<char>)| p.0)[i] == builtin_zh_cn()[i].0);
        assert(builtin_en_us().map_values(|p: (Seq<char>, Seq<char>)| p.0)[i] == builtin_en_us()[i].0);
    }
}


/// A placeholder: a name in braces, such as `{version}`.
pub open spec fn is_placeholder(q: Seq<char>) -> bool {
    &&& q.len() >= 2
    &&& q[0] == '{'
    &&& q[q.len() - 1] == '}'
    &&& forall|k: int| 0 < k < q.len() - 1 ==> #[trigger] q[k] != '{' && q[k] != '}'
}

/// The placeholders that occur in a text.
pub open spec fn placeholders(s: Seq<char>) -> Set<Seq<char>> {
    Set::new(|q: Seq<char>| is_placeholder(q) && has_infix(s, q))
}

/// A text without an opening brace holds no placeholder.
proof fn lemma_no_placeholders(s: Seq<char>)
    requires
        forall|i: int| 0 <= i < s.len() ==> s[i] != '{',
    ensures
        placeholders(s) == Set::<Seq<char>>::empty(),
{
    assert forall|q: Seq<char>| !placeholders(s).contains(q) by {
        if is_placeholder(q) && has_infix(s, q) {
            let i = choose|i: int| occurs_at(s, q, i);
            assert(s.subrange(i, i + q.len())[0] == s[i]);
        }
    }
    assert(placeholders(s) =~= Set::<Seq<char>>::empty());
}

/// A text whose only opening brace, at `a`, is closed at `b` holds exactly
/// one placeholder, the one from `a` to `b`.
proof fn lemma_one_placeholder(s: Seq<char>, a: int, b: int)
    requires
        0 <= a < b < s.len(),
        s[a] == '{',
        s[b] == '}',
        forall|k: int| a < k < b ==> s[k] != '{' && s[k] != '}',
        forall|k: int| 0 <= k < s.len() && k != a ==> s[k] != '{',
    ensures
        placeholders(s) == set![s.subrange(a, b + 1)],
{
    let p = s.subrange(a, b + 1);
    assert(is_placeholder(p)) by {
        assert forall|k: int| 0 < k < p.len() - 1 implies #[trigger] p[k] != '{' && p[k] != '}' by {
            assert(p[k] == s[a + k]);
        }
    }
    assert(occurs_at(s, p, a));
    assert forall|q: Seq<char>| placeholders(s).contains(q) implies q == p by {
        let i = choose|i: int| occurs_at(s, q, i);
        let sub = s.subrange(i, i + q.len());
        assert(sub[0] == s[i]);
        assert(i == a);
        let e = a + q.len() - 1;
        assert(sub[q.len() - 1] == s[e]);
        if e < b {
            assert(s[e] != '}');
        } else if e > b {
            assert(sub[b - a] == s[b]);
            assert(q[b - a] != '}');
        }
        assert(q =~= p);
    }
    assert(placeholders(s) =~= set![p]);
}

/// The two built-in tables use the same placeholders: each key's Chinese
/// and English texts hold the same set of `{name}` placeholders.
pub proof fn law_builtin_tables_same_placeholders()
    ensures
        builtin_zh_cn().len() == builtin_en_us().len(),
        forall|i: int| 0 <= i < builtin_zh_cn().len() ==> placeholders(#[trigger] builtin_zh_cn()[i].1)
            == placeholders(builtin_en_us()[i].1),
{
    let zh = builtin_zh_cn();
    let en = builtin_en_us();
    assert forall|i: int| 0 <= i < zh.len() implies placeholders(#[trigger] zh[i].1) == placeholders(en[i].1) by {
        if i == 0 {
            assert(zh[0].1 == en[0].1);
        } else if i == 1 {
            reveal_strlit("直接输入问题或");
            reveal_strlit("Enter your question or");
            lemma_no_placeholders(zh[1].1);
            lemma_no_placeholders(en[1].1);
        } else if i == 2 {
            assert(zh[2].1 == en[2].1);
        } else if i == 3 {
            reveal_strlit("Ctrl-D 退出");
            reveal_strlit("Press Ctrl-D to exit");
            lemma_no_placeholders(zh[3].1);
            lemma_no_placeholders(en[3].1);
        } else if i == 4 {
            assert(zh[4].1 == en[4].1);
        } else if i == 5 {
            assert(zh[5].1 == en[5].1);
        } else if i == 6 {
            reveal_strlit("错误:");
            reveal_strlit("Error:");
            lemma_no_placeholders(zh[6].1);
            lemma_no_placeholders(en[6].1);
        } else if i == 7 {
            reveal_strlit("=== RealConsole 配置向导 ===");
            reveal_strlit("=== RealConsole Configuration Wizard ===");
            lemma_no_placeholders(zh[7].1);
            lemma_no_placeholders(en[7].1);
        } else if i == 8 {
            reveal_strlit("模式: 快速配置（使用推荐默认值）");
            reveal_strlit("Mode: Quick setup (using recommended defaults)");
            lemma_no_placeholders(zh[8].1);
            lemma_no_placeholders(en[8].1);
        } else if i == 9 {
            reveal_strlit("模式: 完整配置（可自定义所有选项）");
            reveal_strlit("Mode: Complete setup (customize all options)");
            lemma_no_placeholders(zh[9].1);
            lemma_no_placeholders(en[9].1);
        } else if i == 10 {
            reveal_strlit("✗ 保存配置失败:");
            reveal_strlit("✗ Failed to save configuration:");
            lemma_no_placeholders(zh[10].1);
            lemma_no_placeholders(en[10].1);
        } else if i == 11 {
            reveal_strlit("✗ 配置向导失败:");
            reveal_strlit("✗ Configuration wizard failed:");
            lemma_no_placeholders(zh[11].1);
            lemma_no_placeholders(en[11].1);
        } else if i == 12 {
            reveal_strlit("配置文件不存在:");
            reveal_strlit("Configuration file not found:");
            lemma_no_placeholders(zh[12].1);
            lemma_no_placeholders(en[12].1);
        } else if i == 13 {
            reveal_strlit("请运行 'realconsole wizard' 创建配置");
            reveal_strlit("Please run 'realconsole wizard' to create configuration");
            lemma_no_placeholders(zh[13].1);
            lemma_no_placeholders(en[13].1);
        } else if i == 14 {
            reveal_strlit("配置文件:");
            reveal_strlit("Configuration file:");
            lemma_no_placeholders(zh[14].1);
            lemma_no_placeholders(en[14].1);
        } else if i == 15 {
            reveal_strlit("读取配置文件失败:");
            reveal_strlit("Failed to read configuration file:");
            lemma_no_placeholders(zh[15].1);
            lemma_no_placeholders(en[15].1);
        } else if i == 16 {
            reveal_strlit("欢迎使用 RealConsole！");
            reveal_strlit("Welcome to RealConsole!");
            lemma_no_placeholders(zh[16].1);
            lemma_no_placeholders(en[16].1);
        } else if i == 17 {
            reveal_strlit("未检测到配置文件，首次使用需要进行配置。");
            reveal_strlit("No configuration file detected. Initial setup required.");
            lemma_no_placeholders(zh[17].1);
            lemma_no_placeholders(en[17].1);
        } else if i == 18 {
            reveal_strlit("请选择以下方式之一：");
            reveal_strlit("Please choose one of the following:");
            lemma_no_placeholders(zh[18].1);
            lemma_no_placeholders(en[18].1);
        } else if i == 19 {
            reveal_strlit("运行配置向导（推荐）");
            reveal_strlit("Run configuration wizard (recommended)");
            lemma_no_placeholders(zh[19].1);
            lemma_no_placeholders(en[19].1);
        } else if i == 20 {
            reveal_strlit("快速配置模式");
            reveal_strlit("Quick configuration mode");
            lemma_no_placeholders(zh[20].1);
            lemma_no_placeholders(en[20].1);
        } else if i == 21 {
            reveal_strlit("手动创建 realconsole.yaml 和 .env");
            reveal_strlit("Manually create realconsole.yaml and .env");
            lemma_no_placeholders(zh[21].1);
            lemma_no_placeholders(en[21].1);
        } else if i == 22 {
            reveal_strlit("提示: 向导将帮助你在 2 分钟内完成配置");
            reveal_strlit("Tip: The wizard will help you complete setup in 2 minutes");
            lemma_no_placeholders(zh[22].1);
            lemma_no_placeholders(en[22].1);
        } else if i == 23 {
            reveal_strlit("⚠ {type} LLM 初始化失败:");
            reveal_strlit("⚠ {type} LLM initialization failed:");
            lemma_one_placeholder(zh[23].1, 2, 7);
            lemma_one_placeholder(en[23].1, 2, 7);
            assert(zh[23].1.subrange(2, 8) =~= en[23].1.subrange(2, 8));
        } else if i == 24 {
            reveal_strlit("{provider} 客户端创建失败:");
            reveal_strlit("{provider} client creation failed:");
            lemma_one_placeholder(zh[24].1, 0, 9);
            lemma_one_placeholder(en[24].1, 0, 9);
            assert(zh[24].1.subrange(0, 10) =~= en[24].1.subrange(0, 10));
        } else if i == 25 {
            reveal_strlit("未知的 LLM provider:");
            reveal_strlit("Unknown LLM provider:");
            lemma_no_placeholders(zh[25].1);
            lemma_no_placeholders(en[25].1);
        } else if i == 26 {
            reveal_strlit("{provider} 需要 api_key");
            reveal_strlit("{provider} requires api_key");
            lemma_one_placeholder(zh[26].1, 0, 9);
            lemma_one_placeholder(en[26].1, 0, 9);
            assert(zh[26].1.subrange(0, 10) =~= en[26].1.subrange(0, 10));
        } else if i == 27 {
            reveal_strlit("⚠ .env 加载失败:");
            reveal_strlit("⚠ Failed to load .env:");
            lemma_no_placeholders(zh[27].1);
            lemma_no_placeholders(en[27].1);
        } else if i == 28 {
            reveal_strlit("REPL 错误:");
            reveal_strlit("REPL error:");
            lemma_no_placeholders(zh[28].1);
            lemma_no_placeholders(en[28].1);
        } else if i == 29 {
            reveal_strlit("使用默认配置继续运行...");
            reveal_strlit("Continuing with default configuration...");
            lemma_no_placeholders(zh[29].1);
            lemma_no_placeholders(en[29].1);
        }
    }
}


/// The value of the last pair with a key is what a lookup of the key gives.
proof fn lemma_lookup_at(d: Seq<(Seq<char>, Seq<char>)>, k: Seq<char>, i: int)
    requires
        0 <= i < d.len(),
        d[i].0 == k,
        forall|j: int| i < j < d.len() ==> #[trigger] d[j].0 != k,
    ensures
        dict_lookup(d, k) == Some(d[i].1),
    decreases d.len(),
{
    if i < d.len() - 1 {
        assert(d[d.len() - 1].0 != k);
        lemma_lookup_at(d.drop_last(), k, i);
    }
}

/// The built-in Chinese table (`builtin_translations_zh_cn`) asks for input
/// in its welcome hint and shows the version as `RealConsole v{version}`;
/// with the two laws above, it has the English table's keys and
/// placeholders.
pub proof fn law_builtin_chinese_welcome()
    ensures
        dict_lookup(builtin_zh_cn(), "welcome.hint"@) matches Some(v) && has_infix(v, "输入"@),
        dict_lookup(builtin_zh_cn(), "welcome.version"@) == Some("RealConsole v{version}"@),
{
    reveal_strlit("welcome.version");
    reveal_strlit("welcome.hint");
    reveal_strlit("welcome.help");
    reveal_strlit("welcome.exit");
    reveal_strlit("command.interrupted");
    reveal_strlit("command.bye");
    reveal_strlit("command.error");
    reveal_strlit("config.wizard_title");
    reveal_strlit("config.mode_quick");
    reveal_strlit("config.mode_complete");
    reveal_strlit("config.save_failed");
    reveal_strlit("config.wizard_failed");
    reveal_strlit("config.not_found");
    reveal_strlit("config.run_wizard");
    reveal_strlit("config.file_label");
    reveal_strlit("config.read_failed");
    reveal_strlit("first_run.welcome");
    reveal_strlit("first_run.no_config");
    reveal_strlit("first_run.choose_one");
    reveal_strlit("first_run.option1");
    reveal_strlit("first_run.option2");
    reveal_strlit("first_run.option3");
    reveal_strlit("first_run.hint");
    reveal_strlit("llm.init_failed");
    reveal_strlit("llm.client_failed");
    reveal_strlit("llm.unknown_provider");
    reveal_strlit("llm.need_api_key");
    reveal_strlit("error.env_load_failed");
    reveal_strlit("error.repl_error");
    reveal_strlit("error.use_default_config");
    reveal_strlit("直接输入问题或");
    reveal_strlit("输入");
    let d = builtin_zh_cn();
    assert forall|j: int| 1 <= j < d.len() implies #[trigger] d[j].0 != "welcome.version"@ by {
            if j == 1 {
                assert(d[1].0 == "welcome.hint"@);
                assert("welcome.hint"@.len() != "welcome.version"@.len());
            } else if j == 2 {
                assert(d[2].0 == "welcome.help"@);
                assert("welcome.help"@.len() != "welcome.version"@.len());
            } else if j == 3 {
                assert(d[3].0 == "welcome.exit"@);
                assert("welcome.exit"@.len() != "welcome.version"@.len());
            } else if j == 4 {
                assert(d[4].0 == "command.interrupted"@);
                assert("command.interrupted"@.len() != "welcome.version"@.len());
            } else if j == 5 {
                assert(d[5].0 == "command.bye"@);
                assert("command.bye"@.len() != "welcome.version"@.len());
            } else if j == 6 {
                assert(d[6].0 == "command.error"@);
                assert("command.error"@.len() != "welcome.version"@.len());
            } else if j == 7 {
                assert(d[7].0 == "config.wizard_title"@);
                assert("config.wizard_title"@.len() != "welcome.version"@.len());
            } else if j == 8 {
                assert(d[8].0 == "config.mode_quick"@);
                assert("config.mode_quick"@.len() != "welcome.version"@.len());
            } else if j == 9 {
                assert(d[9].0 == "config.mode_complete"@);
                assert("config.mode_complete"@.len() != "welcome.version"@.len());
            } else if j == 10 {
                assert(d[10].0 == "config.save_failed"@);
                assert("config.save_failed"@.len() != "welcome.version"@.len());
            } else if j == 11 {
                assert(d[11].0 == "config.wizard_failed"@);
                assert("config.wizard_failed"@.len() != "welcome.version"@.len());
            } else if j == 12 {
                assert(d[12].0 == "config.not_found"@);
                assert("config.not_found"@.len() != "welcome.version"@.len());
            } else if j == 13 {
                assert(d[13].0 == "config.run_wizard"@);
                assert("config.run_wizard"@.len() != "welcome.version"@.len());
            } else if j == 14 {
                assert(d[14].0 == "config.file_label"@);
                assert("config.file_label"@.len() != "welcome.version"@.len());
            } else if j == 15 {
                assert(d[15].0 == "config.read_failed"@);
                assert("config.read_failed"@.len() != "welcome.version"@.len());
            } else if j == 16 {
                assert(d[16].0 == "first_run.welcome"@);
                assert("first_run.welcome"@.len() != "welcome.version"@.len());
            } else if j == 17 {
                assert(d[17].0 == "first_run.no_config"@);
                assert("first_run.no_config"@.len() != "welcome.version"@.len());
            } else if j == 18 {
                assert(d[18].0 == "first_run.choose_one"@);
                assert("first_run.choose_one"@.len() != "welcome.version"@.len());
            } else if j == 19 {
                assert(d[19].0 == "first_run.option1"@);
                assert("first_run.option1"@.len() != "welcome.version"@.len());
            } else if j == 20 {
                assert(d[20].0 == "first_run.option2"@);
                assert("first_run.option2"@.len() != "welcome.version"@.len());
            } else if j == 21 {
                assert(d[21].0 == "first_run.option3"@);
                assert("first_run.option3"@.len() != "welcome.version"@.len());
            } else if j == 22 {
                assert(d[22].0 == "first_run.hint"@);
                assert("first_run.hint"@.len() != "welcome.version"@.len());
            } else if j == 23 {
                assert(d[23].0 == "llm.init_failed"@);
                assert("llm.init_failed"@[0] != "welcome.version"@[0]);
            } else if j == 24 {
                assert(d[24].0 == "llm.client_failed"@);
                assert("llm.client_failed"@.len() != "welcome.version"@.len());
            } else if j == 25 {
                assert(d[25].0 == "llm.unknown_provider"@);
                assert("llm.unknown_provider"@.len() != "welcome.version"@.len());
            } else if j == 26 {
                assert(d[26].0 == "llm.need_api_key"@);
                assert("llm.need_api_key"@.len() != "welcome.version"@.len());
            } else if j == 27 {
                assert(d[27].0 == "error.env_load_failed"@);
                assert("error.env_load_failed"@.len() != "welcome.version"@.len());
            } else if j == 28 {
                assert(d[28].0 == "error.repl_error"@);
                assert("error.repl_error"@.len() != "welcome.version"@.len());
            } else if j == 29 {
                assert(d[29].0 == "error.use_default_config"@);
                assert("error.use_default_config"@.len() != "welcome.version"@.len());
            }
    }
    assert forall|j: int| 2 <= j < d.len() implies #[trigger] d[j].0 != "welcome.hint"@ by {
            if j == 2 {
                assert(d[2].0 == "welcome.help"@);
                assert("welcome.help"@[9] != "welcome.hint"@[9]);
            } else if j == 3 {
                assert(d[3].0 == "welcome.exit"@);
                assert("welcome.exit"@[8] != "welcome.hint"@[8]);
            } else if j == 4 {
                assert(d[4].0 == "command.interrupted"@);
                assert("command.interrupted"@.len() != "welcome.hint"@.len());
            } else if j == 5 {
                assert(d[5].0 == "command.bye"@);
                assert("command.bye"@.len() != "welcome.hint"@.len());
            } else if j == 6 {
                assert(d[6].0 == "command.error"@);
                assert("command.error"@.len() != "welcome.hint"@.len());
            } else if j == 7 {
                assert(d[7].0 == "config.wizard_title"@);
                assert("config.wizard_title"@.len() != "welcome.hint"@.len());
            } else if j == 8 {
                assert(d[8].0 == "config.mode_quick"@);
                assert("config.mode_quick"@.len() != "welcome.hint"@.len());
            } else if j == 9 {
                assert(d[9].0 == "config.mode_complete"@);
                assert("config.mode_complete"@.len() != "welcome.hint"@.len());
            } else if j == 10 {
                assert(d[10].0 == "config.save_failed"@);
                assert("config.save_failed"@.len() != "welcome.hint"@.len());
            } else if j == 11 {
                assert(d[11].0 == "config.wizard_failed"@);
                assert("config.wizard_failed"@.len() != "welcome.hint"@.len());
            } else if j == 12 {
                assert(d[12].0 == "config.not_found"@);
                assert("config.not_found"@.len() != "welcome.hint"@.len());
            } else if j == 13 {
                assert(d[13].0 == "config.run_wizard"@);
                assert("config.run_wizard"@.len() != "welcome.hint"@.len());
            } else if j == 14 {
                assert(d[14].0 == "config.file_label"@);
                assert("config.file_label"@.len() != "welcome.hint"@.len());
            } else if j == 15 {
                assert(d[15].0 == "config.read_failed"@);
                assert("config.read_failed"@.len() != "welcome.hint"@.len());
            } else if j == 16 {
                assert(d[16].0 == "first_run.welcome"@);
                assert("first_run.welcome"@.len() != "welcome.hint"@.len());
            } else if j == 17 {
                assert(d[17].0 == "first_run.no_config"@);
                assert("first_run.no_config"@.len() != "welcome.hint"@.len());
            } else if j == 18 {
                assert(d[18].0 == "first_run.choose_one"@);
                assert("first_run.choose_one"@.len() != "welcome.hint"@.len());
            } else if j == 19 {
                assert(d[19].0 == "first_run.option1"@);
                assert("first_run.option1"@.len() != "welcome.hint"@.len());
            } else if j == 20 {
                assert(d[20].0 == "first_run.option2"@);
                assert("first_run.option2"@.len() != "welcome.hint"@.len());
            } else if j == 21 {
                assert(d[21].0 == "first_run.option3"@);
                assert("first_run.option3"@.len() != "welcome.hint"@.len());
            } else if j == 22 {
                assert(d[22].0 == "first_run.hint"@);
                assert("first_run.hint"@.len() != "welcome.hint"@.len());
            } else if j == 23 {
                assert(d[23].0 == "llm.init_failed"@);
                assert("llm.init_failed"@.len() != "welcome.hint"@.len());
            } else if j == 24 {
                assert(d[24].0 == "llm.client_failed"@);
                assert("llm.client_failed"@.len() != "welcome.hint"@.len());
            } else if j == 25 {
                assert(d[25].0 == "llm.unknown_provider"@);
                assert("llm.unknown_provider"@.len() != "welcome.hint"@.len());
            } else if j == 26 {
                assert(d[26].0 == "llm.need_api_key"@);
                assert("llm.need_api_key"@.len() != "welcome.hint"@.len());
            } else if j == 27 {
                assert(d[27].0 == "error.env_load_failed"@);
                assert("error.env_load_failed"@.len() != "welcome.hint"@.len());
            } else if j == 28 {
                assert(d[28].0 == "error.repl_error"@);
                assert("error.repl_error"@.len() != "welcome.hint"@.len());
            } else if j == 29 {
                assert(d[29].0 == "error.use_default_config"@);
                assert("error.use_default_config"@.len() != "welcome.hint"@.len());
            }
    }
    lemma_lookup_at(d, "welcome.version"@, 0);
    lemma_lookup_at(d, "welcome.hint"@, 1);
    let v = "直接输入问题或"@;
    assert(v.subrange(2, 4) =~= "输入"@);
    assert(occurs_at(v, "输入"@, 2));
}

} // verus!
