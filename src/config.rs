//! Service configuration and the prompt templates of the assistant.

use vstd::prelude::*;
use vstd::string::{StrSliceExecFns, StringExecFns};
use crate::validate::same_text;

verus! {

/// Outgoing mail server settings.
#[derive(Debug, Clone, PartialEq, Eq)]
pub struct SmtpConfig {
    pub host: String,
    pub port: u16,
    pub username: String,
    pub password: String,
    pub use_tls: bool,
}

/// Mail settings.
#[derive(Debug, Clone, PartialEq, Eq)]
pub struct EmailConfig {
    pub smtp: SmtpConfig,
}

/// Language-model API settings.
#[derive(Debug, Clone, PartialEq, Eq)]
pub struct LlmConfig {
    pub provider: String,
    pub api_key: String,
    pub base_url: String,
    pub model: String,
    /// Seconds.
    pub timeout: u64,
    pub max_retries: u32,
}

/// Verbosity of the logs.
#[derive(Debug, Clone, Copy, PartialEq, Eq, Structural)]
pub enum LogLevel {
    Trace,
    Debug,
    Info,
    Warn,
    Error,
}

/// Logging settings.
#[derive(Debug, Clone, PartialEq, Eq)]
pub struct TelemetryConfig {
    pub log_level: LogLevel,
    pub console: bool,
    pub log_file: Option<String>,
    pub json_format: bool,
}

/// Listening settings.
#[derive(Debug, Clone, PartialEq, Eq)]
pub struct ServerConfig {
    pub host: String,
    pub port: u16,
    pub workers: usize,
}

/// A prompt template: the system message and the user message.
#[derive(Debug, Clone, PartialEq, Eq)]
pub struct Prompt {
    pub system: String,
    pub user: String,
}

/// Prompt templates by category, then by name.
#[derive(Debug, Clone, PartialEq, Eq)]
pub struct PromptsConfig {
    pub prompts: Vec<(String, Vec<(String, Prompt)>)>,
}

/// All settings of the service.
#[derive(Debug, Clone, PartialEq, Eq)]
pub struct Config {
    pub email: EmailConfig,
    pub llm: LlmConfig,
    pub telemetry: TelemetryConfig,
    pub server: ServerConfig,
    pub prompts: PromptsConfig,
}

fn prompt(system: &str, user: &str) -> (r: Prompt)
    ensures
        r.system@ == system@,
        r.user@ == user@,
{
    Prompt { system: String::from_str(system), user: String::from_str(user) }
}

/// Whether `r` is the built-in prompt table.
pub open spec fn builtin_prompts(r: Seq<(String, Vec<(String, Prompt)>)>) -> bool {
    &&& r.len() == 3
    &&& r[0].0@ == "introduction"@
    &&& r[0].1@.len() == 1
    &&& r[0].1@[0].0@ == "default"@
    &&& r[0].1@[0].1.system@ == "你是一个专业的邮件助手，能够分析和回复各种类型的邮件。你具备以下特点：\n\n1. 专业性：能够准确理解邮件内容，识别邮件意图\n2. 高效性：快速生成合适的回复建议\n3. 个性化：根据不同场景调整回复风格\n4. 安全性：保护用户隐私，不泄露敏感信息"@
    &&& r[0].1@[0].1.user@ == "请简单介绍一下自己，说明你的主要功能和特点。"@
    &&& r[1].0@ == "email_analysis"@
    &&& r[1].1@.len() == 3
    &&& r[1].1@[0].0@ == "classify"@
    &&& r[1].1@[0].1.system@ == "你是一个邮件分类专家。请分析邮件内容并进行分类。\n\n分类包括：\n- 工作相关\n- 个人事务\n- 营销推广\n- 系统通知\n- 垃圾邮件\n- 其他"@
    &&& r[1].1@[0].1.user@ == "请分析以下邮件并进行分类：\n\n{email_content}"@
    &&& r[1].1@[1].0@ == "extract_key_info"@
    &&& r[1].1@[1].1.system@ == "你是一个信息提取专家。请从邮件中提取关键信息。"@
    &&& r[1].1@[1].1.user@ == "请从以下邮件中提取关键信息（如日期、地点、人物、事件等）：\n\n{email_content}"@
    &&& r[1].1@[2].0@ == "summarize_thread"@
    &&& r[1].1@[2].1.system@ == "你是一个邮件总结专家。请总结邮件线程的主要内容。"@
    &&& r[1].1@[2].1.user@ == "请总结以下邮件线程的主要内容：\n\n{thread_content}"@
    &&& r[2].0@ == "email_reply"@
    &&& r[2].1@.len() == 2
    &&& r[2].1@[0].0@ == "generate_response"@
    &&& r[2].1@[0].1.system@ == "你是一位专业的邮件回复助手。请根据邮件内容生成合适的回复。回复应当：\n1. 礼貌专业\n2. 简洁明了\n3. 针对性强\n4. 符合邮件往来的语境"@
    &&& r[2].1@[0].1.user@ == "请为以下邮件生成合适的回复：\n\n原始邮件：\n{original_email}\n\n分析结果：\n{analysis_result}"@
    &&& r[2].1@[1].0@ == "suggest_actions"@
    &&& r[2].1@[1].1.system@ == "你是一个行动建议专家。请根据邮件内容建议合适的后续行动。"@
    &&& r[2].1@[1].1.user@ == "基于以下邮件内容，请建议合适的后续行动：\n\n{email_content}"@
}

/// The first prompt named `name` among `entries`.
pub open spec fn find_prompt(entries: Seq<(String, Prompt)>, name: Seq<char>) -> Option<Prompt>
    decreases entries.len(),
{
    if entries.len() == 0 {
        None
    } else if entries[0].0@ == name {
        Some(entries[0].1)
    } else {
        find_prompt(entries.drop_first(), name)
    }
}

/// The prompts of the first category named `name` among `cats`.
pub open spec fn find_category(cats: Seq<(String, Vec<(String, Prompt)>)>, name: Seq<char>) -> Option<
    Seq<(String, Prompt)>,
>
    decreases cats.len(),
{
    if cats.len() == 0 {
        None
    } else if cats[0].0@ == name {
        Some(cats[0].1@)
    } else {
        find_category(cats.drop_first(), name)
    }
}

proof fn lemma_find_prompt(entries: Seq<(String, Prompt)>, name: Seq<char>, i: int)
    requires
        0 <= i <= entries.len(),
        forall|j: int| 0 <= j < i ==> #[trigger] entries[j].0@ != name,
    ensures
        i < entries.len() && entries[i].0@ == name ==> find_prompt(entries, name) == Some(entries[i].1),
        i == entries.len() ==> find_prompt(entries, name) is None,
    decreases i,
{
    if i > 0 {
        let t = entries.drop_first();
        assert forall|j: int| 0 <= j < i - 1 implies #[trigger] t[j].0@ != name by {
            assert(t[j] == entries[j + 1]);
        }
        assert(entries[0].0@ != name);
        lemma_find_prompt(t, name, i - 1);
        if i < entries.len() {
            assert(t[i - 1] == entries[i]);
        }
    }
}

proof fn lemma_find_category(cats: Seq<(String, Vec<(String, Prompt)>)>, name: Seq<char>, i: int)
    requires
        0 <= i <= cats.len(),
        forall|j: int| 0 <= j < i ==> #[trigger] cats[j].0@ != name,
    ensures
        i < cats.len() && cats[i].0@ == name ==> find_category(cats, name) == Some(cats[i].1@),
        i == cats.len() ==> find_category(cats, name) is None,
    decreases i,
{
    if i > 0 {
        let t = cats.drop_first();
        assert forall|j: int| 0 <= j < i - 1 implies #[trigger] t[j].0@ != name by {
            assert(t[j] == cats[j + 1]);
        }
        assert(cats[0].0@ != name);
        lemma_find_category(t, name, i - 1);
        if i < cats.len() {
            assert(t[i - 1] == cats[i]);
        }
    }
}

/// Number of occurrences of `c` in `s`.
pub open spec fn count_char(s: Seq<char>, c: char) -> nat
    decreases s.len(),
{
    if s.len() == 0 {
        0
    } else {
        count_char(s.drop_last(), c) + if s.last() == c { 1nat } else { 0nat }
    }
}

/// The prompt that `name`, written `category.name`, designates in `cats`.
pub open spec fn prompt_named(cats: Seq<(String, Vec<(String, Prompt)>)>, name: Seq<char>) -> Option<Prompt> {
    let d = choose|d: int| 0 <= d < name.len() && name[d] == '.';
    match find_category(cats, name.subrange(0, d)) {
        Some(entries) => find_prompt(entries, name.subrange(d + 1, name.len() as int)),
        None => None,
    }
}

impl Default for Config {
    /// Built-in settings with no prompt templates.
    fn default() -> (r: Config)
        ensures
            r.email.smtp.host@ == "smtp.gmail.com"@,
            r.email.smtp.port == 587,
            r.llm.api_key@ == "your-api-key"@,
            r.llm.timeout == 120,
            r.llm.max_retries == 3,
            r.telemetry.log_level == LogLevel::Info,
            r.server.host@ == "127.0.0.1"@,
            r.server.port == 8080,
            r.server.workers == 4,
            r.prompts.prompts@.len() == 0,
    {
        let mut c = Config::env_defaults();
        c.llm.api_key = String::from_str("your-api-key");
        c
    }
}

fn prompt_not_found(name: &str) -> (r: String)
    ensures
        r@ == "Prompt '"@ + name@ + "' not found"@,
{
    let mut m = String::from_str("Prompt '");
    m.append(name);
    m.append("' not found");
    m
}

/// The value of a string of decimal digits, if it is one.
pub open spec fn decimal(s: Seq<char>) -> Option<nat>
    decreases s.len(),
{
    if s.len() == 0 {
        None
    } else if !('0' <= s.last() && s.last() <= '9') {
        None
    } else if s.len() == 1 {
        Some((s.last() as nat - '0' as nat) as nat)
    } else {
        match decimal(s.drop_last()) {
            Some(v) => Some(v * 10 + (s.last() as nat - '0' as nat) as nat),
            None => None,
        }
    }
}

/// Reads a decimal number no larger than `max`.
pub fn parse_decimal(s: &str, max: u64) -> (r: Option<u64>)
    ensures
        r matches Some(v) ==> decimal(s@) == Some(v as nat) && v <= max,
        r is None ==> decimal(s@) is None || decimal(s@)->Some_0 > max,
{
    let n = s.unicode_len();
    if n == 0 {
        return None;
    }
    let mut v: u64 = 0;
    let mut i: usize = 0;
    while i < n
        invariant
            n == s@.len(),
            n > 0,
            i <= n,
            i > 0 ==> decimal(s@.take(i as int)) == Some(v as nat),
            i == 0 ==> v == 0,
            v <= max,
        decreases n - i,
    {
        let c = s.get_char(i);
        proof {
            assert(s@.take(i + 1).drop_last() =~= s@.take(i as int));
            assert(s@.take(i + 1).last() == c);
        }
        if !('0' <= c && c <= '9') {
            proof {
                lemma_decimal_prefix_none(s@, i + 1);
            }
            return None;
        }
        let d = (c as u32 - '0' as u32) as u64;
        if d > max || v > (max - d) / 10 {
            proof {
                if i > 0 && d <= max {
                    let q = (max - d) / 10;
                    assert(v as int * 10 + d > max) by (nonlinear_arith)
                        requires v > q, q == (max - d) / 10, d <= max;
                }
                if i == 0 {
                    assert(s@.take(1).drop_last() =~= Seq::<char>::empty());
                }
                lemma_decimal_prefix_big(s@, i + 1, max);
            }
            return None;
        }
        proof {
            let q = (max - d) / 10;
            assert(v as int * 10 + d <= max) by (nonlinear_arith)
                requires v <= q, q == (max - d) / 10, d <= max;
            if i == 0 {
                assert(s@.take(1).drop_last() =~= Seq::<char>::empty());
            }
        }
        v = v * 10 + d;
        i = i + 1;
    }
    assert(s@.take(i as int) =~= s@);
    Some(v)
}

proof fn lemma_decimal_prefix_none(s: Seq<char>, k: int)
    requires
        0 < k <= s.len(),
        decimal(s.take(k)) is None,
    ensures
        decimal(s) is None,
    decreases s.len() - k,
{
    if k < s.len() {
        assert(s.take(k + 1).drop_last() =~= s.take(k));
        lemma_decimal_prefix_none(s, k + 1);
    } else {
        assert(s.take(k) =~= s);
    }
}

proof fn lemma_decimal_prefix_big(s: Seq<char>, k: int, max: u64)
    requires
        0 < k <= s.len(),
        decimal(s.take(k)) is None || decimal(s.take(k))->Some_0 > max,
    ensures
        decimal(s) is None || decimal(s)->Some_0 > max,
    decreases s.len() - k,
{
    if k < s.len() {
        assert(s.take(k + 1).drop_last() =~= s.take(k));
        lemma_decimal_prefix_big(s, k + 1, max);
    } else {
        assert(s.take(k) =~= s);
    }
}

/// The value of a boolean setting.
pub open spec fn flag(s: Seq<char>) -> Option<bool> {
    if s == "true"@ {
        Some(true)
    } else if s == "false"@ {
        Some(false)
    } else {
        None
    }
}

/// The value of a log-level setting.
pub open spec fn level(s: Seq<char>) -> Option<LogLevel> {
    if s == "trace"@ {
        Some(LogLevel::Trace)
    } else if s == "debug"@ {
        Some(LogLevel::Debug)
    } else if s == "info"@ {
        Some(LogLevel::Info)
    } else if s == "warn"@ {
        Some(LogLevel::Warn)
    } else if s == "error"@ {
        Some(LogLevel::Error)
    } else {
        None
    }
}

fn parse_flag(s: &str) -> (r: Option<bool>)
    ensures
        r == flag(s@),
{
    if same_text(s, "true") {
        Some(true)
    } else if same_text(s, "false") {
        Some(false)
    } else {
        None
    }
}

fn parse_level(s: &str) -> (r: Option<LogLevel>)
    ensures
        r == level(s@),
{
    if same_text(s, "trace") {
        Some(LogLevel::Trace)
    } else if same_text(s, "debug") {
        Some(LogLevel::Debug)
    } else if same_text(s, "info") {
        Some(LogLevel::Info)
    } else if same_text(s, "warn") {
        Some(LogLevel::Warn)
    } else if same_text(s, "error") {
        Some(LogLevel::Error)
    } else {
        None
    }
}

fn bad_value(key: &str, value: &str) -> (r: String)
    ensures
        r@ == "invalid value '"@ + value@ + "' for "@ + key@,
{
    let mut m = String::from_str("invalid value '");
    m.append(value);
    m.append("' for ");
    m.append(key);
    m
}

/// The settings after the environment variable `key` is set to `v`: `None`
/// when the value does not fit the setting; unknown variables change nothing.
pub open spec fn applied(c: Config, key: Seq<char>, v: String) -> Option<Config> {
    if key == "SENTIO_EMAIL__SMTP__HOST"@ {
        Some(Config { email: EmailConfig { smtp: SmtpConfig { host: v, ..c.email.smtp }, ..c.email }, ..c })
    } else if key == "SENTIO_EMAIL__SMTP__PORT"@ {
        match decimal(v@) { Some(n) => if n <= 65535 { Some(Config { email: EmailConfig { smtp: SmtpConfig { port: n as u16, ..c.email.smtp }, ..c.email }, ..c }) } else { None }, None => None }
    } else if key == "SENTIO_EMAIL__SMTP__USERNAME"@ {
        Some(Config { email: EmailConfig { smtp: SmtpConfig { username: v, ..c.email.smtp }, ..c.email }, ..c })
    } else if key == "SENTIO_EMAIL__SMTP__PASSWORD"@ {
        Some(Config { email: EmailConfig { smtp: SmtpConfig { password: v, ..c.email.smtp }, ..c.email }, ..c })
    } else if key == "SENTIO_EMAIL__SMTP__USE_TLS"@ {
        match flag(v@) { Some(b) => Some(Config { email: EmailConfig { smtp: SmtpConfig { use_tls: b, ..c.email.smtp }, ..c.email }, ..c }), None => None }
    } else if key == "SENTIO_LLM__PROVIDER"@ {
        Some(Config { llm: LlmConfig { provider: v, ..c.llm }, ..c })
    } else if key == "SENTIO_LLM__API_KEY"@ {
        Some(Config { llm: LlmConfig { api_key: v, ..c.llm }, ..c })
    } else if key == "SENTIO_LLM__BASE_URL"@ {
        Some(Config { llm: LlmConfig { base_url: v, ..c.llm }, ..c })
    } else if key == "SENTIO_LLM__MODEL"@ {
        Some(Config { llm: LlmConfig { model: v, ..c.llm }, ..c })
    } else if key == "SENTIO_LLM__TIMEOUT"@ {
        match decimal(v@) { Some(n) => if n <= 18446744073709551615 { Some(Config { llm: LlmConfig { timeout: n as u64, ..c.llm }, ..c }) } else { None }, None => None }
    } else if key == "SENTIO_LLM__MAX_RETRIES"@ {
        match decimal(v@) { Some(n) => if n <= 4294967295 { Some(Config { llm: LlmConfig { max_retries: n as u32, ..c.llm }, ..c }) } else { None }, None => None }
    } else if key == "SENTIO_TELEMETRY__LOG_LEVEL"@ {
        match level(v@) { Some(l) => Some(Config { telemetry: TelemetryConfig { log_level: l, ..c.telemetry }, ..c }), None => None }
    } else if key == "SENTIO_TELEMETRY__CONSOLE"@ {
        match flag(v@) { Some(b) => Some(Config { telemetry: TelemetryConfig { console: b, ..c.telemetry }, ..c }), None => None }
    } else if key == "SENTIO_TELEMETRY__LOG_FILE"@ {
        Some(Config { telemetry: TelemetryConfig { log_file: Some(v), ..c.telemetry }, ..c })
    } else if key == "SENTIO_TELEMETRY__JSON_FORMAT"@ {
        match flag(v@) { Some(b) => Some(Config { telemetry: TelemetryConfig { json_format: b, ..c.telemetry }, ..c }), None => None }
    } else if key == "SENTIO_SERVER__HOST"@ {
        Some(Config { server: ServerConfig { host: v, ..c.server }, ..c })
    } else if key == "SENTIO_SERVER__PORT"@ {
        match decimal(v@) { Some(n) => if n <= 65535 { Some(Config { server: ServerConfig { port: n as u16, ..c.server }, ..c }) } else { None }, None => None }
    } else if key == "SENTIO_SERVER__WORKERS"@ {
        match decimal(v@) { Some(n) => if n <= 4294967295 { Some(Config { server: ServerConfig { workers: n as usize, ..c.server }, ..c }) } else { None }, None => None }
    } else {
        Some(c)
    }
}

/// Whether the environment variable `key` may take the value `v`.
pub open spec fn var_fits(key: Seq<char>, v: Seq<char>) -> bool {
    if key == "SENTIO_EMAIL__SMTP__HOST"@ {
        true
    } else if key == "SENTIO_EMAIL__SMTP__PORT"@ {
        decimal(v) matches Some(n) && n <= 65535
    } else if key == "SENTIO_EMAIL__SMTP__USERNAME"@ {
        true
    } else if key == "SENTIO_EMAIL__SMTP__PASSWORD"@ {
        true
    } else if key == "SENTIO_EMAIL__SMTP__USE_TLS"@ {
        flag(v) is Some
    } else if key == "SENTIO_LLM__PROVIDER"@ {
        true
    } else if key == "SENTIO_LLM__API_KEY"@ {
        true
    } else if key == "SENTIO_LLM__BASE_URL"@ {
        true
    } else if key == "SENTIO_LLM__MODEL"@ {
        true
    } else if key == "SENTIO_LLM__TIMEOUT"@ {
        decimal(v) matches Some(n) && n <= 18446744073709551615
    } else if key == "SENTIO_LLM__MAX_RETRIES"@ {
        decimal(v) matches Some(n) && n <= 4294967295
    } else if key == "SENTIO_TELEMETRY__LOG_LEVEL"@ {
        level(v) is Some
    } else if key == "SENTIO_TELEMETRY__CONSOLE"@ {
        flag(v) is Some
    } else if key == "SENTIO_TELEMETRY__LOG_FILE"@ {
        true
    } else if key == "SENTIO_TELEMETRY__JSON_FORMAT"@ {
        flag(v) is Some
    } else if key == "SENTIO_SERVER__HOST"@ {
        true
    } else if key == "SENTIO_SERVER__PORT"@ {
        decimal(v) matches Some(n) && n <= 65535
    } else if key == "SENTIO_SERVER__WORKERS"@ {
        decimal(v) matches Some(n) && n <= 4294967295
    } else {
        true
    }
}

/// Whether every variable of `vars` fits its setting.
pub open spec fn vars_fit(vars: Seq<(String, String)>) -> bool {
    forall|i: int| 0 <= i < vars.len() ==> var_fits(#[trigger] vars[i].0@, vars[i].1@)
}

/// The settings after the environment variables `vars` are applied in order.
pub open spec fn applied_all(c: Config, vars: Seq<(String, String)>) -> Option<Config>
    decreases vars.len(),
{
    if vars.len() == 0 {
        Some(c)
    } else {
        match applied_all(c, vars.drop_last()) {
            Some(d) => applied(d, vars.last().0@, vars.last().1),
            None => None,
        }
    }
}

/// Whether `c` holds the built-in settings that the environment overrides.
pub open spec fn env_defaults(c: Config) -> bool {
    &&& c.email.smtp.host@ == "smtp.gmail.com"@
    &&& c.email.smtp.port == 587
    &&& c.email.smtp.username@ == "your-email@example.com"@
    &&& c.email.smtp.password@ == "your-app-password"@
    &&& c.email.smtp.use_tls
    &&& c.llm.provider@ == "deepseek"@
    &&& c.llm.api_key@ == "your-deepseek-api-key"@
    &&& c.llm.base_url@ == "https://api.deepseek.com"@
    &&& c.llm.model@ == "deepseek-chat"@
    &&& c.llm.timeout == 120
    &&& c.llm.max_retries == 3
    &&& c.telemetry.log_level == LogLevel::Info
    &&& c.telemetry.console
    &&& c.telemetry.log_file is None
    &&& !c.telemetry.json_format
    &&& c.server.host@ == "127.0.0.1"@
    &&& c.server.port == 8080
    &&& c.server.workers == 4
    &&& c.prompts.prompts@.len() == 0
}

impl Config {
    /// The built-in prompt templates.
    pub fn default_prompts() -> (r: Vec<(String, Vec<(String, Prompt)>)>)
        ensures
            builtin_prompts(r@),
    {
        let mut c0: Vec<(String, Prompt)> = Vec::new();
        c0.push((String::from_str("default"), prompt("你是一个专业的邮件助手，能够分析和回复各种类型的邮件。你具备以下特点：\n\n1. 专业性：能够准确理解邮件内容，识别邮件意图\n2. 高效性：快速生成合适的回复建议\n3. 个性化：根据不同场景调整回复风格\n4. 安全性：保护用户隐私，不泄露敏感信息", "请简单介绍一下自己，说明你的主要功能和特点。")));
        let mut c1: Vec<(String, Prompt)> = Vec::new();
        c1.push((String::from_str("classify"), prompt("你是一个邮件分类专家。请分析邮件内容并进行分类。\n\n分类包括：\n- 工作相关\n- 个人事务\n- 营销推广\n- 系统通知\n- 垃圾邮件\n- 其他", "请分析以下邮件并进行分类：\n\n{email_content}")));
        c1.push((String::from_str("extract_key_info"), prompt("你是一个信息提取专家。请从邮件中提取关键信息。", "请从以下邮件中提取关键信息（如日期、地点、人物、事件等）：\n\n{email_content}")));
        c1.push((String::from_str("summarize_thread"), prompt("你是一个邮件总结专家。请总结邮件线程的主要内容。", "请总结以下邮件线程的主要内容：\n\n{thread_content}")));
        let mut c2: Vec<(String, Prompt)> = Vec::new();
        c2.push((String::from_str("generate_response"), prompt("你是一位专业的邮件回复助手。请根据邮件内容生成合适的回复。回复应当：\n1. 礼貌专业\n2. 简洁明了\n3. 针对性强\n4. 符合邮件往来的语境", "请为以下邮件生成合适的回复：\n\n原始邮件：\n{original_email}\n\n分析结果：\n{analysis_result}")));
        c2.push((String::from_str("suggest_actions"), prompt("你是一个行动建议专家。请根据邮件内容建议合适的后续行动。", "基于以下邮件内容，请建议合适的后续行动：\n\n{email_content}")));
        let mut all: Vec<(String, Vec<(String, Prompt)>)> = Vec::new();
        all.push((String::from_str("introduction"), c0));
        all.push((String::from_str("email_analysis"), c1));
        all.push((String::from_str("email_reply"), c2));
        all
    }

    /// The prompt `name`, written `category.name`. A name without exactly one
    /// `.` is rejected as malformed; an unknown one as not found.
    pub fn get_prompt(&self, name: &str) -> (r: Result<&Prompt, String>)
        ensures
            count_char(name@, '.') != 1 ==> (r matches Err(m) && m@ == "Invalid prompt name format: '"@
                + name@ + "'. Expected 'category.name'."@),
            count_char(name@, '.') == 1 ==> match prompt_named(self.prompts.prompts@, name@) {
                Some(p) => (r matches Ok(q) && *q == p),
                None => (r matches Err(m) && m@ == "Prompt '"@ + name@ + "' not found"@),
            },
    {
        let n = name.unicode_len();
        let mut dots: usize = 0;
        let mut dot: usize = 0;
        let mut i: usize = 0;
        while i < n
            invariant
                n == name@.len(),
                i <= n,
                dots == count_char(name@.take(i as int), '.'),
                dots <= i,
                dots >= 1 ==> dot < i && name@[dot as int] == '.',
                dots == 0 ==> forall|k: int| 0 <= k < i ==> name@[k] != '.',
                dots == 1 ==> forall|k: int| 0 <= k < i && k != dot ==> name@[k] != '.',
            decreases n - i,
        {
            proof {
                assert(name@.take(i + 1).drop_last() =~= name@.take(i as int));
            }
            if name.get_char(i) == '.' {
                if dots == 0 {
                    dot = i;
                }
                dots = dots + 1;
            }
            i = i + 1;
        }
        assert(name@.take(i as int) =~= name@);
        if dots != 1 {
            let mut m = String::from_str("Invalid prompt name format: '");
            m.append(name);
            m.append("'. Expected 'category.name'.");
            return Err(m);
        }
        proof {
            let d = choose|d: int| 0 <= d < name@.len() && name@[d] == '.';
            assert(d == dot);
        }
        let category = name.substring_char(0, dot);
        let entry = name.substring_char(dot + 1, n);
        let cats = &self.prompts.prompts;
        let ghost wanted = match find_category(cats@, category@) {
            Some(e) => find_prompt(e, entry@),
            None => None,
        };
        assert(prompt_named(cats@, name@) == wanted);
        let mut c: usize = 0;
        while c < cats.len()
            invariant
                c <= cats@.len(),
                forall|j: int| 0 <= j < c ==> #[trigger] cats@[j].0@ != category@,
                count_char(name@, '.') == 1,
                prompt_named(self.prompts.prompts@, name@) == wanted,
                cats == &self.prompts.prompts,
                wanted == match find_category(cats@, category@) {
                    Some(e) => find_prompt(e, entry@),
                    None => None,
                },
            decreases cats@.len() - c,
        {
            if same_text(cats[c].0.as_str(), category) {
                proof {
                    lemma_find_category(cats@, category@, c as int);
                }
                let entries = &cats[c].1;
                let mut k: usize = 0;
                while k < entries.len()
                    invariant
                        k <= entries@.len(),
                        forall|j: int| 0 <= j < k ==> #[trigger] entries@[j].0@ != entry@,
                        count_char(name@, '.') == 1,
                        prompt_named(self.prompts.prompts@, name@) == wanted,
                        wanted == find_prompt(entries@, entry@),
                    decreases entries@.len() - k,
                {
                    if same_text(entries[k].0.as_str(), entry) {
                        proof {
                            lemma_find_prompt(entries@, entry@, k as int);
                        }
                        return Ok(&entries[k].1);
                    }
                    k = k + 1;
                }
                proof {
                    lemma_find_prompt(entries@, entry@, k as int);
                }
                return Err(prompt_not_found(name));
            }
            c = c + 1;
        }
        proof {
            if c == cats@.len() {
                lemma_find_category(cats@, category@, c as int);
            }
        }
        Err(prompt_not_found(name))
    }

    /// Sets the setting that the environment variable `key` names. Unknown
    /// variables are ignored; a value that does not fit is rejected, and
    /// nothing changes.
    pub fn apply_env_var(&mut self, key: &str, value: String) -> (r: Result<(), String>)
        ensures
            applied(*old(self), key@, value) matches Some(c) ==> r is Ok && *final(self) == c,
            applied(*old(self), key@, value) is None ==> r is Err && *final(self) == *old(self),
    {
        if same_text(key, "SENTIO_EMAIL__SMTP__HOST") {
            self.email.smtp.host = value;
        } else if same_text(key, "SENTIO_EMAIL__SMTP__PORT") {
            match parse_decimal(value.as_str(), 65535) {
                Some(x) => self.email.smtp.port = x as u16,
                None => return Err(bad_value(key, value.as_str())),
            }
        } else if same_text(key, "SENTIO_EMAIL__SMTP__USERNAME") {
            self.email.smtp.username = value;
        } else if same_text(key, "SENTIO_EMAIL__SMTP__PASSWORD") {
            self.email.smtp.password = value;
        } else if same_text(key, "SENTIO_EMAIL__SMTP__USE_TLS") {
            match parse_flag(value.as_str()) {
                Some(x) => self.email.smtp.use_tls = x,
                None => return Err(bad_value(key, value.as_str())),
            }
        } else if same_text(key, "SENTIO_LLM__PROVIDER") {
            self.llm.provider = value;
        } else if same_text(key, "SENTIO_LLM__API_KEY") {
            self.llm.api_key = value;
        } else if same_text(key, "SENTIO_LLM__BASE_URL") {
            self.llm.base_url = value;
        } else if same_text(key, "SENTIO_LLM__MODEL") {
            self.llm.model = value;
        } else if same_text(key, "SENTIO_LLM__TIMEOUT") {
            match parse_decimal(value.as_str(), 18446744073709551615) {
                Some(x) => self.llm.timeout = x as u64,
                None => return Err(bad_value(key, value.as_str())),
            }
        } else if same_text(key, "SENTIO_LLM__MAX_RETRIES") {
            match parse_decimal(value.as_str(), 4294967295) {
                Some(x) => self.llm.max_retries = x as u32,
                None => return Err(bad_value(key, value.as_str())),
            }
        } else if same_text(key, "SENTIO_TELEMETRY__LOG_LEVEL") {
            match parse_level(value.as_str()) {
                Some(x) => self.telemetry.log_level = x,
                None => return Err(bad_value(key, value.as_str())),
            }
        } else if same_text(key, "SENTIO_TELEMETRY__CONSOLE") {
            match parse_flag(value.as_str()) {
                Some(x) => self.telemetry.console = x,
                None => return Err(bad_value(key, value.as_str())),
            }
        } else if same_text(key, "SENTIO_TELEMETRY__LOG_FILE") {
            self.telemetry.log_file = Some(value);
        } else if same_text(key, "SENTIO_TELEMETRY__JSON_FORMAT") {
            match parse_flag(value.as_str()) {
                Some(x) => self.telemetry.json_format = x,
                None => return Err(bad_value(key, value.as_str())),
            }
        } else if same_text(key, "SENTIO_SERVER__HOST") {
            self.server.host = value;
        } else if same_text(key, "SENTIO_SERVER__PORT") {
            match parse_decimal(value.as_str(), 65535) {
                Some(x) => self.server.port = x as u16,
                None => return Err(bad_value(key, value.as_str())),
            }
        } else if same_text(key, "SENTIO_SERVER__WORKERS") {
            match parse_decimal(value.as_str(), 4294967295) {
                Some(x) => self.server.workers = x as usize,
                None => return Err(bad_value(key, value.as_str())),
            }
        }
        Ok(())
    }

    /// The built-in settings that the environment overrides, without prompts.
    pub fn env_defaults() -> (r: Config)
        ensures
            env_defaults(r),
    {
        Config {
            email: EmailConfig {
                smtp: SmtpConfig {
                    host: String::from_str("smtp.gmail.com"),
                    port: 587,
                    username: String::from_str("your-email@example.com"),
                    password: String::from_str("your-app-password"),
                    use_tls: true,
                },
            },
            llm: LlmConfig {
                provider: String::from_str("deepseek"),
                api_key: String::from_str("your-deepseek-api-key"),
                base_url: String::from_str("https://api.deepseek.com"),
                model: String::from_str("deepseek-chat"),
                timeout: 120,
                max_retries: 3,
            },
            telemetry: TelemetryConfig {
                log_level: LogLevel::Info,
                console: true,
                log_file: None,
                json_format: false,
            },
            server: ServerConfig { host: String::from_str("127.0.0.1"), port: 8080, workers: 4 },
            prompts: PromptsConfig { prompts: Vec::new() },
        }
    }

    /// The settings from the built-in defaults and the process's environment
    /// variables `vars` (name and value), applied in order, with the built-in
    /// prompt table. Fails on the first variable whose value does not fit.
    pub fn from_env(vars: Vec<(String, String)>) -> (r: Result<Config, String>)
        ensures
            r is Ok <==> vars_fit(vars@),
            r matches Ok(c) ==> builtin_prompts(c.prompts.prompts@) && exists|base: Config|
                env_defaults(base) && applied_all(base, vars@) == Some(
                    Config { prompts: base.prompts, ..c },
                ),
    {
        let mut c = Config::env_defaults();
        let ghost base = c;
        let ghost all = vars@;
        let n = vars.len();
        let mut rest = vars;
        let mut i: usize = 0;
        while rest.len() > 0
            invariant
                env_defaults(base),
                all == vars@,
                n == all.len(),
                i <= n,
                rest@ == all.skip(i as int),
                applied_all(base, all.take(i as int)) == Some(c),
                forall|j: int| 0 <= j < i ==> var_fits(#[trigger] all[j].0@, all[j].1@),
                c.prompts == base.prompts,
            decreases rest@.len(),
        {
            let (key, value) = rest.remove(0);
            proof {
                assert(all[i as int] == (key, value));
                assert(all.take(i + 1).drop_last() =~= all.take(i as int));
                assert(rest@ =~= all.skip(i + 1));
            }
            let outcome = c.apply_env_var(key.as_str(), value);
            if outcome.is_err() {
                proof {
                    assert(!var_fits(all[i as int].0@, all[i as int].1@));
                }
                return Err(outcome.unwrap_err());
            }
            proof {
                assert(var_fits(all[i as int].0@, all[i as int].1@));
            }
            i = i + 1;
        }
        assert(all.take(i as int) =~= all);
        c.prompts = PromptsConfig { prompts: Config::default_prompts() };
        Ok(c)
    }

    /// The classification prompt: system message and user message.
    pub fn get_email_analysis_prompt(&self) -> (r: (&'static str, &'static str))
        ensures
            r.0@ == "你是一个邮件分类专家。请分析邮件内容并进行分类。\n\n分类包括：\n- 工作相关\n- 个人事务\n- 营销推广\n- 系统通知\n- 垃圾邮件\n- 其他"@,
            r.1@ == "请分析以下邮件并进行分类：\n\n{email_content}"@,
    {
        (
            "你是一个邮件分类专家。请分析邮件内容并进行分类。\n\n分类包括：\n- 工作相关\n- 个人事务\n- 营销推广\n- 系统通知\n- 垃圾邮件\n- 其他",
            "请分析以下邮件并进行分类：\n\n{email_content}",
        )
    }

    /// The reply prompt: system message and user message.
    pub fn get_email_reply_prompt(&self) -> (r: (&'static str, &'static str))
        ensures
            r.0@ == "你是一位专业的邮件回复助手。请根据邮件内容生成合适的回复。"@,
            r.1@ == "请为以下邮件生成合适的回复：\n\n原始邮件：\n{original_email}\n\n分析结果：\n{analysis_result}"@,
    {
        (
            "你是一位专业的邮件回复助手。请根据邮件内容生成合适的回复。",
            "请为以下邮件生成合适的回复：\n\n原始邮件：\n{original_email}\n\n分析结果：\n{analysis_result}",
        )
    }
}

/// Older name of [`Config::from_env`].
pub fn load_config(vars: Vec<(String, String)>) -> (r: Result<Config, String>)
    ensures
        r is Ok <==> vars_fit(vars@),
        r matches Ok(c) ==> builtin_prompts(c.prompts.prompts@) && exists|base: Config|
            env_defaults(base) && applied_all(base, vars@) == Some(
                Config { prompts: base.prompts, ..c },
            ),
{
    Config::from_env(vars)
}

} // verus!
