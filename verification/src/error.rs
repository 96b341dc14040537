//! The errors that commands end with, their codes, exit codes and icons,
//! and the classification of messages that adapters throw from scripts.
use vstd::prelude::*;

use crate::json::{Json, JsonValue, view_fields, view_items};
use crate::text::{chars_of, concat3, contains, contains_exec, to_ascii_upper, upper_seq};

verus! {

/// An error that ends a command. Errors that wrap an outside error keep
/// its text.
#[derive(Debug)]
pub enum CliError {
    BrowserConnect { message: String, suggestions: Vec<String> },
    AdapterLoad { message: String, suggestions: Vec<String> },
    CommandExecution { message: String, suggestions: Vec<String> },
    Config { message: String, suggestions: Vec<String> },
    AuthRequired { message: String, suggestions: Vec<String> },
    Timeout { message: String, suggestions: Vec<String> },
    Argument { message: String, suggestions: Vec<String> },
    EmptyResult { message: String, suggestions: Vec<String> },
    Selector { message: String, suggestions: Vec<String> },
    Pipeline { message: String, suggestions: Vec<String> },
    Io(String),
    Json(String),
    Yaml(String),
    Http { message: String, suggestions: Vec<String> },
    Gone { message: String, suggestions: Vec<String> },
    RateLimit { message: String, suggestions: Vec<String> },
}

/// The stable machine-readable code of each kind of error.
pub open spec fn code_of(e: CliError) -> Seq<char> {
    match e {
        CliError::BrowserConnect { .. } => "BROWSER_CONNECT"@,
        CliError::AdapterLoad { .. } => "ADAPTER_LOAD"@,
        CliError::CommandExecution { .. } => "COMMAND_EXECUTION"@,
        CliError::Config { .. } => "CONFIG"@,
        CliError::AuthRequired { .. } => "AUTH_REQUIRED"@,
        CliError::Timeout { .. } => "TIMEOUT"@,
        CliError::Argument { .. } => "ARGUMENT"@,
        CliError::EmptyResult { .. } => "EMPTY_RESULT"@,
        CliError::Selector { .. } => "SELECTOR"@,
        CliError::Pipeline { .. } => "PIPELINE"@,
        CliError::Io(_) => "IO"@,
        CliError::Json(_) => "JSON"@,
        CliError::Yaml(_) => "YAML"@,
        CliError::Http { .. } => "HTTP"@,
        CliError::Gone { .. } => "GONE"@,
        CliError::RateLimit { .. } => "RATE_LIMIT"@,
    }
}

/// The tag that the displayed message starts with.
pub open spec fn tag_of(e: CliError) -> Seq<char> {
    match e {
        CliError::BrowserConnect { .. } => "browser"@,
        CliError::AdapterLoad { .. } => "adapter"@,
        CliError::CommandExecution { .. } => "command"@,
        CliError::Config { .. } => "config"@,
        CliError::AuthRequired { .. } => "auth"@,
        CliError::Timeout { .. } => "timeout"@,
        CliError::Argument { .. } => "argument"@,
        CliError::EmptyResult { .. } => "empty"@,
        CliError::Selector { .. } => "selector"@,
        CliError::Pipeline { .. } => "pipeline"@,
        CliError::Io(_) => "io"@,
        CliError::Json(_) => "json"@,
        CliError::Yaml(_) => "yaml"@,
        CliError::Http { .. } => "http"@,
        CliError::Gone { .. } => "gone"@,
        CliError::RateLimit { .. } => "rate_limit"@,
    }
}

/// The message an error carries.
pub open spec fn message_of(e: CliError) -> Seq<char> {
    match e {
        CliError::BrowserConnect { message, .. } => message@,
        CliError::AdapterLoad { message, .. } => message@,
        CliError::CommandExecution { message, .. } => message@,
        CliError::Config { message, .. } => message@,
        CliError::AuthRequired { message, .. } => message@,
        CliError::Timeout { message, .. } => message@,
        CliError::Argument { message, .. } => message@,
        CliError::EmptyResult { message, .. } => message@,
        CliError::Selector { message, .. } => message@,
        CliError::Pipeline { message, .. } => message@,
        CliError::Io(m) => m@,
        CliError::Json(m) => m@,
        CliError::Yaml(m) => m@,
        CliError::Http { message, .. } => message@,
        CliError::Gone { message, .. } => message@,
        CliError::RateLimit { message, .. } => message@,
    }
}

pub open spec fn texts_of(v: Seq<String>) -> Seq<Seq<char>> {
    v.map_values(|s: String| s@)
}

/// The suggestions an error carries; errors that wrap an outside error
/// carry none.
pub open spec fn suggestions_of(e: CliError) -> Seq<Seq<char>> {
    match e {
        CliError::BrowserConnect { suggestions, .. } => texts_of(suggestions@),
        CliError::AdapterLoad { suggestions, .. } => texts_of(suggestions@),
        CliError::CommandExecution { suggestions, .. } => texts_of(suggestions@),
        CliError::Config { suggestions, .. } => texts_of(suggestions@),
        CliError::AuthRequired { suggestions, .. } => texts_of(suggestions@),
        CliError::Timeout { suggestions, .. } => texts_of(suggestions@),
        CliError::Argument { suggestions, .. } => texts_of(suggestions@),
        CliError::EmptyResult { suggestions, .. } => texts_of(suggestions@),
        CliError::Selector { suggestions, .. } => texts_of(suggestions@),
        CliError::Pipeline { suggestions, .. } => texts_of(suggestions@),
        CliError::Http { suggestions, .. } => texts_of(suggestions@),
        CliError::Gone { suggestions, .. } => texts_of(suggestions@),
        CliError::RateLimit { suggestions, .. } => texts_of(suggestions@),
        _ => Seq::empty(),
    }
}

/// The displayed text: `[tag] message`.
pub open spec fn display_of(e: CliError) -> Seq<char> {
    "["@ + tag_of(e) + "] "@ + message_of(e)
}

/// The process exit code: soft empties are 0 so that batch jobs can treat
/// "no rows" as success; `GONE` and argument errors are 2, auth is 3,
/// rate limiting is 4, everything else 1.
pub open spec fn exit_code_of(e: CliError) -> i32 {
    match e {
        CliError::EmptyResult { .. } => 0,
        CliError::Gone { .. } => 2,
        CliError::AuthRequired { .. } => 3,
        CliError::RateLimit { .. } => 4,
        CliError::Argument { .. } => 2,
        _ => 1,
    }
}

impl CliError {
    pub fn code(&self) -> (r: &'static str)
        ensures
            r@ == code_of(*self),
    {
        match self {
            CliError::BrowserConnect { .. } => "BROWSER_CONNECT",
            CliError::AdapterLoad { .. } => "ADAPTER_LOAD",
            CliError::CommandExecution { .. } => "COMMAND_EXECUTION",
            CliError::Config { .. } => "CONFIG",
            CliError::AuthRequired { .. } => "AUTH_REQUIRED",
            CliError::Timeout { .. } => "TIMEOUT",
            CliError::Argument { .. } => "ARGUMENT",
            CliError::EmptyResult { .. } => "EMPTY_RESULT",
            CliError::Selector { .. } => "SELECTOR",
            CliError::Pipeline { .. } => "PIPELINE",
            CliError::Io(_) => "IO",
            CliError::Json(_) => "JSON",
            CliError::Yaml(_) => "YAML",
            CliError::Http { .. } => "HTTP",
            CliError::Gone { .. } => "GONE",
            CliError::RateLimit { .. } => "RATE_LIMIT",
        }
    }

    fn tag(&self) -> (r: &'static str)
        ensures
            r@ == tag_of(*self),
    {
        match self {
            CliError::BrowserConnect { .. } => "browser",
            CliError::AdapterLoad { .. } => "adapter",
            CliError::CommandExecution { .. } => "command",
            CliError::Config { .. } => "config",
            CliError::AuthRequired { .. } => "auth",
            CliError::Timeout { .. } => "timeout",
            CliError::Argument { .. } => "argument",
            CliError::EmptyResult { .. } => "empty",
            CliError::Selector { .. } => "selector",
            CliError::Pipeline { .. } => "pipeline",
            CliError::Io(_) => "io",
            CliError::Json(_) => "json",
            CliError::Yaml(_) => "yaml",
            CliError::Http { .. } => "http",
            CliError::Gone { .. } => "gone",
            CliError::RateLimit { .. } => "rate_limit",
        }
    }

    /// The message this error carries.
    pub fn message(&self) -> (r: &str)
        ensures
            r@ == message_of(*self),
    {
        match self {
            CliError::BrowserConnect { message, .. } => message.as_str(),
            CliError::AdapterLoad { message, .. } => message.as_str(),
            CliError::CommandExecution { message, .. } => message.as_str(),
            CliError::Config { message, .. } => message.as_str(),
            CliError::AuthRequired { message, .. } => message.as_str(),
            CliError::Timeout { message, .. } => message.as_str(),
            CliError::Argument { message, .. } => message.as_str(),
            CliError::EmptyResult { message, .. } => message.as_str(),
            CliError::Selector { message, .. } => message.as_str(),
            CliError::Pipeline { message, .. } => message.as_str(),
            CliError::Io(m) => m.as_str(),
            CliError::Json(m) => m.as_str(),
            CliError::Yaml(m) => m.as_str(),
            CliError::Http { message, .. } => message.as_str(),
            CliError::Gone { message, .. } => message.as_str(),
            CliError::RateLimit { message, .. } => message.as_str(),
        }
    }

    /// The displayed text of the error, `[tag] message`.
    pub fn display_text(&self) -> (r: String)
        ensures
            r@ == display_of(*self),
    {
        let mut r = concat3("[", self.tag(), "] ");
        r.append(self.message());
        r
    }

    /// Process exit code (see `exit_code_of`).
    pub fn exit_code(&self) -> (r: i32)
        ensures
            r == exit_code_of(*self),
    {
        match self {
            CliError::EmptyResult { .. } => 0,
            CliError::Gone { .. } => 2,
            CliError::AuthRequired { .. } => 3,
            CliError::RateLimit { .. } => 4,
            CliError::Argument { .. } => 2,
            _ => 1,
        }
    }

    pub fn is_soft_empty(&self) -> (b: bool)
        ensures
            b == (*self is EmptyResult),
    {
        match self {
            CliError::EmptyResult { .. } => true,
            _ => false,
        }
    }

    pub fn icon(&self) -> (r: &'static str)
        ensures
            r@ == icon_of(*self),
    {
        match self {
            CliError::BrowserConnect { .. } => "🌐",
            CliError::AdapterLoad { .. } => "🔌",
            CliError::CommandExecution { .. } => "⚡",
            CliError::Config { .. } => "⚙️",
            CliError::AuthRequired { .. } => "🔒",
            CliError::Timeout { .. } => "⏱️",
            CliError::Argument { .. } => "📝",
            CliError::EmptyResult { .. } => "📭",
            CliError::Selector { .. } => "🎯",
            CliError::Pipeline { .. } => "🔧",
            CliError::Io(_) => "💾",
            CliError::Json(_) => "📄",
            CliError::Yaml(_) => "📄",
            CliError::Http { .. } => "🌍",
            CliError::Gone { .. } => "👻",
            CliError::RateLimit { .. } => "🛑",
        }
    }
}

/// The icon shown before each kind of error.
pub open spec fn icon_of(e: CliError) -> Seq<char> {
    match e {
        CliError::BrowserConnect { .. } => "🌐"@,
        CliError::AdapterLoad { .. } => "🔌"@,
        CliError::CommandExecution { .. } => "⚡"@,
        CliError::Config { .. } => "⚙️"@,
        CliError::AuthRequired { .. } => "🔒"@,
        CliError::Timeout { .. } => "⏱️"@,
        CliError::Argument { .. } => "📝"@,
        CliError::EmptyResult { .. } => "📭"@,
        CliError::Selector { .. } => "🎯"@,
        CliError::Pipeline { .. } => "🔧"@,
        CliError::Io(_) => "💾"@,
        CliError::Json(_) => "📄"@,
        CliError::Yaml(_) => "📄"@,
        CliError::Http { .. } => "🌍"@,
        CliError::Gone { .. } => "👻"@,
        CliError::RateLimit { .. } => "🛑"@,
    }
}

impl CliError {
    /// The suggestions this error carries.
    pub fn suggestions(&self) -> (r: &[String])
        ensures
            texts_of(r@) == suggestions_of(*self),
    {
        match self {
            CliError::BrowserConnect { suggestions, .. } => suggestions.as_slice(),
            CliError::AdapterLoad { suggestions, .. } => suggestions.as_slice(),
            CliError::CommandExecution { suggestions, .. } => suggestions.as_slice(),
            CliError::Config { suggestions, .. } => suggestions.as_slice(),
            CliError::AuthRequired { suggestions, .. } => suggestions.as_slice(),
            CliError::Timeout { suggestions, .. } => suggestions.as_slice(),
            CliError::Argument { suggestions, .. } => suggestions.as_slice(),
            CliError::EmptyResult { suggestions, .. } => suggestions.as_slice(),
            CliError::Selector { suggestions, .. } => suggestions.as_slice(),
            CliError::Pipeline { suggestions, .. } => suggestions.as_slice(),
            CliError::Http { suggestions, .. } => suggestions.as_slice(),
            CliError::Gone { suggestions, .. } => suggestions.as_slice(),
            CliError::RateLimit { suggestions, .. } => suggestions.as_slice(),
            _ => {
                let r: &[String] = &[];
                assert(texts_of(r@) =~= Seq::<Seq<char>>::empty());
                r
            },
        }
    }

    /// The error as a JSON object: `ok` false, its code, its displayed
    /// text and its suggestions (keys in sorted order).
    pub fn to_json(&self) -> (r: JsonValue)
        ensures
            r@ == Json::Object(
                seq![
                    ("code"@, Json::Str(code_of(*self))),
                    ("error"@, Json::Str(display_of(*self))),
                    ("ok"@, Json::Bool(false)),
                    ("suggestions"@, Json::Array(suggestions_of(*self).map_values(|t: Seq<char>| Json::Str(t)))),
                ],
            ),
    {
        let sugg = self.suggestions();
        let mut items: Vec<JsonValue> = Vec::new();
        let mut i: usize = 0;
        while i < sugg.len()
            invariant
                i <= sugg.len(),
                view_items(items@) == texts_of(sugg@).take(i as int).map_values(|t: Seq<char>| Json::Str(t)),
            decreases sugg.len() - i,
        {
            let ghost prev = items@;
            items.push(JsonValue::String(sugg[i].clone()));
            proof {
                crate::json::lemma_view_items_push(prev, JsonValue::String(sugg@[i as int]));
                assert(texts_of(sugg@).take(i + 1).map_values(|t: Seq<char>| Json::Str(t)) =~= texts_of(
                    sugg@,
                ).take(i as int).map_values(|t: Seq<char>| Json::Str(t)).push(Json::Str(sugg@[i as int]@)));
            }
            i = i + 1;
        }
        assert(texts_of(sugg@).take(sugg.len() as int) =~= texts_of(sugg@));
        let mut fields: Vec<(String, JsonValue)> = Vec::new();
        let ghost f0 = fields@;
        fields.push((String::from_str("code"), JsonValue::String(String::from_str(self.code()))));
        proof {
            crate::json::lemma_view_fields_push(f0, fields@[0]);
        }
        let ghost f1 = fields@;
        fields.push((String::from_str("error"), JsonValue::String(self.display_text())));
        proof {
            crate::json::lemma_view_fields_push(f1, fields@[1]);
        }
        let ghost f2 = fields@;
        fields.push((String::from_str("ok"), JsonValue::Bool(false)));
        proof {
            crate::json::lemma_view_fields_push(f2, fields@[2]);
        }
        let ghost f3 = fields@;
        fields.push((String::from_str("suggestions"), JsonValue::Array(items)));
        proof {
            crate::json::lemma_view_fields_push(f3, fields@[3]);
            assert(view_fields(f0) =~= Seq::<(Seq<char>, Json)>::empty());
        }
        let r = JsonValue::Object(fields);
        assert(view_fields(fields@) =~= seq![
            ("code"@, Json::Str(code_of(*self))),
            ("error"@, Json::Str(display_of(*self))),
            ("ok"@, Json::Bool(false)),
            ("suggestions"@, Json::Array(suggestions_of(*self).map_values(|t: Seq<char>| Json::Str(t)))),
        ]);
        r
    }

    pub fn browser_connect(msg: &str) -> (r: CliError)
        ensures
            r is BrowserConnect,
            message_of(r) == msg@,
            suggestions_of(r).len() == 0,
    {
        CliError::BrowserConnect { message: msg.to_owned(), suggestions: Vec::new() }
    }

    pub fn argument(msg: &str) -> (r: CliError)
        ensures
            r is Argument,
            message_of(r) == msg@,
            suggestions_of(r).len() == 0,
    {
        CliError::Argument { message: msg.to_owned(), suggestions: Vec::new() }
    }

    pub fn timeout(msg: &str) -> (r: CliError)
        ensures
            r is Timeout,
            message_of(r) == msg@,
            suggestions_of(r).len() == 0,
    {
        CliError::Timeout { message: msg.to_owned(), suggestions: Vec::new() }
    }

    pub fn auth_required(msg: &str) -> (r: CliError)
        ensures
            r is AuthRequired,
            message_of(r) == msg@,
            suggestions_of(r).len() == 0,
    {
        CliError::AuthRequired { message: msg.to_owned(), suggestions: Vec::new() }
    }

    pub fn empty_result(msg: &str) -> (r: CliError)
        ensures
            r is EmptyResult,
            message_of(r) == msg@,
            suggestions_of(r).len() == 0,
    {
        CliError::EmptyResult { message: msg.to_owned(), suggestions: Vec::new() }
    }

    pub fn command_execution(msg: &str) -> (r: CliError)
        ensures
            r is CommandExecution,
            message_of(r) == msg@,
            suggestions_of(r).len() == 0,
    {
        CliError::CommandExecution { message: msg.to_owned(), suggestions: Vec::new() }
    }

    pub fn pipeline(msg: &str) -> (r: CliError)
        ensures
            r is Pipeline,
            message_of(r) == msg@,
            suggestions_of(r).len() == 0,
    {
        CliError::Pipeline { message: msg.to_owned(), suggestions: Vec::new() }
    }

    pub fn gone(msg: &str) -> (r: CliError)
        ensures
            r is Gone,
            message_of(r) == msg@,
            suggestions_of(r).len() == 0,
    {
        CliError::Gone { message: msg.to_owned(), suggestions: Vec::new() }
    }

    pub fn rate_limit(msg: &str) -> (r: CliError)
        ensures
            r is RateLimit,
            message_of(r) == msg@,
            suggestions_of(r).len() == 0,
    {
        CliError::RateLimit { message: msg.to_owned(), suggestions: Vec::new() }
    }

    /// Reclassifies an error by the codes that adapters put into the
    /// messages they throw (see `js_error_code`); other errors stay as
    /// they are.
    pub fn classify(self) -> (r: CliError)
        ensures
            match js_error_code(display_of(self)) {
                Some(c) => code_of(r) == c && message_of(r) == display_of(self) && suggestions_of(r).len()
                    == 0,
                None => r == self,
            },
    {
        let msg = self.display_text();
        match classify_js_error(msg.as_str()) {
            Some(mapped) => mapped,
            None => self,
        }
    }
}

/// The code of the error that a script message maps to: `AUTH_REQUIRED`,
/// `RATE_LIMIT`, `GONE` or `EMPTY_RESULT`, by a code anywhere in the
/// message (any case) or by common phrases of Chinese sites.
pub open spec fn js_error_code(m: Seq<char>) -> Option<Seq<char>> {
    let up = upper_seq(m);
    if contains(up, "AUTH_REQUIRED"@) || contains(m, "请确认已登录"@) || contains(m, "未登录"@) {
        Some("AUTH_REQUIRED"@)
    } else if contains(up, "RATE_LIMIT"@) || contains(m, "429"@) || contains(m, "频繁"@) || contains(
        m,
        "操作太快"@,
    ) {
        Some("RATE_LIMIT"@)
    } else if contains(up, "GONE"@) || contains(m, "已注销"@) || contains(m, "不存在"@) || contains(
        m,
        "账号已重置"@,
    ) {
        Some("GONE"@)
    } else if contains(up, "EMPTY"@) || contains(m, "没有可读取"@) || contains(m, "没有可读取的公开"@)
        || contains(m, "当前页无数据"@) {
        Some("EMPTY_RESULT"@)
    } else {
        None
    }
}

fn has_text(m: &Vec<char>, t: &str) -> (b: bool)
    ensures
        b == contains(m@, t@),
{
    let tv = chars_of(t);
    contains_exec(m, &tv)
}

/// Maps a message that an adapter script threw onto a typed error.
pub fn classify_js_error(message: &str) -> (r: Option<CliError>)
    ensures
        match r {
            Some(e) => js_error_code(message@) == Some(code_of(e)) && message_of(e) == message@
                && suggestions_of(e).len() == 0,
            None => js_error_code(message@) is None,
        },
{
    let m = chars_of(message);
    let up = to_ascii_upper(&m);
    if has_text(&up, "AUTH_REQUIRED") || has_text(&m, "请确认已登录") || has_text(&m, "未登录") {
        return Some(CliError::auth_required(message));
    }
    if has_text(&up, "RATE_LIMIT") || has_text(&m, "429") || has_text(&m, "频繁") || has_text(
        &m,
        "操作太快",
    ) {
        return Some(CliError::rate_limit(message));
    }
    if has_text(&up, "GONE") || has_text(&m, "已注销") || has_text(&m, "不存在") || has_text(
        &m,
        "账号已重置",
    ) {
        return Some(CliError::gone(message));
    }
    if has_text(&up, "EMPTY") || has_text(&m, "没有可读取") || has_text(&m, "没有可读取的公开")
        || has_text(&m, "当前页无数据") {
        return Some(CliError::empty_result(message));
    }
    None
}

/// Only a soft empty result exits with 0, so that "no rows" counts as
/// success; every other error exits with a non-zero code.
pub proof fn law_only_soft_empty_exits_zero(e: CliError)
    ensures
        (exit_code_of(e) == 0) == (e is EmptyResult),
        exit_code_of(e) != 0 ==> 1 <= exit_code_of(e) <= 4,
{
}

/// The lines an error is reported in: its icon and text, then, when it
/// has suggestions, an empty line and one `  -> ` line for each.
pub open spec fn error_lines_of(e: CliError) -> Seq<Seq<char>> {
    let head = seq![icon_of(e) + " "@ + display_of(e)];
    let sug = suggestions_of(e);
    if sug.len() == 0 {
        head
    } else {
        head + seq![Seq::<char>::empty()] + sug.map_values(|t: Seq<char>| "  -> "@ + t)
    }
}

/// The lines an error is reported in.
pub fn error_lines(e: &CliError) -> (r: Vec<String>)
    ensures
        texts_of(r@) == error_lines_of(*e),
{
    let mut head = String::from_str(e.icon());
    head.append(" ");
    head.append(e.display_text().as_str());
    let ghost hv = head@;
    assert(hv == icon_of(*e) + " "@ + display_of(*e));
    let mut out: Vec<String> = Vec::new();
    out.push(head);
    let sug = e.suggestions();
    let ghost sv = suggestions_of(*e);
    if sug.len() == 0 {
        assert(texts_of(out@) =~= error_lines_of(*e));
        return out;
    }
    proof {
        reveal_strlit("");
    }
    out.push(String::from_str(""));
    let ghost base = texts_of(out@);
    assert(out@[0]@ == hv && out@[1]@ == Seq::<char>::empty());
    assert(base =~= seq![icon_of(*e) + " "@ + display_of(*e), Seq::<char>::empty()]);
    let mut i: usize = 0;
    while i < sug.len()
        invariant
            i <= sug.len(),
            base == seq![icon_of(*e) + " "@ + display_of(*e), Seq::<char>::empty()],
            texts_of(sug@) == sv,
            sv == suggestions_of(*e),
            texts_of(out@) == base + sv.take(i as int).map_values(|t: Seq<char>| "  -> "@ + t),
        decreases sug.len() - i,
    {
        let mut line = String::from_str("  -> ");
        line.append(sug[i].as_str());
        let ghost prev = texts_of(out@);
        out.push(line);
        assert(sv[i as int] == sug@[i as int]@);
        assert(sv.take(i + 1).map_values(|t: Seq<char>| "  -> "@ + t) =~= sv.take(i as int).map_values(
            |t: Seq<char>| "  -> "@ + t,
        ).push("  -> "@ + sv[i as int]));
        assert(texts_of(out@) =~= prev.push("  -> "@ + sv[i as int]));
        i = i + 1;
    }
    assert(sv.take(sug.len() as int) =~= sv);
    assert(texts_of(out@) =~= error_lines_of(*e));
    out
}

/// Whether `c` is what classifying `e` gives (see `CliError::classify`).
pub open spec fn classified_as(e: CliError, c: CliError) -> bool {
    match js_error_code(display_of(e)) {
        Some(code) => code_of(c) == code && message_of(c) == display_of(e) && suggestions_of(c).len() == 0,
        None => c == e,
    }
}

/// An error as a JSON object (see `CliError::to_json`).
pub open spec fn error_json_of(e: CliError) -> Json {
    Json::Object(
        seq![
            ("code"@, Json::Str(code_of(e))),
            ("error"@, Json::Str(display_of(e))),
            ("ok"@, Json::Bool(false)),
            ("suggestions"@, Json::Array(suggestions_of(e).map_values(|t: Seq<char>| Json::Str(t)))),
        ],
    )
}

/// How a command's failure is reported.
#[derive(Debug)]
pub enum FailureReport {
    /// A soft empty result: this notice on the error stream, an empty
    /// result on the output, and exit code 0.
    Empty { notice: String },
    /// The error as JSON on the error stream, and this exit code.
    Json { error: JsonValue, code: i32 },
    /// The error's lines on the error stream, and this exit code.
    Text { lines: Vec<String>, code: i32 },
}

/// Reports a command's failure: the error is classified first; a soft
/// empty result is no failure; otherwise the error goes out as JSON when
/// the output format is JSON, as text lines else, with its exit code.
pub fn failure_report(e: CliError, json_output: bool) -> (r: FailureReport)
    ensures
        exists|c: CliError| {
            &&& #[trigger] classified_as(e, c)
            &&& match r {
                FailureReport::Empty { notice } => c is EmptyResult && notice@ == icon_of(c) + " "@ + display_of(c),
                FailureReport::Json { error, code } => !(c is EmptyResult) && json_output && error@ == error_json_of(c)
                    && code == exit_code_of(c),
                FailureReport::Text { lines, code } => !(c is EmptyResult) && !json_output && texts_of(lines@)
                    == error_lines_of(c) && code == exit_code_of(c),
            }
        },
{
    let c = e.classify();
    assert(classified_as(e, c));
    if c.is_soft_empty() {
        let mut notice = String::from_str(c.icon());
        notice.append(" ");
        notice.append(c.display_text().as_str());
        return FailureReport::Empty { notice };
    }
    if json_output {
        FailureReport::Json { error: c.to_json(), code: c.exit_code() }
    } else {
        FailureReport::Text { lines: error_lines(&c), code: c.exit_code() }
    }
}

} // verus!
