//! The decisions of the page steps `evaluate`, `scroll` and `collect`: what
//! their parameters ask for and the scripts they run in the page.
use vstd::prelude::*;

use crate::download::str_at;
use crate::error::{message_of, CliError};
use crate::json::{get_field, json_get, lemma_view_fields_index, lemma_view_fields_len, view_fields, Json, JsonNumber, JsonValue, NumberView};
use crate::json_text::{json_serialized, json_text};
use crate::kv_steps::opt_view;
use crate::text::str_eq;

verus! {

/// The first string value among an object's fields, in order.
pub open spec fn first_string(fields: Seq<(Seq<char>, Json)>) -> Option<Seq<char>>
    decreases fields.len(),
{
    if fields.len() == 0 {
        None
    } else {
        match fields[0].1 {
            Json::Str(s) => Some(s),
            _ => first_string(fields.drop_first()),
        }
    }
}

/// What an `evaluate` step asks for: the script (a string parameter, or
/// an object's `js` field, else its first string value) and, when the
/// object says `format: raw`, the path template the result is dumped to
/// (`path`, default `./data/raw_{ts}.json`).
pub open spec fn evaluate_request_of(params: Json) -> Result<(Seq<char>, Option<Seq<char>>), Seq<char>> {
    match params {
        Json::Str(s) => Ok((s, None)),
        Json::Object(fields) => {
            let js = match str_at(params, "js"@) {
                Some(j) => Some(j),
                None => first_string(fields),
            };
            match js {
                None => Err("evaluate: object form requires a js code string"@),
                Some(j) => Ok(
                    (
                        j,
                        if str_at(params, "format"@) == Some("raw"@) {
                            Some(
                                match str_at(params, "path"@) {
                                    Some(p) => p,
                                    None => "./data/raw_{ts}.json"@,
                                },
                            )
                        } else {
                            None
                        },
                    ),
                ),
            }
        },
        _ => Err("evaluate: params must be a string or {js?, format?, path?} object"@),
    }
}

fn text_param(v: &JsonValue, k: &str) -> (r: Option<String>)
    ensures
        opt_view(r) == str_at(v@, k@),
{
    match get_field(v, k) {
        Some(JsonValue::String(s)) => Some(s.clone()),
        _ => None,
    }
}

fn first_string_field(fields: &Vec<(String, JsonValue)>) -> (r: Option<String>)
    ensures
        opt_view(r) == first_string(view_fields(fields@)),
{
    let ghost f = view_fields(fields@);
    proof {
        lemma_view_fields_len(fields@);
    }
    let mut i: usize = 0;
    assert(f.skip(0) =~= f);
    while i < fields.len()
        invariant
            i <= fields.len(),
            f == view_fields(fields@),
            f.len() == fields@.len(),
            first_string(f) == first_string(f.skip(i as int)),
        decreases fields.len() - i,
    {
        proof {
            lemma_view_fields_index(fields@, i as int);
            assert(f.skip(i as int).drop_first() =~= f.skip(i + 1));
            assert(f.skip(i as int)[0] == f[i as int]);
        }
        match &fields[i].1 {
            JsonValue::String(s) => {
                return Some(s.clone());
            },
            _ => {},
        }
        i = i + 1;
    }
    assert(f.skip(i as int) =~= Seq::<(Seq<char>, Json)>::empty());
    None
}

/// Reads an `evaluate` step's parameters: its script, and where its result
/// is dumped, if anywhere.
pub fn evaluate_request(params: &JsonValue) -> (r: Result<(String, Option<String>), CliError>)
    ensures
        match r {
            Ok((js, dump)) => evaluate_request_of(params@) == Ok::<(Seq<char>, Option<Seq<char>>), Seq<char>>(
                (js@, opt_view(dump)),
            ),
            Err(e) => e is Pipeline && evaluate_request_of(params@) == Err::<
                (Seq<char>, Option<Seq<char>>),
                Seq<char>,
            >(message_of(e)),
        },
{
    proof {
        assert(first_string(Seq::<(Seq<char>, Json)>::empty()) is None);
    }
    match params {
        JsonValue::String(s) => Ok((s.clone(), None)),
        JsonValue::Object(fields) => {
            let js = match text_param(params, "js") {
                Some(j) => Some(j),
                None => first_string_field(fields),
            };
            let js = match js {
                Some(j) => j,
                None => {
                    return Err(CliError::pipeline("evaluate: object form requires a js code string"));
                },
            };
            let is_raw = match text_param(params, "format") {
                Some(f) => str_eq(f.as_str(), "raw"),
                None => false,
            };
            let dump = if is_raw {
                Some(
                    match text_param(params, "path") {
                        Some(p) => p,
                        None => String::from_str("./data/raw_{ts}.json"),
                    },
                )
            } else {
                None
            };
            Ok((js, dump))
        },
        _ => Err(CliError::pipeline("evaluate: params must be a string or {js?, format?, path?} object")),
    }
}

/// The script an `evaluate` step runs: its code wrapped in a function that
/// binds `args` and `data` (given as JSON texts).
pub open spec fn evaluate_script_of(args_json: Seq<char>, data_json: Seq<char>, js: Seq<char>) -> Seq<char> {
    "(function() { const args = "@ + args_json + "; const data = "@ + data_json + "; return ("@ + js
        + "); })()"@
}

/// Wraps an `evaluate` step's code, with the step's arguments (as an
/// object) and its data written as JSON.
pub fn evaluate_script(args: &JsonValue, data: &JsonValue, js: &str) -> (r: String)
    ensures
        r@ == evaluate_script_of(json_serialized(args@), json_serialized(data@), js@),
{
    let args_json = json_text(args);
    let data_json = json_text(data);
    let mut s = String::from_str("(function() { const args = ");
    s.append(args_json.as_str());
    s.append("; const data = ");
    s.append(data_json.as_str());
    s.append("; return (");
    s.append(js);
    s.append("); })()");
    s
}

/// A count read as an unsigned integer and cut to 32 bits, as `as u32`
/// does; `fallback` when it is no unsigned integer.
pub open spec fn count_of(v: Option<Json>, fallback: u32) -> u32 {
    match v {
        Some(Json::Number(NumberView::PosInt(n))) => (n % 0x1_0000_0000) as u32,
        _ => fallback,
    }
}

/// How a `scroll` step scrolls: how many times and how long it pauses
/// (ms). A number is the count; an object gives `count` and `delay`;
/// anything else scrolls three times. The pause is 300 ms unless given.
pub open spec fn scroll_settings_of(params: Json) -> (u32, u64) {
    match params {
        Json::Number(_) => (count_of(Some(params), 3), 300),
        Json::Object(_) => (
            count_of(json_get(params, "count"@), 3),
            match json_get(params, "delay"@) {
                Some(Json::Number(NumberView::PosInt(d))) => d,
                _ => 300,
            },
        ),
        _ => (3, 300),
    }
}

fn count_from(v: Option<&JsonValue>, fallback: u32) -> (r: u32)
    ensures
        r == count_of(
            match v {
                Some(x) => Some(x@),
                None => None,
            },
            fallback,
        ),
{
    match v {
        Some(JsonValue::Number(JsonNumber::PosInt(n))) => (*n % 0x1_0000_0000) as u32,
        _ => fallback,
    }
}

/// How a `scroll` step with number, object or no parameters scrolls; a
/// string parameter is a template, which the caller renders and passes
/// back as a number.
pub fn scroll_settings(params: &JsonValue) -> (r: (u32, u64))
    ensures
        r == scroll_settings_of(params@),
{
    match params {
        JsonValue::Number(_) => (count_from(Some(params), 3), 300),
        JsonValue::Object(_) => {
            let count = count_from(get_field(params, "count"), 3);
            let delay = match get_field(params, "delay") {
                Some(JsonValue::Number(JsonNumber::PosInt(d))) => *d,
                _ => 300,
            };
            (count, delay)
        },
        _ => (3, 300),
    }
}

/// The script a `collect` step runs: it takes the requests the page
/// intercepted, clears them, and hands them to the step's parse function.
pub open spec fn collect_script_of(args_json: Seq<char>, parse_fn: Seq<char>) -> Seq<char> {
    "(() => {\n  const args = "@ + args_json
        + ";\n  const requests = window.__opencli_intercepted || [];\n  window.__opencli_intercepted = [];\n  const parseFn = "@
        + parse_fn + ";\n  return parseFn(requests);\n})()"@
}

/// The script of a `collect` step, which needs a `parse` function; the
/// step's arguments (as an object) are written as JSON.
pub fn collect_script(params: &JsonValue, args: &JsonValue) -> (r: Result<String, CliError>)
    ensures
        match r {
            Ok(s) => str_at(params@, "parse"@) matches Some(p) && s@ == collect_script_of(json_serialized(args@), p),
            Err(e) => str_at(params@, "parse"@) is None && e is Pipeline && message_of(e)
                == "collect step requires a 'parse' field with a JS function"@,
        },
{
    match text_param(params, "parse") {
        Some(p) => {
            let args_json = json_text(args);
            let mut s = String::from_str("(() => {\n  const args = ");
            s.append(args_json.as_str());
            s.append(";\n  const requests = window.__opencli_intercepted || [];\n  window.__opencli_intercepted = [];\n  const parseFn = ");
            s.append(p.as_str());
            s.append(";\n  return parseFn(requests);\n})()");
            Ok(s)
        },
        None => Err(CliError::pipeline("collect step requires a 'parse' field with a JS function")),
    }
}

/// What a `wait` step waits for.
#[derive(Debug)]
pub enum WaitRequest {
    /// A pause of so many seconds; none stands for one second.
    Seconds(Option<JsonNumber>),
    /// An element that matches a CSS selector.
    Selector(String),
    /// A text in the page's body.
    Text(String),
}

/// The model of a `wait` request.
pub enum WaitView {
    Seconds(Option<NumberView>),
    Selector(Seq<char>),
    Text(Seq<char>),
}

impl View for WaitRequest {
    type V = WaitView;

    open spec fn view(&self) -> WaitView {
        match self {
            WaitRequest::Seconds(Some(n)) => WaitView::Seconds(Some(n@)),
            WaitRequest::Seconds(None) => WaitView::Seconds(None),
            WaitRequest::Selector(s) => WaitView::Selector(s@),
            WaitRequest::Text(t) => WaitView::Text(t@),
        }
    }
}

/// What a `wait` step's parameters ask for: a number is seconds; an
/// object gives `time` (seconds; one when it is no number), else a
/// `selector`, else a `text`, each of which must be a string.
pub open spec fn wait_request_of(params: Json) -> Result<WaitView, Seq<char>> {
    match params {
        Json::Number(n) => Ok(WaitView::Seconds(Some(n))),
        Json::Object(_) => match json_get(params, "time"@) {
            Some(t) => Ok(
                WaitView::Seconds(
                    match t {
                        Json::Number(n) => Some(n),
                        _ => None,
                    },
                ),
            ),
            None => match json_get(params, "selector"@) {
                Some(Json::Str(s)) => Ok(WaitView::Selector(s)),
                Some(_) => Err("wait: 'selector' must be a string"@),
                None => match json_get(params, "text"@) {
                    Some(Json::Str(t)) => Ok(WaitView::Text(t)),
                    Some(_) => Err("wait: 'text' must be a string"@),
                    None => Err("wait: object must have 'time', 'selector', or 'text'"@),
                },
            },
        },
        _ => Err("wait: params must be a number or object"@),
    }
}

/// Reads a `wait` step's parameters.
pub fn wait_request(params: &JsonValue) -> (r: Result<WaitRequest, CliError>)
    ensures
        match r {
            Ok(w) => wait_request_of(params@) == Ok::<WaitView, Seq<char>>(w@),
            Err(e) => e is Pipeline && wait_request_of(params@) == Err::<WaitView, Seq<char>>(
                message_of(e),
            ),
        },
{
    match params {
        JsonValue::Number(n) => Ok(WaitRequest::Seconds(Some(n.duplicate()))),
        JsonValue::Object(_) => match get_field(params, "time") {
            Some(JsonValue::Number(n)) => Ok(WaitRequest::Seconds(Some(n.duplicate()))),
            Some(_) => Ok(WaitRequest::Seconds(None)),
            None => match get_field(params, "selector") {
                Some(JsonValue::String(s)) => Ok(WaitRequest::Selector(s.clone())),
                Some(_) => Err(CliError::pipeline("wait: 'selector' must be a string")),
                None => match get_field(params, "text") {
                    Some(JsonValue::String(t)) => Ok(WaitRequest::Text(t.clone())),
                    Some(_) => Err(CliError::pipeline("wait: 'text' must be a string")),
                    None => Err(
                        CliError::pipeline("wait: object must have 'time', 'selector', or 'text'"),
                    ),
                },
            },
        },
        _ => Err(CliError::pipeline("wait: params must be a number or object")),
    }
}

/// The script that waits for a text, given as a JSON string: it resolves
/// once the page's body text holds it and rejects after 30 s.
pub open spec fn wait_text_script_of(text_json: Seq<char>) -> Seq<char> {
    "new Promise((resolve, reject) => {\n                            const timeout = setTimeout(() => reject(new Error('Timeout waiting for text')), 30000);\n                            const check = () => {\n                                if (document.body.innerText.includes("@
        + text_json
        + ")) {\n                                    clearTimeout(timeout);\n                                    resolve(true);\n                                } else {\n                                    requestAnimationFrame(check);\n                                }\n                            };\n                            check();\n                        })"@
}

/// Builds the script that waits for a text, written as a JSON string.
pub fn wait_text_script(text: &str) -> (r: String)
    ensures
        r@ == wait_text_script_of(json_serialized(Json::Str(text@))),
{
    let text_json = json_text(&JsonValue::String(text.to_owned()));
    let mut s = String::from_str(
        "new Promise((resolve, reject) => {\n                            const timeout = setTimeout(() => reject(new Error('Timeout waiting for text')), 30000);\n                            const check = () => {\n                                if (document.body.innerText.includes(",
    );
    s.append(text_json.as_str());
    s.append(
        ")) {\n                                    clearTimeout(timeout);\n                                    resolve(true);\n                                } else {\n                                    requestAnimationFrame(check);\n                                }\n                            };\n                            check();\n                        })",
    );
    s
}

} // verus!
