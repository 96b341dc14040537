//! The decisions of the `navigate` step: what its parameters ask for, and
//! whether the page is already where it should go.
use vstd::prelude::*;

use crate::download::{either_field, str_of};
use crate::error::{message_of, CliError};
use crate::json::{get_field, json_get, Json, JsonNumber, JsonValue, NumberView};
use crate::kv_steps::opt_view;
use crate::text::str_eq;

verus! {

/// What `url::Url::parse` gives as the URL's serialization (`as_str`):
/// nothing when the text is no URL. It depends on the text alone.
pub uninterp spec fn url_serialization(text: Seq<char>) -> Option<Seq<char>>;

/// Calls `url::Url::parse` and reads the serialization; the outcome is
/// named `url_serialization`, and two parsed URLs are equal exactly when
/// their serializations are (`impl PartialEq for Url`).
#[verifier::external_body]
fn serialization(text: &str) -> (r: Option<String>)
    ensures
        match r {
            Some(s) => url_serialization(text@) == Some(s@),
            None => url_serialization(text@) is None,
        },
{
    match url::Url::parse(text) {
        Ok(u) => Some(u.as_str().to_string()),
        Err(_) => None,
    }
}

/// Whether two URLs name the same document: their parsed forms are equal
/// when both parse, their texts are equal otherwise.
pub open spec fn same_document(current: Seq<char>, target: Seq<char>) -> bool {
    match (url_serialization(current), url_serialization(target)) {
        (Some(a), Some(b)) => a == b,
        _ => current == target,
    }
}

/// Whether the page at `current_url` already shows `target_url`.
pub fn same_document_url(current_url: &str, target_url: &str) -> (r: bool)
    ensures
        r == same_document(current_url@, target_url@),
{
    match (serialization(current_url), serialization(target_url)) {
        (Some(a), Some(b)) => str_eq(a.as_str(), b.as_str()),
        _ => str_eq(current_url, target_url),
    }
}

/// What a `navigate` step asks for, before its URL template is rendered.
#[derive(Debug)]
pub struct NavigateRequest {
    /// The URL template.
    pub url: String,
    /// How long to let the page settle afterwards, in milliseconds.
    pub settle_ms: Option<u64>,
    /// The load state to wait for.
    pub wait_until: Option<String>,
    /// Whether an open page already at the URL is kept.
    pub reuse_current: bool,
}

/// A number parameter read as an unsigned integer (`as_u64`).
pub open spec fn u64_of(v: Option<Json>) -> Option<u64> {
    match v {
        Some(Json::Number(NumberView::PosInt(n))) => Some(n),
        _ => None,
    }
}

/// A boolean parameter read as one, if it is one.
pub open spec fn bool_of(v: Option<Json>) -> Option<bool> {
    match v {
        Some(Json::Bool(b)) => Some(b),
        _ => None,
    }
}

/// The model of a navigate request: URL, settle time, load state, reuse.
pub open spec fn request_view(r: NavigateRequest) -> (Seq<char>, Option<u64>, Option<Seq<char>>, bool) {
    (r.url@, r.settle_ms, opt_view(r.wait_until), r.reuse_current)
}

/// What a `navigate` step's parameters ask for: a string is the URL; an
/// object gives `url` (required, a string), `settleMs`, `waitUntil` (or
/// `wait_until`) and `reuseCurrent` (or `reuse_current`, default false).
pub open spec fn navigate_request_of(params: Json) -> Result<
    (Seq<char>, Option<u64>, Option<Seq<char>>, bool),
    Seq<char>,
> {
    match params {
        Json::Str(s) => Ok((s, None, None, false)),
        Json::Object(_) => match json_get(params, "url"@) {
            None => Err("navigate object requires 'url' field"@),
            Some(Json::Str(u)) => Ok(
                (
                    u,
                    u64_of(json_get(params, "settleMs"@)),
                    str_of(either_field(params, "waitUntil"@, "wait_until"@)),
                    match bool_of(either_field(params, "reuseCurrent"@, "reuse_current"@)) {
                        Some(b) => b,
                        None => false,
                    },
                ),
            ),
            Some(_) => Err("navigate 'url' must be a string"@),
        },
        _ => Err("navigate expects a string URL or {url, settleMs} object"@),
    }
}

fn first_of<'a>(v: &'a JsonValue, a: &str, b: &str) -> (r: Option<&'a JsonValue>)
    ensures
        match r {
            Some(x) => either_field(v@, a@, b@) == Some(x@),
            None => either_field(v@, a@, b@) is None,
        },
{
    match get_field(v, a) {
        Some(x) => Some(x),
        None => get_field(v, b),
    }
}

/// Reads a `navigate` step's parameters.
pub fn navigate_request(params: &JsonValue) -> (r: Result<NavigateRequest, CliError>)
    ensures
        match r {
            Ok(req) => navigate_request_of(params@) == Ok::<_, Seq<char>>(request_view(req)),
            Err(e) => e is Pipeline && navigate_request_of(params@) == Err::<
                (Seq<char>, Option<u64>, Option<Seq<char>>, bool),
                Seq<char>,
            >(message_of(e)),
        },
{
    match params {
        JsonValue::String(s) => Ok(
            NavigateRequest { url: s.clone(), settle_ms: None, wait_until: None, reuse_current: false },
        ),
        JsonValue::Object(_) => {
            let url = match get_field(params, "url") {
                None => {
                    return Err(CliError::pipeline("navigate object requires 'url' field"));
                },
                Some(JsonValue::String(u)) => u.clone(),
                Some(_) => {
                    return Err(CliError::pipeline("navigate 'url' must be a string"));
                },
            };
            let settle_ms = match get_field(params, "settleMs") {
                Some(JsonValue::Number(JsonNumber::PosInt(n))) => Some(*n),
                _ => None,
            };
            let wait_until = match first_of(params, "waitUntil", "wait_until") {
                Some(JsonValue::String(w)) => Some(w.clone()),
                _ => None,
            };
            let reuse_current = match first_of(params, "reuseCurrent", "reuse_current") {
                Some(JsonValue::Bool(b)) => *b,
                _ => false,
            };
            Ok(NavigateRequest { url, settle_ms, wait_until, reuse_current })
        },
        _ => Err(CliError::pipeline("navigate expects a string URL or {url, settleMs} object")),
    }
}

/// Whether the step leaves the page where it is: only when asked to reuse
/// it and it already shows the target.
pub fn navigation_needed(reuse_current: bool, current_url: &str, target_url: &str) -> (r: bool)
    ensures
        r == !(reuse_current && same_document(current_url@, target_url@)),
{
    !(reuse_current && same_document_url(current_url, target_url))
}

} // verus!
