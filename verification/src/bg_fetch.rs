//! The decisions of the `bg_fetch` step: what its parameters ask for,
//! which way a request goes (through the extension's service worker, or
//! from a page of the target's origin, which the step falls back to), when
//! that page must first be loaded, and what the page runs.
use vstd::prelude::*;

use crate::download::str_at;
use crate::error::{message_of, CliError};
use crate::extension::{parse_url, parsed_url};
use crate::json::{
    get_field, json_get, lemma_view_fields_index, lemma_view_fields_len, lemma_view_fields_push,
    view_fields, Json,
    JsonValue,
};
use crate::json_text::{json_serialized, json_text};
use crate::kv_steps::opt_view;
use crate::text::str_eq;

verus! {

// ---------------------------------------------------------------------------
// Parameters
// ---------------------------------------------------------------------------

/// The fields of an object whose values are strings, in order, with their
/// texts; the others are left out.
pub open spec fn string_fields(fields: Seq<(Seq<char>, Json)>) -> Seq<(Seq<char>, Seq<char>)>
    decreases fields.len(),
{
    if fields.len() == 0 {
        Seq::empty()
    } else {
        let rest = string_fields(fields.drop_last());
        match fields.last().1 {
            Json::Str(s) => rest.push((fields.last().0, s)),
            _ => rest,
        }
    }
}

/// The request headers: the string fields of the `headers` object, none
/// when there is no such object.
pub open spec fn headers_of(params: Json) -> Option<Seq<(Seq<char>, Seq<char>)>> {
    match json_get(params, "headers"@) {
        Some(Json::Object(f)) => Some(string_fields(f)),
        _ => None,
    }
}

/// Whether the step asks to fetch from a page of the target's origin
/// right away: `same_origin: true`; anything else is no.
pub open spec fn same_origin_of(params: Json) -> bool {
    match json_get(params, "same_origin"@) {
        Some(Json::Bool(b)) => b,
        _ => false,
    }
}

pub open spec fn pairs_view(v: Vec<(String, String)>) -> Seq<(Seq<char>, Seq<char>)> {
    v@.map_values(|p: (String, String)| (p.0@, p.1@))
}

pub open spec fn opt_pairs_view(o: Option<Vec<(String, String)>>) -> Option<Seq<(Seq<char>, Seq<char>)>> {
    match o {
        Some(v) => Some(pairs_view(v)),
        None => None,
    }
}

/// What a `bg_fetch` step sends.
#[derive(Debug)]
pub struct BgFetchRequest {
    /// The rendered URL.
    pub url: String,
    /// The rendered URL whose cookies go with the request, if given.
    pub cookie_url: Option<String>,
    pub method: Option<String>,
    pub headers: Option<Vec<(String, String)>>,
    pub body: Option<String>,
    /// Whether to skip the service worker and fetch from a page of the
    /// target's origin.
    pub same_origin: bool,
}

/// The URL whose origin a same-origin request is made from: the cookie
/// URL when given, else the URL.
pub open spec fn context_url_of(url: Seq<char>, cookie_url: Option<Seq<char>>) -> Seq<char> {
    match cookie_url {
        Some(c) => c,
        None => url,
    }
}

impl BgFetchRequest {
    /// The URL a same-origin request is made from.
    pub fn context_url(&self) -> (r: &str)
        ensures
            r@ == context_url_of(self.url@, opt_view(self.cookie_url)),
    {
        match &self.cookie_url {
            Some(c) => c.as_str(),
            None => self.url.as_str(),
        }
    }
}

fn text_param(v: &JsonValue, k: &str) -> (r: Option<String>)
    ensures
        opt_view(r) == str_at(v@, k@),
{
    match get_field(v, k) {
        Some(JsonValue::String(s)) => Some(s.clone()),
        _ => None,
    }
}

fn string_pairs(fields: &Vec<(String, JsonValue)>) -> (r: Vec<(String, String)>)
    ensures
        pairs_view(r) == string_fields(view_fields(fields@)),
{
    let ghost f = view_fields(fields@);
    proof {
        lemma_view_fields_len(fields@);
    }
    let mut out: Vec<(String, String)> = Vec::new();
    let mut i: usize = 0;
    assert(f.take(0) =~= Seq::<(Seq<char>, Json)>::empty());
    while i < fields.len()
        invariant
            i <= fields.len(),
            f == view_fields(fields@),
            f.len() == fields@.len(),
            pairs_view(out) == string_fields(f.take(i as int)),
        decreases fields.len() - i,
    {
        proof {
            lemma_view_fields_index(fields@, i as int);
            assert(f.take(i + 1).drop_last() =~= f.take(i as int));
            assert(f.take(i + 1).last() == f[i as int]);
        }
        match &fields[i].1 {
            JsonValue::String(s) => {
                out.push((fields[i].0.clone(), s.clone()));
                assert(pairs_view(out) =~= string_fields(f.take(i as int)).push((f[i as int].0, s@)));
            },
            _ => {},
        }
        i = i + 1;
    }
    assert(f.take(fields.len() as int) =~= f);
    out
}

/// Reads a `bg_fetch` step's parameters. The `url` and `cookie_url`
/// templates come rendered: each is given exactly when the parameter is a
/// string. Without a URL the step fails.
pub fn bg_fetch_request(params: &JsonValue, url: Option<String>, cookie_url: Option<String>) -> (r:
    Result<BgFetchRequest, CliError>)
    requires
        (url is Some) == (str_at(params@, "url"@) is Some),
        (cookie_url is Some) == (str_at(params@, "cookie_url"@) is Some),
    ensures
        match r {
            Ok(q) => {
                &&& url matches Some(u) && q.url@ == u@
                &&& opt_view(q.cookie_url) == opt_view(cookie_url)
                &&& opt_view(q.method) == str_at(params@, "method"@)
                &&& opt_pairs_view(q.headers) == headers_of(params@)
                &&& opt_view(q.body) == str_at(params@, "body"@)
                &&& q.same_origin == same_origin_of(params@)
            },
            Err(e) => url is None && e is Pipeline && message_of(e)
                == "bg_fetch: missing required field 'url'"@,
        },
{
    let url = match url {
        Some(u) => u,
        None => {
            return Err(CliError::pipeline("bg_fetch: missing required field 'url'"));
        },
    };
    let headers = match get_field(params, "headers") {
        Some(JsonValue::Object(f)) => Some(string_pairs(f)),
        _ => None,
    };
    let same_origin = match get_field(params, "same_origin") {
        Some(JsonValue::Bool(b)) => *b,
        _ => false,
    };
    Ok(
        BgFetchRequest {
            url,
            cookie_url,
            method: text_param(params, "method"),
            headers,
            body: text_param(params, "body"),
            same_origin,
        },
    )
}

// ---------------------------------------------------------------------------
// Routes
// ---------------------------------------------------------------------------

/// The two ways a request goes.
#[derive(Debug, Clone, Copy, PartialEq, Eq, Structural)]
pub enum FetchRoute {
    /// Through the extension's service worker, with the browser's cookies.
    Background,
    /// From a page of the context URL's origin, as a first-party request.
    SamePage,
}

/// The route to try next, given the one that just failed (none before the
/// first try): a same-origin step goes to the page at once, another tries
/// the service worker first and falls back to the page; a failure on the
/// page is the step's error.
pub open spec fn next_route_of(same_origin: bool, failed: Option<FetchRoute>) -> Option<FetchRoute> {
    match failed {
        None => if same_origin {
            Some(FetchRoute::SamePage)
        } else {
            Some(FetchRoute::Background)
        },
        Some(FetchRoute::Background) => Some(FetchRoute::SamePage),
        Some(FetchRoute::SamePage) => None,
    }
}

/// The route a request takes next; none when the last one failed for good.
pub fn next_route(req: &BgFetchRequest, failed: Option<FetchRoute>) -> (r: Option<FetchRoute>)
    ensures
        r == next_route_of(req.same_origin, failed),
{
    match failed {
        None => if req.same_origin {
            Some(FetchRoute::SamePage)
        } else {
            Some(FetchRoute::Background)
        },
        Some(FetchRoute::Background) => Some(FetchRoute::SamePage),
        Some(FetchRoute::SamePage) => None,
    }
}

/// The origin of a text: none when it is no URL; else its serialized
/// tuple origin, none inside when the origin is opaque.
pub open spec fn origin_of(text: Seq<char>) -> Option<Option<Seq<char>>> {
    match parsed_url(text) {
        Some(p) => Some(p.3),
        None => None,
    }
}

/// Whether the page must load the context URL before a same-origin
/// request: the origins of the page's current URL and of the context URL
/// differ. Two texts that are no URLs have the same, absent origin; an
/// opaque origin differs from every other.
pub open spec fn needs_context_load(current: Seq<char>, context: Seq<char>) -> bool {
    match (origin_of(current), origin_of(context)) {
        (None, None) => false,
        (Some(Some(a)), Some(Some(b))) => a != b,
        _ => true,
    }
}

/// Whether a page at `current_url` must first load `context_url`.
pub fn context_load_needed(current_url: &str, context_url: &str) -> (b: bool)
    ensures
        b == needs_context_load(current_url@, context_url@),
{
    match (parse_url(current_url), parse_url(context_url)) {
        (None, None) => false,
        (Some(a), Some(b)) => match (&a.origin, &b.origin) {
            (Some(x), Some(y)) => !str_eq(x.as_str(), y.as_str()),
            _ => true,
        },
        _ => true,
    }
}

/// Where a same-origin request first takes the page, and which load
/// state it waits for: the context URL, when the page is not on its origin
/// yet, waiting only for the navigation to commit (the `fetch` needs a
/// first-party document, not its images or scripts); nowhere otherwise.
pub fn context_goto(req: &BgFetchRequest, current_url: &str) -> (r: Option<(String, &'static str)>)
    ensures
        match r {
            Some((url, wait_until)) => needs_context_load(
                current_url@,
                context_url_of(req.url@, opt_view(req.cookie_url)),
            ) && url@ == context_url_of(req.url@, opt_view(req.cookie_url)) && wait_until@ == "commit"@,
            None => !needs_context_load(current_url@, context_url_of(req.url@, opt_view(req.cookie_url))),
        },
{
    let context = req.context_url();
    if context_load_needed(current_url, context) {
        Some((context.to_owned(), "commit"))
    } else {
        None
    }
}

/// A request is tried at most twice and ends on the page: the first route
/// is the page exactly for a same-origin step, a failed service-worker
/// try moves to the page, and a failure on the page ends the step.
pub proof fn law_fetch_ends_on_the_page(same_origin: bool)
    ensures
        next_route_of(same_origin, None) == Some(
            if same_origin {
                FetchRoute::SamePage
            } else {
                FetchRoute::Background
            },
        ),
        next_route_of(same_origin, Some(FetchRoute::Background)) == Some(FetchRoute::SamePage),
        next_route_of(same_origin, Some(FetchRoute::SamePage)) is None,
{
}

/// A page already at a URL of the context's origin is reused: a text whose
/// origin is a tuple, or that is no URL, needs no load of itself.
pub proof fn law_same_origin_needs_no_load(current: Seq<char>, context: Seq<char>)
    requires
        origin_of(current) == origin_of(context),
        origin_of(current) != Some(None::<Seq<char>>),
    ensures
        !needs_context_load(current, context),
{
}

// ---------------------------------------------------------------------------
// The request made from the page
// ---------------------------------------------------------------------------

pub open spec fn header_fields(h: Seq<(Seq<char>, Seq<char>)>) -> Seq<(Seq<char>, Json)> {
    h.map_values(|p: (Seq<char>, Seq<char>)| (p.0, Json::Str(p.1)))
}

/// The `init` object of the page's `fetch`: the method (`GET` unless
/// given), the headers (none when not given), the body (null when not
/// given), and the browser's credentials.
pub open spec fn fetch_init_of(
    method: Option<Seq<char>>,
    headers: Option<Seq<(Seq<char>, Seq<char>)>>,
    body: Option<Seq<char>>,
) -> Json {
    Json::Object(
        seq![
            ("body"@, match body {
                Some(b) => Json::Str(b),
                None => Json::Null,
            }),
            ("credentials"@, Json::Str("include"@)),
            ("headers"@, Json::Object(header_fields(
                match headers {
                    Some(h) => h,
                    None => Seq::empty(),
                },
            ))),
            ("method"@, Json::Str(
                match method {
                    Some(m) => m,
                    None => "GET"@,
                },
            )),
        ],
    )
}

/// The `init` object of the page's `fetch` for a request.
pub fn fetch_init(req: &BgFetchRequest) -> (r: JsonValue)
    ensures
        r@ == fetch_init_of(opt_view(req.method), opt_pairs_view(req.headers), opt_view(req.body)),
{
    let mut hs: Vec<(String, JsonValue)> = Vec::new();
    let ghost given: Seq<(Seq<char>, Seq<char>)> = match &req.headers {
        Some(h) => pairs_view(*h),
        None => Seq::empty(),
    };
    match &req.headers {
        Some(h) => {
            let mut i: usize = 0;
            while i < h.len()
                invariant
                    i <= h.len(),
                    given == pairs_view(*h),
                    view_fields(hs@) =~= header_fields(given.take(i as int)),
                decreases h.len() - i,
            {
                let ghost prev = hs@;
                let k = h[i].0.clone();
                let v = h[i].1.clone();
                proof {
                    lemma_view_fields_push(prev, (k, JsonValue::String(v)));
                    assert(given.take(i + 1) =~= given.take(i as int).push((k@, v@)));
                }
                hs.push((k, JsonValue::String(v)));
                i = i + 1;
            }
            assert(given.take(h.len() as int) =~= given);
        },
        None => {
            assert(view_fields(hs@) =~= header_fields(given));
        },
    }
    let mut f: Vec<(String, JsonValue)> = Vec::new();
    f.push((String::from_str("body"), match &req.body {
        Some(b) => JsonValue::String(b.clone()),
        None => JsonValue::Null,
    }));
    f.push((String::from_str("credentials"), JsonValue::String(String::from_str("include"))));
    f.push((String::from_str("headers"), JsonValue::Object(hs)));
    f.push((String::from_str("method"), JsonValue::String(
        match &req.method {
            Some(m) => m.clone(),
            None => String::from_str("GET"),
        },
    )));
    proof {
        reveal_with_fuel(view_fields, 5);
        assert(view_fields(hs@) =~= header_fields(given));
        assert(view_fields(f@) =~= fetch_init_of(
            opt_view(req.method),
            opt_pairs_view(req.headers),
            opt_view(req.body),
        )->Object_0);
    }
    JsonValue::Object(f)
}

/// The script the page runs for a same-origin request, given the URL and
/// the `init` object as JSON texts: it fetches with the browser's
/// credentials, fails on a status that is not OK (with up to 400
/// characters of the answer), and answers the status and the body, parsed
/// when the answer says it is JSON.
pub open spec fn same_origin_script_of(url_json: Seq<char>, init_json: Seq<char>) -> Seq<char> {
    "(async () => {\n  const response = await fetch("@ + url_json + ", "@ + init_json
        + ");\n  const text = await response.text();\n  if (!response.ok) throw new Error(`HTTP ${response.status}: ${text.slice(0, 400)}`);\n  let body = text;\n  if ((response.headers.get('content-type') || '').includes('application/json')) {\n    try { body = JSON.parse(text); } catch {}\n  }\n  return { status: response.status, body };\n})()"@
}

/// Builds the script of a same-origin request for a URL and the `fetch`
/// options, both written as JSON.
pub fn same_origin_script(url: &str, init: &JsonValue) -> (r: String)
    ensures
        r@ == same_origin_script_of(json_serialized(Json::Str(url@)), json_serialized(init@)),
{
    let url_json = json_text(&JsonValue::String(url.to_owned()));
    let init_json = json_text(init);
    let mut s = String::from_str("(async () => {\n  const response = await fetch(");
    s.append(url_json.as_str());
    s.append(", ");
    s.append(init_json.as_str());
    s.append(
        ");\n  const text = await response.text();\n  if (!response.ok) throw new Error(`HTTP ${response.status}: ${text.slice(0, 400)}`);\n  let body = text;\n  if ((response.headers.get('content-type') || '').includes('application/json')) {\n    try { body = JSON.parse(text); } catch {}\n  }\n  return { status: response.status, body };\n})()",
    );
    s
}

} // verus!
