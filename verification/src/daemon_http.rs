//! The access decisions of the daemon's HTTP endpoints: who may read the
//! task list, which CORS headers answer the extension, and how a command
//! request is gated and answered.
use vstd::prelude::*;

use crate::text::{starts_with, str_starts_with};

verus! {

/// Whether a request's `Origin` is a Chrome extension.
pub open spec fn extension_origin(origin: Option<Seq<char>>) -> bool {
    match origin {
        Some(o) => starts_with(o, "chrome-extension://"@),
        None => false,
    }
}

pub open spec fn opt_str(o: Option<&str>) -> Option<Seq<char>> {
    match o {
        Some(s) => Some(s@),
        None => None,
    }
}

/// Whether a request comes from a Chrome extension page.
pub fn is_extension_origin(origin: Option<&str>) -> (r: bool)
    ensures
        r == extension_origin(opt_str(origin)),
{
    match origin {
        Some(o) => str_starts_with(o, "chrome-extension://"),
        None => false,
    }
}

/// The CORS headers a response gets: for an extension origin, that origin,
/// the allowed methods and headers, and `Vary: Origin`; none otherwise.
pub open spec fn cors_headers_of(
    origin: Option<Seq<char>>,
    methods: Seq<char>,
    allowed: Seq<char>,
) -> Seq<(Seq<char>, Seq<char>)> {
    if extension_origin(origin) {
        seq![
            ("access-control-allow-origin"@, origin->0),
            ("access-control-allow-methods"@, methods),
            ("access-control-allow-headers"@, allowed),
            ("vary"@, "Origin"@),
        ]
    } else {
        Seq::empty()
    }
}

pub open spec fn header_pairs(v: Seq<(String, String)>) -> Seq<(Seq<char>, Seq<char>)> {
    v.map_values(|p: (String, String)| (p.0@, p.1@))
}

/// The CORS headers for a response to `origin`.
pub fn cors_headers(origin: Option<&str>, methods: &str, allowed: &str) -> (r: Vec<(String, String)>)
    ensures
        header_pairs(r@) == cors_headers_of(opt_str(origin), methods@, allowed@),
{
    let mut v: Vec<(String, String)> = Vec::new();
    if is_extension_origin(origin) {
        let o = match origin {
            Some(o) => o,
            None => "",
        };
        v.push((String::from_str("access-control-allow-origin"), o.to_owned()));
        v.push((String::from_str("access-control-allow-methods"), methods.to_owned()));
        v.push((String::from_str("access-control-allow-headers"), allowed.to_owned()));
        v.push((String::from_str("vary"), String::from_str("Origin")));
    }
    assert(header_pairs(v@) =~= cors_headers_of(opt_str(origin), methods@, allowed@));
    v
}

/// The CORS headers of the task endpoint, which the popup reads and writes.
pub fn task_cors_headers(origin: Option<&str>) -> (r: Vec<(String, String)>)
    ensures
        header_pairs(r@) == cors_headers_of(opt_str(origin), "GET, POST, OPTIONS"@, "X-OpenCLI, Content-Type"@),
{
    cors_headers(origin, "GET, POST, OPTIONS", "X-OpenCLI, Content-Type")
}

/// The CORS headers of the extension API, which the popup only reads.
pub fn extension_cors_headers(origin: Option<&str>) -> (r: Vec<(String, String)>)
    ensures
        header_pairs(r@) == cors_headers_of(opt_str(origin), "GET, OPTIONS"@, "Content-Type"@),
{
    cors_headers(origin, "GET, OPTIONS", "Content-Type")
}

/// What the task endpoint does with a request.
#[derive(Debug, Clone, Copy, PartialEq, Eq, Structural)]
pub enum TaskRoute {
    /// Answer a CORS preflight with no content.
    Preflight,
    /// Refuse: neither the `X-OpenCLI` header nor an extension origin.
    Forbidden,
    /// List the tasks.
    List,
    /// Start or finish a task from the request body.
    Update,
}

/// The route of a task request: preflights are answered first; others
/// need the `X-OpenCLI` header or an extension origin; then reads list and
/// writes update.
pub open spec fn task_route_of(is_options: bool, is_get: bool, has_header: bool, origin: Option<Seq<char>>) -> TaskRoute {
    if is_options {
        TaskRoute::Preflight
    } else if !has_header && !extension_origin(origin) {
        TaskRoute::Forbidden
    } else if is_get {
        TaskRoute::List
    } else {
        TaskRoute::Update
    }
}

/// Routes a request of the task endpoint.
pub fn task_route(is_options: bool, is_get: bool, has_header: bool, origin: Option<&str>) -> (r: TaskRoute)
    ensures
        r == task_route_of(is_options, is_get, has_header, opt_str(origin)),
{
    if is_options {
        TaskRoute::Preflight
    } else if !has_header && !is_extension_origin(origin) {
        TaskRoute::Forbidden
    } else if is_get {
        TaskRoute::List
    } else {
        TaskRoute::Update
    }
}

/// Why a command request is refused before it is forwarded: the missing
/// header (403), then a disconnected extension (503).
pub open spec fn command_refusal_of(has_header: bool, extension_connected: bool) -> Option<(u16, Seq<char>)> {
    if !has_header {
        Some((403u16, "Missing X-OpenCLI header"@))
    } else if !extension_connected {
        Some((503u16, "Chrome extension not connected"@))
    } else {
        None
    }
}

/// The status and error that refuse a command request, if it is refused.
pub fn command_refusal(has_header: bool, extension_connected: bool) -> (r: Option<(u16, &'static str)>)
    ensures
        match r {
            Some((code, msg)) => command_refusal_of(has_header, extension_connected) == Some((code, msg@)),
            None => command_refusal_of(has_header, extension_connected) is None,
        },
{
    if !has_header {
        Some((403, "Missing X-OpenCLI header"))
    } else if !extension_connected {
        Some((503, "Chrome extension not connected"))
    } else {
        None
    }
}

/// The status a command's result is answered with: 200 when it succeeded,
/// 422 otherwise.
pub fn command_result_status(ok: bool) -> (r: u16)
    ensures
        r == (if ok { 200u16 } else { 422u16 }),
{
    if ok {
        200
    } else {
        422
    }
}

} // verus!
