//! The browser side: the bridge's choice of daemon port, the commands sent
//! to the browser extension and their results, and the registry of Electron
//! apps that expose a debugging port.
use vstd::prelude::*;

use crate::json::JsonValue;
use crate::text::str_eq;

verus! {

/// First port of the range that browser daemons listen on.
pub const PORT_RANGE_START: u16 = 19825;

/// Last port of the range that browser daemons listen on.
pub const PORT_RANGE_END: u16 = 19834;

/// Connects to a browser daemon: on a given port, or on the first port of
/// the range where one runs.
#[derive(Debug)]
pub struct BrowserBridge {
    pub port: Option<u16>,
}

impl BrowserBridge {
    /// A bridge to the daemon on `port`.
    pub fn new(port: u16) -> (r: BrowserBridge)
        ensures
            r.port == Some(port),
    {
        BrowserBridge { port: Some(port) }
    }

    /// A bridge that looks for a daemon on the ports of the range.
    pub fn default_port() -> (r: BrowserBridge)
        ensures
            r.port is None,
    {
        BrowserBridge { port: None }
    }
}

/// The ports that daemons may listen on, in the order they are tried.
pub fn daemon_ports() -> (r: Vec<u16>)
    ensures
        r@.len() == (PORT_RANGE_END - PORT_RANGE_START + 1) as nat,
        forall|i: int| 0 <= i < r@.len() ==> r@[i] == PORT_RANGE_START + i,
{
    let mut r: Vec<u16> = Vec::new();
    let mut p: u16 = PORT_RANGE_START;
    while p <= PORT_RANGE_END
        invariant
            PORT_RANGE_START <= p <= PORT_RANGE_END + 1,
            r@.len() == p - PORT_RANGE_START,
            forall|i: int| 0 <= i < r@.len() ==> r@[i] == PORT_RANGE_START + i,
        decreases PORT_RANGE_END + 1 - p,
    {
        r.push(p);
        p = p + 1;
    }
    r
}

/// A lower-case hexadecimal digit.
pub open spec fn is_lower_hex(c: char) -> bool {
    ('0' <= c && c <= '9') || ('a' <= c && c <= 'f')
}

/// The hyphenated text of a random (version 4) UUID: 36 characters, `-`
/// at places 8, 13, 18 and 23, lower-case hex digits elsewhere, the
/// version digit `4` at place 14 and the variant digit one of `8`, `9`,
/// `a`, `b` at place 19.
pub open spec fn is_v4_uuid_text(s: Seq<char>) -> bool {
    &&& s.len() == 36
    &&& forall|i: int| 0 <= i < 36 ==> if i == 8 || i == 13 || i == 18 || i == 23 {
        #[trigger] s[i] == '-'
    } else {
        is_lower_hex(s[i])
    }
    &&& s[14] == '4'
    &&& (s[19] == '8' || s[19] == '9' || s[19] == 'a' || s[19] == 'b')
}

/// Calls `uuid::Uuid::new_v4` and formats it (`Display`, the hyphenated
/// lower-case form). The digits are random; what every version 4 UUID
/// has in common (the version and variant bits that `new_v4` sets) is
/// stated.
#[verifier::external_body]
fn new_command_id() -> (r: String)
    ensures
        is_v4_uuid_text(r@),
{
    uuid::Uuid::new_v4().to_string()
}

/// A command for the browser extension.
#[derive(Debug)]
pub struct DaemonCommand {
    pub id: String,
    pub action: String,
    pub code: Option<String>,
    pub url: Option<String>,
    /// Navigation readiness: `commit` resolves after the target URL
    /// commits; by default the page load event is awaited.
    pub wait_until: Option<String>,
    pub workspace: Option<String>,
    pub tab_id: Option<u64>,
    pub format: Option<String>,
    /// HTTP method for a background fetch (GET by default).
    pub method: Option<String>,
    /// Extra request headers for a background fetch.
    pub request_headers: Option<Vec<(String, String)>>,
    /// Request body for a background fetch.
    pub body: Option<String>,
    /// URL to take cookies from for a background fetch (the `url` by
    /// default).
    pub cookie_url: Option<String>,
    /// CSS selector for a browser-native file upload.
    pub selector: Option<String>,
    /// Absolute local paths to put into the selected file input.
    pub file_paths: Option<Vec<String>>,
}

pub open spec fn text_is(o: Option<String>, t: Seq<char>) -> bool {
    o matches Some(s) && s@ == t
}

impl DaemonCommand {
    /// A command for `action` with a fresh random id and no options.
    pub fn new(action: &str) -> (r: DaemonCommand)
        ensures
            is_v4_uuid_text(r.id@),
            r.action@ == action@,
            r.code is None,
            r.url is None,
            r.wait_until is None,
            r.workspace is None,
            r.tab_id is None,
            r.format is None,
            r.method is None,
            r.request_headers is None,
            r.body is None,
            r.cookie_url is None,
            r.selector is None,
            r.file_paths is None,
    {
        DaemonCommand {
            id: new_command_id(),
            action: action.to_owned(),
            code: None,
            url: None,
            wait_until: None,
            workspace: None,
            tab_id: None,
            format: None,
            method: None,
            request_headers: None,
            body: None,
            cookie_url: None,
            selector: None,
            file_paths: None,
        }
    }

    pub fn with_code(self, code: &str) -> (r: DaemonCommand)
        ensures
            text_is(r.code, code@),
            r == (DaemonCommand { code: r.code, ..self }),
    {
        DaemonCommand { code: Some(code.to_owned()), ..self }
    }

    pub fn with_url(self, url: &str) -> (r: DaemonCommand)
        ensures
            text_is(r.url, url@),
            r == (DaemonCommand { url: r.url, ..self }),
    {
        DaemonCommand { url: Some(url.to_owned()), ..self }
    }

    pub fn with_wait_until(self, wait_until: &str) -> (r: DaemonCommand)
        ensures
            text_is(r.wait_until, wait_until@),
            r == (DaemonCommand { wait_until: r.wait_until, ..self }),
    {
        DaemonCommand { wait_until: Some(wait_until.to_owned()), ..self }
    }

    pub fn with_workspace(self, workspace: &str) -> (r: DaemonCommand)
        ensures
            text_is(r.workspace, workspace@),
            r == (DaemonCommand { workspace: r.workspace, ..self }),
    {
        DaemonCommand { workspace: Some(workspace.to_owned()), ..self }
    }

    pub fn with_tab_id(self, tab_id: u64) -> (r: DaemonCommand)
        ensures
            r == (DaemonCommand { tab_id: Some(tab_id), ..self }),
    {
        DaemonCommand { tab_id: Some(tab_id), ..self }
    }

    pub fn with_format(self, format: &str) -> (r: DaemonCommand)
        ensures
            text_is(r.format, format@),
            r == (DaemonCommand { format: r.format, ..self }),
    {
        DaemonCommand { format: Some(format.to_owned()), ..self }
    }

    pub fn with_method(self, method: &str) -> (r: DaemonCommand)
        ensures
            text_is(r.method, method@),
            r == (DaemonCommand { method: r.method, ..self }),
    {
        DaemonCommand { method: Some(method.to_owned()), ..self }
    }

    pub fn with_request_headers(self, headers: Vec<(String, String)>) -> (r: DaemonCommand)
        ensures
            r == (DaemonCommand { request_headers: Some(headers), ..self }),
    {
        DaemonCommand { request_headers: Some(headers), ..self }
    }

    pub fn with_body(self, body: &str) -> (r: DaemonCommand)
        ensures
            text_is(r.body, body@),
            r == (DaemonCommand { body: r.body, ..self }),
    {
        DaemonCommand { body: Some(body.to_owned()), ..self }
    }

    pub fn with_cookie_url(self, cookie_url: &str) -> (r: DaemonCommand)
        ensures
            text_is(r.cookie_url, cookie_url@),
            r == (DaemonCommand { cookie_url: r.cookie_url, ..self }),
    {
        DaemonCommand { cookie_url: Some(cookie_url.to_owned()), ..self }
    }

    pub fn with_selector(self, selector: &str) -> (r: DaemonCommand)
        ensures
            text_is(r.selector, selector@),
            r == (DaemonCommand { selector: r.selector, ..self }),
    {
        DaemonCommand { selector: Some(selector.to_owned()), ..self }
    }

    pub fn with_file_paths(self, paths: Vec<String>) -> (r: DaemonCommand)
        ensures
            r == (DaemonCommand { file_paths: Some(paths), ..self }),
    {
        DaemonCommand { file_paths: Some(paths), ..self }
    }
}

/// The extension's answer to a command.
#[derive(Debug)]
pub struct DaemonResult {
    pub id: String,
    pub ok: bool,
    pub data: Option<JsonValue>,
    pub error: Option<String>,
}

impl DaemonResult {
    pub fn success(id: String, data: JsonValue) -> (r: DaemonResult)
        ensures
            r == (DaemonResult { id, ok: true, data: Some(data), error: None }),
    {
        DaemonResult { id, ok: true, data: Some(data), error: None }
    }

    pub fn failure(id: String, error: String) -> (r: DaemonResult)
        ensures
            r == (DaemonResult { id, ok: false, data: None, error: Some(error) }),
    {
        DaemonResult { id, ok: false, data: None, error: Some(error) }
    }
}

/// An Electron app that can be driven through its debugging port.
#[derive(Debug, Clone, Copy)]
pub struct ElectronApp {
    pub port: u16,
    pub process_name: &'static str,
    pub display_name: &'static str,
}

/// The built-in apps: site name, debugging port and process name (which
/// is also the display name).
pub open spec fn builtin_app_table() -> Seq<(Seq<char>, u16, Seq<char>)> {
    seq![
        ("cursor"@, 9226u16, "Cursor"@),
        ("codex"@, 9222u16, "Codex"@),
        ("chatwise"@, 9228u16, "ChatWise"@),
        ("notion"@, 9230u16, "Notion"@),
        ("discord-app"@, 9232u16, "Discord"@),
        ("doubao-app"@, 9225u16, "Doubao"@),
        ("antigravity"@, 9234u16, "Antigravity"@),
        ("chatgpt"@, 9236u16, "ChatGPT"@),
    ]
}

pub open spec fn app_row(e: (&'static str, ElectronApp)) -> (Seq<char>, u16, Seq<char>, Seq<char>) {
    (e.0@, e.1.port, e.1.process_name@, e.1.display_name@)
}

/// The built-in registry of Electron apps by site name.
pub fn builtin_apps() -> (r: Vec<(&'static str, ElectronApp)>)
    ensures
        r@.len() == builtin_app_table().len(),
        forall|i: int|
            0 <= i < r@.len() ==> #[trigger] app_row(r@[i]) == (
                builtin_app_table()[i].0,
                builtin_app_table()[i].1,
                builtin_app_table()[i].2,
                builtin_app_table()[i].2,
            ),
{
    let mut r: Vec<(&'static str, ElectronApp)> = Vec::new();
    r.push(("cursor", ElectronApp { port: 9226, process_name: "Cursor", display_name: "Cursor" }));
    r.push(("codex", ElectronApp { port: 9222, process_name: "Codex", display_name: "Codex" }));
    r.push(
        ("chatwise", ElectronApp { port: 9228, process_name: "ChatWise", display_name: "ChatWise" }),
    );
    r.push(("notion", ElectronApp { port: 9230, process_name: "Notion", display_name: "Notion" }));
    r.push(
        ("discord-app", ElectronApp { port: 9232, process_name: "Discord", display_name: "Discord" }),
    );
    r.push(
        ("doubao-app", ElectronApp { port: 9225, process_name: "Doubao", display_name: "Doubao" }),
    );
    r.push(
        (
            "antigravity",
            ElectronApp { port: 9234, process_name: "Antigravity", display_name: "Antigravity" },
        ),
    );
    r.push(("chatgpt", ElectronApp { port: 9236, process_name: "ChatGPT", display_name: "ChatGPT" }));
    r
}

/// The debugging port of a built-in app, by site name.
pub open spec fn builtin_port_of(site: Seq<char>) -> Option<u16> {
    if exists|i: int| 0 <= i < builtin_app_table().len() && builtin_app_table()[i].0 == site {
        Some(
            builtin_app_table()[choose|i: int|
                0 <= i < builtin_app_table().len() && builtin_app_table()[i].0 == site].1,
        )
    } else {
        None
    }
}

/// Looks up the debugging port of a built-in app.
pub fn builtin_app_port(site: &str) -> (r: Option<u16>)
    ensures
        r == builtin_port_of(site@),
{
    let apps = builtin_apps();
    let mut i: usize = 0;
    while i < apps.len()
        invariant
            i <= apps.len(),
            apps@.len() == builtin_app_table().len(),
            forall|j: int|
                0 <= j < apps@.len() ==> #[trigger] app_row(apps@[j]) == (
                    builtin_app_table()[j].0,
                    builtin_app_table()[j].1,
                    builtin_app_table()[j].2,
                    builtin_app_table()[j].2,
                ),
            forall|j: int| 0 <= j < i ==> builtin_app_table()[j].0 != site@,
        decreases apps.len() - i,
    {
        assert(app_row(apps@[i as int]).0 == builtin_app_table()[i as int].0);
        if str_eq(apps[i].0, site) {
            proof {
                lemma_builtin_names_distinct();
                let k = choose|k: int|
                    0 <= k < builtin_app_table().len() && builtin_app_table()[k].0 == site@;
                assert(k == i);
            }
            return Some(apps[i].1.port);
        }
        i = i + 1;
    }
    None
}

proof fn lemma_builtin_names_distinct()
    ensures
        forall|a: int, b: int|
            0 <= a < b < builtin_app_table().len() ==> builtin_app_table()[a].0
                != builtin_app_table()[b].0,
{
    reveal_strlit("cursor");
    reveal_strlit("codex");
    reveal_strlit("chatwise");
    reveal_strlit("notion");
    reveal_strlit("discord-app");
    reveal_strlit("doubao-app");
    reveal_strlit("antigravity");
    reveal_strlit("chatgpt");
    let t = builtin_app_table();
    assert(t[0].0.len() == 6 && t[1].0.len() == 5 && t[2].0.len() == 8 && t[3].0.len() == 6);
    assert(t[4].0.len() == 11 && t[5].0.len() == 10 && t[6].0.len() == 11 && t[7].0.len() == 7);
    assert(t[0].0[1] != t[3].0[1]);
    assert(t[4].0[0] != t[6].0[0]);
}

} // verus!
