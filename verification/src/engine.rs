//! The decisions of running a command: which browser page and task
//! workspace it uses, how long it may take, and whether the browser first
//! navigates to the command's site.
use vstd::prelude::*;

use crate::error::{message_of, suggestions_of, CliError};
use crate::json::{Json, JsonValue, field_index, find_field, view_items};
use crate::text::{
    chars_of, concat3, find_from, lower_seq, matches_at, parse_u64, parses_u64, slice_chars,
    starts_with, str_starts_with, string_of, to_ascii_lower, trim, trim_char_end, trim_chars,
    u64_value, contains, first_match, index_of_char, find_char, lemma_first_match,
};

verus! {

/// The page workspace of a command: `origin:` and its domain (or its site
/// when it has none), trimmed, without trailing `/`, in ASCII lower case.
/// Commands of one site thus share one page.
pub open spec fn browser_workspace_of(domain: Option<Seq<char>>, site: Seq<char>) -> Seq<char> {
    let d = match domain {
        Some(d) => d,
        None => site,
    };
    "origin:"@ + lower_seq(trim_char_end(trim(d), '/'))
}

pub open spec fn opt_view(o: Option<&str>) -> Option<Seq<char>> {
    match o {
        Some(s) => Some(s@),
        None => None,
    }
}

pub fn browser_workspace(domain: Option<&str>, site: &str) -> (r: String)
    ensures
        r@ == browser_workspace_of(opt_view(domain), site@),
{
    let d = match domain {
        Some(d) => d,
        None => site,
    };
    let t = trim_chars(&chars_of(d));
    let u = trim_char_end_chars(&t, '/');
    let l = to_ascii_lower(&u);
    let mut r = String::from_str("origin:");
    r.append(string_of(&l).as_str());
    r
}

fn trim_char_end_chars(v: &Vec<char>, c: char) -> (r: Vec<char>)
    ensures
        r@ == trim_char_end(v@, c),
{
    let mut b: usize = v.len();
    assert(v@.subrange(0, b as int) =~= v@);
    while b > 0 && v[b - 1] == c
        invariant
            b <= v.len(),
            trim_char_end(v@, c) == trim_char_end(v@.subrange(0, b as int), c),
        decreases b,
    {
        assert(v@.subrange(0, b as int).drop_last() =~= v@.subrange(0, b - 1));
        b = b - 1;
    }
    slice_chars(v, 0, b)
}

/// The task workspace of a command: `adapter:site:name`.
pub fn task_workspace(site: &str, name: &str) -> (r: String)
    ensures
        r@ == "adapter:"@ + site@ + ":"@ + name@,
{
    let mut r = concat3("adapter:", site, ":");
    r.append(name);
    r
}

/// The seconds a command may run: the override setting when it is a
/// number, else the command's own timeout, else 60.
pub open spec fn timeout_of(setting: Option<Seq<char>>, own: Option<u64>) -> u64 {
    match setting {
        Some(s) => if parses_u64(s) {
            u64_value(s) as u64
        } else {
            match own {
                Some(t) => t,
                None => 60,
            }
        },
        None => match own {
            Some(t) => t,
            None => 60,
        },
    }
}

pub fn command_timeout(setting: Option<&str>, own: Option<u64>) -> (r: u64)
    ensures
        r == timeout_of(opt_view(setting), own),
{
    let parsed = match setting {
        Some(s) => parse_u64(&chars_of(s)),
        None => None,
    };
    match parsed {
        Some(t) => t,
        None => match own {
            Some(t) => t,
            None => 60,
        },
    }
}

/// The daemon port: the setting when it is a port number, else 19825.
pub open spec fn daemon_port_of(setting: Option<Seq<char>>) -> u16 {
    match setting {
        Some(s) => if parses_u64(s) && u64_value(s) <= u16::MAX {
            u64_value(s) as u16
        } else {
            19825
        },
        None => 19825,
    }
}

pub fn daemon_port(setting: Option<&str>) -> (r: u16)
    ensures
        r == daemon_port_of(opt_view(setting)),
{
    match setting {
        Some(s) => match parse_u64(&chars_of(s)) {
            Some(n) => if n <= 65535 {
                n as u16
            } else {
                19825
            },
            None => 19825,
        },
        None => 19825,
    }
}

/// Whether a command drives an Electron app over its debugging port: a
/// UI-strategy command whose domain is `localhost`, with or without a port.
pub open spec fn is_electron_target(ui_strategy: bool, domain: Option<Seq<char>>) -> bool {
    ui_strategy && match domain {
        Some(d) => d == "localhost"@ || starts_with(d, "localhost:"@),
        None => false,
    }
}

pub fn is_electron(ui_strategy: bool, domain: Option<&str>) -> (b: bool)
    ensures
        b == is_electron_target(ui_strategy, opt_view(domain)),
{
    if !ui_strategy {
        return false;
    }
    match domain {
        Some(d) => crate::text::str_eq(d, "localhost") || str_starts_with(d, "localhost:"),
        None => false,
    }
}

/// Whether the first step of a pipeline is an object with a `navigate` key.
pub open spec fn starts_with_navigate(pipeline: Option<Seq<Json>>) -> bool {
    match pipeline {
        Some(steps) => steps.len() > 0 && match steps[0] {
            Json::Object(f) => field_index(f, "navigate"@) is Some,
            _ => false,
        },
        None => false,
    }
}

pub open spec fn steps_view(p: Option<&Vec<JsonValue>>) -> Option<Seq<Json>> {
    match p {
        Some(v) => Some(view_items(v@)),
        None => None,
    }
}

pub fn pipeline_starts_with_navigate(pipeline: Option<&Vec<JsonValue>>) -> (b: bool)
    ensures
        b == starts_with_navigate(steps_view(pipeline)),
{
    match pipeline {
        Some(steps) => {
            if steps.len() == 0 {
                assert(view_items(steps@).len() == 0) by {
                    crate::json::lemma_view_items_len(steps@);
                }
                return false;
            }
            proof {
                crate::json::lemma_view_items_index(steps@, 0);
            }
            match &steps[0] {
                JsonValue::Object(f) => find_field(f, "navigate").is_some(),
                _ => false,
            }
        },
        None => false,
    }
}

/// The host part of a page URL: after `://` if there is one, up to the
/// first `/`.
pub open spec fn url_host_part(url: Seq<char>) -> Seq<char> {
    let rest = if contains(url, "://"@) {
        url.skip(first_match(url, "://"@) + 3)
    } else {
        url
    };
    rest.take(index_of_char(rest, '/'))
}

/// Whether the page already shows the command's domain: the host part of
/// its URL equals the trimmed domain, ignoring ASCII case.
pub open spec fn on_origin(url: Seq<char>, domain: Seq<char>) -> bool {
    lower_seq(url_host_part(url)) == lower_seq(trim(domain))
}

pub fn already_on_origin(url: &str, domain: &str) -> (b: bool)
    ensures
        b == on_origin(url@, domain@),
{
    let u = chars_of(url);
    let sep = chars_of("://");
    proof {
        reveal_strlit("://");
    }
    let start: usize = match find_from(&u, &sep, 0) {
        Some(i) => {
            proof {
                lemma_first_match(u@, sep@, i as int);
            }
            i + 3
        },
        None => {
            proof {
                if contains(u@, sep@) {
                    let j = choose|j: int| matches_at(u@, sep@, j);
                }
            }
            0
        },
    };
    let end = find_char(&u, '/', start);
    let host = slice_chars(&u, start, end);
    let ghost rest = u@.skip(start as int);
    proof {
        assert(rest.take(end - start) =~= u@.subrange(start as int, end as int));
        if start == 0 {
            assert(rest =~= u@);
        }
    }
    let a = to_ascii_lower(&host);
    let b = to_ascii_lower(&trim_chars(&chars_of(domain)));
    crate::order::compare_chars(&a, &b) == 0
}

/// The URL to navigate to first: `https://` and the domain.
pub fn pre_navigate_url(domain: &str) -> (r: String)
    ensures
        r@ == "https://"@ + domain@,
{
    let mut r = String::from_str("https://");
    r.append(domain);
    r
}


/// The index of the first `--port` among the arguments (their number
/// when there is none).
pub open spec fn port_flag_index(args: Seq<Seq<char>>) -> int
    decreases args.len(),
{
    if args.len() == 0 {
        0
    } else if args[0] == "--port"@ {
        0
    } else {
        1 + port_flag_index(args.drop_first())
    }
}

/// A text read as a port number, if it is one.
pub open spec fn port_number(t: Seq<char>) -> Option<u16> {
    if parses_u64(t) && u64_value(t) <= u16::MAX {
        Some(u64_value(t) as u16)
    } else {
        None
    }
}

/// The port a browser daemon started with `--daemon` listens on: the
/// value after the first `--port` when it is a port number, else the
/// `OPENCLI_DAEMON_PORT` setting (see `daemon_port_of`).
pub open spec fn daemon_mode_port_of(args: Seq<Seq<char>>, env: Option<Seq<char>>) -> u16 {
    let i = port_flag_index(args);
    let from_args = if i + 1 < args.len() {
        port_number(args[i + 1])
    } else {
        None
    };
    match from_args {
        Some(p) => p,
        None => daemon_port_of(env),
    }
}

proof fn lemma_port_flag_index(args: Seq<Seq<char>>, i: int)
    requires
        0 <= i <= args.len(),
        forall|j: int| 0 <= j < i ==> args[j] != "--port"@,
        i == args.len() || args[i] == "--port"@,
    ensures
        port_flag_index(args) == i,
    decreases i,
{
    if i > 0 {
        let t = args.drop_first();
        assert forall|j: int| 0 <= j < i - 1 implies t[j] != "--port"@ by {
            assert(t[j] == args[j + 1]);
        }
        if i < args.len() {
            assert(t[i - 1] == args[i]);
        }
        lemma_port_flag_index(t, i - 1);
    }
}

/// The port of a browser daemon started with `--daemon`, from the command
/// line and the `OPENCLI_DAEMON_PORT` setting.
pub fn daemon_mode_port(args: &Vec<String>, env: Option<&str>) -> (r: u16)
    ensures
        r == daemon_mode_port_of(crate::text::texts(args@), opt_view(env)),
{
    let ghost a = crate::text::texts(args@);
    let mut i: usize = 0;
    while i < args.len() && !crate::text::str_eq(args[i].as_str(), "--port")
        invariant
            i <= args.len(),
            a == crate::text::texts(args@),
            forall|j: int| 0 <= j < i ==> a[j] != "--port"@,
        decreases args.len() - i,
    {
        i = i + 1;
    }
    proof {
        lemma_port_flag_index(a, i as int);
    }
    if i < args.len() && i + 1 < args.len() {
        match parse_u64(&chars_of(args[i + 1].as_str())) {
            Some(n) => if n <= 65535 {
                return n as u16;
            },
            None => {},
        }
    }
    daemon_port(env)
}


/// The field names of `--fields a,b,c`: the comma-separated pieces,
/// trimmed, without empty ones.
pub open spec fn field_names(s: Seq<char>) -> Seq<Seq<char>>
    decreases s.len(),
{
    let i = index_of_char(s, ',');
    let piece = trim(s.take(i));
    let head = if piece.len() > 0 {
        seq![piece]
    } else {
        Seq::empty()
    };
    if i < s.len() {
        proof {
            crate::text::lemma_index_of_char_bounds(s, ',');
        }
        head + field_names(s.skip(i + 1))
    } else {
        head
    }
}

/// Reads the `--fields` option.
pub fn output_fields(s: &str) -> (r: Vec<String>)
    ensures
        crate::text::texts(r@) == field_names(s@),
{
    let v = chars_of(s);
    let mut out: Vec<String> = Vec::new();
    let mut start: usize = 0;
    assert(v@.skip(0) =~= v@);
    assert(crate::text::texts(out@) + field_names(v@.skip(0)) =~= field_names(v@));
    loop
        invariant_except_break
            start <= v.len(),
            crate::text::texts(out@) + field_names(v@.skip(start as int)) == field_names(v@),
        ensures
            crate::text::texts(out@) == field_names(v@),
        decreases v.len() - start,
    {
        let n = v.len();
        let rest = slice_chars(&v, start, n);
        assert(rest@ =~= v@.skip(start as int));
        let i = find_char(&rest, ',', 0);
        assert(rest@.skip(0) =~= rest@);
        let piece = trim_chars(&slice_chars(&rest, 0, i));
        assert(rest@.subrange(0, i as int) =~= rest@.take(i as int));
        let ghost before = crate::text::texts(out@);
        if piece.len() > 0 {
            out.push(string_of(&piece));
            assert(crate::text::texts(out@) =~= before + seq![piece@]);
        } else {
            assert(before + Seq::<Seq<char>>::empty() =~= before);
        }
        if i < rest.len() {
            assert(rest@.skip(i + 1) =~= v@.skip(start + i + 1));
            assert(crate::text::texts(out@) + field_names(rest@.skip(i + 1)) =~= before + field_names(rest@));
            start = start + i + 1;
        } else {
            assert(crate::text::texts(out@) =~= before + field_names(rest@));
            break;
        }
    }
    out
}

/// How a command runs.
#[derive(Debug, Clone, Copy, PartialEq, Eq, Structural)]
pub enum CommandRun {
    /// Its YAML pipeline.
    Pipeline,
    /// Its built-in function.
    Func,
}

/// How a command runs: its pipeline when it has one, else its function;
/// a command with neither fails, naming itself.
pub fn command_run(has_pipeline: bool, has_func: bool, full_name: &str) -> (r: Result<CommandRun, CliError>)
    ensures
        has_pipeline ==> r == Ok::<CommandRun, CliError>(CommandRun::Pipeline),
        !has_pipeline && has_func ==> r == Ok::<CommandRun, CliError>(CommandRun::Func),
        !has_pipeline && !has_func ==> (r matches Err(e) && e is CommandExecution && message_of(e)
            == "Command '"@ + full_name@ + "' has no pipeline or func"@ && suggestions_of(e).len() == 0),
{
    if has_pipeline {
        Ok(CommandRun::Pipeline)
    } else if has_func {
        Ok(CommandRun::Func)
    } else {
        let mut msg = String::from_str("Command '");
        msg.append(full_name);
        msg.append("' has no pipeline or func");
        Err(CliError::command_execution(msg.as_str()))
    }
}

} // verus!
