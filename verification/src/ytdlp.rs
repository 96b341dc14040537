//! What the download step hands to yt-dlp: the file name it saves under,
//! the format it asks for, the browser session it passes on, and the
//! command line.
use vstd::prelude::*;

use crate::download::str_at;
use crate::error::{message_of, CliError};
use crate::index::{is_alphanumeric, unicode_alphanumeric};
use crate::json::{get_field, json_get, view_fields, view_items, Json, JsonValue};
use crate::kv_steps::opt_view;
use crate::text::{
    chars_of, find_char, index_of_char, lemma_index_of_char_bounds, slice_chars, starts_with, str_eq,
    str_starts_with, string_of, texts, trim, trim_chars,
};

verus! {

/// What a title character becomes in a file name: letters, digits, `-`,
/// `_`, space (and `.` when `keep_dot`) stay, anything else becomes `_`.
pub open spec fn file_char(c: char, keep_dot: bool) -> char {
    if unicode_alphanumeric(c) || c == '-' || c == '_' || c == ' ' || (keep_dot && c == '.') {
        c
    } else {
        '_'
    }
}

/// A title made safe for a file name: characters replaced, whitespace
/// trimmed, at most `limit` characters kept.
pub open spec fn safe_title_of(title: Seq<char>, keep_dot: bool, limit: nat) -> Seq<char> {
    let t = trim(title.map_values(|c: char| file_char(c, keep_dot)));
    if t.len() <= limit {
        t
    } else {
        t.take(limit as int)
    }
}

/// Makes a title safe to use as a file or directory name.
pub fn safe_title(title: &str, keep_dot: bool, limit: usize) -> (r: String)
    ensures
        r@ == safe_title_of(title@, keep_dot, limit as nat),
{
    let v = chars_of(title);
    let mut mapped: Vec<char> = Vec::new();
    let mut i: usize = 0;
    while i < v.len()
        invariant
            i <= v.len(),
            mapped@ == v@.take(i as int).map_values(|c: char| file_char(c, keep_dot)),
        decreases v.len() - i,
    {
        let c = v[i];
        let keep = is_alphanumeric(c) || c == '-' || c == '_' || c == ' ' || (keep_dot && c == '.');
        mapped.push(if keep { c } else { '_' });
        assert(v@.take(i + 1).map_values(|c: char| file_char(c, keep_dot)) =~= v@.take(
            i as int,
        ).map_values(|c: char| file_char(c, keep_dot)).push(file_char(c, keep_dot)));
        i = i + 1;
    }
    assert(v@.take(v.len() as int) =~= v@);
    let t = trim_chars(&mapped);
    let n = if t.len() <= limit { t.len() } else { limit };
    let kept = slice_chars(&t, 0, n);
    assert(t@.len() <= limit ==> kept@ =~= t@);
    assert(t@.len() > limit ==> kept@ =~= t@.take(limit as int));
    string_of(&kept)
}

/// The yt-dlp format selection for a quality.
pub open spec fn format_of(quality: Seq<char>) -> Seq<char> {
    if quality == "1080p"@ {
        "bestvideo[height<=1080][ext=mp4]+bestaudio[ext=m4a]/best[height<=1080]"@
    } else if quality == "720p"@ {
        "bestvideo[height<=720][ext=mp4]+bestaudio[ext=m4a]/best[height<=720]"@
    } else if quality == "480p"@ {
        "bestvideo[height<=480][ext=mp4]+bestaudio[ext=m4a]/best[height<=480]"@
    } else {
        "bestvideo[ext=mp4]+bestaudio[ext=m4a]/best[ext=mp4]/best"@
    }
}

/// The yt-dlp format selection for `1080p`, `720p`, `480p`, else the best
/// MP4 there is.
pub fn ytdlp_format(quality: &str) -> (r: &'static str)
    ensures
        r@ == format_of(quality@),
{
    if str_eq(quality, "1080p") {
        "bestvideo[height<=1080][ext=mp4]+bestaudio[ext=m4a]/best[height<=1080]"
    } else if str_eq(quality, "720p") {
        "bestvideo[height<=720][ext=mp4]+bestaudio[ext=m4a]/best[height<=720]"
    } else if str_eq(quality, "480p") {
        "bestvideo[height<=480][ext=mp4]+bestaudio[ext=m4a]/best[height<=480]"
    } else {
        "bestvideo[ext=mp4]+bestaudio[ext=m4a]/best[ext=mp4]/best"
    }
}

/// The path yt-dlp writes the video to: `{dir}/{title}.mp4`.
pub open spec fn video_path_of(dir: Seq<char>, title: Seq<char>) -> Seq<char> {
    dir + "/"@ + title + ".mp4"@
}

/// The path yt-dlp writes a video to.
pub fn video_output_path(dir: &str, safe_title: &str) -> (r: String)
    ensures
        r@ == video_path_of(dir@, safe_title@),
{
    let mut s = String::from_str(dir);
    s.append("/");
    s.append(safe_title);
    s.append(".mp4");
    s
}

// ---------------------------------------------------------------------------
// The browser session
// ---------------------------------------------------------------------------

/// What follows the last `c` of `s` (all of `s` when there is none).
pub open spec fn after_last(s: Seq<char>, c: char) -> Seq<char>
    decreases s.len(),
{
    if s.len() == 0 {
        s
    } else if s.last() == c {
        Seq::empty()
    } else {
        after_last(s.drop_last(), c).push(s.last())
    }
}

/// What precedes the last `c` of `s` (nothing when there is none).
pub open spec fn before_last(s: Seq<char>, c: char) -> Seq<char>
    decreases s.len(),
{
    if s.len() == 0 {
        s
    } else if s.last() == c {
        s.drop_last()
    } else {
        before_last(s.drop_last(), c)
    }
}

/// Whether `s` holds the character `c`.
pub open spec fn has_char(s: Seq<char>, c: char) -> bool {
    exists|i: int| 0 <= i < s.len() && s[i] == c
}

/// The URL without `https://` or `http://`, when it starts with one.
pub open spec fn without_scheme(url: Seq<char>) -> Option<Seq<char>> {
    if starts_with(url, "https://"@) {
        Some(url.skip(8))
    } else if starts_with(url, "http://"@) {
        Some(url.skip(7))
    } else {
        None
    }
}

/// The cookie domain for a URL: its host's last two labels behind a dot
/// (the whole host when it has one label); `.example.com` when the URL is
/// not HTTP(S).
pub open spec fn cookie_domain_of(url: Seq<char>) -> Seq<char> {
    match without_scheme(url) {
        None => ".example.com"@,
        Some(rest) => {
            let host = rest.take(index_of_char(rest, '/'));
            if has_char(host, '.') {
                "."@ + after_last(before_last(host, '.'), '.') + "."@ + after_last(host, '.')
            } else {
                "."@ + host
            }
        },
    }
}

/// The index of the last `c` in `v`, when there is one, with what lies
/// before and after it.
fn last_index(v: &Vec<char>, c: char) -> (r: Option<usize>)
    ensures
        match r {
            Some(i) => i < v.len() && v@[i as int] == c && before_last(v@, c) == v@.take(i as int)
                && after_last(v@, c) == v@.skip(i + 1) && has_char(v@, c),
            None => !has_char(v@, c) && after_last(v@, c) == v@ && before_last(v@, c)
                =~= Seq::<char>::empty(),
        },
{
    let mut i: usize = v.len();
    assert(v@.skip(v.len() as int) =~= Seq::<char>::empty());
    assert(v@.take(v.len() as int) =~= v@);
    while i > 0 && v[i - 1] != c
        invariant
            i <= v.len(),
            forall|j: int| i <= j < v.len() ==> v@[j] != c,
            after_last(v@, c) == after_last(v@.take(i as int), c) + v@.skip(i as int),
            before_last(v@, c) == before_last(v@.take(i as int), c),
        decreases i,
    {
        let ghost t = v@.take(i as int);
        assert(t.drop_last() =~= v@.take(i - 1));
        assert(t.last() == v@[i - 1]);
        assert(v@.skip(i - 1) =~= seq![v@[i - 1]] + v@.skip(i as int));
        assert(after_last(t, c) == after_last(v@.take(i - 1), c).push(v@[i - 1]));
        assert(after_last(v@.take(i - 1), c).push(v@[i - 1]) + v@.skip(i as int)
            =~= after_last(v@.take(i - 1), c) + v@.skip(i - 1));
        i = i - 1;
    }
    if i == 0 {
        assert(v@.take(0) =~= Seq::<char>::empty());
        assert(v@.skip(0) =~= v@);
        assert(after_last(v@, c) =~= v@);
        return None;
    }
    let ghost t = v@.take(i as int);
    assert(t.last() == c);
    assert(t.drop_last() =~= v@.take(i - 1));
    assert(after_last(v@, c) =~= v@.skip(i as int));
    Some(i - 1)
}

/// The cookie domain for the session handed to yt-dlp.
pub fn cookie_domain(url: &str) -> (r: String)
    ensures
        r@ == cookie_domain_of(url@),
{
    let v = chars_of(url);
    proof {
        reveal_strlit("https://");
        reveal_strlit("http://");
    }
    let rest = if str_starts_with(url, "https://") {
        slice_chars(&v, 8, v.len())
    } else if str_starts_with(url, "http://") {
        slice_chars(&v, 7, v.len())
    } else {
        return String::from_str(".example.com");
    };
    assert(starts_with(url@, "https://"@) ==> rest@ =~= url@.skip(8));
    assert(!starts_with(url@, "https://"@) ==> rest@ =~= url@.skip(7));
    let slash = find_char(&rest, '/', 0);
    assert(rest@.skip(0) =~= rest@);
    let host = slice_chars(&rest, 0, slash);
    assert(host@ =~= rest@.take(index_of_char(rest@, '/')));
    let mut out = String::from_str(".");
    match last_index(&host, '.') {
        Some(i) => {
            let head = slice_chars(&host, 0, i);
            let tld = string_of(&slice_chars(&host, i + 1, host.len()));
            let label = match last_index(&head, '.') {
                Some(j) => string_of(&slice_chars(&head, j + 1, head.len())),
                None => string_of(&head),
            };
            assert(head@ =~= host@.take(i as int));
            out.append(label.as_str());
            out.append(".");
            out.append(tld.as_str());
            assert(host@.subrange(i + 1, host@.len() as int) =~= host@.skip(i + 1));
        },
        None => {
            out.append(string_of(&host).as_str());
        },
    }
    out
}

/// The Netscape cookie line for one `name=value` piece of a cookie header:
/// both sides trimmed; nothing for a piece without `=`.
pub open spec fn cookie_line(domain: Seq<char>, piece: Seq<char>) -> Seq<char> {
    let t = trim(piece);
    let j = index_of_char(t, '=');
    if j < t.len() {
        domain + "\tTRUE\t/\tFALSE\t0\t"@ + trim(t.take(j)) + "\t"@ + trim(t.skip(j + 1)) + "\n"@
    } else {
        Seq::empty()
    }
}

/// The Netscape cookie lines for a `;`-separated cookie header.
pub open spec fn cookie_lines(domain: Seq<char>, s: Seq<char>) -> Seq<char>
    decreases s.len(),
{
    let i = index_of_char(s, ';');
    if i < s.len() {
        proof {
            lemma_index_of_char_bounds(s, ';');
        }
        cookie_line(domain, s.take(i)) + cookie_lines(domain, s.skip(i + 1))
    } else {
        cookie_line(domain, s)
    }
}

/// The cookie file handed to yt-dlp for a page's `document.cookie`.
pub open spec fn netscape_file_of(domain: Seq<char>, cookies: Seq<char>) -> Seq<char> {
    "# Netscape HTTP Cookie File\n"@ + cookie_lines(domain, cookies)
}

fn cookie_line_text(domain: &str, piece: &Vec<char>) -> (r: String)
    ensures
        r@ == cookie_line(domain@, piece@),
{
    let t = trim_chars(piece);
    let j = find_char(&t, '=', 0);
    assert(t@.skip(0) =~= t@);
    if j < t.len() {
        let name = string_of(&trim_chars(&slice_chars(&t, 0, j)));
        let value = string_of(&trim_chars(&slice_chars(&t, j + 1, t.len())));
        assert(t@.subrange(j + 1, t@.len() as int) =~= t@.skip(j + 1));
        assert(t@.subrange(0, j as int) =~= t@.take(j as int));
        let mut s = String::from_str(domain);
        s.append("\tTRUE\t/\tFALSE\t0\t");
        s.append(name.as_str());
        s.append("\t");
        s.append(value.as_str());
        s.append("\n");
        s
    } else {
        String::new()
    }
}

/// The Netscape cookie file that passes a page's session to yt-dlp.
pub fn netscape_cookies(domain: &str, cookies: &str) -> (r: String)
    ensures
        r@ == netscape_file_of(domain@, cookies@),
{
    let v = chars_of(cookies);
    let mut out = String::from_str("# Netscape HTTP Cookie File\n");
    let ghost head = out@;
    let mut start: usize = 0;
    assert(v@.skip(0) =~= v@);
    assert(out@ + cookie_lines(domain@, v@.skip(0)) =~= head + cookie_lines(domain@, v@));
    loop
        invariant_except_break
            start <= v.len(),
            out@ + cookie_lines(domain@, v@.skip(start as int)) == head + cookie_lines(domain@, v@),
        ensures
            out@ == head + cookie_lines(domain@, v@),
        decreases v.len() - start,
    {
        let rest = slice_chars(&v, start, v.len());
        assert(rest@ =~= v@.skip(start as int));
        let i = find_char(&rest, ';', 0);
        assert(rest@.skip(0) =~= rest@);
        let piece = slice_chars(&rest, 0, i);
        assert(piece@ =~= rest@.take(i as int));
        let line = cookie_line_text(domain, &piece);
        out.append(line.as_str());
        if i < rest.len() {
            assert(rest@.skip(i + 1) =~= v@.skip(start + i + 1));
            start = start + i + 1;
        } else {
            assert(piece@ =~= rest@);
            assert(cookie_lines(domain@, rest@) == cookie_line(domain@, rest@));
            break;
        }
    }
    out
}

// ---------------------------------------------------------------------------
// The command line
// ---------------------------------------------------------------------------

/// The options that pass the browser session: user agent, referer and
/// cookie file, each when given.
pub open spec fn session_args(
    user_agent: Option<Seq<char>>,
    referer: Option<Seq<char>>,
    cookie_file: Option<Seq<char>>,
) -> Seq<Seq<char>> {
    (match user_agent {
        Some(u) => seq!["--user-agent"@, u],
        None => Seq::empty(),
    }) + (match referer {
        Some(r) => seq!["--referer"@, r],
        None => Seq::empty(),
    }) + (match cookie_file {
        Some(c) => seq!["--cookies"@, c],
        None => Seq::empty(),
    })
}

/// yt-dlp's arguments: a dry run only simulates the selection; a download
/// merges into MP4 with the thumbnail at `output`. The URL comes last in a
/// download and right after the format in a dry run.
pub open spec fn ytdlp_args_of(
    dry_run: bool,
    format: Seq<char>,
    url: Seq<char>,
    output: Seq<char>,
    user_agent: Option<Seq<char>>,
    referer: Option<Seq<char>>,
    cookie_file: Option<Seq<char>>,
) -> Seq<Seq<char>> {
    if dry_run {
        seq!["--simulate"@, "--no-playlist"@, "-f"@, format, url] + session_args(
            user_agent,
            referer,
            cookie_file,
        )
    } else {
        seq![
            "-f"@,
            format,
            "--merge-output-format"@,
            "mp4"@,
            "--embed-thumbnail"@,
            "-o"@,
            output,
        ] + session_args(user_agent, referer, cookie_file) + seq![url]
    }
}

pub open spec fn opt_str(o: Option<&str>) -> Option<Seq<char>> {
    match o {
        Some(s) => Some(s@),
        None => None,
    }
}

fn push_text(v: &mut Vec<String>, s: &str)
    ensures
        texts(final(v)@) == texts(old(v)@).push(s@),
{
    let ghost before = v@;
    v.push(s.to_owned());
    assert(texts(v@) =~= texts(before).push(s@));
}

fn push_session(v: &mut Vec<String>, user_agent: Option<&str>, referer: Option<&str>, cookie_file: Option<&str>)
    ensures
        texts(final(v)@) == texts(old(v)@) + session_args(opt_str(user_agent), opt_str(referer), opt_str(cookie_file)),
{
    let ghost start = texts(v@);
    match user_agent {
        Some(u) => {
            push_text(v, "--user-agent");
            push_text(v, u);
        },
        None => {},
    }
    let ghost a = texts(v@);
    match referer {
        Some(r) => {
            push_text(v, "--referer");
            push_text(v, r);
        },
        None => {},
    }
    let ghost b = texts(v@);
    match cookie_file {
        Some(c) => {
            push_text(v, "--cookies");
            push_text(v, c);
        },
        None => {},
    }
    proof {
        let ua = match opt_str(user_agent) {
            Some(u) => seq!["--user-agent"@, u],
            None => Seq::<Seq<char>>::empty(),
        };
        let re = match opt_str(referer) {
            Some(r) => seq!["--referer"@, r],
            None => Seq::<Seq<char>>::empty(),
        };
        let co = match opt_str(cookie_file) {
            Some(c) => seq!["--cookies"@, c],
            None => Seq::<Seq<char>>::empty(),
        };
        assert(a =~= start + ua);
        assert(b =~= a + re);
        assert(texts(v@) =~= b + co);
        assert(texts(v@) =~= start + (ua + re + co));
    }
}

/// The arguments yt-dlp is run with.
pub fn ytdlp_args(
    dry_run: bool,
    format: &str,
    url: &str,
    output: &str,
    user_agent: Option<&str>,
    referer: Option<&str>,
    cookie_file: Option<&str>,
) -> (r: Vec<String>)
    ensures
        texts(r@) == ytdlp_args_of(
            dry_run,
            format@,
            url@,
            output@,
            opt_str(user_agent),
            opt_str(referer),
            opt_str(cookie_file),
        ),
{
    let mut v: Vec<String> = Vec::new();
    assert(texts(v@) =~= Seq::<Seq<char>>::empty());
    if dry_run {
        push_text(&mut v, "--simulate");
        push_text(&mut v, "--no-playlist");
        push_text(&mut v, "-f");
        push_text(&mut v, format);
        push_text(&mut v, url);
        let ghost head = texts(v@);
        assert(head =~= seq!["--simulate"@, "--no-playlist"@, "-f"@, format@, url@]);
        push_session(&mut v, user_agent, referer, cookie_file);
    } else {
        push_text(&mut v, "-f");
        push_text(&mut v, format);
        push_text(&mut v, "--merge-output-format");
        push_text(&mut v, "mp4");
        push_text(&mut v, "--embed-thumbnail");
        push_text(&mut v, "-o");
        push_text(&mut v, output);
        let ghost head = texts(v@);
        assert(head =~= seq![
            "-f"@,
            format@,
            "--merge-output-format"@,
            "mp4"@,
            "--embed-thumbnail"@,
            "-o"@,
            output@,
        ]);
        push_session(&mut v, user_agent, referer, cookie_file);
        push_text(&mut v, url);
    }
    v
}


/// A safe title has at most `limit` characters, each a letter, a digit,
/// `-`, `_`, a space, or (when `keep_dot`) `.`.
pub proof fn law_safe_title_is_safe(title: Seq<char>, keep_dot: bool, limit: nat)
    ensures
        safe_title_of(title, keep_dot, limit).len() <= limit,
        forall|i: int| 0 <= i < safe_title_of(title, keep_dot, limit).len() ==> {
            let c = #[trigger] safe_title_of(title, keep_dot, limit)[i];
            unicode_alphanumeric(c) || c == '-' || c == '_' || c == ' ' || (keep_dot && c == '.')
        },
{
    let m = title.map_values(|c: char| file_char(c, keep_dot));
    assert forall|i: int| 0 <= i < m.len() implies {
        let c = #[trigger] m[i];
        unicode_alphanumeric(c) || c == '-' || c == '_' || c == ' ' || (keep_dot && c == '.')
    } by {}
    let a = crate::text::lemma_trim_start_skip(m);
    let b = crate::text::lemma_trim_end_take(m.skip(a));
    let t = trim(m);
    assert(t == m.skip(a).take(b));
    let out = safe_title_of(title, keep_dot, limit);
    assert forall|i: int| 0 <= i < out.len() implies {
        let c = #[trigger] out[i];
        unicode_alphanumeric(c) || c == '-' || c == '_' || c == ' ' || (keep_dot && c == '.')
    } by {
        assert(out[i] == t[i]);
        assert(t[i] == m[a + i]);
    }
}

// ---------------------------------------------------------------------------
// The request and its records
// ---------------------------------------------------------------------------

/// The step's text parameters after their templates were rendered, each
/// given when the parameter is a string; `dry_run` is what a string
/// `dry_run` rendered to as a boolean, if it did.
#[derive(Debug)]
pub struct YtdlpRendered {
    pub url: Option<String>,
    pub title: Option<String>,
    pub output: Option<String>,
    pub quality: Option<String>,
    pub user_agent: Option<String>,
    pub referer: Option<String>,
    pub dry_run: Option<bool>,
}

/// What a yt-dlp download asks for.
#[derive(Debug)]
pub struct YtdlpRequest {
    pub url: String,
    pub title: String,
    pub output: String,
    pub quality: String,
    pub user_agent: Option<String>,
    pub referer: Option<String>,
    pub dry_run: bool,
    /// The page's `document.cookie`, empty when the data has none.
    pub cookies: String,
}

/// Whether rendered parameters belong to the step's parameters: each is
/// given exactly when the parameter is a string.
pub open spec fn rendered_fits(params: Json, r: YtdlpRendered) -> bool {
    &&& (r.url is Some) == (str_at(params, "url"@) is Some)
    &&& (r.title is Some) == (str_at(params, "title"@) is Some)
    &&& (r.output is Some) == (str_at(params, "output"@) is Some)
    &&& (r.quality is Some) == (str_at(params, "quality"@) is Some)
    &&& (r.user_agent is Some) == (str_at(params, "user_agent"@) is Some)
    &&& (r.referer is Some) == (str_at(params, "referer"@) is Some)
    &&& (r.dry_run is Some) ==> (str_at(params, "dry_run"@) is Some)
}

/// A rendered parameter, else the data's field of that name.
pub open spec fn param_or_data(rendered: Option<Seq<char>>, data: Json, k: Seq<char>) -> Option<Seq<char>> {
    match rendered {
        Some(v) => Some(v),
        None => str_at(data, k),
    }
}

pub open spec fn or_text(o: Option<Seq<char>>, fallback: Seq<char>) -> Seq<char> {
    match o {
        Some(v) => v,
        None => fallback,
    }
}

/// Whether to only simulate: a boolean `dry_run` as it is, a string one
/// as it rendered (no when it rendered to nothing), otherwise no.
pub open spec fn dry_run_of(params: Json, rendered: Option<bool>) -> bool {
    match json_get(params, "dry_run"@) {
        Some(Json::Bool(b)) => b,
        Some(Json::Str(_)) => rendered == Some(true),
        _ => false,
    }
}

fn text_or_data(rendered: Option<String>, data: &JsonValue, k: &str) -> (r: Option<String>)
    ensures
        opt_view(r) == param_or_data(opt_view(rendered), data@, k@),
{
    match rendered {
        Some(v) => Some(v),
        None => match get_field(data, k) {
            Some(JsonValue::String(s)) => Some(s.clone()),
            _ => None,
        },
    }
}

/// Reads the download step's request for yt-dlp: the URL (the parameter,
/// else the data's; without one the step fails), the title (else the
/// data's, else `video`), the output directory (`./downloads`), the
/// quality (`best`), the user agent and referer (else the data's), the
/// dry-run flag and the page's cookies.
pub fn ytdlp_request(params: &JsonValue, data: &JsonValue, rendered: YtdlpRendered) -> (r: Result<
    YtdlpRequest,
    CliError,
>)
    requires
        rendered_fits(params@, rendered),
    ensures
        match param_or_data(opt_view(rendered.url), data@, "url"@) {
            None => r matches Err(e) && e is Pipeline && message_of(e) == "download: missing url"@,
            Some(u) => r matches Ok(q) && {
                &&& q.url@ == u
                &&& q.title@ == or_text(param_or_data(opt_view(rendered.title), data@, "title"@), "video"@)
                &&& q.output@ == or_text(opt_view(rendered.output), "./downloads"@)
                &&& q.quality@ == or_text(opt_view(rendered.quality), "best"@)
                &&& opt_view(q.user_agent) == param_or_data(opt_view(rendered.user_agent), data@, "user_agent"@)
                &&& opt_view(q.referer) == param_or_data(opt_view(rendered.referer), data@, "referer"@)
                &&& q.dry_run == dry_run_of(params@, rendered.dry_run)
                &&& q.cookies@ == or_text(str_at(data@, "cookies"@), Seq::empty())
            },
        },
{
    let url = match text_or_data(rendered.url, data, "url") {
        Some(u) => u,
        None => {
            return Err(CliError::pipeline("download: missing url"));
        },
    };
    let title = match text_or_data(rendered.title, data, "title") {
        Some(t) => t,
        None => String::from_str("video"),
    };
    let output = match rendered.output {
        Some(o) => o,
        None => String::from_str("./downloads"),
    };
    let quality = match rendered.quality {
        Some(q) => q,
        None => String::from_str("best"),
    };
    let user_agent = text_or_data(rendered.user_agent, data, "user_agent");
    let referer = text_or_data(rendered.referer, data, "referer");
    let dry_run = match get_field(params, "dry_run") {
        Some(JsonValue::Bool(b)) => *b,
        Some(JsonValue::String(_)) => match rendered.dry_run {
            Some(b) => b,
            None => false,
        },
        _ => false,
    };
    proof {
        reveal_strlit("");
    }
    let cookies = match get_field(data, "cookies") {
        Some(JsonValue::String(c)) => c.clone(),
        _ => String::from_str(""),
    };
    Ok(YtdlpRequest { url, title, output, quality, user_agent, referer, dry_run, cookies })
}

/// The one-row answer of a yt-dlp run: `[{"title", "status", "size",
/// "path"}]`.
pub open spec fn ytdlp_rows_of(title: Seq<char>, status: Seq<char>, size: Seq<char>, path: Seq<char>) -> Json {
    Json::Array(
        seq![
            Json::Object(
                seq![
                    ("title"@, Json::Str(title)),
                    ("status"@, Json::Str(status)),
                    ("size"@, Json::Str(size)),
                    ("path"@, Json::Str(path)),
                ],
            ),
        ],
    )
}

/// The one-row answer of a yt-dlp run.
pub fn ytdlp_rows(title: &str, status: &str, size: &str, path: &str) -> (r: JsonValue)
    ensures
        r@ == ytdlp_rows_of(title@, status@, size@, path@),
{
    let mut f: Vec<(String, JsonValue)> = Vec::new();
    f.push((String::from_str("title"), JsonValue::String(title.to_owned())));
    f.push((String::from_str("status"), JsonValue::String(status.to_owned())));
    f.push((String::from_str("size"), JsonValue::String(size.to_owned())));
    f.push((String::from_str("path"), JsonValue::String(path.to_owned())));
    let mut items: Vec<JsonValue> = Vec::new();
    items.push(JsonValue::Object(f));
    proof {
        reveal_with_fuel(view_fields, 5);
        reveal_with_fuel(view_items, 2);
        assert(view_fields(f@) =~= seq![
            ("title"@, Json::Str(title@)),
            ("status"@, Json::Str(status@)),
            ("size"@, Json::Str(size@)),
            ("path"@, Json::Str(path@)),
        ]);
        assert(view_items(items@) =~= ytdlp_rows_of(title@, status@, size@, path@)->Array_0);
    }
    JsonValue::Array(items)
}

/// The answer of a dry run: `dry-run ok` or `dry-run failed`, no size and
/// no path.
pub fn dry_run_rows(title: &str, ok: bool) -> (r: JsonValue)
    ensures
        r@ == ytdlp_rows_of(title@, if ok { "dry-run ok"@ } else { "dry-run failed"@ }, "-"@, Seq::empty()),
{
    proof {
        reveal_strlit("");
    }
    let status = if ok {
        "dry-run ok"
    } else {
        "dry-run failed"
    };
    let r = ytdlp_rows(title, status, "-", "");
    assert(""@ =~= Seq::<char>::empty());
    r
}

/// The answer of a download: `ok` or `failed`, the file's size and path.
pub fn download_rows(title: &str, ok: bool, size: &str, path: &str) -> (r: JsonValue)
    ensures
        r@ == ytdlp_rows_of(title@, if ok { "ok"@ } else { "failed"@ }, size@, path@),
{
    ytdlp_rows(title, if ok { "ok" } else { "failed" }, size, path)
}

/// The answer when yt-dlp is not installed:
/// `[{"status": "failed", "size": "yt-dlp not installed. Run: pip install yt-dlp"}]`.
pub open spec fn not_installed_rows_of() -> Json {
    Json::Array(
        seq![
            Json::Object(
                seq![
                    ("status"@, Json::Str("failed"@)),
                    ("size"@, Json::Str("yt-dlp not installed. Run: pip install yt-dlp"@)),
                ],
            ),
        ],
    )
}

/// The answer when yt-dlp is not installed.
pub fn not_installed_rows() -> (r: JsonValue)
    ensures
        r@ == not_installed_rows_of(),
{
    let mut f: Vec<(String, JsonValue)> = Vec::new();
    f.push((String::from_str("status"), JsonValue::String(String::from_str("failed"))));
    f.push(
        (
            String::from_str("size"),
            JsonValue::String(String::from_str("yt-dlp not installed. Run: pip install yt-dlp")),
        ),
    );
    let mut items: Vec<JsonValue> = Vec::new();
    items.push(JsonValue::Object(f));
    proof {
        reveal_with_fuel(view_fields, 3);
        reveal_with_fuel(view_items, 2);
        assert(view_fields(f@) =~= seq![
            ("status"@, Json::Str("failed"@)),
            ("size"@, Json::Str("yt-dlp not installed. Run: pip install yt-dlp"@)),
        ]);
        assert(view_items(items@) =~= not_installed_rows_of()->Array_0);
    }
    JsonValue::Array(items)
}

} // verus!
