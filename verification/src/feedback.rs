//! User feedback: the local record, and the GitHub issue that it can
//! open. Writing the record and opening the browser are the caller's
//! business.
use vstd::prelude::*;

use crate::text::{concat3, contains, i64_text, matches_at, signed_decimal, decimal, trim, trim_str, u128_text};

verus! {

/// Where new issues of the project are opened.
pub const REPO_ISSUES_NEW_URL: &'static str = "https://github.com/forechoandlook/opencli_rs_plus/issues/new";

/// One saved piece of feedback.
#[derive(Debug)]
pub struct FeedbackRecord {
    pub id: String,
    pub created_at: i64,
    pub version: String,
    pub adapter: Option<String>,
    pub kind: String,
    pub title: String,
    pub body: Option<String>,
    pub opened_issue_url: Option<String>,
}

pub open spec fn opt_view(o: Option<&str>) -> Option<Seq<char>> {
    match o {
        Some(s) => Some(s@),
        None => None,
    }
}

/// Whether an optional text is given and not blank.
pub open spec fn given(o: Option<Seq<char>>) -> bool {
    o matches Some(s) && trim(s).len() > 0
}

fn is_given(o: Option<&str>) -> (b: bool)
    ensures
        b == given(opt_view(o)),
{
    match o {
        Some(s) => !trim_str(s).as_str().is_empty(),
        None => false,
    }
}

/// The issue title: `[feedback] adapter: title`, or `[feedback] title`
/// when no adapter is given.
pub open spec fn issue_title(adapter: Option<Seq<char>>, title: Seq<char>) -> Seq<char> {
    if given(adapter) {
        "[feedback] "@ + adapter->0 + ": "@ + title
    } else {
        "[feedback] "@ + title
    }
}

pub fn build_issue_title(adapter: Option<&str>, title: &str) -> (r: String)
    ensures
        r@ == issue_title(opt_view(adapter), title@),
{
    if is_given(adapter) {
        let a = match adapter {
            Some(a) => a,
            None => "",
        };
        let mut r = concat3("[feedback] ", a, ": ");
        r.append(title);
        r
    } else {
        let mut r = String::from_str("[feedback] ");
        r.append(title);
        r
    }
}

/// The issue body: a Markdown list of the version, the kind, the adapter
/// (when given) and the local record, then the title, then the details
/// (when given).
pub open spec fn issue_body(
    version: Seq<char>,
    adapter: Option<Seq<char>>,
    kind: Seq<char>,
    title: Seq<char>,
    body: Option<Seq<char>>,
    record_id: Seq<char>,
) -> Seq<char> {
    "## Feedback\n\n"@ + "- Version: `"@ + version + "`\n"@ + "- Kind: `"@ + kind + "`\n"@ + (if given(
        adapter,
    ) {
        "- Adapter: `"@ + adapter->0 + "`\n"@
    } else {
        Seq::empty()
    }) + "- Local record: `"@ + record_id + "`\n\n"@ + "### Title\n"@ + title + "\n\n"@ + (if given(
        body,
    ) {
        "### Details\n"@ + body->0 + "\n"@
    } else {
        Seq::empty()
    })
}

pub fn build_issue_body(
    version: &str,
    adapter: Option<&str>,
    kind: &str,
    title: &str,
    body: Option<&str>,
    record_id: &str,
) -> (r: String)
    ensures
        r@ == issue_body(version@, opt_view(adapter), kind@, title@, opt_view(body), record_id@),
{
    let mut out = String::from_str("## Feedback\n\n");
    out.append("- Version: `");
    out.append(version);
    out.append("`\n");
    out.append("- Kind: `");
    out.append(kind);
    out.append("`\n");
    let ghost head = out@;
    if is_given(adapter) {
        let a = match adapter {
            Some(a) => a,
            None => "",
        };
        out.append("- Adapter: `");
        out.append(a);
        out.append("`\n");
    }
    let ghost mid = out@;
    assert(mid =~= head + (if given(opt_view(adapter)) {
        "- Adapter: `"@ + opt_view(adapter)->0 + "`\n"@
    } else {
        Seq::<char>::empty()
    }));
    out.append("- Local record: `");
    out.append(record_id);
    out.append("`\n\n");
    out.append("### Title\n");
    out.append(title);
    out.append("\n\n");
    let ghost tail = out@;
    if is_given(body) {
        let b = match body {
            Some(b) => b,
            None => "",
        };
        out.append("### Details\n");
        out.append(b);
        out.append("\n");
    }
    assert(out@ =~= tail + (if given(opt_view(body)) {
        "### Details\n"@ + opt_view(body)->0 + "\n"@
    } else {
        Seq::<char>::empty()
    }));
    out
}

/// The bytes of a character's UTF-8 form.
pub open spec fn utf8_bytes(c: char) -> Seq<u8> {
    let cp = c as u32;
    if cp < 0x80 {
        seq![cp as u8]
    } else if cp < 0x800 {
        seq![(0xC0 + cp / 64) as u8, (0x80 + cp % 64) as u8]
    } else if cp < 0x10000 {
        seq![(0xE0 + cp / 4096) as u8, (0x80 + (cp / 64) % 64) as u8, (0x80 + cp % 64) as u8]
    } else {
        seq![
            (0xF0 + cp / 262144) as u8,
            (0x80 + (cp / 4096) % 64) as u8,
            (0x80 + (cp / 64) % 64) as u8,
            (0x80 + cp % 64) as u8,
        ]
    }
}

/// An upper-case hex digit.
pub open spec fn hex_digit(d: u8) -> char {
    if d < 10 {
        (('0' as u8) + d) as char
    } else {
        (('A' as u8) + d - 10) as char
    }
}

/// How one byte is written: an ASCII letter, digit, `-`, `_`, `.` or `~`
/// as itself, any other as `%` and two upper-case hex digits.
pub open spec fn encoded_byte(b: u8) -> Seq<char> {
    if (0x30 <= b <= 0x39) || (0x41 <= b <= 0x5A) || (0x61 <= b <= 0x7A) || b == 0x2D || b == 0x2E || b
        == 0x5F || b == 0x7E {
        seq![b as char]
    } else {
        seq!['%', hex_digit(b / 16), hex_digit(b % 16)]
    }
}

pub open spec fn encoded_bytes(bs: Seq<u8>) -> Seq<char>
    decreases bs.len(),
{
    if bs.len() == 0 {
        Seq::empty()
    } else {
        encoded_bytes(bs.drop_last()) + encoded_byte(bs.last())
    }
}

/// What `urlencoding::encode` makes of a text: every byte of its UTF-8
/// form percent-encoded except ASCII letters, digits, `-`, `_`, `.` and
/// `~`.
pub open spec fn url_encoded(s: Seq<char>) -> Seq<char>
    decreases s.len(),
{
    if s.len() == 0 {
        Seq::empty()
    } else {
        url_encoded(s.drop_last()) + encoded_bytes(utf8_bytes(s.last()))
    }
}

/// Calls `urlencoding::encode`, which writes what `url_encoded` states
/// (its source: the UTF-8 bytes, safe ones kept, others as `%XX` with
/// upper-case hex).
#[verifier::external_body]
fn encode(s: &str) -> (r: String)
    ensures
        r@ == url_encoded(s@),
{
    urlencoding::encode(s).into_owned()
}

/// The link that opens a new issue with this title and body.
pub fn build_issue_url(title: &str, body: &str) -> (r: String)
    ensures
        r@ == REPO_ISSUES_NEW_URL@ + "?title="@ + url_encoded(title@) + "&body="@ + url_encoded(body@),
{
    let mut r = String::from_str(REPO_ISSUES_NEW_URL);
    r.append("?title=");
    r.append(encode(title).as_str());
    r.append("&body=");
    r.append(encode(body).as_str());
    r
}

/// The id of a feedback record: `fb-`, the creation time, `-`, the process
/// id.
pub fn feedback_id(created_at: i64, pid: u32) -> (r: String)
    ensures
        r@ == "fb-"@ + signed_decimal(created_at as int) + "-"@ + decimal(pid as nat),
{
    let mut r = String::from_str("fb-");
    r.append(i64_text(created_at).as_str());
    r.append("-");
    r.append(u128_text(pid as u128).as_str());
    r
}

fn opt_owned(o: Option<&str>) -> (r: Option<String>)
    ensures
        match r {
            Some(s) => o matches Some(t) && s@ == t@,
            None => o is None,
        },
{
    match o {
        Some(t) => Some(t.to_owned()),
        None => None,
    }
}

/// The record of a piece of feedback made at `created_at` by process `pid`
/// of version `version`; with `open_issue` it also holds the link that
/// opens the matching issue.
pub fn new_feedback(
    version: &str,
    adapter: Option<&str>,
    kind: &str,
    title: &str,
    body: Option<&str>,
    open_issue: bool,
    created_at: i64,
    pid: u32,
) -> (r: FeedbackRecord)
    ensures
        r.id@ == "fb-"@ + signed_decimal(created_at as int) + "-"@ + decimal(pid as nat),
        r.created_at == created_at,
        r.version@ == version@,
        r.kind@ == kind@,
        r.title@ == title@,
        match r.adapter {
            Some(a) => adapter matches Some(x) && a@ == x@,
            None => adapter is None,
        },
        match r.body {
            Some(b) => body matches Some(x) && b@ == x@,
            None => body is None,
        },
        open_issue ==> (r.opened_issue_url matches Some(u) && u@ == REPO_ISSUES_NEW_URL@ + "?title="@
            + url_encoded(issue_title(opt_view(adapter), title@)) + "&body="@ + url_encoded(
            issue_body(version@, opt_view(adapter), kind@, title@, opt_view(body), r.id@),
        )),
        !open_issue ==> r.opened_issue_url is None,
{
    let id = feedback_id(created_at, pid);
    let url = if open_issue {
        let t = build_issue_title(adapter, title);
        let b = build_issue_body(version, adapter, kind, title, body, id.as_str());
        Some(build_issue_url(t.as_str(), b.as_str()))
    } else {
        None
    };
    FeedbackRecord {
        id,
        created_at,
        version: version.to_owned(),
        adapter: opt_owned(adapter),
        kind: kind.to_owned(),
        title: title.to_owned(),
        body: opt_owned(body),
        opened_issue_url: url,
    }
}

proof fn lemma_contains_middle(a: Seq<char>, t: Seq<char>, b: Seq<char>)
    ensures
        contains(a + t + b, t),
{
    assert((a + t + b).subrange(a.len() as int, (a.len() + t.len()) as int) =~= t);
    assert(matches_at(a + t + b, t, a.len() as int));
}

proof fn lemma_issue_body_parts(
    version: Seq<char>,
    adapter: Option<Seq<char>>,
    kind: Seq<char>,
    title: Seq<char>,
    body: Option<Seq<char>>,
    record_id: Seq<char>,
)
    ensures
        issue_body(version, adapter, kind, title, body, record_id) == "## Feedback\n\n"@ + ("- Version: `"@
            + version + "`\n"@) + ("- Kind: `"@ + kind + "`\n"@) + (if given(adapter) {
            "- Adapter: `"@ + adapter->0 + "`\n"@
        } else {
            Seq::empty()
        }) + ("- Local record: `"@ + record_id + "`\n\n"@) + ("### Title\n"@ + title) + "\n\n"@ + (if given(
            body,
        ) {
            "### Details\n"@ + body->0 + "\n"@
        } else {
            Seq::empty()
        }),
{
    assert(issue_body(version, adapter, kind, title, body, record_id) =~= "## Feedback\n\n"@ + ("- Version: `"@
        + version + "`\n"@) + ("- Kind: `"@ + kind + "`\n"@) + (if given(adapter) {
        "- Adapter: `"@ + adapter->0 + "`\n"@
    } else {
        Seq::empty()
    }) + ("- Local record: `"@ + record_id + "`\n\n"@) + ("### Title\n"@ + title) + "\n\n"@ + (if given(
        body,
    ) {
        "### Details\n"@ + body->0 + "\n"@
    } else {
        Seq::empty()
    }));
}

/// The issue body names what it was given: for a given (not blank)
/// adapter it holds the line `- Adapter: `{adapter}``; details, when
/// given, follow a `### Details` heading; the title follows a `### Title`
/// heading; the version and the kind have their own lines.
pub proof fn law_issue_body_names_what_is_given(
    version: Seq<char>,
    adapter: Option<Seq<char>>,
    kind: Seq<char>,
    title: Seq<char>,
    body: Option<Seq<char>>,
    record_id: Seq<char>,
)
    ensures
        given(adapter) ==> contains(
            issue_body(version, adapter, kind, title, body, record_id),
            "- Adapter: `"@ + adapter->0 + "`\n"@,
        ),
        given(body) ==> contains(
            issue_body(version, adapter, kind, title, body, record_id),
            "### Details\n"@ + body->0 + "\n"@,
        ),
        contains(issue_body(version, adapter, kind, title, body, record_id), "### Title\n"@ + title),
        contains(
            issue_body(version, adapter, kind, title, body, record_id),
            "- Version: `"@ + version + "`\n"@,
        ),
        contains(issue_body(version, adapter, kind, title, body, record_id), "- Kind: `"@ + kind + "`\n"@),
{
    lemma_issue_body_parts(version, adapter, kind, title, body, record_id);
    let head = "## Feedback\n\n"@;
    let vl = "- Version: `"@ + version + "`\n"@;
    let kl = "- Kind: `"@ + kind + "`\n"@;
    let al: Seq<char> = if given(adapter) {
        "- Adapter: `"@ + adapter->0 + "`\n"@
    } else {
        Seq::empty()
    };
    let rl = "- Local record: `"@ + record_id + "`\n\n"@;
    let tl = "### Title\n"@ + title;
    let gap = "\n\n"@;
    let dl: Seq<char> = if given(body) {
        "### Details\n"@ + body->0 + "\n"@
    } else {
        Seq::empty()
    };
    let full = issue_body(version, adapter, kind, title, body, record_id);
    assert(full == head + vl + kl + al + rl + tl + gap + dl);
    let e = Seq::<char>::empty();
    lemma_contains_middle(head, vl, kl + al + rl + tl + gap + dl);
    assert(head + vl + (kl + al + rl + tl + gap + dl) =~= full);
    lemma_contains_middle(head + vl, kl, al + rl + tl + gap + dl);
    assert(head + vl + kl + (al + rl + tl + gap + dl) =~= full);
    lemma_contains_middle(head + vl + kl, al, rl + tl + gap + dl);
    assert(head + vl + kl + al + (rl + tl + gap + dl) =~= full);
    lemma_contains_middle(head + vl + kl + al + rl, tl, gap + dl);
    assert(head + vl + kl + al + rl + tl + (gap + dl) =~= full);
    lemma_contains_middle(head + vl + kl + al + rl + tl + gap, dl, e);
    assert(head + vl + kl + al + rl + tl + gap + dl + e =~= full);
}

} // verus!
