//! Which adapters the browser extension may offer on a page: the page's
//! URL must be HTTP(S), its host must be the adapter's domain or under it,
//! and its path must match one of the action's path patterns.
use vstd::prelude::*;

use crate::command::ContextAction;
use crate::text::{
    chars_of, ends_with, ends_with_exec, lower_seq, slice_chars, str_eq, to_ascii_lower, trim,
    trim_char_end, trim_chars,
};

verus! {

/// The parts of a URL that the extension's checks read.
#[derive(Debug)]
pub struct UrlParts {
    /// The scheme, lower-cased, without the `:`.
    pub scheme: String,
    /// The host, when the URL has one.
    pub host: Option<String>,
    /// The path, without query and fragment.
    pub path: String,
    /// The origin as `Origin::ascii_serialization` writes it, when it is a
    /// (scheme, host, port) tuple; none when it is opaque. Opaque origins
    /// are equal to no other, and tuple origins are equal exactly when
    /// their serializations are, as the default port of a scheme is the
    /// only one left out.
    pub origin: Option<String>,
}

/// The parts of a parsed URL: scheme, host, path and tuple origin.
pub type UrlView = (Seq<char>, Option<Seq<char>>, Seq<char>, Option<Seq<char>>);

/// What `url::Url::parse` makes of a text: nothing when it is no URL,
/// else the scheme, the host, the path and the serialized tuple origin. It
/// depends on the text alone.
pub uninterp spec fn parsed_url(text: Seq<char>) -> Option<UrlView>;

pub open spec fn opt_text(o: Option<String>) -> Option<Seq<char>> {
    match o {
        Some(s) => Some(s@),
        None => None,
    }
}

pub open spec fn parts_view(u: UrlParts) -> UrlView {
    (u.scheme@, opt_text(u.host), u.path@, opt_text(u.origin))
}

/// Calls `url::Url::parse` and reads its scheme, host, path and origin;
/// the outcome is named `parsed_url` and nothing more is claimed of it.
#[verifier::external_body]
pub(crate) fn parse_url(text: &str) -> (r: Option<UrlParts>)
    ensures
        match r {
            Some(u) => parsed_url(text@) == Some(parts_view(u)),
            None => parsed_url(text@) is None,
        },
{
    match url::Url::parse(text) {
        Ok(u) => Some(UrlParts {
            scheme: u.scheme().to_string(),
            host: u.host_str().map(String::from),
            path: u.path().to_string(),
            origin: match u.origin() {
                o @ url::Origin::Tuple(..) => Some(o.ascii_serialization()),
                url::Origin::Opaque(_) => None,
            },
        }),
        Err(_) => None,
    }
}

/// What the extension API answers about a page URL: its parts, or why it
/// refuses it.
pub open spec fn page_url_outcome(text: Seq<char>) -> Result<UrlView, Seq<char>> {
    match parsed_url(text) {
        None => Err("Invalid page URL"@),
        Some(p) => if p.0 == "http"@ || p.0 == "https"@ {
            Ok(p)
        } else {
            Err("Only HTTP(S) pages are supported"@)
        },
    }
}

/// Parses a page URL and accepts only HTTP(S) pages.
pub fn check_page_url(text: &str) -> (r: Result<UrlParts, String>)
    ensures
        match r {
            Ok(u) => page_url_outcome(text@) == Ok::<UrlView, Seq<char>>(
                parts_view(u),
            ),
            Err(e) => page_url_outcome(text@) == Err::<UrlView, Seq<char>>(
                e@,
            ),
        },
{
    match parse_url(text) {
        None => Err(String::from_str("Invalid page URL")),
        Some(u) => {
            if str_eq(u.scheme.as_str(), "http") || str_eq(u.scheme.as_str(), "https") {
                Ok(u)
            } else {
                Err(String::from_str("Only HTTP(S) pages are supported"))
            }
        },
    }
}

/// Whether `value` fits the path pattern `pattern`, `*` standing for any
/// run of characters (an empty one too) and every other character for
/// itself: some way of cutting `value` into pieces fits the pattern.
pub open spec fn glob_match(pattern: Seq<char>, value: Seq<char>) -> bool
    decreases pattern.len(), value.len(),
{
    if pattern.len() == 0 {
        value.len() == 0
    } else if pattern[0] == '*' {
        glob_match(pattern.drop_first(), value) || (value.len() > 0 && glob_match(
            pattern,
            value.drop_first(),
        ))
    } else {
        value.len() > 0 && value[0] == pattern[0] && glob_match(
            pattern.drop_first(),
            value.drop_first(),
        )
    }
}

/// One step of `glob_match` on the rests of a pattern and a value.
proof fn lemma_glob_step(p: Seq<char>, v: Seq<char>, i: int, j: int)
    requires
        0 <= i < p.len(),
        0 <= j <= v.len(),
    ensures
        glob_match(p.skip(i), v.skip(j)) == if p[i] == '*' {
            glob_match(p.skip(i + 1), v.skip(j)) || (j < v.len() && glob_match(p.skip(i), v.skip(j + 1)))
        } else {
            j < v.len() && v[j] == p[i] && glob_match(p.skip(i + 1), v.skip(j + 1))
        },
{
    assert(p.skip(i).drop_first() =~= p.skip(i + 1));
    if j < v.len() {
        assert(v.skip(j).drop_first() =~= v.skip(j + 1));
    }
}

/// Whether a URL path matches a path pattern (see `glob_match`). Fills in,
/// from the end of the pattern back, which rests of the value each rest
/// of the pattern fits.
pub fn glob_matches(pattern: &str, value: &str) -> (b: bool)
    ensures
        b == glob_match(pattern@, value@),
{
    let p = chars_of(pattern);
    let v = chars_of(value);
    let n = p.len();
    let m = v.len();
    // `next[x]` says whether the rest of the pattern from `i` fits the rest
    // of the value from `x`, for `x < m`; `next_end` says it for `x == m`.
    let mut next: Vec<bool> = Vec::new();
    let mut k: usize = 0;
    assert(p@.skip(n as int).len() == 0);
    while k < m
        invariant
            k <= m,
            m == v.len(),
            n == p.len(),
            next.len() == k,
            p@.skip(n as int).len() == 0,
            forall|x: int| 0 <= x < k ==> next[x] == glob_match(p@.skip(n as int), v@.skip(x)),
        decreases m - k,
    {
        next.push(false);
        k = k + 1;
    }
    let mut next_end = true;
    let mut i: usize = n;
    while i > 0
        invariant
            i <= n,
            n == p.len(),
            m == v.len(),
            next.len() == m,
            forall|x: int| 0 <= x < m ==> next[x] == glob_match(p@.skip(i as int), v@.skip(x)),
            next_end == glob_match(p@.skip(i as int), v@.skip(m as int)),
        decreases i,
    {
        let ii = i - 1;
        let c = p[ii];
        proof {
            lemma_glob_step(p@, v@, ii as int, m as int);
        }
        let row_end = c == '*' && next_end;
        let mut row: Vec<bool> = Vec::new();
        let mut z: usize = 0;
        while z < m
            invariant
                z <= m,
                row.len() == z,
            decreases m - z,
        {
            row.push(false);
            z = z + 1;
        }
        let mut j: usize = m;
        while j > 0
            invariant
                j <= m,
                ii < n,
                c == p@[ii as int],
                n == p.len(),
                m == v.len(),
                row.len() == m,
                next.len() == m,
                forall|x: int| 0 <= x < m ==> next[x] == glob_match(p@.skip(ii + 1), v@.skip(x)),
                next_end == glob_match(p@.skip(ii + 1), v@.skip(m as int)),
                row_end == glob_match(p@.skip(ii as int), v@.skip(m as int)),
                forall|x: int| j <= x < m ==> row[x] == glob_match(p@.skip(ii as int), v@.skip(x)),
            decreases j,
        {
            j = j - 1;
            proof {
                lemma_glob_step(p@, v@, ii as int, j as int);
            }
            let after = if j + 1 < m {
                row[j + 1]
            } else {
                row_end
            };
            let next_after = if j + 1 < m {
                next[j + 1]
            } else {
                next_end
            };
            let val = if c == '*' {
                next[j] || after
            } else {
                v[j] == c && next_after
            };
            row.set(j, val);
        }
        next = row;
        next_end = row_end;
        i = ii;
    }
    assert(p@.skip(0) =~= p@);
    assert(v@.skip(0) =~= v@);
    if m == 0 {
        next_end
    } else {
        next[0]
    }
}

/// A host name as matching compares it: trimmed, without trailing dots,
/// in ASCII lower case.
pub open spec fn host_key(name: Seq<char>) -> Seq<char> {
    lower_seq(trim_char_end(trim(name), '.'))
}

/// Whether the page's host (without trailing dots, in ASCII lower case) is
/// one the action allows: one of its listed hosts when it lists any;
/// otherwise the adapter's domain or a subdomain of it.
pub open spec fn host_allowed(domain: Option<Seq<char>>, hosts: Seq<Seq<char>>, h: Seq<char>) -> bool {
    if hosts.len() > 0 {
        exists|i: int| 0 <= i < hosts.len() && h == host_key(#[trigger] hosts[i])
    } else {
        match domain {
            None => false,
            Some(d0) => {
                let d = host_key(d0);
                h == d || ends_with(h, "."@ + d)
            },
        }
    }
}

/// Whether an adapter's page action applies to a page: the page has a
/// host that the action allows (see `host_allowed`), and its path matches
/// one of the action's patterns, if it has any.
pub open spec fn context_match(domain: Option<Seq<char>>, hosts: Seq<Seq<char>>, paths: Seq<Seq<char>>, url: UrlView) -> bool {
    match url.1 {
        None => false,
        Some(h0) => host_allowed(domain, hosts, lower_seq(trim_char_end(h0, '.'))) && (paths.len() == 0
            || exists|i: int| 0 <= i < paths.len() && glob_match(#[trigger] paths[i], url.2)),
    }
}

pub open spec fn opt_str(o: Option<&str>) -> Option<Seq<char>> {
    match o {
        Some(s) => Some(s@),
        None => None,
    }
}

fn trim_dots_end(v: &Vec<char>) -> (r: Vec<char>)
    ensures
        r@ == trim_char_end(v@, '.'),
{
    let mut b: usize = v.len();
    assert(v@.subrange(0, b as int) =~= v@);
    while b > 0 && v[b - 1] == '.'
        invariant
            b <= v.len(),
            trim_char_end(v@, '.') == trim_char_end(v@.subrange(0, b as int), '.'),
        decreases b,
    {
        assert(v@.subrange(0, b as int).drop_last() =~= v@.subrange(0, b - 1));
        b = b - 1;
    }
    slice_chars(v, 0, b)
}

fn host_key_exec(name: &str) -> (r: Vec<char>)
    ensures
        r@ == host_key(name@),
{
    to_ascii_lower(&trim_dots_end(&trim_chars(&chars_of(name))))
}

/// Whether the page's host is among the listed hosts.
fn host_listed(hosts: &Vec<String>, h: &Vec<char>) -> (b: bool)
    ensures
        b == exists|i: int| 0 <= i < hosts.len() && h@ == host_key(#[trigger] crate::text::texts(hosts@)[i]),
{
    let ghost hs = crate::text::texts(hosts@);
    let mut i: usize = 0;
    while i < hosts.len()
        invariant
            i <= hosts.len(),
            hs == crate::text::texts(hosts@),
            hs.len() == hosts.len(),
            forall|j: int| 0 <= j < i ==> h@ != host_key(#[trigger] hs[j]),
        decreases hosts.len() - i,
    {
        let k = host_key_exec(hosts[i].as_str());
        assert(hs[i as int] == hosts@[i as int]@);
        if crate::order::compare_chars(h, &k) == 0 {
            return true;
        }
        i = i + 1;
    }
    false
}

/// Whether a page action applies to a page (see `context_match`).
pub fn context_matches(domain: Option<&str>, context: &ContextAction, url: &UrlParts) -> (b: bool)
    ensures
        b == context_match(
            opt_str(domain),
            crate::text::texts(context.hosts@),
            crate::text::texts(context.paths@),
            parts_view(*url),
        ),
{
    let h = match &url.host {
        None => {
            return false;
        },
        Some(h) => to_ascii_lower(&trim_dots_end(&chars_of(h.as_str()))),
    };
    if context.hosts.len() > 0 {
        if !host_listed(&context.hosts, &h) {
            return false;
        }
    } else {
        let d = match domain {
            None => {
                return false;
            },
            Some(d) => host_key_exec(d),
        };
        let mut dotted: Vec<char> = Vec::new();
        dotted.push('.');
        let mut dc = d.clone();
        dotted.append(&mut dc);
        assert(dotted@ =~= "."@ + d@) by {
            reveal_strlit(".");
        }
        let same = crate::order::compare_chars(&h, &d) == 0;
        if !same && !ends_with_exec(&h, &dotted) {
            return false;
        }
    }
    context.paths.len() == 0 || any_path_matches(&context.paths, url.path.as_str())
}

/// Whether the path matches one of the patterns.
fn any_path_matches(paths: &Vec<String>, path: &str) -> (b: bool)
    ensures
        b == exists|i: int| 0 <= i < paths.len() && glob_match(#[trigger] crate::text::texts(paths@)[i], path@),
{
    let ghost ps = crate::text::texts(paths@);
    let mut i: usize = 0;
    while i < paths.len()
        invariant
            i <= paths.len(),
            ps == crate::text::texts(paths@),
            forall|j: int| 0 <= j < i ==> !glob_match(#[trigger] ps[j], path@),
        decreases paths.len() - i,
    {
        if glob_matches(paths[i].as_str(), path) {
            assert(glob_match(ps[i as int], path@));
            return true;
        }
        i = i + 1;
    }
    false
}

} // verus!
