//! The adapters the daemon offers: one entry per command with whether it
//! is enabled, and the search over them.
use vstd::prelude::*;

use crate::adapter_yaml::AdapterFields;
use crate::command::{ArgDef, ContextAction};
use crate::json::JsonValue;
use crate::text::{concat3, contains, str_contains};
use crate::tools::{to_lowercase, unicode_lowercase};

verus! {

/// What the daemon lists of one adapter command.
#[derive(Debug)]
pub struct AdapterEntry {
    pub site: String,
    pub name: String,
    /// `site name`.
    pub full_name: String,
    pub description: String,
    pub domain: Option<String>,
    pub browser: bool,
    pub args: Vec<ArgDef>,
    pub columns: Vec<String>,
    pub pipeline: Option<Vec<JsonValue>>,
    pub timeout_seconds: Option<u64>,
    pub version: Option<String>,
    pub updated_at: Option<String>,
    pub context: Option<ContextAction>,
    pub enabled: bool,
}

impl AdapterEntry {
    /// The entry of a command read from its document; `browser` is whether
    /// it needs a browser, and `enabled` whether the settings allow it.
    pub fn from_fields(f: AdapterFields, browser: bool, context: Option<ContextAction>, enabled: bool) -> (r:
        AdapterEntry)
        ensures
            r.site@ == f.site@,
            r.name@ == f.name@,
            r.full_name@ == f.site@ + " "@ + f.name@,
            r.description@ == f.description@,
            r.domain == f.domain,
            r.browser == browser,
            r.args == f.args,
            r.columns == f.columns,
            r.pipeline == f.pipeline,
            r.timeout_seconds == f.timeout_seconds,
            r.version == f.version,
            r.updated_at == f.updated_at,
            r.context == context,
            r.enabled == enabled,
    {
        let full_name = concat3(f.site.as_str(), " ", f.name.as_str());
        AdapterEntry {
            site: f.site,
            name: f.name,
            full_name,
            description: f.description,
            domain: f.domain,
            browser,
            args: f.args,
            columns: f.columns,
            pipeline: f.pipeline,
            timeout_seconds: f.timeout_seconds,
            version: f.version,
            updated_at: f.updated_at,
            context,
            enabled,
        }
    }
}

/// Whether an entry answers a lowercased query: it is enabled and the
/// query occurs in its lowercased full name, description, site or domain.
/// An empty query matches every enabled entry.
pub open spec fn entry_matches(e: AdapterEntry, q: Seq<char>) -> bool {
    e.enabled && (q.len() == 0 || contains(unicode_lowercase(e.full_name@), q) || contains(
        unicode_lowercase(e.description@),
        q,
    ) || contains(unicode_lowercase(e.site@), q) || match e.domain {
        Some(d) => contains(unicode_lowercase(d@), q),
        None => false,
    })
}

/// The entries that answer a lowercased query, in order.
pub open spec fn matching(entries: Seq<AdapterEntry>, q: Seq<char>) -> Seq<AdapterEntry>
    decreases entries.len(),
{
    if entries.len() == 0 {
        entries
    } else if entry_matches(entries.last(), q) {
        matching(entries.drop_last(), q).push(entries.last())
    } else {
        matching(entries.drop_last(), q)
    }
}

fn matches_query(e: &AdapterEntry, q: &str) -> (r: bool)
    ensures
        r == entry_matches(*e, q@),
{
    if !e.enabled {
        return false;
    }
    if q.unicode_len() == 0 {
        return true;
    }
    if str_contains(to_lowercase(e.full_name.as_str()).as_str(), q) {
        return true;
    }
    if str_contains(to_lowercase(e.description.as_str()).as_str(), q) {
        return true;
    }
    if str_contains(to_lowercase(e.site.as_str()).as_str(), q) {
        return true;
    }
    match &e.domain {
        Some(d) => str_contains(to_lowercase(d.as_str()).as_str(), q),
        None => false,
    }
}

/// The enabled adapters whose full name, description, site or domain
/// holds the query, without regard to case; all enabled ones for an empty
/// query.
pub fn search_adapters(entries: Vec<AdapterEntry>, query: &str) -> (r: Vec<AdapterEntry>)
    ensures
        r@ == matching(entries@, unicode_lowercase(query@)),
{
    let q = to_lowercase(query);
    let ghost all = entries@;
    let mut out: Vec<AdapterEntry> = Vec::new();
    assert(matching(all.take(0), q@) =~= Seq::<AdapterEntry>::empty());
    for e in it: entries.into_iter()
        invariant
            it.seq() == all,
            out@ == matching(all.take(it.index() as int), q@),
    {
        let ghost i = it.index();
        assert(all.take(i + 1).drop_last() =~= all.take(i as int));
        assert(all.take(i + 1).last() == all[i as int]);
        if matches_query(&e, q.as_str()) {
            out.push(e);
        }
    }
    assert(all.take(all.len() as int) =~= all);
    out
}

/// The adapters `adapter.list` shows: every one with `include_disabled`,
/// else the enabled ones, in order.
pub open spec fn listed(entries: Seq<AdapterEntry>, include_disabled: bool) -> Seq<AdapterEntry>
    decreases entries.len(),
{
    if entries.len() == 0 {
        entries
    } else if include_disabled || entries.last().enabled {
        listed(entries.drop_last(), include_disabled).push(entries.last())
    } else {
        listed(entries.drop_last(), include_disabled)
    }
}

/// The adapters `adapter.list` shows.
pub fn list_adapters(entries: Vec<AdapterEntry>, include_disabled: bool) -> (r: Vec<AdapterEntry>)
    ensures
        r@ == listed(entries@, include_disabled),
{
    let ghost all = entries@;
    let mut out: Vec<AdapterEntry> = Vec::new();
    assert(listed(all.take(0), include_disabled) =~= Seq::<AdapterEntry>::empty());
    for e in it: entries.into_iter()
        invariant
            it.seq() == all,
            out@ == listed(all.take(it.index() as int), include_disabled),
    {
        let ghost i = it.index();
        assert(all.take(i + 1).drop_last() =~= all.take(i as int));
        assert(all.take(i + 1).last() == all[i as int]);
        if include_disabled || e.enabled {
            out.push(e);
        }
    }
    assert(all.take(all.len() as int) =~= all);
    out
}


/// Whether a locally found adapter answers a lowercased query: the query
/// is empty or occurs in `{full name} {site} {description} {domain}`,
/// lowercased.
pub open spec fn local_hit_of(full_name: Seq<char>, site: Seq<char>, description: Seq<char>, domain: Seq<char>, q: Seq<char>) -> bool {
    q.len() == 0 || contains(
        unicode_lowercase(full_name + " "@ + site + " "@ + description + " "@ + domain),
        q,
    )
}

/// Whether a locally found adapter answers a query (compared lowercased);
/// `domain` is empty when the adapter has none.
pub fn local_search_hit(full_name: &str, site: &str, description: &str, domain: &str, query: &str) -> (r: bool)
    ensures
        r == local_hit_of(full_name@, site@, description@, domain@, unicode_lowercase(query@)),
{
    let q = to_lowercase(query);
    if q.as_str().unicode_len() == 0 {
        return true;
    }
    let mut hay = String::from_str(full_name);
    hay.append(" ");
    hay.append(site);
    hay.append(" ");
    hay.append(description);
    hay.append(" ");
    hay.append(domain);
    str_contains(to_lowercase(hay.as_str()).as_str(), q.as_str())
}

/// `s` padded with spaces to `width` characters (`{:width}`).
pub open spec fn pad_right(s: Seq<char>, width: nat) -> Seq<char> {
    if s.len() >= width {
        s
    } else {
        s + Seq::new((width - s.len()) as nat, |i: int| ' ')
    }
}

fn pad_text(s: &str, width: usize) -> (r: String)
    ensures
        r@ == pad_right(s@, width as nat),
{
    let mut out = String::from_str(s);
    let len = s.unicode_len();
    if len >= width {
        return out;
    }
    let ghost head = out@;
    let mut k: usize = 0;
    while k < width - len
        invariant
            k <= width - len,
            out@ == head + Seq::new(k as nat, |i: int| ' '),
        decreases width - len - k,
    {
        out.append(" ");
        proof {
            reveal_strlit(" ");
        }
        assert(out@ =~= head + Seq::new((k + 1) as nat, |i: int| ' '));
        k = k + 1;
    }
    out
}

pub open spec fn yes_no(b: bool) -> Seq<char> {
    if b { "yes"@ } else { "no"@ }
}

/// A row of `adapter list`: the name in 30 columns, enabled and browser in
/// 10 and 12, then the first 40 characters of the description.
pub open spec fn list_row_of(name: Seq<char>, enabled: bool, browser: bool, desc: Seq<char>) -> Seq<char> {
    pad_right(name, 30) + " "@ + pad_right(yes_no(enabled), 10) + " "@ + pad_right(yes_no(browser), 12) + " "@
        + (if desc.len() > 40 { desc.take(40) } else { desc })
}

/// A row of `adapter list`.
pub fn adapter_list_row(name: &str, enabled: bool, browser: bool, desc: &str) -> (r: String)
    ensures
        r@ == list_row_of(name@, enabled, browser, desc@),
{
    let mut out = pad_text(name, 30);
    out.append(" ");
    out.append(pad_text(if enabled { "yes" } else { "no" }, 10).as_str());
    out.append(" ");
    out.append(pad_text(if browser { "yes" } else { "no" }, 12).as_str());
    out.append(" ");
    let d = crate::text::chars_of(desc);
    let n = if d.len() > 40 { 40 } else { d.len() };
    let cut = crate::text::slice_chars(&d, 0, n);
    assert(d@.len() > 40 ==> cut@ =~= d@.take(40));
    assert(d@.len() <= 40 ==> cut@ =~= d@);
    out.append(crate::text::string_of(&cut).as_str());
    out
}

/// What a search prints for one adapter: a blank line, the name and
/// whether it needs a browser, the description when there is one, and the
/// usage line.
pub open spec fn hit_text_of(name: Seq<char>, browser: bool, desc: Seq<char>, usage: Seq<char>) -> Seq<char> {
    "\n"@ + name + "  (browser: "@ + yes_no(browser) + ")\n"@ + (if desc.len() > 0 {
        "  "@ + desc + "\n"@
    } else {
        Seq::empty()
    }) + "  用法: "@ + usage + "\n"@
}

/// What a search prints for one adapter.
pub fn adapter_hit_text(name: &str, browser: bool, desc: &str, usage: &str) -> (r: String)
    ensures
        r@ == hit_text_of(name@, browser, desc@, usage@),
{
    let mut out = String::from_str("\n");
    out.append(name);
    out.append("  (browser: ");
    out.append(if browser { "yes" } else { "no" });
    out.append(")\n");
    if desc.unicode_len() > 0 {
        out.append("  ");
        out.append(desc);
        out.append("\n");
    }
    out.append("  用法: ");
    out.append(usage);
    out.append("\n");
    out
}

/// Search finds an adapter by any of its fields: an enabled entry whose
/// lower-cased full name, description, site or domain holds the
/// lower-cased query is among the results.
pub proof fn law_search_finds_by_any_field(entries: Seq<AdapterEntry>, query: Seq<char>, i: int)
    requires
        0 <= i < entries.len(),
        entries[i].enabled,
        ({
            let q = unicode_lowercase(query);
            let e = entries[i];
            ||| contains(unicode_lowercase(e.full_name@), q)
            ||| contains(unicode_lowercase(e.description@), q)
            ||| contains(unicode_lowercase(e.site@), q)
            ||| (e.domain matches Some(d) && contains(unicode_lowercase(d@), q))
        }),
    ensures
        matching(entries, unicode_lowercase(query)).contains(entries[i]),
    decreases entries.len(),
{
    let q = unicode_lowercase(query);
    let m = matching(entries, q);
    if i == entries.len() - 1 {
        assert(entry_matches(entries.last(), q));
        assert(m[m.len() - 1] == entries[i]);
    } else {
        let d = entries.drop_last();
        assert(d[i] == entries[i]);
        law_search_finds_by_any_field(d, query, i);
        let md = matching(d, q);
        let k = choose|k: int| 0 <= k < md.len() && md[k] == entries[i];
        if entry_matches(entries.last(), q) {
            assert(m[k] == md[k]);
        }
    }
}

/// Search only answers enabled adapters that it was given.
pub proof fn law_search_only_enabled(entries: Seq<AdapterEntry>, q: Seq<char>, k: int)
    requires
        0 <= k < matching(entries, q).len(),
    ensures
        matching(entries, q)[k].enabled,
        entries.contains(matching(entries, q)[k]),
    decreases entries.len(),
{
    let d = entries.drop_last();
    let md = matching(d, q);
    if entry_matches(entries.last(), q) && k == md.len() {
        assert(entries[entries.len() - 1] == entries.last());
    } else {
        law_search_only_enabled(d, q, k);
        let j = choose|j: int| 0 <= j < d.len() && d[j] == md[k];
        assert(entries[j] == d[j]);
    }
}

} // verus!
