//! Tools knowledge base: one Markdown document with YAML frontmatter per
//! tool. Reading the files and parsing the YAML is the caller's business;
//! the queries work on the loaded list in memory.
use vstd::prelude::*;

use crate::adapter_settings::strictly_sorted;
use crate::order::{lemma_lt_asymmetric, lemma_lt_total, lemma_lt_transitive, seq_lt, str_lt};
use crate::text::{
    chars_of, contains, contains_exec, find_char, find_from, first_match, index_of_char,
    lemma_first_match, slice_chars, starts_with, starts_with_exec, string_of, trim, trim_chars,
    trim_start, trim_start_index,
};

verus! {

/// What the frontmatter of a tool file says.
#[derive(Debug)]
pub struct ToolFrontmatter {
    pub name: String,
    pub binary: String,
    pub homepage: Option<String>,
    pub tags: Vec<String>,
    /// Install commands by platform: `mac`, `linux`, `windows` or `default`.
    pub install: Vec<(String, String)>,
}

/// One tool of the knowledge base.
#[derive(Debug)]
pub struct Tool {
    pub name: String,
    pub binary: String,
    /// The first non-empty line of the body.
    pub description: String,
    pub homepage: Option<String>,
    pub tags: Vec<String>,
    /// Install commands by platform: `mac`, `linux`, `windows` or `default`.
    pub install: Vec<(String, String)>,
    /// The Markdown body after the frontmatter.
    pub body: String,
}

/// The command stored under `key`, the first pair with that key counting.
pub open spec fn lookup_command(pairs: Seq<(String, String)>, key: Seq<char>) -> Option<Seq<char>>
    decreases pairs.len(),
{
    if pairs.len() == 0 {
        None
    } else if pairs[0].0@ == key {
        Some(pairs[0].1@)
    } else {
        lookup_command(pairs.drop_first(), key)
    }
}

fn find_command<'a>(pairs: &'a Vec<(String, String)>, key: &str) -> (r: Option<&'a str>)
    ensures
        match r {
            Some(c) => lookup_command(pairs@, key@) == Some(c@),
            None => lookup_command(pairs@, key@) is None,
        },
{
    let k = key.to_owned();
    let mut i: usize = 0;
    assert(pairs@.skip(0) =~= pairs@);
    while i < pairs.len()
        invariant
            i <= pairs.len(),
            k@ == key@,
            lookup_command(pairs@, key@) == lookup_command(pairs@.skip(i as int), key@),
        decreases pairs.len() - i,
    {
        assert(pairs@.skip(i as int)[0] == pairs@[i as int]);
        if pairs[i].0 == k {
            return Some(pairs[i].1.as_str());
        }
        assert(pairs@.skip(i as int).drop_first() =~= pairs@.skip(i + 1));
        i = i + 1;
    }
    None
}

/// The install command for `platform`, else the `default` one.
pub open spec fn install_command_for(install: Seq<(String, String)>, platform: Seq<char>) -> Option<
    Seq<char>,
> {
    match lookup_command(install, platform) {
        Some(c) => Some(c),
        None => lookup_command(install, "default"@),
    }
}

impl Tool {
    /// The install command for `platform` (`mac`, `linux` or `windows`,
    /// the platform this runs on), falling back to the `default` one.
    pub fn install_cmd(&self, platform: &str) -> (r: Option<&str>)
        ensures
            match r {
                Some(c) => install_command_for(self.install@, platform@) == Some(c@),
                None => install_command_for(self.install@, platform@) is None,
            },
    {
        match find_command(&self.install, platform) {
            Some(c) => Some(c),
            None => find_command(&self.install, "default"),
        }
    }
}

/// The Unicode lowercase mapping of a text, as `str::to_lowercase` gives it.
pub uninterp spec fn unicode_lowercase(s: Seq<char>) -> Seq<char>;

/// Calls `str::to_lowercase`, whose result depends on the text alone: it is
/// named `unicode_lowercase`, and nothing more is claimed of it.
#[verifier::external_body]
pub(crate) fn to_lowercase(s: &str) -> (r: String)
    ensures
        r@ == unicode_lowercase(s@),
{
    s.to_lowercase()
}

/// Whether `q` occurs in one of `fields`.
pub fn any_field_contains(fields: &Vec<String>, q: &str) -> (b: bool)
    ensures
        b == exists|i: int| 0 <= i < fields.len() && contains(#[trigger] fields@[i]@, q@),
{
    let qv = chars_of(q);
    let mut i: usize = 0;
    while i < fields.len()
        invariant
            i <= fields.len(),
            qv@ == q@,
            forall|j: int| 0 <= j < i ==> !contains(#[trigger] fields@[j]@, q@),
        decreases fields.len() - i,
    {
        let fv = chars_of(fields[i].as_str());
        if contains_exec(&fv, &qv) {
            return true;
        }
        i = i + 1;
    }
    false
}

/// The lowercased texts that a search looks at: name, binary, description
/// and every tag.
pub open spec fn search_fields(t: Tool) -> Seq<Seq<char>> {
    seq![
        unicode_lowercase(t.name@),
        unicode_lowercase(t.binary@),
        unicode_lowercase(t.description@),
    ] + t.tags@.map_values(|g: String| unicode_lowercase(g@))
}

/// Whether the lowercased query `q` occurs in one of the tool's texts.
pub open spec fn tool_matches(t: Tool, q: Seq<char>) -> bool {
    exists|i: int| 0 <= i < search_fields(t).len() && contains(#[trigger] search_fields(t)[i], q)
}

/// The tools that match `q`, in their order.
pub open spec fn matching_tools(s: Seq<Tool>, q: Seq<char>) -> Seq<Tool>
    decreases s.len(),
{
    if s.len() == 0 {
        s
    } else if tool_matches(s.last(), q) {
        matching_tools(s.drop_last(), q).push(s.last())
    } else {
        matching_tools(s.drop_last(), q)
    }
}

pub open spec fn derefs<'a>(s: Seq<&'a Tool>) -> Seq<Tool> {
    s.map_values(|t: &'a Tool| *t)
}

fn lowered_fields(t: &Tool) -> (r: Vec<String>)
    ensures
        r@.map_values(|f: String| f@) == search_fields(*t),
{
    let mut r: Vec<String> = Vec::new();
    r.push(to_lowercase(t.name.as_str()));
    r.push(to_lowercase(t.binary.as_str()));
    r.push(to_lowercase(t.description.as_str()));
    let ghost head = r@.map_values(|f: String| f@);
    let ghost tags = t.tags@.map_values(|g: String| unicode_lowercase(g@));
    let mut i: usize = 0;
    while i < t.tags.len()
        invariant
            i <= t.tags.len(),
            tags == t.tags@.map_values(|g: String| unicode_lowercase(g@)),
            head.len() == 3,
            r@.map_values(|f: String| f@) == head + tags.take(i as int),
        decreases t.tags.len() - i,
    {
        let ghost prev = r@;
        r.push(to_lowercase(t.tags[i].as_str()));
        assert(r@.map_values(|f: String| f@) =~= prev.map_values(|f: String| f@).push(tags[i as int]));
        assert(tags.take(i + 1) =~= tags.take(i as int).push(tags[i as int]));
        assert(head + tags.take(i + 1) =~= (head + tags.take(i as int)).push(tags[i as int]));
        i = i + 1;
    }
    assert(tags.take(t.tags.len() as int) =~= tags);
    assert(head =~= seq![
        unicode_lowercase(t.name@),
        unicode_lowercase(t.binary@),
        unicode_lowercase(t.description@),
    ]);
    r
}

/// Searches tools by keyword, case-insensitively, in name, binary,
/// description and tags. A blank query matches every tool.
pub fn search<'a>(query: &str, tools: &'a [Tool]) -> (r: Vec<&'a Tool>)
    ensures
        derefs(r@) == (if trim(query@).len() == 0 {
            tools@
        } else {
            matching_tools(tools@, unicode_lowercase(query@))
        }),
{
    let blank = trim_chars(&chars_of(query)).len() == 0;
    let q = to_lowercase(query);
    let mut r: Vec<&'a Tool> = Vec::new();
    let mut i: usize = 0;
    assert(tools@.take(0) =~= Seq::<Tool>::empty());
    while i < tools.len()
        invariant
            i <= tools.len(),
            blank == (trim(query@).len() == 0),
            q@ == unicode_lowercase(query@),
            derefs(r@) == (if blank {
                tools@.take(i as int)
            } else {
                matching_tools(tools@.take(i as int), q@)
            }),
        decreases tools.len() - i,
    {
        let t: &'a Tool = &tools[i];
        let ghost s = tools@.take(i + 1);
        assert(s.drop_last() =~= tools@.take(i as int));
        assert(s.last() == *t);
        let ghost prev = r@;
        if blank {
            r.push(t);
            assert(derefs(r@) =~= derefs(prev).push(*t));
        } else {
            let fields = lowered_fields(t);
            let hit = any_field_contains(&fields, q.as_str());
            proof {
                let sf = search_fields(*t);
                if hit {
                    let j = choose|j: int| 0 <= j < fields.len() && contains(#[trigger] fields@[j]@, q@);
                    assert(sf[j] == fields@[j]@);
                } else {
                    assert forall|j: int| 0 <= j < sf.len() implies !contains(#[trigger] sf[j], q@) by {
                        assert(sf[j] == fields@[j]@);
                    }
                }
            }
            if hit {
                r.push(t);
                assert(derefs(r@) =~= derefs(prev).push(*t));
            }
        }
        i = i + 1;
    }
    assert(tools@.take(tools.len() as int) =~= tools@);
    r
}

/// Finds the first tool with exactly this name.
pub fn find_by_name<'a>(name: &str, tools: &'a [Tool]) -> (r: Option<&'a Tool>)
    ensures
        match r {
            Some(t) => exists|i: int|
                0 <= i < tools.len() && tools@[i] == *t && t.name@ == name@ && forall|j: int|
                    0 <= j < i ==> #[trigger] tools@[j].name@ != name@,
            None => forall|i: int| 0 <= i < tools.len() ==> #[trigger] tools@[i].name@ != name@,
        },
{
    let k = name.to_owned();
    let mut i: usize = 0;
    while i < tools.len()
        invariant
            i <= tools.len(),
            k@ == name@,
            forall|j: int| 0 <= j < i ==> #[trigger] tools@[j].name@ != name@,
        decreases tools.len() - i,
    {
        if tools[i].name == k {
            return Some(&tools[i]);
        }
        i = i + 1;
    }
    None
}

/// A tool's name, short description and whether it is installed.
#[derive(Debug)]
pub struct ToolSummary {
    pub name: String,
    pub description: String,
    pub installed: bool,
}

/// Name and short description of every tool, with whether its binary was
/// found on this machine (`installed`, one flag per tool).
pub fn summary(tools: &[Tool], installed: &[bool]) -> (r: Vec<ToolSummary>)
    requires
        installed.len() == tools.len(),
    ensures
        r.len() == tools.len(),
        forall|i: int|
            0 <= i < tools.len() ==> (#[trigger] r@[i]).name@ == tools@[i].name@ && r@[i].description@
                == tools@[i].description@ && r@[i].installed == installed@[i],
{
    let mut r: Vec<ToolSummary> = Vec::new();
    let mut i: usize = 0;
    while i < tools.len()
        invariant
            i <= tools.len() == installed.len(),
            r.len() == i,
            forall|j: int|
                0 <= j < i ==> (#[trigger] r@[j]).name@ == tools@[j].name@ && r@[j].description@
                    == tools@[j].description@ && r@[j].installed == installed@[j],
        decreases tools.len() - i,
    {
        r.push(
            ToolSummary {
                name: tools[i].name.clone(),
                description: tools[i].description.clone(),
                installed: installed[i],
            },
        );
        i = i + 1;
    }
    r
}

/// `s` without its leading newlines.
pub open spec fn strip_newlines(s: Seq<char>) -> Seq<char>
    decreases s.len(),
{
    if s.len() > 0 && s[0] == '\n' {
        strip_newlines(s.drop_first())
    } else {
        s
    }
}

/// The YAML frontmatter and the body of a tool file: after leading
/// whitespace the file opens with `---`, and the frontmatter runs to the
/// first line that starts with `---`; the body follows that marker,
/// without its leading newlines.
pub open spec fn frontmatter_parts(content: Seq<char>) -> Option<(Seq<char>, Seq<char>)> {
    let c = trim_start(content);
    if !starts_with(c, "---"@) {
        None
    } else {
        let a = c.skip(3);
        if !contains(a, "\n---"@) {
            None
        } else {
            let k = first_match(a, "\n---"@);
            Some((a.take(k), strip_newlines(a.skip(k + 4))))
        }
    }
}

/// Splits a tool file into its YAML frontmatter and its body.
pub fn split_frontmatter(content: &str) -> (r: Option<(String, String)>)
    ensures
        match r {
            Some((yaml, body)) => frontmatter_parts(content@) == Some((yaml@, body@)),
            None => frontmatter_parts(content@) is None,
        },
{
    let v = chars_of(content);
    let start = trim_start_index(&v);
    let c = slice_chars(&v, start, v.len());
    assert(c@ =~= trim_start(content@));
    let open_mark = chars_of("---");
    proof {
        reveal_strlit("---");
    }
    if !starts_with_exec(&c, &open_mark) {
        return None;
    }
    let a = slice_chars(&c, 3, c.len());
    assert(a@ =~= c@.skip(3));
    let close_mark = chars_of("\n---");
    let k = match find_from(&a, &close_mark, 0) {
        Some(k) => k,
        None => {
            return None;
        },
    };
    proof {
        lemma_first_match(a@, close_mark@, k as int);
        reveal_strlit("\n---");
    }
    let yaml = slice_chars(&a, 0, k);
    assert(yaml@ =~= a@.take(k as int));
    let mut b: usize = k + 4;
    assert(a@.skip(b as int) =~= a@.skip(k + 4));
    while b < a.len() && a[b] == '\n'
        invariant
            k + 4 <= b <= a.len(),
            strip_newlines(a@.skip(k + 4)) == strip_newlines(a@.skip(b as int)),
        decreases a.len() - b,
    {
        assert(a@.skip(b as int).drop_first() =~= a@.skip(b + 1));
        b = b + 1;
    }
    let body = slice_chars(&a, b, a.len());
    assert(body@ =~= a@.skip(b as int));
    Some((string_of(&yaml), string_of(&body)))
}

/// The first line of `s` that is not blank, trimmed; empty if there is
/// none.
pub open spec fn first_text_line(s: Seq<char>) -> Seq<char>
    decreases s.len(),
{
    let e = index_of_char(s, '\n');
    if trim(s.take(e)).len() > 0 {
        trim(s.take(e))
    } else if 0 <= e < s.len() {
        first_text_line(s.skip(e + 1))
    } else {
        Seq::empty()
    }
}

/// The first non-blank line of a body, trimmed.
pub fn first_line_of(body: &str) -> (r: String)
    ensures
        r@ == first_text_line(body@),
{
    let v = chars_of(body);
    let mut pos: usize = 0;
    assert(v@.skip(0) =~= v@);
    loop
        invariant
            pos <= v.len(),
            v@ == body@,
            first_text_line(v@) == first_text_line(v@.skip(pos as int)),
        decreases v.len() - pos,
    {
        let e = find_char(&v, '\n', pos);
        let line = trim_chars(&slice_chars(&v, pos, e));
        let ghost rest = v@.skip(pos as int);
        assert(v@.subrange(pos as int, e as int) =~= rest.take(e - pos));
        assert(first_text_line(rest) == (if trim(rest.take(e - pos)).len() > 0 {
            trim(rest.take(e - pos))
        } else if 0 <= e - pos < rest.len() {
            first_text_line(rest.skip(e - pos + 1))
        } else {
            Seq::<char>::empty()
        }));
        if line.len() > 0 {
            return string_of(&line);
        }
        if e == v.len() {
            return String::new();
        }
        assert(rest.skip(e - pos + 1) =~= v@.skip(e + 1));
        pos = e + 1;
    }
}

/// Builds a tool from its parsed frontmatter and its body; the description
/// is the body's first non-blank line.
pub fn tool_from_frontmatter(fm: ToolFrontmatter, body: String) -> (t: Tool)
    ensures
        t.name == fm.name,
        t.binary == fm.binary,
        t.homepage == fm.homepage,
        t.tags == fm.tags,
        t.install == fm.install,
        t.body == body,
        t.description@ == first_text_line(body@),
{
    let description = first_line_of(body.as_str());
    Tool {
        name: fm.name,
        binary: fm.binary,
        description,
        homepage: fm.homepage,
        tags: fm.tags,
        install: fm.install,
        body,
    }
}

pub open spec fn tool_names(s: Seq<Tool>) -> Seq<Seq<char>> {
    s.map_values(|t: Tool| t.name@)
}

/// No tool before index `i` has the name of tool `i`.
pub open spec fn first_with_name(s: Seq<Tool>, i: int) -> bool {
    forall|k: int| 0 <= k < i ==> (#[trigger] s[k]).name@ != s[i].name@
}

/// `t` is one of the first `n` tools of `s`, and the first of its name.
pub open spec fn picked_from(s: Seq<Tool>, n: int, t: Tool) -> bool {
    exists|i: int| 0 <= i < n && s[i] == t && first_with_name(s, i)
}

/// Some tool of `o` has this name.
pub open spec fn name_in(o: Seq<Tool>, name: Seq<char>) -> bool {
    exists|j: int| 0 <= j < o.len() && o[j].name@ == name
}

/// `o` is, sorted by name, the first tool of each name among the first `n`
/// of `s`.
#[verifier::opaque]
spec fn deduped_upto(s: Seq<Tool>, o: Seq<Tool>, n: int) -> bool {
    &&& strictly_sorted(tool_names(o))
    &&& forall|j: int| 0 <= j < o.len() ==> #[trigger] picked_from(s, n, o[j])
    &&& forall|i: int| 0 <= i < n ==> #[trigger] name_in(o, s[i].name@)
}

proof fn lemma_dedup_skip(s: Seq<Tool>, o: Seq<Tool>, n: int, p: int)
    requires
        deduped_upto(s, o, n),
        0 <= n < s.len(),
        0 <= p < o.len(),
        o[p].name@ == s[n].name@,
    ensures
        deduped_upto(s, o, n + 1),
{
    reveal(deduped_upto);
    assert forall|j: int| 0 <= j < o.len() implies #[trigger] picked_from(s, n + 1, o[j]) by {
        assert(picked_from(s, n, o[j]));
        let i = choose|i: int| 0 <= i < n && s[i] == o[j] && first_with_name(s, i);
        assert(0 <= i < n + 1 && s[i] == o[j] && first_with_name(s, i));
    }
    assert forall|i: int| 0 <= i < n + 1 implies #[trigger] name_in(o, s[i].name@) by {
        if i == n {
            assert(o[p].name@ == s[i].name@);
        }
    }
}

proof fn lemma_dedup_insert(s: Seq<Tool>, o: Seq<Tool>, n: int, p: int)
    requires
        deduped_upto(s, o, n),
        0 <= n < s.len(),
        0 <= p <= o.len(),
        forall|j: int| 0 <= j < p ==> seq_lt((#[trigger] o[j]).name@, s[n].name@),
        forall|j: int| p <= j < o.len() ==> seq_lt(s[n].name@, (#[trigger] o[j]).name@),
    ensures
        deduped_upto(s, o.insert(p, s[n]), n + 1),
{
    reveal(deduped_upto);
    let x = s[n];
    let o2 = o.insert(p, x);
    let names = tool_names(o);
    let names2 = tool_names(o2);
    assert(names2 =~= names.insert(p, x.name@));
    assert forall|a: int, b: int| 0 <= a < b < names2.len() implies seq_lt(#[trigger] names2[a], #[trigger] names2[b]) by {
        if a < p {
            assert(names2[a] == names[a]);
            if b < p {
                assert(names2[b] == names[b]);
            } else if b > p {
                assert(names2[b] == names[b - 1]);
                assert(seq_lt(o[a].name@, x.name@));
                assert(seq_lt(x.name@, o[b - 1].name@));
                lemma_lt_transitive(names[a], x.name@, names[b - 1]);
            } else {
                assert(seq_lt(o[a].name@, x.name@));
            }
        } else if a == p {
            assert(names2[b] == names[b - 1]);
            assert(seq_lt(x.name@, o[b - 1].name@));
        } else {
            assert(names2[a] == names[a - 1]);
            assert(names2[b] == names[b - 1]);
        }
    }
    assert(first_with_name(s, n)) by {
        assert forall|k: int| 0 <= k < n implies (#[trigger] s[k]).name@ != s[n].name@ by {
            assert(name_in(o, s[k].name@));
            let j = choose|j: int| 0 <= j < o.len() && o[j].name@ == s[k].name@;
            if s[k].name@ == s[n].name@ {
                if j < p {
                    lemma_lt_asymmetric(o[j].name@, x.name@);
                } else {
                    lemma_lt_asymmetric(x.name@, o[j].name@);
                }
            }
        }
    }
    assert forall|j: int| 0 <= j < o2.len() implies #[trigger] picked_from(s, n + 1, o2[j]) by {
        if j == p {
            assert(0 <= n < n + 1 && s[n] == o2[j] && first_with_name(s, n));
        } else {
            let j0 = if j < p { j } else { j - 1 };
            assert(o2[j] == o[j0]);
            assert(picked_from(s, n, o[j0]));
            let i = choose|i: int| 0 <= i < n && s[i] == o[j0] && first_with_name(s, i);
            assert(0 <= i < n + 1 && s[i] == o2[j] && first_with_name(s, i));
        }
    }
    assert forall|i: int| 0 <= i < n + 1 implies #[trigger] name_in(o2, s[i].name@) by {
        if i == n {
            assert(o2[p].name@ == s[i].name@);
        } else {
            assert(name_in(o, s[i].name@));
            let j = choose|j: int| 0 <= j < o.len() && o[j].name@ == s[i].name@;
            if j < p {
                assert(o2[j] == o[j]);
            } else {
                assert(o2[j + 1] == o[j]);
            }
        }
    }
}

/// The tools found in the tool directories, nearer directories first: the
/// first tool of each name, sorted by name.
pub fn load_tools(found: Vec<Tool>) -> (r: Vec<Tool>)
    ensures
        strictly_sorted(tool_names(r@)),
        forall|j: int| 0 <= j < r.len() ==> #[trigger] picked_from(found@, found.len() as int, r@[j]),
        forall|i: int| 0 <= i < found.len() ==> #[trigger] name_in(r@, found@[i].name@),
{
    let ghost s = found@;
    let mut out: Vec<Tool> = Vec::new();
    proof {
        reveal(deduped_upto);
    }
    for t in it: found.into_iter()
        invariant
            it.seq() == s,
            deduped_upto(s, out@, it.index() as int),
    {
        let ghost n = it.index() as int;
        assert(t == s[n]);
        let mut p: usize = 0;
        while p < out.len() && str_lt(out[p].name.as_str(), t.name.as_str())
            invariant
                p <= out.len(),
                forall|j: int| 0 <= j < p ==> seq_lt((#[trigger] out@[j]).name@, t.name@),
            decreases out.len() - p,
        {
            p = p + 1;
        }
        if p < out.len() && out[p].name == t.name {
            proof {
                lemma_dedup_skip(s, out@, n, p as int);
            }
        } else {
            proof {
                reveal(deduped_upto);
                let names = tool_names(out@);
                assert forall|j: int| p <= j < out.len() implies seq_lt(t.name@, (#[trigger] out@[j]).name@) by {
                    lemma_lt_total(out@[p as int].name@, t.name@);
                    if j > p {
                        assert(names[p as int] == out@[p as int].name@);
                        assert(names[j] == out@[j].name@);
                        assert(seq_lt(names[p as int], names[j]));
                        lemma_lt_transitive(t.name@, out@[p as int].name@, out@[j].name@);
                    }
                }
                lemma_dedup_insert(s, out@, n, p as int);
            }
            out.insert(p, t);
        }
    }
    proof {
        reveal(deduped_upto);
    }
    out
}

} // verus!
