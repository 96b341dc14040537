//! The adapter search index: which adapters a sync re-indexes or drops,
//! and how a search query is made safe for full-text matching. The index
//! itself lives in a database that the caller runs.
use vstd::prelude::*;

use crate::text::{chars_of, join, join_texts, split_words, string_of, texts, words};

verus! {

/// An adapter by how often it was used.
#[derive(Debug)]
pub struct HotAdapter {
    pub full_name: String,
    pub site: String,
    pub name: String,
    pub description: String,
    pub usage_count: i64,
    pub last_used: Option<i64>,
}

/// What changed during a sync.
#[derive(Debug, Clone, Copy, PartialEq, Eq, Structural)]
pub struct SyncStats {
    pub added: usize,
    pub updated: usize,
    pub removed: usize,
    pub unchanged: usize,
}

/// Whether a character is alphabetic or numeric in Unicode, as
/// `char::is_alphanumeric` tells.
pub uninterp spec fn unicode_alphanumeric(c: char) -> bool;

/// Calls `char::is_alphanumeric`, whose answer depends on the character
/// alone: it is named `unicode_alphanumeric`, and nothing more is claimed.
#[verifier::external_body]
pub(crate) fn is_alphanumeric(c: char) -> (b: bool)
    ensures
        b == unicode_alphanumeric(c),
{
    c.is_alphanumeric()
}

/// Characters that a search term keeps.
pub open spec fn term_char(c: char) -> bool {
    unicode_alphanumeric(c) || c == '-' || c == '_'
}

/// A word with only the characters a term keeps.
pub open spec fn clean_term(w: Seq<char>) -> Seq<char>
    decreases w.len(),
{
    if w.len() == 0 {
        w
    } else if term_char(w.last()) {
        clean_term(w.drop_last()).push(w.last())
    } else {
        clean_term(w.drop_last())
    }
}

/// The prefix-match terms of a query: each cleaned word that is not
/// empty, quoted and followed by `*`.
pub open spec fn fts_terms(ws: Seq<Seq<char>>) -> Seq<Seq<char>>
    decreases ws.len(),
{
    if ws.len() == 0 {
        Seq::empty()
    } else {
        let t = fts_terms(ws.drop_last());
        let c = clean_term(ws.last());
        if c.len() == 0 {
            t
        } else {
            t.push("\""@ + c + "\"*"@)
        }
    }
}

/// A query made safe for full-text matching: its terms joined by spaces,
/// or `""` when it has none.
pub open spec fn fts_query(q: Seq<char>) -> Seq<char> {
    let terms = fts_terms(words(q));
    if terms.len() == 0 {
        "\"\""@
    } else {
        join(terms, " "@)
    }
}

fn clean_word(w: &str) -> (r: Vec<char>)
    ensures
        r@ == clean_term(w@),
{
    let v = chars_of(w);
    let mut r: Vec<char> = Vec::new();
    let mut i: usize = 0;
    assert(v@.take(0) =~= Seq::<char>::empty());
    while i < v.len()
        invariant
            i <= v.len(),
            r@ == clean_term(v@.take(i as int)),
        decreases v.len() - i,
    {
        let ghost t = v@.take(i + 1);
        assert(t.drop_last() =~= v@.take(i as int));
        let c = v[i];
        if is_alphanumeric(c) || c == '-' || c == '_' {
            r.push(c);
        }
        i = i + 1;
    }
    assert(v@.take(v.len() as int) =~= v@);
    r
}

/// Makes a search query safe for full-text matching (see `fts_query`).
pub fn sanitize_fts_query(q: &str) -> (r: String)
    ensures
        r@ == fts_query(q@),
{
    let ws = split_words(q);
    let ghost wv = texts(ws@);
    let mut terms: Vec<String> = Vec::new();
    let mut i: usize = 0;
    assert(wv.take(0) =~= Seq::<Seq<char>>::empty());
    while i < ws.len()
        invariant
            i <= ws.len(),
            wv == texts(ws@),
            texts(terms@) == fts_terms(wv.take(i as int)),
        decreases ws.len() - i,
    {
        let ghost t = wv.take(i + 1);
        assert(t.drop_last() =~= wv.take(i as int));
        assert(t.last() == ws@[i as int]@);
        let c = clean_word(ws[i].as_str());
        if c.len() > 0 {
            let mut term = String::from_str("\"");
            term.append(string_of(&c).as_str());
            term.append("\"*");
            let ghost prev = texts(terms@);
            terms.push(term);
            assert(texts(terms@) =~= prev.push("\""@ + c@ + "\"*"@));
        }
        i = i + 1;
    }
    assert(wv.take(ws.len() as int) =~= wv);
    if terms.len() == 0 {
        String::from_str("\"\"")
    } else {
        join_texts(&terms, " ")
    }
}

/// An adapter as the index knows it: its full name and the modification
/// times of its YAML file and of its summary.
#[derive(Debug)]
pub struct IndexedAdapter {
    pub full_name: String,
    pub yaml_mtime: i64,
    pub summary_mtime: i64,
}

/// The times last indexed for a name, the first entry of that name
/// counting.
pub open spec fn meta_of(existing: Seq<IndexedAdapter>, name: Seq<char>) -> Option<(i64, i64)>
    decreases existing.len(),
{
    if existing.len() == 0 {
        None
    } else if existing[0].full_name@ == name {
        Some((existing[0].yaml_mtime, existing[0].summary_mtime))
    } else {
        meta_of(existing.drop_first(), name)
    }
}

/// Whether an adapter must be re-indexed: it is new, or one of its times
/// changed.
pub open spec fn needs_update(existing: Seq<IndexedAdapter>, a: IndexedAdapter) -> bool {
    match meta_of(existing, a.full_name@) {
        None => true,
        Some((y, s)) => y != a.yaml_mtime || s != a.summary_mtime,
    }
}

/// The indexed names that no current adapter has, in order.
pub open spec fn stale_names(existing: Seq<IndexedAdapter>, current: Seq<IndexedAdapter>) -> Seq<Seq<char>>
    decreases existing.len(),
{
    if existing.len() == 0 {
        Seq::empty()
    } else {
        let s = stale_names(existing.drop_last(), current);
        let n = existing.last().full_name@;
        if exists|i: int| 0 <= i < current.len() && (#[trigger] current[i]).full_name@ == n {
            s
        } else {
            s.push(n)
        }
    }
}

/// The current adapters that must be re-indexed, by index, in order.
pub open spec fn update_indices(existing: Seq<IndexedAdapter>, current: Seq<IndexedAdapter>, n: int) -> Seq<usize>
    decreases n,
{
    if n <= 0 {
        Seq::empty()
    } else {
        let u = update_indices(existing, current, n - 1);
        if needs_update(existing, current[n - 1]) {
            u.push((n - 1) as usize)
        } else {
            u
        }
    }
}

/// Counts of a sync over the first `n` current adapters: re-indexed ones
/// are added when new and updated otherwise, the rest unchanged.
pub open spec fn count_changes(existing: Seq<IndexedAdapter>, current: Seq<IndexedAdapter>, n: int) -> (nat, nat, nat)
    decreases n,
{
    if n <= 0 {
        (0, 0, 0)
    } else {
        let (a, u, k) = count_changes(existing, current, n - 1);
        let c = current[n - 1];
        if !needs_update(existing, c) {
            (a, u, k + 1)
        } else if meta_of(existing, c.full_name@) is Some {
            (a, u + 1, k)
        } else {
            (a + 1, u, k)
        }
    }
}

/// What a sync does: the current adapters it re-indexes, the indexed
/// names it drops, and its counts.
#[derive(Debug)]
pub struct SyncPlan {
    pub reindex: Vec<usize>,
    pub stale: Vec<String>,
    pub stats: SyncStats,
}

fn meta_lookup(existing: &Vec<IndexedAdapter>, name: &String) -> (r: Option<(i64, i64)>)
    ensures
        r == meta_of(existing@, name@),
{
    let mut i: usize = 0;
    assert(existing@.skip(0) =~= existing@);
    while i < existing.len()
        invariant
            i <= existing.len(),
            meta_of(existing@, name@) == meta_of(existing@.skip(i as int), name@),
        decreases existing.len() - i,
    {
        assert(existing@.skip(i as int)[0] == existing@[i as int]);
        if existing[i].full_name == *name {
            return Some((existing[i].yaml_mtime, existing[i].summary_mtime));
        }
        assert(existing@.skip(i as int).drop_first() =~= existing@.skip(i + 1));
        i = i + 1;
    }
    None
}

fn has_name(current: &Vec<IndexedAdapter>, name: &String) -> (b: bool)
    ensures
        b == exists|i: int| 0 <= i < current.len() && (#[trigger] current@[i]).full_name@ == name@,
{
    let mut i: usize = 0;
    while i < current.len()
        invariant
            i <= current.len(),
            forall|j: int| 0 <= j < i ==> (#[trigger] current@[j]).full_name@ != name@,
        decreases current.len() - i,
    {
        if current[i].full_name == *name {
            return true;
        }
        i = i + 1;
    }
    false
}

/// Plans an incremental sync of the index against the current adapters.
pub fn sync_plan(existing: &Vec<IndexedAdapter>, current: &Vec<IndexedAdapter>) -> (r: SyncPlan)
    ensures
        r.reindex@ == update_indices(existing@, current@, current@.len() as int),
        texts(r.stale@) == stale_names(existing@, current@),
        r.stats.removed == r.stale@.len(),
        (r.stats.added as nat, r.stats.updated as nat, r.stats.unchanged as nat) == count_changes(
            existing@,
            current@,
            current@.len() as int,
        ),
{
    let mut reindex: Vec<usize> = Vec::new();
    let mut added: usize = 0;
    let mut updated: usize = 0;
    let mut unchanged: usize = 0;
    let mut i: usize = 0;
    while i < current.len()
        invariant
            i <= current.len(),
            reindex@ == update_indices(existing@, current@, i as int),
            (added as nat, updated as nat, unchanged as nat) == count_changes(existing@, current@, i as int),
            added + updated + unchanged == i,
        decreases current.len() - i,
    {
        let prev = meta_lookup(existing, &current[i].full_name);
        let change = match prev {
            None => true,
            Some((y, s)) => y != current[i].yaml_mtime || s != current[i].summary_mtime,
        };
        if change {
            reindex.push(i);
            if prev.is_some() {
                updated = updated + 1;
            } else {
                added = added + 1;
            }
        } else {
            unchanged = unchanged + 1;
        }
        i = i + 1;
    }
    let mut stale: Vec<String> = Vec::new();
    let mut j: usize = 0;
    assert(existing@.take(0) =~= Seq::<IndexedAdapter>::empty());
    while j < existing.len()
        invariant
            j <= existing.len(),
            texts(stale@) == stale_names(existing@.take(j as int), current@),
            stale.len() <= j,
        decreases existing.len() - j,
    {
        let ghost t = existing@.take(j + 1);
        assert(t.drop_last() =~= existing@.take(j as int));
        assert(t.last() == existing@[j as int]);
        if !has_name(current, &existing[j].full_name) {
            let ghost prev = texts(stale@);
            stale.push(existing[j].full_name.clone());
            assert(texts(stale@) =~= prev.push(existing@[j as int].full_name@));
        }
        j = j + 1;
    }
    assert(existing@.take(existing.len() as int) =~= existing@);
    let removed = stale.len();
    SyncPlan { reindex, stale, stats: SyncStats { added, updated, removed, unchanged } }
}

proof fn lemma_counts_sum(existing: Seq<IndexedAdapter>, current: Seq<IndexedAdapter>, n: int)
    requires
        0 <= n <= current.len(),
    ensures
        count_changes(existing, current, n).0 + count_changes(existing, current, n).1 + count_changes(
            existing,
            current,
            n,
        ).2 == n,
    decreases n,
{
    if n > 0 {
        lemma_counts_sum(existing, current, n - 1);
    }
}

/// A sync accounts for every current adapter once: the added, updated and
/// unchanged counts add up to their number.
pub proof fn law_sync_counts_add_up(existing: Seq<IndexedAdapter>, current: Seq<IndexedAdapter>)
    ensures
        count_changes(existing, current, current.len() as int).0 + count_changes(
            existing,
            current,
            current.len() as int,
        ).1 + count_changes(existing, current, current.len() as int).2 == current.len(),
{
    lemma_counts_sum(existing, current, current.len() as int);
}

/// No two adapters share a full name.
pub open spec fn distinct_names(s: Seq<IndexedAdapter>) -> bool {
    forall|i: int, j: int| 0 <= i < j < s.len() ==> (#[trigger] s[i]).full_name@ != (#[trigger] s[j]).full_name@
}

proof fn lemma_meta_of_self(s: Seq<IndexedAdapter>, i: int)
    requires
        distinct_names(s),
        0 <= i < s.len(),
    ensures
        meta_of(s, s[i].full_name@) == Some((s[i].yaml_mtime, s[i].summary_mtime)),
    decreases i,
{
    if i > 0 {
        assert(s[0].full_name@ != s[i].full_name@);
        let t = s.drop_first();
        assert forall|a: int, b: int| 0 <= a < b < t.len() implies (#[trigger] t[a]).full_name@ != (
        #[trigger] t[b]).full_name@ by {
            assert(t[a] == s[a + 1] && t[b] == s[b + 1]);
        }
        assert(t[i - 1] == s[i]);
        lemma_meta_of_self(t, i - 1);
    }
}

proof fn lemma_resync_counts(s: Seq<IndexedAdapter>, n: int)
    requires
        distinct_names(s),
        0 <= n <= s.len(),
    ensures
        count_changes(s, s, n) == (0nat, 0nat, n as nat),
        update_indices(s, s, n) == Seq::<usize>::empty(),
    decreases n,
{
    if n > 0 {
        lemma_resync_counts(s, n - 1);
        lemma_meta_of_self(s, n - 1);
    }
}

/// Whether some adapter has the name.
pub open spec fn named_in(current: Seq<IndexedAdapter>, n: Seq<char>) -> bool {
    exists|j: int| 0 <= j < current.len() && (#[trigger] current[j]).full_name@ == n
}

proof fn lemma_none_stale(existing: Seq<IndexedAdapter>, current: Seq<IndexedAdapter>)
    requires
        forall|i: int| 0 <= i < existing.len() ==> named_in(current, (#[trigger] existing[i]).full_name@),
    ensures
        stale_names(existing, current) == Seq::<Seq<char>>::empty(),
    decreases existing.len(),
{
    if existing.len() > 0 {
        let d = existing.drop_last();
        assert forall|i: int| 0 <= i < d.len() implies named_in(current, (#[trigger] d[i]).full_name@) by {
            assert(d[i] == existing[i]);
        }
        lemma_none_stale(d, current);
        let k = existing.len() - 1;
        assert(named_in(current, existing[k].full_name@));
    }
}

/// Syncing again against the same adapters does nothing: once the index
/// holds exactly the current adapters (their names all differ), a second
/// sync re-indexes none, drops none, and counts all as unchanged.
pub proof fn law_second_sync_is_quiet(current: Seq<IndexedAdapter>)
    requires
        distinct_names(current),
    ensures
        update_indices(current, current, current.len() as int) == Seq::<usize>::empty(),
        stale_names(current, current) == Seq::<Seq<char>>::empty(),
        count_changes(current, current, current.len() as int) == (0nat, 0nat, current.len()),
{
    lemma_resync_counts(current, current.len() as int);
    assert forall|i: int| 0 <= i < current.len() implies named_in(current, (#[trigger] current[i]).full_name@) by {
        assert(current[i].full_name@ == current[i].full_name@);
    }
    lemma_none_stale(current, current);
}

/// The names a sync drops are exactly the indexed names that no current
/// adapter has: the index afterwards holds no other name than the
/// current ones.
pub proof fn law_stale_are_the_dropped(existing: Seq<IndexedAdapter>, current: Seq<IndexedAdapter>, n: Seq<char>)
    ensures
        stale_names(existing, current).contains(n) <==> (named_in(existing, n) && !named_in(current, n)),
    decreases existing.len(),
{
    if existing.len() > 0 {
        let d = existing.drop_last();
        law_stale_are_the_dropped(d, current, n);
        let last = existing.last().full_name@;
        let sd = stale_names(d, current);
        let keep = exists|i: int| 0 <= i < current.len() && (#[trigger] current[i]).full_name@ == last;
        assert(keep == named_in(current, last));
        if named_in(d, n) {
            let j = choose|j: int| 0 <= j < d.len() && (#[trigger] d[j]).full_name@ == n;
            assert(existing[j] == d[j]);
        }
        if named_in(existing, n) {
            let j = choose|j: int| 0 <= j < existing.len() && (#[trigger] existing[j]).full_name@ == n;
            if j < d.len() {
                assert(d[j] == existing[j]);
            }
        }
        if !keep {
            assert(sd.push(last)[sd.len() as int] == last);
            if sd.push(last).contains(n) {
                let k = choose|k: int| 0 <= k < sd.push(last).len() && sd.push(last)[k] == n;
                if k < sd.len() {
                    assert(sd[k] == n);
                }
            }
            if sd.contains(n) {
                let k = choose|k: int| 0 <= k < sd.len() && sd[k] == n;
                assert(sd.push(last)[k] == n);
            }
        }
    }
}

} // verus!
