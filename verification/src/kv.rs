//! Local key-value store for small, durable identity and session hints.
//!
//! The store is a list of entries kept strictly sorted by key; reading and
//! writing the file that holds it is the caller's business.
use vstd::prelude::*;

use crate::json::{Json, JsonValue};
use crate::order::{lemma_lt_asymmetric, lemma_lt_total, lemma_lt_transitive, seq_lt, str_lt};
use crate::text::{
    chars_of, concat3, parse_u64, parses_u64, starts_with, str_starts_with, trim, trim_chars, trim_str,
    u64_value,
};

verus! {

/// Version number written into every store that is saved.
pub const STORE_VERSION: u32 = 1;

/// The seconds that one TTL unit stands for.
pub open spec fn ttl_unit_seconds(c: char) -> Option<u64> {
    if c == 's' || c == 'S' {
        Some(1u64)
    } else if c == 'm' || c == 'M' {
        Some(60u64)
    } else if c == 'h' || c == 'H' {
        Some(3600u64)
    } else if c == 'd' || c == 'D' {
        Some(86400u64)
    } else {
        None
    }
}

/// `n * m`, saturating at `u64::MAX`.
pub open spec fn saturating_product(n: nat, m: nat) -> u64 {
    if n * m > u64::MAX {
        u64::MAX
    } else {
        (n * m) as u64
    }
}

/// What `parse_ttl` answers for `spec`: bare seconds, or a number followed
/// by one of the units `s`, `m`, `h`, `d` (either case).
pub open spec fn ttl_outcome(spec: Seq<char>) -> Result<u64, Seq<char>> {
    let s = trim(spec);
    if s.len() == 0 {
        Err("kv: empty ttl"@)
    } else if parses_u64(s) {
        Ok(u64_value(s) as u64)
    } else {
        let num = trim(s.drop_last());
        if !parses_u64(num) {
            Err("kv: invalid ttl '"@ + spec + "'"@)
        } else {
            match ttl_unit_seconds(s.last()) {
                Some(m) => Ok(saturating_product(u64_value(num), m as nat)),
                None => Err("kv: invalid ttl unit in '"@ + spec + "' (use s/m/h/d)"@),
            }
        }
    }
}

/// The TTL texts that `parse_ttl` handles: the unit, when there is one, is
/// read as the last byte, so the last character must be ASCII.
pub open spec fn ttl_text_ok(spec: Seq<char>) -> bool {
    let s = trim(spec);
    s.len() == 0 || parses_u64(s) || s.last() < '\u{80}'
}

pub open spec fn result_view<T>(r: Result<T, String>) -> Result<T, Seq<char>> {
    match r {
        Ok(v) => Ok(v),
        Err(e) => Err(e@),
    }
}

/// Whether `parse_ttl` can be called on `spec`.
pub fn ttl_text_supported(spec: &str) -> (b: bool)
    ensures
        b == ttl_text_ok(spec@),
{
    let s = trim_chars(&chars_of(spec));
    if s.len() == 0 {
        return true;
    }
    if parse_u64(&s).is_some() {
        return true;
    }
    s[s.len() - 1] < '\u{80}'
}

/// Parses TTL strings like `30d`, `24h`, `15m`, `60s`, or bare seconds
/// (`3600`) into seconds.
pub fn parse_ttl(spec: &str) -> (r: Result<u64, String>)
    requires
        ttl_text_ok(spec@),
    ensures
        result_view(r) == ttl_outcome(spec@),
{
    let s = trim_chars(&chars_of(spec));
    if s.len() == 0 {
        return Err(String::from_str("kv: empty ttl"));
    }
    if let Some(n) = parse_u64(&s) {
        return Ok(n);
    }
    let last = s[s.len() - 1];
    let mut head: Vec<char> = Vec::new();
    let mut i: usize = 0;
    while i + 1 < s.len()
        invariant
            i + 1 <= s.len(),
            head@ == s@.take(i as int),
        decreases s.len() - i,
    {
        head.push(s[i]);
        assert(s@.take(i as int).push(s@[i as int]) =~= s@.take(i + 1));
        i = i + 1;
    }
    assert(head@ =~= s@.drop_last());
    let num = trim_chars(&head);
    let n = match parse_u64(&num) {
        Some(n) => n,
        None => {
            return Err(concat3("kv: invalid ttl '", spec, "'"));
        },
    };
    let mult: u64 = if last == 's' || last == 'S' {
        1
    } else if last == 'm' || last == 'M' {
        60
    } else if last == 'h' || last == 'H' {
        3600
    } else if last == 'd' || last == 'D' {
        86400
    } else {
        return Err(concat3("kv: invalid ttl unit in '", spec, "' (use s/m/h/d)"));
    };
    match n.checked_mul(mult) {
        Some(x) => Ok(x),
        None => Ok(u64::MAX),
    }
}

/// One stored value with the Unix seconds when it was written and, if it
/// has one, when it expires.
#[derive(Debug)]
pub struct KvEntry {
    pub value: JsonValue,
    pub updated_at: u64,
    pub expires_at: Option<u64>,
}

/// The model of a stored entry.
pub struct EntryView {
    pub value: Json,
    pub updated_at: u64,
    pub expires_at: Option<u64>,
}

impl View for KvEntry {
    type V = EntryView;

    open spec fn view(&self) -> EntryView {
        EntryView { value: self.value@, updated_at: self.updated_at, expires_at: self.expires_at }
    }
}

impl KvEntry {
    /// A copy of this entry with the same model.
    pub fn duplicate(&self) -> (r: KvEntry)
        ensures
            r@ == self@,
    {
        KvEntry {
            value: self.value.deep_clone(),
            updated_at: self.updated_at,
            expires_at: self.expires_at,
        }
    }
}

/// Whether an entry has expired at time `now`.
pub open spec fn is_expired(e: EntryView, now: u64) -> bool {
    match e.expires_at {
        Some(exp) => exp <= now,
        None => false,
    }
}

pub fn entry_expired(e: &KvEntry, now: u64) -> (b: bool)
    ensures
        b == is_expired(e@, now),
{
    match e.expires_at {
        Some(exp) => exp <= now,
        None => false,
    }
}

/// The rows of a store: each key with the model of its entry.
pub open spec fn rows_of(v: Seq<(String, KvEntry)>) -> Seq<(Seq<char>, EntryView)> {
    v.map_values(|p: (String, KvEntry)| (p.0@, p.1@))
}

/// Keys strictly increase along the rows.
pub open spec fn sorted_rows(s: Seq<(Seq<char>, EntryView)>) -> bool {
    forall|i: int, j: int| 0 <= i < j < s.len() ==> seq_lt(#[trigger] s[i].0, #[trigger] s[j].0)
}

/// No key occurs twice among the rows.
pub open spec fn unique_keys(s: Seq<(Seq<char>, EntryView)>) -> bool {
    forall|i: int, j: int|
        0 <= i < s.len() && 0 <= j < s.len() && i != j ==> #[trigger] s[i].0 != #[trigger] s[j].0
}

/// The map from keys to entries that the rows describe.
pub open spec fn rows_map(s: Seq<(Seq<char>, EntryView)>) -> Map<Seq<char>, EntryView> {
    Map::new(
        |k: Seq<char>| exists|i: int| 0 <= i < s.len() && s[i].0 == k,
        |k: Seq<char>| s[choose|i: int| 0 <= i < s.len() && s[i].0 == k].1,
    )
}

pub proof fn lemma_sorted_unique(s: Seq<(Seq<char>, EntryView)>)
    requires
        sorted_rows(s),
    ensures
        unique_keys(s),
{
    assert forall|i: int, j: int|
        0 <= i < s.len() && 0 <= j < s.len() && i != j implies #[trigger] s[i].0
        != #[trigger] s[j].0 by {
        if i < j {
            lemma_lt_asymmetric(s[i].0, s[j].0);
        } else {
            lemma_lt_asymmetric(s[j].0, s[i].0);
        }
    }
}

pub proof fn lemma_rows_map_at(s: Seq<(Seq<char>, EntryView)>, i: int)
    requires
        unique_keys(s),
        0 <= i < s.len(),
    ensures
        rows_map(s).contains_key(s[i].0),
        rows_map(s)[s[i].0] == s[i].1,
{
    let k = s[i].0;
    assert(exists|j: int| 0 <= j < s.len() && s[j].0 == k);
    let j = choose|j: int| 0 <= j < s.len() && s[j].0 == k;
    assert(i == j);
}

/// Two ways of describing the same map: rows with distinct keys whose
/// pairs are exactly those of `m`.
pub proof fn lemma_rows_map_ext(s: Seq<(Seq<char>, EntryView)>, m: Map<Seq<char>, EntryView>)
    requires
        unique_keys(s),
        forall|i: int| 0 <= i < s.len() ==> m.contains_key(#[trigger] s[i].0) && m[s[i].0] == s[i].1,
        forall|k: Seq<char>| m.contains_key(k) ==> exists|i: int| 0 <= i < s.len() && #[trigger] s[i].0 == k,
    ensures
        rows_map(s) == m,
{
    assert forall|k: Seq<char>| rows_map(s).contains_key(k) <==> m.contains_key(k) by {
        if m.contains_key(k) {
            let i = choose|i: int| 0 <= i < s.len() && s[i].0 == k;
            lemma_rows_map_at(s, i);
        }
    }
    assert forall|k: Seq<char>| rows_map(s).contains_key(k) implies rows_map(s)[k] == m[k] by {
        let i = choose|i: int| 0 <= i < s.len() && s[i].0 == k;
        lemma_rows_map_at(s, i);
    }
    assert(rows_map(s) =~= m);
}

/// The whole store: a version number and the entries, sorted by key.
#[derive(Debug)]
pub struct KvFile {
    pub version: u32,
    pub entries: Vec<(String, KvEntry)>,
}

impl View for KvFile {
    type V = Map<Seq<char>, EntryView>;

    open spec fn view(&self) -> Map<Seq<char>, EntryView> {
        rows_map(self.rows())
    }
}

impl KvFile {
    pub open spec fn rows(&self) -> Seq<(Seq<char>, EntryView)> {
        rows_of(self.entries@)
    }

    /// The entries are strictly sorted by key.
    pub open spec fn wf(&self) -> bool {
        sorted_rows(self.rows())
    }

    /// An empty store of the current version.
    pub fn new() -> (r: KvFile)
        ensures
            r.wf(),
            r@ == Map::<Seq<char>, EntryView>::empty(),
            r.version == STORE_VERSION,
            r.entries.len() == 0,
    {
        let r = KvFile { version: STORE_VERSION, entries: Vec::new() };
        assert(r@ =~= Map::<Seq<char>, EntryView>::empty());
        r
    }
}

/// The index of the row whose key is `k`, if there is one.
fn find_key(entries: &Vec<(String, KvEntry)>, k: &String) -> (r: Option<usize>)
    ensures
        match r {
            Some(i) => i < entries.len() && rows_of(entries@)[i as int].0 == k@,
            None => forall|i: int| 0 <= i < entries.len() ==> rows_of(entries@)[i].0 != k@,
        },
{
    let mut i: usize = 0;
    while i < entries.len()
        invariant
            i <= entries.len(),
            forall|j: int| 0 <= j < i ==> rows_of(entries@)[j].0 != k@,
        decreases entries.len() - i,
    {
        if entries[i].0 == *k {
            return Some(i);
        }
        i = i + 1;
    }
    None
}

/// Removing one row keeps the rows sorted and removes its key from the map.
pub proof fn lemma_remove_row(s: Seq<(Seq<char>, EntryView)>, i: int)
    requires
        sorted_rows(s),
        0 <= i < s.len(),
    ensures
        sorted_rows(s.remove(i)),
        rows_map(s.remove(i)) == rows_map(s).remove(s[i].0),
{
    let t = s.remove(i);
    let k = s[i].0;
    lemma_sorted_unique(s);
    assert forall|a: int, b: int| 0 <= a < b < t.len() implies seq_lt(#[trigger] t[a].0, #[trigger] t[b].0) by {
        let a0 = if a < i { a } else { a + 1 };
        let b0 = if b < i { b } else { b + 1 };
        assert(t[a] == s[a0]);
        assert(t[b] == s[b0]);
    }
    lemma_sorted_unique(t);
    let m = rows_map(s).remove(k);
    assert forall|j: int| 0 <= j < t.len() implies m.contains_key(#[trigger] t[j].0) && m[t[j].0] == t[j].1 by {
        let j0 = if j < i { j } else { j + 1 };
        assert(t[j] == s[j0]);
        lemma_rows_map_at(s, j0);
    }
    assert forall|x: Seq<char>| m.contains_key(x) implies exists|j: int| 0 <= j < t.len() && #[trigger] t[j].0 == x by {
        let j0 = choose|j: int| 0 <= j < s.len() && s[j].0 == x;
        assert(j0 != i);
        let j = if j0 < i { j0 } else { j0 - 1 };
        assert(t[j] == s[j0]);
    }
    lemma_rows_map_ext(t, m);
}

/// What a lookup answers, and the store after it: an expired entry reads
/// as missing and is dropped.
pub open spec fn get_outcome(m: Map<Seq<char>, EntryView>, key: Seq<char>, now: u64) -> (
    Result<Option<Json>, Seq<char>>,
    Map<Seq<char>, EntryView>,
) {
    let k = trim(key);
    if k.len() == 0 {
        (Err("kv: empty key"@), m)
    } else if m.contains_key(k) && is_expired(m[k], now) {
        (Ok(None), m.remove(k))
    } else if m.contains_key(k) {
        (Ok(Some(m[k].value)), m)
    } else {
        (Ok(None), m)
    }
}

pub open spec fn lookup_view(r: Result<Option<JsonValue>, String>) -> Result<Option<Json>, Seq<char>> {
    match r {
        Ok(Some(v)) => Ok(Some(v@)),
        Ok(None) => Ok(None),
        Err(e) => Err(e@),
    }
}

/// Reads the value under `key` at time `now`.
pub fn get_at(store: &mut KvFile, key: &str, now: u64) -> (r: Result<Option<JsonValue>, String>)
    requires
        old(store).wf(),
    ensures
        final(store).wf(),
        final(store).version == old(store).version,
        (lookup_view(r), final(store)@) == get_outcome(old(store)@, key@, now),
{
    let k = trim_str(key);
    if k.as_str().is_empty() {
        return Err(String::from_str("kv: empty key"));
    }
    let ghost rows = store.rows();
    proof {
        lemma_sorted_unique(rows);
    }
    match find_key(&store.entries, &k) {
        None => Ok(None),
        Some(i) => {
            proof {
                lemma_rows_map_at(rows, i as int);
            }
            if entry_expired(&store.entries[i].1, now) {
                let _old_entry = store.entries.remove(i);
                proof {
                    lemma_remove_row(rows, i as int);
                    assert(store.rows() =~= rows.remove(i as int));
                }
                Ok(None)
            } else {
                Ok(Some(store.entries[i].1.value.deep_clone()))
            }
        },
    }
}

/// Replacing the entry of an existing key.
pub proof fn lemma_update_row(s: Seq<(Seq<char>, EntryView)>, i: int, e: EntryView)
    requires
        sorted_rows(s),
        0 <= i < s.len(),
    ensures
        sorted_rows(s.update(i, (s[i].0, e))),
        rows_map(s.update(i, (s[i].0, e))) == rows_map(s).insert(s[i].0, e),
{
    let k = s[i].0;
    let t = s.update(i, (k, e));
    assert forall|a: int, b: int| 0 <= a < b < t.len() implies seq_lt(#[trigger] t[a].0, #[trigger] t[b].0) by {
        assert(t[a].0 == s[a].0);
        assert(t[b].0 == s[b].0);
    }
    lemma_sorted_unique(s);
    lemma_sorted_unique(t);
    let m = rows_map(s).insert(k, e);
    assert forall|j: int| 0 <= j < t.len() implies m.contains_key(#[trigger] t[j].0) && m[t[j].0] == t[j].1 by {
        lemma_rows_map_at(s, j);
    }
    assert forall|x: Seq<char>| m.contains_key(x) implies exists|j: int| 0 <= j < t.len() && #[trigger] t[j].0 == x by {
        if x != k {
            let j0 = choose|j: int| 0 <= j < s.len() && s[j].0 == x;
            assert(t[j0].0 == x);
        } else {
            assert(t[i].0 == x);
        }
    }
    lemma_rows_map_ext(t, m);
}

/// Inserting a new key at the place where it sorts.
pub proof fn lemma_insert_row(s: Seq<(Seq<char>, EntryView)>, i: int, k: Seq<char>, e: EntryView)
    requires
        sorted_rows(s),
        0 <= i <= s.len(),
        forall|j: int| 0 <= j < i ==> seq_lt(#[trigger] s[j].0, k),
        forall|j: int| i <= j < s.len() ==> seq_lt(k, #[trigger] s[j].0),
    ensures
        sorted_rows(s.insert(i, (k, e))),
        rows_map(s.insert(i, (k, e))) == rows_map(s).insert(k, e),
{
    let t = s.insert(i, (k, e));
    assert forall|a: int, b: int| 0 <= a < b < t.len() implies seq_lt(#[trigger] t[a].0, #[trigger] t[b].0) by {
        if a < i {
            assert(t[a] == s[a]);
            if b < i {
                assert(t[b] == s[b]);
            } else if b > i {
                assert(t[b] == s[b - 1]);
            }
        } else if a == i {
            assert(t[b] == s[b - 1]);
        } else {
            assert(t[a] == s[a - 1]);
            assert(t[b] == s[b - 1]);
        }
    }
    lemma_sorted_unique(s);
    lemma_sorted_unique(t);
    let m = rows_map(s).insert(k, e);
    assert forall|j: int| 0 <= j < t.len() implies m.contains_key(#[trigger] t[j].0) && m[t[j].0] == t[j].1 by {
        if j < i {
            assert(t[j] == s[j]);
            lemma_lt_asymmetric(s[j].0, k);
            lemma_rows_map_at(s, j);
        } else if j > i {
            assert(t[j] == s[j - 1]);
            lemma_lt_asymmetric(k, s[j - 1].0);
            lemma_rows_map_at(s, j - 1);
        }
    }
    assert forall|x: Seq<char>| m.contains_key(x) implies exists|j: int| 0 <= j < t.len() && #[trigger] t[j].0 == x by {
        if x != k {
            let j0 = choose|j: int| 0 <= j < s.len() && s[j].0 == x;
            if j0 < i {
                assert(t[j0].0 == x);
            } else {
                assert(t[j0 + 1].0 == x);
            }
        } else {
            assert(t[i].0 == x);
        }
    }
    lemma_rows_map_ext(t, m);
}

/// Puts `e` under `k`, replacing the entry already there, keeping the
/// rows sorted.
fn upsert_row(entries: &mut Vec<(String, KvEntry)>, k: String, e: KvEntry)
    requires
        sorted_rows(rows_of(old(entries)@)),
    ensures
        sorted_rows(rows_of(final(entries)@)),
        rows_map(rows_of(final(entries)@)) == rows_map(rows_of(old(entries)@)).insert(k@, e@),
{
    let ghost s = rows_of(entries@);
    let mut i: usize = 0;
    while i < entries.len() && str_lt(entries[i].0.as_str(), k.as_str())
        invariant
            i <= entries.len(),
            s == rows_of(entries@),
            forall|j: int| 0 <= j < i ==> seq_lt(#[trigger] s[j].0, k@),
        decreases entries.len() - i,
    {
        i = i + 1;
    }
    if i < entries.len() && entries[i].0 == k {
        let ghost ev = e@;
        entries.set(i, (k, e));
        proof {
            lemma_update_row(s, i as int, ev);
            assert(rows_of(entries@) =~= s.update(i as int, (s[i as int].0, ev)));
        }
    } else {
        proof {
            assert forall|j: int| i <= j < s.len() implies seq_lt(k@, #[trigger] s[j].0) by {
                lemma_lt_total(s[i as int].0, k@);
                if j > i {
                    assert(seq_lt(s[i as int].0, s[j].0));
                    lemma_lt_transitive(k@, s[i as int].0, s[j].0);
                }
            }
            lemma_insert_row(s, i as int, k@, e@);
        }
        let ghost row = (k@, e@);
        entries.insert(i, (k, e));
        proof {
            assert(rows_of(entries@) =~= s.insert(i as int, row));
        }
    }
}

/// Which rows a pass over the store keeps.
enum RowFilter {
    Unexpired(u64),
    WithPrefix(String),
    WithoutPrefix(String),
}

spec fn row_kept(f: RowFilter, row: (Seq<char>, EntryView)) -> bool {
    match f {
        RowFilter::Unexpired(now) => !is_expired(row.1, now),
        RowFilter::WithPrefix(p) => starts_with(row.0, p@),
        RowFilter::WithoutPrefix(p) => !starts_with(row.0, p@),
    }
}

fn row_kept_exec(f: &RowFilter, row: &(String, KvEntry)) -> (b: bool)
    ensures
        b == row_kept(*f, (row.0@, row.1@)),
{
    match f {
        RowFilter::Unexpired(now) => !entry_expired(&row.1, *now),
        RowFilter::WithPrefix(p) => str_starts_with(row.0.as_str(), p.as_str()),
        RowFilter::WithoutPrefix(p) => !str_starts_with(row.0.as_str(), p.as_str()),
    }
}

/// `x` is one of the first `n` rows of `s`, and `f` keeps it.
spec fn kept_row_of(s: Seq<(Seq<char>, EntryView)>, n: int, f: RowFilter, x: (Seq<char>, EntryView)) -> bool {
    exists|j: int| 0 <= j < n && s[j] == x && row_kept(f, s[j])
}

/// `x` is one of the rows `o`.
spec fn row_in(o: Seq<(Seq<char>, EntryView)>, x: (Seq<char>, EntryView)) -> bool {
    exists|a: int| 0 <= a < o.len() && o[a] == x
}

/// `o` holds, in order, exactly the rows among the first `n` of `s` that
/// `f` keeps.
#[verifier::opaque]
spec fn filtered_upto(s: Seq<(Seq<char>, EntryView)>, o: Seq<(Seq<char>, EntryView)>, n: int, f: RowFilter) -> bool {
    &&& sorted_rows(o)
    &&& forall|a: int| 0 <= a < o.len() ==> #[trigger] kept_row_of(s, n, f, o[a])
    &&& forall|j: int| 0 <= j < n && row_kept(f, s[j]) ==> #[trigger] row_in(o, s[j])
}

proof fn lemma_filter_start(s: Seq<(Seq<char>, EntryView)>, f: RowFilter)
    ensures
        filtered_upto(s, Seq::empty(), 0, f),
{
    reveal(filtered_upto);
}

proof fn lemma_filter_skip(s: Seq<(Seq<char>, EntryView)>, o: Seq<(Seq<char>, EntryView)>, n: int, f: RowFilter)
    requires
        filtered_upto(s, o, n, f),
        0 <= n < s.len(),
        !row_kept(f, s[n]),
    ensures
        filtered_upto(s, o, n + 1, f),
{
    reveal(filtered_upto);
    assert forall|a: int| 0 <= a < o.len() implies #[trigger] kept_row_of(s, n + 1, f, o[a]) by {
        assert(kept_row_of(s, n, f, o[a]));
        let j = choose|j: int| 0 <= j < n && s[j] == o[a] && row_kept(f, s[j]);
        assert(0 <= j < n + 1 && s[j] == o[a] && row_kept(f, s[j]));
    }
    assert forall|j: int| 0 <= j < n + 1 && row_kept(f, s[j]) implies #[trigger] row_in(o, s[j]) by {
        assert(j < n);
    }
}

proof fn lemma_filter_take(s: Seq<(Seq<char>, EntryView)>, o: Seq<(Seq<char>, EntryView)>, n: int, f: RowFilter)
    requires
        sorted_rows(s),
        filtered_upto(s, o, n, f),
        0 <= n < s.len(),
        row_kept(f, s[n]),
    ensures
        filtered_upto(s, o.push(s[n]), n + 1, f),
{
    reveal(filtered_upto);
    let o2 = o.push(s[n]);
    assert forall|a: int, b: int| 0 <= a < b < o2.len() implies seq_lt(#[trigger] o2[a].0, #[trigger] o2[b].0) by {
        assert(o2[a] == o[a]);
        if b == o.len() {
            assert(kept_row_of(s, n, f, o[a]));
            let j = choose|j: int| 0 <= j < n && s[j] == o[a] && row_kept(f, s[j]);
            assert(seq_lt(s[j].0, s[n].0));
        } else {
            assert(o2[b] == o[b]);
        }
    }
    assert forall|a: int| 0 <= a < o2.len() implies #[trigger] kept_row_of(s, n + 1, f, o2[a]) by {
        if a < o.len() {
            assert(o2[a] == o[a]);
            assert(kept_row_of(s, n, f, o[a]));
            let j = choose|j: int| 0 <= j < n && s[j] == o[a] && row_kept(f, s[j]);
            assert(0 <= j < n + 1 && s[j] == o2[a] && row_kept(f, s[j]));
        } else {
            assert(0 <= n < n + 1 && s[n] == o2[a] && row_kept(f, s[n]));
        }
    }
    assert forall|j: int| 0 <= j < n + 1 && row_kept(f, s[j]) implies #[trigger] row_in(o2, s[j]) by {
        if j < n {
            assert(row_in(o, s[j]));
            let a = choose|a: int| 0 <= a < o.len() && o[a] == s[j];
            assert(o2[a] == s[j]);
        } else {
            assert(o2[o.len() as int] == s[j]);
        }
    }
}

proof fn lemma_filter_done(s: Seq<(Seq<char>, EntryView)>, o: Seq<(Seq<char>, EntryView)>, f: RowFilter)
    requires
        sorted_rows(s),
        filtered_upto(s, o, s.len() as int, f),
    ensures
        sorted_rows(o),
        rows_map(o) == rows_map(s).restrict(Set::new(|k: Seq<char>| row_kept(f, (k, rows_map(s)[k])))),
{
    let m = rows_map(s);
    let m2 = m.restrict(Set::new(|k: Seq<char>| row_kept(f, (k, m[k]))));
    lemma_sorted_unique(s);
    assert(sorted_rows(o)) by {
        reveal(filtered_upto);
    }
    lemma_sorted_unique(o);
    assert forall|a: int| 0 <= a < o.len() implies m2.contains_key(#[trigger] o[a].0) && m2[o[a].0] == o[a].1 by {
        reveal(filtered_upto);
        assert(kept_row_of(s, s.len() as int, f, o[a]));
        let j = choose|j: int| 0 <= j < s.len() && s[j] == o[a] && row_kept(f, s[j]);
        lemma_rows_map_at(s, j);
    }
    assert forall|x: Seq<char>| m2.contains_key(x) implies exists|a: int| 0 <= a < o.len() && #[trigger] o[a].0 == x by {
        let j = choose|j: int| 0 <= j < s.len() && s[j].0 == x;
        lemma_rows_map_at(s, j);
        assert(row_kept(f, s[j]));
        lemma_filter_member(s, o, f, j);
    }
    lemma_rows_map_ext(o, m2);
}

proof fn lemma_filter_member(s: Seq<(Seq<char>, EntryView)>, o: Seq<(Seq<char>, EntryView)>, f: RowFilter, j: int)
    requires
        filtered_upto(s, o, s.len() as int, f),
        0 <= j < s.len(),
        row_kept(f, s[j]),
    ensures
        exists|a: int| 0 <= a < o.len() && #[trigger] o[a].0 == s[j].0,
{
    reveal(filtered_upto);
    assert(row_in(o, s[j]));
    let a = choose|a: int| 0 <= a < o.len() && o[a] == s[j];
    assert(o[a].0 == s[j].0);
}

/// Copies of the rows that `f` keeps, in their order.
fn filter_rows(entries: &Vec<(String, KvEntry)>, f: &RowFilter) -> (out: Vec<(String, KvEntry)>)
    requires
        sorted_rows(rows_of(entries@)),
    ensures
        out.len() <= entries.len(),
        sorted_rows(rows_of(out@)),
        rows_map(rows_of(out@)) == rows_map(rows_of(entries@)).restrict(
            Set::new(|k: Seq<char>| row_kept(*f, (k, rows_map(rows_of(entries@))[k]))),
        ),
{
    let ghost s = rows_of(entries@);
    let mut out: Vec<(String, KvEntry)> = Vec::new();
    let mut i: usize = 0;
    proof {
        lemma_filter_start(s, *f);
        assert(rows_of(out@) =~= Seq::<(Seq<char>, EntryView)>::empty());
    }
    while i < entries.len()
        invariant
            i <= entries.len(),
            out.len() <= i,
            s == rows_of(entries@),
            sorted_rows(s),
            filtered_upto(s, rows_of(out@), i as int, *f),
        decreases entries.len() - i,
    {
        assert(s[i as int] == (entries@[i as int].0@, entries@[i as int].1@));
        if row_kept_exec(f, &entries[i]) {
            let ghost o = rows_of(out@);
            let k = entries[i].0.clone();
            let e = entries[i].1.duplicate();
            out.push((k, e));
            proof {
                lemma_filter_take(s, o, i as int, *f);
                assert(rows_of(out@) =~= o.push(s[i as int]));
            }
        } else {
            proof {
                lemma_filter_skip(s, rows_of(out@), i as int, *f);
            }
        }
        i = i + 1;
    }
    proof {
        lemma_filter_done(s, rows_of(out@), *f);
    }
    out
}

pub open spec fn opt_text(o: Option<&str>) -> Option<Seq<char>> {
    match o {
        Some(t) => Some(t@),
        None => None,
    }
}

/// `a + b`, saturating at `u64::MAX`.
pub open spec fn saturating_sum(a: u64, b: u64) -> u64 {
    if a + b > u64::MAX {
        u64::MAX
    } else {
        (a + b) as u64
    }
}

/// The entry that storing `value` at time `now` with `ttl` writes, or the
/// error that refuses it.
pub open spec fn set_outcome(key: Seq<char>, value: Json, ttl: Option<Seq<char>>, now: u64) -> Result<
    EntryView,
    Seq<char>,
> {
    if trim(key).len() == 0 {
        Err("kv: empty key"@)
    } else if value is Null {
        Err("kv: refusing to store null (use del)"@)
    } else if value == Json::Str(Seq::<char>::empty()) {
        Err("kv: refusing to store empty string"@)
    } else {
        match ttl {
            Some(t) => if trim(t).len() > 0 {
                match ttl_outcome(t) {
                    Ok(secs) => Ok(
                        EntryView {
                            value,
                            updated_at: now,
                            expires_at: Some(saturating_sum(now, secs)),
                        },
                    ),
                    Err(e) => Err(e),
                }
            } else {
                Ok(EntryView { value, updated_at: now, expires_at: None })
            },
            None => Ok(EntryView { value, updated_at: now, expires_at: None }),
        }
    }
}

/// TTL texts that `set_at` accepts without failing on them.
pub open spec fn ttl_arg_ok(ttl: Option<&str>) -> bool {
    match ttl {
        Some(t) => ttl_text_ok(t@),
        None => true,
    }
}

/// Stores `value` under the trimmed `key` at time `now`, expiring after
/// `ttl` if one is given.
pub fn set_at(store: &mut KvFile, key: &str, value: JsonValue, ttl: Option<&str>, now: u64) -> (r:
    Result<(), String>)
    requires
        old(store).wf(),
        ttl_arg_ok(ttl),
    ensures
        final(store).wf(),
        match set_outcome(key@, value@, opt_text(ttl), now) {
            Ok(e) => {
                &&& r is Ok
                &&& final(store)@ == old(store)@.insert(trim(key@), e)
                &&& final(store).version == STORE_VERSION
            },
            Err(msg) => {
                &&& r matches Err(x) && x@ == msg
                &&& *final(store) == *old(store)
            },
        },
{
    let k = trim_str(key);
    if k.as_str().is_empty() {
        return Err(String::from_str("kv: empty key"));
    }
    match &value {
        JsonValue::Null => {
            return Err(String::from_str("kv: refusing to store null (use del)"));
        },
        JsonValue::String(text) => {
            if text.as_str().is_empty() {
                assert(text@ =~= Seq::<char>::empty());
                return Err(String::from_str("kv: refusing to store empty string"));
            }
        },
        _ => {},
    }
    assert(value@ != Json::Str(Seq::<char>::empty()));
    let expires_at: Option<u64> = match ttl {
        Some(t) => {
            if trim_str(t).as_str().is_empty() {
                None
            } else {
                match parse_ttl(t) {
                    Ok(secs) => Some(now.saturating_add(secs)),
                    Err(e) => {
                        return Err(e);
                    },
                }
            }
        },
        None => None,
    };
    let entry = KvEntry { value, updated_at: now, expires_at };
    store.version = STORE_VERSION;
    upsert_row(&mut store.entries, k, entry);
    Ok(())
}

/// What deleting `key` answers, and the store after it.
pub open spec fn del_outcome(m: Map<Seq<char>, EntryView>, key: Seq<char>) -> (
    Result<bool, Seq<char>>,
    Map<Seq<char>, EntryView>,
) {
    let k = trim(key);
    if k.len() == 0 {
        (Err("kv: empty key"@), m)
    } else {
        (Ok(m.contains_key(k)), m.remove(k))
    }
}

/// Deletes the trimmed `key`; answers whether it was there.
pub fn del_at(store: &mut KvFile, key: &str) -> (r: Result<bool, String>)
    requires
        old(store).wf(),
    ensures
        final(store).wf(),
        final(store).version == old(store).version,
        (result_view(r), final(store)@) == del_outcome(old(store)@, key@),
{
    let k = trim_str(key);
    if k.as_str().is_empty() {
        return Err(String::from_str("kv: empty key"));
    }
    let ghost rows = store.rows();
    proof {
        lemma_sorted_unique(rows);
    }
    match find_key(&store.entries, &k) {
        None => {
            assert(store@ =~= store@.remove(k@));
            Ok(false)
        },
        Some(i) => {
            proof {
                lemma_rows_map_at(rows, i as int);
                lemma_remove_row(rows, i as int);
            }
            let _old_entry = store.entries.remove(i);
            assert(store.rows() =~= rows.remove(i as int));
            Ok(true)
        },
    }
}

/// The store after clearing: without the keys that start with a non-empty
/// `prefix`, or empty.
pub open spec fn clear_outcome(m: Map<Seq<char>, EntryView>, prefix: Option<Seq<char>>) -> Map<
    Seq<char>,
    EntryView,
> {
    match prefix {
        Some(p) => if p.len() > 0 {
            m.restrict(Set::new(|k: Seq<char>| !starts_with(k, p)))
        } else {
            Map::empty()
        },
        None => Map::empty(),
    }
}

/// Clears all keys, or only those that start with `prefix`; answers how
/// many were removed.
pub fn clear_at(store: &mut KvFile, prefix: Option<&str>) -> (r: Result<usize, String>)
    requires
        old(store).wf(),
    ensures
        final(store).wf(),
        final(store).version == old(store).version,
        final(store)@ == clear_outcome(old(store)@, opt_text(prefix)),
        r == Ok::<usize, String>((old(store).entries.len() - final(store).entries.len()) as usize),
{
    let before = store.entries.len();
    match prefix {
        Some(p) => {
            if p.is_empty() {
                store.entries.clear();
                assert(store@ =~= Map::<Seq<char>, EntryView>::empty());
            } else {
                let f = RowFilter::WithoutPrefix(p.to_owned());
                let kept = filter_rows(&store.entries, &f);
                proof {
                    let m = old(store)@;
                    assert(Set::new(|k: Seq<char>| row_kept(f, (k, m[k]))) =~= Set::new(
                        |k: Seq<char>| !starts_with(k, p@),
                    ));
                }
                store.entries = kept;
            }
        },
        None => {
            store.entries.clear();
            assert(store@ =~= Map::<Seq<char>, EntryView>::empty());
        },
    }
    Ok(before - store.entries.len())
}

/// Whether a listing with `prefix` shows key `k`.
pub open spec fn listed(prefix: Option<Seq<char>>, k: Seq<char>) -> bool {
    match prefix {
        Some(p) => starts_with(k, p),
        None => true,
    }
}

/// Drops the entries that have expired at time `now`, then lists the
/// remaining ones whose key starts with `prefix`, sorted by key.
pub fn list_at(store: &mut KvFile, prefix: Option<&str>, now: u64) -> (r: Result<Vec<(String, KvEntry)>, String>)
    requires
        old(store).wf(),
    ensures
        final(store).wf(),
        final(store).version == old(store).version,
        final(store)@ == old(store)@.restrict(Set::new(|k: Seq<char>| !is_expired(old(store)@[k], now))),
        r matches Ok(v) && sorted_rows(rows_of(v@)) && rows_map(rows_of(v@)) == final(store)@.restrict(
            Set::new(|k: Seq<char>| listed(opt_text(prefix), k)),
        ),
{
    let live = RowFilter::Unexpired(now);
    let kept = filter_rows(&store.entries, &live);
    proof {
        let m = old(store)@;
        assert(Set::new(|k: Seq<char>| row_kept(live, (k, m[k]))) =~= Set::new(
            |k: Seq<char>| !is_expired(m[k], now),
        ));
    }
    store.entries = kept;
    let p = match prefix {
        Some(p) => p.to_owned(),
        None => String::new(),
    };
    let shown = RowFilter::WithPrefix(p);
    let out = filter_rows(&store.entries, &shown);
    proof {
        let m = store@;
        assert forall|k: Seq<char>| row_kept(shown, (k, m[k])) == listed(opt_text(prefix), k) by {
            if prefix is None {
                assert(k.take(0) =~= Seq::<char>::empty());
            }
        }
        assert(Set::new(|k: Seq<char>| row_kept(shown, (k, m[k]))) =~= Set::new(
            |k: Seq<char>| listed(opt_text(prefix), k),
        ));
    }
    Ok(out)
}

/// A value that was stored reads back unchanged while it has not expired.
pub proof fn law_get_after_set(
    m: Map<Seq<char>, EntryView>,
    key: Seq<char>,
    value: Json,
    ttl: Option<Seq<char>>,
    written: u64,
    read: u64,
)
    requires
        set_outcome(key, value, ttl, written) is Ok,
        !is_expired(set_outcome(key, value, ttl, written)->Ok_0, read),
    ensures
        get_outcome(m.insert(trim(key), set_outcome(key, value, ttl, written)->Ok_0), key, read)
            == (Ok::<Option<Json>, Seq<char>>(Some(value)), m.insert(
            trim(key),
            set_outcome(key, value, ttl, written)->Ok_0,
        )),
{
}

/// Once an entry has expired, reading it answers nothing and drops it.
pub proof fn law_expired_reads_missing(m: Map<Seq<char>, EntryView>, key: Seq<char>, now: u64)
    requires
        trim(key).len() > 0,
        m.contains_key(trim(key)),
        is_expired(m[trim(key)], now),
    ensures
        get_outcome(m, key, now).0 == Ok::<Option<Json>, Seq<char>>(None),
        !get_outcome(m, key, now).1.contains_key(trim(key)),
{
}

/// Deleting a key that was stored answers `true`, and afterwards the key
/// reads as missing at any time.
pub proof fn law_del_after_set(m: Map<Seq<char>, EntryView>, key: Seq<char>, e: EntryView, now: u64)
    requires
        trim(key).len() > 0,
    ensures
        del_outcome(m.insert(trim(key), e), key).0 == Ok::<bool, Seq<char>>(true),
        get_outcome(del_outcome(m.insert(trim(key), e), key).1, key, now).0 == Ok::<
            Option<Json>,
            Seq<char>,
        >(None),
{
}

/// Writing or deleting one key leaves every other key as it was.
pub proof fn law_other_keys_unchanged(
    m: Map<Seq<char>, EntryView>,
    key: Seq<char>,
    other: Seq<char>,
    e: EntryView,
)
    requires
        other != trim(key),
        trim(key).len() > 0,
    ensures
        m.insert(trim(key), e).contains_key(other) == m.contains_key(other),
        m.contains_key(other) ==> m.insert(trim(key), e)[other] == m[other],
        del_outcome(m, key).1.contains_key(other) == m.contains_key(other),
        m.contains_key(other) ==> del_outcome(m, key).1[other] == m[other],
{
}

/// Clearing with a non-empty prefix removes exactly the keys that start
/// with it and keeps the others with their entries.
pub proof fn law_clear_prefix(m: Map<Seq<char>, EntryView>, p: Seq<char>, k: Seq<char>)
    requires
        p.len() > 0,
    ensures
        clear_outcome(m, Some(p)).contains_key(k) == (m.contains_key(k) && !starts_with(k, p)),
        clear_outcome(m, Some(p)).contains_key(k) ==> clear_outcome(m, Some(p))[k] == m[k],
        clear_outcome(m, None) == Map::<Seq<char>, EntryView>::empty(),
{
}

} // verus!
