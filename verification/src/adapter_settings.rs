//! Which adapters are disabled.
//!
//! Names are `"site command"` (space-separated). A bare `"site"` entry
//! disables the whole family. The slash form `"site/command"` is accepted
//! and normalized.
use vstd::prelude::*;

use crate::order::{lemma_lt_irreflexive, lemma_lt_total, lemma_lt_transitive, seq_lt, str_lt};
use crate::text::{chars_of, is_whitespace, is_ws, string_of};

verus! {

/// Characters that separate the words of an adapter name.
pub open spec fn is_name_sep(c: char) -> bool {
    is_ws(c) || c == '/'
}

/// `s` with every run of separators between two words turned into one
/// space, and separators at either end dropped.
pub open spec fn collapse(s: Seq<char>) -> Seq<char>
    decreases s.len(),
{
    if s.len() == 0 {
        s
    } else if is_name_sep(s.last()) {
        collapse(s.drop_last())
    } else {
        let r = collapse(s.drop_last());
        if s.len() >= 2 && is_name_sep(s[s.len() - 2]) && r.len() > 0 {
            r.push(' ').push(s.last())
        } else {
            r.push(s.last())
        }
    }
}

/// The first word of a normalized name: what comes before its first space.
pub open spec fn site_part(s: Seq<char>) -> Seq<char>
    decreases s.len(),
{
    if s.len() == 0 || s[0] == ' ' {
        Seq::empty()
    } else {
        seq![s[0]] + site_part(s.drop_first())
    }
}

pub proof fn lemma_site_part(s: Seq<char>, i: int)
    requires
        0 <= i <= s.len(),
        forall|j: int| 0 <= j < i ==> s[j] != ' ',
        i == s.len() || s[i] == ' ',
    ensures
        site_part(s) == s.take(i),
    decreases i,
{
    if i == 0 {
        assert(s.take(0) =~= Seq::<char>::empty());
    } else {
        let t = s.drop_first();
        assert forall|j: int| 0 <= j < i - 1 implies t[j] != ' ' by {
            assert(t[j] == s[j + 1]);
        }
        if i < s.len() {
            assert(t[i - 1] == s[i]);
        }
        lemma_site_part(t, i - 1);
        assert(seq![s[0]] + t.take(i - 1) =~= s.take(i));
    }
}

/// Names without those that normalize to `n`, in their order.
pub open spec fn without_name(s: Seq<Seq<char>>, n: Seq<char>) -> Seq<Seq<char>>
    decreases s.len(),
{
    if s.len() == 0 {
        s
    } else if collapse(s.last()) == n {
        without_name(s.drop_last(), n)
    } else {
        without_name(s.drop_last(), n).push(s.last())
    }
}

pub proof fn lemma_insert_sorted(s: Seq<Seq<char>>, i: int, x: Seq<char>)
    requires
        strictly_sorted(s),
        0 <= i <= s.len(),
        forall|j: int| 0 <= j < i ==> seq_lt(#[trigger] s[j], x),
        forall|j: int| i <= j < s.len() ==> seq_lt(x, #[trigger] s[j]),
    ensures
        strictly_sorted(s.insert(i, x)),
        forall|y: Seq<char>| s.insert(i, x).contains(y) <==> (s.contains(y) || y == x),
{
    let t = s.insert(i, x);
    assert forall|a: int, b: int| 0 <= a < b < t.len() implies seq_lt(#[trigger] t[a], #[trigger] t[b]) by {
        if a < i {
            assert(t[a] == s[a]);
            if b < i {
                assert(t[b] == s[b]);
            } else if b > i {
                assert(t[b] == s[b - 1]);
                lemma_lt_transitive(s[a], x, s[b - 1]);
            }
        } else if a == i {
            assert(t[b] == s[b - 1]);
        } else {
            assert(t[a] == s[a - 1]);
            assert(t[b] == s[b - 1]);
        }
    }
    assert forall|y: Seq<char>| t.contains(y) <==> (s.contains(y) || y == x) by {
        if s.contains(y) {
            let j = choose|j: int| 0 <= j < s.len() && s[j] == y;
            if j < i {
                assert(t[j] == y);
            } else {
                assert(t[j + 1] == y);
            }
        }
        if y == x {
            assert(t[i] == y);
        }
        if t.contains(y) {
            let j = choose|j: int| 0 <= j < t.len() && t[j] == y;
            if j < i {
                assert(s[j] == y);
            } else if j > i {
                assert(s[j - 1] == y);
            }
        }
    }
}

/// Adds `x` to a strictly sorted list of names unless it is there already.
fn insert_name(list: Vec<String>, x: String) -> (r: Vec<String>)
    requires
        strictly_sorted(names_of(list@)),
    ensures
        strictly_sorted(names_of(r@)),
        forall|y: Seq<char>|
            #[trigger] names_of(r@).contains(y) <==> (names_of(list@).contains(y) || y == x@),
{
    let mut v = list;
    let ghost s = names_of(v@);
    let mut i: usize = 0;
    while i < v.len() && str_lt(v[i].as_str(), x.as_str())
        invariant
            i <= v.len(),
            s == names_of(v@),
            forall|j: int| 0 <= j < i ==> seq_lt(#[trigger] s[j], x@),
        decreases v.len() - i,
    {
        i = i + 1;
    }
    if i < v.len() && v[i] == x {
        assert(s[i as int] == x@);
        assert(s.contains(x@));
        return v;
    }
    proof {
        assert forall|j: int| i <= j < s.len() implies seq_lt(x@, #[trigger] s[j]) by {
            lemma_lt_total(s[i as int], x@);
            if j > i {
                assert(seq_lt(s[i as int], s[j]));
                lemma_lt_transitive(x@, s[i as int], s[j]);
            }
        }
        lemma_insert_sorted(s, i as int, x@);
    }
    let ghost xv = x@;
    v.insert(i, x);
    assert(names_of(v@) =~= s.insert(i as int, xv));
    assert forall|y: Seq<char>| #[trigger] names_of(v@).contains(y) <==> (s.contains(y) || y == xv) by {
        assert(s.insert(i as int, xv).contains(y) <==> (s.contains(y) || y == xv));
    }
    v
}

/// Whether the text has a space in it.
fn has_space(s: &Vec<char>) -> (b: bool)
    ensures
        b == s@.contains(' '),
{
    let mut i: usize = 0;
    while i < s.len()
        invariant
            i <= s.len(),
            forall|j: int| 0 <= j < i ==> s@[j] != ' ',
        decreases s.len() - i,
    {
        if s[i] == ' ' {
            assert(s@[i as int] == ' ');
            return true;
        }
        i = i + 1;
    }
    false
}

pub open spec fn names_of(v: Seq<String>) -> Seq<Seq<char>> {
    v.map_values(|s: String| s@)
}

/// Names strictly increase along `s`.
pub open spec fn strictly_sorted(s: Seq<Seq<char>>) -> bool {
    forall|i: int, j: int| 0 <= i < j < s.len() ==> seq_lt(#[trigger] s[i], #[trigger] s[j])
}

/// Whether the list marks the normalized name `full` as disabled: it holds
/// that name, or the bare site of it.
pub open spec fn disabled_in(list: Seq<Seq<char>>, full: Seq<char>) -> bool {
    ||| exists|i: int| 0 <= i < list.len() && collapse(list[i]) == full
    ||| exists|i: int|
        0 <= i < list.len() && !collapse(list[i]).contains(' ') && collapse(list[i]) == site_part(
            full,
        )
}

/// Settings that say which adapters are disabled.
#[derive(Debug)]
pub struct AdapterSettings {
    /// Disabled adapters: `"site command"` or whole-site `"site"`.
    pub disabled: Vec<String>,
    /// Legacy field, read from older files and never used.
    pub hidden: Vec<String>,
}

impl AdapterSettings {
    pub fn new() -> (r: AdapterSettings)
        ensures
            r.disabled@.len() == 0,
            r.hidden@.len() == 0,
    {
        AdapterSettings { disabled: Vec::new(), hidden: Vec::new() }
    }

    /// Normalizes user input: trims, turns `/` into a space and collapses
    /// runs of whitespace into one space.
    pub fn normalize_name(name: &str) -> (r: String)
        ensures
            r@ == collapse(name@),
    {
        let s = chars_of(name);
        let mut out: Vec<char> = Vec::new();
        let mut i: usize = 0;
        assert(s@.take(0) =~= Seq::<char>::empty());
        while i < s.len()
            invariant
                i <= s.len(),
                out@ == collapse(s@.take(i as int)),
            decreases s.len() - i,
        {
            let c = s[i];
            let ghost t = s@.take(i + 1);
            assert(t.drop_last() =~= s@.take(i as int));
            assert(t.last() == c);
            if is_whitespace(c) || c == '/' {
            } else {
                if i > 0 && (is_whitespace(s[i - 1]) || s[i - 1] == '/') && out.len() > 0 {
                    assert(t[t.len() - 2] == s@[i - 1]);
                    out.push(' ');
                } else {
                    proof {
                        if i > 0 {
                            assert(t[t.len() - 2] == s@[i - 1]);
                        }
                    }
                }
                out.push(c);
            }
            i = i + 1;
        }
        assert(s@.take(s.len() as int) =~= s@);
        string_of(&out)
    }

    /// Whether this full command name (`"site cmd"`) is disabled, by
    /// itself or through its whole site.
    pub fn is_disabled(&self, full_name: &str) -> (b: bool)
        ensures
            b == disabled_in(names_of(self.disabled@), collapse(full_name@)),
    {
        let full = Self::normalize_name(full_name);
        let ghost list = names_of(self.disabled@);
        let mut i: usize = 0;
        while i < self.disabled.len()
            invariant
                i <= self.disabled.len(),
                list == names_of(self.disabled@),
                full@ == collapse(full_name@),
                forall|j: int| 0 <= j < i ==> collapse(#[trigger] list[j]) != full@,
            decreases self.disabled.len() - i,
        {
            let d = Self::normalize_name(self.disabled[i].as_str());
            if d == full {
                assert(collapse(list[i as int]) == full@);
                return true;
            }
            i = i + 1;
        }
        let fv = chars_of(full.as_str());
        let mut site_v: Vec<char> = Vec::new();
        let mut k: usize = 0;
        while k < fv.len() && fv[k] != ' '
            invariant
                k <= fv.len(),
                site_v@ == fv@.take(k as int),
                forall|j: int| 0 <= j < k ==> fv@[j] != ' ',
            decreases fv.len() - k,
        {
            site_v.push(fv[k]);
            assert(fv@.take(k as int).push(fv@[k as int]) =~= fv@.take(k + 1));
            k = k + 1;
        }
        proof {
            lemma_site_part(fv@, k as int);
        }
        let site = string_of(&site_v);
        let mut i: usize = 0;
        while i < self.disabled.len()
            invariant
                i <= self.disabled.len(),
                list == names_of(self.disabled@),
                full@ == collapse(full_name@),
                site@ == site_part(full@),
                forall|j: int| 0 <= j < self.disabled.len() ==> collapse(#[trigger] list[j]) != full@,
                forall|j: int|
                    0 <= j < i ==> !(!collapse(#[trigger] list[j]).contains(' ') && collapse(list[j])
                        == site@),
            decreases self.disabled.len() - i,
        {
            let d = Self::normalize_name(self.disabled[i].as_str());
            let dv = chars_of(d.as_str());
            if !has_space(&dv) && d == site {
                assert(collapse(list[i as int]) == d@);
                return true;
            }
            assert(collapse(list[i as int]) == d@);
            i = i + 1;
        }
        false
    }

    /// Disables one adapter or a whole site; answers whether it was newly
    /// disabled. The list comes out sorted without repeats.
    pub fn disable(&mut self, name: &str) -> (r: Result<bool, String>)
        ensures
            final(self).hidden == old(self).hidden,
            ({
                let n = collapse(name@);
                let before = names_of(old(self).disabled@);
                let after = names_of(final(self).disabled@);
                if n.len() == 0 {
                    &&& r matches Err(e) && e@ == "adapter name is empty"@
                    &&& after == before
                } else if exists|i: int| 0 <= i < before.len() && collapse(before[i]) == n {
                    &&& r == Ok::<bool, String>(false)
                    &&& after == before
                } else {
                    &&& r == Ok::<bool, String>(true)
                    &&& strictly_sorted(after)
                    &&& forall|y: Seq<char>| after.contains(y) <==> (before.contains(y) || y == n)
                }
            }),
    {
        let n = Self::normalize_name(name);
        if n.as_str().is_empty() {
            return Err(String::from_str("adapter name is empty"));
        }
        let ghost before = names_of(self.disabled@);
        let mut i: usize = 0;
        while i < self.disabled.len()
            invariant
                i <= self.disabled.len(),
                before == names_of(self.disabled@),
                n@ == collapse(name@),
                n@.len() > 0,
                forall|j: int| 0 <= j < i ==> collapse(#[trigger] before[j]) != n@,
            decreases self.disabled.len() - i,
        {
            let d = Self::normalize_name(self.disabled[i].as_str());
            if d == n {
                assert(collapse(before[i as int]) == n@);
                assert(exists|j: int| 0 <= j < before.len() && collapse(before[j]) == n@);
                return Ok(false);
            }
            i = i + 1;
        }
        let mut out: Vec<String> = Vec::new();
        let mut i: usize = 0;
        while i < self.disabled.len()
            invariant
                i <= self.disabled.len(),
                before == names_of(self.disabled@),
                strictly_sorted(names_of(out@)),
                forall|y: Seq<char>| names_of(out@).contains(y) <==> before.take(i as int).contains(y),
            decreases self.disabled.len() - i,
        {
            out = insert_name(out, self.disabled[i].clone());
            proof {
                let t = before.take(i + 1);
                assert(t =~= before.take(i as int).push(before[i as int]));
                assert forall|y: Seq<char>| names_of(out@).contains(y) <==> t.contains(y) by {
                    if t.contains(y) {
                        let j = choose|j: int| 0 <= j < t.len() && t[j] == y;
                        if j < i {
                            assert(before.take(i as int)[j] == y);
                        }
                    }
                    if before.take(i as int).contains(y) {
                        let j = choose|j: int| 0 <= j < i && before.take(i as int)[j] == y;
                        assert(t[j] == y);
                    }
                    if y == before[i as int] {
                        assert(t[i as int] == y);
                    }
                }
            }
            i = i + 1;
        }
        assert(before.take(self.disabled.len() as int) =~= before);
        let ghost nv = n@;
        let out = insert_name(out, n);
        self.disabled = out;
        Ok(true)
    }

    /// Enables one adapter or a whole site; answers whether any entry was
    /// removed.
    pub fn enable(&mut self, name: &str) -> (r: Result<bool, String>)
        ensures
            final(self).hidden == old(self).hidden,
            ({
                let n = collapse(name@);
                let before = names_of(old(self).disabled@);
                let after = names_of(final(self).disabled@);
                if n.len() == 0 {
                    &&& r matches Err(e) && e@ == "adapter name is empty"@
                    &&& after == before
                } else {
                    &&& after == without_name(before, n)
                    &&& r == Ok::<bool, String>(after.len() != before.len())
                }
            }),
    {
        let n = Self::normalize_name(name);
        if n.as_str().is_empty() {
            return Err(String::from_str("adapter name is empty"));
        }
        let ghost before = names_of(self.disabled@);
        let mut out: Vec<String> = Vec::new();
        let mut i: usize = 0;
        assert(before.take(0) =~= Seq::<Seq<char>>::empty());
        while i < self.disabled.len()
            invariant
                i <= self.disabled.len(),
                before == names_of(self.disabled@),
                n@ == collapse(name@),
                names_of(out@) == without_name(before.take(i as int), n@),
                out.len() <= i,
            decreases self.disabled.len() - i,
        {
            let d = Self::normalize_name(self.disabled[i].as_str());
            let ghost t = before.take(i + 1);
            assert(t.drop_last() =~= before.take(i as int));
            if d != n {
                let ghost prev = names_of(out@);
                out.push(self.disabled[i].clone());
                assert(names_of(out@) =~= prev.push(before[i as int]));
            }
            i = i + 1;
        }
        assert(before.take(self.disabled.len() as int) =~= before);
        let changed = out.len() != self.disabled.len();
        proof {
            lemma_without_name_len(before, n@);
        }
        self.disabled = out;
        Ok(changed)
    }
}

pub proof fn lemma_without_name_len(s: Seq<Seq<char>>, n: Seq<char>)
    ensures
        without_name(s, n).len() <= s.len(),
    decreases s.len(),
{
    if s.len() > 0 {
        lemma_without_name_len(s.drop_last(), n);
    }
}

/// A normalized name: no separators but single spaces between words, and
/// no space at either end.
pub open spec fn is_collapsed(t: Seq<char>) -> bool {
    &&& forall|i: int| 0 <= i < t.len() && is_name_sep(#[trigger] t[i]) ==> t[i] == ' '
    &&& t.len() > 0 ==> t[0] != ' ' && t.last() != ' '
    &&& forall|i: int| 0 <= i < t.len() - 1 && #[trigger] t[i] == ' ' ==> t[i + 1] != ' '
}

/// Like `is_collapsed`, but a single trailing space is allowed.
spec fn collapsed_but_tail(t: Seq<char>) -> bool {
    &&& forall|i: int| 0 <= i < t.len() && is_name_sep(#[trigger] t[i]) ==> t[i] == ' '
    &&& t.len() > 0 ==> t[0] != ' '
    &&& forall|i: int| 0 <= i < t.len() - 1 && #[trigger] t[i] == ' ' ==> t[i + 1] != ' '
}

proof fn lemma_collapse_is_collapsed(s: Seq<char>)
    ensures
        is_collapsed(collapse(s)),
    decreases s.len(),
{
    if s.len() > 0 {
        lemma_collapse_is_collapsed(s.drop_last());
        let r = collapse(s.drop_last());
        let c = s.last();
        if !is_name_sep(c) {
            if s.len() >= 2 && is_name_sep(s[s.len() - 2]) && r.len() > 0 {
                let t = r.push(' ').push(c);
                assert forall|i: int| 0 <= i < t.len() - 1 && #[trigger] t[i] == ' ' implies t[i + 1] != ' ' by {
                    if i < r.len() - 1 {
                        assert(t[i] == r[i]);
                        assert(t[i + 1] == r[i + 1]);
                    } else if i == r.len() - 1 {
                        assert(t[i] == r.last());
                    }
                }
                assert forall|i: int| 0 <= i < t.len() && is_name_sep(#[trigger] t[i]) implies t[i] == ' ' by {
                    if i < r.len() {
                        assert(t[i] == r[i]);
                    }
                }
                assert(t[0] != ' ') by {
                    assert(t[0] == r[0]);
                }
            } else {
                let t = r.push(c);
                assert forall|i: int| 0 <= i < t.len() - 1 && #[trigger] t[i] == ' ' implies t[i + 1] != ' ' by {
                    if i < r.len() - 1 {
                        assert(t[i] == r[i]);
                        assert(t[i + 1] == r[i + 1]);
                    } else {
                        assert(t[i] == r.last());
                    }
                }
                assert forall|i: int| 0 <= i < t.len() && is_name_sep(#[trigger] t[i]) implies t[i] == ' ' by {
                    if i < r.len() {
                        assert(t[i] == r[i]);
                    }
                }
                if r.len() > 0 {
                    assert(t[0] == r[0]);
                }
            }
        }
    }
}

proof fn lemma_collapse_fixed(t: Seq<char>)
    requires
        collapsed_but_tail(t),
    ensures
        collapse(t) == (if t.len() > 0 && t.last() == ' ' {
            t.drop_last()
        } else {
            t
        }),
    decreases t.len(),
{
    if t.len() > 0 {
        let u = t.drop_last();
        assert(collapsed_but_tail(u)) by {
            assert forall|i: int| 0 <= i < u.len() && is_name_sep(#[trigger] u[i]) implies u[i] == ' ' by {
                assert(u[i] == t[i]);
            }
            assert forall|i: int| 0 <= i < u.len() - 1 && #[trigger] u[i] == ' ' implies u[i + 1] != ' ' by {
                assert(u[i] == t[i]);
                assert(u[i + 1] == t[i + 1]);
            }
            if u.len() > 0 {
                assert(u[0] == t[0]);
            }
        }
        lemma_collapse_fixed(u);
        let c = t.last();
        if c == ' ' {
            if u.len() > 0 {
                assert(u.last() == t[t.len() - 2]);
            }
        } else {
            assert(!is_name_sep(c)) by {
                assert(is_name_sep(t[t.len() - 1]) ==> t[t.len() - 1] == ' ');
            }
            if t.len() >= 2 && is_name_sep(t[t.len() - 2]) {
                assert(t[t.len() - 2] == ' ');
                assert(u.last() == ' ');
                assert(u.len() >= 2);
                assert(u.drop_last().len() > 0);
                assert(u.drop_last().push(' ').push(c) =~= t);
            } else {
                if u.len() > 0 {
                    assert(u.last() == t[t.len() - 2]);
                }
                assert(u.push(c) =~= t);
            }
        }
    }
}

/// Normalizing twice changes nothing: a normalized name is its own
/// normal form.
pub proof fn law_normalize_idempotent(s: Seq<char>)
    ensures
        collapse(collapse(s)) == collapse(s),
{
    let t = collapse(s);
    lemma_collapse_is_collapsed(s);
    lemma_collapse_fixed(t);
}

/// After `disable(name)` answers `Ok`, the name reads as disabled.
pub proof fn law_disabled_after_disable(before: Seq<Seq<char>>, after: Seq<Seq<char>>, name: Seq<char>)
    requires
        collapse(name).len() > 0,
        (exists|i: int| 0 <= i < before.len() && collapse(before[i]) == collapse(name)) ==> after
            == before,
        !(exists|i: int| 0 <= i < before.len() && collapse(before[i]) == collapse(name)) ==> forall|
            y: Seq<char>,
        | after.contains(y) <==> (before.contains(y) || y == collapse(name)),
    ensures
        disabled_in(after, collapse(name)),
{
    let n = collapse(name);
    if !(exists|i: int| 0 <= i < before.len() && collapse(before[i]) == n) {
        assert(after.contains(n));
        let i = choose|i: int| 0 <= i < after.len() && after[i] == n;
        law_normalize_idempotent(name);
        assert(collapse(after[i]) == n);
    }
}

/// After `enable(name)` answers `Ok`, no entry names it any more.
pub proof fn law_enable_removes(before: Seq<Seq<char>>, n: Seq<char>)
    ensures
        forall|i: int| 0 <= i < without_name(before, n).len() ==> collapse(
            #[trigger] without_name(before, n)[i],
        ) != n,
    decreases before.len(),
{
    if before.len() > 0 {
        law_enable_removes(before.drop_last(), n);
        let w = without_name(before.drop_last(), n);
        if collapse(before.last()) != n {
            assert forall|i: int| 0 <= i < w.push(before.last()).len() implies collapse(
                #[trigger] w.push(before.last())[i],
            ) != n by {
                if i < w.len() {
                    assert(w.push(before.last())[i] == w[i]);
                }
            }
        }
    }
}

/// A bare site entry disables every command of that site.
pub proof fn law_site_disables_family(list: Seq<Seq<char>>, site: Seq<char>, cmd: Seq<char>)
    requires
        is_collapsed(site),
        site.len() > 0,
        !site.contains(' '),
        is_collapsed(cmd),
        cmd.len() > 0,
        list.contains(site),
    ensures
        disabled_in(list, collapse(site + seq![' '] + cmd)),
{
    let full = site + seq![' '] + cmd;
    assert(is_collapsed(full)) by {
        assert forall|i: int| 0 <= i < full.len() && is_name_sep(#[trigger] full[i]) implies full[i] == ' ' by {
            if i < site.len() {
                assert(full[i] == site[i]);
            } else if i > site.len() {
                assert(full[i] == cmd[i - site.len() - 1]);
            }
        }
        assert forall|i: int| 0 <= i < full.len() - 1 && #[trigger] full[i] == ' ' implies full[i + 1] != ' ' by {
            if i < site.len() {
                assert(full[i] == site[i]);
                assert(site.contains(site[i]));
            } else if i == site.len() {
                assert(full[i + 1] == cmd[0]);
            } else {
                assert(full[i] == cmd[i - site.len() - 1]);
                assert(full[i + 1] == cmd[i - site.len()]);
            }
        }
        assert(full[0] == site[0]);
        assert(full.last() == cmd.last());
    }
    lemma_collapse_fixed(full);
    assert forall|j: int| 0 <= j < site.len() implies full[j] != ' ' by {
        assert(full[j] == site[j]);
        assert(site.contains(site[j]));
    }
    lemma_site_part(full, site.len() as int);
    assert(full.take(site.len() as int) =~= site);
    let i = choose|i: int| 0 <= i < list.len() && list[i] == site;
    lemma_collapse_fixed(site);
    assert(collapse(list[i]) == site);
}

/// A normalized name is one word or several, each two joined by a single
/// space: it holds no `/` and no other separator but spaces, does not
/// start or end with a space, and has no two spaces in a row.
pub proof fn law_normalized_shape(s: Seq<char>)
    ensures
        is_collapsed(collapse(s)),
        !collapse(s).contains('/'),
        forall|i: int| 0 <= i < collapse(s).len() ==> !is_ws(#[trigger] collapse(s)[i]) || collapse(s)[i] == ' ',
{
    lemma_collapse_is_collapsed(s);
    let t = collapse(s);
    if t.contains('/') {
        let i = choose|i: int| 0 <= i < t.len() && t[i] == '/';
        assert(is_name_sep(t[i]));
    }
    assert forall|i: int| 0 <= i < t.len() implies !is_ws(#[trigger] t[i]) || t[i] == ' ' by {
        if is_ws(t[i]) {
            assert(is_name_sep(t[i]));
        }
    }
}

proof fn lemma_without_name_contains(s: Seq<Seq<char>>, n: Seq<char>, y: Seq<char>)
    ensures
        without_name(s, n).contains(y) <==> (s.contains(y) && collapse(y) != n),
    decreases s.len(),
{
    if s.len() > 0 {
        lemma_without_name_contains(s.drop_last(), n, y);
        let w = without_name(s.drop_last(), n);
        if s.contains(y) {
            let j = choose|j: int| 0 <= j < s.len() && s[j] == y;
            if j < s.len() - 1 {
                assert(s.drop_last()[j] == y);
            }
        }
        if s.drop_last().contains(y) {
            let j = choose|j: int| 0 <= j < s.drop_last().len() && s.drop_last()[j] == y;
            assert(s[j] == y);
        }
        if collapse(s.last()) != n {
            assert(w.push(s.last())[w.len() as int] == s.last());
            if w.push(s.last()).contains(y) {
                let j = choose|j: int| 0 <= j < w.push(s.last()).len() && w.push(s.last())[j] == y;
                if j < w.len() {
                    assert(w[j] == y);
                }
            }
            if w.contains(y) {
                let j = choose|j: int| 0 <= j < w.len() && w[j] == y;
                assert(w.push(s.last())[j] == y);
            }
        }
    }
}

proof fn lemma_without_name_sorted(s: Seq<Seq<char>>, n: Seq<char>)
    requires
        strictly_sorted(s),
    ensures
        strictly_sorted(without_name(s, n)),
    decreases s.len(),
{
    if s.len() > 0 {
        let d = s.drop_last();
        assert(strictly_sorted(d)) by {
            assert forall|i: int, j: int| 0 <= i < j < d.len() implies seq_lt(#[trigger] d[i], #[trigger] d[j]) by {
                assert(d[i] == s[i] && d[j] == s[j]);
            }
        }
        lemma_without_name_sorted(d, n);
        let w = without_name(d, n);
        if collapse(s.last()) != n {
            let t = w.push(s.last());
            assert forall|i: int, j: int| 0 <= i < j < t.len() implies seq_lt(#[trigger] t[i], #[trigger] t[j]) by {
                if j == w.len() {
                    assert(t[i] == w[i]);
                    lemma_without_name_contains(d, n, w[i]);
                    assert(w.contains(w[i]));
                    let k = choose|k: int| 0 <= k < d.len() && d[k] == w[i];
                    assert(s[k] == w[i]);
                    assert(seq_lt(s[k], s[s.len() - 1]));
                } else {
                    assert(t[i] == w[i] && t[j] == w[j]);
                }
            }
        }
    }
}

proof fn lemma_sorted_same_members(a: Seq<Seq<char>>, b: Seq<Seq<char>>)
    requires
        strictly_sorted(a),
        strictly_sorted(b),
        forall|y: Seq<char>| a.contains(y) <==> b.contains(y),
    ensures
        a == b,
    decreases a.len() + b.len(),
{
    if a.len() == 0 {
        if b.len() > 0 {
            assert(b.contains(b[0]));
        }
        assert(a =~= b);
    } else if b.len() == 0 {
        assert(a.contains(a[0]));
    } else {
        let x = a.last();
        let z = b.last();
        assert(a.contains(x));
        assert(b.contains(z));
        let ib = choose|k: int| 0 <= k < b.len() && b[k] == x;
        let ia = choose|k: int| 0 <= k < a.len() && a[k] == z;
        if x != z {
            lemma_lt_total(x, z);
            if seq_lt(x, z) {
                if ia < a.len() - 1 {
                    assert(seq_lt(a[ia], a[a.len() - 1]));
                    lemma_lt_transitive(x, z, x);
                }
                lemma_lt_irreflexive(x);
            } else {
                if ib < b.len() - 1 {
                    assert(seq_lt(b[ib], b[b.len() - 1]));
                    lemma_lt_transitive(z, x, z);
                }
                lemma_lt_irreflexive(z);
            }
        }
        let a2 = a.drop_last();
        let b2 = b.drop_last();
        assert(strictly_sorted(a2)) by {
            assert forall|i: int, j: int| 0 <= i < j < a2.len() implies seq_lt(#[trigger] a2[i], #[trigger] a2[j]) by {
                assert(a2[i] == a[i] && a2[j] == a[j]);
            }
        }
        assert(strictly_sorted(b2)) by {
            assert forall|i: int, j: int| 0 <= i < j < b2.len() implies seq_lt(#[trigger] b2[i], #[trigger] b2[j]) by {
                assert(b2[i] == b[i] && b2[j] == b[j]);
            }
        }
        assert forall|y: Seq<char>| a2.contains(y) <==> b2.contains(y) by {
            if a2.contains(y) {
                let k = choose|k: int| 0 <= k < a2.len() && a2[k] == y;
                assert(a[k] == y);
                assert(a.contains(y));
                assert(seq_lt(a[k], a[a.len() - 1]));
                let m = choose|m: int| 0 <= m < b.len() && b[m] == y;
                if m == b.len() - 1 {
                    lemma_lt_irreflexive(x);
                }
                assert(b2[m] == y);
            }
            if b2.contains(y) {
                let k = choose|k: int| 0 <= k < b2.len() && b2[k] == y;
                assert(b[k] == y);
                assert(b.contains(y));
                assert(seq_lt(b[k], b[b.len() - 1]));
                let m = choose|m: int| 0 <= m < a.len() && a[m] == y;
                if m == a.len() - 1 {
                    lemma_lt_irreflexive(z);
                }
                assert(a2[m] == y);
            }
        }
        lemma_sorted_same_members(a2, b2);
        assert(a =~= a2.push(x));
        assert(b =~= b2.push(z));
    }
}

proof fn lemma_without_absent(s: Seq<Seq<char>>, n: Seq<char>)
    requires
        forall|i: int| 0 <= i < s.len() ==> collapse(#[trigger] s[i]) != n,
    ensures
        without_name(s, n) == s,
    decreases s.len(),
{
    if s.len() > 0 {
        assert(collapse(s[s.len() - 1]) != n);
        assert forall|i: int| 0 <= i < s.drop_last().len() implies collapse(#[trigger] s.drop_last()[i]) != n by {
            assert(s.drop_last()[i] == s[i]);
        }
        lemma_without_absent(s.drop_last(), n);
        assert(s.drop_last().push(s.last()) =~= s);
    }
}

/// Enabling a name right after disabling it gives the list back: when no
/// entry of a sorted list names `name`, `disable` adds its normal form,
/// and `enable` then removes just that entry. A second `enable` finds
/// nothing to remove (it answers `false`) and keeps the list.
pub proof fn law_enable_undoes_disable(before: Seq<Seq<char>>, mid: Seq<Seq<char>>, name: Seq<char>)
    requires
        strictly_sorted(before),
        collapse(name).len() > 0,
        !(exists|i: int| 0 <= i < before.len() && collapse(before[i]) == collapse(name)),
        strictly_sorted(mid),
        forall|y: Seq<char>| mid.contains(y) <==> (before.contains(y) || y == collapse(name)),
    ensures
        without_name(mid, collapse(name)) == before,
        without_name(before, collapse(name)) == before,
{
    assert forall|i: int| 0 <= i < before.len() implies collapse(#[trigger] before[i]) != collapse(name) by {}
    lemma_without_absent(before, collapse(name));
    let n = collapse(name);
    let w = without_name(mid, n);
    lemma_without_name_sorted(mid, n);
    law_normalize_idempotent(name);
    assert forall|y: Seq<char>| w.contains(y) <==> before.contains(y) by {
        lemma_without_name_contains(mid, n, y);
        if before.contains(y) {
            let k = choose|k: int| 0 <= k < before.len() && before[k] == y;
            assert(collapse(before[k]) != n);
        }
    }
    lemma_sorted_same_members(w, before);
}

/// The words of a name: its maximal runs of characters that are no
/// separators (whitespace or `/`), in order.
pub open spec fn name_words(s: Seq<char>) -> Seq<Seq<char>>
    decreases s.len(),
{
    if s.len() == 0 {
        Seq::empty()
    } else {
        let ws = name_words(s.drop_last());
        let c = s.last();
        if is_name_sep(c) {
            ws
        } else if s.len() >= 2 && !is_name_sep(s[s.len() - 2]) {
            ws.drop_last().push(ws.last().push(c))
        } else {
            ws.push(seq![c])
        }
    }
}

/// Words joined by single spaces.
pub open spec fn join_words(ws: Seq<Seq<char>>) -> Seq<char>
    decreases ws.len(),
{
    if ws.len() == 0 {
        Seq::empty()
    } else if ws.len() == 1 {
        ws[0]
    } else {
        join_words(ws.drop_last()) + seq![' '] + ws.last()
    }
}

proof fn lemma_words_shape(s: Seq<char>)
    ensures
        forall|k: int| 0 <= k < name_words(s).len() ==> (#[trigger] name_words(s)[k]).len() > 0,
        s.len() > 0 && !is_name_sep(s.last()) ==> name_words(s).len() > 0,
    decreases s.len(),
{
    if s.len() > 0 {
        let d = s.drop_last();
        lemma_words_shape(d);
        if s.len() >= 2 && !is_name_sep(s.last()) && !is_name_sep(s[s.len() - 2]) {
            assert(d.last() == s[s.len() - 2]);
        }
    }
}

proof fn lemma_join_extend(ws: Seq<Seq<char>>, c: char)
    requires
        ws.len() > 0,
    ensures
        join_words(ws.drop_last().push(ws.last().push(c))) == join_words(ws).push(c),
{
    let e = ws.drop_last().push(ws.last().push(c));
    assert(e.drop_last() =~= ws.drop_last());
    if ws.len() > 1 {
        assert(join_words(ws.drop_last()) + seq![' '] + ws.last().push(c) =~= (join_words(ws.drop_last())
            + seq![' '] + ws.last()).push(c));
    }
}

proof fn lemma_join_nonempty(ws: Seq<Seq<char>>)
    requires
        forall|k: int| 0 <= k < ws.len() ==> (#[trigger] ws[k]).len() > 0,
    ensures
        (join_words(ws).len() > 0) == (ws.len() > 0),
    decreases ws.len(),
{
    if ws.len() > 0 {
        assert(ws[ws.len() - 1].len() > 0);
        if ws.len() > 1 {
            assert(ws[0].len() > 0);
        }
    }
}

/// Normalizing keeps the words of a name: the normal form is exactly its
/// words (runs of characters between whitespace and `/`), in order,
/// joined by single spaces. For example `  zhihu//hot ` becomes
/// `zhihu hot`.
pub proof fn law_normalize_keeps_words(s: Seq<char>)
    ensures
        collapse(s) == join_words(name_words(s)),
        forall|k: int| 0 <= k < name_words(s).len() ==> (#[trigger] name_words(s)[k]).len() > 0,
    decreases s.len(),
{
    lemma_words_shape(s);
    if s.len() > 0 {
        let d = s.drop_last();
        let c = s.last();
        law_normalize_keeps_words(d);
        lemma_words_shape(d);
        let ws = name_words(d);
        if !is_name_sep(c) {
            if s.len() >= 2 && !is_name_sep(s[s.len() - 2]) {
                assert(d.last() == s[s.len() - 2]);
                lemma_join_extend(ws, c);
            } else {
                lemma_join_nonempty(ws);
                let p = ws.push(seq![c]);
                assert(p.drop_last() =~= ws);
                if ws.len() == 0 {
                    assert(join_words(p) == seq![c]);
                    assert(collapse(d).push(c) =~= seq![c]);
                } else {
                    assert(collapse(d).push(' ').push(c) =~= join_words(ws) + seq![' '] + seq![c]);
                }
            }
        }
    }
}

} // verus!
