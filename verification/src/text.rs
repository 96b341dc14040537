use vstd::prelude::*;

verus! {

/// Copies the characters of `s` into a vector.
pub fn chars_of(s: &str) -> (v: Vec<char>)
    ensures
        v@ == s@,
{
    let mut v: Vec<char> = Vec::new();
    for c in it: s.chars()
        invariant
            v@ == it.seq().take(it.index() as int),
    {
        v.push(c);
    }
    v
}

/// Appends one character to a string (`String::push`).
#[verifier::external_body]
pub(crate) fn push_char(s: &mut String, c: char)
    ensures
        final(s)@ == old(s)@.push(c),
{
    s.push(c);
}

/// Builds a string from characters.
pub fn string_of(v: &Vec<char>) -> (s: String)
    ensures
        s@ == v@,
{
    let mut s = String::new();
    let mut i: usize = 0;
    while i < v.len()
        invariant
            i <= v.len(),
            s@ == v@.take(i as int),
        decreases v.len() - i,
    {
        push_char(&mut s, v[i]);
        assert(v@.take(i as int).push(v@[i as int]) =~= v@.take(i + 1));
        i = i + 1;
    }
    assert(v@.take(v.len() as int) =~= v@);
    s
}

/// Unicode `White_Space`, the set that `char::is_whitespace` tests.
pub open spec fn is_ws(c: char) -> bool {
    ||| ('\t' <= c && c <= '\r')
    ||| c == ' '
    ||| c == '\u{85}'
    ||| c == '\u{A0}'
    ||| c == '\u{1680}'
    ||| ('\u{2000}' <= c && c <= '\u{200A}')
    ||| c == '\u{2028}'
    ||| c == '\u{2029}'
    ||| c == '\u{202F}'
    ||| c == '\u{205F}'
    ||| c == '\u{3000}'
}

pub fn is_whitespace(c: char) -> (b: bool)
    ensures
        b == is_ws(c),
{
    ('\t' <= c && c <= '\r') || c == ' ' || c == '\u{85}' || c == '\u{A0}' || c == '\u{1680}'
        || ('\u{2000}' <= c && c <= '\u{200A}') || c == '\u{2028}' || c == '\u{2029}'
        || c == '\u{202F}' || c == '\u{205F}' || c == '\u{3000}'
}

/// `s` without its leading whitespace.
pub open spec fn trim_start(s: Seq<char>) -> Seq<char>
    decreases s.len(),
{
    if s.len() > 0 && is_ws(s[0]) {
        trim_start(s.drop_first())
    } else {
        s
    }
}

/// `s` without its trailing whitespace.
pub open spec fn trim_end(s: Seq<char>) -> Seq<char>
    decreases s.len(),
{
    if s.len() > 0 && is_ws(s.last()) {
        trim_end(s.drop_last())
    } else {
        s
    }
}

/// `s` without leading and trailing whitespace (`str::trim`).
pub open spec fn trim(s: Seq<char>) -> Seq<char> {
    trim_end(trim_start(s))
}

/// Trimming the start drops a prefix: the result is `s` from some index on.
pub proof fn lemma_trim_start_skip(s: Seq<char>) -> (a: int)
    ensures
        0 <= a <= s.len(),
        trim_start(s) == s.skip(a),
    decreases s.len(),
{
    if s.len() > 0 && is_ws(s[0]) {
        let b = lemma_trim_start_skip(s.drop_first());
        assert(s.drop_first().skip(b) =~= s.skip(b + 1));
        b + 1
    } else {
        assert(s.skip(0) =~= s);
        0
    }
}

/// Trimming the end drops a suffix: the result is the first `b`
/// characters of `s`.
pub proof fn lemma_trim_end_take(s: Seq<char>) -> (b: int)
    ensures
        0 <= b <= s.len(),
        trim_end(s) == s.take(b),
    decreases s.len(),
{
    if s.len() > 0 && is_ws(s.last()) {
        let b = lemma_trim_end_take(s.drop_last());
        assert(s.drop_last().take(b) =~= s.take(b));
        b
    } else {
        assert(s.take(s.len() as int) =~= s);
        s.len() as int
    }
}

/// Removes leading and trailing whitespace.
pub fn trim_chars(v: &Vec<char>) -> (r: Vec<char>)
    ensures
        r@ == trim(v@),
{
    let n = v.len();
    let mut a: usize = 0;
    assert(v@.skip(0) =~= v@);
    while a < n && is_whitespace(v[a])
        invariant
            a <= n == v.len(),
            trim_start(v@) == trim_start(v@.skip(a as int)),
        decreases n - a,
    {
        assert(v@.skip(a as int).drop_first() =~= v@.skip(a + 1));
        a = a + 1;
    }
    let ghost t = v@.skip(a as int);
    assert(trim_start(t) == t);
    let mut b: usize = n;
    while b > a && is_whitespace(v[b - 1])
        invariant
            a <= b <= n == v.len(),
            trim_end(t) == trim_end(v@.subrange(a as int, b as int)),
        decreases b,
    {
        assert(v@.subrange(a as int, b as int).drop_last() =~= v@.subrange(a as int, b - 1));
        b = b - 1;
    }
    let mut r: Vec<char> = Vec::new();
    let mut i: usize = a;
    while i < b
        invariant
            a <= i <= b <= n == v.len(),
            r@ == v@.subrange(a as int, i as int),
        decreases b - i,
    {
        r.push(v[i]);
        assert(v@.subrange(a as int, i as int).push(v@[i as int]) =~= v@.subrange(a as int, i + 1));
        i = i + 1;
    }
    r
}

/// The index where the leading whitespace of `v` ends.
pub fn trim_start_index(v: &Vec<char>) -> (a: usize)
    ensures
        a <= v.len(),
        trim_start(v@) == v@.skip(a as int),
{
    let n = v.len();
    let mut a: usize = 0;
    assert(v@.skip(0) =~= v@);
    while a < n && is_whitespace(v[a])
        invariant
            a <= n == v.len(),
            trim_start(v@) == trim_start(v@.skip(a as int)),
        decreases n - a,
    {
        assert(v@.skip(a as int).drop_first() =~= v@.skip(a + 1));
        a = a + 1;
    }
    a
}

/// `str::trim`, returning an owned string.
pub fn trim_str(s: &str) -> (r: String)
    ensures
        r@ == trim(s@),
{
    let v = chars_of(s);
    let t = trim_chars(&v);
    string_of(&t)
}

/// Whether `t` occurs in `s` at position `i`.
pub open spec fn matches_at(s: Seq<char>, t: Seq<char>, i: int) -> bool {
    0 <= i && i + t.len() <= s.len() && s.subrange(i, i + t.len()) == t
}

/// The index of the first occurrence of `t` in `s`.
pub open spec fn first_match(s: Seq<char>, t: Seq<char>) -> int {
    choose|i: int| matches_at(s, t, i) && forall|j: int| 0 <= j < i ==> !matches_at(s, t, j)
}

pub proof fn lemma_first_match(s: Seq<char>, t: Seq<char>, k: int)
    requires
        matches_at(s, t, k),
        forall|j: int| 0 <= j < k ==> !matches_at(s, t, j),
    ensures
        first_match(s, t) == k,
{
    let k2 = first_match(s, t);
    assert(matches_at(s, t, k2) && forall|j: int| 0 <= j < k2 ==> !matches_at(s, t, j));
    if k2 < k {
        assert(!matches_at(s, t, k2));
    }
    if k < k2 {
        assert(!matches_at(s, t, k));
    }
}

/// Whether `t` occurs in `s` (`str::contains`).
pub open spec fn contains(s: Seq<char>, t: Seq<char>) -> bool {
    exists|i: int| matches_at(s, t, i)
}

pub open spec fn starts_with(s: Seq<char>, t: Seq<char>) -> bool {
    t.len() <= s.len() && s.take(t.len() as int) == t
}

pub open spec fn ends_with(s: Seq<char>, t: Seq<char>) -> bool {
    t.len() <= s.len() && s.skip(s.len() - t.len()) == t
}

/// Whether `t` occurs in `s` at index `i`.
pub fn matches_at_exec(s: &Vec<char>, t: &Vec<char>, i: usize) -> (b: bool)
    ensures
        b == matches_at(s@, t@, i as int),
{
    if i > s.len() || t.len() > s.len() - i {
        return false;
    }
    let mut j: usize = 0;
    while j < t.len()
        invariant
            i + t.len() <= s.len(),
            j <= t.len(),
            forall|k: int| 0 <= k < j ==> s@[i + k] == t@[k],
        decreases t.len() - j,
    {
        if s[i + j] != t[j] {
            assert(s@.subrange(i as int, i + t.len())[j as int] != t@[j as int]);
            return false;
        }
        j = j + 1;
    }
    assert(s@.subrange(i as int, i + t.len()) =~= t@);
    true
}

/// The first index at or after `from` where `t` occurs in `s`.
pub fn find_from(s: &Vec<char>, t: &Vec<char>, from: usize) -> (r: Option<usize>)
    ensures
        match r {
            Some(i) => from <= i && matches_at(s@, t@, i as int) && forall|j: int|
                from <= j < i ==> !matches_at(s@, t@, j),
            None => forall|j: int| from <= j ==> !matches_at(s@, t@, j),
        },
{
    if from > s.len() {
        return None;
    }
    let mut i: usize = from;
    loop
        invariant
            from <= i <= s.len(),
            forall|j: int| from <= j < i ==> !matches_at(s@, t@, j),
        decreases s.len() - i,
    {
        if matches_at_exec(s, t, i) {
            return Some(i);
        }
        if i >= s.len() {
            return None;
        }
        i = i + 1;
    }
}

/// Whether `t` occurs in `s`.
pub fn contains_exec(s: &Vec<char>, t: &Vec<char>) -> (b: bool)
    ensures
        b == contains(s@, t@),
{
    match find_from(s, t, 0) {
        Some(i) => true,
        None => false,
    }
}

/// `str::contains` on strings.
pub fn str_contains(s: &str, t: &str) -> (b: bool)
    ensures
        b == contains(s@, t@),
{
    let sv = chars_of(s);
    let tv = chars_of(t);
    contains_exec(&sv, &tv)
}

pub fn starts_with_exec(s: &Vec<char>, t: &Vec<char>) -> (b: bool)
    ensures
        b == starts_with(s@, t@),
{
    let r = matches_at_exec(s, t, 0);
    proof {
        if t@.len() <= s@.len() {
            assert(s@.subrange(0, t@.len() as int) =~= s@.take(t@.len() as int));
        }
    }
    r
}

pub fn ends_with_exec(s: &Vec<char>, t: &Vec<char>) -> (b: bool)
    ensures
        b == ends_with(s@, t@),
{
    if t.len() > s.len() {
        return false;
    }
    let r = matches_at_exec(s, t, s.len() - t.len());
    proof {
        assert(s@.subrange(s@.len() - t@.len(), s@.len() as int) =~= s@.skip(s@.len() - t@.len()));
    }
    r
}

pub fn str_starts_with(s: &str, t: &str) -> (b: bool)
    ensures
        b == starts_with(s@, t@),
{
    let sv = chars_of(s);
    let tv = chars_of(t);
    starts_with_exec(&sv, &tv)
}

/// ASCII lowercase of one character (`char::to_ascii_lowercase`).
pub open spec fn ascii_lower(c: char) -> char {
    if 'A' <= c && c <= 'Z' {
        ((c as u32) + 32) as char
    } else {
        c
    }
}

/// ASCII uppercase of one character (`char::to_ascii_uppercase`).
pub open spec fn ascii_upper(c: char) -> char {
    if 'a' <= c && c <= 'z' {
        ((c as u32) - 32) as char
    } else {
        c
    }
}

pub open spec fn lower_seq(s: Seq<char>) -> Seq<char> {
    s.map_values(|c: char| ascii_lower(c))
}

pub open spec fn upper_seq(s: Seq<char>) -> Seq<char> {
    s.map_values(|c: char| ascii_upper(c))
}

pub fn ascii_lower_char(c: char) -> (r: char)
    ensures
        r == ascii_lower(c),
{
    if 'A' <= c && c <= 'Z' {
        let b: u8 = (c as u8) + 32;
        b as char
    } else {
        c
    }
}

pub fn ascii_upper_char(c: char) -> (r: char)
    ensures
        r == ascii_upper(c),
{
    if 'a' <= c && c <= 'z' {
        let b: u8 = (c as u8) - 32;
        b as char
    } else {
        c
    }
}

/// `s` with ASCII letters made uppercase (`str::to_ascii_uppercase`).
pub fn to_ascii_upper(s: &Vec<char>) -> (r: Vec<char>)
    ensures
        r@ == upper_seq(s@),
{
    let mut r: Vec<char> = Vec::new();
    let mut i: usize = 0;
    while i < s.len()
        invariant
            i <= s.len(),
            r@ == upper_seq(s@.take(i as int)),
        decreases s.len() - i,
    {
        r.push(ascii_upper_char(s[i]));
        assert(upper_seq(s@.take(i + 1)) =~= upper_seq(s@.take(i as int)).push(ascii_upper(s@[i as int])));
        i = i + 1;
    }
    assert(s@.take(s.len() as int) =~= s@);
    r
}

/// `s` with ASCII letters made lowercase (`str::to_ascii_lowercase`).
pub fn to_ascii_lower(s: &Vec<char>) -> (r: Vec<char>)
    ensures
        r@ == lower_seq(s@),
{
    let mut r: Vec<char> = Vec::new();
    let mut i: usize = 0;
    while i < s.len()
        invariant
            i <= s.len(),
            r@ == lower_seq(s@.take(i as int)),
        decreases s.len() - i,
    {
        r.push(ascii_lower_char(s[i]));
        assert(lower_seq(s@.take(i + 1)) =~= lower_seq(s@.take(i as int)).push(ascii_lower(s@[i as int])));
        i = i + 1;
    }
    assert(s@.take(s.len() as int) =~= s@);
    r
}

/// The characters of `v` from index `a` up to (not including) `b`.
pub fn slice_chars(v: &Vec<char>, a: usize, b: usize) -> (r: Vec<char>)
    requires
        a <= b <= v.len(),
    ensures
        r@ == v@.subrange(a as int, b as int),
{
    let mut r: Vec<char> = Vec::new();
    let mut i: usize = a;
    while i < b
        invariant
            a <= i <= b <= v.len(),
            r@ == v@.subrange(a as int, i as int),
        decreases b - i,
    {
        r.push(v[i]);
        assert(v@.subrange(a as int, i + 1) =~= v@.subrange(a as int, i as int).push(v@[i as int]));
        i = i + 1;
    }
    r
}

/// The index of the first `c` in `s`, or the length of `s` when there is
/// none.
pub open spec fn index_of_char(s: Seq<char>, c: char) -> int
    decreases s.len(),
{
    if s.len() == 0 {
        0
    } else if s[0] == c {
        0
    } else {
        1 + index_of_char(s.drop_first(), c)
    }
}

pub proof fn lemma_index_of_char(s: Seq<char>, c: char, i: int)
    requires
        0 <= i <= s.len(),
        forall|j: int| 0 <= j < i ==> s[j] != c,
        i == s.len() || s[i] == c,
    ensures
        index_of_char(s, c) == i,
    decreases i,
{
    if i > 0 {
        let t = s.drop_first();
        assert forall|j: int| 0 <= j < i - 1 implies t[j] != c by {
            assert(t[j] == s[j + 1]);
        }
        if i < s.len() {
            assert(t[i - 1] == s[i]);
        }
        lemma_index_of_char(t, c, i - 1);
    }
}

/// The index of the first `c` lies within the text, or just past it.
pub proof fn lemma_index_of_char_bounds(s: Seq<char>, c: char)
    ensures
        0 <= index_of_char(s, c) <= s.len(),
    decreases s.len(),
{
    if s.len() > 0 && s[0] != c {
        lemma_index_of_char_bounds(s.drop_first(), c);
    }
}

/// The index of the first `c` in `v` at or after `from`, or the length of
/// `v` when there is none.
pub fn find_char(v: &Vec<char>, c: char, from: usize) -> (r: usize)
    requires
        from <= v.len(),
    ensures
        from <= r <= v.len(),
        r == from + index_of_char(v@.skip(from as int), c),
        forall|j: int| from <= j < r ==> v@[j] != c,
        r < v.len() ==> v@[r as int] == c,
{
    let mut i: usize = from;
    while i < v.len() && v[i] != c
        invariant
            from <= i <= v.len(),
            forall|j: int| from <= j < i ==> v@[j] != c,
        decreases v.len() - i,
    {
        i = i + 1;
    }
    proof {
        let t = v@.skip(from as int);
        assert forall|j: int| 0 <= j < i - from implies t[j] != c by {
            assert(t[j] == v@[from + j]);
        }
        if i < v.len() {
            assert(t[i - from] == v@[i as int]);
        }
        lemma_index_of_char(t, c, i - from);
    }
    i
}

/// Whether two texts are equal.
pub fn str_eq(a: &str, b: &str) -> (r: bool)
    ensures
        r == (a@ == b@),
{
    a.to_owned() == b.to_owned()
}

/// The words of `s`: its maximal runs of characters that are not
/// whitespace, in order (`str::split_whitespace`).
pub open spec fn words(s: Seq<char>) -> Seq<Seq<char>>
    decreases s.len(),
{
    if s.len() == 0 {
        Seq::empty()
    } else if is_ws(s.last()) {
        words(s.drop_last())
    } else {
        let w = words(s.drop_last());
        if s.len() >= 2 && !is_ws(s[s.len() - 2]) && w.len() > 0 {
            w.update(w.len() - 1, w.last().push(s.last()))
        } else {
            w.push(seq![s.last()])
        }
    }
}

pub open spec fn texts(v: Seq<String>) -> Seq<Seq<char>> {
    v.map_values(|s: String| s@)
}

/// Splits a text into its words.
pub fn split_words(s: &str) -> (r: Vec<String>)
    ensures
        texts(r@) == words(s@),
{
    let v = chars_of(s);
    let mut out: Vec<String> = Vec::new();
    let mut cur: Vec<char> = Vec::new();
    let mut i: usize = 0;
    assert(v@.take(0) =~= Seq::<char>::empty());
    while i < v.len()
        invariant
            i <= v.len(),
            v@ == s@,
            cur@.len() > 0 <==> (i > 0 && !is_ws(v@[i - 1])),
            words(v@.take(i as int)) == (if cur@.len() > 0 {
                texts(out@).push(cur@)
            } else {
                texts(out@)
            }),
        decreases v.len() - i,
    {
        let c = v[i];
        let ghost t = v@.take(i + 1);
        assert(t.drop_last() =~= v@.take(i as int));
        assert(t.last() == c);
        if i > 0 {
            assert(t[t.len() - 2] == v@[i - 1]);
        }
        if is_whitespace(c) {
            if cur.len() > 0 {
                let ghost prev = texts(out@);
                out.push(string_of(&cur));
                assert(texts(out@) =~= prev.push(cur@));
                cur = Vec::new();
            }
        } else {
            let ghost prev_cur = cur@;
            cur.push(c);
            proof {
                let w = words(v@.take(i as int));
                if prev_cur.len() > 0 {
                    assert(w.update(w.len() - 1, w.last().push(c)) =~= texts(out@).push(cur@));
                } else {
                    assert(seq![c] =~= cur@);
                }
            }
        }
        i = i + 1;
    }
    if cur.len() > 0 {
        let ghost prev = texts(out@);
        out.push(string_of(&cur));
        assert(texts(out@) =~= prev.push(cur@));
    }
    assert(v@.take(v.len() as int) =~= v@);
    out
}

/// Joins three pieces of text.
pub fn concat3(a: &str, b: &str, c: &str) -> (r: String)
    ensures
        r@ == a@ + b@ + c@,
{
    let mut r = String::from_str(a);
    r.append(b);
    r.append(c);
    r
}

pub open spec fn is_digit(c: char) -> bool {
    '0' <= c && c <= '9'
}

pub open spec fn all_digits(s: Seq<char>) -> bool {
    forall|i: int| 0 <= i < s.len() ==> is_digit(#[trigger] s[i])
}

/// The number that a string of decimal digits denotes.
pub open spec fn digits_value(s: Seq<char>) -> nat
    decreases s.len(),
{
    if s.len() == 0 {
        0
    } else {
        digits_value(s.drop_last()) * 10 + ((s.last() as int) - ('0' as int)) as nat
    }
}

/// The digits of an unsigned number, after an optional leading `+`.
pub open spec fn unsigned_digits(s: Seq<char>) -> Seq<char> {
    if s.len() > 0 && s[0] == '+' {
        s.drop_first()
    } else {
        s
    }
}

/// Whether `str::parse::<u64>` accepts `s`: an optional `+`, then one or
/// more ASCII digits, denoting at most `u64::MAX`.
pub open spec fn parses_u64(s: Seq<char>) -> bool {
    let d = unsigned_digits(s);
    d.len() > 0 && all_digits(d) && digits_value(d) <= u64::MAX
}

/// The value that `str::parse::<u64>` gives for `s`.
pub open spec fn u64_value(s: Seq<char>) -> nat {
    digits_value(unsigned_digits(s))
}

pub proof fn lemma_digits_prefix_le(s: Seq<char>, k: int)
    requires
        0 <= k <= s.len(),
    ensures
        digits_value(s.take(k)) <= digits_value(s),
    decreases s.len(),
{
    if k < s.len() {
        assert(s.drop_last().take(k) =~= s.take(k));
        lemma_digits_prefix_le(s.drop_last(), k);
    } else {
        assert(s.take(k) =~= s);
    }
}

/// `str::parse::<u64>` on a character sequence.
pub fn parse_u64(v: &Vec<char>) -> (r: Option<u64>)
    ensures
        r == (if parses_u64(v@) {
            Some(u64_value(v@) as u64)
        } else {
            None::<u64>
        }),
{
    let n = v.len();
    let start: usize = if n > 0 && v[0] == '+' {
        1
    } else {
        0
    };
    let ghost d = unsigned_digits(v@);
    assert(d =~= v@.skip(start as int));
    if start >= n {
        return None;
    }
    let mut acc: u64 = 0;
    let mut i: usize = start;
    assert(d.take(0) =~= Seq::<char>::empty());
    while i < n
        invariant
            start <= i <= n == v.len(),
            d == v@.skip(start as int),
            d == unsigned_digits(v@),
            all_digits(d.take(i - start)),
            acc == digits_value(d.take(i - start)),
        decreases n - i,
    {
        let c = v[i];
        assert(d[i - start] == c);
        if !('0' <= c && c <= '9') {
            assert(!is_digit(d[i - start]));
            return None;
        }
        let dv: u64 = ((c as u32) - ('0' as u32)) as u64;
        let ghost k = i - start;
        assert(d.take(k + 1).drop_last() =~= d.take(k));
        assert(d.take(k + 1).last() == c);
        assert(all_digits(d.take(k + 1)));
        match acc.checked_mul(10) {
            None => {
                proof {
                    assert(digits_value(d.take(k + 1)) >= acc * 10);
                    if all_digits(d) {
                        lemma_digits_prefix_le(d, k + 1);
                    }
                }
                return None;
            },
            Some(m) => match m.checked_add(dv) {
                None => {
                    proof {
                        if all_digits(d) {
                            lemma_digits_prefix_le(d, k + 1);
                        }
                    }
                    return None;
                },
                Some(x) => {
                    acc = x;
                },
            },
        }
        i = i + 1;
    }
    assert(d.take(n - start) =~= d);
    Some(acc)
}

/// The character of a decimal digit.
pub open spec fn digit_char(d: nat) -> char {
    ((d + 48) as u8) as char
}

/// The decimal digits of `n`, without leading zeros.
pub open spec fn decimal(n: nat) -> Seq<char>
    decreases n,
{
    if n < 10 {
        seq![digit_char(n)]
    } else {
        decimal(n / 10).push(digit_char(n % 10))
    }
}

fn decimal_chars(n: u128) -> (r: Vec<char>)
    ensures
        r@ == decimal(n as nat),
    decreases n,
{
    let d: u8 = (n % 10) as u8;
    let c: char = (d + 48) as char;
    if n < 10 {
        let mut v: Vec<char> = Vec::new();
        v.push(c);
        v
    } else {
        let mut v = decimal_chars(n / 10);
        v.push(c);
        v
    }
}

/// The decimal text of an unsigned number (`to_string`).
pub fn u128_text(n: u128) -> (r: String)
    ensures
        r@ == decimal(n as nat),
{
    string_of(&decimal_chars(n))
}

/// The decimal text of a signed number, with `-` before a negative one.
pub open spec fn signed_decimal(n: int) -> Seq<char> {
    if n < 0 {
        seq!['-'] + decimal((-n) as nat)
    } else {
        decimal(n as nat)
    }
}

pub fn i64_text(n: i64) -> (r: String)
    ensures
        r@ == signed_decimal(n as int),
{
    if n < 0 {
        let m: u128 = if n == i64::MIN {
            9223372036854775808u128
        } else {
            (-n) as u128
        };
        let mut v: Vec<char> = Vec::new();
        v.push('-');
        let mut d = decimal_chars(m);
        v.append(&mut d);
        assert(v@ =~= seq!['-'] + decimal((-n) as nat));
        string_of(&v)
    } else {
        u128_text(n as u128)
    }
}

/// `r` before every character of `s` and after the last one: what
/// `str::replace` makes of an empty pattern.
pub open spec fn interleave(s: Seq<char>, r: Seq<char>) -> Seq<char>
    decreases s.len(),
{
    if s.len() == 0 {
        r
    } else {
        r + seq![s[0]] + interleave(s.drop_first(), r)
    }
}

/// `s` with every occurrence of `p`, from left to right and without
/// overlaps, replaced by `r` (`str::replace`); an empty `p` occurs before
/// every character and at the end.
#[verifier::opaque]
pub open spec fn replace_all(s: Seq<char>, p: Seq<char>, r: Seq<char>) -> Seq<char>
    decreases s.len(),
{
    if p.len() == 0 {
        interleave(s, r)
    } else if !contains(s, p) {
        s
    } else {
        let i = first_match(s, p);
        if 0 <= i && i + p.len() <= s.len() {
            s.take(i) + r + replace_all(s.skip(i + p.len()), p, r)
        } else {
            s
        }
    }
}

proof fn lemma_matches_after(s: Seq<char>, t: Seq<char>, p: int, j: int)
    requires
        0 <= p <= s.len(),
    ensures
        matches_at(s.skip(p), t, j) == (j >= 0 && matches_at(s, t, p + j)),
{
    if 0 <= j && j + t.len() <= s.len() - p {
        assert(s.skip(p).subrange(j, j + t.len()) =~= s.subrange(p + j, p + j + t.len()));
    }
}

proof fn lemma_replace_none(s: Seq<char>, p: Seq<char>, r: Seq<char>, pos: int)
    requires
        p.len() > 0,
        0 <= pos <= s.len(),
        forall|j: int| pos <= j ==> !matches_at(s, p, j),
    ensures
        replace_all(s.skip(pos), p, r) == s.skip(pos),
{
    reveal(replace_all);
    let rest = s.skip(pos);
    if contains(rest, p) {
        let j = choose|j: int| matches_at(rest, p, j);
        lemma_matches_after(s, p, pos, j);
    }
}

proof fn lemma_replace_step(s: Seq<char>, p: Seq<char>, r: Seq<char>, pos: int, i: int)
    requires
        p.len() > 0,
        0 <= pos <= i,
        matches_at(s, p, i),
        forall|j: int| pos <= j < i ==> !matches_at(s, p, j),
    ensures
        replace_all(s.skip(pos), p, r) == s.subrange(pos, i) + r + replace_all(s.skip(i + p.len()), p, r),
{
    reveal(replace_all);
    let rest = s.skip(pos);
    let k = i - pos;
    lemma_matches_after(s, p, pos, k);
    assert forall|j: int| 0 <= j < k implies !matches_at(rest, p, j) by {
        lemma_matches_after(s, p, pos, j);
    }
    lemma_first_match(rest, p, k);
    assert(rest.skip(k + p.len()) =~= s.skip(i + p.len()));
    assert(rest.take(k) =~= s.subrange(pos, i));
}

/// Replaces every occurrence of `p` in `s` by `r`.
pub fn replace_text(s: &str, p: &str, r: &str) -> (out: String)
    ensures
        out@ == replace_all(s@, p@, r@),
{
    let sv = chars_of(s);
    let pv = chars_of(p);
    let rv = chars_of(r);
    if pv.len() == 0 {
        proof {
            reveal(replace_all);
        }
        let mut out: Vec<char> = Vec::new();
        let mut k: usize = sv.len();
        let mut tail = rv.clone();
        assert(sv@.skip(sv.len() as int) =~= Seq::<char>::empty());
        while k > 0
            invariant
                k <= sv.len(),
                sv@ == s@,
                rv@ == r@,
                tail@ == interleave(sv@.skip(k as int), rv@),
            decreases k,
        {
            k = k - 1;
            let mut next = rv.clone();
            next.push(sv[k]);
            let ghost t = tail@;
            next.append(&mut tail);
            assert(sv@.skip(k as int).drop_first() =~= sv@.skip(k + 1));
            assert(next@ =~= rv@ + seq![sv@[k as int]] + t);
            tail = next;
        }
        assert(sv@.skip(0) =~= sv@);
        out.append(&mut tail);
        assert(out@ =~= interleave(s@, r@));
        return string_of(&out);
    }
    let mut out: Vec<char> = Vec::new();
    let mut pos: usize = 0;
    assert(sv@.skip(0) =~= sv@);
    loop
        invariant
            pos <= sv.len(),
            pv@.len() > 0,
            sv@ == s@,
            pv@ == p@,
            rv@ == r@,
            replace_all(sv@, pv@, rv@) == out@ + replace_all(sv@.skip(pos as int), pv@, rv@),
        decreases sv.len() - pos,
    {
        match find_from(&sv, &pv, pos) {
            None => {
                proof {
                    lemma_replace_none(sv@, pv@, rv@, pos as int);
                }
                let mut tail = slice_chars(&sv, pos, sv.len());
                assert(tail@ =~= sv@.skip(pos as int));
                let ghost before = out@;
                out.append(&mut tail);
                assert(out@ =~= before + sv@.skip(pos as int));
                return string_of(&out);
            },
            Some(i) => {
                proof {
                    lemma_replace_step(sv@, pv@, rv@, pos as int, i as int);
                }
                let mut head = slice_chars(&sv, pos, i);
                head.append(&mut rv.clone());
                let ghost before = out@;
                out.append(&mut head);
                assert(out@ =~= before + (sv@.subrange(pos as int, i as int) + rv@));
                pos = i + pv.len();
            },
        }
    }
}

/// `s` with every run of `c` shortened to a single `c`.
pub open spec fn squeeze(s: Seq<char>, c: char) -> Seq<char>
    decreases s.len(),
{
    if s.len() == 0 {
        s
    } else {
        let r = squeeze(s.drop_last(), c);
        if s.last() == c && r.len() > 0 && r.last() == c {
            r
        } else {
            r.push(s.last())
        }
    }
}

pub fn squeeze_chars(v: &Vec<char>, c: char) -> (r: Vec<char>)
    ensures
        r@ == squeeze(v@, c),
{
    let mut r: Vec<char> = Vec::new();
    let mut i: usize = 0;
    assert(v@.take(0) =~= Seq::<char>::empty());
    while i < v.len()
        invariant
            i <= v.len(),
            r@ == squeeze(v@.take(i as int), c),
        decreases v.len() - i,
    {
        let ghost t = v@.take(i + 1);
        assert(t.drop_last() =~= v@.take(i as int));
        if !(v[i] == c && r.len() > 0 && r[r.len() - 1] == c) {
            r.push(v[i]);
        }
        i = i + 1;
    }
    assert(v@.take(v.len() as int) =~= v@);
    r
}

/// `s` without the `c` at its start and at its end.
pub open spec fn trim_char_start(s: Seq<char>, c: char) -> Seq<char>
    decreases s.len(),
{
    if s.len() > 0 && s[0] == c {
        trim_char_start(s.drop_first(), c)
    } else {
        s
    }
}

pub open spec fn trim_char_end(s: Seq<char>, c: char) -> Seq<char>
    decreases s.len(),
{
    if s.len() > 0 && s.last() == c {
        trim_char_end(s.drop_last(), c)
    } else {
        s
    }
}

/// `str::trim_matches` with one character.
pub open spec fn trim_char(s: Seq<char>, c: char) -> Seq<char> {
    trim_char_end(trim_char_start(s, c), c)
}

pub fn trim_char_chars(v: &Vec<char>, c: char) -> (r: Vec<char>)
    ensures
        r@ == trim_char(v@, c),
{
    let n = v.len();
    let mut a: usize = 0;
    assert(v@.skip(0) =~= v@);
    while a < n && v[a] == c
        invariant
            a <= n == v.len(),
            trim_char_start(v@, c) == trim_char_start(v@.skip(a as int), c),
        decreases n - a,
    {
        assert(v@.skip(a as int).drop_first() =~= v@.skip(a + 1));
        a = a + 1;
    }
    let ghost t = v@.skip(a as int);
    let mut b: usize = n;
    assert(v@.subrange(a as int, n as int) =~= t);
    while b > a && v[b - 1] == c
        invariant
            a <= b <= n == v.len(),
            trim_char_end(t, c) == trim_char_end(v@.subrange(a as int, b as int), c),
        decreases b,
    {
        assert(v@.subrange(a as int, b as int).drop_last() =~= v@.subrange(a as int, b - 1));
        b = b - 1;
    }
    slice_chars(v, a, b)
}

/// At most the first `n` characters.
pub fn take_chars(v: &Vec<char>, n: usize) -> (r: Vec<char>)
    ensures
        r@ == (if v@.len() > n {
            v@.take(n as int)
        } else {
            v@
        }),
{
    if v.len() > n {
        let r = slice_chars(v, 0, n);
        assert(r@ =~= v@.take(n as int));
        r
    } else {
        let r = slice_chars(v, 0, v.len());
        assert(r@ =~= v@);
        r
    }
}

/// The parts joined with `sep` between them (`join`).
pub open spec fn join(parts: Seq<Seq<char>>, sep: Seq<char>) -> Seq<char>
    decreases parts.len(),
{
    if parts.len() == 0 {
        Seq::empty()
    } else if parts.len() == 1 {
        parts[0]
    } else {
        join(parts.drop_last(), sep) + sep + parts.last()
    }
}

/// Joins texts with a separator.
pub fn join_texts(v: &Vec<String>, sep: &str) -> (r: String)
    ensures
        r@ == join(texts(v@), sep@),
{
    let mut out = String::new();
    let mut i: usize = 0;
    assert(texts(v@).take(0) =~= Seq::<Seq<char>>::empty());
    while i < v.len()
        invariant
            i <= v.len(),
            out@ == join(texts(v@).take(i as int), sep@),
        decreases v.len() - i,
    {
        let ghost t = texts(v@).take(i + 1);
        assert(t.drop_last() =~= texts(v@).take(i as int));
        assert(t.last() == v@[i as int]@);
        if i > 0 {
            out.append(sep);
        } else {
            assert(t =~= seq![v@[i as int]@]);
            assert(out@ =~= Seq::<char>::empty());
        }
        out.append(v[i].as_str());
        proof {
            if i == 0 {
                assert(out@ =~= t[0]);
            }
        }
        i = i + 1;
    }
    assert(texts(v@).take(v.len() as int) =~= texts(v@));
    out
}

} // verus!
