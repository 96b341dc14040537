//! Names and paths for dumping pipeline data to files.
use vstd::prelude::*;

use crate::text::{
    chars_of, decimal, replace_all, replace_text, squeeze, squeeze_chars, string_of, take_chars,
    trim_char, trim_char_chars, u128_text,
};

verus! {

pub open spec fn is_ascii_alnum(c: char) -> bool {
    ('a' <= c && c <= 'z') || ('A' <= c && c <= 'Z') || ('0' <= c && c <= '9')
}

pub open spec fn dump_char(c: char) -> char {
    if is_ascii_alnum(c) {
        c
    } else {
        '_'
    }
}

/// A text made safe as part of a file name: every character that is not
/// an ASCII letter or digit becomes `_`, runs of `_` become one, `_` at
/// either end is dropped, and at most 80 characters are kept.
pub open spec fn sanitized_part(s: Seq<char>) -> Seq<char> {
    let t = trim_char(squeeze(s.map_values(|c: char| dump_char(c)), '_'), '_');
    if t.len() > 80 {
        t.take(80)
    } else {
        t
    }
}

/// Makes a text safe to use as part of a file name.
pub fn sanitize_dump_part(input: &str) -> (r: String)
    ensures
        r@ == sanitized_part(input@),
{
    let v = chars_of(input);
    let mut m: Vec<char> = Vec::new();
    let mut i: usize = 0;
    while i < v.len()
        invariant
            i <= v.len(),
            m@ == v@.take(i as int).map_values(|c: char| dump_char(c)),
        decreases v.len() - i,
    {
        let c = v[i];
        let d = if ('a' <= c && c <= 'z') || ('A' <= c && c <= 'Z') || ('0' <= c && c <= '9') {
            c
        } else {
            '_'
        };
        m.push(d);
        assert(v@.take(i + 1).map_values(|c: char| dump_char(c)) =~= v@.take(i as int).map_values(
            |c: char| dump_char(c),
        ).push(dump_char(c)));
        i = i + 1;
    }
    assert(v@.take(v.len() as int) =~= v@);
    let sq = squeeze_chars(&m, '_');
    let t = trim_char_chars(&sq, '_');
    string_of(&take_chars(&t, 80))
}

/// A dump path with its template variables filled in: `{ts}` by the Unix
/// seconds, `{ts_ms}` by the Unix milliseconds and `{step}` by the step
/// index, in that order.
pub open spec fn resolved_path(tpl: Seq<char>, step_index: nat, now_ms: nat) -> Seq<char> {
    replace_all(
        replace_all(replace_all(tpl, "{ts}"@, decimal(now_ms / 1000)), "{ts_ms}"@, decimal(now_ms)),
        "{step}"@,
        decimal(step_index),
    )
}

/// Fills in the template variables of a dump path at time `now_ms` (Unix
/// milliseconds). Callers without a step index pass `0`.
pub fn resolve_dump_path(path_tpl: &str, step_index: usize, now_ms: u128) -> (r: String)
    ensures
        r@ == resolved_path(path_tpl@, step_index as nat, now_ms as nat),
{
    proof {
        reveal_strlit("{ts}");
        reveal_strlit("{ts_ms}");
        reveal_strlit("{step}");
    }
    let secs = u128_text(now_ms / 1000);
    let ms = u128_text(now_ms);
    let step = u128_text(step_index as u128);
    let a = replace_text(path_tpl, "{ts}", secs.as_str());
    let b = replace_text(a.as_str(), "{ts_ms}", ms.as_str());
    replace_text(b.as_str(), "{step}", step.as_str())
}

} // verus!
