//! The JavaScript helpers that adapters inject into pages: which built-in one
//! a name asks for, and where a plugin's own helpers are looked up.
use vstd::prelude::*;

use crate::text::{
    chars_of, ends_with, ends_with_exec, slice_chars, str_eq, string_of, trim, trim_chars,
};

verus! {

/// The helper scripts shipped with the pipeline.
#[derive(Debug, Clone, Copy, PartialEq, Eq, Structural)]
pub enum BuiltinHelper {
    /// Signing of Bilibili WBI requests.
    Wbi,
    /// Signed fetches against Zhihu.
    ZhihuFetch,
    /// Waiting for a Pinia store on Xiaohongshu.
    PiniaWait,
}

/// The name of the script file of a built-in helper.
pub open spec fn helper_file(h: BuiltinHelper) -> Seq<char> {
    match h {
        BuiltinHelper::Wbi => "wbi.js"@,
        BuiltinHelper::ZhihuFetch => "zhihu-fetch.js"@,
        BuiltinHelper::PiniaWait => "pinia-wait.js"@,
    }
}

impl BuiltinHelper {
    /// The name of the helper's script file.
    pub fn file_name(&self) -> (r: &'static str)
        ensures
            r@ == helper_file(*self),
    {
        match self {
            BuiltinHelper::Wbi => "wbi.js",
            BuiltinHelper::ZhihuFetch => "zhihu-fetch.js",
            BuiltinHelper::PiniaWait => "pinia-wait.js",
        }
    }
}

/// `s` with every trailing `t` removed (`str::trim_end_matches`).
pub open spec fn strip_suffixes(s: Seq<char>, t: Seq<char>) -> Seq<char>
    decreases s.len(),
{
    if t.len() > 0 && ends_with(s, t) {
        strip_suffixes(s.subrange(0, s.len() - t.len()), t)
    } else {
        s
    }
}

/// The built-in helper a bare name means.
pub open spec fn helper_named(n: Seq<char>) -> Option<BuiltinHelper> {
    if n == "wbi"@ || n == "bilibili-wbi"@ || n == "bilibili/wbi"@ {
        Some(BuiltinHelper::Wbi)
    } else if n == "zhihu-fetch"@ || n == "zhihu_fetch"@ || n == "zhihu/fetch"@ {
        Some(BuiltinHelper::ZhihuFetch)
    } else if n == "pinia-wait"@ || n == "pinia_wait"@ || n == "xiaohongshu/pinia-wait"@ {
        Some(BuiltinHelper::PiniaWait)
    } else {
        None
    }
}

/// The built-in helper a name asks for: the name trimmed of whitespace and
/// of any trailing `.js`.
pub open spec fn builtin_helper_of(name: Seq<char>) -> Option<BuiltinHelper> {
    helper_named(strip_suffixes(trim(name), ".js"@))
}

fn strip_js_suffixes(v: &Vec<char>) -> (r: Vec<char>)
    ensures
        r@ == strip_suffixes(v@, ".js"@),
{
    let suffix = chars_of(".js");
    proof {
        reveal_strlit(".js");
    }
    let mut cur = slice_chars(v, 0, v.len());
    assert(cur@ =~= v@);
    while ends_with_exec(&cur, &suffix)
        invariant
            suffix@ == ".js"@,
            suffix@.len() == 3,
            strip_suffixes(cur@, ".js"@) == strip_suffixes(v@, ".js"@),
        decreases cur@.len(),
    {
        cur = slice_chars(&cur, 0, cur.len() - 3);
    }
    cur
}

/// The built-in helper `name` asks for, if any: `wbi`, `bilibili-wbi` and
/// `bilibili/wbi`; `zhihu-fetch`, `zhihu_fetch` and `zhihu/fetch`;
/// `pinia-wait`, `pinia_wait` and `xiaohongshu/pinia-wait`; each with or
/// without `.js` and surrounding whitespace.
pub fn builtin_helper(name: &str) -> (r: Option<BuiltinHelper>)
    ensures
        r == builtin_helper_of(name@),
{
    let t = trim_chars(&chars_of(name));
    let n = string_of(&strip_js_suffixes(&t));
    let s = n.as_str();
    if str_eq(s, "wbi") || str_eq(s, "bilibili-wbi") || str_eq(s, "bilibili/wbi") {
        Some(BuiltinHelper::Wbi)
    } else if str_eq(s, "zhihu-fetch") || str_eq(s, "zhihu_fetch") || str_eq(s, "zhihu/fetch") {
        Some(BuiltinHelper::ZhihuFetch)
    } else if str_eq(s, "pinia-wait") || str_eq(s, "pinia_wait") || str_eq(
        s,
        "xiaohongshu/pinia-wait",
    ) {
        Some(BuiltinHelper::PiniaWait)
    } else {
        None
    }
}

/// The directory a running adapter's helper scripts are looked up in, if
/// one is set.
pub struct HelperRoot {
    root: Option<String>,
}

impl View for HelperRoot {
    type V = Option<Seq<char>>;

    closed spec fn view(&self) -> Option<Seq<char>> {
        match self.root {
            Some(r) => Some(r@),
            None => None,
        }
    }
}

impl HelperRoot {
    /// No directory set.
    pub fn new() -> (r: HelperRoot)
        ensures
            r@ is None,
    {
        HelperRoot { root: None }
    }
}

/// Sets (or clears) the helper directory.
pub fn set_helper_root(slot: &mut HelperRoot, root: Option<String>)
    ensures
        final(slot)@ == (match root {
            Some(r) => Some(r@),
            None => None::<Seq<char>>,
        }),
{
    slot.root = root;
}

/// The helper directory that is set, if any.
pub fn current_helper_root(slot: &HelperRoot) -> (r: Option<String>)
    ensures
        slot@ == (match r {
            Some(x) => Some(x@),
            None => None::<Seq<char>>,
        }),
{
    match &slot.root {
        Some(r) => Some(r.clone()),
        None => None,
    }
}

/// The directory helpers of an adapter loaded from `source_dir` are looked
/// up in: that directory itself.
pub fn helper_search_root(source_dir: Option<&String>) -> (r: Option<String>)
    ensures
        match source_dir {
            Some(d) => r is Some && r->0@ == d@,
            None => r is None,
        },
{
    match source_dir {
        Some(d) => Some(d.clone()),
        None => None,
    }
}

} // verus!
