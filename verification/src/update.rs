//! The decisions of self-update: whether a release is newer than the
//! running version, and which release asset fits the platform.
use vstd::prelude::*;

use crate::text::{chars_of, slice_chars, str_eq, string_of};

verus! {

/// Whether `semver::Version::parse` accepts a text. It depends on the text
/// alone.
pub uninterp spec fn semver_parses(text: Seq<char>) -> bool;

/// Whether the version `a` parses to orders at or before the one `b`
/// parses to, by `semver::Version`'s ordering. It depends on the texts
/// alone.
pub uninterp spec fn semver_le(a: Seq<char>, b: Seq<char>) -> bool;

/// Calls `semver::Version::parse`; whether it succeeds is named
/// `semver_parses`.
#[verifier::external_body]
fn version_parses(text: &str) -> (r: bool)
    ensures
        r == semver_parses(text@),
{
    semver::Version::parse(text).is_ok()
}

/// Parses two versions with `semver::Version::parse` and compares them
/// with `<=`; the answer is named `semver_le`.
#[verifier::external_body]
fn version_le(a: &str, b: &str) -> (r: bool)
    requires
        semver_parses(a@),
        semver_parses(b@),
    ensures
        r == semver_le(a@, b@),
{
    match (semver::Version::parse(a), semver::Version::parse(b)) {
        (Ok(x), Ok(y)) => x <= y,
        _ => false,
    }
}

/// `s` without its leading `v`s (`trim_start_matches('v')`).
pub open spec fn without_v(s: Seq<char>) -> Seq<char>
    decreases s.len(),
{
    if s.len() > 0 && s[0] == 'v' {
        without_v(s.drop_first())
    } else {
        s
    }
}

fn strip_v(s: &str) -> (r: String)
    ensures
        r@ == without_v(s@),
{
    let v = chars_of(s);
    let mut i: usize = 0;
    assert(v@.skip(0) =~= v@);
    while i < v.len() && v[i] == 'v'
        invariant
            i <= v.len(),
            without_v(v@) == without_v(v@.skip(i as int)),
        decreases v.len() - i,
    {
        assert(v@.skip(i as int).drop_first() =~= v@.skip(i + 1));
        i = i + 1;
    }
    let n = v.len();
    let rest = slice_chars(&v, i, n);
    assert(rest@ =~= v@.skip(i as int));
    string_of(&rest)
}

/// What checking for an update answers: whether the latest release is
/// newer than the running version, or the error for the first version
/// text (the running one, then the release tag) that does not parse.
pub open spec fn update_check_of(current: Seq<char>, latest_tag: Seq<char>) -> Result<bool, Seq<char>> {
    if !semver_parses(without_v(current)) {
        Err("invalid version string: "@ + current)
    } else if !semver_parses(without_v(latest_tag)) {
        Err("invalid version string: "@ + latest_tag)
    } else {
        Ok(!semver_le(without_v(latest_tag), without_v(current)))
    }
}

/// Whether the release tagged `latest_tag` is newer than the running
/// version `current`; a leading `v` is allowed on either.
pub fn update_available(current: &str, latest_tag: &str) -> (r: Result<bool, String>)
    ensures
        match r {
            Ok(b) => update_check_of(current@, latest_tag@) == Ok::<bool, Seq<char>>(b),
            Err(e) => update_check_of(current@, latest_tag@) == Err::<bool, Seq<char>>(e@),
        },
{
    let c = strip_v(current);
    if !version_parses(c.as_str()) {
        let mut e = String::from_str("invalid version string: ");
        e.append(current);
        return Err(e);
    }
    let l = strip_v(latest_tag);
    if !version_parses(l.as_str()) {
        let mut e = String::from_str("invalid version string: ");
        e.append(latest_tag);
        return Err(e);
    }
    Ok(!version_le(l.as_str(), c.as_str()))
}

/// The release asset for a platform (`std::env::consts::OS`, `ARCH`).
pub open spec fn asset_of(os: Seq<char>, arch: Seq<char>) -> Result<Seq<char>, Seq<char>> {
    if os == "macos"@ && arch == "aarch64"@ {
        Ok("opencli-macos-arm64"@)
    } else if os == "linux"@ && arch == "x86_64"@ {
        Ok("opencli-linux-x86_64"@)
    } else if os == "windows"@ && arch == "x86_64"@ {
        Ok("opencli-windows-x86_64.exe"@)
    } else {
        Err("automatic update is not supported on "@ + os + "/"@ + arch)
    }
}

/// The release asset that updates the running program on a platform.
pub fn asset_name(os: &str, arch: &str) -> (r: Result<&'static str, String>)
    ensures
        match r {
            Ok(a) => asset_of(os@, arch@) == Ok::<Seq<char>, Seq<char>>(a@),
            Err(e) => asset_of(os@, arch@) == Err::<Seq<char>, Seq<char>>(e@),
        },
{
    if str_eq(os, "macos") && str_eq(arch, "aarch64") {
        Ok("opencli-macos-arm64")
    } else if str_eq(os, "linux") && str_eq(arch, "x86_64") {
        Ok("opencli-linux-x86_64")
    } else if str_eq(os, "windows") && str_eq(arch, "x86_64") {
        Ok("opencli-windows-x86_64.exe")
    } else {
        let mut e = String::from_str("automatic update is not supported on ");
        e.append(os);
        e.append("/");
        e.append(arch);
        Err(e)
    }
}

} // verus!
