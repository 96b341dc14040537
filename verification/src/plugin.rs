//! Plugins: where a plugin comes from, what its manifest says, and how it
//! is listed. Cloning, linking and the lock file are the caller's business.
use vstd::prelude::*;

use crate::text::{
    chars_of, concat3, ends_with_exec, find_char, index_of_char, slice_chars, starts_with,
    str_starts_with, string_of, ends_with,
};

verus! {

/// What a plugin's `opencli-plugin.json` says.
#[derive(Debug)]
pub struct PluginManifest {
    pub name: String,
    pub version: Option<String>,
    pub description: Option<String>,
    /// Semver range of compatible versions (informational only).
    pub opencli: Option<String>,
}

/// One entry of the lock file.
#[derive(Debug)]
pub struct PluginLockEntry {
    pub source: String,
    pub installed_at: String,
}

/// What listing plugins shows of one.
#[derive(Debug)]
pub struct PluginInfo {
    pub name: String,
    pub version: Option<String>,
    pub description: Option<String>,
    pub source: String,
    pub installed_at: String,
    pub dir: String,
}

/// Where a plugin is installed from.
#[derive(Debug)]
pub enum SourceKind {
    /// A repository to clone, by its URL.
    Git(String),
    /// A local directory to link, by its path.
    Local(String),
}

/// The model of a source.
pub enum SourceView {
    Git(Seq<char>),
    Local(Seq<char>),
}

impl View for SourceKind {
    type V = SourceView;

    open spec fn view(&self) -> SourceView {
        match self {
            SourceKind::Git(u) => SourceView::Git(u@),
            SourceKind::Local(p) => SourceView::Local(p@),
        }
    }
}

/// The first two `/`-separated segments of a GitHub repository spec
/// (`str::splitn(3, '/')`), empty when missing.
pub open spec fn repo_segments(repo: Seq<char>) -> (Seq<char>, Seq<char>) {
    let i = index_of_char(repo, '/');
    if i >= repo.len() {
        (repo, Seq::empty())
    } else {
        let rest = repo.skip(i + 1);
        (repo.take(i), rest.take(index_of_char(rest, '/')))
    }
}

/// Where a source specifier points: `github:user/repo[/sub]` clones
/// `https://github.com/user/repo.git`; an `https://`, `git@` or `ssh://`
/// URL is cloned as it is; anything else is a local path, after an
/// optional `file://` or `local:`.
pub open spec fn source_of(source: Seq<char>) -> SourceView {
    if starts_with(source, "github:"@) {
        let (user, repo) = repo_segments(source.skip(7));
        SourceView::Git("https://github.com/"@ + user + "/"@ + repo + ".git"@)
    } else if starts_with(source, "https://"@) || starts_with(source, "git@"@) || starts_with(
        source,
        "ssh://"@,
    ) {
        SourceView::Git(source)
    } else if starts_with(source, "file://"@) {
        SourceView::Local(source.skip(7))
    } else if starts_with(source, "local:"@) {
        SourceView::Local(source.skip(6))
    } else {
        SourceView::Local(source)
    }
}

proof fn lemma_index_bounds(s: Seq<char>, c: char)
    ensures
        0 <= index_of_char(s, c) <= s.len(),
    decreases s.len(),
{
    if s.len() > 0 && s[0] != c {
        lemma_index_bounds(s.drop_first(), c);
    }
}

/// Reads a source specifier (see `source_of`).
pub fn parse_source(source: &str) -> (r: SourceKind)
    ensures
        r@ == source_of(source@),
{
    let v = chars_of(source);
    proof {
        reveal_strlit("github:");
        reveal_strlit("file://");
        reveal_strlit("local:");
    }
    if str_starts_with(source, "github:") {
        let n = v.len();
        let i = find_char(&v, '/', 7);
        let ghost repo = v@.skip(7);
        proof {
            lemma_index_bounds(repo, '/');
        }
        let user = slice_chars(&v, 7, i);
        assert(user@ =~= repo.take(i - 7));
        let second = if i < n {
            let j = find_char(&v, '/', i + 1);
            proof {
                let rest = repo.skip(i - 7 + 1);
                assert(rest =~= v@.skip(i + 1));
                lemma_index_bounds(rest, '/');
            }
            let s = slice_chars(&v, i + 1, j);
            assert(s@ =~= repo.skip(i - 7 + 1).take(j - (i + 1)));
            s
        } else {
            Vec::new()
        };
        let mut url = String::from_str("https://github.com/");
        url.append(string_of(&user).as_str());
        url.append("/");
        url.append(string_of(&second).as_str());
        url.append(".git");
        proof {
            if i >= n {
                assert(second@ =~= Seq::<char>::empty());
            }
        }
        return SourceKind::Git(url);
    }
    if str_starts_with(source, "https://") || str_starts_with(source, "git@") || str_starts_with(
        source,
        "ssh://",
    ) {
        return SourceKind::Git(source.to_owned());
    }
    if str_starts_with(source, "file://") {
        let p = slice_chars(&v, 7, v.len());
        assert(p@ =~= source@.skip(7));
        return SourceKind::Local(string_of(&p));
    }
    if str_starts_with(source, "local:") {
        let p = slice_chars(&v, 6, v.len());
        assert(p@ =~= source@.skip(6));
        return SourceKind::Local(string_of(&p));
    }
    SourceKind::Local(source.to_owned())
}

/// A manifest whose name is filled in from its directory when it has
/// none: the directory's name, or `unknown`.
pub fn with_dir_name(m: PluginManifest, dir_name: Option<&str>) -> (r: PluginManifest)
    ensures
        r.version == m.version,
        r.description == m.description,
        r.opencli == m.opencli,
        m.name@.len() > 0 ==> r.name == m.name,
        m.name@.len() == 0 ==> r.name@ == (match dir_name {
            Some(d) => d@,
            None => "unknown"@,
        }),
{
    if m.name.as_str().is_empty() {
        let name = match dir_name {
            Some(d) => d.to_owned(),
            None => String::from_str("unknown"),
        };
        PluginManifest { name, ..m }
    } else {
        m
    }
}

/// The manifest of a plugin that has none: only the directory's name.
pub fn default_manifest(dir_name: Option<&str>) -> (r: PluginManifest)
    ensures
        r.name@ == (match dir_name {
            Some(d) => d@,
            None => "unknown"@,
        }),
        r.version is None,
        r.description is None,
        r.opencli is None,
{
    let name = match dir_name {
        Some(d) => d.to_owned(),
        None => String::from_str("unknown"),
    };
    PluginManifest { name, version: None, description: None, opencli: None }
}

/// What listing shows of a plugin in `dir`.
pub fn plugin_info(manifest: PluginManifest, source: &str, installed_at: &str, dir: &str) -> (r: PluginInfo)
    ensures
        r.name == manifest.name,
        r.version == manifest.version,
        r.description == manifest.description,
        r.source@ == source@,
        r.installed_at@ == installed_at@,
        r.dir@ == dir@,
{
    PluginInfo {
        name: manifest.name,
        version: manifest.version,
        description: manifest.description,
        source: source.to_owned(),
        installed_at: installed_at.to_owned(),
        dir: dir.to_owned(),
    }
}

/// Whether a directory entry of the plugins folder is a plugin: a
/// directory whose name does not start with `.` (temporary installs do).
pub fn is_listed_plugin(name: &str, is_dir: bool) -> (b: bool)
    ensures
        b == (is_dir && !starts_with(name@, "."@)),
{
    is_dir && !str_starts_with(name, ".")
}

/// Where plugins and their lock file live, under the settings folder.
#[derive(Debug)]
pub struct PluginManager {
    pub plugins_dir: String,
    pub lock_path: String,
}

/// `base` joined with a relative name: a `/` between them unless `base`
/// is empty or already ends with one.
pub open spec fn joined(base: Seq<char>, name: Seq<char>) -> Seq<char> {
    if base.len() == 0 || ends_with(base, "/"@) {
        base + name
    } else {
        base + "/"@ + name
    }
}

fn join_path(base: &str, name: &str) -> (r: String)
    ensures
        r@ == joined(base@, name@),
{
    let b = chars_of(base);
    let slash = chars_of("/");
    if b.len() == 0 || ends_with_exec(&b, &slash) {
        let mut r = base.to_owned();
        r.append(name);
        r
    } else {
        concat3(base, "/", name)
    }
}

impl PluginManager {
    /// The plugin folder and lock file under the settings folder `base`.
    pub fn new(base: &str) -> (r: PluginManager)
        ensures
            r.plugins_dir@ == joined(base@, "plugins"@),
            r.lock_path@ == joined(base@, "plugins.lock.json"@),
    {
        PluginManager {
            plugins_dir: join_path(base, "plugins"),
            lock_path: join_path(base, "plugins.lock.json"),
        }
    }

    /// The folder of the plugin `name`.
    pub fn plugin_dir(&self, name: &str) -> (r: String)
        ensures
            r@ == joined(self.plugins_dir@, name@),
    {
        join_path(self.plugins_dir.as_str(), name)
    }
}

/// Why a local directory cannot be installed, if it cannot.
pub fn local_install_error(path: &str, exists: bool, is_dir: bool) -> (r: Option<String>)
    ensures
        !exists ==> (r matches Some(e) && e@ == "local plugin path does not exist: "@ + path@),
        exists && !is_dir ==> (r matches Some(e) && e@ == "local plugin path is not a directory: "@
            + path@),
        exists && is_dir ==> r is None,
{
    if !exists {
        let mut e = String::from_str("local plugin path does not exist: ");
        e.append(path);
        Some(e)
    } else if !is_dir {
        let mut e = String::from_str("local plugin path is not a directory: ");
        e.append(path);
        Some(e)
    } else {
        None
    }
}

/// The error for installing over a plugin that is already there.
pub fn already_installed_error(name: &str, dest: &str) -> (r: String)
    ensures
        r@ == "plugin '"@ + name@ + "' is already installed at "@ + dest@,
{
    let mut e = concat3("plugin '", name, "' is already installed at ");
    e.append(dest);
    e
}

/// A URL to clone is kept as it is: a source that starts with `https://`,
/// `git@` or `ssh://` is a git source whose clone URL is the source
/// unchanged; a `github:` shorthand clones from `https://github.com/`.
pub proof fn law_clone_urls_are_kept(source: Seq<char>)
    ensures
        starts_with(source, "https://"@) || starts_with(source, "git@"@) || starts_with(source, "ssh://"@)
            ==> source_of(source) == SourceView::Git(source),
        starts_with(source, "github:"@) ==> (source_of(source) matches SourceView::Git(u) && starts_with(
            u,
            "https://github.com/"@,
        )),
{
    reveal_strlit("https://");
    reveal_strlit("git@");
    reveal_strlit("ssh://");
    reveal_strlit("github:");
    reveal_strlit("https://github.com/");
    if starts_with(source, "github:"@) {
        assert(source.take(7)[0] == source[0] && source.take(7)[3] == source[3]);
        if starts_with(source, "https://"@) {
            assert(source.take(8)[0] == source[0]);
        }
        if starts_with(source, "ssh://"@) {
            assert(source.take(6)[0] == source[0]);
        }
        if starts_with(source, "git@"@) {
            assert(source.take(4)[3] == source[3]);
        }
    }
    if starts_with(source, "github:"@) {
        let (user, repo) = repo_segments(source.skip(7));
        let u = "https://github.com/"@ + user + "/"@ + repo + ".git"@;
        assert(u.take(19) =~= "https://github.com/"@);
    }
}

/// Anything that is not a URL to clone is a local path: `file://` and
/// `local:` are dropped from its front, any other text is the path as it
/// is.
pub proof fn law_local_paths(source: Seq<char>)
    ensures
        !starts_with(source, "github:"@) && !starts_with(source, "https://"@) && !starts_with(source, "git@"@)
            && !starts_with(source, "ssh://"@) ==> source_of(source) == if starts_with(source, "file://"@) {
            SourceView::Local(source.skip(7))
        } else if starts_with(source, "local:"@) {
            SourceView::Local(source.skip(6))
        } else {
            SourceView::Local(source)
        },
{
}

} // verus!
