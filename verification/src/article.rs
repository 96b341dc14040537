//! The decisions of an article download: where it is saved, which images
//! it fetches under which names, and how the saved text points at them.
use vstd::prelude::*;

use crate::download::pad3;
use crate::index::{is_alphanumeric, unicode_alphanumeric};
use crate::json::{
    get_field, json_get, lemma_view_items_index, lemma_view_items_len, view_fields, view_items, Json,
    JsonNumber, JsonValue, NumberView,
};
use crate::text::{
    chars_of, replace_all, replace_text, slice_chars, starts_with, str_eq, str_starts_with,
    string_of, texts, u128_text,
};
use crate::download::str_at;
use crate::kv_steps::opt_view;
use crate::ytdlp::{after_last, or_text, param_or_data};

verus! {

/// The name a download reports for an article: the file name it was given,
/// or the last segment of the article's URL when that is the default
/// `article.md`.
pub open spec fn article_path_of(filename: Seq<char>, url: Seq<char>) -> Seq<char> {
    if filename != "article.md"@ {
        filename
    } else {
        after_last(url, '/')
    }
}

fn after_last_char(s: &str, c: char) -> (r: String)
    ensures
        r@ == after_last(s@, c),
{
    let v = chars_of(s);
    let mut i: usize = v.len();
    assert(v@.skip(v.len() as int) =~= Seq::<char>::empty());
    assert(v@.take(v.len() as int) =~= v@);
    while i > 0 && v[i - 1] != c
        invariant
            i <= v.len(),
            after_last(v@, c) == after_last(v@.take(i as int), c) + v@.skip(i as int),
        decreases i,
    {
        let ghost t = v@.take(i as int);
        assert(t.drop_last() =~= v@.take(i - 1));
        assert(t.last() == v@[i - 1]);
        assert(after_last(v@.take(i - 1), c).push(v@[i - 1]) + v@.skip(i as int)
            =~= after_last(v@.take(i - 1), c) + v@.skip(i - 1));
        i = i - 1;
    }
    proof {
        let t = v@.take(i as int);
        if i > 0 {
            assert(t.last() == v@[i - 1]);
        }
        assert(after_last(t, c) =~= Seq::<char>::empty());
        assert(after_last(v@, c) =~= v@.subrange(i as int, v@.len() as int));
    }
    string_of(&slice_chars(&v, i, v.len()))
}

/// The name a download reports for an article.
pub fn article_download_path(filename: &str, url: &str) -> (r: String)
    ensures
        r@ == article_path_of(filename@, url@),
{
    if !str_eq(filename, "article.md") {
        filename.to_owned()
    } else {
        after_last_char(url, '/')
    }
}

/// The image URLs an article's data lists: the strings of `imageUrls`, in
/// order.
pub open spec fn image_urls_of(data: Json) -> Seq<Seq<char>> {
    match json_get(data, "imageUrls"@) {
        Some(Json::Array(items)) => strings_in(items),
        _ => Seq::empty(),
    }
}

/// The strings among some values, in order.
pub open spec fn strings_in(items: Seq<Json>) -> Seq<Seq<char>>
    decreases items.len(),
{
    if items.len() == 0 {
        Seq::empty()
    } else {
        match items.last() {
            Json::Str(s) => strings_in(items.drop_last()).push(s),
            _ => strings_in(items.drop_last()),
        }
    }
}

/// The image URLs an article's data lists.
pub fn article_image_urls(data: &JsonValue) -> (r: Vec<String>)
    ensures
        texts(r@) == image_urls_of(data@),
{
    let mut out: Vec<String> = Vec::new();
    match get_field(data, "imageUrls") {
        Some(JsonValue::Array(items)) => {
            let ghost all = view_items(items@);
            proof {
                lemma_view_items_len(items@);
            }
            let mut i: usize = 0;
            while i < items.len()
                invariant
                    i <= items.len(),
                    all == view_items(items@),
                    all.len() == items@.len(),
                    texts(out@) == strings_in(all.take(i as int)),
                decreases items.len() - i,
            {
                proof {
                    lemma_view_items_index(items@, i as int);
                    assert(all.take(i + 1).drop_last() =~= all.take(i as int));
                    assert(all.take(i + 1).last() == all[i as int]);
                }
                match &items[i] {
                    JsonValue::String(s) => {
                        let ghost before = out@;
                        out.push(s.clone());
                        assert(texts(out@) =~= texts(before).push(s@));
                    },
                    _ => {},
                }
                i = i + 1;
            }
            assert(all.take(all.len() as int) =~= all);
        },
        _ => {},
    }
    assert(texts(Seq::<String>::empty()) =~= Seq::<Seq<char>>::empty());
    out
}

/// The URLs without repeats, each where it first occurs.
pub open spec fn first_occurrences(s: Seq<Seq<char>>) -> Seq<Seq<char>>
    decreases s.len(),
{
    if s.len() == 0 {
        s
    } else if s.drop_last().contains(s.last()) {
        first_occurrences(s.drop_last())
    } else {
        first_occurrences(s.drop_last()).push(s.last())
    }
}

proof fn lemma_push_contains(q: Seq<Seq<char>>, y: Seq<char>, x: Seq<char>)
    ensures
        q.push(y).contains(x) == (q.contains(x) || x == y),
{
    let p = q.push(y);
    if q.contains(x) {
        let k = choose|k: int| 0 <= k < q.len() && q[k] == x;
        assert(p[k] == x);
    }
    if x == y {
        assert(p[q.len() as int] == x);
    }
    if p.contains(x) {
        let k = choose|k: int| 0 <= k < p.len() && p[k] == x;
        if k < q.len() {
            assert(q[k] == x);
        }
    }
}

proof fn lemma_first_occurrences_contains(s: Seq<Seq<char>>, x: Seq<char>)
    ensures
        first_occurrences(s).contains(x) == s.contains(x),
    decreases s.len(),
{
    if s.len() > 0 {
        let t = s.drop_last();
        let l = s.last();
        lemma_first_occurrences_contains(t, x);
        assert(s =~= t.push(l));
        lemma_push_contains(t, l, x);
        lemma_push_contains(first_occurrences(t), l, x);
        if t.contains(l) && x == l {
            lemma_first_occurrences_contains(t, l);
        }
    }
}

fn contains_text(v: &Vec<String>, x: &String) -> (r: bool)
    ensures
        r == texts(v@).contains(x@),
{
    let mut i: usize = 0;
    while i < v.len()
        invariant
            i <= v.len(),
            forall|j: int| 0 <= j < i ==> texts(v@)[j] != x@,
        decreases v.len() - i,
    {
        if str_eq(v[i].as_str(), x.as_str()) {
            assert(texts(v@)[i as int] == x@);
            return true;
        }
        i = i + 1;
    }
    false
}

/// The image URLs to fetch: each once, in the order they first appear.
pub fn unique_image_urls(urls: &Vec<String>) -> (r: Vec<String>)
    ensures
        texts(r@) == first_occurrences(texts(urls@)),
{
    let ghost all = texts(urls@);
    let mut out: Vec<String> = Vec::new();
    let mut i: usize = 0;
    assert(texts(out@) =~= first_occurrences(all.take(0)));
    while i < urls.len()
        invariant
            i <= urls.len(),
            all == texts(urls@),
            all.len() == urls@.len(),
            texts(out@) == first_occurrences(all.take(i as int)),
        decreases urls.len() - i,
    {
        let ghost t = all.take(i + 1);
        assert(t.drop_last() =~= all.take(i as int));
        assert(t.last() == urls@[i as int]@);
        proof {
            lemma_first_occurrences_contains(all.take(i as int), urls@[i as int]@);
        }
        if !contains_text(&out, &urls[i]) {
            let ghost before = out@;
            out.push(urls[i].clone());
            assert(texts(out@) =~= texts(before).push(urls@[i as int]@));
        }
        i = i + 1;
    }
    assert(all.take(all.len() as int) =~= all);
    out
}

/// The URL an image is fetched from: scheme-relative URLs get `https:`.
pub open spec fn fetch_url_of(u: Seq<char>) -> Seq<char> {
    if starts_with(u, "//"@) {
        "https:"@ + u
    } else {
        u
    }
}

/// The URL an image is fetched from.
pub fn image_fetch_url(u: &str) -> (r: String)
    ensures
        r@ == fetch_url_of(u@),
{
    if str_starts_with(u, "//") {
        let mut s = String::from_str("https:");
        s.append(u);
        s
    } else {
        u.to_owned()
    }
}

/// The bytes a character takes in UTF-8.
pub open spec fn utf8_width(c: char) -> nat {
    if (c as u32) < 0x80 {
        1
    } else if (c as u32) < 0x800 {
        2
    } else if (c as u32) < 0x10000 {
        3
    } else {
        4
    }
}

/// The bytes a text takes in UTF-8.
pub open spec fn utf8_len(s: Seq<char>) -> nat
    decreases s.len(),
{
    if s.len() == 0 {
        0
    } else {
        utf8_len(s.drop_last()) + utf8_width(s.last())
    }
}

/// The first index of any of the characters `a`, `b`, `c` (the length
/// when there is none).
pub open spec fn index_of_any(s: Seq<char>, a: char, b: char, c: char) -> int
    decreases s.len(),
{
    if s.len() == 0 {
        0
    } else if s[0] == a || s[0] == b || s[0] == c {
        0
    } else {
        1 + index_of_any(s.drop_first(), a, b, c)
    }
}

/// Whether every character is a letter or digit.
pub open spec fn all_alphanumeric(s: Seq<char>) -> bool {
    forall|i: int| 0 <= i < s.len() ==> unicode_alphanumeric(#[trigger] s[i])
}

/// The extension an article image is saved with: the `wx_fmt` query value
/// when the URL has one; else what follows its last `.` up to `?`, `#` or
/// `&`, when that is at most five bytes of letters and digits; else `jpg`.
pub open spec fn image_extension_of(u: Seq<char>) -> Seq<char> {
    if crate::text::contains(u, "wx_fmt="@) {
        let rest = u.skip(crate::text::first_match(u, "wx_fmt="@) + 7);
        rest.take(index_of_any(rest, '&', '?', ' '))
    } else {
        let tail = after_last(u, '.');
        let e = tail.take(index_of_any(tail, '?', '#', '&'));
        if utf8_len(e) <= 5 && all_alphanumeric(e) {
            e
        } else {
            "jpg"@
        }
    }
}

proof fn lemma_index_of_any(s: Seq<char>, a: char, b: char, c: char, i: int)
    requires
        0 <= i <= s.len(),
        forall|j: int| 0 <= j < i ==> s[j] != a && s[j] != b && s[j] != c,
        i == s.len() || s[i] == a || s[i] == b || s[i] == c,
    ensures
        index_of_any(s, a, b, c) == i,
    decreases i,
{
    if i > 0 {
        let t = s.drop_first();
        assert forall|j: int| 0 <= j < i - 1 implies t[j] != a && t[j] != b && t[j] != c by {
            assert(t[j] == s[j + 1]);
        }
        if i < s.len() {
            assert(t[i - 1] == s[i]);
        }
        lemma_index_of_any(t, a, b, c, i - 1);
    }
}

fn prefix_before_any(v: &Vec<char>, a: char, b: char, c: char) -> (r: Vec<char>)
    ensures
        r@ == v@.take(index_of_any(v@, a, b, c)),
{
    let mut i: usize = 0;
    while i < v.len() && v[i] != a && v[i] != b && v[i] != c
        invariant
            i <= v.len(),
            forall|j: int| 0 <= j < i ==> v@[j] != a && v@[j] != b && v@[j] != c,
        decreases v.len() - i,
    {
        i = i + 1;
    }
    proof {
        lemma_index_of_any(v@, a, b, c, i as int);
    }
    slice_chars(v, 0, i)
}

fn utf8_width_of(c: char) -> (r: usize)
    ensures
        r == utf8_width(c),
{
    let n = c as u32;
    if n < 0x80 {
        1
    } else if n < 0x800 {
        2
    } else if n < 0x10000 {
        3
    } else {
        4
    }
}

fn short_alphanumeric(e: &Vec<char>) -> (r: bool)
    ensures
        r == (utf8_len(e@) <= 5 && all_alphanumeric(e@)),
{
    let mut bytes: usize = 0;
    let mut i: usize = 0;
    while i < e.len()
        invariant
            i <= e.len(),
            bytes == utf8_len(e@.take(i as int)),
            bytes <= 5,
            all_alphanumeric(e@.take(i as int)),
        decreases e.len() - i,
    {
        let ghost t = e@.take(i + 1);
        assert(t.drop_last() =~= e@.take(i as int));
        let w = utf8_width_of(e[i]);
        if bytes + w > 5 {
            proof {
                lemma_utf8_len_prefix(e@, i + 1);
            }
            return false;
        }
        if !is_alphanumeric(e[i]) {
            assert(!unicode_alphanumeric(e@[i as int]));
            return false;
        }
        bytes = bytes + w;
        i = i + 1;
    }
    assert(e@.take(e.len() as int) =~= e@);
    true
}

proof fn lemma_utf8_len_prefix(s: Seq<char>, k: int)
    requires
        0 <= k <= s.len(),
    ensures
        utf8_len(s.take(k)) <= utf8_len(s),
    decreases s.len(),
{
    if k < s.len() {
        assert(s.drop_last().take(k) =~= s.take(k));
        lemma_utf8_len_prefix(s.drop_last(), k);
    } else {
        assert(s.take(k) =~= s);
    }
}

/// The extension an article image is saved with.
pub fn image_extension(u: &str) -> (r: String)
    ensures
        r@ == image_extension_of(u@),
{
    let v = chars_of(u);
    let marker = chars_of("wx_fmt=");
    proof {
        reveal_strlit("wx_fmt=");
    }
    match crate::text::find_from(&v, &marker, 0) {
        Some(m) => {
            proof {
                crate::text::lemma_first_match(v@, marker@, m as int);
                assert(marker@.len() == 7);
            }
            let n = v.len();
            let rest = slice_chars(&v, m + 7, n);
            assert(rest@ =~= v@.skip(m + 7));
            string_of(&prefix_before_any(&rest, '&', '?', ' '))
        },
        None => {
            let tail = chars_of(after_last_char(u, '.').as_str());
            let e = prefix_before_any(&tail, '?', '#', '&');
            if short_alphanumeric(&e) {
                string_of(&e)
            } else {
                String::from_str("jpg")
            }
        },
    }
}

/// The name an article image is saved under: `img_{index:03}.{ext}`.
pub open spec fn image_file_name_of(index: nat, ext: Seq<char>) -> Seq<char> {
    "img_"@ + pad3(index) + "."@ + ext
}

/// The name the `index`-th article image is saved under.
pub fn image_file_name(index: usize, ext: &str) -> (r: String)
    ensures
        r@ == image_file_name_of(index as nat, ext@),
{
    let mut s = String::from_str("img_");
    if index < 10 {
        s.append("00");
    } else if index < 100 {
        s.append("0");
    }
    let digits = u128_text(index as u128);
    s.append(digits.as_str());
    s.append(".");
    s.append(ext);
    proof {
        reveal_strlit("img_");
        reveal_strlit("00");
        reveal_strlit("0");
        reveal_strlit(".");
    }
    assert(s@ =~= image_file_name_of(index as nat, ext@));
    s
}

/// The article text pointing at a fetched image's local copy
/// `images/{name}` in place of its URL.
pub fn localize_image(content: &str, raw_url: &str, file_name: &str) -> (r: String)
    ensures
        r@ == replace_all(content@, raw_url@, "images/"@ + file_name@),
{
    let mut local = String::from_str("images/");
    local.append(file_name);
    replace_text(content, raw_url, local.as_str())
}


/// The images an article fetches are each of its URLs exactly once: no
/// URL twice, and none left out.
pub proof fn law_images_fetched_once(s: Seq<Seq<char>>)
    ensures
        forall|i: int, j: int| 0 <= i < j < first_occurrences(s).len() ==> first_occurrences(s)[i] != first_occurrences(s)[j],
        forall|x: Seq<char>| first_occurrences(s).contains(x) == s.contains(x),
    decreases s.len(),
{
    assert forall|x: Seq<char>| first_occurrences(s).contains(x) == s.contains(x) by {
        lemma_first_occurrences_contains(s, x);
    }
    if s.len() > 0 {
        let t = s.drop_last();
        let l = s.last();
        law_images_fetched_once(t);
        let f = first_occurrences(t);
        if !t.contains(l) {
            lemma_first_occurrences_contains(t, l);
            assert(first_occurrences(s) == f.push(l));
            assert forall|i: int, j: int| 0 <= i < j < f.len() + 1 implies f.push(l)[i] != f.push(l)[j] by {
                if j == f.len() {
                    assert(f.push(l)[i] == f[i]);
                    if f[i] == l {
                        assert(f.contains(l));
                    }
                } else {
                    assert(f.push(l)[i] == f[i]);
                    assert(f.push(l)[j] == f[j]);
                }
            }
        }
    }
}

/// The record of an article that was not saved: its title and author,
/// `failed`, the reason in `size`, and where it came from and would go.
pub open spec fn article_failure_of(
    title: Seq<char>,
    author: Seq<char>,
    reason: Seq<char>,
    url: Seq<char>,
    path: Seq<char>,
) -> Json {
    Json::Object(
        seq![
            ("title"@, Json::Str(title)),
            ("author"@, Json::Str(author)),
            ("status"@, Json::Str("failed"@)),
            ("size"@, Json::Str(reason)),
            ("download_type"@, Json::Str("article"@)),
            ("download_url"@, Json::Str(url)),
            ("download_path"@, Json::Str(path)),
        ],
    )
}

fn text_pair(k: &str, v: &str) -> (r: (String, JsonValue))
    ensures
        r.0@ == k@,
        r.1@ == Json::Str(v@),
{
    (k.to_owned(), JsonValue::String(v.to_owned()))
}

/// The record of an article that was not saved, for the given reason.
pub fn article_failure(title: &str, author: &str, reason: &str, url: &str, path: &str) -> (r: JsonValue)
    ensures
        r@ == article_failure_of(title@, author@, reason@, url@, path@),
{
    let mut f: Vec<(String, JsonValue)> = Vec::new();
    f.push(text_pair("title", title));
    f.push(text_pair("author", author));
    f.push(text_pair("status", "failed"));
    f.push(text_pair("size", reason));
    f.push(text_pair("download_type", "article"));
    f.push(text_pair("download_url", url));
    f.push(text_pair("download_path", path));
    proof {
        reveal_with_fuel(view_fields, 8);
        assert(view_fields(f@) =~= article_failure_of(title@, author@, reason@, url@, path@)->Object_0);
    }
    JsonValue::Object(f)
}

/// The record of an article with no text to save.
pub fn article_empty(title: &str, author: &str, url: &str, path: &str) -> (r: JsonValue)
    ensures
        r@ == article_failure_of(title@, author@, "No content to save"@, url@, path@),
{
    article_failure(title, author, "No content to save", url, path)
}

/// The record of an article whose file could not be written.
pub fn article_write_failed(title: &str, author: &str, error: &str, url: &str, path: &str) -> (r: JsonValue)
    ensures
        r@ == article_failure_of(title@, author@, "Write error: "@ + error@, url@, path@),
{
    let mut reason = String::from_str("Write error: ");
    reason.append(error);
    article_failure(title, author, reason.as_str(), url, path)
}

/// The record of a saved article: `ok`, its size and file, how many
/// images it refers to, and where it came from and goes.
pub open spec fn article_saved_of(
    title: Seq<char>,
    author: Seq<char>,
    size: Seq<char>,
    file: Seq<char>,
    images: u64,
    url: Seq<char>,
    path: Seq<char>,
) -> Json {
    Json::Object(
        seq![
            ("title"@, Json::Str(title)),
            ("author"@, Json::Str(author)),
            ("status"@, Json::Str("ok"@)),
            ("size"@, Json::Str(size)),
            ("path"@, Json::Str(file)),
            ("images"@, Json::Number(NumberView::PosInt(images))),
            ("download_url"@, Json::Str(url)),
            ("download_path"@, Json::Str(path)),
            ("download_type"@, Json::Str("article"@)),
        ],
    )
}

/// The record of a saved article.
pub fn article_saved(
    title: &str,
    author: &str,
    size: &str,
    file: &str,
    images: u64,
    url: &str,
    path: &str,
) -> (r: JsonValue)
    ensures
        r@ == article_saved_of(title@, author@, size@, file@, images, url@, path@),
{
    let mut f: Vec<(String, JsonValue)> = Vec::new();
    f.push(text_pair("title", title));
    f.push(text_pair("author", author));
    f.push(text_pair("status", "ok"));
    f.push(text_pair("size", size));
    f.push(text_pair("path", file));
    f.push((String::from_str("images"), JsonValue::Number(JsonNumber::PosInt(images))));
    f.push(text_pair("download_url", url));
    f.push(text_pair("download_path", path));
    f.push(text_pair("download_type", "article"));
    proof {
        reveal_with_fuel(view_fields, 10);
        assert(view_fields(f@) =~= article_saved_of(title@, author@, size@, file@, images, url@, path@)->Object_0);
    }
    JsonValue::Object(f)
}

/// Where an article comes from and who wrote it, as its data says: the
/// `url` (empty when not given) and the `author` (`-` when not given).
pub open spec fn article_origin_of(data: Json) -> (Seq<char>, Seq<char>) {
    (
        match json_get(data, "url"@) {
            Some(Json::Str(u)) => u,
            _ => Seq::empty(),
        },
        match json_get(data, "author"@) {
            Some(Json::Str(a)) => a,
            _ => "-"@,
        },
    )
}

/// Reads an article's URL and author from its data.
pub fn article_origin(data: &JsonValue) -> (r: (String, String))
    ensures
        (r.0@, r.1@) == article_origin_of(data@),
{
    proof {
        reveal_strlit("");
    }
    let url = match get_field(data, "url") {
        Some(JsonValue::String(u)) => u.clone(),
        _ => String::from_str(""),
    };
    let author = match get_field(data, "author") {
        Some(JsonValue::String(a)) => a.clone(),
        _ => String::from_str("-"),
    };
    (url, author)
}

/// The article step's text parameters after their templates were
/// rendered, each given when the parameter is a string.
#[derive(Debug)]
pub struct ArticleRendered {
    pub title: Option<String>,
    pub output: Option<String>,
    pub filename: Option<String>,
    pub content: Option<String>,
}

/// What an article download saves.
#[derive(Debug)]
pub struct ArticleRequest {
    pub title: String,
    pub author: String,
    /// The directory the article goes under.
    pub output: String,
    pub filename: String,
    /// The Markdown text, never empty.
    pub content: String,
    pub url: String,
    /// The name the download reports (see `article_path_of`).
    pub download_path: String,
}

/// What an article download does: answer that there is nothing to save,
/// or save a request.
#[derive(Debug)]
pub enum ArticlePlan {
    Empty(JsonValue),
    Save(ArticleRequest),
}

/// Whether rendered parameters belong to the step's parameters: each is
/// given exactly when the parameter is a string.
pub open spec fn article_rendered_fits(params: Json, r: ArticleRendered) -> bool {
    &&& (r.title is Some) == (str_at(params, "title"@) is Some)
    &&& (r.output is Some) == (str_at(params, "output"@) is Some)
    &&& (r.filename is Some) == (str_at(params, "filename"@) is Some)
    &&& (r.content is Some) == (str_at(params, "content"@) is Some)
}

/// The article's title (the parameter, else the data's, else `article`).
pub open spec fn article_title_of(r: ArticleRendered, data: Json) -> Seq<char> {
    or_text(param_or_data(opt_view(r.title), data, "title"@), "article"@)
}

/// The article's file name (the parameter, else the data's, else
/// `article.md`).
pub open spec fn article_filename_of(r: ArticleRendered, data: Json) -> Seq<char> {
    or_text(param_or_data(opt_view(r.filename), data, "filename"@), "article.md"@)
}

/// The article's text (the parameter, else the data's, else empty).
pub open spec fn article_content_of(r: ArticleRendered, data: Json) -> Seq<char> {
    or_text(param_or_data(opt_view(r.content), data, "content"@), Seq::empty())
}

fn text_or(rendered: Option<String>, data: &JsonValue, k: &str, fallback: &str) -> (r: String)
    ensures
        r@ == or_text(param_or_data(opt_view(rendered), data@, k@), fallback@),
{
    match rendered {
        Some(v) => v,
        None => match get_field(data, k) {
            Some(JsonValue::String(s)) => s.clone(),
            _ => fallback.to_owned(),
        },
    }
}

/// Decides an article download from its parameters and data: with no
/// text, the answer is the `No content to save` record; otherwise the
/// article is saved under the output directory (`./articles` unless
/// given) with its title, author, file name and source.
pub fn article_plan(params: &JsonValue, data: &JsonValue, rendered: ArticleRendered) -> (r: ArticlePlan)
    requires
        article_rendered_fits(params@, rendered),
    ensures
        ({
            let title = article_title_of(rendered, data@);
            let filename = article_filename_of(rendered, data@);
            let content = article_content_of(rendered, data@);
            let (url, author) = article_origin_of(data@);
            let path = article_path_of(filename, url);
            match r {
                ArticlePlan::Empty(rec) => content.len() == 0 && rec@ == article_failure_of(
                    title,
                    author,
                    "No content to save"@,
                    url,
                    path,
                ),
                ArticlePlan::Save(q) => {
                    &&& content.len() > 0
                    &&& q.title@ == title && q.author@ == author && q.filename@ == filename
                    &&& q.content@ == content && q.url@ == url && q.download_path@ == path
                    &&& q.output@ == or_text(opt_view(rendered.output), "./articles"@)
                },
            }
        }),
{
    proof {
        reveal_strlit("");
    }
    let title = text_or(rendered.title, data, "title", "article");
    let filename = text_or(rendered.filename, data, "filename", "article.md");
    let content = text_or(rendered.content, data, "content", "");
    let output = match rendered.output {
        Some(o) => o,
        None => String::from_str("./articles"),
    };
    let (url, author) = article_origin(data);
    let download_path = article_download_path(filename.as_str(), url.as_str());
    if content.as_str().unicode_len() == 0 {
        return ArticlePlan::Empty(article_empty(title.as_str(), author.as_str(), url.as_str(), download_path.as_str()));
    }
    ArticlePlan::Save(ArticleRequest { title, author, output, filename, content, url, download_path })
}

} // verus!
