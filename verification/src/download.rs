//! The decisions of the download step: which kind of download a step asks
//! for, what a metadata-only download reports, which media items can be
//! fetched directly and under which file names, and the Markdown note that
//! goes beside saved media.
use vstd::prelude::*;

use crate::error::{message_of, CliError};
use crate::extension::{parse_url, parsed_url};
use crate::json::{
    insert_field, json_get, json_view, lemma_view_items_index, lemma_view_items_len, view_fields,
    view_items, get_field, set_field, Json, JsonNumber, JsonValue,
};
use crate::text::{
    chars_of, contains, contains_exec, decimal, find_char, index_of_char, lower_seq, slice_chars,
    starts_with, str_contains, str_eq, str_starts_with, string_of, to_ascii_lower, trim, trim_chars,
    u128_text,
};

verus! {

/// The text a JSON value holds, when it is a string.
pub open spec fn str_of(v: Option<Json>) -> Option<Seq<char>> {
    match v {
        Some(Json::Str(s)) => Some(s),
        _ => None,
    }
}

/// The string field `k` of a value, if it is one.
pub open spec fn str_at(v: Json, k: Seq<char>) -> Option<Seq<char>> {
    str_of(json_get(v, k))
}

fn text_at(v: &JsonValue, k: &str) -> (r: Option<String>)
    ensures
        match r {
            Some(s) => str_at(v@, k@) == Some(s@),
            None => str_at(v@, k@) is None,
        },
{
    match get_field(v, k) {
        Some(JsonValue::String(s)) => Some(s.clone()),
        _ => None,
    }
}

// ---------------------------------------------------------------------------
// Which download
// ---------------------------------------------------------------------------

/// The kinds of download the step performs.
#[derive(Debug, Clone, Copy, PartialEq, Eq, Structural)]
pub enum DownloadMode {
    /// `tool: yt-dlp`: hand the URL to yt-dlp.
    YtDlp,
    /// `type: article`: save an article as Markdown.
    Article,
    /// `type: base64`: save one base64 payload.
    Base64,
    /// `type: base64-batch`: save many base64 payloads.
    Base64Batch,
    /// `type: media-batch` or `twitter-media`: fetch a list of media items.
    MediaBatch,
    /// Any other type: only note the URL and file name on the data.
    Annotate,
}

/// The download type a step names; `media` when it names none.
pub open spec fn download_type_of(params: Json) -> Seq<char> {
    match str_at(params, "type"@) {
        Some(t) => t,
        None => "media"@,
    }
}

/// The download a step's parameters ask for.
pub open spec fn download_mode_of(params: Json) -> DownloadMode {
    let t = download_type_of(params);
    if str_at(params, "tool"@) == Some("yt-dlp"@) {
        DownloadMode::YtDlp
    } else if t == "article"@ {
        DownloadMode::Article
    } else if t == "base64"@ {
        DownloadMode::Base64
    } else if t == "base64-batch"@ {
        DownloadMode::Base64Batch
    } else if t == "twitter-media"@ || t == "media-batch"@ {
        DownloadMode::MediaBatch
    } else {
        DownloadMode::Annotate
    }
}

/// The download type a step names (`media` when none).
pub fn download_type(params: &JsonValue) -> (r: String)
    ensures
        r@ == download_type_of(params@),
{
    match text_at(params, "type") {
        Some(t) => t,
        None => String::from_str("media"),
    }
}

/// Which download a step's parameters ask for: `tool: yt-dlp` first, then
/// the `type`.
pub fn download_mode(params: &JsonValue) -> (r: DownloadMode)
    ensures
        r == download_mode_of(params@),
{
    let tool = text_at(params, "tool");
    let is_ytdlp = match &tool {
        Some(t) => str_eq(t.as_str(), "yt-dlp"),
        None => false,
    };
    if is_ytdlp {
        return DownloadMode::YtDlp;
    }
    let t = download_type(params);
    let s = t.as_str();
    if str_eq(s, "article") {
        DownloadMode::Article
    } else if str_eq(s, "base64") {
        DownloadMode::Base64
    } else if str_eq(s, "base64-batch") {
        DownloadMode::Base64Batch
    } else if str_eq(s, "twitter-media") || str_eq(s, "media-batch") {
        DownloadMode::MediaBatch
    } else {
        DownloadMode::Annotate
    }
}

// ---------------------------------------------------------------------------
// Metadata-only download
// ---------------------------------------------------------------------------

/// What follows the last `/` of `s` (all of it when there is none).
pub open spec fn after_last_slash(s: Seq<char>) -> Seq<char>
    decreases s.len(),
{
    if s.len() == 0 {
        s
    } else if s.last() == '/' {
        Seq::empty()
    } else {
        after_last_slash(s.drop_last()).push(s.last())
    }
}

/// The file name a URL downloads to: its last path segment, without the
/// query.
pub open spec fn url_file_name(u: Seq<char>) -> Seq<char> {
    let seg = after_last_slash(u);
    seg.take(index_of_char(seg, '?'))
}

/// The URL a download step works on: the `url` parameter, else the data's
/// `url`.
pub open spec fn download_url_of(params: Json, data: Json) -> Option<Seq<char>> {
    match str_at(params, "url"@) {
        Some(u) => Some(u),
        None => str_at(data, "url"@),
    }
}

/// The data of a metadata-only download: the data's fields (none unless it
/// is an object) with `download_type`, then `download_url` and
/// `download_path` when there is a URL, then `download_status: pending`.
pub open spec fn annotated_download(params: Json, data: Json) -> Json {
    let base = match data {
        Json::Object(f) => f,
        _ => Seq::empty(),
    };
    let f1 = insert_field(base, "download_type"@, Json::Str(download_type_of(params)));
    let f2 = match download_url_of(params, data) {
        Some(u) => insert_field(
            insert_field(f1, "download_url"@, Json::Str(u)),
            "download_path"@,
            Json::Str(url_file_name(u)),
        ),
        None => f1,
    };
    Json::Object(insert_field(f2, "download_status"@, Json::Str("pending"@)))
}

/// The last path segment of a URL, without its query.
pub fn file_name_of_url(u: &str) -> (r: String)
    ensures
        r@ == url_file_name(u@),
{
    let v = chars_of(u);
    let mut start: usize = v.len();
    let ghost s = v@;
    assert(s.subrange(start as int, s.len() as int) =~= Seq::<char>::empty());
    proof {
        lemma_after_last_slash(s, s.len() as int);
    }
    while start > 0 && v[start - 1] != '/'
        invariant
            start <= v.len(),
            s == v@,
            after_last_slash(s) == after_last_slash(s.take(start as int)) + s.subrange(
                start as int,
                s.len() as int,
            ),
        decreases start,
    {
        proof {
            let t = s.take(start as int);
            assert(t.drop_last() =~= s.take(start - 1));
            assert(t.last() == s[start - 1]);
            assert(s.subrange(start - 1, s.len() as int) =~= seq![s[start - 1]] + s.subrange(
                start as int,
                s.len() as int,
            ));
            assert(after_last_slash(t) == after_last_slash(s.take(start - 1)).push(s[start - 1]));
            assert(after_last_slash(s.take(start - 1)).push(s[start - 1]) + s.subrange(
                start as int,
                s.len() as int,
            ) =~= after_last_slash(s.take(start - 1)) + s.subrange(start - 1, s.len() as int));
        }
        start = start - 1;
    }
    proof {
        let t = s.take(start as int);
        if start > 0 {
            assert(t.last() == s[start - 1]);
        }
        assert(after_last_slash(t) =~= Seq::<char>::empty());
        assert(after_last_slash(s) =~= s.subrange(start as int, s.len() as int));
    }
    let seg = slice_chars(&v, start, v.len());
    let q = find_char(&seg, '?', 0);
    proof {
        assert(seg@.skip(0) =~= seg@);
    }
    let name = slice_chars(&seg, 0, q);
    proof {
        assert(name@ =~= seg@.take(index_of_char(seg@, '?')));
    }
    string_of(&name)
}

proof fn lemma_after_last_slash(s: Seq<char>, n: int)
    requires
        n == s.len(),
    ensures
        s.take(n) == s,
{
    assert(s.take(n) =~= s);
}

/// The result of a download that only notes what it would fetch.
pub fn annotate_download(params: &JsonValue, data: &JsonValue) -> (r: JsonValue)
    ensures
        r@ == annotated_download(params@, data@),
{
    let mut fields: Vec<(String, JsonValue)> = match data.deep_clone() {
        JsonValue::Object(f) => f,
        _ => Vec::new(),
    };
    proof {
        assert(view_fields(Seq::<(String, JsonValue)>::empty()) =~= Seq::<(Seq<char>, Json)>::empty());
    }
    set_field(&mut fields, String::from_str("download_type"), JsonValue::String(download_type(params)));
    let url = match text_at(params, "url") {
        Some(u) => Some(u),
        None => text_at(data, "url"),
    };
    match url {
        Some(u) => {
            let name = file_name_of_url(u.as_str());
            set_field(&mut fields, String::from_str("download_url"), JsonValue::String(u));
            set_field(&mut fields, String::from_str("download_path"), JsonValue::String(name));
        },
        None => {},
    }
    set_field(&mut fields, String::from_str("download_status"), JsonValue::String(String::from_str("pending")));
    proof {
        reveal_strlit("pending");
    }
    JsonValue::Object(fields)
}

// ---------------------------------------------------------------------------
// Media items
// ---------------------------------------------------------------------------

/// The file extension for fetched media: by content type or URL (both
/// lower-cased) webp, png, avif, gif, jpg; by content type webm; else mp4
/// for videos and jpg for the rest.
pub open spec fn media_extension_of(
    url: Seq<char>,
    content_type: Option<Seq<char>>,
    media_type: Seq<char>,
) -> Seq<char> {
    let c = lower_seq(
        match content_type {
            Some(t) => t,
            None => Seq::empty(),
        },
    );
    let u = lower_seq(url);
    if contains(c, "webp"@) || contains(u, "webp"@) {
        "webp"@
    } else if contains(c, "png"@) || contains(u, "png"@) {
        "png"@
    } else if contains(c, "avif"@) || contains(u, "avif"@) {
        "avif"@
    } else if contains(c, "gif"@) || contains(u, "gif"@) {
        "gif"@
    } else if contains(c, "jpeg"@) || contains(c, "jpg"@) || contains(u, "jpg"@) || contains(
        u,
        "jpeg"@,
    ) {
        "jpg"@
    } else if contains(c, "webm"@) {
        "webm"@
    } else if media_type == "video"@ {
        "mp4"@
    } else {
        "jpg"@
    }
}

/// The file extension a fetched media item is saved with.
pub fn media_extension(url: &str, content_type: Option<&str>, media_type: &str) -> (r: &'static str)
    ensures
        r@ == media_extension_of(
            url@,
            match content_type {
                Some(t) => Some(t@),
                None => None,
            },
            media_type@,
        ),
{
    let c = match content_type {
        Some(t) => to_ascii_lower(&chars_of(t)),
        None => Vec::new(),
    };
    let u = to_ascii_lower(&chars_of(url));
    proof {
        assert(lower_seq(Seq::<char>::empty()) =~= Seq::<char>::empty());
    }
    if contains_exec(&c, &chars_of("webp")) || contains_exec(&u, &chars_of("webp")) {
        "webp"
    } else if contains_exec(&c, &chars_of("png")) || contains_exec(&u, &chars_of("png")) {
        "png"
    } else if contains_exec(&c, &chars_of("avif")) || contains_exec(&u, &chars_of("avif")) {
        "avif"
    } else if contains_exec(&c, &chars_of("gif")) || contains_exec(&u, &chars_of("gif")) {
        "gif"
    } else if contains_exec(&c, &chars_of("jpeg")) || contains_exec(&c, &chars_of("jpg"))
        || contains_exec(&u, &chars_of("jpg")) || contains_exec(&u, &chars_of("jpeg")) {
        "jpg"
    } else if contains_exec(&c, &chars_of("webm")) {
        "webm"
    } else if str_eq(media_type, "video") {
        "mp4"
    } else {
        "jpg"
    }
}

/// Why a media URL is not fetched: the item's own reason when it gives a
/// non-blank one, else by the URL's kind.
pub open spec fn unsupported_status_of(url: Seq<char>, reason: Option<Seq<char>>) -> Seq<char> {
    if reason is Some && trim(reason->0).len() > 0 {
        "unsupported: "@ + reason->0
    } else if starts_with(url, "blob:"@) {
        "unsupported: browser blob/MSE stream"@
    } else if contains(url, ".m3u8"@) {
        "unsupported: HLS stream"@
    } else {
        "unsupported: non-HTTP media URL"@
    }
}

/// The status of a media item whose URL cannot be fetched directly.
pub fn unsupported_media_status(url: &str, reason: Option<&str>) -> (r: String)
    ensures
        r@ == unsupported_status_of(
            url@,
            match reason {
                Some(t) => Some(t@),
                None => None,
            },
        ),
{
    match reason {
        Some(why) => {
            if trim_chars(&chars_of(why)).len() > 0 {
                let mut s = String::from_str("unsupported: ");
                s.append(why);
                proof {
                    reveal_strlit("unsupported: ");
                }
                return s;
            }
        },
        None => {},
    }
    if str_starts_with(url, "blob:") {
        String::from_str("unsupported: browser blob/MSE stream")
    } else if str_contains(url, ".m3u8") {
        String::from_str("unsupported: HLS stream")
    } else {
        String::from_str("unsupported: non-HTTP media URL")
    }
}

/// Whether a text parses as a URL whose scheme is `http` or `https`.
pub open spec fn direct_http(url: Seq<char>) -> bool {
    match parsed_url(url) {
        Some(p) => p.0 == "http"@ || p.0 == "https"@,
        None => false,
    }
}

/// Whether a media URL can be fetched with a plain HTTP request.
pub fn is_direct_http_url(url: &str) -> (r: bool)
    ensures
        r == direct_http(url@),
{
    match parse_url(url) {
        Some(p) => str_eq(p.scheme.as_str(), "http") || str_eq(p.scheme.as_str(), "https"),
        None => false,
    }
}

/// `n` in decimal, padded with zeros to three digits (`{:03}`).
pub open spec fn pad3(n: nat) -> Seq<char> {
    if n < 10 {
        "00"@ + decimal(n)
    } else if n < 100 {
        "0"@ + decimal(n)
    } else {
        decimal(n)
    }
}

/// The name a fetched media item is saved under: `{prefix}_{index:03}.{ext}`.
pub open spec fn media_file_name_of(prefix: Seq<char>, index: nat, ext: Seq<char>) -> Seq<char> {
    prefix + "_"@ + pad3(index) + "."@ + ext
}

/// The file name of the `index`-th media item.
pub fn media_file_name(prefix: &str, index: usize, ext: &str) -> (r: String)
    ensures
        r@ == media_file_name_of(prefix@, index as nat, ext@),
{
    let mut s = String::from_str(prefix);
    s.append("_");
    if index < 10 {
        s.append("00");
    } else if index < 100 {
        s.append("0");
    }
    let digits = u128_text(index as u128);
    s.append(digits.as_str());
    s.append(".");
    s.append(ext);
    proof {
        reveal_strlit("_");
        reveal_strlit("00");
        reveal_strlit("0");
        reveal_strlit(".");
    }
    assert(s@ =~= media_file_name_of(prefix@, index as nat, ext@));
    s
}

/// What to do with one item of a media batch.
#[derive(Debug)]
pub enum MediaPlan {
    /// Nothing: the item has no URL, or is of a type the batch ignores.
    Skip,
    /// Report the image or video as not fetchable, with this status.
    Unsupported { media_type: String, status: String },
    /// Fetch the image or video with a plain HTTP request.
    Direct { media_type: String, url: String },
    /// Hand the tweet video to yt-dlp.
    TweetVideo { url: String },
}

/// The type of a media item; `unknown` when it has none.
pub open spec fn item_type_of(item: Json) -> Seq<char> {
    match str_at(item, "type"@) {
        Some(t) => t,
        None => "unknown"@,
    }
}

/// The URL of a media item; empty when it has none.
pub open spec fn item_url_of(item: Json) -> Seq<char> {
    match str_at(item, "url"@) {
        Some(u) => u,
        None => Seq::empty(),
    }
}

/// Whether a plan is the one for an item: no URL or an ignored type skips;
/// images and videos are fetched when their URL is plain HTTP(S) and
/// reported as unsupported otherwise; tweet videos go to yt-dlp.
pub open spec fn plan_fits(plan: MediaPlan, item: Json) -> bool {
    let t = item_type_of(item);
    let u = item_url_of(item);
    let media = t == "image"@ || t == "video"@;
    match plan {
        MediaPlan::Skip => u.len() == 0 || !(media || t == "video-tweet"@),
        MediaPlan::Unsupported { media_type, status } => u.len() > 0 && media && !direct_http(u)
            && media_type@ == t && status@ == unsupported_status_of(u, str_at(item, "reason"@)),
        MediaPlan::Direct { media_type, url } => u.len() > 0 && media && direct_http(u)
            && media_type@ == t && url@ == u,
        MediaPlan::TweetVideo { url } => u.len() > 0 && t == "video-tweet"@ && url@ == u,
    }
}

/// Decides what to do with one item of a media batch.
pub fn plan_media_item(item: &JsonValue) -> (r: MediaPlan)
    ensures
        plan_fits(r, item@),
{
    let media_type = match text_at(item, "type") {
        Some(t) => t,
        None => String::from_str("unknown"),
    };
    let url = match text_at(item, "url") {
        Some(u) => u,
        None => String::new(),
    };
    if url.as_str().unicode_len() == 0 {
        return MediaPlan::Skip;
    }
    let t = media_type.as_str();
    if str_eq(t, "image") || str_eq(t, "video") {
        if !is_direct_http_url(url.as_str()) {
            let reason = text_at(item, "reason");
            let status = match &reason {
                Some(why) => unsupported_media_status(url.as_str(), Some(why.as_str())),
                None => unsupported_media_status(url.as_str(), None),
            };
            MediaPlan::Unsupported { media_type, status }
        } else {
            MediaPlan::Direct { media_type, url }
        }
    } else if str_eq(t, "video-tweet") {
        MediaPlan::TweetVideo { url }
    } else {
        MediaPlan::Skip
    }
}

/// How a media batch is set up by its parameters.
#[derive(Debug)]
pub struct MediaBatchOptions {
    /// Where files go (`output`, default `./downloads`).
    pub output_dir: String,
    /// What file names start with (`username`, default `media`).
    pub prefix: String,
    /// Whether a Markdown note is saved beside the media
    /// (`saveMetadata` or `save_metadata`, default false).
    pub save_metadata: bool,
    /// The note's file name (`metadataFilename` or `metadata_filename`,
    /// default `note.md`).
    pub metadata_filename: String,
    /// The referer sent with each request, if any.
    pub referer: Option<String>,
}

/// A string parameter, or `fallback`.
pub open spec fn text_or(v: Option<Seq<char>>, fallback: Seq<char>) -> Seq<char> {
    match v {
        Some(t) => t,
        None => fallback,
    }
}

/// Whether options are the ones a media batch's parameters give.
pub open spec fn media_options_fit(o: MediaBatchOptions, params: Json) -> bool {
    &&& o.output_dir@ == text_or(str_at(params, "output"@), "./downloads"@)
    &&& o.prefix@ == text_or(str_at(params, "username"@), "media"@)
    &&& o.save_metadata == match either_field(params, "saveMetadata"@, "save_metadata"@) {
        Some(Json::Bool(b)) => b,
        _ => false,
    }
    &&& o.metadata_filename@ == text_or(
        str_of(either_field(params, "metadataFilename"@, "metadata_filename"@)),
        "note.md"@,
    )
    &&& crate::kv_steps::opt_view(o.referer) == str_at(params, "referer"@)
}

fn text_or_default(v: Option<String>, fallback: &str) -> (r: String)
    ensures
        r@ == text_or(crate::kv_steps::opt_view(v), fallback@),
{
    match v {
        Some(t) => t,
        None => String::from_str(fallback),
    }
}

/// Reads a media batch's parameters.
pub fn media_batch_options(params: &JsonValue) -> (r: MediaBatchOptions)
    ensures
        media_options_fit(r, params@),
{
    let output_dir = text_or_default(text_at(params, "output"), "./downloads");
    let prefix = text_or_default(text_at(params, "username"), "media");
    let save_flag = match get_field(params, "saveMetadata") {
        Some(x) => Some(x),
        None => get_field(params, "save_metadata"),
    };
    let save_metadata = match save_flag {
        Some(JsonValue::Bool(b)) => *b,
        _ => false,
    };
    let name_field = match get_field(params, "metadataFilename") {
        Some(x) => Some(x),
        None => get_field(params, "metadata_filename"),
    };
    let name = match name_field {
        Some(JsonValue::String(n)) => Some(n.clone()),
        _ => None,
    };
    let metadata_filename = text_or_default(name, "note.md");
    let referer = text_at(params, "referer");
    MediaBatchOptions { output_dir, prefix, save_metadata, metadata_filename, referer }
}

/// The items of a media batch: the elements of `items`.
pub open spec fn media_items_of(data: Json) -> Seq<Json> {
    match json_get(data, "items"@) {
        Some(Json::Array(items)) => items,
        _ => Seq::empty(),
    }
}

/// The items of a media batch.
pub fn media_items(data: &JsonValue) -> (r: Vec<JsonValue>)
    ensures
        view_items(r@) == media_items_of(data@),
{
    assert(view_items(Seq::<JsonValue>::empty()) =~= Seq::<Json>::empty());
    match get_field(data, "items") {
        Some(v) => match v.deep_clone() {
            JsonValue::Array(items) => items,
            _ => Vec::new(),
        },
        None => Vec::new(),
    }
}

/// What a media batch with no items and no note answers: array data (an
/// upstream status list) is passed on; anything else is an error.
pub open spec fn empty_media_outcome(data: Json) -> Result<Json, Seq<char>> {
    match data {
        Json::Array(_) => Ok(data),
        _ => Err("download: no media items to download (upstream step produced an empty items list)"@),
    }
}

/// The answer of a media batch that has nothing to fetch.
pub fn empty_media_batch(data: &JsonValue) -> (r: Result<JsonValue, CliError>)
    ensures
        match r {
            Ok(v) => empty_media_outcome(data@) == Ok::<Json, Seq<char>>(v@),
            Err(e) => e is Pipeline && empty_media_outcome(data@) == Err::<Json, Seq<char>>(
                message_of(e),
            ),
        },
{
    match data {
        JsonValue::Array(_) => Ok(data.deep_clone()),
        _ => Err(
            CliError::pipeline(
                "download: no media items to download (upstream step produced an empty items list)",
            ),
        ),
    }
}

/// The record of one media item: `index`, `type`, `status`, `size`, and
/// `path` when a file was written.
pub open spec fn media_record_of(
    index: u64,
    media_type: Seq<char>,
    status: Seq<char>,
    size: Seq<char>,
    path: Option<Seq<char>>,
) -> Json {
    let base = seq![
        ("index"@, Json::Number(crate::json::NumberView::PosInt(index))),
        ("type"@, Json::Str(media_type)),
        ("status"@, Json::Str(status)),
        ("size"@, Json::Str(size)),
    ];
    match path {
        Some(p) => Json::Object(base.push(("path"@, Json::Str(p)))),
        None => Json::Object(base),
    }
}

/// The record of one media item.
pub fn media_record(index: u64, media_type: &str, status: &str, size: &str, path: Option<&str>) -> (r: JsonValue)
    ensures
        r@ == media_record_of(
            index,
            media_type@,
            status@,
            size@,
            match path {
                Some(p) => Some(p@),
                None => None,
            },
        ),
{
    let mut f: Vec<(String, JsonValue)> = Vec::new();
    f.push((String::from_str("index"), JsonValue::Number(JsonNumber::PosInt(index))));
    f.push((String::from_str("type"), JsonValue::String(media_type.to_owned())));
    f.push((String::from_str("status"), JsonValue::String(status.to_owned())));
    f.push((String::from_str("size"), JsonValue::String(size.to_owned())));
    let ghost four = f@;
    proof {
        reveal_with_fuel(view_fields, 5);
        assert(view_fields(four) =~= seq![
            ("index"@, Json::Number(crate::json::NumberView::PosInt(index))),
            ("type"@, Json::Str(media_type@)),
            ("status"@, Json::Str(status@)),
            ("size"@, Json::Str(size@)),
        ]);
    }
    match path {
        Some(p) => {
            f.push((String::from_str("path"), JsonValue::String(p.to_owned())));
            proof {
                crate::json::lemma_view_fields_push(four, f@[4]);
            }
        },
        None => {},
    }
    JsonValue::Object(f)
}

// ---------------------------------------------------------------------------
// The note beside saved media
// ---------------------------------------------------------------------------

/// What `url::Url::parse` followed by `query_pairs` gives: nothing when the
/// text is no URL, else the decoded query pairs in order. It depends on the
/// text alone.
pub uninterp spec fn url_query_pairs(text: Seq<char>) -> Option<Seq<(Seq<char>, Seq<char>)>>;

/// The URL text with its query replaced by `pairs`, form-encoded
/// (`query_pairs_mut().clear().extend_pairs(..)`, then `to_string`). It
/// depends on its arguments alone.
pub uninterp spec fn url_with_query(text: Seq<char>, pairs: Seq<(Seq<char>, Seq<char>)>) -> Seq<char>;

pub open spec fn pairs_view(v: Seq<(String, String)>) -> Seq<(Seq<char>, Seq<char>)> {
    v.map_values(|p: (String, String)| (p.0@, p.1@))
}

/// Calls `url::Url::parse` and collects `query_pairs`, decoded; the outcome
/// is named `url_query_pairs` and nothing more is claimed of it.
#[verifier::external_body]
fn query_pairs(text: &str) -> (r: Option<Vec<(String, String)>>)
    ensures
        match r {
            Some(v) => url_query_pairs(text@) == Some(pairs_view(v@)),
            None => url_query_pairs(text@) is None,
        },
{
    match url::Url::parse(text) {
        Ok(u) => Some(u.query_pairs().map(|(k, v)| (k.into_owned(), v.into_owned())).collect()),
        Err(_) => None,
    }
}

/// Calls `url::Url::parse`, replaces the query with `pairs` through
/// `query_pairs_mut`, and gives the URL text back; nothing for a text that
/// is no URL (the same parse as `query_pairs`). The outcome is named
/// `url_with_query` and nothing more is claimed of it.
#[verifier::external_body]
fn with_query(text: &str, pairs: &Vec<(String, String)>) -> (r: Option<String>)
    ensures
        match r {
            Some(t) => t@ == url_with_query(text@, pairs_view(pairs@)),
            None => url_query_pairs(text@) is None,
        },
{
    match url::Url::parse(text) {
        Ok(mut u) => {
            u.query_pairs_mut().clear().extend_pairs(pairs.iter());
            Some(u.to_string())
        },
        Err(_) => None,
    }
}

/// Query keys whose values are secrets of the page's session.
pub open spec fn secret_query_key(k: Seq<char>) -> bool {
    k == "xsec_token"@ || k == "token"@ || k == "signature"@ || k == "sign"@
}

/// The pairs whose key is no secret, in order.
pub open spec fn public_pairs(p: Seq<(Seq<char>, Seq<char>)>) -> Seq<(Seq<char>, Seq<char>)>
    decreases p.len(),
{
    if p.len() == 0 {
        p
    } else if secret_query_key(p.last().0) {
        public_pairs(p.drop_last())
    } else {
        public_pairs(p.drop_last()).push(p.last())
    }
}

/// A source URL as the note shows it: its query without secret keys; a
/// text that is no URL as it is.
pub open spec fn redacted_source(s: Seq<char>) -> Seq<char> {
    match url_query_pairs(s) {
        None => s,
        Some(p) => url_with_query(s, public_pairs(p)),
    }
}

fn is_secret_key(k: &str) -> (r: bool)
    ensures
        r == secret_query_key(k@),
{
    str_eq(k, "xsec_token") || str_eq(k, "token") || str_eq(k, "signature") || str_eq(k, "sign")
}

/// Drops the session secrets (`xsec_token`, `token`, `signature`, `sign`)
/// from a source URL's query.
pub fn redact_source_url(source: &str) -> (r: String)
    ensures
        r@ == redacted_source(source@),
{
    let pairs = match query_pairs(source) {
        Some(p) => p,
        None => return source.to_owned(),
    };
    let ghost all = pairs_view(pairs@);
    let mut kept: Vec<(String, String)> = Vec::new();
    let mut i: usize = 0;
    while i < pairs.len()
        invariant
            i <= pairs.len(),
            all == pairs_view(pairs@),
            all.len() == pairs@.len(),
            pairs_view(kept@) == public_pairs(all.take(i as int)),
        decreases pairs.len() - i,
    {
        proof {
            assert(all.take(i + 1).drop_last() =~= all.take(i as int));
            assert(all.take(i + 1).last() == all[i as int]);
            assert(all[i as int] == (pairs@[i as int].0@, pairs@[i as int].1@));
        }
        if !is_secret_key(pairs[i].0.as_str()) {
            let ghost before = kept@;
            kept.push((pairs[i].0.clone(), pairs[i].1.clone()));
            proof {
                assert(pairs_view(kept@) =~= pairs_view(before).push(all[i as int]));
            }
        }
        i = i + 1;
    }
    proof {
        assert(all.take(all.len() as int) =~= all);
    }
    match with_query(source, &kept) {
        Some(t) => t,
        None => source.to_owned(),
    }
}

/// The first of two fields that is present.
pub open spec fn either_field(v: Json, a: Seq<char>, b: Seq<char>) -> Option<Json> {
    match json_get(v, a) {
        Some(x) => Some(x),
        None => json_get(v, b),
    }
}

/// A string field, when it is not blank; `fallback` otherwise.
pub open spec fn nonblank_or(o: Option<Seq<char>>, fallback: Seq<char>) -> Seq<char> {
    if o is Some && trim(o->0).len() > 0 {
        o->0
    } else {
        fallback
    }
}

/// The note's line for one media result.
pub open spec fn media_line(r: Json) -> Seq<char> {
    let t = match str_at(r, "type"@) {
        Some(x) => x,
        None => "media"@,
    };
    let st = match str_at(r, "status"@) {
        Some(x) => x,
        None => "unknown"@,
    };
    match str_at(r, "path"@) {
        Some(p) => "- "@ + t + "："@ + "`"@ + p + "`（"@ + st + "）\n"@,
        None => "- "@ + t + "："@ + st + "\n"@,
    }
}

/// The note's lines for the media results, in order.
pub open spec fn media_lines(rs: Seq<Json>) -> Seq<char>
    decreases rs.len(),
{
    if rs.len() == 0 {
        Seq::empty()
    } else {
        media_lines(rs.drop_last()) + media_line(rs.last())
    }
}

/// The head of the note: title, author, type and source.
pub open spec fn note_head(data: Json) -> Seq<char> {
    let title = nonblank_or(str_at(data, "title"@), "untitled"@);
    let author = nonblank_or(str_at(data, "author"@), "unknown"@);
    let source = match str_of(either_field(data, "sourceUrl"@, "source_url"@)) {
        Some(s) => redacted_source(s),
        None => Seq::empty(),
    };
    let note_type = match str_of(either_field(data, "noteType"@, "note_type"@)) {
        Some(n) => n,
        None => Seq::empty(),
    };
    "# "@ + title + "\n\n- 作者："@ + author + "\n"@ + (if note_type.len() > 0 {
        "- 类型："@ + note_type + "\n"@
    } else {
        Seq::empty()
    }) + (if source.len() > 0 {
        "- 来源："@ + source + "\n"@
    } else {
        Seq::empty()
    })
}

/// The Markdown note saved beside a media batch: the head, the body text
/// (`content`, else `desc`) trimmed, and one line per media result.
pub open spec fn media_note(data: Json, results: Seq<Json>) -> Seq<char> {
    let content = match str_of(either_field(data, "content"@, "desc"@)) {
        Some(c) => c,
        None => Seq::empty(),
    };
    note_head(data) + "\n## 正文\n\n"@ + trim(content) + "\n\n## 媒体\n\n"@ + media_lines(results)
}

fn either_text(v: &JsonValue, a: &str, b: &str) -> (r: Option<String>)
    ensures
        match r {
            Some(s) => str_of(either_field(v@, a@, b@)) == Some(s@),
            None => str_of(either_field(v@, a@, b@)) is None,
        },
{
    let f = match get_field(v, a) {
        Some(x) => Some(x),
        None => get_field(v, b),
    };
    match f {
        Some(JsonValue::String(s)) => Some(s.clone()),
        _ => None,
    }
}

fn nonblank_text(o: Option<String>, fallback: &str) -> (r: String)
    ensures
        r@ == nonblank_or(
            match o {
                Some(s) => Some(s@),
                None => None,
            },
            fallback@,
        ),
{
    match o {
        Some(s) => if trim_chars(&chars_of(s.as_str())).len() > 0 {
            s
        } else {
            String::from_str(fallback)
        },
        None => String::from_str(fallback),
    }
}

fn media_line_text(r: &JsonValue) -> (out: String)
    ensures
        out@ == media_line(r@),
{
    let t = match text_at(r, "type") {
        Some(x) => x,
        None => String::from_str("media"),
    };
    let st = match text_at(r, "status") {
        Some(x) => x,
        None => String::from_str("unknown"),
    };
    let mut s = String::from_str("- ");
    s.append(t.as_str());
    s.append("：");
    match text_at(r, "path") {
        Some(p) => {
            s.append("`");
            s.append(p.as_str());
            s.append("`（");
            s.append(st.as_str());
            s.append("）\n");
        },
        None => {
            s.append(st.as_str());
            s.append("\n");
        },
    }
    proof {
        reveal_strlit("media");
        reveal_strlit("unknown");
    }
    s
}

/// The Markdown note that goes beside a media batch.
pub fn media_metadata_markdown(data: &JsonValue, results: &Vec<JsonValue>) -> (r: String)
    ensures
        r@ == media_note(data@, view_items(results@)),
{
    let title = nonblank_text(text_at(data, "title"), "untitled");
    let author = nonblank_text(text_at(data, "author"), "unknown");
    let content = match either_text(data, "content", "desc") {
        Some(c) => c,
        None => String::new(),
    };
    let source = match either_text(data, "sourceUrl", "source_url") {
        Some(s) => redact_source_url(s.as_str()),
        None => String::new(),
    };
    let note_type = match either_text(data, "noteType", "note_type") {
        Some(n) => n,
        None => String::new(),
    };
    let mut md = String::from_str("# ");
    md.append(title.as_str());
    md.append("\n\n- 作者：");
    md.append(author.as_str());
    md.append("\n");
    if note_type.as_str().unicode_len() > 0 {
        md.append("- 类型：");
        md.append(note_type.as_str());
        md.append("\n");
    }
    if source.as_str().unicode_len() > 0 {
        md.append("- 来源：");
        md.append(source.as_str());
        md.append("\n");
    }
    let ghost head = md@;
    assert(head =~= note_head(data@));
    md.append("\n## 正文\n\n");
    let body = string_of(&trim_chars(&chars_of(content.as_str())));
    md.append(body.as_str());
    md.append("\n\n## 媒体\n\n");
    let ghost rs = view_items(results@);
    proof {
        lemma_view_items_len(results@);
    }
    let ghost prefix = md@;
    assert(media_lines(rs.take(0)) =~= Seq::<char>::empty());
    assert(md@ =~= prefix + media_lines(rs.take(0)));
    let mut i: usize = 0;
    while i < results.len()
        invariant
            i <= results.len(),
            rs == view_items(results@),
            rs.len() == results@.len(),
            md@ == prefix + media_lines(rs.take(i as int)),
        decreases results.len() - i,
    {
        proof {
            lemma_view_items_index(results@, i as int);
            assert(rs.take(i + 1).drop_last() =~= rs.take(i as int));
            assert(rs.take(i + 1).last() == rs[i as int]);
        }
        let line = media_line_text(&results[i]);
        md.append(line.as_str());
        assert(md@ =~= prefix + media_lines(rs.take(i + 1)));
        i = i + 1;
    }
    assert(rs.take(rs.len() as int) =~= rs);
    assert(md@ =~= media_note(data@, rs));
    md
}

/// The result of a media batch: its records, or one `no media` record when
/// there are none.
pub open spec fn batch_result(results: Seq<Json>) -> Json {
    if results.len() == 0 {
        Json::Array(
            seq![
                Json::Object(
                    seq![
                        ("index"@, Json::Number(crate::json::NumberView::PosInt(0))),
                        ("type"@, Json::Str("-"@)),
                        ("status"@, Json::Str("no media"@)),
                        ("size"@, Json::Str("-"@)),
                    ],
                ),
            ],
        )
    } else {
        Json::Array(results)
    }
}

/// Wraps up a media batch's records.
pub fn finish_media_batch(results: Vec<JsonValue>) -> (r: JsonValue)
    ensures
        r@ == batch_result(view_items(results@)),
{
    proof {
        lemma_view_items_len(results@);
    }
    if results.len() > 0 {
        return JsonValue::Array(results);
    }
    let mut f: Vec<(String, JsonValue)> = Vec::new();
    f.push((String::from_str("index"), JsonValue::Number(JsonNumber::PosInt(0))));
    f.push((String::from_str("type"), JsonValue::String(String::from_str("-"))));
    f.push((String::from_str("status"), JsonValue::String(String::from_str("no media"))));
    f.push((String::from_str("size"), JsonValue::String(String::from_str("-"))));
    let mut items: Vec<JsonValue> = Vec::new();
    items.push(JsonValue::Object(f));
    proof {
        reveal_with_fuel(view_fields, 5);
        reveal_with_fuel(view_items, 2);
        assert(view_fields(f@) =~= seq![
            ("index"@, Json::Number(crate::json::NumberView::PosInt(0))),
            ("type"@, Json::Str("-"@)),
            ("status"@, Json::Str("no media"@)),
            ("size"@, Json::Str("-"@)),
        ]);
        assert(view_items(items@) =~= seq![json_view(items@[0])]);
    }
    JsonValue::Array(items)
}


/// The query a redacted source keeps holds no secret key, and it keeps
/// every pair whose key is no secret.
pub proof fn law_redaction_drops_only_secrets(p: Seq<(Seq<char>, Seq<char>)>)
    ensures
        forall|i: int| 0 <= i < public_pairs(p).len() ==> !secret_query_key(#[trigger] public_pairs(p)[i].0),
        forall|i: int| 0 <= i < p.len() && !secret_query_key(p[i].0) ==> public_pairs(p).contains(#[trigger] p[i]),
    decreases p.len(),
{
    if p.len() > 0 {
        let t = p.drop_last();
        law_redaction_drops_only_secrets(t);
        let q = public_pairs(t);
        if !secret_query_key(p.last().0) {
            assert(public_pairs(p) == q.push(p.last()));
            assert forall|i: int| 0 <= i < p.len() && !secret_query_key(p[i].0) implies public_pairs(p).contains(#[trigger] p[i]) by {
                if i < p.len() - 1 {
                    assert(p[i] == t[i]);
                    let k = choose|k: int| 0 <= k < q.len() && q[k] == t[i];
                    assert(q.push(p.last())[k] == p[i]);
                } else {
                    assert(q.push(p.last())[q.len() as int] == p[i]);
                }
            }
            assert forall|i: int| 0 <= i < public_pairs(p).len() implies !secret_query_key(#[trigger] public_pairs(p)[i].0) by {
                if i < q.len() {
                    assert(public_pairs(p)[i] == q[i]);
                }
            }
        } else {
            assert(public_pairs(p) == q);
            assert forall|i: int| 0 <= i < p.len() && !secret_query_key(p[i].0) implies public_pairs(p).contains(#[trigger] p[i]) by {
                assert(i < p.len() - 1);
                assert(p[i] == t[i]);
            }
        }
    }
}

/// Whether a media item is passed over (see `plan_fits`).
pub open spec fn media_skipped(item: Json) -> bool {
    let t = item_type_of(item);
    item_url_of(item).len() == 0 || !(t == "image"@ || t == "video"@ || t == "video-tweet"@)
}

/// The places (counted from one, over all items, skipped ones included)
/// of the items a batch acts on, in order.
pub open spec fn media_indices(items: Seq<Json>) -> Seq<int>
    decreases items.len(),
{
    if items.len() == 0 {
        Seq::empty()
    } else {
        let r = media_indices(items.drop_last());
        if media_skipped(items.last()) {
            r
        } else {
            r.push(items.len() as int)
        }
    }
}

/// Plans a media batch: each item that is not passed over, with its place
/// among all the items counted from one (so file names and records keep
/// the item's own number), and what to do with it.
pub fn plan_media_batch(items: &Vec<JsonValue>) -> (r: Vec<(usize, MediaPlan)>)
    ensures
        r@.len() == media_indices(view_items(items@)).len(),
        forall|k: int| 0 <= k < r@.len() ==> {
            let idx = media_indices(view_items(items@))[k];
            &&& (#[trigger] r@[k]).0 == idx
            &&& 1 <= idx <= items@.len()
            &&& !(r@[k].1 is Skip)
            &&& plan_fits(r@[k].1, view_items(items@)[idx - 1])
        },
{
    let ghost iv = view_items(items@);
    proof {
        lemma_view_items_len(items@);
    }
    let mut out: Vec<(usize, MediaPlan)> = Vec::new();
    let mut i: usize = 0;
    assert(iv.take(0) =~= Seq::<Json>::empty());
    while i < items.len()
        invariant
            i <= items.len(),
            iv == view_items(items@),
            iv.len() == items@.len(),
            out@.len() == media_indices(iv.take(i as int)).len(),
            forall|k: int| 0 <= k < out@.len() ==> {
                let idx = media_indices(iv.take(i as int))[k];
                &&& (#[trigger] out@[k]).0 == idx
                &&& 1 <= idx <= i
                &&& !(out@[k].1 is Skip)
                &&& plan_fits(out@[k].1, iv[idx - 1])
            },
        decreases items.len() - i,
    {
        proof {
            lemma_view_items_index(items@, i as int);
        }
        let ghost before = iv.take(i as int);
        assert(iv.take(i + 1).drop_last() =~= before);
        assert(iv.take(i + 1).last() == iv[i as int]);
        let plan = plan_media_item(&items[i]);
        let ghost prev = out@;
        match plan {
            MediaPlan::Skip => {
                assert(media_indices(iv.take(i + 1)) == media_indices(before));
            },
            _ => {
                out.push((i + 1, plan));
                assert(media_indices(iv.take(i + 1)) == media_indices(before).push(i + 1));
                assert forall|k: int| 0 <= k < out@.len() implies {
                    let idx = media_indices(iv.take(i + 1))[k];
                    &&& (#[trigger] out@[k]).0 == idx
                    &&& 1 <= idx <= i + 1
                    &&& !(out@[k].1 is Skip)
                    &&& plan_fits(out@[k].1, iv[idx - 1])
                } by {
                    if k < prev.len() {
                        assert(out@[k] == prev[k]);
                    }
                }
            },
        }
        i = i + 1;
    }
    assert(iv.take(items.len() as int) =~= iv);
    out
}

/// A GIF is saved as `.gif`: when the lower-cased content type or URL
/// mentions `gif` and neither mentions `webp`, `png` or `avif` (which
/// win), the extension is `gif`, whatever the media type.
pub proof fn law_gif_media_keep_their_extension(url: Seq<char>, content_type: Option<Seq<char>>, media_type: Seq<char>)
    requires
        ({
            let c = lower_seq(
                match content_type {
                    Some(t) => t,
                    None => Seq::empty(),
                },
            );
            let u = lower_seq(url);
            &&& contains(c, "gif"@) || contains(u, "gif"@)
            &&& !contains(c, "webp"@) && !contains(u, "webp"@)
            &&& !contains(c, "png"@) && !contains(u, "png"@)
            &&& !contains(c, "avif"@) && !contains(u, "avif"@)
        }),
    ensures
        media_extension_of(url, content_type, media_type) == "gif"@,
{
}

/// The extension of a media file is always one of the kinds the batch
/// saves: `webp`, `png`, `avif`, `gif`, `jpg`, `webm` or `mp4`; a video
/// with no hint in its type or URL is saved as `mp4`.
pub proof fn law_media_extension_kinds(url: Seq<char>, content_type: Option<Seq<char>>, media_type: Seq<char>)
    ensures
        ({
            let e = media_extension_of(url, content_type, media_type);
            e == "webp"@ || e == "png"@ || e == "avif"@ || e == "gif"@ || e == "jpg"@ || e == "webm"@ || e
                == "mp4"@
        }),
{
}

/// Which hint wins when the content type and URL (lower-cased) name
/// several formats: `webp`, then `png`, then `avif`, then `gif`, then
/// `jpeg`/`jpg`, then a `webm` content type; with no hint a video is
/// `mp4` and anything else `jpg`.
pub proof fn law_media_extension_priority(url: Seq<char>, content_type: Option<Seq<char>>, media_type: Seq<char>)
    ensures
        ({
            let c = lower_seq(
                match content_type {
                    Some(t) => t,
                    None => Seq::empty(),
                },
            );
            let u = lower_seq(url);
            let e = media_extension_of(url, content_type, media_type);
            let webp = contains(c, "webp"@) || contains(u, "webp"@);
            let png = contains(c, "png"@) || contains(u, "png"@);
            let avif = contains(c, "avif"@) || contains(u, "avif"@);
            let gif = contains(c, "gif"@) || contains(u, "gif"@);
            let jpg = contains(c, "jpeg"@) || contains(c, "jpg"@) || contains(u, "jpg"@) || contains(u, "jpeg"@);
            let webm = contains(c, "webm"@);
            &&& webp ==> e == "webp"@
            &&& !webp && png ==> e == "png"@
            &&& !webp && !png && avif ==> e == "avif"@
            &&& !webp && !png && !avif && gif ==> e == "gif"@
            &&& !webp && !png && !avif && !gif && jpg ==> e == "jpg"@
            &&& !webp && !png && !avif && !gif && !jpg && webm ==> e == "webm"@
            &&& !webp && !png && !avif && !gif && !jpg && !webm ==> e == (if media_type == "video"@ {
                "mp4"@
            } else {
                "jpg"@
            })
        }),
{
}

} // verus!
