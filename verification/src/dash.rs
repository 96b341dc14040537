//! The decisions of the `dash-mux` step: which parameters it needs, which
//! inputs it refuses, where the partial files go and how ffmpeg is run.
use vstd::prelude::*;

use crate::download::{direct_http, is_direct_http_url, str_at};
use crate::error::{message_of, CliError};
use crate::json::{get_field, Json, JsonValue};
use crate::text::{concat3, contains, str_contains, texts};

verus! {

/// The parameters `dash-mux` requires, in the order it reads them.
pub open spec fn dash_required(i: int) -> Seq<char> {
    if i == 0 {
        "video_url"@
    } else if i == 1 {
        "audio_url"@
    } else if i == 2 {
        "output"@
    } else if i == 3 {
        "title"@
    } else {
        "filename"@
    }
}

/// The templates of a `dash-mux` step, before rendering.
#[derive(Debug)]
pub struct DashTemplates {
    pub video_url: String,
    pub audio_url: String,
    pub output: String,
    pub title: String,
    pub filename: String,
    pub referer: Option<String>,
    pub user_agent: Option<String>,
}

/// The first required parameter (from `from` on) that is missing or not a
/// string, if any.
pub open spec fn first_missing(params: Json, from: int) -> Option<int>
    decreases 5 - from,
{
    if from >= 5 || from < 0 {
        None
    } else if str_at(params, dash_required(from)) is None {
        Some(from)
    } else {
        first_missing(params, from + 1)
    }
}

/// What `dash-mux` makes of its parameters: an object with the five
/// required strings, or the error for the first that is missing.
pub open spec fn dash_templates_ok(params: Json, t: DashTemplates) -> bool {
    &&& params is Object
    &&& first_missing(params, 0) is None
    &&& str_at(params, "video_url"@) == Some(t.video_url@)
    &&& str_at(params, "audio_url"@) == Some(t.audio_url@)
    &&& str_at(params, "output"@) == Some(t.output@)
    &&& str_at(params, "title"@) == Some(t.title@)
    &&& str_at(params, "filename"@) == Some(t.filename@)
    &&& str_at(params, "referer"@) == crate::kv_steps::opt_view(t.referer)
    &&& str_at(params, "user_agent"@) == crate::kv_steps::opt_view(t.user_agent)
}

/// The error for parameters that are no object or lack a required string.
pub open spec fn dash_templates_error(params: Json) -> Seq<char> {
    if !(params is Object) {
        "dash-mux: params must be an object"@
    } else {
        "dash-mux: missing "@ + dash_required(first_missing(params, 0)->0)
    }
}

fn text_param(params: &JsonValue, k: &str) -> (r: Option<String>)
    ensures
        crate::kv_steps::opt_view(r) == str_at(params@, k@),
{
    match get_field(params, k) {
        Some(JsonValue::String(s)) => Some(s.clone()),
        _ => None,
    }
}

fn required_param(params: &JsonValue, k: &str) -> (r: Result<String, CliError>)
    ensures
        match r {
            Ok(v) => str_at(params@, k@) == Some(v@),
            Err(e) => e is Pipeline && str_at(params@, k@) is None && message_of(e)
                == "dash-mux: missing "@ + k@,
        },
{
    let t = text_param(params, k);
    match t {
        Some(s) => {
            Ok(s)
        },
        None => {
            let msg = concat3("dash-mux: missing ", k, "");
            proof {
                reveal_strlit("");
                assert(msg@ =~= "dash-mux: missing "@ + k@);
            }
            Err(CliError::pipeline(msg.as_str()))
        },
    }
}

/// Reads the templates of a `dash-mux` step.
pub fn dash_templates(params: &JsonValue) -> (r: Result<DashTemplates, CliError>)
    ensures
        match r {
            Ok(t) => dash_templates_ok(params@, t),
            Err(e) => e is Pipeline && !(params@ is Object && first_missing(params@, 0) is None)
                && message_of(e) == dash_templates_error(params@),
        },
{
    match params {
        JsonValue::Object(_) => {},
        _ => {
            return Err(CliError::pipeline("dash-mux: params must be an object"));
        },
    }
    proof {
        reveal_with_fuel(first_missing, 6);
        reveal_strlit("video_url");
        reveal_strlit("audio_url");
        reveal_strlit("output");
        reveal_strlit("title");
        reveal_strlit("filename");
    }
    let video_url = required_param(params, "video_url")?;
    let audio_url = required_param(params, "audio_url")?;
    let output = required_param(params, "output")?;
    let title = required_param(params, "title")?;
    let filename = required_param(params, "filename")?;
    let referer = text_param(params, "referer");
    let user_agent = text_param(params, "user_agent");
    Ok(DashTemplates { video_url, audio_url, output, title, filename, referer, user_agent })
}

/// Whether a file name is a plain name: not empty, no `/`, `\` or `..`.
pub open spec fn simple_file_name(f: Seq<char>) -> bool {
    f.len() > 0 && !contains(f, "/"@) && !contains(f, "\\"@) && !contains(f, ".."@)
}

/// What `dash-mux` refuses before fetching anything: URLs that are not
/// plain HTTP(S), then a file name that is not plain.
pub open spec fn dash_inputs_error(video_url: Seq<char>, audio_url: Seq<char>, filename: Seq<char>) -> Option<Seq<char>> {
    if !direct_http(video_url) || !direct_http(audio_url) {
        Some("dash-mux requires direct HTTP(S) video and audio URLs"@)
    } else if !simple_file_name(filename) {
        Some("dash-mux filename must be a simple file name"@)
    } else {
        None
    }
}

/// Checks the rendered URLs and file name of a `dash-mux` step.
pub fn check_dash_inputs(video_url: &str, audio_url: &str, filename: &str) -> (r: Result<(), CliError>)
    ensures
        match dash_inputs_error(video_url@, audio_url@, filename@) {
            Some(msg) => r matches Err(e) && e is Argument && message_of(e) == msg,
            None => r is Ok,
        },
{
    if !is_direct_http_url(video_url) || !is_direct_http_url(audio_url) {
        return Err(CliError::argument("dash-mux requires direct HTTP(S) video and audio URLs"));
    }
    if filename.unicode_len() == 0 || str_contains(filename, "/") || str_contains(filename, "\\")
        || str_contains(filename, "..") {
        return Err(CliError::argument("dash-mux filename must be a simple file name"));
    }
    Ok(())
}

/// The files `dash-mux` writes in the output directory: the result, then
/// the hidden partial video, audio and muxed files.
pub open spec fn dash_files_of(f: Seq<char>) -> (Seq<char>, Seq<char>, Seq<char>, Seq<char>) {
    (f + ".mp4"@, "."@ + f + ".video.m4s.part"@, "."@ + f + ".audio.m4s.part"@, "."@ + f + ".mux.part.mp4"@)
}

/// The file names of a `dash-mux` result and its partial files.
pub fn dash_files(filename: &str) -> (r: (String, String, String, String))
    ensures
        (r.0@, r.1@, r.2@, r.3@) == dash_files_of(filename@),
{
    proof {
        reveal_strlit("");
    }
    (
        concat3("", filename, ".mp4"),
        concat3(".", filename, ".video.m4s.part"),
        concat3(".", filename, ".audio.m4s.part"),
        concat3(".", filename, ".mux.part.mp4"),
    )
}

/// ffmpeg's arguments: overwrite, both inputs, copy the streams, move the
/// index to the front, write the muxed file.
pub open spec fn ffmpeg_args_of(video: Seq<char>, audio: Seq<char>, muxed: Seq<char>) -> Seq<Seq<char>> {
    seq!["-y"@, "-i"@, video, "-i"@, audio, "-c"@, "copy"@, "-movflags"@, "+faststart"@, muxed]
}

/// The arguments ffmpeg muxes the two streams with.
pub fn ffmpeg_mux_args(video: &str, audio: &str, muxed: &str) -> (r: Vec<String>)
    ensures
        texts(r@) == ffmpeg_args_of(video@, audio@, muxed@),
{
    let mut v: Vec<String> = Vec::new();
    v.push(String::from_str("-y"));
    v.push(String::from_str("-i"));
    v.push(video.to_owned());
    v.push(String::from_str("-i"));
    v.push(audio.to_owned());
    v.push(String::from_str("-c"));
    v.push(String::from_str("copy"));
    v.push(String::from_str("-movflags"));
    v.push(String::from_str("+faststart"));
    v.push(muxed.to_owned());
    assert(texts(v@) =~= ffmpeg_args_of(video@, audio@, muxed@));
    v
}

} // verus!
