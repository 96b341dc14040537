use opencli::article::{
    article_download_path, article_image_urls, image_extension, image_fetch_url, image_file_name,
    localize_image, unique_image_urls,
};
use opencli::base64_save::{
    base64_file_name, base64_passthrough, base64_payload, base64_record, base64_save_dir,
    base64_source, batch_image, batch_images, decode_data_url, empty_base64_batch,
    finish_base64_batch, path_in, status_entry, BatchImage,
};
use opencli::calendar::format_log_date;
use opencli::dash::{check_dash_inputs, dash_files, dash_templates, ffmpeg_mux_args};
use opencli::download::{
    empty_media_batch, media_batch_options, media_items, media_record,
};
use opencli::entry_usage::usage_from_entry_json;
use opencli::error::CliError;
use opencli::json::{get_field, JsonNumber, JsonValue};
use opencli::ytdlp::{
    cookie_domain, netscape_cookies, safe_title, video_output_path, ytdlp_args, ytdlp_format,
};

fn text(s: &str) -> JsonValue {
    JsonValue::String(s.to_string())
}

fn obj(fields: Vec<(&str, JsonValue)>) -> JsonValue {
    JsonValue::Object(fields.into_iter().map(|(k, v)| (k.to_string(), v)).collect())
}

fn text_of(v: Option<&JsonValue>) -> Option<String> {
    match v {
        Some(JsonValue::String(s)) => Some(s.clone()),
        _ => None,
    }
}

fn message(e: CliError) -> String {
    match e {
        CliError::Pipeline { message, .. } => message,
        CliError::Argument { message, .. } => message,
        other => panic!("unexpected error {:?}", other),
    }
}

#[test]
fn video_titles_become_safe_file_names() {
    assert_eq!(safe_title("  My/Video: Part.1  ", true, 100), "My_Video_ Part.1");
    assert_eq!(safe_title("a.b", false, 80), "a_b");
    assert_eq!(safe_title("视频 标题", true, 100), "视频 标题");
    assert_eq!(safe_title("abcdef", true, 3), "abc");
    assert_eq!(video_output_path("./downloads", "clip"), "./downloads/clip.mp4");
}

#[test]
fn ytdlp_formats_by_quality() {
    assert_eq!(
        ytdlp_format("720p"),
        "bestvideo[height<=720][ext=mp4]+bestaudio[ext=m4a]/best[height<=720]"
    );
    assert_eq!(ytdlp_format("best"), "bestvideo[ext=mp4]+bestaudio[ext=m4a]/best[ext=mp4]/best");
}

#[test]
fn cookie_domains_keep_the_last_two_labels() {
    assert_eq!(cookie_domain("https://www.bilibili.com/video/BV1"), ".bilibili.com");
    assert_eq!(cookie_domain("http://localhost:8080/x"), ".localhost:8080");
    assert_eq!(cookie_domain("ftp://a.b.c/"), ".example.com");
}

#[test]
fn cookies_become_a_netscape_file() {
    assert_eq!(
        netscape_cookies(".example.com", "a=1; b = two ;broken; c=x=y"),
        "# Netscape HTTP Cookie File\n\
         .example.com\tTRUE\t/\tFALSE\t0\ta\t1\n\
         .example.com\tTRUE\t/\tFALSE\t0\tb\ttwo\n\
         .example.com\tTRUE\t/\tFALSE\t0\tc\tx=y\n"
    );
}

#[test]
fn ytdlp_command_lines() {
    let dry = ytdlp_args(true, "best", "https://v/1", "out.mp4", Some("UA"), None, Some("/tmp/c.txt"));
    assert_eq!(
        dry,
        vec!["--simulate", "--no-playlist", "-f", "best", "https://v/1", "--user-agent", "UA", "--cookies", "/tmp/c.txt"]
    );
    let real = ytdlp_args(false, "best", "https://v/1", "out.mp4", None, Some("https://ref"), None);
    assert_eq!(
        real,
        vec!["-f", "best", "--merge-output-format", "mp4", "--embed-thumbnail", "-o", "out.mp4", "--referer", "https://ref", "https://v/1"]
    );
}

#[test]
fn dash_mux_checks_params_urls_and_names() {
    let params = obj(vec![
        ("video_url", text("https://cdn/v.m4s")),
        ("audio_url", text("https://cdn/a.m4s")),
        ("output", text("./out")),
        ("title", text("T")),
        ("filename", text("clip")),
    ]);
    let t = dash_templates(&params).unwrap();
    assert_eq!(t.filename, "clip");
    assert!(t.referer.is_none());
    let missing = obj(vec![("video_url", text("https://cdn/v.m4s"))]);
    assert_eq!(message(dash_templates(&missing).unwrap_err()), "dash-mux: missing audio_url");
    assert_eq!(message(dash_templates(&text("x")).unwrap_err()), "dash-mux: params must be an object");
    assert!(check_dash_inputs("https://cdn/v", "https://cdn/a", "clip").is_ok());
    assert_eq!(
        message(check_dash_inputs("blob:x", "https://cdn/a", "clip").unwrap_err()),
        "dash-mux requires direct HTTP(S) video and audio URLs"
    );
    assert_eq!(
        message(check_dash_inputs("https://cdn/v", "https://cdn/a", "../clip").unwrap_err()),
        "dash-mux filename must be a simple file name"
    );
    assert!(check_dash_inputs("https://cdn/v", "https://cdn/a", "").is_err());
    let (out, v, a, m) = dash_files("clip");
    assert_eq!((out.as_str(), v.as_str(), a.as_str(), m.as_str()), ("clip.mp4", ".clip.video.m4s.part", ".clip.audio.m4s.part", ".clip.mux.part.mp4"));
    assert_eq!(
        ffmpeg_mux_args("v", "a", "m"),
        vec!["-y", "-i", "v", "-i", "a", "-c", "copy", "-movflags", "+faststart", "m"]
    );
}

#[test]
fn articles_name_their_download_and_images() {
    assert_eq!(article_download_path("post.md", "https://a/b/c.pdf"), "post.md");
    assert_eq!(article_download_path("article.md", "https://a/b/c.pdf"), "c.pdf");
    let data = obj(vec![(
        "imageUrls",
        JsonValue::Array(vec![text("//img/a.png"), JsonValue::Null, text("//img/a.png"), text("https://img/b.jpeg?x=1")]),
    )]);
    let urls = article_image_urls(&data);
    assert_eq!(urls, vec!["//img/a.png", "//img/a.png", "https://img/b.jpeg?x=1"]);
    let unique = unique_image_urls(&urls);
    assert_eq!(unique, vec!["//img/a.png", "https://img/b.jpeg?x=1"]);
    assert_eq!(image_fetch_url("//img/a.png"), "https://img/a.png");
    assert_eq!(image_fetch_url("https://img/a.png"), "https://img/a.png");
    assert_eq!(image_extension("https://mmbiz/x?wx_fmt=gif&tp=1"), "gif");
    assert_eq!(image_extension("https://img/b.jpeg?x=1"), "jpeg");
    assert_eq!(image_extension("https://img/b.toolong"), "jpg");
    assert_eq!(image_extension("https://img/noext"), "jpg");
    assert_eq!(image_file_name(3, "png"), "img_003.png");
    assert_eq!(
        localize_image("see ![](https://img/b.jpeg?x=1) and https://img/b.jpeg?x=1", "https://img/b.jpeg?x=1", "img_002.jpeg"),
        "see ![](images/img_002.jpeg) and images/img_002.jpeg"
    );
}

#[test]
fn base64_saves_decode_data_urls() {
    assert_eq!(base64_payload("data:image/png;base64,aGVsbG8="), "aGVsbG8=");
    assert_eq!(base64_payload("aGVsbG8="), "aGVsbG8=");
    assert_eq!(decode_data_url("data:text/plain;base64,aGVsbG8=").unwrap(), b"hello".to_vec());
    let e = decode_data_url("data:x;base64,@@@").unwrap_err();
    assert!(message(e).starts_with("base64 decode failed: "));
    let data = JsonValue::Array(vec![obj(vec![("response", text("data:,aGk=")), ("filename", text("x.png"))])]);
    assert_eq!(base64_source(None, &data).unwrap(), "data:,aGk=");
    assert_eq!(base64_source(Some("s".to_string()), &data).unwrap(), "s");
    assert_eq!(
        message(base64_source(None, &JsonValue::Array(vec![])).unwrap_err()),
        "download base64: no source data URL found"
    );
    assert!(base64_passthrough("[error] upstream").is_some());
    assert!(base64_passthrough("data:,x").is_none());
    assert_eq!(base64_save_dir(Some(String::new()), "/home/u"), "/home/u/Downloads");
    assert_eq!(base64_save_dir(Some("/tmp/o".to_string()), "/home/u"), "/tmp/o");
    assert_eq!(base64_file_name(None, &data, 7), "x.png");
    assert_eq!(base64_file_name(None, &JsonValue::Null, 7), "image_7.png");
    assert_eq!(path_in("/tmp/o", "x.png"), "/tmp/o/x.png");
    match base64_record("/tmp/o/x.png", "2 bytes") {
        JsonValue::Array(items) => assert_eq!(text_of(get_field(&items[0], "size")).as_deref(), Some("2 bytes")),
        other => panic!("unexpected {:?}", other),
    }
}

#[test]
fn base64_batches_report_each_image() {
    let data = obj(vec![(
        "images",
        JsonValue::Array(vec![
            obj(vec![("filename", text("a.png")), ("response", text("data:,aGk="))]),
            obj(vec![("filename", text("b.png"))]),
            obj(vec![("response", text("data:,%%%"))]),
        ]),
    )]);
    let images = batch_images(&data);
    assert_eq!(images.len(), 3);
    match batch_image(&images[0]) {
        BatchImage::Decoded { filename, bytes } => {
            assert_eq!(filename, "a.png");
            assert_eq!(bytes, b"hi".to_vec());
        }
        other => panic!("unexpected {:?}", other),
    }
    match batch_image(&images[1]) {
        BatchImage::Failed { record } => assert_eq!(text_of(get_field(&record, "size")).as_deref(), Some("No base64 data")),
        other => panic!("unexpected {:?}", other),
    }
    match batch_image(&images[2]) {
        BatchImage::Failed { record } => {
            assert_eq!(text_of(get_field(&record, "filename")).as_deref(), Some("image.png"));
            assert!(text_of(get_field(&record, "size")).unwrap().starts_with("Decode error: "));
        }
        other => panic!("unexpected {:?}", other),
    }
    let done = finish_base64_batch(&data, vec![status_entry("a.png", "ok", "2 bytes")]);
    assert!(get_field(&done, "images").is_some());
    assert!(get_field(&done, "download_results").is_some());
    let none = finish_base64_batch(&JsonValue::Null, vec![]);
    match get_field(&none, "download_results") {
        Some(JsonValue::Array(items)) => assert_eq!(text_of(get_field(&items[0], "status")).as_deref(), Some("no images")),
        other => panic!("unexpected {:?}", other),
    }
    match empty_base64_batch(&obj(vec![])) {
        JsonValue::Array(items) => assert_eq!(
            text_of(get_field(&items[0], "size")).as_deref(),
            Some("No images to download. Data structure: {}")
        ),
        other => panic!("unexpected {:?}", other),
    }
}

#[test]
fn media_batches_read_options_and_items() {
    let o = media_batch_options(&obj(vec![("username", text("u")), ("save_metadata", JsonValue::Bool(true))]));
    assert_eq!(o.output_dir, "./downloads");
    assert_eq!(o.prefix, "u");
    assert!(o.save_metadata);
    assert_eq!(o.metadata_filename, "note.md");
    assert!(media_items(&JsonValue::Null).is_empty());
    assert_eq!(media_items(&obj(vec![("items", JsonValue::Array(vec![text("x")]))])).len(), 1);
    assert!(empty_media_batch(&JsonValue::Array(vec![])).is_ok());
    assert_eq!(
        message(empty_media_batch(&JsonValue::Null).unwrap_err()),
        "download: no media items to download (upstream step produced an empty items list)"
    );
    let r = media_record(2, "image", "ok", "1.0 KB", Some("u_002.jpg"));
    assert_eq!(text_of(get_field(&r, "path")).as_deref(), Some("u_002.jpg"));
    match get_field(&r, "index") {
        Some(JsonValue::Number(JsonNumber::PosInt(2))) => {}
        other => panic!("unexpected {:?}", other),
    }
}

#[test]
fn entry_usage_lines() {
    let entry = obj(vec![
        ("full_name", text("bilibili hot")),
        (
            "args",
            JsonValue::Array(vec![
                obj(vec![("name", text("query")), ("positional", JsonValue::Bool(true)), ("required", JsonValue::Bool(true))]),
                obj(vec![("name", text("limit")), ("default", JsonValue::Number(JsonNumber::PosInt(20)))]),
                obj(vec![("name", text("sort")), ("default", text("hot"))]),
                obj(vec![("name", text("token")), ("required", JsonValue::Bool(true))]),
                obj(vec![("positional", JsonValue::Bool(true))]),
            ]),
        ),
    ]);
    assert_eq!(
        usage_from_entry_json(&entry),
        "opencli bilibili hot <query> [<arg>] [--limit=20] [--sort=hot] --token <value>"
    );
    assert_eq!(usage_from_entry_json(&obj(vec![])), "opencli ?");
}

#[test]
fn log_dates_are_utc_calendar_days() {
    assert_eq!(format_log_date(0), "19700101");
    assert_eq!(format_log_date(86399), "19700101");
    assert_eq!(format_log_date(951782400), "20000229");
    assert_eq!(format_log_date(1700000000), "20231114");
    assert_eq!(format_log_date(4102444800), "21000101");
    assert_eq!(format_log_date(253402300799), "99991231");
    assert_eq!(format_log_date(253402300800), "100000101");
}
