use opencli::download::{
    annotate_download, download_mode, file_name_of_url, finish_media_batch, is_direct_http_url,
    media_extension, media_file_name, media_metadata_markdown, plan_media_item, redact_source_url,
    unsupported_media_status, DownloadMode, MediaPlan,
};
use opencli::article::{article_plan, ArticlePlan, ArticleRendered};
use opencli::error::CliError;
use opencli::helpers::{
    builtin_helper, current_helper_root, helper_search_root, set_helper_root, BuiltinHelper,
    HelperRoot,
};
use opencli::json::{get_field, JsonNumber, JsonValue};
use opencli::kv::KvFile;
use opencli::kv_steps::{is_empty_value, kv_get_params};
use opencli::page_steps::{collect_script, evaluate_request, evaluate_script, scroll_settings};
use opencli::navigate::{navigate_request, navigation_needed, same_document_url};
use opencli::steps::{
    register_browser_steps, register_download_steps, register_kv_steps, CollectStep, DashMuxStep,
    DownloadStep, EvaluateStep, KvGetStep, KvSetStep, NavigateStep, ScrollStep, StepKind,
    StepRegistry, WaitStep,
};

fn text(s: &str) -> JsonValue {
    JsonValue::String(s.to_string())
}

fn obj(fields: Vec<(&str, JsonValue)>) -> JsonValue {
    JsonValue::Object(fields.into_iter().map(|(k, v)| (k.to_string(), v)).collect())
}

fn text_of(v: Option<&JsonValue>) -> Option<String> {
    match v {
        Some(JsonValue::String(s)) => Some(s.clone()),
        _ => None,
    }
}

fn pipeline_message(e: CliError) -> String {
    match e {
        CliError::Pipeline { message, .. } => message,
        other => panic!("expected a pipeline error, got {:?}", other),
    }
}

#[test]
fn test_download_is_browser_step() {
    assert!(DownloadStep.is_browser_step());
}

#[test]
fn media_batch_uses_content_type_or_url_for_extension() {
    assert_eq!(
        media_extension("https://cdn.example/image", Some("image/webp"), "image"),
        "webp"
    );
    assert_eq!(
        media_extension("https://cdn.example/video.mp4", None, "video"),
        "mp4"
    );
}

#[test]
fn media_extension_checks_kinds_in_order() {
    assert_eq!(media_extension("https://a/x.PNG", None, "image"), "png");
    assert_eq!(media_extension("https://a/x", Some("IMAGE/AVIF"), "image"), "avif");
    assert_eq!(media_extension("https://a/x.gif", Some("image/png"), "image"), "png");
    assert_eq!(media_extension("https://a/x.jpeg", None, "video"), "jpg");
    assert_eq!(media_extension("https://a/x", Some("video/webm"), "video"), "webm");
    assert_eq!(media_extension("https://a/x", None, "image"), "jpg");
}

#[test]
fn media_batch_rejects_browser_blob_urls_without_requesting_them() {
    assert!(!is_direct_http_url("blob:https://www.xiaohongshu.com/stream-id"));
    assert_eq!(
        unsupported_media_status("blob:https://www.xiaohongshu.com/stream-id", None),
        "unsupported: browser blob/MSE stream"
    );
}

#[test]
fn unsupported_status_prefers_the_given_reason() {
    assert_eq!(unsupported_media_status("blob:x", Some("drm")), "unsupported: drm");
    assert_eq!(
        unsupported_media_status("https://a/v.m3u8", Some("  ")),
        "unsupported: HLS stream"
    );
    assert_eq!(
        unsupported_media_status("ftp://a/v.mp4", None),
        "unsupported: non-HTTP media URL"
    );
}

#[test]
fn direct_urls_are_http_or_https() {
    assert!(is_direct_http_url("https://cdn.example/a.jpg"));
    assert!(is_direct_http_url("http://cdn.example/a.jpg"));
    assert!(!is_direct_http_url("ftp://cdn.example/a.jpg"));
    assert!(!is_direct_http_url("not a url"));
}

#[test]
fn media_files_are_numbered_with_three_digits() {
    assert_eq!(media_file_name("user", 1, "jpg"), "user_001.jpg");
    assert_eq!(media_file_name("user", 42, "mp4"), "user_042.mp4");
    assert_eq!(media_file_name("user", 1234, "png"), "user_1234.png");
}

#[test]
fn download_modes_follow_tool_then_type() {
    let m = |p: JsonValue| download_mode(&p);
    assert_eq!(m(obj(vec![("tool", text("yt-dlp")), ("type", text("article"))])), DownloadMode::YtDlp);
    assert_eq!(m(obj(vec![("type", text("article"))])), DownloadMode::Article);
    assert_eq!(m(obj(vec![("type", text("base64"))])), DownloadMode::Base64);
    assert_eq!(m(obj(vec![("type", text("base64-batch"))])), DownloadMode::Base64Batch);
    assert_eq!(m(obj(vec![("type", text("twitter-media"))])), DownloadMode::MediaBatch);
    assert_eq!(m(obj(vec![("type", text("media-batch"))])), DownloadMode::MediaBatch);
    assert_eq!(m(obj(vec![])), DownloadMode::Annotate);
    assert_eq!(m(JsonValue::Null), DownloadMode::Annotate);
}

#[test]
fn test_download_with_url_in_params() {
    let params = obj(vec![("type", text("media")), ("url", text("https://example.com/video.mp4"))]);
    let result = annotate_download(&params, &JsonValue::Null);
    assert_eq!(text_of(get_field(&result, "download_url")).as_deref(), Some("https://example.com/video.mp4"));
    assert_eq!(text_of(get_field(&result, "download_path")).as_deref(), Some("video.mp4"));
    assert_eq!(text_of(get_field(&result, "download_type")).as_deref(), Some("media"));
    assert_eq!(text_of(get_field(&result, "download_status")).as_deref(), Some("pending"));
}

#[test]
fn test_download_with_url_in_data() {
    let params = obj(vec![("type", text("article"))]);
    let data = obj(vec![("url", text("https://example.com/article.pdf")), ("title", text("Test"))]);
    assert!(matches!(download_mode(&params), DownloadMode::Article));
    let rendered = ArticleRendered { title: None, output: None, filename: None, content: None };
    let result = match article_plan(&params, &data, rendered) {
        ArticlePlan::Empty(record) => record,
        ArticlePlan::Save(q) => panic!("nothing to save, yet {:?}", q),
    };
    assert_eq!(text_of(get_field(&result, "status")).as_deref(), Some("failed"));
    assert_eq!(text_of(get_field(&result, "size")).as_deref(), Some("No content to save"));
    assert_eq!(text_of(get_field(&result, "download_url")).as_deref(), Some("https://example.com/article.pdf"));
    assert_eq!(text_of(get_field(&result, "download_path")).as_deref(), Some("article.pdf"));
    assert_eq!(text_of(get_field(&result, "download_type")).as_deref(), Some("article"));
    assert_eq!(text_of(get_field(&result, "title")).as_deref(), Some("Test"));
}

#[test]
fn test_download_no_url() {
    let result = annotate_download(&JsonValue::Null, &JsonValue::Null);
    assert_eq!(text_of(get_field(&result, "download_status")).as_deref(), Some("pending"));
    assert!(get_field(&result, "download_url").is_none());
}

#[test]
fn url_file_names_drop_the_query() {
    assert_eq!(file_name_of_url("https://a.example/x/y/clip.mp4?sig=1"), "clip.mp4");
    assert_eq!(file_name_of_url("plain"), "plain");
    assert_eq!(file_name_of_url("https://a.example/dir/"), "");
}

#[test]
fn media_items_are_planned_by_type_and_url() {
    match plan_media_item(&obj(vec![("type", text("image")), ("url", text("https://a/x.jpg"))])) {
        MediaPlan::Direct { media_type, url } => {
            assert_eq!(media_type, "image");
            assert_eq!(url, "https://a/x.jpg");
        }
        other => panic!("unexpected {:?}", other),
    }
    match plan_media_item(&obj(vec![("type", text("video")), ("url", text("blob:https://a/1"))])) {
        MediaPlan::Unsupported { media_type, status } => {
            assert_eq!(media_type, "video");
            assert_eq!(status, "unsupported: browser blob/MSE stream");
        }
        other => panic!("unexpected {:?}", other),
    }
    match plan_media_item(&obj(vec![("type", text("video-tweet")), ("url", text("https://t/1"))])) {
        MediaPlan::TweetVideo { url } => assert_eq!(url, "https://t/1"),
        other => panic!("unexpected {:?}", other),
    }
    assert!(matches!(plan_media_item(&obj(vec![("type", text("image"))])), MediaPlan::Skip));
    assert!(matches!(
        plan_media_item(&obj(vec![("type", text("audio")), ("url", text("https://a/x"))])),
        MediaPlan::Skip
    ));
}

#[test]
fn source_urls_lose_their_secret_query_keys() {
    let redacted = redact_source_url(
        "https://www.xiaohongshu.com/explore/abc?xsec_token=secret&xsec_source=pc_feed",
    );
    assert!(redacted.contains("xsec_source=pc_feed"));
    assert!(!redacted.contains("xsec_token"));
    assert!(!redacted.contains("secret"));
    assert_eq!(redact_source_url("not a url"), "not a url");
}

#[test]
fn metadata_redacts_xsec_token_and_lists_media() {
    let data = obj(vec![
        ("title", text("Example note")),
        ("author", text("author")),
        ("content", text("正文内容")),
        ("noteType", text("normal")),
        (
            "sourceUrl",
            text("https://www.xiaohongshu.com/explore/abc?xsec_token=secret&xsec_source=pc_feed"),
        ),
    ]);
    let results = vec![obj(vec![
        ("type", text("image")),
        ("status", text("ok")),
        ("path", text("abc_001.webp")),
    ])];
    let markdown = media_metadata_markdown(&data, &results);
    assert!(markdown.contains("正文内容"));
    assert!(markdown.contains("`abc_001.webp`"));
    assert!(markdown.contains("xsec_source=pc_feed"));
    assert!(!markdown.contains("xsec_token"));
}

#[test]
fn metadata_note_has_defaults_and_status_lines() {
    let data = obj(vec![("title", text("  ")), ("desc", text("  body  "))]);
    let results = vec![obj(vec![("status", text("failed"))])];
    let markdown = media_metadata_markdown(&data, &results);
    assert_eq!(
        markdown,
        "# untitled\n\n- 作者：unknown\n\n## 正文\n\nbody\n\n## 媒体\n\n- media：failed\n"
    );
}

#[test]
fn empty_media_batches_report_no_media() {
    match finish_media_batch(vec![]) {
        JsonValue::Array(items) => {
            assert_eq!(items.len(), 1);
            assert_eq!(text_of(get_field(&items[0], "status")).as_deref(), Some("no media"));
        }
        other => panic!("unexpected {:?}", other),
    }
    match finish_media_batch(vec![text("x")]) {
        JsonValue::Array(items) => assert_eq!(items.len(), 1),
        other => panic!("unexpected {:?}", other),
    }
}

#[test]
fn test_all_browser_steps_register() {
    let mut registry = StepRegistry::new();
    register_browser_steps(&mut registry);
    assert!(registry.get("navigate").is_some());
    assert!(registry.get("wait").is_some());
    assert!(registry.get("evaluate").is_some());
    assert!(registry.get("scroll").is_some());
    assert_eq!(registry.get("bg_fetch"), Some(StepKind::BgFetch));
    assert!(registry.get("download").is_none());
}

#[test]
fn test_download_step_registers() {
    let mut registry = StepRegistry::new();
    register_download_steps(&mut registry);
    assert!(registry.get("download").is_some());
    assert_eq!(registry.get("dash-mux"), Some(StepKind::DashMux));
}

#[test]
fn registering_again_replaces_the_step() {
    let mut registry = StepRegistry::new();
    register_kv_steps(&mut registry);
    register_kv_steps(&mut registry);
    assert_eq!(registry.get("kv_get"), Some(StepKind::KvGet));
    assert_eq!(registry.get("kv_set"), Some(StepKind::KvSet));
    assert_eq!(registry.get("navigate"), None);
}

#[test]
fn test_all_browser_steps_are_browser_steps() {
    assert!(NavigateStep.is_browser_step());
    assert!(WaitStep.is_browser_step());
    assert!(EvaluateStep.is_browser_step());
    assert!(ScrollStep.is_browser_step());
    assert!(CollectStep.is_browser_step());
    assert!(!DashMuxStep.is_browser_step());
    assert!(!KvGetStep.is_browser_step());
    assert_eq!(KvSetStep.name(), "kv_set");
    assert_eq!(DashMuxStep.name(), "dash-mux");
}

#[test]
fn builtin_helpers_are_found_by_their_names() {
    assert_eq!(builtin_helper("wbi"), Some(BuiltinHelper::Wbi));
    assert_eq!(builtin_helper(" bilibili/wbi.js "), Some(BuiltinHelper::Wbi));
    assert_eq!(builtin_helper("zhihu_fetch.js.js"), Some(BuiltinHelper::ZhihuFetch));
    assert_eq!(builtin_helper("xiaohongshu/pinia-wait"), Some(BuiltinHelper::PiniaWait));
    assert_eq!(builtin_helper("unknown"), None);
    assert_eq!(BuiltinHelper::Wbi.file_name(), "wbi.js");
}

#[test]
fn helper_root_is_set_and_cleared() {
    let mut slot = HelperRoot::new();
    assert_eq!(current_helper_root(&slot), None);
    set_helper_root(&mut slot, Some("/plugins/site".to_string()));
    assert_eq!(current_helper_root(&slot).as_deref(), Some("/plugins/site"));
    set_helper_root(&mut slot, None);
    assert_eq!(current_helper_root(&slot), None);
    let dir = "/a/b".to_string();
    assert_eq!(helper_search_root(Some(&dir)).as_deref(), Some("/a/b"));
    assert_eq!(helper_search_root(None), None);
}

#[test]
fn empty_values_for_kv_steps() {
    assert!(is_empty_value(&JsonValue::Null));
    assert!(is_empty_value(&text("  ")));
    assert!(is_empty_value(&JsonValue::Array(vec![])));
    assert!(is_empty_value(&obj(vec![])));
    assert!(!is_empty_value(&JsonValue::Bool(false)));
    assert!(!is_empty_value(&JsonValue::Number(JsonNumber::PosInt(0))));
    assert!(!is_empty_value(&text("x")));
}

#[test]
fn kv_get_params_accept_a_key_string_or_object() {
    let p = kv_get_params(&text("site:me")).unwrap();
    assert_eq!(text_of(get_field(&p, "key")).as_deref(), Some("site:me"));
    let e = kv_get_params(&JsonValue::Bool(true)).unwrap_err();
    assert_eq!(pipeline_message(e), "kv_get: params must be a key string or object");
}

#[test]
fn kv_get_merges_field_only_if_empty() {
    let mut store = KvFile::new();
    let setter = KvSetStep;
    let params = obj(vec![("key", text("k"))]);
    setter
        .execute(&params, &text("from-kv"), Some("test:kv_get".to_string()), None, None, &mut store, 100)
        .unwrap();

    let step = KvGetStep;
    let params = obj(vec![
        ("key", text("test:kv_get")),
        ("field", text("userId")),
        ("only_if_empty", JsonValue::Bool(true)),
    ]);
    let data = obj(vec![("userId", text("already"))]);
    let out = step
        .execute(&params, &data, Some("test:kv_get".to_string()), None, &mut store, 100)
        .unwrap();
    assert_eq!(text_of(get_field(&out, "userId")).as_deref(), Some("already"));

    let data2 = obj(vec![("userId", text(""))]);
    let out2 = step
        .execute(&params, &data2, Some("test:kv_get".to_string()), None, &mut store, 100)
        .unwrap();
    assert_eq!(text_of(get_field(&out2, "userId")).as_deref(), Some("from-kv"));
}

#[test]
fn kv_get_defaults_requires_and_wraps_data() {
    let mut store = KvFile::new();
    let step = KvGetStep;
    let plain = obj(vec![("key", text("missing"))]);
    let out = step
        .execute(&plain, &JsonValue::Null, Some("missing".to_string()), None, &mut store, 1)
        .unwrap();
    assert!(matches!(out, JsonValue::Null));
    let out = step
        .execute(&plain, &JsonValue::Null, Some("missing".to_string()), Some(text("d")), &mut store, 1)
        .unwrap();
    assert_eq!(text_of(Some(&out)).as_deref(), Some("d"));
    let required = obj(vec![("key", text("missing")), ("required", JsonValue::Bool(true))]);
    let e = step
        .execute(&required, &JsonValue::Null, Some("missing".to_string()), None, &mut store, 1)
        .unwrap_err();
    assert_eq!(pipeline_message(e), "kv_get: key 'missing' not found");
    let e = step
        .execute(&plain, &JsonValue::Null, Some("  ".to_string()), None, &mut store, 1)
        .unwrap_err();
    assert_eq!(pipeline_message(e), "kv_get: missing key");
    let into = obj(vec![("key", text("missing")), ("field", text(" f "))]);
    let out = step
        .execute(&into, &text("raw"), Some("missing".to_string()), Some(text("d")), &mut store, 1)
        .unwrap();
    assert_eq!(text_of(get_field(&out, "_data")).as_deref(), Some("raw"));
    assert_eq!(text_of(get_field(&out, "f")).as_deref(), Some("d"));
}

#[test]
fn kv_set_skips_empty_values_and_checks_params() {
    let mut store = KvFile::new();
    let step = KvSetStep;
    let params = obj(vec![("key", text("k"))]);
    let out = step
        .execute(&params, &text("  "), Some("k".to_string()), None, None, &mut store, 5)
        .unwrap();
    assert_eq!(text_of(Some(&out)).as_deref(), Some("  "));
    assert_eq!(store.entries.len(), 0);
    let e = step
        .execute(&text("k"), &JsonValue::Null, Some("k".to_string()), None, None, &mut store, 5)
        .unwrap_err();
    assert_eq!(pipeline_message(e), "kv_set: params must be an object with key/value");
    let e = step
        .execute(&params, &JsonValue::Null, None, None, None, &mut store, 5)
        .unwrap_err();
    assert_eq!(pipeline_message(e), "kv_set: missing key");
    let out = step
        .execute(&params, &text("data"), Some("k".to_string()), Some(text("v")), Some("1m".to_string()), &mut store, 5)
        .unwrap();
    assert_eq!(text_of(Some(&out)).as_deref(), Some("data"));
    assert_eq!(store.entries.len(), 1);
    assert_eq!(store.entries[0].1.expires_at, Some(65));
    let e = step
        .execute(&params, &JsonValue::Null, Some("k".to_string()), Some(text("v")), Some("5x".to_string()), &mut store, 5)
        .unwrap_err();
    assert_eq!(pipeline_message(e), "kv: invalid ttl unit in '5x' (use s/m/h/d)");
}

#[test]
fn navigate_params_are_read_from_a_string_or_object() {
    let r = navigate_request(&text("https://example.com")).unwrap();
    assert_eq!(r.url, "https://example.com");
    assert!(!r.reuse_current);
    let r = navigate_request(&obj(vec![
        ("url", text("https://www.xiaohongshu.com/explore")),
        ("waitUntil", text("commit")),
        ("reuseCurrent", JsonValue::Bool(true)),
        ("settleMs", JsonValue::Number(JsonNumber::PosInt(500))),
    ]))
    .unwrap();
    assert_eq!(r.wait_until.as_deref(), Some("commit"));
    assert!(r.reuse_current);
    assert_eq!(r.settle_ms, Some(500));
    assert_eq!(
        pipeline_message(navigate_request(&obj(vec![])).unwrap_err()),
        "navigate object requires 'url' field"
    );
    assert_eq!(
        pipeline_message(navigate_request(&obj(vec![("url", JsonValue::Bool(true))])).unwrap_err()),
        "navigate 'url' must be a string"
    );
    assert_eq!(
        pipeline_message(navigate_request(&JsonValue::Null).unwrap_err()),
        "navigate expects a string URL or {url, settleMs} object"
    );
}

#[test]
fn navigate_step_reuses_the_exact_cached_route() {
    assert!(same_document_url("https://www.xiaohongshu.com/explore", "https://www.xiaohongshu.com/explore"));
    assert!(same_document_url("https://EXAMPLE.com", "https://example.com/"));
    assert!(!same_document_url("https://example.com/a", "https://example.com/b"));
    assert!(same_document_url("not a url", "not a url"));
    assert!(!navigation_needed(true, "https://www.xiaohongshu.com/explore", "https://www.xiaohongshu.com/explore"));
    assert!(navigation_needed(false, "https://www.xiaohongshu.com/explore", "https://www.xiaohongshu.com/explore"));
}

#[test]
fn test_evaluate_step_params() {
    let (js, dump) = evaluate_request(&text("document.title")).unwrap();
    assert_eq!(js, "document.title");
    assert!(dump.is_none());
    let (js, dump) = evaluate_request(&obj(vec![("code", text("1 + 1")), ("format", text("raw"))])).unwrap();
    assert_eq!(js, "1 + 1");
    assert_eq!(dump.as_deref(), Some("./data/raw_{ts}.json"));
    let (js, dump) = evaluate_request(&obj(vec![("js", text("x()")), ("format", text("raw")), ("path", text("/tmp/d.json"))])).unwrap();
    assert_eq!(js, "x()");
    assert_eq!(dump.as_deref(), Some("/tmp/d.json"));
    assert_eq!(
        pipeline_message(evaluate_request(&obj(vec![("format", JsonValue::Bool(true))])).unwrap_err()),
        "evaluate: object form requires a js code string"
    );
    assert_eq!(
        pipeline_message(evaluate_request(&JsonValue::Null).unwrap_err()),
        "evaluate: params must be a string or {js?, format?, path?} object"
    );
    assert_eq!(
        evaluate_script(&obj(vec![]), &JsonValue::Null, "1 + 1"),
        "(function() { const args = {}; const data = null; return (1 + 1); })()"
    );
}

#[test]
fn article_plans_save_text_with_defaults() {
    let params = obj(vec![("type", text("article")), ("filename", text("{{ item.slug }}.md"))]);
    let data = obj(vec![
        ("url", text("https://example.com/p/9")),
        ("author", text("Ann")),
        ("content", text("# Hi")),
    ]);
    let rendered = ArticleRendered { title: None, output: None, filename: Some("hi.md".into()), content: None };
    match article_plan(&params, &data, rendered) {
        ArticlePlan::Save(q) => {
            assert_eq!(q.title, "article");
            assert_eq!(q.author, "Ann");
            assert_eq!(q.output, "./articles");
            assert_eq!(q.filename, "hi.md");
            assert_eq!(q.download_path, "hi.md");
            assert_eq!(q.content, "# Hi");
        }
        ArticlePlan::Empty(r) => panic!("unexpected {:?}", r),
    }
}

#[test]
fn collect_scripts_write_the_args_as_json() {
    let js = collect_script(
        &obj(vec![("parse", text("(r) => r"))]),
        &obj(vec![("limit", JsonValue::Number(JsonNumber::PosInt(3))), ("q", text("a b"))]),
    )
    .unwrap();
    assert!(js.starts_with("(() => {\n  const args = {\"limit\":3,\"q\":\"a b\"};"));
}

#[test]
fn scroll_and_collect_settings() {
    assert_eq!(scroll_settings(&JsonValue::Number(JsonNumber::PosInt(5))), (5, 300));
    assert_eq!(scroll_settings(&JsonValue::Number(JsonNumber::PosInt(4_294_967_297))), (1, 300));
    assert_eq!(scroll_settings(&obj(vec![("count", JsonValue::Number(JsonNumber::PosInt(7))), ("delay", JsonValue::Number(JsonNumber::PosInt(50)))])), (7, 50));
    assert_eq!(scroll_settings(&obj(vec![])), (3, 300));
    assert_eq!(scroll_settings(&JsonValue::Null), (3, 300));
    let js = collect_script(&obj(vec![("parse", text("(r) => r.length"))]), &obj(vec![])).unwrap();
    assert!(js.contains("const parseFn = (r) => r.length;"));
    assert!(js.starts_with("(() => {\n  const args = {};"));
    assert_eq!(
        pipeline_message(collect_script(&obj(vec![]), &obj(vec![("limit", JsonValue::Number(JsonNumber::PosInt(3)))])).unwrap_err()),
        "collect step requires a 'parse' field with a JS function"
    );
}
