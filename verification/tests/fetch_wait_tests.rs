use opencli::bg_fetch::{
    bg_fetch_request, context_load_needed, fetch_init, next_route, same_origin_script, FetchRoute,
};
use opencli::error::CliError;
use opencli::json::{get_field, JsonNumber, JsonValue};
use opencli::page_steps::{wait_request, wait_text_script, WaitRequest};

fn text(s: &str) -> JsonValue {
    JsonValue::String(s.to_string())
}

fn obj(fields: Vec<(&str, JsonValue)>) -> JsonValue {
    JsonValue::Object(fields.into_iter().map(|(k, v)| (k.to_string(), v)).collect())
}

fn pipeline_message(e: CliError) -> String {
    match e {
        CliError::Pipeline { message, .. } => message,
        other => panic!("not a pipeline error: {:?}", other),
    }
}

#[test]
fn wait_step_with_number_waits_seconds() {
    let w = wait_request(&JsonValue::Number(JsonNumber::PosInt(1000))).unwrap();
    assert!(matches!(w, WaitRequest::Seconds(Some(JsonNumber::PosInt(1000)))));
}

#[test]
fn wait_step_object_forms() {
    let w = wait_request(&obj(vec![("time", JsonValue::Number(JsonNumber::Float("0.5".into())))])).unwrap();
    assert!(matches!(w, WaitRequest::Seconds(Some(JsonNumber::Float(ref t))) if t == "0.5"));
    let w = wait_request(&obj(vec![("time", text("soon"))])).unwrap();
    assert!(matches!(w, WaitRequest::Seconds(None)));
    let w = wait_request(&obj(vec![("selector", text("#feed")), ("text", text("x"))])).unwrap();
    assert!(matches!(w, WaitRequest::Selector(ref s) if s == "#feed"));
    let w = wait_request(&obj(vec![("text", text("Loaded"))])).unwrap();
    assert!(matches!(w, WaitRequest::Text(ref s) if s == "Loaded"));
}

#[test]
fn wait_step_rejects_bad_params() {
    let e = wait_request(&obj(vec![("selector", JsonValue::Bool(true))])).unwrap_err();
    assert_eq!(pipeline_message(e), "wait: 'selector' must be a string");
    let e = wait_request(&obj(vec![("text", JsonValue::Null)])).unwrap_err();
    assert_eq!(pipeline_message(e), "wait: 'text' must be a string");
    let e = wait_request(&obj(vec![("delay", text("1"))])).unwrap_err();
    assert_eq!(pipeline_message(e), "wait: object must have 'time', 'selector', or 'text'");
    let e = wait_request(&text("2")).unwrap_err();
    assert_eq!(pipeline_message(e), "wait: params must be a number or object");
}

#[test]
fn wait_text_script_embeds_the_text() {
    let s = wait_text_script("Done");
    assert!(s.starts_with("new Promise((resolve, reject) => {\n"));
    assert!(s.contains("document.body.innerText.includes(\"Done\")) {"));
    assert!(s.contains("30000"));
    assert!(s.ends_with("check();\n                        })"));
}

#[test]
fn bg_fetch_reads_its_params() {
    let params = obj(vec![
        ("url", text("https://www.zhihu.com/api/v3/feed")),
        ("cookie_url", text("https://www.zhihu.com")),
        ("method", text("POST")),
        (
            "headers",
            obj(vec![("X-A", text("1")), ("X-N", JsonValue::Number(JsonNumber::PosInt(2)))]),
        ),
        ("body", text("{}")),
        ("same_origin", JsonValue::Bool(true)),
    ]);
    let q = bg_fetch_request(
        &params,
        Some("https://www.zhihu.com/api/v3/feed".into()),
        Some("https://www.zhihu.com".into()),
    )
    .unwrap();
    assert_eq!(q.context_url(), "https://www.zhihu.com");
    assert_eq!(q.method.as_deref(), Some("POST"));
    assert_eq!(q.headers, Some(vec![("X-A".to_string(), "1".to_string())]));
    assert_eq!(q.body.as_deref(), Some("{}"));
    assert!(q.same_origin);
    assert_eq!(next_route(&q, None), Some(FetchRoute::SamePage));
    assert_eq!(next_route(&q, Some(FetchRoute::SamePage)), None);
}

#[test]
fn bg_fetch_falls_back_to_the_page() {
    let params = obj(vec![("url", text("https://example.com/api")), ("same_origin", text("yes"))]);
    let q = bg_fetch_request(&params, Some("https://example.com/api".into()), None).unwrap();
    assert_eq!(q.context_url(), "https://example.com/api");
    assert!(!q.same_origin);
    assert!(q.headers.is_none());
    assert_eq!(next_route(&q, None), Some(FetchRoute::Background));
    assert_eq!(next_route(&q, Some(FetchRoute::Background)), Some(FetchRoute::SamePage));
}

#[test]
fn bg_fetch_needs_a_url() {
    let e = bg_fetch_request(&obj(vec![("method", text("GET"))]), None, None).unwrap_err();
    assert_eq!(pipeline_message(e), "bg_fetch: missing required field 'url'");
}

#[test]
fn same_origin_fetch_reuses_any_route_on_the_same_origin() {
    assert!(!context_load_needed(
        "https://www.zhihu.com/question/123",
        "https://www.zhihu.com"
    ));
    assert!(!context_load_needed("https://example.com:443/a", "https://example.com/b"));
    assert!(context_load_needed("https://example.com/a", "https://example.com:8443/a"));
    assert!(context_load_needed("about:blank", "https://www.zhihu.com"));
    assert!(context_load_needed("data:text/plain,x", "data:text/plain,x"));
    assert!(!context_load_needed("", "not a url"));
}

#[test]
fn fetch_init_sends_credentials() {
    let params = obj(vec![("url", text("https://a.b/c"))]);
    let q = bg_fetch_request(&params, Some("https://a.b/c".into()), None).unwrap();
    let init = fetch_init(&q);
    assert!(matches!(get_field(&init, "method"), Some(JsonValue::String(m)) if m == "GET"));
    assert!(matches!(get_field(&init, "credentials"), Some(JsonValue::String(c)) if c == "include"));
    assert!(matches!(get_field(&init, "body"), Some(JsonValue::Null)));
    assert!(matches!(get_field(&init, "headers"), Some(JsonValue::Object(h)) if h.is_empty()));
    let s = same_origin_script("https://a.b/c", &obj(vec![]));
    assert!(s.starts_with("(async () => {\n  const response = await fetch(\"https://a.b/c\", {});\n"));
    assert!(s.ends_with("return { status: response.status, body };\n})()"));
}
