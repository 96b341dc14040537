use opencli::adapter_yaml::{adapter_fields, needs_browser, parse_args};
use opencli::batch::{
    field_str, item_kwargs, item_rows, mark_done, mark_fail, new_progress, progress_done, row_key,
    rows_from, safe_name, BatchStats, RowOutcome,
};
use opencli::command::{
    adapter_usage_line, arg_type_hint, context_args, defaults_from, ActiveTabAction, ArgDef,
    ArgType, ContextAction, NavigateBefore,
};
use opencli::dump::{resolve_dump_path, sanitize_dump_part};
use opencli::extension::{check_page_url, context_matches, glob_matches};
use opencli::feedback::{
    build_issue_body, build_issue_title, build_issue_url, feedback_id, new_feedback,
};
use opencli::index::{sanitize_fts_query, sync_plan, IndexedAdapter};
use opencli::json::{drop_field, get_field, set_field, JsonNumber, JsonValue};
use opencli::order::str_lt;
use opencli::plugin::{
    already_installed_error, default_manifest, is_listed_plugin, local_install_error,
    parse_source, plugin_info, with_dir_name, PluginManager, PluginManifest, SourceKind,
};
use opencli::tasks::{
    finish_task, limit_task_text, redact_task_value, redact_url_query_tokens, start_task,
    TaskError, TASK_HISTORY_LIMIT, TASK_TEXT_LIMIT,
};
use opencli::text::{join_texts, replace_text, split_words, trim_str};

fn text(s: &str) -> JsonValue {
    JsonValue::String(s.to_string())
}

fn obj(fields: Vec<(&str, JsonValue)>) -> JsonValue {
    JsonValue::Object(fields.into_iter().map(|(k, v)| (k.to_string(), v)).collect())
}

fn text_of(v: Option<&JsonValue>) -> Option<String> {
    match v {
        Some(JsonValue::String(s)) => Some(s.clone()),
        _ => None,
    }
}

fn arg(name: &str, positional: bool, required: bool, default: Option<JsonValue>) -> ArgDef {
    ArgDef {
        name: name.to_string(),
        arg_type: ArgType::Str,
        required,
        positional,
        description: None,
        choices: None,
        default,
    }
}

#[test]
fn context_url_must_match_domain_and_path() {
    let context = ContextAction {
        title: "Download".into(),
        hosts: vec![],
        paths: vec!["/explore/*".into()],
        active_tab: Some(ActiveTabAction { use_pipeline: true, extract: None }),
        args: vec![],
    };
    assert!(context_matches(
        Some("www.xiaohongshu.com"),
        &context,
        &check_page_url("https://www.xiaohongshu.com/explore/note").unwrap()
    ));
    assert!(!context_matches(
        Some("www.xiaohongshu.com"),
        &context,
        &check_page_url("https://www.xiaohongshu.com/search_result").unwrap()
    ));
    assert!(!context_matches(
        Some("www.xiaohongshu.com"),
        &context,
        &check_page_url("https://example.com/explore/note").unwrap()
    ));
}

#[test]
fn page_urls_must_be_http() {
    assert_eq!(check_page_url("chrome://settings").unwrap_err(), "Only HTTP(S) pages are supported");
    assert_eq!(check_page_url("not a url").unwrap_err(), "Invalid page URL");
    let u = check_page_url("https://Example.com/a/b?q=1").unwrap();
    assert_eq!(u.scheme, "https");
    assert_eq!(u.host.as_deref(), Some("example.com"));
    assert_eq!(u.path, "/a/b");
}

#[test]
fn glob_patterns_match_runs_of_characters() {
    assert!(glob_matches("/explore/*", "/explore/abc"));
    assert!(glob_matches("*", ""));
    assert!(glob_matches("/a/*/c", "/a/bb/c"));
    assert!(!glob_matches("/a/*/c", "/a/bb/d"));
    assert!(glob_matches("/exact", "/exact"));
    assert!(!glob_matches("/exact", "/exact/more"));
    assert!(glob_matches("/a*b", "/abab"));
    assert!(glob_matches("*b*b", "abab"));
    assert!(!glob_matches("/a*b", "/abac"));
    assert!(glob_matches("/**", "/"));
}

#[test]
fn listed_hosts_bound_the_match() {
    let ctx = ContextAction {
        title: "t".into(),
        hosts: vec!["M.Example.com.".into()],
        paths: vec![],
        active_tab: None,
        args: vec![],
    };
    assert!(!context_matches(
        Some("example.com"),
        &ctx,
        &check_page_url("https://www.example.com/a").unwrap()
    ));
    assert!(context_matches(
        Some("example.com"),
        &ctx,
        &check_page_url("https://m.example.com/a").unwrap()
    ));
    assert!(context_matches(None, &ctx, &check_page_url("https://m.example.com/a").unwrap()));
    assert!(!context_matches(
        Some("example.com"),
        &ctx,
        &check_page_url("https://sub.m.example.com/a").unwrap()
    ));
}

#[test]
fn context_args_pass_the_current_url() {
    let ok = ContextAction {
        title: "t".into(),
        hosts: vec![],
        paths: vec![],
        active_tab: None,
        args: vec![("url".into(), "current_url".into())],
    };
    assert_eq!(
        context_args(&ok, "https://a/b").unwrap(),
        vec![("url".to_string(), "https://a/b".to_string())]
    );
    let bad = ContextAction {
        title: "t".into(),
        hosts: vec![],
        paths: vec![],
        active_tab: None,
        args: vec![("url".into(), "page_title".into())],
    };
    assert!(context_args(&bad, "https://a/b").is_err());
}

#[test]
fn task_results_are_redacted_and_limited() {
    let result = obj(vec![
        ("title", text("A public result")),
        ("accessToken", text("do-not-display")),
        ("nested", obj(vec![("cookie", text("do-not-display"))])),
    ]);
    let r = redact_task_value(&result);
    assert_eq!(text_of(get_field(&r, "title")).as_deref(), Some("A public result"));
    assert_eq!(text_of(get_field(&r, "accessToken")).as_deref(), Some("[redacted]"));
    assert_eq!(
        text_of(get_field(get_field(&r, "nested").unwrap(), "cookie")).as_deref(),
        Some("[redacted]")
    );
    let url = redact_url_query_tokens(
        "https://www.xiaohongshu.com/explore/id?xsec_token=signed-value&xsec_source=pc_feed",
    );
    assert!(!url.contains("signed-value"));
    assert!(url.contains("xsec_source=pc_feed"));
    let long = "x".repeat(TASK_TEXT_LIMIT + 1);
    assert_eq!(limit_task_text(&long).chars().count(), TASK_TEXT_LIMIT + 1);
    assert!(limit_task_text(&long).ends_with('…'));
    assert_eq!(limit_task_text("short"), "short");
}

#[test]
fn task_history_keeps_the_newest_tasks() {
    let mut tasks = Vec::new();
    for i in 0..(TASK_HISTORY_LIMIT + 5) {
        start_task(&mut tasks, format!("t{}", i), None, i as u128);
    }
    assert_eq!(tasks.len(), TASK_HISTORY_LIMIT);
    assert_eq!(tasks[0].id, format!("t{}", TASK_HISTORY_LIMIT + 4));
    assert_eq!(tasks[0].workspace, "adapter:unknown");
    assert_eq!(tasks[0].status, "running");
    let id = format!("t{}", TASK_HISTORY_LIMIT + 4);
    let done = finish_task(&mut tasks, Some(id.as_str()), "done", Some("ok".into()), None, 99).unwrap();
    assert_eq!(done.status, "done");
    assert_eq!(done.finished_at_ms, Some(99));
    assert_eq!(tasks[0].status, "done");
    let missing = finish_task(&mut tasks, Some("nope"), "done", None, None, 100).unwrap_err();
    assert_eq!(missing, TaskError::NotFound);
    assert_eq!(missing.message(), "Task not found");
    assert_eq!(finish_task(&mut tasks, None, "done", None, None, 100).unwrap_err(), TaskError::MissingId);
}

#[test]
fn dump_paths_and_parts() {
    assert_eq!(sanitize_dump_part("https://api.example.com/v1/items?x=1"), "https_api_example_com_v1_items_x_1");
    assert_eq!(sanitize_dump_part("__a__"), "a");
    assert_eq!(resolve_dump_path("/tmp/dump-{step}-{ts}.json", 3, 1_700_000_123_456), "/tmp/dump-3-1700000123.json");
    assert_eq!(resolve_dump_path("{ts_ms}", 0, 42), "42");
}

#[test]
fn batch_names_rows_and_progress() {
    assert_eq!(safe_name("a/b:c*d", "x"), "a_b_c_d");
    assert_eq!(safe_name("..//..", "fallback"), "_");
    assert_eq!(safe_name("...", "fallback"), "fallback");
    assert_eq!(row_key("bilibili", "42"), "bilibili:42");
    let rows = rows_from(JsonValue::Array(vec![text("a"), text("b")]));
    assert_eq!(rows.len(), 2);
    assert_eq!(item_rows(text("one")).len(), 1);
    let row = obj(vec![("id", JsonValue::Number(JsonNumber::PosInt(7))), ("name", text("n"))]);
    assert_eq!(field_str(&row, "id"), "7");
    assert_eq!(field_str(&row, "name"), "n");
    assert_eq!(field_str(&row, "missing"), "");
    let p = new_progress();
    assert!(!progress_done(&p, "s:1"));
    let p = mark_fail(p, "s:1", "n", "boom");
    assert!(!progress_done(&p, "s:1"));
    let p = mark_done(p, "s:1", "n", 3, "n/data.json");
    assert!(progress_done(&p, "s:1"));
    match get_field(&p, "failed") {
        Some(JsonValue::Object(f)) => assert!(f.is_empty()),
        other => panic!("unexpected {:?}", other),
    }
    let s = BatchStats::new()
        .record(RowOutcome::Fetched(5))
        .record(RowOutcome::Skipped)
        .record(RowOutcome::Failed)
        .record(RowOutcome::Fetched(2));
    assert_eq!(s, BatchStats { ok: 2, skip: 1, fail: 1, posts: 7 });
}

#[test]
fn item_kwargs_fill_the_id_argument() {
    let args = vec![arg("uid", true, true, None), arg("limit", false, false, Some(JsonValue::Number(JsonNumber::PosInt(20))))];
    let kw = item_kwargs(&args, "id", "42", Some(5), true);
    let v = JsonValue::Object(kw);
    assert_eq!(text_of(get_field(&v, "uid")).as_deref(), Some("42"));
    assert!(matches!(get_field(&v, "limit"), Some(JsonValue::Number(JsonNumber::PosInt(5)))));
    assert!(matches!(get_field(&v, "incremental"), Some(JsonValue::Bool(true))));
    let defaults = defaults_from(&args);
    assert_eq!(defaults.len(), 1);
    assert_eq!(defaults[0].0, "limit");
}

#[test]
fn usage_lines_and_hints() {
    let args = vec![
        arg("query", true, true, None),
        arg("page", true, false, None),
        ArgDef { arg_type: ArgType::Int, ..arg("limit", false, true, None) },
        arg("sort", false, false, Some(text("hot"))),
        ArgDef { arg_type: ArgType::Bool, ..arg("raw", false, false, None) },
    ];
    assert_eq!(
        adapter_usage_line("site cmd", &args),
        "opencli site cmd <query> [<page>] --limit <int> [--sort=\"hot\"] [--raw <bool>]"
    );
    assert_eq!(arg_type_hint(&args[2]), "int");
    assert!(matches!(NavigateBefore::default_value(), NavigateBefore::Bool(true)));
}

#[test]
fn fts_queries_keep_words() {
    assert_eq!(sanitize_fts_query("hello, world!"), "\"hello\"* \"world\"*");
    assert_eq!(sanitize_fts_query("  "), "\"\"");
    assert_eq!(sanitize_fts_query("a-b c_d !!"), "\"a-b\"* \"c_d\"*");
}

#[test]
fn sync_plans_reindex_changed_and_drop_stale() {
    let ix = |n: &str, y: i64, s: i64| IndexedAdapter { full_name: n.to_string(), yaml_mtime: y, summary_mtime: s };
    let existing = vec![ix("a x", 1, 1), ix("b y", 2, 2), ix("c z", 3, 3)];
    let current = vec![ix("a x", 1, 1), ix("b y", 5, 2), ix("d w", 1, 1)];
    let plan = sync_plan(&existing, &current);
    assert_eq!(plan.reindex, vec![1, 2]);
    assert_eq!(plan.stale, vec!["c z".to_string()]);
}

#[test]
fn plugin_sources_and_names() {
    assert!(matches!(parse_source("github:user/repo"), SourceKind::Git(_)));
    assert!(matches!(parse_source("local:/tmp/p"), SourceKind::Local(_)));
    match parse_source("file:///tmp/p") {
        SourceKind::Local(p) => assert_eq!(p, "/tmp/p"),
        other => panic!("unexpected {:?}", other),
    }
    let m = with_dir_name(
        PluginManifest { name: String::new(), version: None, description: None, opencli: None },
        Some("dir"),
    );
    assert_eq!(m.name, "dir");
    assert_eq!(default_manifest(None).name, "unknown");
    let info = plugin_info(default_manifest(Some("p")), "local:/x", "2024-01-01", "/plugins/p");
    assert_eq!(info.name, "p");
    assert_eq!(info.dir, "/plugins/p");
    assert!(is_listed_plugin("p", true));
    assert!(!is_listed_plugin(".tmp-p", true));
    assert!(!is_listed_plugin("p", false));
    let mgr = PluginManager::new("/home/u/.opencli-rs");
    assert_eq!(mgr.plugin_dir("p"), "/home/u/.opencli-rs/plugins/p");
    assert!(local_install_error("/x", true, true).is_none());
    assert!(local_install_error("/x", false, false).is_some());
    assert!(already_installed_error("p", "/d").contains("p"));
}

#[test]
fn feedback_issues_and_records() {
    assert_eq!(build_issue_title(Some("bilibili hot"), "broken"), "[feedback] bilibili hot: broken");
    assert_eq!(build_issue_title(Some("  "), "broken"), "[feedback] broken");
    let body = build_issue_body("1.0.0", None, "bug", "t", Some("details"), "fb-1-2");
    assert!(body.starts_with("## Feedback\n\n- Version: `1.0.0`\n- Kind: `bug`\n"));
    assert!(body.contains("details"));
    assert!(body.contains("fb-1-2"));
    let url = build_issue_url("a b", "c&d");
    assert!(url.starts_with("https://github.com/forechoandlook/opencli_rs_plus/issues/new?title=a%20b&body=c%26d"));
    assert_eq!(feedback_id(-5, 7), "fb--5-7");
    let r = new_feedback("1.0.0", Some("x y"), "bug", "t", None, false, 10, 3);
    assert_eq!(r.id, "fb-10-3");
    assert!(r.opened_issue_url.is_none());
}

#[test]
fn json_fields_set_and_drop() {
    let mut f = vec![("a".to_string(), text("1"))];
    set_field(&mut f, "b".to_string(), text("2"));
    set_field(&mut f, "a".to_string(), text("3"));
    assert_eq!(f.len(), 2);
    assert_eq!(f[0].0, "a");
    let v = JsonValue::Object(f);
    assert_eq!(text_of(get_field(&v, "a")).as_deref(), Some("3"));
    let f = match v {
        JsonValue::Object(f) => f,
        _ => unreachable!(),
    };
    let f = drop_field(f, "a");
    assert_eq!(f.len(), 1);
    assert_eq!(f[0].0, "b");
}

#[test]
fn text_helpers() {
    assert_eq!(trim_str("  a b \n"), "a b");
    assert_eq!(split_words(" a  b\tc "), vec!["a", "b", "c"]);
    assert_eq!(replace_text("aXbXc", "X", "--"), "a--b--c");
    assert_eq!(join_texts(&vec!["a".to_string(), "b".to_string()], ", "), "a, b");
    assert!(str_lt("abc", "abd"));
    assert!(str_lt("ab", "abc"));
    assert!(!str_lt("b", "a"));
    assert!(!str_lt("a", "a"));
}

#[test]
fn adapter_documents_declare_fields_and_args() {
    let doc = obj(vec![
        ("site", text("hackernews")),
        ("name", text("top")),
        ("domain", text("news.ycombinator.com")),
        ("strategy", text("public")),
        (
            "args",
            obj(vec![
                ("limit", obj(vec![("type", text("int")), ("default", JsonValue::Number(JsonNumber::PosInt(20)))])),
                ("query", obj(vec![("required", JsonValue::Bool(true)), ("positional", JsonValue::Bool(true))])),
                ("format", obj(vec![("type", text("weird")), ("choices", JsonValue::Array(vec![text("json"), text("table"), JsonValue::Null]))])),
            ]),
        ),
        ("columns", JsonValue::Array(vec![text("rank"), text("title")])),
        ("pipeline", JsonValue::Array(vec![obj(vec![("fetch", text("x"))]), obj(vec![("select", text("y"))])])),
        ("timeoutSeconds", JsonValue::Number(JsonNumber::PosInt(30))),
        ("version", text("1.2.3")),
        ("updatedAt", text("2026-01-01")),
    ]);
    let a = adapter_fields(&doc).unwrap();
    assert_eq!(a.site, "hackernews");
    assert_eq!(a.name, "top");
    assert_eq!(a.description, "");
    assert_eq!(a.strategy, opencli::adapter_yaml::Strategy::Public);
    assert!(!a.browser);
    assert_eq!(a.columns, vec!["rank", "title"]);
    assert_eq!(a.pipeline.as_ref().unwrap().len(), 2);
    assert_eq!(a.timeout_seconds, Some(30));
    assert_eq!(a.version.as_deref(), Some("1.2.3"));
    assert_eq!(a.updated_at.as_deref(), Some("2026-01-01"));
    assert_eq!(a.args.len(), 3);
    assert_eq!(a.args[0].name, "limit");
    assert_eq!(a.args[0].arg_type, ArgType::Int);
    assert!(matches!(a.args[0].default, Some(JsonValue::Number(JsonNumber::PosInt(20)))));
    assert!(a.args[1].required && a.args[1].positional);
    assert_eq!(a.args[2].arg_type, ArgType::Str);
    assert_eq!(a.args[2].choices.as_ref().unwrap().len(), 2);
    assert!(!needs_browser(false, false, a.pipeline.as_ref()));
    let browser_pipeline = vec![obj(vec![("navigate", text("https://x"))])];
    assert!(needs_browser(false, false, Some(&browser_pipeline)));
    assert!(needs_browser(true, false, None));
    assert!(needs_browser(false, true, None));
    let missing_site = obj(vec![("name", text("top"))]);
    match adapter_fields(&missing_site).unwrap_err() {
        opencli::error::CliError::AdapterLoad { message, .. } => assert_eq!(message, "Missing 'site' field"),
        other => panic!("unexpected {:?}", other),
    }
    let missing_name = obj(vec![("site", text("s"))]);
    match adapter_fields(&missing_name).unwrap_err() {
        opencli::error::CliError::AdapterLoad { message, .. } => assert_eq!(message, "Missing 'name' field"),
        other => panic!("unexpected {:?}", other),
    }
    assert!(parse_args(&obj(vec![("args", JsonValue::Array(vec![]))])).is_empty());
    assert!(parse_args(&obj(vec![])).is_empty());
}
