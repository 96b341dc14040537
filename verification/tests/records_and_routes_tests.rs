use opencli::adapter_settings::AdapterSettings;
use opencli::article::{article_empty, article_origin, article_saved, article_write_failed};
use opencli::batch::{item_outcome, RowOutcome};
use opencli::bg_fetch::{bg_fetch_request, context_goto};
use opencli::browser::DaemonCommand;
use opencli::engine::{command_run, CommandRun};
use opencli::error::{error_lines, failure_report, CliError, FailureReport};
use opencli::index::{sync_plan, IndexedAdapter};
use opencli::json::{get_field, JsonNumber, JsonValue};
use opencli::tasks::{handle_task_request, BrowserTask, TaskReply, TaskUpdate};
use opencli::text::replace_text;
use opencli::ytdlp::{dry_run_rows, download_rows, not_installed_rows, ytdlp_request, YtdlpRendered};

fn text(s: &str) -> JsonValue {
    JsonValue::String(s.to_string())
}

fn obj(fields: Vec<(&str, JsonValue)>) -> JsonValue {
    JsonValue::Object(fields.into_iter().map(|(k, v)| (k.to_string(), v)).collect())
}

fn str_field(v: &JsonValue, k: &str) -> Option<String> {
    match get_field(v, k) {
        Some(JsonValue::String(s)) => Some(s.clone()),
        _ => None,
    }
}

fn first_row(v: &JsonValue) -> &JsonValue {
    match v {
        JsonValue::Array(items) => &items[0],
        _ => panic!("rows"),
    }
}

#[test]
fn bg_fetch_loads_the_context_page_with_commit() {
    let params = obj(vec![
        ("url", text("https://www.zhihu.com/api/v3/feed/topstory/hot-lists/total?limit=1")),
        ("cookie_url", text("https://www.zhihu.com")),
    ]);
    let q = bg_fetch_request(
        &params,
        Some("https://www.zhihu.com/api/v3/feed/topstory/hot-lists/total?limit=1".into()),
        Some("https://www.zhihu.com".into()),
    )
    .unwrap();
    let (url, wait) = context_goto(&q, "https://example.com").unwrap();
    assert_eq!(url, "https://www.zhihu.com");
    assert_eq!(wait, "commit");
    assert!(context_goto(&q, "https://www.zhihu.com/question/1").is_none());
}

#[test]
fn command_ids_are_v4_uuids() {
    let c = DaemonCommand::new("exec");
    let id: Vec<char> = c.id.chars().collect();
    assert_eq!(id.len(), 36);
    for i in [8, 13, 18, 23] {
        assert_eq!(id[i], '-');
    }
    assert_eq!(id[14], '4');
    assert!("89ab".contains(id[19]));
    assert_ne!(DaemonCommand::new("exec").id, c.id);
}

#[test]
fn enabling_after_disabling_restores_the_list() {
    let mut s = AdapterSettings::new();
    s.disable("bilibili hot").unwrap();
    s.disable("zhihu").unwrap();
    let before = s.disabled.clone();
    assert_eq!(s.disable("  xhs//search "), Ok(true));
    assert!(s.disabled.contains(&"xhs search".to_string()));
    assert_eq!(s.enable("xhs/search"), Ok(true));
    assert_eq!(s.disabled, before);
    assert_eq!(s.enable("xhs search"), Ok(false));
    assert_eq!(s.disabled, before);
    assert_eq!(AdapterSettings::normalize_name("  zhihu//hot "), "zhihu hot");
}

#[test]
fn replacing_an_empty_pattern_interleaves() {
    assert_eq!(replace_text("ab", "", "-"), "ab".replace("", "-"));
    assert_eq!(replace_text("", "", "x"), "x");
    assert_eq!(replace_text("a.b.c", ".", "/"), "a/b/c");
}

#[test]
fn article_records() {
    let data = obj(vec![("url", text("https://x.com/p/42"))]);
    let (url, author) = article_origin(&data);
    assert_eq!((url.as_str(), author.as_str()), ("https://x.com/p/42", "-"));
    let r = article_empty("T", &author, &url, "42");
    assert_eq!(str_field(&r, "status").as_deref(), Some("failed"));
    assert_eq!(str_field(&r, "size").as_deref(), Some("No content to save"));
    assert_eq!(str_field(&r, "download_type").as_deref(), Some("article"));
    let w = article_write_failed("T", "A", "disk full", &url, "42");
    assert_eq!(str_field(&w, "size").as_deref(), Some("Write error: disk full"));
    let ok = article_saved("T", "A", "2 KB", "out/T/T.md", 3, &url, "42");
    assert_eq!(str_field(&ok, "status").as_deref(), Some("ok"));
    assert!(matches!(get_field(&ok, "images"), Some(JsonValue::Number(JsonNumber::PosInt(3)))));
}

#[test]
fn batch_rows_treat_empty_results_as_done() {
    assert_eq!(item_outcome(Ok(7)).0, RowOutcome::Fetched(7));
    let (o, e) = item_outcome(Err(CliError::empty_result("no posts")));
    assert_eq!(o, RowOutcome::Fetched(0));
    assert!(e.unwrap().is_soft_empty());
    let (o, _) = item_outcome(Err(CliError::command_execution("当前页无数据")));
    assert_eq!(o, RowOutcome::Fetched(0));
    let (o, e) = item_outcome(Err(CliError::pipeline("boom")));
    assert_eq!(o, RowOutcome::Failed);
    assert_eq!(e.unwrap().code(), "PIPELINE");
}

#[test]
fn commands_need_a_pipeline_or_func() {
    assert_eq!(command_run(true, true, "a b").unwrap(), CommandRun::Pipeline);
    assert_eq!(command_run(false, true, "a b").unwrap(), CommandRun::Func);
    match command_run(false, false, "zhihu hot").unwrap_err() {
        CliError::CommandExecution { message, .. } => {
            assert_eq!(message, "Command 'zhihu hot' has no pipeline or func")
        }
        other => panic!("unexpected {:?}", other),
    }
}

#[test]
fn failures_are_routed_by_kind_and_format() {
    match failure_report(CliError::empty_result("nothing"), false) {
        FailureReport::Empty { notice } => assert!(notice.starts_with("📭 ")),
        other => panic!("unexpected {:?}", other),
    }
    match failure_report(CliError::auth_required("login"), true) {
        FailureReport::Json { error, code } => {
            assert_eq!(code, 3);
            assert_eq!(str_field(&error, "code").as_deref(), Some("AUTH_REQUIRED"));
            assert!(matches!(get_field(&error, "ok"), Some(JsonValue::Bool(false))));
        }
        other => panic!("unexpected {:?}", other),
    }
    match failure_report(CliError::pipeline("bad step"), false) {
        FailureReport::Text { lines, code } => {
            assert_eq!(code, 1);
            assert_eq!(lines, error_lines(&CliError::pipeline("bad step")));
            assert!(lines[0].starts_with("🔧 "));
        }
        other => panic!("unexpected {:?}", other),
    }
}

#[test]
fn ytdlp_request_defaults() {
    let params = obj(vec![("dry_run", JsonValue::Bool(true))]);
    let data = obj(vec![("url", text("https://v.com/1")), ("cookies", text("a=1"))]);
    let none = || YtdlpRendered {
        url: None,
        title: None,
        output: None,
        quality: None,
        user_agent: None,
        referer: None,
        dry_run: None,
    };
    let q = ytdlp_request(&params, &data, none()).unwrap();
    assert_eq!(q.url, "https://v.com/1");
    assert_eq!(q.title, "video");
    assert_eq!(q.output, "./downloads");
    assert_eq!(q.quality, "best");
    assert!(q.dry_run);
    assert_eq!(q.cookies, "a=1");
    assert!(q.user_agent.is_none());
    let e = ytdlp_request(&obj(vec![]), &obj(vec![]), none()).unwrap_err();
    assert!(matches!(e, CliError::Pipeline { ref message, .. } if message == "download: missing url"));
    let p2 = obj(vec![("url", text("{{ args.url }}")), ("dry_run", text("{{ args.dry }}"))]);
    let mut r = none();
    r.url = Some("https://v.com/2".into());
    r.dry_run = Some(false);
    let q2 = ytdlp_request(&p2, &data, r).unwrap();
    assert_eq!(q2.url, "https://v.com/2");
    assert!(!q2.dry_run);
}

#[test]
fn ytdlp_answers() {
    let n = not_installed_rows();
    let row = first_row(&n);
    assert_eq!(str_field(row, "status").as_deref(), Some("failed"));
    assert_eq!(str_field(row, "size").as_deref(), Some("yt-dlp not installed. Run: pip install yt-dlp"));
    let d = dry_run_rows("clip", false);
    assert_eq!(str_field(first_row(&d), "status").as_deref(), Some("dry-run failed"));
    assert_eq!(str_field(first_row(&d), "path").as_deref(), Some(""));
    let ok = download_rows("clip", true, "3.2 MB", "./downloads/clip.mp4");
    assert_eq!(str_field(first_row(&ok), "status").as_deref(), Some("ok"));
}

fn update(status: &str, id: Option<&str>) -> TaskUpdate {
    TaskUpdate {
        status: status.into(),
        id: id.map(String::from),
        workspace: None,
        preview: None,
        error: None,
    }
}

#[test]
fn task_endpoint_keeps_a_bounded_history() {
    let mut tasks: Vec<BrowserTask> = Vec::new();
    for i in 0..35 {
        match handle_task_request(&mut tasks, false, false, true, None, Ok(update("running", None)), format!("t{i}"), i) {
            TaskReply::Started(t) => assert_eq!(t.status, "running"),
            other => panic!("unexpected {:?}", other),
        }
        assert!(tasks.len() <= 30);
    }
    assert_eq!(tasks[0].id, "t34");
    assert_eq!(tasks[0].workspace, "adapter:unknown");
    let n = tasks.len();
    assert!(matches!(
        handle_task_request(&mut tasks, false, false, false, Some("https://evil.com"), Ok(update("running", None)), "x".into(), 99),
        TaskReply::Forbidden
    ));
    assert_eq!(tasks.len(), n);
    assert!(matches!(
        handle_task_request(&mut tasks, false, true, false, Some("chrome-extension://abc"), Ok(update("running", None)), "x".into(), 99),
        TaskReply::List
    ));
    assert!(matches!(
        handle_task_request(&mut tasks, true, false, false, None, Err("bad".into()), "x".into(), 99),
        TaskReply::NoContent
    ));
    match handle_task_request(&mut tasks, false, false, true, None, Ok(update("done", Some("t30"))), "x".into(), 100) {
        TaskReply::Finished(t) => {
            assert_eq!(t.status, "done");
            assert_eq!(t.finished_at_ms, Some(100));
        }
        other => panic!("unexpected {:?}", other),
    }
    assert!(matches!(
        handle_task_request(&mut tasks, false, false, true, None, Ok(update("done", None)), "x".into(), 1),
        TaskReply::BadRequest(ref m) if m == "Task id is required when finishing a task"
    ));
    assert!(matches!(
        handle_task_request(&mut tasks, false, false, true, None, Ok(update("done", Some("zz"))), "x".into(), 1),
        TaskReply::NotFound
    ));
    assert!(matches!(
        handle_task_request(&mut tasks, false, false, true, None, Err("Invalid task request: eof".into()), "x".into(), 1),
        TaskReply::BadRequest(ref m) if m == "Invalid task request: eof"
    ));
}

#[test]
fn a_second_sync_is_quiet() {
    let mk = |n: &str, y: i64| IndexedAdapter { full_name: n.into(), yaml_mtime: y, summary_mtime: 0 };
    let current = vec![mk("a x", 1), mk("b y", 2)];
    let existing = vec![mk("a x", 1), mk("c z", 5)];
    let first = sync_plan(&existing, &current);
    assert_eq!(first.stats.added + first.stats.updated + first.stats.unchanged, current.len());
    assert_eq!(first.stats.removed, 1);
    let again = sync_plan(&current, &current);
    assert_eq!((again.stats.added, again.stats.updated, again.stats.removed, again.stats.unchanged), (0, 0, 0, 2));
    assert!(again.reindex.is_empty());
}
