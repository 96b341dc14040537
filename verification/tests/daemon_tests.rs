use opencli::issues::{IssueKind, IssueStatus};
use opencli::jobs::{
    job_kwargs, job_target, reschedule_delay, retry_delay, unknown_adapter_message, JobStatus,
};
use opencli::json::JsonValue;
use opencli::tools::{
    find_by_name, load_tools, search, split_frontmatter, summary, tool_from_frontmatter, Tool,
    ToolFrontmatter,
};

fn create_dummy_tools() -> Vec<Tool> {
    let install = vec![("mac".to_string(), "brew install rg".to_string())];

    vec![
        Tool {
            name: "ripgrep".to_string(),
            binary: "rg".to_string(),
            description: "Fast line-oriented regex search".to_string(),
            homepage: None,
            tags: vec!["search".to_string(), "grep".to_string()],
            install: install.clone(),
            body: "Fast search tool.".to_string(),
        },
        Tool {
            name: "jq".to_string(),
            binary: "jq".to_string(),
            description: "Command-line JSON processor".to_string(),
            homepage: None,
            tags: vec!["json".to_string(), "parser".to_string()],
            install,
            body: "JSON processing tool.".to_string(),
        },
    ]
}

#[test]
fn test_search() {
    let tools = create_dummy_tools();

    let results = search("regex", &tools);
    assert_eq!(results.len(), 1);
    assert_eq!(results[0].name, "ripgrep");

    let results = search("JSON", &tools);
    assert_eq!(results.len(), 1);
    assert_eq!(results[0].name, "jq");

    let results = search("parser", &tools);
    assert_eq!(results.len(), 1);
    assert_eq!(results[0].name, "jq");

    let results = search("rg", &tools);
    assert_eq!(results.len(), 1);
    assert_eq!(results[0].name, "ripgrep");

    let results = search("   ", &tools);
    assert_eq!(results.len(), 2);
}

#[test]
fn test_find_by_name() {
    let tools = create_dummy_tools();

    let result = find_by_name("ripgrep", &tools);
    assert!(result.is_some());
    assert_eq!(result.unwrap().name, "ripgrep");

    let result = find_by_name("jq", &tools);
    assert!(result.is_some());

    let result = find_by_name("unknown", &tools);
    assert!(result.is_none());
}

#[test]
fn test_summary() {
    let tools = create_dummy_tools();
    let summaries = summary(&tools, &[false, true]);

    assert_eq!(summaries.len(), 2);
    assert_eq!(summaries[0].name, "ripgrep");
    assert_eq!(summaries[0].description, "Fast line-oriented regex search");
    assert!(!summaries[0].installed);
    assert!(summaries[1].installed);
}

#[test]
fn install_command_falls_back_to_default() {
    let mut tools = create_dummy_tools();
    assert_eq!(tools[0].install_cmd("mac"), Some("brew install rg"));
    assert_eq!(tools[0].install_cmd("linux"), None);
    tools[0].install.push(("default".to_string(), "cargo install ripgrep".to_string()));
    assert_eq!(tools[0].install_cmd("linux"), Some("cargo install ripgrep"));
    assert_eq!(tools[0].install_cmd("mac"), Some("brew install rg"));
}

#[test]
fn tool_files_split_into_frontmatter_and_body() {
    let content = "\n  ---\nname: ripgrep\nbinary: rg\n---\n\n\n  \nFast line-oriented regex search.\nMore.\n";
    let (yaml, body) = split_frontmatter(content).unwrap();
    assert_eq!(yaml, "\nname: ripgrep\nbinary: rg");
    assert_eq!(body, "  \nFast line-oriented regex search.\nMore.\n");
    assert!(split_frontmatter("name: x").is_none());
    assert!(split_frontmatter("---\nname: x\n").is_none());
    let fm = ToolFrontmatter {
        name: "ripgrep".to_string(),
        binary: "rg".to_string(),
        homepage: None,
        tags: vec![],
        install: vec![],
    };
    let tool = tool_from_frontmatter(fm, body);
    assert_eq!(tool.description, "Fast line-oriented regex search.");
}

#[test]
fn loaded_tools_keep_the_first_of_each_name_sorted() {
    let mut tools = create_dummy_tools();
    let mut dup = create_dummy_tools().remove(0);
    dup.description = "second copy".to_string();
    tools.push(dup);
    let loaded = load_tools(tools);
    let names: Vec<&str> = loaded.iter().map(|t| t.name.as_str()).collect();
    assert_eq!(names, vec!["jq", "ripgrep"]);
    assert_eq!(loaded[1].description, "Fast line-oriented regex search");
}

#[test]
fn test_issue_kind_from_str() {
    assert_eq!(IssueKind::from("broken"), IssueKind::Broken);
    assert_eq!(
        IssueKind::from("bad_description"),
        IssueKind::BadDescription
    );
    assert_eq!(IssueKind::from("other"), IssueKind::Other);
    // 未知值 fallback 到 Other
    assert_eq!(IssueKind::from("unknown_kind"), IssueKind::Other);
    assert_eq!(IssueKind::from(""), IssueKind::Other);
}

#[test]
fn test_issue_status_from_str() {
    assert_eq!(IssueStatus::from("open"), IssueStatus::Open);
    assert_eq!(IssueStatus::from("closed"), IssueStatus::Closed);
    // 未知值 fallback 到 Open
    assert_eq!(IssueStatus::from("anything"), IssueStatus::Open);
}

#[test]
fn test_issue_kind_display() {
    assert_eq!(IssueKind::Broken.to_string(), "broken");
    assert_eq!(IssueKind::BadDescription.to_string(), "bad_description");
    assert_eq!(IssueKind::Other.to_string(), "other");
}

#[test]
fn test_issue_status_display() {
    assert_eq!(IssueStatus::Open.to_string(), "open");
    assert_eq!(IssueStatus::Closed.to_string(), "closed");
}

#[test]
fn job_status_names_round_trip() {
    for s in [
        JobStatus::Pending,
        JobStatus::Running,
        JobStatus::Done,
        JobStatus::Failed,
        JobStatus::Cancelled,
    ] {
        assert_eq!(JobStatus::from(s.to_string().as_str()), s);
    }
    assert_eq!(JobStatus::from("bogus"), JobStatus::Pending);
    assert_eq!(JobStatus::Cancelled.to_string(), "cancelled");
}

#[test]
fn failed_jobs_back_off_exponentially() {
    assert_eq!(retry_delay(0, 3), Some(30));
    assert_eq!(retry_delay(1, 3), Some(60));
    assert_eq!(retry_delay(2, 3), Some(120));
    assert_eq!(retry_delay(3, 3), None);
    assert_eq!(reschedule_delay(Some(60)), Some(60));
    assert_eq!(reschedule_delay(Some(0)), None);
    assert_eq!(reschedule_delay(None), None);
}

#[test]
fn job_targets_are_two_words() {
    assert_eq!(
        job_target("invalid_adapter_format").unwrap_err(),
        "Invalid adapter format: 'invalid_adapter_format'"
    );
    let (site, cmd) = job_target("  unknown   cmd ").unwrap();
    assert_eq!((site.as_str(), cmd.as_str()), ("unknown", "cmd"));
    assert_eq!(
        unknown_adapter_message(&site, &cmd),
        "Unknown or disabled adapter: unknown cmd"
    );
}

#[test]
fn job_kwargs_take_object_args_and_defaults() {
    let defs = vec![
        ("limit".to_string(), Some(JsonValue::String("20".to_string()))),
        ("q".to_string(), None),
        ("page".to_string(), Some(JsonValue::Bool(true))),
    ];
    let args = JsonValue::Object(vec![("limit".to_string(), JsonValue::Bool(false))]);
    let kw = job_kwargs(Some(args), &defs).unwrap();
    assert_eq!(kw.len(), 2);
    assert_eq!(kw[0].0, "limit");
    assert!(matches!(kw[0].1, JsonValue::Bool(false)));
    assert_eq!(kw[1].0, "page");
    assert_eq!(job_kwargs(None, &defs).unwrap().len(), 2);
    assert_eq!(job_kwargs(Some(JsonValue::Null), &vec![]).unwrap().len(), 0);
    assert_eq!(
        job_kwargs(Some(JsonValue::String("not an object".to_string())), &defs).unwrap_err(),
        "args must be a JSON object"
    );
}
