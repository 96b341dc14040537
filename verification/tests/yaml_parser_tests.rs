use opencli::adapter_yaml::{is_adapter_file, parse_yaml_adapter, register_adapters, Strategy};
use opencli::command::ArgType;
use opencli::error::CliError;
use opencli::json::{JsonNumber, JsonValue};

#[test]
fn test_parse_simple_adapter() {
    let yaml = r#"
site: hackernews
name: top
description: Top stories
strategy: public
browser: false
args:
  limit:
    type: int
    default: 20
    description: Number of items
columns: [rank, title, score, author]
pipeline:
  - fetch: https://hacker-news.firebaseio.com/v0/topstories.json
  - limit: "${{ args.limit }}"
"#;
    let cmd = parse_yaml_adapter(yaml).unwrap();
    assert_eq!(cmd.site, "hackernews");
    assert_eq!(cmd.name, "top");
    assert_eq!(cmd.strategy, Strategy::Public);
    assert!(!cmd.browser);
    assert_eq!(cmd.args.len(), 1);
    assert_eq!(cmd.args[0].name, "limit");
    assert_eq!(cmd.args[0].arg_type, ArgType::Int);
    assert_eq!(cmd.columns, vec!["rank", "title", "score", "author"]);
    assert!(cmd.pipeline.is_some());
    assert_eq!(cmd.pipeline.unwrap().len(), 2);
}

#[test]
fn test_parse_cookie_strategy() {
    let yaml = r#"
site: bilibili
name: hot
description: Hot videos
strategy: cookie
domain: www.bilibili.com
"#;
    let cmd = parse_yaml_adapter(yaml).unwrap();
    assert_eq!(cmd.strategy, Strategy::Cookie);
    assert!(cmd.browser);
    assert_eq!(cmd.domain, Some("www.bilibili.com".to_string()));
}

#[test]
fn test_parse_missing_site_errors() {
    assert!(parse_yaml_adapter("name: test\n").is_err());
}

#[test]
fn test_parse_missing_name_errors() {
    assert!(parse_yaml_adapter("site: test\n").is_err());
}

#[test]
fn test_invalid_yaml_errors() {
    let e = parse_yaml_adapter("site: [unclosed bracket\nname: test").unwrap_err();
    match e {
        CliError::AdapterLoad { message, .. } => assert!(message.starts_with("Failed to parse YAML: ")),
        other => panic!("unexpected {:?}", other),
    }
}

#[test]
fn test_unknown_arg_type_defaults_to_str() {
    let yaml = r#"
site: test
name: cmd
args:
  ts:
    type: datetime
    description: A timestamp
"#;
    let cmd = parse_yaml_adapter(yaml).unwrap();
    assert_eq!(cmd.args[0].arg_type, ArgType::Str);
}

#[test]
fn test_arg_types_all_variants() {
    let yaml = r#"
site: test
name: cmd
args:
  a:
    type: int
  b:
    type: number
  c:
    type: bool
  d:
    type: boolean
  e:
    type: str
"#;
    let cmd = parse_yaml_adapter(yaml).unwrap();
    let find = |name: &str| cmd.args.iter().find(|a| a.name == name).unwrap().arg_type;
    assert_eq!(find("a"), ArgType::Int);
    assert_eq!(find("b"), ArgType::Number);
    assert_eq!(find("c"), ArgType::Bool);
    assert_eq!(find("d"), ArgType::Boolean);
    assert_eq!(find("e"), ArgType::Str);
}

#[test]
fn test_empty_args_object() {
    let cmd = parse_yaml_adapter("site: test\nname: cmd\nargs: {}\n").unwrap();
    assert!(cmd.args.is_empty());
}

#[test]
fn test_no_args_field() {
    let cmd = parse_yaml_adapter("site: test\nname: cmd\n").unwrap();
    assert!(cmd.args.is_empty());
}

#[test]
fn test_no_pipeline_field() {
    let cmd = parse_yaml_adapter("site: test\nname: cmd\n").unwrap();
    assert!(cmd.pipeline.is_none());
}

#[test]
fn test_empty_pipeline_array() {
    let cmd = parse_yaml_adapter("site: test\nname: cmd\npipeline: []\n").unwrap();
    assert!(cmd.pipeline.is_some());
    assert_eq!(cmd.pipeline.unwrap().len(), 0);
}

#[test]
fn test_required_arg() {
    let yaml = r#"
site: test
name: cmd
args:
  query:
    required: true
    description: Search keyword
"#;
    let cmd = parse_yaml_adapter(yaml).unwrap();
    let arg = &cmd.args[0];
    assert!(arg.required);
    assert_eq!(arg.name, "query");
}

#[test]
fn test_positional_arg() {
    let yaml = r#"
site: test
name: cmd
args:
  query:
    positional: true
    required: true
    description: Keyword
"#;
    let cmd = parse_yaml_adapter(yaml).unwrap();
    let arg = &cmd.args[0];
    assert!(arg.positional);
    assert!(arg.required);
}

#[test]
fn test_arg_with_choices() {
    let yaml = r#"
site: test
name: cmd
args:
  format:
    type: str
    default: json
    choices: [json, csv, table]
    description: Output format
"#;
    let cmd = parse_yaml_adapter(yaml).unwrap();
    let arg = &cmd.args[0];
    let choices = arg.choices.as_ref().expect("choices should be present");
    assert_eq!(choices.len(), 3);
    assert!(choices.contains(&"json".to_string()));
}

#[test]
fn test_arg_default_value() {
    let yaml = r#"
site: test
name: cmd
args:
  limit:
    type: int
    default: 20
"#;
    let cmd = parse_yaml_adapter(yaml).unwrap();
    let arg = &cmd.args[0];
    assert!(matches!(arg.default, Some(JsonValue::Number(JsonNumber::PosInt(20)))));
}

#[test]
fn test_timeout_seconds() {
    let cmd = parse_yaml_adapter("site: test\nname: cmd\ntimeoutSeconds: 30\n").unwrap();
    assert_eq!(cmd.timeout_seconds, Some(30));
}

#[test]
fn test_version_and_updated_at() {
    let yaml = r#"
site: test
name: cmd
version: "1.2.3"
updatedAt: "2026-01-01"
"#;
    let cmd = parse_yaml_adapter(yaml).unwrap();
    assert_eq!(cmd.version.as_deref(), Some("1.2.3"));
    assert_eq!(cmd.updated_at.as_deref(), Some("2026-01-01"));
}

#[test]
fn test_description_defaults_to_empty_string() {
    let cmd = parse_yaml_adapter("site: test\nname: cmd\n").unwrap();
    assert_eq!(cmd.description, "");
}

#[test]
fn test_strategy_defaults_to_public() {
    let cmd = parse_yaml_adapter("site: test\nname: cmd\n").unwrap();
    assert_eq!(cmd.strategy, Strategy::Public);
}

#[test]
fn test_public_strategy_browser_defaults_to_false() {
    let cmd = parse_yaml_adapter("site: test\nname: cmd\nstrategy: public\n").unwrap();
    assert!(!cmd.browser);
}

#[test]
fn test_cookie_strategy_browser_defaults_to_true() {
    let cmd = parse_yaml_adapter("site: test\nname: cmd\nstrategy: cookie\n").unwrap();
    assert!(cmd.browser);
}

#[test]
fn test_explicit_browser_false_overrides_strategy() {
    let cmd = parse_yaml_adapter("site: test\nname: cmd\nstrategy: cookie\nbrowser: false\n").unwrap();
    assert!(!cmd.browser, "explicit browser: false should override strategy default");
}

#[test]
fn test_columns_parsed_correctly() {
    let yaml = r#"
site: test
name: cmd
columns: [rank, title, author, score]
"#;
    let cmd = parse_yaml_adapter(yaml).unwrap();
    assert_eq!(cmd.columns, vec!["rank", "title", "author", "score"]);
}

#[test]
fn test_no_columns_defaults_to_empty() {
    let cmd = parse_yaml_adapter("site: test\nname: cmd\n").unwrap();
    assert!(cmd.columns.is_empty());
}

#[test]
fn test_pipeline_steps_count() {
    let yaml = r#"
site: test
name: cmd
pipeline:
  - fetch: https://example.com
  - map:
      title: ${{ item.title }}
  - limit: 10
"#;
    let cmd = parse_yaml_adapter(yaml).unwrap();
    let pipeline = cmd.pipeline.unwrap();
    assert_eq!(pipeline.len(), 3);
}

#[test]
fn adapter_files_are_yaml_files() {
    assert!(is_adapter_file("/home/u/.opencli-rs/adapters/bilibili/hot.yaml"));
    assert!(is_adapter_file("hot.yml"));
    assert!(!is_adapter_file("notes.md"));
    assert!(!is_adapter_file("dir/.yaml"));
    assert!(!is_adapter_file("a.yaml/cache.json"));
}

#[test]
fn only_parsing_yaml_files_are_registered() {
    let files = vec![
        ("a/hot.yaml".to_string(), "site: a\nname: hot\n".to_string()),
        ("a/readme.md".to_string(), "site: a\nname: md\n".to_string()),
        ("a/bad.yaml".to_string(), "site: [oops".to_string()),
        ("a/noname.yml".to_string(), "site: a\n".to_string()),
        ("b/top.yml".to_string(), "site: b\nname: top\nstrategy: ui\n".to_string()),
    ];
    let (loaded, n) = register_adapters(&files);
    assert_eq!(n, 2);
    assert_eq!(loaded[0].name, "hot");
    assert_eq!(loaded[1].site, "b");
    assert_eq!(loaded[1].strategy, Strategy::Ui);
    assert!(loaded[1].browser);
}
