use opencli::adapter_yaml::adapter_fields;
use opencli::adapters::{
    adapter_hit_text, adapter_list_row, list_adapters, local_search_hit, search_adapters,
    AdapterEntry,
};
use opencli::autostart::{autostart_status, launchd_plist, plist_path, systemd_unit, systemd_unit_path};
use opencli::json::{get_field, JsonNumber, JsonValue};
use opencli::socket_rpc::{
    adapter_counts, count_enabled, include_disabled, install_source, name_param, rpc_method,
    search_query, update_report, JsonRpcResponse, RpcMethod, INTERNAL_ERROR, PARSE_ERROR,
};
use opencli::update::{asset_name, update_available};

fn text(s: &str) -> JsonValue {
    JsonValue::String(s.to_string())
}

fn obj(fields: Vec<(&str, JsonValue)>) -> JsonValue {
    JsonValue::Object(fields.into_iter().map(|(k, v)| (k.to_string(), v)).collect())
}

fn entry(site: &str, name: &str, description: &str, domain: Option<&str>, enabled: bool) -> AdapterEntry {
    let mut fields = vec![("site", text(site)), ("name", text(name)), ("description", text(description))];
    if let Some(d) = domain {
        fields.push(("domain", text(d)));
    }
    let f = adapter_fields(&obj(fields)).unwrap();
    AdapterEntry::from_fields(f, false, None, enabled)
}

#[test]
fn updates_compare_semantic_versions() {
    assert_eq!(update_available("0.3.0", "v0.3.1"), Ok(true));
    assert_eq!(update_available("0.3.1", "v0.3.1"), Ok(false));
    assert_eq!(update_available("1.0.0", "0.9.9"), Ok(false));
    assert_eq!(update_available("1.0.0-beta.2", "1.0.0"), Ok(true));
    assert_eq!(update_available("1.0.0", "vvv1.0.10"), Ok(true));
    assert_eq!(update_available("x", "1.0.0"), Err("invalid version string: x".to_string()));
    assert_eq!(update_available("1.0.0", "latest"), Err("invalid version string: latest".to_string()));
}

#[test]
fn update_assets_by_platform() {
    assert_eq!(asset_name("linux", "x86_64"), Ok("opencli-linux-x86_64"));
    assert_eq!(asset_name("macos", "aarch64"), Ok("opencli-macos-arm64"));
    assert_eq!(asset_name("windows", "x86_64"), Ok("opencli-windows-x86_64.exe"));
    assert_eq!(
        asset_name("freebsd", "x86_64"),
        Err("automatic update is not supported on freebsd/x86_64".to_string())
    );
}

#[test]
fn autostart_files() {
    assert_eq!(plist_path("/Users/u"), "/Users/u/Library/LaunchAgents/com.opencli.daemon.plist");
    assert_eq!(systemd_unit_path("/home/u"), "/home/u/.config/systemd/user/opencli-daemon.service");
    let unit = systemd_unit("/bin/opencli", "127.0.0.1:10008", "/tmp/d.log");
    assert_eq!(
        unit,
        "[Unit]\nDescription=opencli daemon\n\n[Service]\nExecStart=/bin/opencli daemon --addr 127.0.0.1:10008\nRestart=on-failure\nStandardOutput=append:/tmp/d.log\nStandardError=append:/tmp/d.log\n\n[Install]\nWantedBy=default.target\n"
    );
    let plist = launchd_plist("/bin/opencli", "127.0.0.1:10008", "/tmp/d.log");
    assert!(plist.contains("<string>com.opencli.daemon</string>"));
    assert!(plist.contains("<string>/bin/opencli</string>\n        <string>daemon</string>"));
    assert_eq!(plist.matches("<string>/tmp/d.log</string>").count(), 2);
    let s = autostart_status(true, "/Users/u", true, false);
    assert_eq!(s.platform, "launchd");
    assert!(s.installed && !s.loaded);
    assert_eq!(autostart_status(false, "/home/u", false, false).platform, "systemd --user");
}

#[test]
fn rpc_methods_and_params() {
    assert_eq!(rpc_method("daemon.ping"), Ok(RpcMethod::DaemonPing));
    assert_eq!(rpc_method("plugin.update"), Ok(RpcMethod::PluginUpdate));
    assert_eq!(rpc_method("nope"), Err("unknown method: nope".to_string()));
    assert!(include_disabled(&obj(vec![("include_disabled", JsonValue::Bool(true))])));
    assert!(!include_disabled(&JsonValue::Null));
    assert_eq!(search_query(&obj(vec![("query", text("zhihu"))])), "zhihu");
    assert_eq!(search_query(&obj(vec![])), "");
    assert_eq!(name_param(&obj(vec![("name", text("zhihu hot"))])), Ok("zhihu hot".to_string()));
    assert_eq!(name_param(&obj(vec![])), Err("missing 'name' parameter".to_string()));
    assert_eq!(install_source(&obj(vec![("source", text("github:a/b"))])), Ok("github:a/b".to_string()));
    assert_eq!(install_source(&obj(vec![])), Err("missing 'path' parameter".to_string()));
}

#[test]
fn rpc_responses() {
    let ok = JsonRpcResponse::success_with_id(text("r"), Some(JsonValue::Number(JsonNumber::PosInt(7))));
    let j = ok.to_json();
    assert!(matches!(get_field(&j, "ok"), Some(JsonValue::Bool(true))));
    assert!(get_field(&j, "error").is_none());
    assert!(matches!(get_field(&j, "id"), Some(JsonValue::Number(JsonNumber::PosInt(7)))));
    let err = JsonRpcResponse::error("invalid JSON: x", PARSE_ERROR).to_json();
    assert!(matches!(get_field(&err, "code"), Some(JsonValue::Number(JsonNumber::NegInt(-32700)))));
    assert!(get_field(&err, "result").is_none());
    let e2 = JsonRpcResponse::error_with_id("boom", INTERNAL_ERROR, None);
    assert!(!e2.ok);
    assert_eq!(e2.code, Some(-32603));
    assert!(JsonRpcResponse::success(JsonValue::Null).ok);
}

#[test]
fn adapter_counts_and_update_reports() {
    assert_eq!(count_enabled(&vec![true, false, true]), 2);
    assert_eq!(adapter_counts(&vec![true, false, true]), (3, 2, 1));
    let (updated, errors) = update_report(&vec![
        ("a".to_string(), None),
        ("b".to_string(), Some("git failed".to_string())),
        ("c".to_string(), None),
    ]);
    assert_eq!(updated, vec!["a", "c"]);
    assert_eq!(errors, vec![("b".to_string(), "git failed".to_string())]);
}

#[test]
fn adapters_are_searched_and_listed() {
    let entries = || {
        vec![
            entry("zhihu", "hot", "Hot questions", Some("www.zhihu.com"), true),
            entry("bilibili", "hot", "热门视频", Some("www.bilibili.com"), true),
            entry("zhihu", "search", "Search", None, false),
        ]
    };
    let found = search_adapters(entries(), "ZHIHU");
    assert_eq!(found.len(), 1);
    assert_eq!(found[0].full_name, "zhihu hot");
    assert_eq!(search_adapters(entries(), "").len(), 2);
    assert_eq!(search_adapters(entries(), "热门").len(), 1);
    assert_eq!(search_adapters(entries(), "QUESTIONS")[0].site, "zhihu");
    assert_eq!(list_adapters(entries(), false).len(), 2);
    assert_eq!(list_adapters(entries(), true).len(), 3);
}

#[test]
fn adapter_rows_hits_and_local_search() {
    assert_eq!(
        adapter_list_row("zhihu hot", true, false, "Hot questions"),
        format!("{:30} {:10} {:12} {}", "zhihu hot", "yes", "no", "Hot questions")
    );
    let long = "x".repeat(50);
    assert_eq!(adapter_list_row("n", false, true, &long), format!("{:30} {:10} {:12} {}", "n", "no", "yes", "x".repeat(40)));
    assert_eq!(
        adapter_hit_text("zhihu hot", true, "Hot", "opencli zhihu hot"),
        "\nzhihu hot  (browser: yes)\n  Hot\n  用法: opencli zhihu hot\n"
    );
    assert_eq!(adapter_hit_text("a b", false, "", "u"), "\na b  (browser: no)\n  用法: u\n");
    assert!(local_search_hit("zhihu hot", "zhihu", "Hot questions", "", "HOT Q"));
    assert!(local_search_hit("zhihu hot", "zhihu", "", "", ""));
    assert!(!local_search_hit("zhihu hot", "zhihu", "", "", "bilibili"));
}
