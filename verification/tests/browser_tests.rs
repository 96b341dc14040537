use opencli::browser::{
    builtin_app_port, builtin_apps, daemon_ports, BrowserBridge, DaemonCommand, DaemonResult,
    PORT_RANGE_END, PORT_RANGE_START,
};
use opencli::engine::{
    daemon_mode_port, output_fields,
    already_on_origin, browser_workspace, command_timeout, daemon_port, is_electron,
    pipeline_starts_with_navigate, pre_navigate_url, task_workspace,
};
use opencli::connect::{
    connect_action, connect_error, connect_start, ConnectAction, ConnectEvent, ConnectState,
    FailReason,
};
use opencli::daemon_http::{
    command_refusal, command_result_status, extension_cors_headers, is_extension_origin,
    task_cors_headers, task_route, TaskRoute,
};
use opencli::json::JsonValue;
use std::collections::HashMap;

#[test]
fn test_bridge_construction() {
    let bridge = BrowserBridge::new(19825);
    assert_eq!(bridge.port, Some(19825));
}

#[test]
fn test_bridge_default_port() {
    let bridge = BrowserBridge::default_port();
    assert_eq!(bridge.port, None);
}

#[test]
fn test_port_range_constants() {
    // Verify port range is reasonable (10 ports)
    assert_eq!(PORT_RANGE_START, 19825);
    assert_eq!(PORT_RANGE_END, 19834);
    assert_eq!(PORT_RANGE_END - PORT_RANGE_START + 1, 10);
}

#[test]
fn daemon_ports_cover_the_range_in_order() {
    let ports = daemon_ports();
    assert_eq!(ports.len(), 10);
    assert_eq!(ports[0], 19825);
    assert_eq!(ports[9], 19834);
}

#[test]
fn test_builtin_apps() {
    let apps: HashMap<&str, _> = builtin_apps().into_iter().collect();
    assert!(apps.contains_key("cursor"));
    assert_eq!(apps.get("cursor").unwrap().port, 9226);
    assert_eq!(apps.get("cursor").unwrap().process_name, "Cursor");

    assert!(apps.contains_key("notion"));
    assert_eq!(apps.get("notion").unwrap().port, 9230);
}

#[test]
fn builtin_app_port_looks_up_by_site() {
    assert_eq!(builtin_app_port("discord-app"), Some(9232));
    assert_eq!(builtin_app_port("chatgpt"), Some(9236));
    assert_eq!(builtin_app_port("unknown-app"), None);
}

#[test]
fn daemon_command_builders_set_one_field_each() {
    let cmd = DaemonCommand::new("navigate")
        .with_url("https://example.com")
        .with_workspace("origin:example.com")
        .with_tab_id(7)
        .with_wait_until("commit");
    assert_eq!(cmd.id.len(), 36);
    assert_eq!(cmd.action, "navigate");
    assert_eq!(cmd.url.as_deref(), Some("https://example.com"));
    assert_eq!(cmd.workspace.as_deref(), Some("origin:example.com"));
    assert_eq!(cmd.tab_id, Some(7));
    assert_eq!(cmd.wait_until.as_deref(), Some("commit"));
    assert!(cmd.code.is_none());
    let other = DaemonCommand::new("navigate");
    assert_ne!(cmd.id, other.id);
    let cmd = cmd
        .with_code("1+1")
        .with_format("png")
        .with_method("POST")
        .with_body("{}")
        .with_cookie_url("https://a.b")
        .with_selector("input[type=file]")
        .with_file_paths(vec!["/tmp/a".to_string()])
        .with_request_headers(vec![("X-A".to_string(), "1".to_string())]);
    assert_eq!(cmd.code.as_deref(), Some("1+1"));
    assert_eq!(cmd.format.as_deref(), Some("png"));
    assert_eq!(cmd.method.as_deref(), Some("POST"));
    assert_eq!(cmd.body.as_deref(), Some("{}"));
    assert_eq!(cmd.cookie_url.as_deref(), Some("https://a.b"));
    assert_eq!(cmd.selector.as_deref(), Some("input[type=file]"));
    assert_eq!(cmd.file_paths, Some(vec!["/tmp/a".to_string()]));
    assert_eq!(cmd.request_headers.as_ref().map(|h| h.len()), Some(1));
    assert_eq!(cmd.url.as_deref(), Some("https://example.com"));
}

#[test]
fn daemon_results_carry_data_or_error() {
    let ok = DaemonResult::success("1".to_string(), JsonValue::Bool(true));
    assert!(ok.ok);
    assert!(ok.error.is_none());
    let bad = DaemonResult::failure("2".to_string(), "Extension disconnected".to_string());
    assert!(!bad.ok);
    assert!(bad.data.is_none());
    assert_eq!(bad.error.as_deref(), Some("Extension disconnected"));
}

#[test]
fn browser_workspace_groups_commands_by_configured_origin() {
    assert_eq!(
        browser_workspace(Some("www.zhihu.com"), "zhihu"),
        browser_workspace(Some("www.zhihu.com"), "zhihu")
    );
    assert_eq!(
        browser_workspace(Some("www.zhihu.com/"), "zhihu"),
        "origin:www.zhihu.com"
    );
    assert_ne!(
        task_workspace("zhihu", "hot"),
        task_workspace("zhihu", "search")
    );
}

#[test]
fn browser_workspace_falls_back_to_site_and_lowercases() {
    assert_eq!(browser_workspace(None, "Zhihu"), "origin:zhihu");
    assert_eq!(browser_workspace(Some("  WWW.X.COM// "), "x"), "origin:www.x.com");
    assert_eq!(task_workspace("zhihu", "hot"), "adapter:zhihu:hot");
}

#[test]
fn timeouts_and_ports_read_settings() {
    assert_eq!(command_timeout(Some("90"), Some(30)), 90);
    assert_eq!(command_timeout(Some("abc"), Some(30)), 30);
    assert_eq!(command_timeout(None, None), 60);
    assert_eq!(daemon_port(Some("19830")), 19830);
    assert_eq!(daemon_port(Some("70000")), 19825);
    assert_eq!(daemon_port(None), 19825);
}

#[test]
fn electron_and_navigation_decisions() {
    assert!(is_electron(true, Some("localhost")));
    assert!(is_electron(true, Some("localhost:9226")));
    assert!(!is_electron(false, Some("localhost")));
    assert!(!is_electron(true, Some("example.com")));
    let nav = vec![JsonValue::Object(vec![(
        "navigate".to_string(),
        JsonValue::String("https://x".to_string()),
    )])];
    assert!(pipeline_starts_with_navigate(Some(&nav)));
    let other = vec![JsonValue::Object(vec![(
        "fetch".to_string(),
        JsonValue::Null,
    )])];
    assert!(!pipeline_starts_with_navigate(Some(&other)));
    assert!(!pipeline_starts_with_navigate(None));
    assert!(already_on_origin("https://www.zhihu.com/hot", " WWW.zhihu.com "));
    assert!(!already_on_origin("https://www.zhihu.com/hot", "zhihu.com"));
    assert!(already_on_origin("www.zhihu.com/x", "www.zhihu.com"));
    assert_eq!(pre_navigate_url("www.zhihu.com"), "https://www.zhihu.com");
}

#[test]
fn connecting_scans_for_an_extension_then_starts_a_daemon() {
    let mut bridge = BrowserBridge::default_port();
    let mut s = connect_start();
    assert_eq!(connect_action(s), ConnectAction::CheckChrome);
    s = bridge.connect_step(s, ConnectEvent::Yes);
    assert_eq!(connect_action(s), ConnectAction::ProbeExtension(PORT_RANGE_START));
    for _ in PORT_RANGE_START..=PORT_RANGE_END {
        s = bridge.connect_step(s, ConnectEvent::No);
    }
    assert_eq!(s, ConnectState::FindRunning(PORT_RANGE_START));
    for _ in PORT_RANGE_START..=PORT_RANGE_END {
        s = bridge.connect_step(s, ConnectEvent::No);
    }
    assert_eq!(s, ConnectState::FindFree(PORT_RANGE_START));
    s = bridge.connect_step(s, ConnectEvent::Yes);
    s = bridge.connect_step(s, ConnectEvent::No);
    assert_eq!(connect_action(s), ConnectAction::StartDaemon(PORT_RANGE_START + 1));
    s = bridge.connect_step(s, ConnectEvent::Yes);
    assert_eq!(bridge.port, Some(PORT_RANGE_START + 1));
    assert_eq!(
        connect_action(s),
        ConnectAction::WaitForExtension { port: PORT_RANGE_START + 1, seconds: 5, wake: false, progress: false }
    );
    s = bridge.connect_step(s, ConnectEvent::No);
    assert_eq!(
        connect_action(s),
        ConnectAction::WaitForExtension { port: PORT_RANGE_START + 1, seconds: 25, wake: true, progress: true }
    );
    s = bridge.connect_step(s, ConnectEvent::No);
    assert_eq!(s, ConnectState::Failed(FailReason::ExtensionNotConnected(PORT_RANGE_START + 1)));
    match connect_error(FailReason::ExtensionNotConnected(19826)) {
        opencli::error::CliError::BrowserConnect { message, suggestions } => {
            assert_eq!(message, "Chrome extension not connected");
            assert_eq!(suggestions[2], "The daemon is listening on port 19826");
        }
        other => panic!("unexpected {:?}", other),
    }
}

#[test]
fn connecting_uses_the_configured_port_and_stops_without_chrome() {
    let mut bridge = BrowserBridge::new(9000);
    let s = bridge.connect_step(connect_start(), ConnectEvent::No);
    assert_eq!(s, ConnectState::Failed(FailReason::ChromeNotRunning));
    let mut s = bridge.connect_step(connect_start(), ConnectEvent::Yes);
    for _ in PORT_RANGE_START..=PORT_RANGE_END {
        s = bridge.connect_step(s, ConnectEvent::No);
    }
    assert_eq!(connect_action(s), ConnectAction::ProbeDaemon(9000));
    let s = bridge.connect_step(s, ConnectEvent::No);
    assert_eq!(s, ConnectState::Starting(9000));
    assert_eq!(bridge.connect_step(s, ConnectEvent::StartFailed), ConnectState::Failed(FailReason::StartFailed));
    assert_eq!(bridge.connect_step(s, ConnectEvent::No), ConnectState::Failed(FailReason::NotReady));
    let mut found = BrowserBridge::default_port();
    let s = found.connect_step(ConnectState::FindExtension(19830), ConnectEvent::Yes);
    assert_eq!(s, ConnectState::Connected(19830));
    assert_eq!(found.port, Some(19830));
    match connect_error(FailReason::ChromeNotRunning) {
        opencli::error::CliError::BrowserConnect { message, suggestions } => {
            assert_eq!(message, "Chrome is not running");
            assert_eq!(suggestions.len(), 2);
        }
        other => panic!("unexpected {:?}", other),
    }
}

#[test]
fn daemon_endpoints_gate_requests() {
    assert!(is_extension_origin(Some("chrome-extension://abc")));
    assert!(!is_extension_origin(Some("https://evil.example")));
    assert!(!is_extension_origin(None));
    assert_eq!(task_route(true, false, false, None), TaskRoute::Preflight);
    assert_eq!(task_route(false, true, false, Some("https://evil.example")), TaskRoute::Forbidden);
    assert_eq!(task_route(false, true, false, Some("chrome-extension://abc")), TaskRoute::List);
    assert_eq!(task_route(false, false, true, None), TaskRoute::Update);
    assert!(task_cors_headers(Some("https://evil.example")).is_empty());
    let h = task_cors_headers(Some("chrome-extension://abc"));
    assert_eq!(h[0], ("access-control-allow-origin".to_string(), "chrome-extension://abc".to_string()));
    assert_eq!(h[1].1, "GET, POST, OPTIONS");
    assert_eq!(extension_cors_headers(Some("chrome-extension://abc"))[2].1, "Content-Type");
    assert_eq!(command_refusal(false, true), Some((403, "Missing X-OpenCLI header")));
    assert_eq!(command_refusal(true, false), Some((503, "Chrome extension not connected")));
    assert_eq!(command_refusal(true, true), None);
    assert_eq!(command_result_status(true), 200);
    assert_eq!(command_result_status(false), 422);
}

#[test]
fn daemon_mode_ports_and_output_fields() {
    let args = |v: &[&str]| v.iter().map(|s| s.to_string()).collect::<Vec<String>>();
    assert_eq!(daemon_mode_port(&args(&["opencli", "--daemon", "--port", "19830"]), None), 19830);
    assert_eq!(daemon_mode_port(&args(&["opencli", "--daemon", "--port", "x"]), Some("19831")), 19831);
    assert_eq!(daemon_mode_port(&args(&["opencli", "--daemon", "--port"]), None), 19825);
    assert_eq!(daemon_mode_port(&args(&["opencli", "--daemon"]), Some("99999")), 19825);
    assert_eq!(daemon_mode_port(&args(&["--port", "+80"]), None), 80);
    assert_eq!(output_fields(" title, ,url ,"), vec!["title", "url"]);
    assert_eq!(output_fields(""), Vec::<String>::new());
}
