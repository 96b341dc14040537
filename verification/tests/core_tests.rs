use opencli::adapter_settings::AdapterSettings;
use opencli::error::{classify_js_error, CliError};
use opencli::json::{JsonNumber, JsonValue};
use opencli::kv_cli::{kv_clear_allowed, kv_list_line, kv_value_text};
use opencli::kv::{
    clear_at, del_at, get_at, list_at, parse_ttl, set_at, ttl_text_supported, KvEntry, KvFile,
};

fn text(s: &str) -> JsonValue {
    JsonValue::String(s.to_string())
}

fn is_text(v: &JsonValue, s: &str) -> bool {
    matches!(v, JsonValue::String(t) if t == s)
}

#[test]
fn parse_ttl_units() {
    assert_eq!(parse_ttl("30").unwrap(), 30);
    assert_eq!(parse_ttl("2m").unwrap(), 120);
    assert_eq!(parse_ttl("1h").unwrap(), 3600);
    assert_eq!(parse_ttl("1d").unwrap(), 86400);
    assert!(parse_ttl("x").is_err());
}

#[test]
fn parse_ttl_errors_and_edges() {
    assert_eq!(parse_ttl("   ").unwrap_err(), "kv: empty ttl");
    assert_eq!(parse_ttl("x").unwrap_err(), "kv: invalid ttl 'x'");
    assert_eq!(
        parse_ttl("5w").unwrap_err(),
        "kv: invalid ttl unit in '5w' (use s/m/h/d)"
    );
    assert_eq!(parse_ttl(" 15 M ").unwrap(), 900);
    assert_eq!(parse_ttl("+7").unwrap(), 7);
    assert_eq!(parse_ttl("99999999999999999999d").unwrap_err(), "kv: invalid ttl '99999999999999999999d'");
    assert_eq!(parse_ttl("999999999999999999d").unwrap(), u64::MAX);
    assert!(ttl_text_supported("30s"));
    assert!(!ttl_text_supported("30é"));
}

#[test]
fn set_get_del_roundtrip() {
    let mut store = KvFile::new();
    set_at(&mut store, "xiaohongshu:me.userId", text("abc123def456"), None, 100).unwrap();
    let got = get_at(&mut store, "xiaohongshu:me.userId", 200).unwrap();
    assert!(is_text(&got.unwrap(), "abc123def456"));
    assert!(del_at(&mut store, "xiaohongshu:me.userId").unwrap());
    assert!(get_at(&mut store, "xiaohongshu:me.userId", 200).unwrap().is_none());
    assert!(!del_at(&mut store, "xiaohongshu:me.userId").unwrap());
}

#[test]
fn kv_rejects_bad_keys_and_values() {
    let mut store = KvFile::new();
    assert_eq!(set_at(&mut store, "  ", text("v"), None, 0).unwrap_err(), "kv: empty key");
    assert_eq!(
        set_at(&mut store, "k", JsonValue::Null, None, 0).unwrap_err(),
        "kv: refusing to store null (use del)"
    );
    assert_eq!(
        set_at(&mut store, "k", text(""), None, 0).unwrap_err(),
        "kv: refusing to store empty string"
    );
    assert_eq!(
        set_at(&mut store, "k", text("v"), Some("2x"), 0).unwrap_err(),
        "kv: invalid ttl unit in '2x' (use s/m/h/d)"
    );
    assert_eq!(get_at(&mut store, "", 0).unwrap_err(), "kv: empty key");
    assert_eq!(del_at(&mut store, " ").unwrap_err(), "kv: empty key");
    assert!(store.entries.is_empty());
}

#[test]
fn ttl_expires() {
    let mut store = KvFile::new();
    set_at(&mut store, "k", text("v"), Some("1"), 50).unwrap();
    store.entries[0].1.expires_at = Some(1);
    assert!(get_at(&mut store, "k", 50).unwrap().is_none());
}

#[test]
fn kv_ttl_expires_and_is_dropped() {
    let mut store = KvFile::new();
    set_at(&mut store, "k", text("v"), Some("1"), 1000).unwrap();
    assert_eq!(store.entries[0].1.expires_at, Some(1001));
    assert!(get_at(&mut store, "k", 1000).unwrap().is_some());
    assert!(get_at(&mut store, "k", 1001).unwrap().is_none());
    assert!(store.entries.is_empty());
    set_at(&mut store, "k2", text("v"), Some("  "), 5).unwrap();
    assert_eq!(store.entries[0].1.expires_at, None);
}

#[test]
fn list_prefix_and_clear() {
    let mut store = KvFile::new();
    set_at(&mut store, "xiaohongshu:me.userId", text("u1"), None, 1).unwrap();
    set_at(&mut store, "xiaohongshu:me.redId", text("r1"), None, 1).unwrap();
    set_at(&mut store, "bilibili:me.mid", text("m1"), None, 1).unwrap();
    let xs = list_at(&mut store, Some("xiaohongshu:"), 2).unwrap();
    assert_eq!(xs.len(), 2);
    assert_eq!(xs[0].0, "xiaohongshu:me.redId");
    assert_eq!(xs[1].0, "xiaohongshu:me.userId");
    assert_eq!(clear_at(&mut store, Some("xiaohongshu:")).unwrap(), 2);
    assert_eq!(list_at(&mut store, None, 2).unwrap().len(), 1);
    assert_eq!(clear_at(&mut store, None).unwrap(), 1);
    assert!(store.entries.is_empty());
}

#[test]
fn kv_entries_stay_sorted_and_overwrite() {
    let mut store = KvFile::new();
    for k in ["b", "a", "c", "a"] {
        set_at(&mut store, k, text(k), None, 3).unwrap();
    }
    let keys: Vec<&str> = store.entries.iter().map(|(k, _)| k.as_str()).collect();
    assert_eq!(keys, vec!["a", "b", "c"]);
    set_at(&mut store, "b", JsonValue::Number(JsonNumber::PosInt(5)), None, 9).unwrap();
    let e: &KvEntry = &store.entries[1].1;
    assert!(matches!(e.value, JsonValue::Number(JsonNumber::PosInt(5))));
    assert_eq!(e.updated_at, 9);
    assert_eq!(store.version, 1);
}

#[test]
fn kv_list_drops_expired_entries() {
    let mut store = KvFile::new();
    set_at(&mut store, "old", text("x"), Some("10s"), 0).unwrap();
    set_at(&mut store, "new", text("y"), None, 0).unwrap();
    let listed = list_at(&mut store, None, 10).unwrap();
    assert_eq!(listed.len(), 1);
    assert_eq!(listed[0].0, "new");
    assert_eq!(store.entries.len(), 1);
}

#[test]
fn adapter_names_are_normalized() {
    assert_eq!(AdapterSettings::normalize_name("  bilibili/hot  "), "bilibili hot");
    assert_eq!(AdapterSettings::normalize_name("a \t b//c"), "a b c");
    assert_eq!(AdapterSettings::normalize_name("///"), "");
}

#[test]
fn disable_and_enable_adapters() {
    let mut s = AdapterSettings::new();
    assert_eq!(s.disable("  ").unwrap_err(), "adapter name is empty");
    assert!(s.disable("zhihu/hot").unwrap());
    assert!(!s.disable("zhihu hot").unwrap());
    assert!(s.disable("bilibili").unwrap());
    assert_eq!(s.disabled, vec!["bilibili".to_string(), "zhihu hot".to_string()]);
    assert!(s.is_disabled("zhihu hot"));
    assert!(!s.is_disabled("zhihu search"));
    assert!(s.is_disabled("bilibili feed"));
    assert!(s.is_disabled("bilibili"));
    assert!(s.enable("zhihu  hot").unwrap());
    assert!(!s.enable("zhihu hot").unwrap());
    assert!(!s.is_disabled("zhihu hot"));
    assert_eq!(s.enable("").unwrap_err(), "adapter name is empty");
}

#[test]
fn classifies_auth_and_gone() {
    let err = classify_js_error("Error: AUTH_REQUIRED: zhihu.com").unwrap();
    assert_eq!(err.code(), "AUTH_REQUIRED");
    let gone = classify_js_error("知乎接口失败: 该账号已注销").unwrap();
    assert_eq!(gone.code(), "GONE");
    let empty = classify_js_error("该用户没有可读取的公开内容").unwrap();
    assert_eq!(empty.code(), "EMPTY_RESULT");
}

#[test]
fn empty_exits_zero() {
    assert_eq!(CliError::empty_result("none").exit_code(), 0);
    assert_eq!(CliError::gone("x").exit_code(), 2);
}

#[test]
fn errors_show_codes_icons_and_text() {
    let e = CliError::rate_limit("slow down");
    assert_eq!(e.code(), "RATE_LIMIT");
    assert_eq!(e.exit_code(), 4);
    assert_eq!(e.icon(), "🛑");
    assert_eq!(e.display_text(), "[rate_limit] slow down");
    assert!(!e.is_soft_empty());
    assert_eq!(CliError::auth_required("x").exit_code(), 3);
    assert_eq!(CliError::argument("x").exit_code(), 2);
    assert_eq!(CliError::timeout("x").exit_code(), 1);
    assert!(CliError::empty_result("x").is_soft_empty());
    assert_eq!(CliError::Io("disk".to_string()).display_text(), "[io] disk");
    assert!(CliError::Io("disk".to_string()).suggestions().is_empty());
    assert!(classify_js_error("all fine").is_none());
    assert_eq!(classify_js_error("HTTP 429 Too Many").unwrap().code(), "RATE_LIMIT");
    assert_eq!(classify_js_error("page is empty").unwrap().code(), "EMPTY_RESULT");
}

#[test]
fn classify_rewrites_by_displayed_text() {
    let e = CliError::pipeline("auth_required: please log in").classify();
    assert_eq!(e.code(), "AUTH_REQUIRED");
    assert_eq!(e.display_text(), "[auth] [pipeline] auth_required: please log in");
    let e = CliError::pipeline("boom").classify();
    assert_eq!(e.code(), "PIPELINE");
    let json = CliError::CommandExecution {
        message: "m".to_string(),
        suggestions: vec!["try again".to_string()],
    }
    .to_json();
    match json {
        JsonValue::Object(fields) => {
            let keys: Vec<&str> = fields.iter().map(|(k, _)| k.as_str()).collect();
            assert_eq!(keys, vec!["code", "error", "ok", "suggestions"]);
            assert!(matches!(&fields[0].1, JsonValue::String(s) if s == "COMMAND_EXECUTION"));
            assert!(matches!(&fields[1].1, JsonValue::String(s) if s == "[command] m"));
            assert!(matches!(fields[2].1, JsonValue::Bool(false)));
            assert!(matches!(&fields[3].1, JsonValue::Array(a) if a.len() == 1));
        }
        _ => panic!("not an object"),
    }
}

#[test]
fn kv_cli_guards_clear_and_formats_lines() {
    assert_eq!(
        kv_clear_allowed(None, false).unwrap_err(),
        "Refusing to clear entire KV store without --all (or pass --prefix)"
    );
    assert!(kv_clear_allowed(Some("site:"), false).is_ok());
    assert!(kv_clear_allowed(None, true).is_ok());
    assert_eq!(kv_list_line("k", "v", 10, None), "k = v  (updated_at=10)");
    assert_eq!(kv_list_line("k", "v", 10, Some(20)), "k = v  (updated_at=10 expires_at=20)");
    assert_eq!(kv_value_text(&JsonValue::String("s".into())), "s");
    assert_eq!(kv_value_text(&JsonValue::Bool(true)), "true");
    assert_eq!(
        kv_value_text(&JsonValue::Array(vec![JsonValue::Number(JsonNumber::NegInt(-2)), JsonValue::String("a\"b".into())])),
        "[-2,\"a\\\"b\"]"
    );
}
