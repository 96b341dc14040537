use opencli::ext_messages::extension_text_message;
use opencli::kv_cli::kv_value_arg;
use opencli::ext_messages::{
    extension_message, log_file_name, log_record, log_severity, ExtensionMessage, LogSeverity,
};
use opencli::json::{get_field, JsonNumber, JsonValue};

fn text(s: &str) -> JsonValue {
    JsonValue::String(s.to_string())
}

fn obj(fields: Vec<(&str, JsonValue)>) -> JsonValue {
    JsonValue::Object(fields.into_iter().map(|(k, v)| (k.to_string(), v)).collect())
}

#[test]
fn log_lines_are_told_from_replies() {
    let m = extension_message(&obj(vec![
        ("type", text("log")),
        ("level", text("warn")),
        ("msg", text("tab closed")),
        ("ts", JsonValue::Number(JsonNumber::PosInt(1712345678901))),
    ]));
    match m {
        ExtensionMessage::Log { level, msg, ts } => {
            assert_eq!(level, "warn");
            assert_eq!(msg, "tab closed");
            assert_eq!(ts, 1712345678901);
        }
        ExtensionMessage::Reply => panic!("a log line"),
    }
    let m = extension_message(&obj(vec![("type", text("log")), ("ts", JsonValue::Number(JsonNumber::NegInt(-5)))]));
    assert!(matches!(m, ExtensionMessage::Log { ref level, ref msg, ts: 0 } if level == "info" && msg.is_empty()));
    let m = extension_message(&obj(vec![("id", text("cmd-1")), ("ok", JsonValue::Bool(true))]));
    assert!(matches!(m, ExtensionMessage::Reply));
    assert!(matches!(extension_message(&text("log")), ExtensionMessage::Reply));
}

#[test]
fn log_levels_and_records() {
    assert_eq!(log_severity("warn"), LogSeverity::Warn);
    assert_eq!(log_severity("error"), LogSeverity::Error);
    assert_eq!(log_severity("debug"), LogSeverity::Info);
    let r = log_record("info", "hello", 7);
    assert!(matches!(get_field(&r, "level"), Some(JsonValue::String(l)) if l == "info"));
    assert!(matches!(get_field(&r, "msg"), Some(JsonValue::String(m)) if m == "hello"));
    assert!(matches!(get_field(&r, "ts"), Some(JsonValue::Number(JsonNumber::PosInt(7)))));
    assert_eq!(log_file_name("20260410"), "extension-20260410.jsonl");
}

#[test]
fn text_messages_are_read_as_json() {
    match extension_text_message(r#"{"type":"log","level":"error","msg":"boom","ts":5}"#).unwrap() {
        ExtensionMessage::Log { level, msg, ts } => {
            assert_eq!((level.as_str(), msg.as_str(), ts), ("error", "boom", 5));
        }
        ExtensionMessage::Reply => panic!("a log line"),
    }
    assert!(matches!(extension_text_message(r#"{"id":"1","ok":true}"#), Ok(ExtensionMessage::Reply)));
    assert_eq!(extension_text_message("not json").unwrap_err(), "extension sent non-JSON message");
}

#[test]
fn kv_set_values_read_json_when_asked() {
    assert!(matches!(kv_value_arg("42", false), Ok(JsonValue::String(s)) if s == "42"));
    assert!(matches!(kv_value_arg("42", true), Ok(JsonValue::Number(JsonNumber::PosInt(42)))));
    assert!(matches!(kv_value_arg("[1, -2]", true), Ok(JsonValue::Array(a)) if a.len() == 2));
    let e = kv_value_arg("{oops", true).unwrap_err();
    assert!(e.starts_with("--json value is not valid JSON: "));
}
