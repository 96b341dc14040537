//! What the browser extension sends the daemon over its socket: log lines,
//! which the daemon appends to a daily log file, and answers to commands.
use vstd::prelude::*;

use crate::download::str_at;
use crate::json::{get_field, json_get, view_fields, Json, JsonNumber, JsonValue, NumberView};
use crate::json_text::{json_parsed, parse_json};
use crate::text::str_eq;

verus! {

/// What a JSON message from the extension is.
#[derive(Debug)]
pub enum ExtensionMessage {
    /// A log line (`type: "log"`): its level (`info` unless a string is
    /// given), its text (empty unless given) and its time in ms (0 unless
    /// an unsigned integer is given).
    Log { level: String, msg: String, ts: u64 },
    /// Anything else, which the daemon reads as the answer to a command.
    Reply,
}

/// The model of a message: `Some((level, msg, ts))` for a log line.
pub open spec fn message_view(m: ExtensionMessage) -> Option<(Seq<char>, Seq<char>, u64)> {
    match m {
        ExtensionMessage::Log { level, msg, ts } => Some((level@, msg@, ts)),
        ExtensionMessage::Reply => None,
    }
}

/// How the daemon reads a JSON message: a log line when its `type` is the
/// string `log`, else an answer.
pub open spec fn extension_message_of(v: Json) -> Option<(Seq<char>, Seq<char>, u64)> {
    if str_at(v, "type"@) == Some("log"@) {
        Some(
            (
                match str_at(v, "level"@) {
                    Some(l) => l,
                    None => "info"@,
                },
                match str_at(v, "msg"@) {
                    Some(m) => m,
                    None => Seq::empty(),
                },
                match json_get(v, "ts"@) {
                    Some(Json::Number(NumberView::PosInt(t))) => t,
                    _ => 0,
                },
            ),
        )
    } else {
        None
    }
}

fn text_or(v: &JsonValue, k: &str, fallback: &str) -> (r: String)
    ensures
        r@ == match str_at(v@, k@) {
            Some(s) => s,
            None => fallback@,
        },
{
    match get_field(v, k) {
        Some(JsonValue::String(s)) => s.clone(),
        _ => fallback.to_owned(),
    }
}

/// Reads a JSON message from the extension.
pub fn extension_message(v: &JsonValue) -> (r: ExtensionMessage)
    ensures
        message_view(r) == extension_message_of(v@),
{
    let is_log = match get_field(v, "type") {
        Some(JsonValue::String(t)) => str_eq(t.as_str(), "log"),
        _ => false,
    };
    if !is_log {
        return ExtensionMessage::Reply;
    }
    proof {
        reveal_strlit("");
    }
    let ts = match get_field(v, "ts") {
        Some(JsonValue::Number(JsonNumber::PosInt(t))) => *t,
        _ => 0,
    };
    ExtensionMessage::Log { level: text_or(v, "level", "info"), msg: text_or(v, "msg", ""), ts }
}

/// Reads a text message from the extension: a text that is no JSON is
/// refused; JSON is read as `extension_message` reads it.
pub fn extension_text_message(text: &str) -> (r: Result<ExtensionMessage, String>)
    ensures
        match json_parsed(text@) {
            None => r matches Err(e) && e@ == "extension sent non-JSON message"@,
            Some(v) => r matches Ok(m) && message_view(m) == extension_message_of(v),
        },
{
    match parse_json(text) {
        Ok(v) => Ok(extension_message(&v)),
        Err(_) => Err(String::from_str("extension sent non-JSON message")),
    }
}

/// How loud a log line is.
#[derive(Debug, Clone, Copy, PartialEq, Eq, Structural)]
pub enum LogSeverity {
    Info,
    Warn,
    Error,
}

/// The severity a level names: `warn` and `error`, anything else info.
pub open spec fn severity_of(level: Seq<char>) -> LogSeverity {
    if level == "warn"@ {
        LogSeverity::Warn
    } else if level == "error"@ {
        LogSeverity::Error
    } else {
        LogSeverity::Info
    }
}

/// Reads a log line's level.
pub fn log_severity(level: &str) -> (r: LogSeverity)
    ensures
        r == severity_of(level@),
{
    if str_eq(level, "warn") {
        LogSeverity::Warn
    } else if str_eq(level, "error") {
        LogSeverity::Error
    } else {
        LogSeverity::Info
    }
}

/// The record a log line is stored as: `{"level", "msg", "ts"}`.
pub open spec fn log_record_of(level: Seq<char>, msg: Seq<char>, ts: u64) -> Json {
    Json::Object(
        seq![
            ("level"@, Json::Str(level)),
            ("msg"@, Json::Str(msg)),
            ("ts"@, Json::Number(NumberView::PosInt(ts))),
        ],
    )
}

/// The record of a log line.
pub fn log_record(level: &str, msg: &str, ts: u64) -> (r: JsonValue)
    ensures
        r@ == log_record_of(level@, msg@, ts),
{
    let mut f: Vec<(String, JsonValue)> = Vec::new();
    f.push((String::from_str("level"), JsonValue::String(level.to_owned())));
    f.push((String::from_str("msg"), JsonValue::String(msg.to_owned())));
    f.push((String::from_str("ts"), JsonValue::Number(JsonNumber::PosInt(ts))));
    proof {
        reveal_with_fuel(view_fields, 4);
        assert(view_fields(f@) =~= log_record_of(level@, msg@, ts)->Object_0);
    }
    JsonValue::Object(f)
}

/// The name of the day's log file, given the day as `YYYYMMDD`.
pub open spec fn log_file_name_of(day: Seq<char>) -> Seq<char> {
    "extension-"@ + day + ".jsonl"@
}

/// Names the day's log file.
pub fn log_file_name(day: &str) -> (r: String)
    ensures
        r@ == log_file_name_of(day@),
{
    let mut s = String::from_str("extension-");
    s.append(day);
    s.append(".jsonl");
    s
}

/// The commands waiting for the extension's answer, by id, oldest first.
pub open spec fn ids_view(v: Seq<String>) -> Seq<Seq<char>> {
    v.map_values(|s: String| s@)
}

/// Records that a command was sent and waits for its answer.
pub fn add_pending(pending: &mut Vec<String>, id: String)
    ensures
        ids_view(final(pending)@) == ids_view(old(pending)@).push(id@),
{
    let ghost before = ids_view(pending@);
    pending.push(id);
    assert(ids_view(pending@) =~= before.push(id@));
}

/// Takes the command an answer (or a give-up) is for off the waiting
/// list: true when it was waiting, its first entry removed; false for an
/// answer to an unknown command, the list unchanged.
pub fn take_pending(pending: &mut Vec<String>, id: &str) -> (found: bool)
    ensures
        found == ids_view(old(pending)@).contains(id@),
        found ==> exists|i: int|
            0 <= i < old(pending)@.len() && ids_view(old(pending)@)[i] == id@ && (forall|j: int|
                0 <= j < i ==> ids_view(old(pending)@)[j] != id@) && ids_view(final(pending)@) == ids_view(
                old(pending)@,
            ).remove(i),
        !found ==> final(pending)@ == old(pending)@,
{
    let ghost before = ids_view(pending@);
    let mut i: usize = 0;
    while i < pending.len()
        invariant
            i <= pending.len(),
            before == ids_view(pending@),
            before.len() == pending@.len(),
            pending@ == old(pending)@,
            forall|j: int| 0 <= j < i ==> before[j] != id@,
        decreases pending.len() - i,
    {
        if str_eq(pending[i].as_str(), id) {
            pending.remove(i);
            assert(ids_view(pending@) =~= before.remove(i as int));
            assert(before.contains(id@)) by {
                assert(before[i as int] == id@);
            }
            return true;
        }
        i = i + 1;
    }
    assert(!before.contains(id@)) by {
        if before.contains(id@) {
            let j = choose|j: int| 0 <= j < before.len() && before[j] == id@;
            assert(before[j] != id@);
        }
    }
    false
}

/// What closing an extension connection does: when a newer connection
/// has taken over (`active` is not `mine`), nothing; otherwise every
/// waiting command is answered, once and in order, with the failure
/// `Extension disconnected`, and none waits any more.
pub fn close_connection(active: u64, mine: u64, pending: &mut Vec<String>) -> (r: Option<Vec<(String, String)>>)
    ensures
        active != mine ==> r is None && final(pending)@ == old(pending)@,
        active == mine ==> (r matches Some(f) && final(pending)@.len() == 0 && f@.len() == old(pending)@.len()
            && forall|k: int|
            0 <= k < f@.len() ==> (#[trigger] f@[k]).0@ == old(pending)@[k]@ && f@[k].1@
                == "Extension disconnected"@),
{
    if active != mine {
        return None;
    }
    let mut failures: Vec<(String, String)> = Vec::new();
    let mut i: usize = 0;
    while i < pending.len()
        invariant
            i <= pending.len(),
            pending@ == old(pending)@,
            failures@.len() == i,
            forall|k: int|
                0 <= k < i ==> (#[trigger] failures@[k]).0@ == pending@[k]@ && failures@[k].1@
                    == "Extension disconnected"@,
        decreases pending.len() - i,
    {
        failures.push((pending[i].clone(), String::from_str("Extension disconnected")));
        i = i + 1;
    }
    pending.clear();
    Some(failures)
}

} // verus!
