//! What the `kv` subcommands of the client decide and print.
use vstd::prelude::*;

use crate::json::{Json, JsonValue};
use crate::json_text::{json_parsed, json_serialized, json_text, parse_json};
use crate::text::{decimal, starts_with, u128_text};

verus! {

/// The value `kv set` stores from its argument: with `--json`, the JSON the
/// text reads as (a text that is no JSON is refused, the reason after
/// `--json value is not valid JSON: `); without it, the text as a string.
pub fn kv_value_arg(raw: &str, as_json: bool) -> (r: Result<JsonValue, String>)
    ensures
        !as_json ==> (r matches Ok(v) && v@ == Json::Str(raw@)),
        as_json ==> match json_parsed(raw@) {
            Some(j) => r matches Ok(v) && v@ == j,
            None => r matches Err(e) && starts_with(e@, "--json value is not valid JSON: "@),
        },
{
    if !as_json {
        return Ok(JsonValue::String(raw.to_owned()));
    }
    match parse_json(raw) {
        Ok(v) => Ok(v),
        Err(reason) => {
            let mut msg = String::from_str("--json value is not valid JSON: ");
            proof {
                reveal_strlit("--json value is not valid JSON: ");
            }
            msg.append(reason.as_str());
            assert(msg@.take(32) =~= "--json value is not valid JSON: "@);
            Err(msg)
        },
    }
}

/// Whether a `kv clear` may run: it needs a prefix, or `--all` to clear
/// every key.
pub fn kv_clear_allowed(prefix: Option<&str>, all: bool) -> (r: Result<(), String>)
    ensures
        match r {
            Ok(()) => prefix is Some || all,
            Err(e) => prefix is None && !all
                && e@ == "Refusing to clear entire KV store without --all (or pass --prefix)"@,
        },
{
    if prefix.is_none() && !all {
        Err(String::from_str("Refusing to clear entire KV store without --all (or pass --prefix)"))
    } else {
        Ok(())
    }
}

/// How a stored value is shown: a string as it is, anything else by its
/// JSON text.
pub open spec fn shown_value(v: Json, json_text: Seq<char>) -> Seq<char> {
    match v {
        Json::Str(s) => s,
        _ => json_text,
    }
}

/// The text `kv get` and `kv list` show for a value.
pub fn kv_value_text(v: &JsonValue) -> (r: String)
    ensures
        r@ == shown_value(v@, json_serialized(v@)),
{
    match v {
        JsonValue::String(s) => s.clone(),
        _ => json_text(v),
    }
}

/// One line of `kv list`: `{key} = {value}  (updated_at={t})`, with
/// ` expires_at={t}` before the closing parenthesis when the entry
/// expires.
pub open spec fn list_line_of(key: Seq<char>, value: Seq<char>, updated_at: u64, expires_at: Option<u64>) -> Seq<char> {
    key + " = "@ + value + "  (updated_at="@ + decimal(updated_at as nat) + match expires_at {
        Some(t) => " expires_at="@ + decimal(t as nat),
        None => Seq::<char>::empty(),
    } + ")"@
}

/// One line of `kv list`.
pub fn kv_list_line(key: &str, value: &str, updated_at: u64, expires_at: Option<u64>) -> (r: String)
    ensures
        r@ == list_line_of(key@, value@, updated_at, expires_at),
{
    let mut s = String::from_str(key);
    s.append(" = ");
    s.append(value);
    s.append("  (updated_at=");
    s.append(u128_text(updated_at as u128).as_str());
    match expires_at {
        Some(t) => {
            s.append(" expires_at=");
            s.append(u128_text(t as u128).as_str());
        },
        None => {},
    }
    s.append(")");
    s
}

} // verus!
