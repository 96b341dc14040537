//! The daemon's line-based JSON-RPC protocol: the methods it serves, the
//! parameters each reads, and the responses it writes.
use vstd::prelude::*;

use crate::download::{either_field, str_at, str_of};
use crate::json::{get_field, insert_field, json_get, view_fields, view_items, Json, JsonNumber, JsonValue, NumberView};
use crate::kv_steps::{flag_of, opt_json};
use crate::text::{str_eq, texts};

verus! {

/// The methods the daemon serves.
#[derive(Debug, Clone, Copy, PartialEq, Eq, Structural)]
pub enum RpcMethod {
    DaemonStatus,
    DaemonPing,
    DaemonStop,
    AdapterList,
    AdapterSearch,
    AdapterEnable,
    AdapterDisable,
    AdapterReload,
    PluginInstall,
    PluginUninstall,
    PluginList,
    PluginUpdate,
}

/// The method a request names.
pub open spec fn rpc_method_of(name: Seq<char>) -> Option<RpcMethod> {
    if name == "daemon.status"@ {
        Some(RpcMethod::DaemonStatus)
    } else if name == "daemon.ping"@ {
        Some(RpcMethod::DaemonPing)
    } else if name == "daemon.stop"@ {
        Some(RpcMethod::DaemonStop)
    } else if name == "adapter.list"@ {
        Some(RpcMethod::AdapterList)
    } else if name == "adapter.search"@ {
        Some(RpcMethod::AdapterSearch)
    } else if name == "adapter.enable"@ {
        Some(RpcMethod::AdapterEnable)
    } else if name == "adapter.disable"@ {
        Some(RpcMethod::AdapterDisable)
    } else if name == "adapter.reload"@ {
        Some(RpcMethod::AdapterReload)
    } else if name == "plugin.install"@ {
        Some(RpcMethod::PluginInstall)
    } else if name == "plugin.uninstall"@ {
        Some(RpcMethod::PluginUninstall)
    } else if name == "plugin.list"@ {
        Some(RpcMethod::PluginList)
    } else if name == "plugin.update"@ {
        Some(RpcMethod::PluginUpdate)
    } else {
        None
    }
}

/// The method a request names; an unknown one is an error.
pub fn rpc_method(name: &str) -> (r: Result<RpcMethod, String>)
    ensures
        match r {
            Ok(m) => rpc_method_of(name@) == Some(m),
            Err(e) => rpc_method_of(name@) is None && e@ == "unknown method: "@ + name@,
        },
{
    if str_eq(name, "daemon.status") {
        Ok(RpcMethod::DaemonStatus)
    } else if str_eq(name, "daemon.ping") {
        Ok(RpcMethod::DaemonPing)
    } else if str_eq(name, "daemon.stop") {
        Ok(RpcMethod::DaemonStop)
    } else if str_eq(name, "adapter.list") {
        Ok(RpcMethod::AdapterList)
    } else if str_eq(name, "adapter.search") {
        Ok(RpcMethod::AdapterSearch)
    } else if str_eq(name, "adapter.enable") {
        Ok(RpcMethod::AdapterEnable)
    } else if str_eq(name, "adapter.disable") {
        Ok(RpcMethod::AdapterDisable)
    } else if str_eq(name, "adapter.reload") {
        Ok(RpcMethod::AdapterReload)
    } else if str_eq(name, "plugin.install") {
        Ok(RpcMethod::PluginInstall)
    } else if str_eq(name, "plugin.uninstall") {
        Ok(RpcMethod::PluginUninstall)
    } else if str_eq(name, "plugin.list") {
        Ok(RpcMethod::PluginList)
    } else if str_eq(name, "plugin.update") {
        Ok(RpcMethod::PluginUpdate)
    } else {
        let mut e = String::from_str("unknown method: ");
        e.append(name);
        Err(e)
    }
}

/// Whether `adapter.list` includes disabled adapters (default no).
pub fn include_disabled(params: &JsonValue) -> (r: bool)
    ensures
        r == flag_of(params@, "include_disabled"@, false),
{
    match get_field(params, "include_disabled") {
        Some(JsonValue::Bool(b)) => *b,
        _ => false,
    }
}

/// The query of `adapter.search` (empty when missing).
pub fn search_query(params: &JsonValue) -> (r: String)
    ensures
        r@ == match str_at(params@, "query"@) {
            Some(q) => q,
            None => Seq::<char>::empty(),
        },
{
    match get_field(params, "query") {
        Some(JsonValue::String(q)) => q.clone(),
        _ => String::new(),
    }
}

/// The `name` parameter a method needs.
pub fn name_param(params: &JsonValue) -> (r: Result<String, String>)
    ensures
        match r {
            Ok(n) => str_at(params@, "name"@) == Some(n@),
            Err(e) => str_at(params@, "name"@) is None && e@ == "missing 'name' parameter"@,
        },
{
    match get_field(params, "name") {
        Some(JsonValue::String(n)) => Ok(n.clone()),
        _ => Err(String::from_str("missing 'name' parameter")),
    }
}

/// The source `plugin.install` installs: its `path`, else its `source`.
pub fn install_source(params: &JsonValue) -> (r: Result<String, String>)
    ensures
        match r {
            Ok(s) => str_of(either_field(params@, "path"@, "source"@)) == Some(s@),
            Err(e) => str_of(either_field(params@, "path"@, "source"@)) is None && e@
                == "missing 'path' parameter"@,
        },
{
    let f = match get_field(params, "path") {
        Some(x) => Some(x),
        None => get_field(params, "source"),
    };
    match f {
        Some(JsonValue::String(s)) => Ok(s.clone()),
        _ => Err(String::from_str("missing 'path' parameter")),
    }
}

/// A response of the protocol.
#[derive(Debug)]
pub struct JsonRpcResponse {
    pub ok: bool,
    pub result: Option<JsonValue>,
    pub error: Option<String>,
    pub code: Option<i32>,
    pub id: Option<JsonValue>,
}

/// Error code of a request that is not JSON.
pub const PARSE_ERROR: i32 = -32700;

/// Error code of a request that failed.
pub const INTERNAL_ERROR: i32 = -32603;

impl JsonRpcResponse {
    /// A successful response without an id.
    pub fn success(result: JsonValue) -> (r: JsonRpcResponse)
        ensures
            r.ok,
            opt_json(r.result) == Some(result@),
            r.error is None,
            r.code is None,
            r.id is None,
    {
        JsonRpcResponse { ok: true, result: Some(result), error: None, code: None, id: None }
    }

    /// A successful response to the request with `id`.
    pub fn success_with_id(result: JsonValue, id: Option<JsonValue>) -> (r: JsonRpcResponse)
        ensures
            r.ok,
            opt_json(r.result) == Some(result@),
            r.error is None,
            r.code is None,
            opt_json(r.id) == opt_json(id),
    {
        JsonRpcResponse { ok: true, result: Some(result), error: None, code: None, id }
    }

    /// A failure without an id.
    pub fn error(msg: &str, code: i32) -> (r: JsonRpcResponse)
        ensures
            !r.ok,
            r.result is None,
            r.error matches Some(e) && e@ == msg@,
            r.code == Some(code),
            r.id is None,
    {
        JsonRpcResponse { ok: false, result: None, error: Some(msg.to_owned()), code: Some(code), id: None }
    }

    /// A failure of the request with `id`.
    pub fn error_with_id(msg: &str, code: i32, id: Option<JsonValue>) -> (r: JsonRpcResponse)
        ensures
            !r.ok,
            r.result is None,
            r.error matches Some(e) && e@ == msg@,
            r.code == Some(code),
            opt_json(r.id) == opt_json(id),
    {
        JsonRpcResponse { ok: false, result: None, error: Some(msg.to_owned()), code: Some(code), id }
    }

    /// The response as a JSON object: `ok`, then `result`, `error`, `code`
    /// and `id` when present.
    pub fn to_json(&self) -> (r: JsonValue)
        ensures
            r@ == response_json(self.ok, opt_json(self.result), match self.error {
                Some(e) => Some(e@),
                None => None,
            }, self.code, opt_json(self.id)),
    {
        let mut f: Vec<(String, JsonValue)> = Vec::new();
        f.push((String::from_str("ok"), JsonValue::Bool(self.ok)));
        let ghost f0 = f@;
        proof {
            reveal_with_fuel(view_fields, 2);
            assert(view_fields(f0) =~= seq![("ok"@, Json::Bool(self.ok))]);
        }
        match &self.result {
            Some(v) => {
                let ghost b = f@;
                f.push((String::from_str("result"), v.deep_clone()));
                proof { crate::json::lemma_view_fields_push(b, f@[f@.len() - 1]); }
            },
            None => {},
        }
        match &self.error {
            Some(e) => {
                let ghost b = f@;
                f.push((String::from_str("error"), JsonValue::String(e.clone())));
                proof { crate::json::lemma_view_fields_push(b, f@[f@.len() - 1]); }
            },
            None => {},
        }
        match self.code {
            Some(c) => {
                let ghost b = f@;
                let n = if c < 0 { JsonNumber::NegInt(c as i64) } else { JsonNumber::PosInt(c as u64) };
                f.push((String::from_str("code"), JsonValue::Number(n)));
                proof { crate::json::lemma_view_fields_push(b, f@[f@.len() - 1]); }
            },
            None => {},
        }
        match &self.id {
            Some(v) => {
                let ghost b = f@;
                f.push((String::from_str("id"), v.deep_clone()));
                proof { crate::json::lemma_view_fields_push(b, f@[f@.len() - 1]); }
            },
            None => {},
        }
        JsonValue::Object(f)
    }
}

/// A JSON number for a 32-bit code.
pub open spec fn code_number(c: i32) -> Json {
    if c < 0 {
        Json::Number(NumberView::NegInt(c as i64))
    } else {
        Json::Number(NumberView::PosInt(c as u64))
    }
}

/// A response as JSON: `ok`, then the present fields in order.
pub open spec fn response_json(
    ok: bool,
    result: Option<Json>,
    error: Option<Seq<char>>,
    code: Option<i32>,
    id: Option<Json>,
) -> Json {
    let f0 = seq![("ok"@, Json::Bool(ok))];
    let f1 = match result {
        Some(v) => f0.push(("result"@, v)),
        None => f0,
    };
    let f2 = match error {
        Some(e) => f1.push(("error"@, Json::Str(e))),
        None => f1,
    };
    let f3 = match code {
        Some(c) => f2.push(("code"@, code_number(c))),
        None => f2,
    };
    let f4 = match id {
        Some(v) => f3.push(("id"@, v)),
        None => f3,
    };
    Json::Object(f4)
}


/// How many of the adapters are enabled.
pub open spec fn enabled_count(flags: Seq<bool>) -> nat
    decreases flags.len(),
{
    if flags.len() == 0 {
        0
    } else {
        enabled_count(flags.drop_last()) + if flags.last() { 1nat } else { 0nat }
    }
}

proof fn lemma_enabled_count_bound(flags: Seq<bool>)
    ensures
        enabled_count(flags) <= flags.len(),
    decreases flags.len(),
{
    if flags.len() > 0 {
        lemma_enabled_count_bound(flags.drop_last());
    }
}

/// Counts the enabled adapters.
pub fn count_enabled(flags: &Vec<bool>) -> (r: usize)
    ensures
        r == enabled_count(flags@),
        r <= flags.len(),
{
    let mut n: usize = 0;
    let mut i: usize = 0;
    while i < flags.len()
        invariant
            i <= flags.len(),
            n == enabled_count(flags@.take(i as int)),
            n <= i,
        decreases flags.len() - i,
    {
        assert(flags@.take(i + 1).drop_last() =~= flags@.take(i as int));
        if flags[i] {
            n = n + 1;
        }
        i = i + 1;
    }
    assert(flags@.take(flags.len() as int) =~= flags@);
    n
}

/// The counts `daemon.status` reports: all adapters, the enabled ones and
/// the disabled ones.
pub fn adapter_counts(flags: &Vec<bool>) -> (r: (usize, usize, usize))
    ensures
        r.0 == flags.len(),
        r.1 == enabled_count(flags@),
        r.2 == flags.len() - enabled_count(flags@),
{
    let total = flags.len();
    let enabled = count_enabled(flags);
    (total, enabled, total - enabled)
}

/// What updating every plugin reports: the names that updated and, for
/// each failure, the plugin and its error.
pub open spec fn update_report_of(results: Seq<(Seq<char>, Option<Seq<char>>)>) -> (Seq<Seq<char>>, Seq<(Seq<char>, Seq<char>)>)
    decreases results.len(),
{
    if results.len() == 0 {
        (Seq::empty(), Seq::empty())
    } else {
        let (u, e) = update_report_of(results.drop_last());
        let last = results.last();
        match last.1 {
            None => (u.push(last.0), e),
            Some(err) => (u, e.push((last.0, err))),
        }
    }
}

pub open spec fn results_view(v: Seq<(String, Option<String>)>) -> Seq<(Seq<char>, Option<Seq<char>>)> {
    v.map_values(|p: (String, Option<String>)| (p.0@, match p.1 {
        Some(e) => Some(e@),
        None => None,
    }))
}

pub open spec fn pairs_of(v: Seq<(String, String)>) -> Seq<(Seq<char>, Seq<char>)> {
    v.map_values(|p: (String, String)| (p.0@, p.1@))
}

/// Splits the outcomes of updating every plugin (`None` for success, the
/// error otherwise) into the names that updated and the failures.
pub fn update_report(results: &Vec<(String, Option<String>)>) -> (r: (Vec<String>, Vec<(String, String)>))
    ensures
        (texts(r.0@), pairs_of(r.1@)) == update_report_of(results_view(results@)),
{
    let ghost all = results_view(results@);
    let mut updated: Vec<String> = Vec::new();
    let mut errors: Vec<(String, String)> = Vec::new();
    let mut i: usize = 0;
    while i < results.len()
        invariant
            i <= results.len(),
            all == results_view(results@),
            all.len() == results@.len(),
            (texts(updated@), pairs_of(errors@)) == update_report_of(all.take(i as int)),
        decreases results.len() - i,
    {
        assert(all.take(i + 1).drop_last() =~= all.take(i as int));
        assert(all.take(i + 1).last() == all[i as int]);
        let name = results[i].0.clone();
        match &results[i].1 {
            None => {
                let ghost b = updated@;
                updated.push(name);
                assert(texts(updated@) =~= texts(b).push(all[i as int].0));
            },
            Some(e) => {
                let ghost b = errors@;
                errors.push((name, e.clone()));
                assert(pairs_of(errors@) =~= pairs_of(b).push((all[i as int].0, e@)));
            },
        }
        i = i + 1;
    }
    assert(all.take(all.len() as int) =~= all);
    (updated, errors)
}

} // verus!
