//! The `kv_get` and `kv_set` pipeline steps over a loaded key-value store.
//! Their parameters' templates are rendered by the caller; what the steps
//! decide from the rendered texts is here.
use vstd::prelude::*;

use crate::download::str_at;
use crate::error::{message_of, CliError};
use crate::json::{
    field_value, find_field, get_field, insert_field, json_get, lemma_view_fields_index,
    lemma_view_fields_len, lemma_view_items_len, set_field, view_fields, Json, JsonValue,
};
use crate::kv::{get_at, get_outcome, set_at, set_outcome, EntryView, KvFile};
use crate::steps::{KvGetStep, KvSetStep};
use crate::text::{chars_of, concat3, trim, trim_chars, trim_str};

verus! {

/// Whether a value counts as empty: null, blank text, an empty array or an
/// empty object.
pub open spec fn empty_json(v: Json) -> bool {
    match v {
        Json::Null => true,
        Json::Str(s) => trim(s).len() == 0,
        Json::Array(a) => a.len() == 0,
        Json::Object(o) => o.len() == 0,
        _ => false,
    }
}

/// Whether a value counts as empty for the key-value steps.
pub fn is_empty_value(v: &JsonValue) -> (r: bool)
    ensures
        r == empty_json(v@),
{
    match v {
        JsonValue::Null => true,
        JsonValue::String(s) => trim_chars(&chars_of(s.as_str())).len() == 0,
        JsonValue::Array(a) => {
            proof {
                lemma_view_items_len(a@);
            }
            a.len() == 0
        },
        JsonValue::Object(o) => {
            proof {
                lemma_view_fields_len(o@);
            }
            o.len() == 0
        },
        _ => false,
    }
}

/// A boolean parameter; `fallback` when it is missing or not a boolean.
pub open spec fn flag_of(params: Json, k: Seq<char>, fallback: bool) -> bool {
    match json_get(params, k) {
        Some(Json::Bool(b)) => b,
        _ => fallback,
    }
}

fn flag(params: &JsonValue, k: &str, fallback: bool) -> (r: bool)
    ensures
        r == flag_of(params@, k@, fallback),
{
    match get_field(params, k) {
        Some(JsonValue::Bool(b)) => *b,
        _ => fallback,
    }
}

/// A rendered parameter that is present and not blank.
pub open spec fn given(t: Option<Seq<char>>) -> bool {
    t is Some && trim(t->0).len() > 0
}

pub open spec fn opt_view(t: Option<String>) -> Option<Seq<char>> {
    match t {
        Some(s) => Some(s@),
        None => None,
    }
}

pub open spec fn opt_json(t: Option<JsonValue>) -> Option<Json> {
    match t {
        Some(v) => Some(v@),
        None => None,
    }
}

fn is_given(t: &Option<String>) -> (r: bool)
    ensures
        r == given(opt_view(*t)),
{
    match t {
        Some(s) => trim_chars(&chars_of(s.as_str())).len() > 0,
        None => false,
    }
}

/// An error's model: a pipeline error with its message.
pub open spec fn pipeline_error(r: Result<JsonValue, CliError>, out: Result<Json, Seq<char>>) -> bool {
    match r {
        Ok(v) => out == Ok::<Json, Seq<char>>(v@),
        Err(e) => e is Pipeline && out == Err::<Json, Seq<char>>(message_of(e)),
    }
}

// ---------------------------------------------------------------------------
// kv_get
// ---------------------------------------------------------------------------

/// The parameters of `kv_get`: a bare string is short for `{ key: .. }`.
pub open spec fn kv_get_params_of(params: Json) -> Result<Json, Seq<char>> {
    match params {
        Json::Str(s) => Ok(Json::Object(seq![("key"@, Json::Str(s))])),
        Json::Object(_) => Ok(params),
        _ => Err("kv_get: params must be a key string or object"@),
    }
}

/// Brings `kv_get`'s parameters into object form.
pub fn kv_get_params(params: &JsonValue) -> (r: Result<JsonValue, CliError>)
    ensures
        pipeline_error(r, kv_get_params_of(params@)),
{
    match params {
        JsonValue::String(s) => {
            let mut f: Vec<(String, JsonValue)> = Vec::new();
            f.push((String::from_str("key"), JsonValue::String(s.clone())));
            proof {
                reveal_with_fuel(view_fields, 2);
                assert(view_fields(f@) =~= seq![("key"@, Json::Str(s@))]);
            }
            Ok(JsonValue::Object(f))
        },
        JsonValue::Object(_) => Ok(params.deep_clone()),
        _ => Err(CliError::pipeline("kv_get: params must be a key string or object")),
    }
}

/// The data field `kv_get` writes into: the `field` parameter, trimmed,
/// when it is a non-blank string.
pub open spec fn target_field_of(params: Json) -> Option<Seq<char>> {
    match str_at(params, "field"@) {
        Some(f) => if trim(f).len() > 0 {
            Some(trim(f))
        } else {
            None
        },
        None => None,
    }
}

fn target_field(params: &JsonValue) -> (r: Option<String>)
    ensures
        opt_view(r) == target_field_of(params@),
{
    match get_field(params, "field") {
        Some(JsonValue::String(f)) => {
            let t = trim_str(f.as_str());
            if t.as_str().unicode_len() > 0 {
                Some(t)
            } else {
                None
            }
        },
        _ => None,
    }
}

/// Whether the data already holds a non-empty value under `field`.
pub open spec fn filled(data: Json, field: Seq<char>) -> bool {
    json_get(data, field) is Some && !empty_json(json_get(data, field)->0)
}

/// The fields `kv_get` writes into: those of an object, none for null,
/// and otherwise the data itself under `_data`.
pub open spec fn merge_base(data: Json) -> Seq<(Seq<char>, Json)> {
    match data {
        Json::Object(f) => f,
        Json::Null => Seq::empty(),
        _ => seq![("_data"@, data)],
    }
}

/// The data with `value` written under `field`, unless `only_if_empty`
/// and the field already holds something.
pub open spec fn merged(data: Json, field: Seq<char>, value: Json, only_if_empty: bool) -> Json {
    let base = merge_base(data);
    if only_if_empty && field_value(base, field) is Some && !empty_json(field_value(base, field)->0) {
        Json::Object(base)
    } else {
        Json::Object(insert_field(base, field, value))
    }
}

/// What `kv_get` answers, and the store after it, for object parameters,
/// the rendered `key` and `default`, at time `now`: a blank key is an
/// error; a filled target field with `only_if_empty` keeps the data
/// without reading the store; else the stored value, the default, an
/// error when `required`, or null, returned or written into the field.
pub open spec fn kv_get_outcome(
    params: Json,
    data: Json,
    key: Option<Seq<char>>,
    default: Option<Json>,
    m: Map<Seq<char>, EntryView>,
    now: u64,
) -> (Result<Json, Seq<char>>, Map<Seq<char>, EntryView>) {
    let only_if_empty = flag_of(params, "only_if_empty"@, false);
    let required = flag_of(params, "required"@, false);
    let field = target_field_of(params);
    if !given(key) {
        (Err("kv_get: missing key"@), m)
    } else if field is Some && only_if_empty && filled(data, field->0) {
        (Ok(data), m)
    } else {
        let k = key->0;
        let (got, after) = get_outcome(m, k, now);
        match got {
            Err(e) => (Err(e), after),
            Ok(stored) => {
                let value = match stored {
                    Some(v) => Some(v),
                    None => match default {
                        Some(d) => Some(d),
                        None => if required {
                            None
                        } else {
                            Some(Json::Null)
                        },
                    },
                };
                match value {
                    None => (Err("kv_get: key '"@ + k + "' not found"@), after),
                    Some(v) => match field {
                        Some(f) => (Ok(merged(data, f, v, only_if_empty)), after),
                        None => (Ok(v), after),
                    },
                }
            },
        }
    }
}

fn merge_into(data: &JsonValue, field: String, value: JsonValue, only_if_empty: bool) -> (r: JsonValue)
    ensures
        r@ == merged(data@, field@, value@, only_if_empty),
{
    let mut base: Vec<(String, JsonValue)> = match data {
        JsonValue::Object(_) => match data.deep_clone() {
            JsonValue::Object(f) => f,
            _ => Vec::new(),
        },
        JsonValue::Null => Vec::new(),
        _ => {
            let mut f: Vec<(String, JsonValue)> = Vec::new();
            f.push((String::from_str("_data"), data.deep_clone()));
            f
        },
    };
    proof {
        reveal_with_fuel(view_fields, 2);
        if data@ is Null {
            assert(view_fields(base@) =~= Seq::<(Seq<char>, Json)>::empty());
        }
        if !(data@ is Null) && !(data@ is Object) {
            reveal_strlit("_data");
            assert(view_fields(base@) =~= seq![("_data"@, data@)]);
        }
    }
    assert(view_fields(base@) == merge_base(data@));
    let keep = match find_field(&base, field.as_str()) {
        Some(i) => {
            proof {
                lemma_view_fields_index(base@, i as int);
            }
            only_if_empty && !is_empty_value(&base[i].1)
        },
        None => false,
    };
    if keep {
        JsonValue::Object(base)
    } else {
        set_field(&mut base, field, value);
        JsonValue::Object(base)
    }
}

impl KvGetStep {
    /// Runs `kv_get` with object parameters (see `kv_get_params`), the
    /// rendered `key` and `default`, against `store` at time `now`.
    pub fn execute(
        &self,
        params: &JsonValue,
        data: &JsonValue,
        key: Option<String>,
        default: Option<JsonValue>,
        store: &mut KvFile,
        now: u64,
    ) -> (r: Result<JsonValue, CliError>)
        requires
            old(store).wf(),
        ensures
            final(store).wf(),
            pipeline_error(r, kv_get_outcome(params@, data@, opt_view(key), opt_json(default), old(store)@, now).0),
            final(store)@ == kv_get_outcome(params@, data@, opt_view(key), opt_json(default), old(store)@, now).1,
    {
        let only_if_empty = flag(params, "only_if_empty", false);
        let required = flag(params, "required", false);
        let field = target_field(params);
        if !is_given(&key) {
            return Err(CliError::pipeline("kv_get: missing key"));
        }
        let k = match key {
            Some(k) => k,
            None => String::new(),
        };
        if only_if_empty {
            match &field {
                Some(f) => match get_field(data, f.as_str()) {
                    Some(existing) => {
                        if !is_empty_value(existing) {
                            return Ok(data.deep_clone());
                        }
                    },
                    None => {},
                },
                None => {},
            }
        }
        let stored = match get_at(store, k.as_str(), now) {
            Ok(v) => v,
            Err(e) => {
                return Err(CliError::pipeline(e.as_str()));
            },
        };
        let value = match stored {
            Some(v) => v,
            None => match default {
                Some(d) => d,
                None => {
                    if required {
                        let msg = concat3("kv_get: key '", k.as_str(), "' not found");
                        return Err(CliError::pipeline(msg.as_str()));
                    }
                    JsonValue::Null
                },
            },
        };
        match field {
            Some(f) => Ok(merge_into(data, f, value, only_if_empty)),
            None => Ok(value),
        }
    }
}

// ---------------------------------------------------------------------------
// kv_set
// ---------------------------------------------------------------------------

/// What `kv_set` answers, and the store after it, for its parameters, the
/// rendered `key`, `value` (when the step gives one) and `ttl`, at time
/// `now`: non-object parameters and a blank key are errors; an empty value
/// is skipped unless `skip_empty: false`; otherwise the value (the data
/// when none is given) is stored, and the data comes back unchanged.
pub open spec fn kv_set_outcome(
    params: Json,
    data: Json,
    key: Option<Seq<char>>,
    value: Option<Json>,
    ttl: Option<Seq<char>>,
    m: Map<Seq<char>, EntryView>,
    now: u64,
) -> (Result<Json, Seq<char>>, Map<Seq<char>, EntryView>) {
    let v = match value {
        Some(x) => x,
        None => data,
    };
    let t = if given(ttl) {
        ttl
    } else {
        None
    };
    if !(params is Object) {
        (Err("kv_set: params must be an object with key/value"@), m)
    } else if !given(key) {
        (Err("kv_set: missing key"@), m)
    } else if flag_of(params, "skip_empty"@, true) && empty_json(v) {
        (Ok(data), m)
    } else {
        match set_outcome(key->0, v, t, now) {
            Ok(e) => (Ok(data), m.insert(trim(key->0), e)),
            Err(msg) => (Err(msg), m),
        }
    }
}

/// The TTL texts `kv_set` can hand to the store without failing on them.
pub open spec fn kv_ttl_ok(ttl: Option<Seq<char>>) -> bool {
    match ttl {
        Some(t) => crate::kv::ttl_text_ok(t),
        None => true,
    }
}

impl KvSetStep {
    /// Runs `kv_set` with its parameters and the rendered `key`, `value`
    /// and `ttl`, against `store` at time `now`.
    pub fn execute(
        &self,
        params: &JsonValue,
        data: &JsonValue,
        key: Option<String>,
        value: Option<JsonValue>,
        ttl: Option<String>,
        store: &mut KvFile,
        now: u64,
    ) -> (r: Result<JsonValue, CliError>)
        requires
            old(store).wf(),
            kv_ttl_ok(opt_view(ttl)),
        ensures
            final(store).wf(),
            pipeline_error(
                r,
                kv_set_outcome(params@, data@, opt_view(key), opt_json(value), opt_view(ttl), old(store)@, now).0,
            ),
            final(store)@ == kv_set_outcome(
                params@,
                data@,
                opt_view(key),
                opt_json(value),
                opt_view(ttl),
                old(store)@,
                now,
            ).1,
    {
        match params {
            JsonValue::Object(_) => {},
            _ => {
                return Err(CliError::pipeline("kv_set: params must be an object with key/value"));
            },
        }
        if !is_given(&key) {
            return Err(CliError::pipeline("kv_set: missing key"));
        }
        let k = match key {
            Some(k) => k,
            None => String::new(),
        };
        let v = match value {
            Some(x) => x,
            None => data.deep_clone(),
        };
        let skip_empty = flag(params, "skip_empty", true);
        if skip_empty && is_empty_value(&v) {
            return Ok(data.deep_clone());
        }
        let use_ttl = is_given(&ttl);
        let outcome = match &ttl {
            Some(t) => if use_ttl {
                set_at(store, k.as_str(), v, Some(t.as_str()), now)
            } else {
                set_at(store, k.as_str(), v, None, now)
            },
            None => set_at(store, k.as_str(), v, None, now),
        };
        match outcome {
            Ok(()) => Ok(data.deep_clone()),
            Err(e) => Err(CliError::pipeline(e.as_str())),
        }
    }
}


/// What `kv_set` stores, `kv_get` reads back: after `kv_set` stores a
/// value under a key, a `kv_get` of that key that writes into no field
/// answers that value until it expires.
pub proof fn law_kv_get_reads_kv_set(
    set_params: Json,
    get_params: Json,
    data: Json,
    key: Seq<char>,
    value: Option<Json>,
    ttl: Option<Seq<char>>,
    m: Map<Seq<char>, EntryView>,
    written: u64,
    read: u64,
    get_data: Json,
    default: Option<Json>,
)
    requires
        set_params is Object,
        given(Some(key)),
        !(flag_of(set_params, "skip_empty"@, true) && empty_json(
            match value {
                Some(x) => x,
                None => data,
            },
        )),
        kv_set_outcome(set_params, data, Some(key), value, ttl, m, written).0 is Ok,
        target_field_of(get_params) is None,
        !crate::kv::is_expired(
            kv_set_outcome(set_params, data, Some(key), value, ttl, m, written).1[trim(key)],
            read,
        ),
    ensures
        kv_get_outcome(
            get_params,
            get_data,
            Some(key),
            default,
            kv_set_outcome(set_params, data, Some(key), value, ttl, m, written).1,
            read,
        ).0 == Ok::<Json, Seq<char>>(
            match value {
                Some(x) => x,
                None => data,
            },
        ),
{
    let v = match value {
        Some(x) => x,
        None => data,
    };
    let t = if given(ttl) {
        ttl
    } else {
        None
    };
    let after = kv_set_outcome(set_params, data, Some(key), value, ttl, m, written).1;
    assert(set_outcome(key, v, t, written) is Ok);
    let e = set_outcome(key, v, t, written)->Ok_0;
    assert(after == m.insert(trim(key), e));
    assert(e.value == v);
    crate::kv::law_get_after_set(m, key, v, t, written, read);
}

} // verus!
