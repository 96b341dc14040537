//! Batch runs: an item command is run once per row of a list. This module
//! holds what a batch decides about each row; running commands and writing
//! files is the caller's business.
use vstd::prelude::*;

use crate::error::{classified_as, CliError};
use crate::command::{ArgDef, defaults_from, defaults_of};
use crate::json::{
    Json, JsonNumber, JsonValue, NumberView, drop_field, field_value, get_field, insert_field,
    json_get, remove_field, set_field, view_fields, view_items,
};
use crate::text::{
    chars_of, decimal, i64_text, signed_decimal, squeeze, squeeze_chars, string_of, take_chars, trim,
    trim_char, trim_char_chars, trim_str, u128_text,
};

verus! {

/// Characters that cannot stand in a folder name.
pub open spec fn unsafe_name_char(c: char) -> bool {
    c == '/' || c == '\\' || c == ':' || c == '*' || c == '?' || c == '"' || c == '<' || c == '>'
        || c == '|' || c == ' '
}

pub open spec fn safe_char(c: char) -> char {
    if unsafe_name_char(c) {
        '_'
    } else {
        c
    }
}

/// A folder name made from `s`: characters that cannot stand in a name
/// become `_`, runs of `_` become one, `_` and then `.` are dropped from
/// both ends, at most 80 characters are kept, and `fallback` stands in for
/// an empty result.
pub open spec fn safe_name_of(s: Seq<char>, fallback: Seq<char>) -> Seq<char> {
    let collapsed = trim_char(squeeze(s.map_values(|c: char| safe_char(c)), '_'), '_');
    let t = trim_char(collapsed, '.');
    let out = if t.len() > 80 {
        t.take(80)
    } else {
        t
    };
    if out.len() == 0 {
        fallback
    } else {
        out
    }
}

/// Makes a folder name from a row's id and name.
pub fn safe_name(s: &str, fallback: &str) -> (r: String)
    ensures
        r@ == safe_name_of(s@, fallback@),
{
    let v = chars_of(s);
    let mut m: Vec<char> = Vec::new();
    let mut i: usize = 0;
    while i < v.len()
        invariant
            i <= v.len(),
            m@ == v@.take(i as int).map_values(|c: char| safe_char(c)),
        decreases v.len() - i,
    {
        let c = v[i];
        let d = if c == '/' || c == '\\' || c == ':' || c == '*' || c == '?' || c == '"' || c == '<'
            || c == '>' || c == '|' || c == ' ' {
            '_'
        } else {
            c
        };
        m.push(d);
        assert(v@.take(i + 1).map_values(|c: char| safe_char(c)) =~= v@.take(i as int).map_values(
            |c: char| safe_char(c),
        ).push(safe_char(c)));
        i = i + 1;
    }
    assert(v@.take(v.len() as int) =~= v@);
    let collapsed = trim_char_chars(&squeeze_chars(&m, '_'), '_');
    let t = trim_char_chars(&collapsed, '.');
    let out = take_chars(&t, 80);
    if out.len() == 0 {
        fallback.to_owned()
    } else {
        string_of(&out)
    }
}

/// The rows of a list command's output: an array's items, the `rows`
/// array of an object that has one, or else the value itself.
pub open spec fn rows_of(data: Json) -> Seq<Json> {
    match data {
        Json::Array(a) => a,
        Json::Object(f) => match field_value(f, "rows"@) {
            Some(Json::Array(a)) => a,
            _ => seq![data],
        },
        _ => seq![data],
    }
}

/// Takes the rows out of a list command's output.
pub fn rows_from(data: JsonValue) -> (r: Vec<JsonValue>)
    ensures
        view_items(r@) == rows_of(data@),
{
    let ghost d = data@;
    match data {
        JsonValue::Array(a) => a,
        JsonValue::Object(fields) => {
            let obj = JsonValue::Object(fields);
            let rows: Option<Vec<JsonValue>> = match get_field(&obj, "rows") {
                Some(x) => match x.deep_clone() {
                    JsonValue::Array(items) => Some(items),
                    _ => None,
                },
                None => None,
            };
            match rows {
                Some(items) => items,
                None => {
                    let mut v: Vec<JsonValue> = Vec::new();
                    v.push(obj);
                    proof {
                        crate::json::lemma_view_items_push(Seq::empty(), v@[0]);
                        assert(Seq::<JsonValue>::empty().push(v@[0]) =~= v@);
                        assert(view_items(Seq::<JsonValue>::empty()) =~= Seq::<Json>::empty());
                    }
                    v
                },
            }
        },
        other => {
            let mut v: Vec<JsonValue> = Vec::new();
            v.push(other);
            proof {
                crate::json::lemma_view_items_push(Seq::empty(), v@[0]);
                assert(Seq::<JsonValue>::empty().push(v@[0]) =~= v@);
                assert(view_items(Seq::<JsonValue>::empty()) =~= Seq::<Json>::empty());
            }
            v
        },
    }
}

/// The text of a number as `to_string` writes it.
pub open spec fn number_text(n: NumberView) -> Seq<char> {
    match n {
        NumberView::PosInt(u) => decimal(u as nat),
        NumberView::NegInt(i) => signed_decimal(i as int),
        NumberView::Float(t) => t,
    }
}

pub fn number_to_text(n: &JsonNumber) -> (r: String)
    ensures
        r@ == number_text(n@),
{
    match n {
        JsonNumber::PosInt(u) => u128_text(*u as u128),
        JsonNumber::NegInt(i) => i64_text(*i),
        JsonNumber::Float(t) => t.clone(),
    }
}

/// The text of a row's field, trimmed: a string as it is, a number as it
/// is written, anything else (or a missing field) as empty.
pub open spec fn field_text(row: Json, field: Seq<char>) -> Seq<char> {
    trim(
        match json_get(row, field) {
            Some(Json::Str(s)) => s,
            Some(Json::Number(n)) => number_text(n),
            _ => Seq::empty(),
        },
    )
}

/// Reads a row's field as text.
pub fn field_str(row: &JsonValue, field: &str) -> (r: String)
    ensures
        r@ == field_text(row@, field@),
{
    let raw = match get_field(row, field) {
        Some(JsonValue::String(s)) => s.clone(),
        Some(JsonValue::Number(n)) => number_to_text(n),
        _ => String::new(),
    };
    trim_str(raw.as_str())
}

fn empty_object() -> (r: JsonValue)
    ensures
        r@ == Json::Object(Seq::empty()),
{
    let f: Vec<(String, JsonValue)> = Vec::new();
    assert(view_fields(f@) =~= Seq::<(Seq<char>, Json)>::empty());
    JsonValue::Object(f)
}

/// Two fields, in the given order.
fn object2(k1: &str, v1: JsonValue, k2: &str, v2: JsonValue) -> (r: JsonValue)
    ensures
        r@ == Json::Object(seq![(k1@, v1@), (k2@, v2@)]),
{
    let mut f: Vec<(String, JsonValue)> = Vec::new();
    let ghost e = f@;
    f.push((k1.to_owned(), v1));
    let ghost f1 = f@;
    f.push((k2.to_owned(), v2));
    proof {
        crate::json::lemma_view_fields_push(e, f1[0]);
        crate::json::lemma_view_fields_push(f1, f@[1]);
        assert(view_fields(e) =~= Seq::<(Seq<char>, Json)>::empty());
    }
    let r = JsonValue::Object(f);
    assert(view_fields(f@) =~= seq![(k1@, v1@), (k2@, v2@)]);
    r
}

/// A fresh progress record: nothing done, nothing failed.
pub fn new_progress() -> (r: JsonValue)
    ensures
        r@ == Json::Object(seq![("done"@, Json::Object(Seq::empty())), ("failed"@, Json::Object(Seq::empty()))]),
{
    object2("done", empty_object(), "failed", empty_object())
}

/// Whether the progress record lists `key` as done.
pub open spec fn progress_done_spec(progress: Json, key: Seq<char>) -> bool {
    match json_get(progress, "done"@) {
        Some(d) => json_get(d, key) is Some,
        None => false,
    }
}

pub fn progress_done(progress: &JsonValue, key: &str) -> (b: bool)
    ensures
        b == progress_done_spec(progress@, key@),
{
    match get_field(progress, "done") {
        Some(d) => get_field(d, key).is_some(),
        None => false,
    }
}

/// The fields of an object; other values have none.
pub open spec fn object_fields(v: Json) -> Seq<(Seq<char>, Json)> {
    match v {
        Json::Object(f) => f,
        _ => Seq::empty(),
    }
}

/// Values that `value[key] = ...` can write into: objects, and null,
/// which becomes an empty object first.
pub open spec fn indexable(v: Json) -> bool {
    v is Object || v is Null
}

/// `v[k1][k2] = val`.
pub open spec fn set_nested(v: Json, k1: Seq<char>, k2: Seq<char>, val: Json) -> Json {
    let inner = match json_get(v, k1) {
        Some(x) => x,
        None => Json::Null,
    };
    Json::Object(insert_field(object_fields(v), k1, Json::Object(insert_field(object_fields(inner), k2, val))))
}

/// Whether `v[k1][k2] = ...` can be written.
pub open spec fn nested_writable(v: Json, k1: Seq<char>) -> bool {
    &&& indexable(v)
    &&& json_get(v, k1) matches Some(x) ==> indexable(x)
}

fn take_fields(v: JsonValue) -> (r: Vec<(String, JsonValue)>)
    requires
        indexable(v@),
    ensures
        view_fields(r@) == object_fields(v@),
{
    match v {
        JsonValue::Object(f) => f,
        _ => {
            let r: Vec<(String, JsonValue)> = Vec::new();
            assert(view_fields(r@) =~= Seq::<(Seq<char>, Json)>::empty());
            r
        },
    }
}

/// Writes `v[k1][k2] = val`.
fn set_nested_value(v: JsonValue, k1: &str, k2: String, val: JsonValue) -> (r: JsonValue)
    requires
        nested_writable(v@, k1@),
    ensures
        r@ == set_nested(v@, k1@, k2@, val@),
{
    let ghost vv = v@;
    let inner: JsonValue = match get_field(&v, k1) {
        Some(x) => x.deep_clone(),
        None => JsonValue::Null,
    };
    let mut inner_fields = take_fields(inner);
    set_field(&mut inner_fields, k2, val);
    let mut outer = take_fields(v);
    set_field(&mut outer, k1.to_owned(), JsonValue::Object(inner_fields));
    JsonValue::Object(outer)
}

fn text_value(t: &str) -> (r: JsonValue)
    ensures
        r@ == Json::Str(t@),
{
    JsonValue::String(t.to_owned())
}

/// Three fields, in the given order.
fn object3(
    k1: &str,
    v1: JsonValue,
    k2: &str,
    v2: JsonValue,
    k3: &str,
    v3: JsonValue,
) -> (r: JsonValue)
    ensures
        r@ == Json::Object(seq![(k1@, v1@), (k2@, v2@), (k3@, v3@)]),
{
    let mut f: Vec<(String, JsonValue)> = Vec::new();
    let ghost e = f@;
    f.push((k1.to_owned(), v1));
    let ghost f1 = f@;
    f.push((k2.to_owned(), v2));
    let ghost f2 = f@;
    f.push((k3.to_owned(), v3));
    proof {
        crate::json::lemma_view_fields_push(e, f1[0]);
        crate::json::lemma_view_fields_push(f1, f2[1]);
        crate::json::lemma_view_fields_push(f2, f@[2]);
        assert(view_fields(e) =~= Seq::<(Seq<char>, Json)>::empty());
    }
    let r = JsonValue::Object(f);
    assert(view_fields(f@) =~= seq![(k1@, v1@), (k2@, v2@), (k3@, v3@)]);
    r
}

/// The progress record after `key` is done: its entry under `done` holds
/// the name, the row count and the data path relative to the output
/// folder, and it leaves `failed`.
pub open spec fn marked_done(progress: Json, key: Seq<char>, name: Seq<char>, count: u64, path: Seq<char>) -> Json {
    let entry = Json::Object(
        seq![
            ("count"@, Json::Number(NumberView::PosInt(count))),
            ("name"@, Json::Str(name)),
            ("path"@, Json::Str(path)),
        ],
    );
    let p = set_nested(progress, "done"@, key, entry);
    match json_get(p, "failed"@) {
        Some(Json::Object(ff)) => Json::Object(insert_field(object_fields(p), "failed"@, Json::Object(remove_field(ff, key)))),
        _ => p,
    }
}

/// Records that the row `key` is done.
pub fn mark_done(progress: JsonValue, key: &str, name: &str, count: u64, rel_path: &str) -> (r: JsonValue)
    requires
        nested_writable(progress@, "done"@),
    ensures
        r@ == marked_done(progress@, key@, name@, count, rel_path@),
{
    let entry = object3(
        "count",
        JsonValue::Number(JsonNumber::PosInt(count)),
        "name",
        text_value(name),
        "path",
        text_value(rel_path),
    );
    let p = set_nested_value(progress, "done", key.to_owned(), entry);
    let failed: Option<Vec<(String, JsonValue)>> = match get_field(&p, "failed") {
        Some(x) => match x.deep_clone() {
            JsonValue::Object(ff) => Some(ff),
            _ => None,
        },
        None => None,
    };
    match failed {
        Some(ff) => {
            let kept = drop_field(ff, key);
            let mut fields = take_fields(p);
            set_field(&mut fields, String::from_str("failed"), JsonValue::Object(kept));
            JsonValue::Object(fields)
        },
        None => p,
    }
}

/// The progress record after the row `key` failed: its entry under
/// `failed` holds the name and the error.
pub open spec fn marked_failed(progress: Json, key: Seq<char>, name: Seq<char>, error: Seq<char>) -> Json {
    set_nested(
        progress,
        "failed"@,
        key,
        Json::Object(seq![("error"@, Json::Str(error)), ("name"@, Json::Str(name))]),
    )
}

/// Records that the row `key` failed.
pub fn mark_fail(progress: JsonValue, key: &str, name: &str, error: &str) -> (r: JsonValue)
    requires
        nested_writable(progress@, "failed"@),
    ensures
        r@ == marked_failed(progress@, key@, name@, error@),
{
    let entry = object2("error", text_value(error), "name", text_value(name));
    set_nested_value(progress, "failed", key.to_owned(), entry)
}

/// The argument of the item command that receives a row's id: the one
/// named like the id field, else the first positional one, else the id
/// field's name.
pub open spec fn id_target(args: Seq<ArgDef>, id_field: Seq<char>) -> Seq<char> {
    if exists|i: int| 0 <= i < args.len() && (#[trigger] args[i]).name@ == id_field {
        id_field
    } else if exists|i: int| 0 <= i < args.len() && (#[trigger] args[i]).positional {
        args[choose|i: int|
            0 <= i < args.len() && args[i].positional && forall|j: int|
                0 <= j < i ==> !(#[trigger] args[j]).positional].name@
    } else {
        id_field
    }
}

/// The keyword arguments of one item run: the defaults, the row's id, the
/// limit when one is given and the incremental flag when it is set.
#[verifier::opaque]
pub open spec fn item_kwargs_of(
    args: Seq<ArgDef>,
    id_field: Seq<char>,
    uid: Seq<char>,
    limit: Option<i64>,
    incremental: bool,
) -> Seq<(Seq<char>, Json)> {
    let kw1 = insert_field(defaults_of(args), id_target(args, id_field), Json::Str(uid));
    let kw2 = match limit {
        Some(n) => insert_field(
            kw1,
            "limit"@,
            Json::Number(
                if n < 0 {
                    NumberView::NegInt(n)
                } else {
                    NumberView::PosInt(n as u64)
                },
            ),
        ),
        None => kw1,
    };
    if incremental {
        insert_field(kw2, "incremental"@, Json::Bool(true))
    } else {
        kw2
    }
}

fn id_target_name(args: &Vec<ArgDef>, id_field: &str) -> (r: String)
    ensures
        r@ == id_target(args@, id_field@),
{
    let key = id_field.to_owned();
    let mut i: usize = 0;
    while i < args.len()
        invariant
            i <= args.len(),
            key@ == id_field@,
            forall|j: int| 0 <= j < i ==> (#[trigger] args@[j]).name@ != id_field@,
        decreases args.len() - i,
    {
        if args[i].name == key {
            return key;
        }
        i = i + 1;
    }
    let mut i: usize = 0;
    while i < args.len()
        invariant
            i <= args.len(),
            forall|j: int| 0 <= j < args.len() ==> (#[trigger] args@[j]).name@ != id_field@,
            forall|j: int| 0 <= j < i ==> !(#[trigger] args@[j]).positional,
        decreases args.len() - i,
    {
        if args[i].positional {
            proof {
                let k = choose|k: int|
                    0 <= k < args@.len() && args@[k].positional && forall|j: int|
                        0 <= j < k ==> !(#[trigger] args@[j]).positional;
                if k < i {
                    assert(!args@[k].positional);
                }
                if i < k {
                    assert(!args@[i as int].positional);
                }
            }
            return args[i].name.clone();
        }
        i = i + 1;
    }
    key
}

/// The keyword arguments of one item run (see `item_kwargs_of`).
pub fn item_kwargs(args: &Vec<ArgDef>, id_field: &str, uid: &str, limit: Option<i64>, incremental: bool) -> (r:
    Vec<(String, JsonValue)>)
    ensures
        view_fields(r@) == item_kwargs_of(args@, id_field@, uid@, limit, incremental),
{
    let mut kw = defaults_from(args);
    let target = id_target_name(args, id_field);
    let ghost t = target@;
    set_field(&mut kw, target, JsonValue::String(uid.to_owned()));
    let ghost kw1 = view_fields(kw@);
    assert(kw1 == insert_field(defaults_of(args@), id_target(args@, id_field@), Json::Str(uid@)));
    match limit {
        Some(n) => {
            let num = if n < 0 {
                JsonNumber::NegInt(n)
            } else {
                JsonNumber::PosInt(n as u64)
            };
            set_field(&mut kw, String::from_str("limit"), JsonValue::Number(num));
        },
        None => {},
    }
    if incremental {
        set_field(&mut kw, String::from_str("incremental"), JsonValue::Bool(true));
    }
    proof {
        reveal(item_kwargs_of);
    }
    kw
}

/// The progress key of a row: `site:uid`.
pub fn row_key(site: &str, uid: &str) -> (r: String)
    ensures
        r@ == site@ + ":"@ + uid@,
{
    crate::text::concat3(site, ":", uid)
}

/// The rows that an item run returned: an array's items, or the value as
/// the only row.
pub open spec fn item_rows_of(data: Json) -> Seq<Json> {
    match data {
        Json::Array(a) => a,
        _ => seq![data],
    }
}

pub fn item_rows(data: JsonValue) -> (r: Vec<JsonValue>)
    ensures
        view_items(r@) == item_rows_of(data@),
{
    match data {
        JsonValue::Array(a) => a,
        other => {
            let mut v: Vec<JsonValue> = Vec::new();
            v.push(other);
            proof {
                crate::json::lemma_view_items_push(Seq::empty(), v@[0]);
                assert(Seq::<JsonValue>::empty().push(v@[0]) =~= v@);
                assert(view_items(Seq::<JsonValue>::empty()) =~= Seq::<Json>::empty());
            }
            v
        },
    }
}

/// What a batch has done so far.
#[derive(Debug, Clone, Copy, PartialEq, Eq, Structural)]
pub struct BatchStats {
    pub ok: u64,
    pub skip: u64,
    pub fail: u64,
    pub posts: u64,
}

/// How one row ended.
#[derive(Debug, Clone, Copy, PartialEq, Eq, Structural)]
pub enum RowOutcome {
    /// Already done in an earlier run.
    Skipped,
    /// Fetched with this many rows (none for a soft empty result).
    Fetched(u64),
    Failed,
}

impl BatchStats {
    pub fn new() -> (r: BatchStats)
        ensures
            r == (BatchStats { ok: 0, skip: 0, fail: 0, posts: 0 }),
    {
        BatchStats { ok: 0, skip: 0, fail: 0, posts: 0 }
    }

    /// Counts one row; the counters saturate rather than wrap.
    pub fn record(self, outcome: RowOutcome) -> (r: BatchStats)
        ensures
            r == (match outcome {
                RowOutcome::Skipped => BatchStats { skip: sat_inc(self.skip, 1), ..self },
                RowOutcome::Fetched(n) => BatchStats {
                    ok: sat_inc(self.ok, 1),
                    posts: sat_inc(self.posts, n),
                    ..self
                },
                RowOutcome::Failed => BatchStats { fail: sat_inc(self.fail, 1), ..self },
            }),
    {
        match outcome {
            RowOutcome::Skipped => BatchStats { skip: self.skip.saturating_add(1), ..self },
            RowOutcome::Fetched(n) => BatchStats {
                ok: self.ok.saturating_add(1),
                posts: self.posts.saturating_add(n),
                ..self
            },
            RowOutcome::Failed => BatchStats { fail: self.fail.saturating_add(1), ..self },
        }
    }
}

pub open spec fn sat_inc(a: u64, b: u64) -> u64 {
    if a + b > u64::MAX {
        u64::MAX
    } else {
        (a + b) as u64
    }
}

/// How a row's run ends: with its rows when the command succeeded; done
/// with no rows when it failed with what classifies as a soft empty
/// result; failed otherwise. A failure comes with its classified error.
pub fn item_outcome(result: Result<u64, CliError>) -> (r: (RowOutcome, Option<CliError>))
    ensures
        match result {
            Ok(n) => r.0 == RowOutcome::Fetched(n) && r.1 is None,
            Err(e) => r.1 matches Some(c) && classified_as(e, c) && r.0 == (if c is EmptyResult {
                RowOutcome::Fetched(0)
            } else {
                RowOutcome::Failed
            }),
        },
{
    match result {
        Ok(n) => (RowOutcome::Fetched(n), None),
        Err(e) => {
            let c = e.classify();
            let outcome = if c.is_soft_empty() {
                RowOutcome::Fetched(0)
            } else {
                RowOutcome::Failed
            };
            (outcome, Some(c))
        },
    }
}

/// What the batch does with one row.
#[derive(Debug)]
pub enum RowStep {
    /// The row has no id: it is passed over, counted nowhere.
    NoId,
    /// A resumed run already fetched the row and its data file exists.
    Skip { uid: String, name: String },
    /// The row is fetched into `folder` (under the output's `users`),
    /// its progress kept under `key`.
    Fetch { uid: String, name: String, key: String, folder: String },
}

/// How the batch handles a row: by its id and name fields, whether the run
/// resumes, the progress so far, and whether the row's data file exists.
pub open spec fn row_step_ok(
    r: RowStep,
    row: Json,
    id_field: Seq<char>,
    name_field: Seq<char>,
    site: Seq<char>,
    resume: bool,
    progress: Json,
    data_exists: bool,
) -> bool {
    let uid = field_text(row, id_field);
    let name = field_text(row, name_field);
    let key = site + ":"@ + uid;
    if uid.len() == 0 {
        r is NoId
    } else if resume && progress_done_spec(progress, key) && data_exists {
        r matches RowStep::Skip { uid: u, name: n } && u@ == uid && n@ == name
    } else {
        r matches RowStep::Fetch { uid: u, name: n, key: k, folder: f } && u@ == uid && n@ == name && k@
            == key && f@ == safe_name_of(uid + "_"@ + name, uid)
    }
}

/// Decides what the batch does with a row.
pub fn row_step(
    row: &JsonValue,
    id_field: &str,
    name_field: &str,
    site: &str,
    resume: bool,
    progress: &JsonValue,
    data_exists: bool,
) -> (r: RowStep)
    ensures
        row_step_ok(r, row@, id_field@, name_field@, site@, resume, progress@, data_exists),
{
    let uid = field_str(row, id_field);
    if uid.as_str().unicode_len() == 0 {
        return RowStep::NoId;
    }
    let name = field_str(row, name_field);
    let key = row_key(site, uid.as_str());
    if resume && progress_done(progress, key.as_str()) && data_exists {
        return RowStep::Skip { uid, name };
    }
    let joined = crate::text::concat3(uid.as_str(), "_", name.as_str());
    let folder = safe_name(joined.as_str(), uid.as_str());
    RowStep::Fetch { uid, name, key, folder }
}

/// The counts of a finished batch as its summary records them:
/// `{"following", "ok", "skip", "fail", "posts"}`.
pub open spec fn stats_record_of(following: u64, s: BatchStats) -> Json {
    Json::Object(
        seq![
            ("following"@, Json::Number(NumberView::PosInt(following))),
            ("ok"@, Json::Number(NumberView::PosInt(s.ok))),
            ("skip"@, Json::Number(NumberView::PosInt(s.skip))),
            ("fail"@, Json::Number(NumberView::PosInt(s.fail))),
            ("posts"@, Json::Number(NumberView::PosInt(s.posts))),
        ],
    )
}

fn count_pair(k: &str, n: u64) -> (r: (String, JsonValue))
    ensures
        r.0@ == k@,
        r.1@ == Json::Number(NumberView::PosInt(n)),
{
    (k.to_owned(), JsonValue::Number(JsonNumber::PosInt(n)))
}

/// The counts of a finished batch over `following` rows.
pub fn stats_record(following: u64, s: BatchStats) -> (r: JsonValue)
    ensures
        r@ == stats_record_of(following, s),
{
    let mut f: Vec<(String, JsonValue)> = Vec::new();
    f.push(count_pair("following", following));
    f.push(count_pair("ok", s.ok));
    f.push(count_pair("skip", s.skip));
    f.push(count_pair("fail", s.fail));
    f.push(count_pair("posts", s.posts));
    proof {
        reveal_with_fuel(view_fields, 6);
        assert(view_fields(f@) =~= stats_record_of(following, s)->Object_0);
    }
    JsonValue::Object(f)
}

} // verus!
