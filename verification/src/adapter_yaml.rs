//! What an adapter's YAML document declares: its identity, arguments,
//! columns and pipeline, read from the document as parsed into JSON.
use vstd::prelude::*;

use crate::article::strings_in;
use crate::command::{ArgDef, ArgType};
use crate::download::str_at;
use crate::error::{message_of, suggestions_of, CliError};
use crate::json::{
    get_field, json_get, lemma_view_fields_index, lemma_view_fields_len, lemma_view_items_index,
    lemma_view_items_len, view_fields, view_items, Json, JsonNumber, JsonValue,
};
use crate::kv_steps::{flag_of, opt_json, opt_view};
use crate::navigate::u64_of;
use crate::json_text::{parse_yaml_json, yaml_json};
use crate::text::{chars_of, ends_with, ends_with_exec, slice_chars, starts_with, str_eq, texts};

verus! {

/// The type an argument declares; `str` when it declares none or another.
pub open spec fn arg_type_of(t: Option<Seq<char>>) -> ArgType {
    if t == Some("int"@) {
        ArgType::Int
    } else if t == Some("number"@) {
        ArgType::Number
    } else if t == Some("bool"@) {
        ArgType::Bool
    } else if t == Some("boolean"@) {
        ArgType::Boolean
    } else {
        ArgType::Str
    }
}

/// The strings of an array field, in order; nothing when it is no array.
pub open spec fn string_list(v: Json, k: Seq<char>) -> Option<Seq<Seq<char>>> {
    match json_get(v, k) {
        Some(Json::Array(items)) => Some(strings_in(items)),
        _ => None,
    }
}

pub open spec fn opt_texts(o: Option<Vec<String>>) -> Option<Seq<Seq<char>>> {
    match o {
        Some(v) => Some(texts(v@)),
        None => None,
    }
}

/// Whether an argument is the one a YAML entry `name: def` declares.
pub open spec fn arg_fits(a: ArgDef, name: Seq<char>, def: Json) -> bool {
    &&& a.name@ == name
    &&& a.arg_type == arg_type_of(str_at(def, "type"@))
    &&& a.required == flag_of(def, "required"@, false)
    &&& a.positional == flag_of(def, "positional"@, false)
    &&& opt_view(a.description) == str_at(def, "description"@)
    &&& opt_texts(a.choices) == string_list(def, "choices"@)
    &&& opt_json(a.default) == json_get(def, "default"@)
}

/// The argument entries of a document: the fields of its `args` object;
/// none when `args` is missing or not an object.
pub open spec fn arg_entries(raw: Json) -> Seq<(Seq<char>, Json)> {
    match json_get(raw, "args"@) {
        Some(Json::Object(fields)) => fields,
        _ => Seq::empty(),
    }
}

fn text_field(v: &JsonValue, k: &str) -> (r: Option<String>)
    ensures
        opt_view(r) == str_at(v@, k@),
{
    match get_field(v, k) {
        Some(JsonValue::String(s)) => Some(s.clone()),
        _ => None,
    }
}

fn flag_field(v: &JsonValue, k: &str) -> (r: bool)
    ensures
        r == flag_of(v@, k@, false),
{
    match get_field(v, k) {
        Some(JsonValue::Bool(b)) => *b,
        _ => false,
    }
}

/// The strings of an array field.
fn strings_field(v: &JsonValue, k: &str) -> (r: Option<Vec<String>>)
    ensures
        opt_texts(r) == string_list(v@, k@),
{
    match get_field(v, k) {
        Some(JsonValue::Array(items)) => {
            let ghost all = view_items(items@);
            proof {
                lemma_view_items_len(items@);
            }
            let mut out: Vec<String> = Vec::new();
            let mut i: usize = 0;
            while i < items.len()
                invariant
                    i <= items.len(),
                    all == view_items(items@),
                    all.len() == items@.len(),
                    texts(out@) == strings_in(all.take(i as int)),
                decreases items.len() - i,
            {
                proof {
                    lemma_view_items_index(items@, i as int);
                    assert(all.take(i + 1).drop_last() =~= all.take(i as int));
                    assert(all.take(i + 1).last() == all[i as int]);
                }
                match &items[i] {
                    JsonValue::String(s) => {
                        let ghost before = out@;
                        out.push(s.clone());
                        assert(texts(out@) =~= texts(before).push(s@));
                    },
                    _ => {},
                }
                i = i + 1;
            }
            assert(all.take(all.len() as int) =~= all);
            Some(out)
        },
        _ => None,
    }
}

fn arg_type_from(t: &Option<String>) -> (r: ArgType)
    ensures
        r == arg_type_of(opt_view(*t)),
{
    match t {
        Some(s) => {
            let s = s.as_str();
            if str_eq(s, "int") {
                ArgType::Int
            } else if str_eq(s, "number") {
                ArgType::Number
            } else if str_eq(s, "bool") {
                ArgType::Bool
            } else if str_eq(s, "boolean") {
                ArgType::Boolean
            } else {
                ArgType::Str
            }
        },
        None => ArgType::Str,
    }
}

/// The argument a YAML entry `name: def` declares.
pub fn arg_from_entry(name: &String, def: &JsonValue) -> (r: ArgDef)
    ensures
        arg_fits(r, name@, def@),
{
    let t = text_field(def, "type");
    let default = match get_field(def, "default") {
        Some(d) => Some(d.deep_clone()),
        None => None,
    };
    ArgDef {
        name: name.clone(),
        arg_type: arg_type_from(&t),
        required: flag_field(def, "required"),
        positional: flag_field(def, "positional"),
        description: text_field(def, "description"),
        choices: strings_field(def, "choices"),
        default,
    }
}

/// The arguments an adapter document declares, in the order of its `args`
/// object.
pub fn parse_args(raw: &JsonValue) -> (r: Vec<ArgDef>)
    ensures
        r@.len() == arg_entries(raw@).len(),
        forall|i: int| 0 <= i < r@.len() ==> arg_fits(#[trigger] r@[i], arg_entries(raw@)[i].0, arg_entries(raw@)[i].1),
{
    let mut out: Vec<ArgDef> = Vec::new();
    match get_field(raw, "args") {
        Some(JsonValue::Object(fields)) => {
            let ghost f = view_fields(fields@);
            proof {
                lemma_view_fields_len(fields@);
            }
            let mut i: usize = 0;
            while i < fields.len()
                invariant
                    i <= fields.len(),
                    f == view_fields(fields@),
                    f.len() == fields@.len(),
                    f == arg_entries(raw@),
                    out@.len() == i,
                    forall|j: int| 0 <= j < i ==> arg_fits(#[trigger] out@[j], f[j].0, f[j].1),
                decreases fields.len() - i,
            {
                proof {
                    lemma_view_fields_index(fields@, i as int);
                }
                let a = arg_from_entry(&fields[i].0, &fields[i].1);
                out.push(a);
                i = i + 1;
            }
        },
        _ => {},
    }
    out
}

/// How an adapter authenticates.
#[derive(Debug, Clone, Copy, PartialEq, Eq, Structural)]
pub enum Strategy {
    /// No login; plain requests.
    Public,
    /// The browser's cookies for the site.
    Cookie,
    /// Headers taken from the browser.
    Header,
    /// Requests intercepted in the page.
    Intercept,
    /// Driving the page's user interface.
    Ui,
}

/// The strategy a name stands for (`public`, `cookie`, `header`,
/// `intercept`, `ui`); `Public` for no name or any other.
pub open spec fn strategy_of(name: Option<Seq<char>>) -> Strategy {
    if name == Some("cookie"@) {
        Strategy::Cookie
    } else if name == Some("header"@) {
        Strategy::Header
    } else if name == Some("intercept"@) {
        Strategy::Intercept
    } else if name == Some("ui"@) {
        Strategy::Ui
    } else {
        Strategy::Public
    }
}

/// Every strategy but `Public` works through a browser.
pub open spec fn strategy_needs_browser(s: Strategy) -> bool {
    s != Strategy::Public
}

/// Reads a strategy's name.
pub fn strategy_from_name(name: Option<&str>) -> (r: Strategy)
    ensures
        r == strategy_of(opt_str_view(name)),
{
    match name {
        None => Strategy::Public,
        Some(n) => if str_eq(n, "cookie") {
            Strategy::Cookie
        } else if str_eq(n, "header") {
            Strategy::Header
        } else if str_eq(n, "intercept") {
            Strategy::Intercept
        } else if str_eq(n, "ui") {
            Strategy::Ui
        } else {
            Strategy::Public
        },
    }
}

impl Strategy {
    /// Whether the strategy works through a browser.
    pub fn requires_browser(&self) -> (r: bool)
        ensures
            r == strategy_needs_browser(*self),
    {
        match self {
            Strategy::Public => false,
            _ => true,
        }
    }
}

pub open spec fn opt_str_view(o: Option<&str>) -> Option<Seq<char>> {
    match o {
        Some(s) => Some(s@),
        None => None,
    }
}

/// What an adapter document declares.
#[derive(Debug)]
pub struct AdapterFields {
    pub site: String,
    pub name: String,
    /// The description; empty when none is given.
    pub description: String,
    pub domain: Option<String>,
    /// How it authenticates; `Public` unless the document names another.
    pub strategy: Strategy,
    /// Whether it needs a browser: what the document says, else what its
    /// strategy asks.
    pub browser: bool,
    pub args: Vec<ArgDef>,
    pub columns: Vec<String>,
    pub pipeline: Option<Vec<JsonValue>>,
    pub timeout_seconds: Option<u64>,
    pub version: Option<String>,
    pub updated_at: Option<String>,
}

/// A boolean field, if it is one.
pub open spec fn bool_at(v: Json, k: Seq<char>) -> Option<bool> {
    match json_get(v, k) {
        Some(Json::Bool(b)) => Some(b),
        _ => None,
    }
}

/// The pipeline of a document: its `pipeline` array, if it has one.
pub open spec fn pipeline_of(raw: Json) -> Option<Seq<Json>> {
    match json_get(raw, "pipeline"@) {
        Some(Json::Array(items)) => Some(items),
        _ => None,
    }
}

pub open spec fn opt_items(o: Option<Vec<JsonValue>>) -> Option<Seq<Json>> {
    match o {
        Some(v) => Some(view_items(v@)),
        None => None,
    }
}

/// Whether fields are the ones a document declares (its arguments are
/// stated by `parse_args`).
pub open spec fn adapter_fits(a: AdapterFields, raw: Json) -> bool {
    &&& str_at(raw, "site"@) == Some(a.site@)
    &&& str_at(raw, "name"@) == Some(a.name@)
    &&& a.description@ == match str_at(raw, "description"@) {
        Some(d) => d,
        None => Seq::<char>::empty(),
    }
    &&& opt_view(a.domain) == str_at(raw, "domain"@)
    &&& a.strategy == strategy_of(str_at(raw, "strategy"@))
    &&& a.browser == match bool_at(raw, "browser"@) {
        Some(b) => b,
        None => strategy_needs_browser(a.strategy),
    }
    &&& a.args@.len() == arg_entries(raw).len()
    &&& forall|i: int| 0 <= i < a.args@.len() ==> arg_fits(#[trigger] a.args@[i], arg_entries(raw)[i].0, arg_entries(raw)[i].1)
    &&& texts(a.columns@) == match string_list(raw, "columns"@) {
        Some(c) => c,
        None => Seq::<Seq<char>>::empty(),
    }
    &&& opt_items(a.pipeline) == pipeline_of(raw)
    &&& a.timeout_seconds == u64_of(json_get(raw, "timeoutSeconds"@))
    &&& opt_view(a.version) == str_at(raw, "version"@)
    &&& opt_view(a.updated_at) == str_at(raw, "updatedAt"@)
}

/// The error for a document without `site` or `name` (checked in that
/// order).
pub open spec fn missing_field_error(raw: Json) -> Option<Seq<char>> {
    if str_at(raw, "site"@) is None {
        Some("Missing 'site' field"@)
    } else if str_at(raw, "name"@) is None {
        Some("Missing 'name' field"@)
    } else {
        None
    }
}

fn load_error(msg: &str) -> (r: CliError)
    ensures
        r is AdapterLoad,
        message_of(r) == msg@,
        suggestions_of(r).len() == 0,
{
    CliError::AdapterLoad { message: msg.to_owned(), suggestions: Vec::new() }
}

/// Reads what an adapter document declares; it must name its site and
/// command.
pub fn adapter_fields(raw: &JsonValue) -> (r: Result<AdapterFields, CliError>)
    ensures
        match r {
            Ok(a) => missing_field_error(raw@) is None && adapter_fits(a, raw@),
            Err(e) => e is AdapterLoad && missing_field_error(raw@) == Some(message_of(e)),
        },
{
    let site = match text_field(raw, "site") {
        Some(s) => s,
        None => {
            return Err(load_error("Missing 'site' field"));
        },
    };
    let name = match text_field(raw, "name") {
        Some(s) => s,
        None => {
            return Err(load_error("Missing 'name' field"));
        },
    };
    let description = match text_field(raw, "description") {
        Some(d) => d,
        None => String::new(),
    };
    let strategy = match get_field(raw, "strategy") {
        Some(JsonValue::String(t)) => strategy_from_name(Some(t.as_str())),
        _ => Strategy::Public,
    };
    let browser = match get_field(raw, "browser") {
        Some(JsonValue::Bool(b)) => *b,
        _ => strategy.requires_browser(),
    };
    let columns = match strings_field(raw, "columns") {
        Some(c) => c,
        None => Vec::new(),
    };
    assert(texts(Seq::<String>::empty()) =~= Seq::<Seq<char>>::empty());
    let pipeline = match get_field(raw, "pipeline") {
        Some(p) => match p.deep_clone() {
            JsonValue::Array(items) => Some(items),
            _ => None,
        },
        None => None,
    };
    let timeout_seconds = match get_field(raw, "timeoutSeconds") {
        Some(JsonValue::Number(JsonNumber::PosInt(n))) => Some(*n),
        _ => None,
    };
    Ok(
        AdapterFields {
            site,
            name,
            description,
            domain: text_field(raw, "domain"),
            strategy,
            browser,
            args: parse_args(raw),
            columns,
            pipeline,
            timeout_seconds,
            version: text_field(raw, "version"),
            updated_at: text_field(raw, "updatedAt"),
        },
    )
}

/// The pipeline steps that drive a browser page.
pub open spec fn browser_step_key(k: Seq<char>) -> bool {
    k == "navigate"@ || k == "click"@ || k == "type"@ || k == "wait"@ || k == "press"@ || k
        == "evaluate"@ || k == "snapshot"@ || k == "screenshot"@ || k == "intercept"@ || k
        == "tap"@ || k == "bg_fetch"@
}

/// Whether a pipeline step is an object with a browser step among its
/// keys.
pub open spec fn browser_step(step: Json) -> bool {
    match step {
        Json::Object(fields) => has_browser_key(fields),
        _ => false,
    }
}

/// Whether some field is named after a browser step.
pub open spec fn has_browser_key(fields: Seq<(Seq<char>, Json)>) -> bool {
    exists|i: int| 0 <= i < fields.len() && browser_step_key(#[trigger] fields[i].0)
}

/// Whether some step of a pipeline drives a browser page.
pub open spec fn has_browser_step(p: Seq<Json>) -> bool {
    exists|i: int| 0 <= i < p.len() && browser_step(#[trigger] p[i])
}

/// Whether a command needs a browser: it says so, its strategy does, or
/// its pipeline has a browser step.
pub open spec fn needs_browser_of(browser: bool, strategy_needs_browser: bool, pipeline: Option<Seq<Json>>) -> bool {
    browser || strategy_needs_browser || match pipeline {
        Some(p) => has_browser_step(p),
        None => false,
    }
}

fn is_browser_key(k: &str) -> (r: bool)
    ensures
        r == browser_step_key(k@),
{
    str_eq(k, "navigate") || str_eq(k, "click") || str_eq(k, "type") || str_eq(k, "wait") || str_eq(
        k,
        "press",
    ) || str_eq(k, "evaluate") || str_eq(k, "snapshot") || str_eq(k, "screenshot") || str_eq(
        k,
        "intercept",
    ) || str_eq(k, "tap") || str_eq(k, "bg_fetch")
}

fn step_needs_browser(step: &JsonValue) -> (r: bool)
    ensures
        r == browser_step(step@),
{
    match step {
        JsonValue::Object(fields) => {
            let ghost f = view_fields(fields@);
            proof {
                lemma_view_fields_len(fields@);
            }
            let mut i: usize = 0;
            while i < fields.len()
                invariant
                    i <= fields.len(),
                    f == view_fields(fields@),
                    f.len() == fields@.len(),
                    step@ == Json::Object(f),
                    forall|j: int| 0 <= j < i ==> !browser_step_key(#[trigger] f[j].0),
                decreases fields.len() - i,
            {
                proof {
                    lemma_view_fields_index(fields@, i as int);
                }
                if is_browser_key(fields[i].0.as_str()) {
                    assert(browser_step_key(f[i as int].0));
                    assert(has_browser_key(f));
                    return true;
                }
                i = i + 1;
            }
            false
        },
        _ => false,
    }
}

/// Whether a command needs a browser; `strategy_needs_browser` is what its
/// authentication strategy asks.
pub fn needs_browser(browser: bool, strategy_needs_browser: bool, pipeline: Option<&Vec<JsonValue>>) -> (r: bool)
    ensures
        r == needs_browser_of(
            browser,
            strategy_needs_browser,
            match pipeline {
                Some(p) => Some(view_items(p@)),
                None => None,
            },
        ),
{
    if browser || strategy_needs_browser {
        return true;
    }
    match pipeline {
        Some(p) => {
            let ghost all = view_items(p@);
            proof {
                lemma_view_items_len(p@);
            }
            let mut i: usize = 0;
            while i < p.len()
                invariant
                    i <= p.len(),
                    all == view_items(p@),
                    all.len() == p@.len(),
                    pipeline == Some(p),
                    !browser && !strategy_needs_browser,
                    forall|j: int| 0 <= j < i ==> !browser_step(#[trigger] all[j]),
                decreases p.len() - i,
            {
                proof {
                    lemma_view_items_index(p@, i as int);
                }
                if step_needs_browser(&p[i]) {
                    assert(browser_step(all[i as int]));
                    assert(has_browser_step(all));
                    return true;
                }
                i = i + 1;
            }
            false
        },
        None => false,
    }
}

/// The error for an adapter text that is no YAML, with the reader's
/// reason after the prefix.
fn yaml_error(reason: &str) -> (r: CliError)
    ensures
        r is AdapterLoad,
        starts_with(message_of(r), "Failed to parse YAML: "@),
{
    let mut msg = String::from_str("Failed to parse YAML: ");
    proof {
        reveal_strlit("Failed to parse YAML: ");
    }
    msg.append(reason);
    assert(msg@.take(22) =~= "Failed to parse YAML: "@);
    CliError::AdapterLoad { message: msg, suggestions: Vec::new() }
}

/// Reads an adapter's YAML text: a text that is no YAML is refused with
/// the reader's reason; a document is read as `adapter_fields` reads it.
pub fn parse_yaml_adapter(content: &str) -> (r: Result<AdapterFields, CliError>)
    ensures
        match yaml_json(content@) {
            None => r matches Err(e) && e is AdapterLoad && starts_with(
                message_of(e),
                "Failed to parse YAML: "@,
            ),
            Some(v) => match r {
                Ok(a) => missing_field_error(v) is None && adapter_fits(a, v),
                Err(e) => e is AdapterLoad && missing_field_error(v) == Some(message_of(e)),
            },
        },
{
    match parse_yaml_json(content) {
        Ok(v) => adapter_fields(&v),
        Err(reason) => Err(yaml_error(reason.as_str())),
    }
}

/// The last part of a path: what follows its last `/`.
pub open spec fn base_name(path: Seq<char>) -> Seq<char>
    decreases path.len(),
{
    if path.len() == 0 {
        path
    } else if path.last() == '/' {
        Seq::empty()
    } else {
        base_name(path.drop_last()).push(path.last())
    }
}

/// Whether a path names an adapter file: its last part has the extension
/// `yaml` or `yml`, with a stem before the dot (`Path::extension`, for
/// paths as a directory listing gives them).
pub open spec fn adapter_file(path: Seq<char>) -> bool {
    let b = base_name(path);
    (ends_with(b, ".yaml"@) && b.len() > 5) || (ends_with(b, ".yml"@) && b.len() > 4)
}

/// Whether a path names an adapter file.
pub fn is_adapter_file(path: &str) -> (b: bool)
    ensures
        b == adapter_file(path@),
{
    let p = chars_of(path);
    let mut start: usize = 0;
    let mut i: usize = 0;
    assert(p@.take(0) =~= Seq::<char>::empty());
    while i < p.len()
        invariant
            i <= p.len(),
            start <= i,
            p@ == path@,
            base_name(p@.take(i as int)) == p@.subrange(start as int, i as int),
        decreases p.len() - i,
    {
        assert(p@.take(i + 1).drop_last() =~= p@.take(i as int));
        assert(p@.take(i + 1).last() == p@[i as int]);
        if p[i] == '/' {
            start = i + 1;
            assert(p@.subrange(start as int, i + 1) =~= Seq::<char>::empty());
        } else {
            assert(p@.subrange(start as int, i + 1) =~= p@.subrange(start as int, i as int).push(p@[i as int]));
        }
        i = i + 1;
    }
    assert(p@.take(p.len() as int) =~= p@);
    let b = slice_chars(&p, start, p.len());
    let yaml = chars_of(".yaml");
    let yml = chars_of(".yml");
    proof {
        reveal_strlit(".yaml");
        reveal_strlit(".yml");
    }
    (ends_with_exec(&b, &yaml) && b.len() > 5) || (ends_with_exec(&b, &yml) && b.len() > 4)
}

/// Whether a file is loaded as an adapter: its path names an adapter
/// file, and its text reads as a document with a site and a name.
pub open spec fn loads(path: Seq<char>, text: Seq<char>) -> bool {
    adapter_file(path) && match yaml_json(text) {
        Some(v) => missing_field_error(v) is None,
        None => false,
    }
}

/// The places, in order, of the files that load.
pub open spec fn loaded_places(files: Seq<(Seq<char>, Seq<char>)>) -> Seq<int>
    decreases files.len(),
{
    if files.len() == 0 {
        Seq::empty()
    } else {
        let r = loaded_places(files.drop_last());
        if loads(files.last().0, files.last().1) {
            r.push(files.len() - 1)
        } else {
            r
        }
    }
}

pub open spec fn file_views(files: Seq<(String, String)>) -> Seq<(Seq<char>, Seq<char>)> {
    files.map_values(|f: (String, String)| (f.0@, f.1@))
}

/// Loads the adapters among files given as (path, text): those whose
/// path names an adapter file and whose text reads as an adapter, in
/// order, and how many they are. The others are passed over.
pub fn register_adapters(files: &Vec<(String, String)>) -> (r: (Vec<AdapterFields>, usize))
    ensures
        r.1 == r.0.len(),
        r.0.len() == loaded_places(file_views(files@)).len(),
        forall|k: int| 0 <= k < r.0.len() ==> {
            let f = #[trigger] file_views(files@)[loaded_places(file_views(files@))[k]];
            yaml_json(f.1) matches Some(v) && adapter_fits(r.0@[k], v)
        },
{
    let ghost fv = file_views(files@);
    let mut out: Vec<AdapterFields> = Vec::new();
    let mut i: usize = 0;
    while i < files.len()
        invariant
            i <= files.len(),
            fv == file_views(files@),
            fv.len() == files.len(),
            out.len() == loaded_places(fv.take(i as int)).len(),
            forall|k: int| 0 <= k < out.len() ==> {
                let f = #[trigger] fv[loaded_places(fv.take(i as int))[k]];
                yaml_json(f.1) matches Some(v) && adapter_fits(out@[k], v)
            },
            forall|k: int| 0 <= k < out.len() ==> 0 <= #[trigger] loaded_places(fv.take(i as int))[k] < i,
        decreases files.len() - i,
    {
        let ghost before = fv.take(i as int);
        assert(fv.take(i + 1).drop_last() =~= before);
        assert(fv.take(i + 1).last() == fv[i as int]);
        assert(fv[i as int] == (files@[i as int].0@, files@[i as int].1@));
        let ghost prev = out@;
        if is_adapter_file(files[i].0.as_str()) {
            match parse_yaml_adapter(files[i].1.as_str()) {
                Ok(a) => {
                    out.push(a);
                    assert(loaded_places(fv.take(i + 1)) == loaded_places(before).push(i as int));
                    assert forall|k: int| 0 <= k < out.len() implies {
                        let f = #[trigger] fv[loaded_places(fv.take(i + 1))[k]];
                        yaml_json(f.1) matches Some(v) && adapter_fits(out@[k], v)
                    } by {
                        if k < prev.len() {
                            assert(out@[k] == prev[k]);
                            assert(loaded_places(fv.take(i + 1))[k] == loaded_places(before)[k]);
                        }
                    }
                },
                Err(_) => {
                    assert(loaded_places(fv.take(i + 1)) == loaded_places(before));
                },
            }
        } else {
            assert(loaded_places(fv.take(i + 1)) == loaded_places(before));
        }
        i = i + 1;
    }
    assert(fv.take(files.len() as int) =~= fv);
    let n = out.len();
    (out, n)
}

/// The five strategy names, in the order of `Strategy`'s variants.
pub open spec fn strategy_names() -> Seq<Seq<char>> {
    seq!["public"@, "cookie"@, "header"@, "intercept"@, "ui"@]
}

/// Reading each of the five strategy names gives the strategy of that
/// name: distinct names give distinct strategies, `public` gives `Public`
/// and every other name a strategy that works through a browser; a name
/// that is none of them (or no name) gives `Public`.
pub proof fn law_strategy_names(i: int, j: int, other: Option<Seq<char>>)
    requires
        0 <= i < 5,
        0 <= j < 5,
    ensures
        i != j ==> strategy_of(Some(strategy_names()[i])) != strategy_of(Some(strategy_names()[j])),
        strategy_of(Some(strategy_names()[i])) == Strategy::Public <==> i == 0,
        strategy_needs_browser(strategy_of(Some(strategy_names()[i]))) <==> i != 0,
        strategy_of(Some(strategy_names()[1])) == Strategy::Cookie,
        strategy_of(Some(strategy_names()[2])) == Strategy::Header,
        strategy_of(Some(strategy_names()[3])) == Strategy::Intercept,
        strategy_of(Some(strategy_names()[4])) == Strategy::Ui,
        (forall|k: int| 0 <= k < 5 ==> other != Some(#[trigger] strategy_names()[k])) ==> strategy_of(other)
            == Strategy::Public,
{
    reveal_strlit("public");
    reveal_strlit("cookie");
    reveal_strlit("header");
    reveal_strlit("intercept");
    reveal_strlit("ui");
    let n = strategy_names();
    assert(n[0] == "public"@ && n[1] == "cookie"@ && n[2] == "header"@ && n[3] == "intercept"@ && n[4] == "ui"@);
    assert("public"@ != "cookie"@) by { assert("public"@[0] != "cookie"@[0]); }
    assert("public"@ != "header"@) by { assert("public"@[0] != "header"@[0]); }
    assert("public"@ != "intercept"@) by { assert("public"@[0] != "intercept"@[0]); }
    assert("public"@ != "ui"@) by { assert("public"@[0] != "ui"@[0]); }
    assert("cookie"@ != "header"@) by { assert("cookie"@[0] != "header"@[0]); }
    assert("cookie"@ != "intercept"@) by { assert("cookie"@[0] != "intercept"@[0]); }
    assert("cookie"@ != "ui"@) by { assert("cookie"@[0] != "ui"@[0]); }
    assert("header"@ != "intercept"@) by { assert("header"@[0] != "intercept"@[0]); }
    assert("header"@ != "ui"@) by { assert("header"@[0] != "ui"@[0]); }
    assert("intercept"@ != "ui"@) by { assert("intercept"@[0] != "ui"@[0]); }
    if forall|k: int| 0 <= k < 5 ==> other != Some(#[trigger] strategy_names()[k]) {
        assert(other != Some(n[1]));
        assert(other != Some(n[2]));
        assert(other != Some(n[3]));
        assert(other != Some(n[4]));
    }
}

} // verus!
