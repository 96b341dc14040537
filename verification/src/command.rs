//! What an adapter command declares: its arguments, whether it navigates
//! first, and the page actions it offers to the browser extension.
use vstd::prelude::*;

use crate::json::{Json, JsonValue, insert_field, set_field, view_fields};
use crate::json_text::{json_serialized, json_text};
use crate::text::{concat3, join, join_texts, str_eq, texts};

verus! {

/// The type of an argument's value.
#[derive(Debug, Clone, Copy, PartialEq, Eq, Structural)]
pub enum ArgType {
    Str,
    Int,
    Number,
    Bool,
    Boolean,
}

/// One argument that a command declares.
#[derive(Debug)]
pub struct ArgDef {
    pub name: String,
    pub arg_type: ArgType,
    pub required: bool,
    pub positional: bool,
    pub description: Option<String>,
    pub choices: Option<Vec<String>>,
    pub default: Option<JsonValue>,
}

/// Whether a command navigates before it runs: a flag, or the URL to go
/// to.
#[derive(Debug)]
pub enum NavigateBefore {
    Bool(bool),
    Url(String),
}

impl NavigateBefore {
    /// By default a command navigates first.
    pub fn default_value() -> (r: NavigateBefore)
        ensures
            r == NavigateBefore::Bool(true),
    {
        NavigateBefore::Bool(true)
    }
}

/// How the extension runs an action in the current tab.
#[derive(Debug)]
pub struct ActiveTabAction {
    /// Reuse the adapter's pipeline, skipping steps that change the page,
    /// such as navigation.
    pub use_pipeline: bool,
    /// A read-only script that extracts the data instead.
    pub extract: Option<String>,
}

/// An adapter's offer to run on a matching page from the extension popup.
#[derive(Debug)]
pub struct ContextAction {
    /// Short label shown in the popup.
    pub title: String,
    /// Exact host names the action is for (compared trimmed, without
    /// trailing dots, in ASCII lower case); when empty, the adapter's
    /// domain bounds the matching.
    pub hosts: Vec<String>,
    /// URL paths the action accepts; `*` matches any run of characters.
    pub paths: Vec<String>,
    /// How to run in the current tab.
    pub active_tab: Option<ActiveTabAction>,
    /// Adapter argument and the contextual value it takes; only
    /// `current_url` is accepted.
    pub args: Vec<(String, String)>,
}

/// The hint an argument's type shows in usage lines.
pub open spec fn type_hint(t: ArgType) -> Seq<char> {
    match t {
        ArgType::Int => "int"@,
        ArgType::Number => "number"@,
        ArgType::Bool => "bool"@,
        ArgType::Boolean => "bool"@,
        ArgType::Str => "str"@,
    }
}

pub fn arg_type_hint(a: &ArgDef) -> (r: &'static str)
    ensures
        r@ == type_hint(a.arg_type),
{
    match a.arg_type {
        ArgType::Int => "int",
        ArgType::Number => "number",
        ArgType::Bool => "bool",
        ArgType::Boolean => "bool",
        ArgType::Str => "str",
    }
}

pub open spec fn opt_json(o: Option<JsonValue>) -> Option<Json> {
    match o {
        Some(v) => Some(v@),
        None => None,
    }
}

/// The keyword arguments that defaults give: each argument with a default
/// sets it, a later argument of the same name winning.
pub open spec fn defaults_of(args: Seq<ArgDef>) -> Seq<(Seq<char>, Json)>
    decreases args.len(),
{
    if args.len() == 0 {
        Seq::empty()
    } else {
        let kw = defaults_of(args.drop_last());
        match opt_json(args.last().default) {
            Some(d) => insert_field(kw, args.last().name@, d),
            None => kw,
        }
    }
}

/// The keyword arguments given by the arguments' defaults.
pub fn defaults_from(args: &Vec<ArgDef>) -> (r: Vec<(String, JsonValue)>)
    ensures
        view_fields(r@) == defaults_of(args@),
{
    let mut kw: Vec<(String, JsonValue)> = Vec::new();
    assert(view_fields(kw@) =~= Seq::<(Seq<char>, Json)>::empty());
    let mut i: usize = 0;
    assert(args@.take(0) =~= Seq::<ArgDef>::empty());
    while i < args.len()
        invariant
            i <= args.len(),
            view_fields(kw@) == defaults_of(args@.take(i as int)),
        decreases args.len() - i,
    {
        assert(args@.take(i + 1).drop_last() =~= args@.take(i as int));
        assert(args@.take(i + 1).last() == args@[i as int]);
        match &args[i].default {
            Some(d) => {
                set_field(&mut kw, args[i].name.clone(), d.deep_clone());
            },
            None => {},
        }
        i = i + 1;
    }
    assert(args@.take(args.len() as int) =~= args@);
    kw
}

/// The contextual arguments of a page action: each argument takes the
/// page's URL; any other source refuses the action.
pub open spec fn context_args_of(args: Seq<(String, String)>, url: Seq<char>) -> Option<
    Seq<(Seq<char>, Seq<char>)>,
> {
    if forall|i: int| 0 <= i < args.len() ==> (#[trigger] args[i]).1@ == "current_url"@ {
        Some(args.map_values(|a: (String, String)| (a.0@, url)))
    } else {
        None
    }
}

pub open spec fn pairs_view(v: Seq<(String, String)>) -> Seq<(Seq<char>, Seq<char>)> {
    v.map_values(|a: (String, String)| (a.0@, a.1@))
}

/// The arguments a page action passes for the page at `current_url`.
pub fn context_args(context: &ContextAction, current_url: &str) -> (r: Result<Vec<(String, String)>, ()>)
    ensures
        match r {
            Ok(v) => context_args_of(context.args@, current_url@) == Some(pairs_view(v@)),
            Err(_) => context_args_of(context.args@, current_url@) is None,
        },
{
    let mut out: Vec<(String, String)> = Vec::new();
    let mut i: usize = 0;
    while i < context.args.len()
        invariant
            i <= context.args.len(),
            forall|j: int| 0 <= j < i ==> (#[trigger] context.args@[j]).1@ == "current_url"@,
            pairs_view(out@) == context.args@.take(i as int).map_values(
                |a: (String, String)| (a.0@, current_url@),
            ),
        decreases context.args.len() - i,
    {
        if !str_eq(context.args[i].1.as_str(), "current_url") {
            return Err(());
        }
        let ghost prev = out@;
        out.push((context.args[i].0.clone(), current_url.to_owned()));
        assert(pairs_view(out@) =~= pairs_view(prev).push((context.args@[i as int].0@, current_url@)));
        assert(context.args@.take(i + 1).map_values(|a: (String, String)| (a.0@, current_url@))
            =~= context.args@.take(i as int).map_values(|a: (String, String)| (a.0@, current_url@)).push(
            (context.args@[i as int].0@, current_url@),
        ));
        i = i + 1;
    }
    assert(context.args@.take(context.args.len() as int) =~= context.args@);
    Ok(out)
}

/// The usage words of the positional arguments: `<name>` when required,
/// `[<name>]` otherwise.
pub open spec fn positional_words(args: Seq<ArgDef>) -> Seq<Seq<char>>
    decreases args.len(),
{
    if args.len() == 0 {
        Seq::empty()
    } else {
        let w = positional_words(args.drop_last());
        let a = args.last();
        if !a.positional {
            w
        } else if a.required {
            w.push("<"@ + a.name@ + ">"@)
        } else {
            w.push("[<"@ + a.name@ + ">]"@)
        }
    }
}

/// The usage words of the required options: `--name <type>`.
pub open spec fn required_words(args: Seq<ArgDef>) -> Seq<Seq<char>>
    decreases args.len(),
{
    if args.len() == 0 {
        Seq::empty()
    } else {
        let w = required_words(args.drop_last());
        let a = args.last();
        if !a.positional && a.required {
            w.push("--"@ + a.name@ + " <"@ + type_hint(a.arg_type) + ">"@)
        } else {
            w
        }
    }
}

/// The usage words of the other options: `[--name=default]` with the
/// default's JSON text, or `[--name <type>]`.
pub open spec fn optional_words(args: Seq<ArgDef>, defaults: Seq<Option<Seq<char>>>) -> Seq<Seq<char>>
    decreases args.len(),
{
    if args.len() == 0 || defaults.len() == 0 {
        Seq::empty()
    } else {
        let w = optional_words(args.drop_last(), defaults.drop_last());
        let a = args.last();
        if a.positional || a.required {
            w
        } else {
            match defaults.last() {
                Some(t) => w.push("[--"@ + a.name@ + "="@ + t + "]"@),
                None => w.push("[--"@ + a.name@ + " <"@ + type_hint(a.arg_type) + ">]"@),
            }
        }
    }
}

/// A ready-to-copy invocation of a command: `opencli site name`, then the
/// positional arguments, the required options and the other options.
pub open spec fn usage_line(full_name: Seq<char>, args: Seq<ArgDef>, defaults: Seq<Option<Seq<char>>>) -> Seq<char> {
    join(
        seq!["opencli "@ + full_name] + positional_words(args) + required_words(args) + optional_words(args, defaults),
        " "@,
    )
}

/// The JSON text of each argument's default, where it has one.
pub open spec fn default_texts_of(args: Seq<ArgDef>) -> Seq<Option<Seq<char>>> {
    args.map_values(
        |a: ArgDef|
            match a.default {
                Some(d) => Some(json_serialized(d@)),
                None => None,
            },
    )
}

pub open spec fn opt_texts(v: Seq<Option<String>>) -> Seq<Option<Seq<char>>> {
    v.map_values(
        |o: Option<String>|
            match o {
                Some(t) => Some(t@),
                None => None,
            },
    )
}

/// Builds the usage line of a command (see `usage_line`); a default shows
/// as its JSON text.
pub fn adapter_usage_line(full_name: &str, args: &Vec<ArgDef>) -> (r: String)
    ensures
        r@ == usage_line(full_name@, args@, default_texts_of(args@)),
{
    let mut default_texts: Vec<Option<String>> = Vec::new();
    let mut k: usize = 0;
    while k < args.len()
        invariant
            k <= args.len(),
            default_texts.len() == k,
            opt_texts(default_texts@) == default_texts_of(args@.take(k as int)),
        decreases args.len() - k,
    {
        let t = match &args[k].default {
            Some(d) => Some(json_text(d)),
            None => None,
        };
        let ghost prev = opt_texts(default_texts@);
        default_texts.push(t);
        assert(opt_texts(default_texts@) =~= prev.push(
            match t {
                Some(x) => Some(x@),
                None => None,
            },
        ));
        assert(args@.take(k + 1) =~= args@.take(k as int).push(args@[k as int]));
        assert(default_texts_of(args@.take(k + 1)) =~= default_texts_of(args@.take(k as int)).push(
            match t {
                Some(x) => Some(x@),
                None => None,
            },
        ));
        k = k + 1;
    }
    assert(args@.take(args.len() as int) =~= args@);
    let mut parts: Vec<String> = Vec::new();
    let mut head = String::from_str("opencli ");
    head.append(full_name);
    parts.push(head);
    let ghost p0 = texts(parts@);
    assert(p0 =~= seq!["opencli "@ + full_name@]);
    let mut i: usize = 0;
    assert(args@.take(0) =~= Seq::<ArgDef>::empty());
    while i < args.len()
        invariant
            i <= args.len(),
            p0 == seq!["opencli "@ + full_name@],
            texts(parts@) == p0 + positional_words(args@.take(i as int)),
        decreases args.len() - i,
    {
        let a = &args[i];
        assert(args@.take(i + 1).drop_last() =~= args@.take(i as int));
        let ghost prev = texts(parts@);
        if a.positional {
            if a.required {
                parts.push(concat3("<", a.name.as_str(), ">"));
            } else {
                parts.push(concat3("[<", a.name.as_str(), ">]"));
            }
            assert(texts(parts@) =~= prev.push(parts@[parts@.len() - 1]@));
        }
        i = i + 1;
    }
    assert(args@.take(args.len() as int) =~= args@);
    let ghost p1 = texts(parts@);
    let mut i: usize = 0;
    while i < args.len()
        invariant
            i <= args.len(),
            texts(parts@) == p1 + required_words(args@.take(i as int)),
        decreases args.len() - i,
    {
        let a = &args[i];
        assert(args@.take(i + 1).drop_last() =~= args@.take(i as int));
        let ghost prev = texts(parts@);
        if !a.positional && a.required {
            let mut w = concat3("--", a.name.as_str(), " <");
            w.append(arg_type_hint(a));
            w.append(">");
            parts.push(w);
            assert(texts(parts@) =~= prev.push(parts@[parts@.len() - 1]@));
        }
        i = i + 1;
    }
    assert(args@.take(args.len() as int) =~= args@);
    let ghost p2 = texts(parts@);
    let ghost dt = opt_texts(default_texts@);
    let mut i: usize = 0;
    assert(dt.take(0) =~= Seq::<Option<Seq<char>>>::empty());
    while i < args.len()
        invariant
            i <= args.len() == default_texts.len(),
            dt == opt_texts(default_texts@),
            texts(parts@) == p2 + optional_words(args@.take(i as int), dt.take(i as int)),
        decreases args.len() - i,
    {
        let a = &args[i];
        assert(args@.take(i + 1).drop_last() =~= args@.take(i as int));
        assert(dt.take(i + 1).drop_last() =~= dt.take(i as int));
        let ghost prev = texts(parts@);
        if !(a.positional || a.required) {
            match &default_texts[i] {
                Some(t) => {
                    let mut w = concat3("[--", a.name.as_str(), "=");
                    w.append(t.as_str());
                    w.append("]");
                    parts.push(w);
                },
                None => {
                    let mut w = concat3("[--", a.name.as_str(), " <");
                    w.append(arg_type_hint(a));
                    w.append(">]");
                    parts.push(w);
                },
            }
            assert(texts(parts@) =~= prev.push(parts@[parts@.len() - 1]@));
        }
        i = i + 1;
    }
    assert(args@.take(args.len() as int) =~= args@);
    assert(dt.take(args.len() as int) =~= dt);
    assert(texts(parts@) =~= seq!["opencli "@ + full_name@] + positional_words(args@) + required_words(
        args@,
    ) + optional_words(args@, dt));
    join_texts(&parts, " ")
}

} // verus!
