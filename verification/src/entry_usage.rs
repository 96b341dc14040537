//! The usage line the client prints for an adapter entry that the daemon
//! sent as JSON.
use vstd::prelude::*;

use crate::download::str_at;
use crate::json::{
    get_field, json_get, lemma_view_items_index, lemma_view_items_len, view_items, Json, JsonValue,
};
use crate::json_text::{json_serialized, json_text};
use crate::kv_steps::flag_of;
use crate::text::{concat3, join, join_texts, texts};

verus! {

/// The arguments an entry lists.
pub open spec fn entry_args_of(entry: Json) -> Seq<Json> {
    match json_get(entry, "args"@) {
        Some(Json::Array(items)) => items,
        _ => Seq::empty(),
    }
}

/// An argument's name; `arg` when it has none.
pub open spec fn arg_name_of(a: Json) -> Seq<char> {
    match str_at(a, "name"@) {
        Some(n) => n,
        None => "arg"@,
    }
}

/// The usage words of the positional arguments.
pub open spec fn entry_positional_words(args: Seq<Json>) -> Seq<Seq<char>>
    decreases args.len(),
{
    if args.len() == 0 {
        Seq::empty()
    } else {
        let w = entry_positional_words(args.drop_last());
        let a = args.last();
        if !flag_of(a, "positional"@, false) {
            w
        } else if flag_of(a, "required"@, false) {
            w.push("<"@ + arg_name_of(a) + ">"@)
        } else {
            w.push("[<"@ + arg_name_of(a) + ">]"@)
        }
    }
}

/// The text an option's default shows: a string as it is, nothing for
/// null or no default, else its JSON text.
pub open spec fn default_shown(a: Json, json_text: Seq<char>) -> Option<Seq<char>> {
    match json_get(a, "default"@) {
        Some(Json::Str(s)) => Some(s),
        Some(Json::Null) => None,
        None => None,
        Some(_) => Some(json_text),
    }
}

/// The usage words of the options, in order: `--name <value>` when
/// required, `[--name=default]` with a default, `[--name <value>]`
/// otherwise.
pub open spec fn entry_option_words(args: Seq<Json>, json_texts: Seq<Seq<char>>) -> Seq<Seq<char>>
    decreases args.len(),
{
    if args.len() == 0 || json_texts.len() == 0 {
        Seq::empty()
    } else {
        let w = entry_option_words(args.drop_last(), json_texts.drop_last());
        let a = args.last();
        let n = arg_name_of(a);
        if flag_of(a, "positional"@, false) {
            w
        } else if flag_of(a, "required"@, false) {
            w.push("--"@ + n + " <value>"@)
        } else {
            match default_shown(a, json_texts.last()) {
                Some(d) => w.push("[--"@ + n + "="@ + d + "]"@),
                None => w.push("[--"@ + n + " <value>]"@),
            }
        }
    }
}

/// The usage line of an entry: `opencli {full_name}` (`?` when it has
/// none), the positional arguments, then the options.
pub open spec fn entry_usage_of(entry: Json, json_texts: Seq<Seq<char>>) -> Seq<char> {
    let name = match str_at(entry, "full_name"@) {
        Some(n) => n,
        None => "?"@,
    };
    let args = entry_args_of(entry);
    join(
        seq!["opencli "@ + name] + entry_positional_words(args) + entry_option_words(args, json_texts),
        " "@,
    )
}

fn flag_at(v: &JsonValue, k: &str) -> (r: bool)
    ensures
        r == flag_of(v@, k@, false),
{
    match get_field(v, k) {
        Some(JsonValue::Bool(b)) => *b,
        _ => false,
    }
}

fn name_at(v: &JsonValue) -> (r: String)
    ensures
        r@ == arg_name_of(v@),
{
    match get_field(v, "name") {
        Some(JsonValue::String(s)) => s.clone(),
        _ => String::from_str("arg"),
    }
}

fn entry_args(entry: &JsonValue) -> (r: Vec<JsonValue>)
    ensures
        view_items(r@) == entry_args_of(entry@),
{
    assert(view_items(Seq::<JsonValue>::empty()) =~= Seq::<Json>::empty());
    match get_field(entry, "args") {
        Some(v) => match v.deep_clone() {
            JsonValue::Array(items) => items,
            _ => Vec::new(),
        },
        None => Vec::new(),
    }
}

/// The JSON text of each argument's default (empty for one without).
pub open spec fn default_texts_of(args: Seq<Json>) -> Seq<Seq<char>> {
    args.map_values(
        |a: Json|
            match json_get(a, "default"@) {
                Some(d) => json_serialized(d),
                None => Seq::<char>::empty(),
            },
    )
}

/// The usage line of an adapter entry; a default that is neither a string
/// nor null shows as its JSON text.
pub fn usage_from_entry_json(entry: &JsonValue) -> (r: String)
    ensures
        r@ == entry_usage_of(entry@, default_texts_of(entry_args_of(entry@))),
{
    let args = entry_args(entry);
    let ghost av = view_items(args@);
    proof {
        lemma_view_items_len(args@);
        reveal_strlit("");
    }
    let mut json_texts: Vec<String> = Vec::new();
    let mut k: usize = 0;
    while k < args.len()
        invariant
            k <= args.len(),
            av == view_items(args@),
            av.len() == args@.len(),
            json_texts.len() == k,
            texts(json_texts@) == default_texts_of(av.take(k as int)),
        decreases args.len() - k,
    {
        proof {
            lemma_view_items_index(args@, k as int);
        }
        let a = &args[k];
        assert(a@ == av[k as int]);
        let t = match get_field(a, "default") {
            Some(d) => json_text(d),
            None => {
                let e = String::from_str("");
                proof {
                    reveal_strlit("");
                }
                e
            },
        };
        let ghost prev = texts(json_texts@);
        assert(t@ == match json_get(av[k as int], "default"@) {
            Some(d) => json_serialized(d),
            None => Seq::<char>::empty(),
        });
        json_texts.push(t);
        assert(texts(json_texts@) =~= prev.push(t@));
        assert(av.take(k + 1) =~= av.take(k as int).push(av[k as int]));
        assert(default_texts_of(av.take(k + 1)) =~= default_texts_of(av.take(k as int)).push(t@));
        k = k + 1;
    }
    assert(av.take(av.len() as int) =~= av);
    let name = match get_field(entry, "full_name") {
        Some(JsonValue::String(s)) => s.clone(),
        _ => String::from_str("?"),
    };
    let mut parts: Vec<String> = Vec::new();
    parts.push(concat3("opencli ", name.as_str(), ""));
    proof {
        reveal_strlit("");
    }
    let ghost p0 = texts(parts@);
    assert(p0 =~= seq!["opencli "@ + name@]);
    let mut i: usize = 0;
    assert(av.take(0) =~= Seq::<Json>::empty());
    while i < args.len()
        invariant
            i <= args.len(),
            av == view_items(args@),
            av.len() == args@.len(),
            texts(parts@) == p0 + entry_positional_words(av.take(i as int)),
        decreases args.len() - i,
    {
        proof {
            lemma_view_items_index(args@, i as int);
        }
        assert(av.take(i + 1).drop_last() =~= av.take(i as int));
        assert(av.take(i + 1).last() == av[i as int]);
        let a = &args[i];
        let ghost prev = texts(parts@);
        if flag_at(a, "positional") {
            let n = name_at(a);
            if flag_at(a, "required") {
                parts.push(concat3("<", n.as_str(), ">"));
            } else {
                parts.push(concat3("[<", n.as_str(), ">]"));
            }
            assert(texts(parts@) =~= prev.push(parts@[parts@.len() - 1]@));
        }
        i = i + 1;
    }
    assert(av.take(av.len() as int) =~= av);
    let ghost p1 = texts(parts@);
    let ghost jt = texts(json_texts@);
    let mut i: usize = 0;
    assert(jt.take(0) =~= Seq::<Seq<char>>::empty());
    while i < args.len()
        invariant
            i <= args.len() == json_texts.len(),
            av == view_items(args@),
            av.len() == args@.len(),
            jt == texts(json_texts@),
            jt.len() == json_texts@.len(),
            texts(parts@) == p1 + entry_option_words(av.take(i as int), jt.take(i as int)),
        decreases args.len() - i,
    {
        proof {
            lemma_view_items_index(args@, i as int);
        }
        assert(av.take(i + 1).drop_last() =~= av.take(i as int));
        assert(av.take(i + 1).last() == av[i as int]);
        assert(jt.take(i + 1).drop_last() =~= jt.take(i as int));
        assert(jt.take(i + 1).last() == json_texts@[i as int]@);
        let a = &args[i];
        let ghost prev = texts(parts@);
        if !flag_at(a, "positional") {
            let n = name_at(a);
            if flag_at(a, "required") {
                parts.push(concat3("--", n.as_str(), " <value>"));
            } else {
                let shown: Option<String> = match get_field(a, "default") {
                    Some(JsonValue::String(s)) => Some(s.clone()),
                    Some(JsonValue::Null) => None,
                    None => None,
                    Some(_) => Some(json_texts[i].clone()),
                };
                match shown {
                    Some(d) => {
                        let mut w = concat3("[--", n.as_str(), "=");
                        w.append(d.as_str());
                        w.append("]");
                        parts.push(w);
                    },
                    None => {
                        parts.push(concat3("[--", n.as_str(), " <value>]"));
                    },
                }
            }
            assert(texts(parts@) =~= prev.push(parts@[parts@.len() - 1]@));
        }
        i = i + 1;
    }
    assert(av.take(av.len() as int) =~= av);
    assert(jt.take(jt.len() as int) =~= jt);
    assert(texts(parts@) =~= seq!["opencli "@ + name@] + entry_positional_words(av) + entry_option_words(av, jt));
    assert(jt == default_texts_of(av));
    join_texts(&parts, " ")
}

} // verus!
