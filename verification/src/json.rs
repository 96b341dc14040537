use vstd::prelude::*;

verus! {

/// A JSON number: a non-negative integer, a negative integer, or a
/// floating-point number held by the shortest decimal text that gives it
/// back.
#[derive(Debug)]
pub enum JsonNumber {
    PosInt(u64),
    NegInt(i64),
    Float(String),
}

/// The model of a number.
pub enum NumberView {
    PosInt(u64),
    NegInt(i64),
    Float(Seq<char>),
}

impl View for JsonNumber {
    type V = NumberView;

    open spec fn view(&self) -> NumberView {
        match self {
            JsonNumber::PosInt(n) => NumberView::PosInt(*n),
            JsonNumber::NegInt(n) => NumberView::NegInt(*n),
            JsonNumber::Float(t) => NumberView::Float(t@),
        }
    }
}

impl JsonNumber {
    pub fn duplicate(&self) -> (r: JsonNumber)
        ensures
            r@ == self@,
    {
        match self {
            JsonNumber::PosInt(n) => JsonNumber::PosInt(*n),
            JsonNumber::NegInt(n) => JsonNumber::NegInt(*n),
            JsonNumber::Float(t) => JsonNumber::Float(t.clone()),
        }
    }
}

/// A JSON document, objects keeping their keys in order.
#[derive(Debug)]
pub enum JsonValue {
    Null,
    Bool(bool),
    Number(JsonNumber),
    String(String),
    Array(Vec<JsonValue>),
    Object(Vec<(String, JsonValue)>),
}

/// The mathematical model of a JSON document.
pub enum Json {
    Null,
    Bool(bool),
    Number(NumberView),
    Str(Seq<char>),
    Array(Seq<Json>),
    Object(Seq<(Seq<char>, Json)>),
}

pub open spec fn view_items(items: Seq<JsonValue>) -> Seq<Json>
    decreases items,
{
    if items.len() == 0 {
        Seq::empty()
    } else {
        view_items(items.drop_last()).push(json_view(items.last()))
    }
}

pub open spec fn view_fields(fields: Seq<(String, JsonValue)>) -> Seq<(Seq<char>, Json)>
    decreases fields,
{
    if fields.len() == 0 {
        Seq::empty()
    } else {
        view_fields(fields.drop_last()).push((fields.last().0@, json_view(fields.last().1)))
    }
}

pub open spec fn json_view(v: JsonValue) -> Json
    decreases v,
{
    match v {
        JsonValue::Null => Json::Null,
        JsonValue::Bool(b) => Json::Bool(b),
        JsonValue::Number(n) => Json::Number(n@),
        JsonValue::String(s) => Json::Str(s@),
        JsonValue::Array(items) => Json::Array(view_items(items@)),
        JsonValue::Object(fields) => Json::Object(view_fields(fields@)),
    }
}


impl View for JsonValue {
    type V = Json;

    open spec fn view(&self) -> Json {
        json_view(*self)
    }
}

pub proof fn lemma_view_items_push(s: Seq<JsonValue>, x: JsonValue)
    ensures
        view_items(s.push(x)) == view_items(s).push(json_view(x)),
{
    assert(s.push(x).drop_last() =~= s);
}

pub proof fn lemma_view_fields_push(s: Seq<(String, JsonValue)>, x: (String, JsonValue))
    ensures
        view_fields(s.push(x)) == view_fields(s).push((x.0@, json_view(x.1))),
{
    assert(s.push(x).drop_last() =~= s);
}

pub proof fn lemma_view_items_len(s: Seq<JsonValue>)
    ensures
        view_items(s).len() == s.len(),
    decreases s.len(),
{
    if s.len() > 0 {
        lemma_view_items_len(s.drop_last());
    }
}

pub proof fn lemma_view_fields_len(s: Seq<(String, JsonValue)>)
    ensures
        view_fields(s).len() == s.len(),
    decreases s.len(),
{
    if s.len() > 0 {
        lemma_view_fields_len(s.drop_last());
    }
}

pub proof fn lemma_view_fields_index(s: Seq<(String, JsonValue)>, i: int)
    requires
        0 <= i < s.len(),
    ensures
        view_fields(s).len() == s.len(),
        view_fields(s)[i] == (s[i].0@, json_view(s[i].1)),
    decreases s.len(),
{
    lemma_view_fields_len(s);
    if i < s.len() - 1 {
        lemma_view_fields_index(s.drop_last(), i);
    }
}

pub proof fn lemma_view_items_index(s: Seq<JsonValue>, i: int)
    requires
        0 <= i < s.len(),
    ensures
        view_items(s).len() == s.len(),
        view_items(s)[i] == json_view(s[i]),
    decreases s.len(),
{
    lemma_view_items_len(s);
    if i < s.len() - 1 {
        lemma_view_items_index(s.drop_last(), i);
    }
}

impl JsonValue {
    /// A copy of this document with the same model.
    pub fn deep_clone(&self) -> (r: JsonValue)
        ensures
            r@ == self@,
        decreases self,
    {
        match self {
            JsonValue::Null => JsonValue::Null,
            JsonValue::Bool(b) => JsonValue::Bool(*b),
            JsonValue::Number(n) => JsonValue::Number(n.duplicate()),
            JsonValue::String(s) => JsonValue::String(s.clone()),
            JsonValue::Array(items) => {
                let mut out: Vec<JsonValue> = Vec::new();
                let mut i: usize = 0;
                while i < items.len()
                    invariant
                        i <= items.len(),
                        *self == JsonValue::Array(*items),
                        view_items(out@) == view_items(items@.take(i as int)),
                    decreases items.len() - i,
                {
                    proof {
                        vstd::std_specs::vec::axiom_vec_index_decreases(*items, i as int);
                        assert(decreases_to!(*self => (*self)->Array_0));
                        assert(decreases_to!(*self => items[i as int]));
                    }
                    let c = items[i].deep_clone();
                    proof {
                        lemma_view_items_push(out@, c);
                        lemma_view_items_push(items@.take(i as int), items@[i as int]);
                        assert(items@.take(i as int).push(items@[i as int]) =~= items@.take(i + 1));
                    }
                    out.push(c);
                    i = i + 1;
                }
                assert(items@.take(items.len() as int) =~= items@);
                JsonValue::Array(out)
            },
            JsonValue::Object(fields) => {
                let mut out: Vec<(String, JsonValue)> = Vec::new();
                let mut i: usize = 0;
                while i < fields.len()
                    invariant
                        i <= fields.len(),
                        *self == JsonValue::Object(*fields),
                        view_fields(out@) == view_fields(fields@.take(i as int)),
                    decreases fields.len() - i,
                {
                    proof {
                        vstd::std_specs::vec::axiom_vec_index_decreases(*fields, i as int);
                        assert(decreases_to!(*self => (*self)->Object_0));
                        assert(decreases_to!(*self => fields[i as int]));
                        assert(decreases_to!(*self => fields[i as int].1));
                    }
                    let k = fields[i].0.clone();
                    let c = fields[i].1.deep_clone();
                    proof {
                        lemma_view_fields_push(out@, (k, c));
                        lemma_view_fields_push(fields@.take(i as int), fields@[i as int]);
                        assert(fields@.take(i as int).push(fields@[i as int]) =~= fields@.take(i + 1));
                    }
                    out.push((k, c));
                    i = i + 1;
                }
                assert(fields@.take(fields.len() as int) =~= fields@);
                JsonValue::Object(out)
            },
        }
    }
}

/// The index of the first field named `k`, if any.
pub open spec fn field_index(fields: Seq<(Seq<char>, Json)>, k: Seq<char>) -> Option<int>
    decreases fields.len(),
{
    if fields.len() == 0 {
        None
    } else if fields[0].0 == k {
        Some(0)
    } else {
        match field_index(fields.drop_first(), k) {
            Some(i) => Some(i + 1),
            None => None,
        }
    }
}

/// The value of the first field named `k`.
pub open spec fn field_value(fields: Seq<(Seq<char>, Json)>, k: Seq<char>) -> Option<Json> {
    match field_index(fields, k) {
        Some(i) => Some(fields[i].1),
        None => None,
    }
}

/// What `value.get(k)` gives: the field of an object, nothing otherwise.
pub open spec fn json_get(v: Json, k: Seq<char>) -> Option<Json> {
    match v {
        Json::Object(fields) => field_value(fields, k),
        _ => None,
    }
}

pub proof fn lemma_field_index(fields: Seq<(Seq<char>, Json)>, k: Seq<char>, i: int)
    requires
        0 <= i <= fields.len(),
        forall|j: int| 0 <= j < i ==> (#[trigger] fields[j]).0 != k,
        i < fields.len() ==> fields[i].0 == k,
    ensures
        field_index(fields, k) == (if i < fields.len() {
            Some(i)
        } else {
            None::<int>
        }),
    decreases i,
{
    if i > 0 {
        let t = fields.drop_first();
        assert forall|j: int| 0 <= j < i - 1 implies (#[trigger] t[j]).0 != k by {
            assert(t[j] == fields[j + 1]);
        }
        if i < fields.len() {
            assert(t[i - 1] == fields[i]);
        }
        assert(fields[0] == fields[0]);
        lemma_field_index(t, k, i - 1);
    }
}

/// The index of the first field named `k` in an object's fields.
pub fn find_field(fields: &Vec<(String, JsonValue)>, k: &str) -> (r: Option<usize>)
    ensures
        view_fields(fields@).len() == fields@.len(),
        match r {
            Some(i) => field_index(view_fields(fields@), k@) == Some(i as int) && i < fields@.len(),
            None => field_index(view_fields(fields@), k@) is None,
        },
{
    let key = k.to_owned();
    let ghost f = view_fields(fields@);
    proof {
        lemma_view_fields_len(fields@);
    }
    let mut i: usize = 0;
    while i < fields.len()
        invariant
            i <= fields.len(),
            f == view_fields(fields@),
            f.len() == fields@.len(),
            key@ == k@,
            forall|j: int| 0 <= j < i ==> (#[trigger] f[j]).0 != k@,
        decreases fields.len() - i,
    {
        proof {
            lemma_view_fields_index(fields@, i as int);
        }
        if fields[i].0 == key {
            proof {
                lemma_field_index(f, k@, i as int);
            }
            return Some(i);
        }
        i = i + 1;
    }
    proof {
        lemma_field_index(f, k@, f.len() as int);
    }
    None
}

/// `value.get(k)`: the field of an object, nothing for other values.
pub fn get_field<'a>(v: &'a JsonValue, k: &str) -> (r: Option<&'a JsonValue>)
    ensures
        match r {
            Some(x) => json_get(v@, k@) == Some(x@),
            None => json_get(v@, k@) is None,
        },
{
    match v {
        JsonValue::Object(fields) => match find_field(fields, k) {
            Some(i) => {
                proof {
                    lemma_view_fields_index(fields@, i as int);
                }
                Some(&fields[i].1)
            },
            None => None,
        },
        _ => None,
    }
}

/// The fields with `k` set to `val`: the first field named `k` takes the
/// value, or the field is added at the end.
pub open spec fn insert_field(fields: Seq<(Seq<char>, Json)>, k: Seq<char>, val: Json) -> Seq<
    (Seq<char>, Json),
> {
    match field_index(fields, k) {
        Some(i) => fields.update(i, (k, val)),
        None => fields.push((k, val)),
    }
}

/// Sets field `k` of an object's fields.
pub fn set_field(fields: &mut Vec<(String, JsonValue)>, k: String, val: JsonValue)
    ensures
        view_fields(final(fields)@) == insert_field(view_fields(old(fields)@), k@, val@),
{
    let ghost before = view_fields(fields@);
    let ghost kv = k@;
    let ghost vv = val@;
    match find_field(fields, k.as_str()) {
        Some(i) => {
            let ghost old_fields = fields@;
            fields.set(i, (k, val));
            proof {
                lemma_view_fields_len(fields@);
                assert forall|j: int| 0 <= j < fields@.len() implies view_fields(fields@)[j]
                    == before.update(i as int, (kv, vv))[j] by {
                    lemma_view_fields_index(fields@, j);
                    lemma_view_fields_index(old_fields, j);
                }
                assert(view_fields(fields@) =~= before.update(i as int, (kv, vv)));
            }
        },
        None => {
            let ghost old_fields = fields@;
            fields.push((k, val));
            proof {
                lemma_view_fields_push(old_fields, fields@[fields@.len() - 1]);
            }
        },
    }
}

/// The fields without those named `k`.
pub open spec fn remove_field(fields: Seq<(Seq<char>, Json)>, k: Seq<char>) -> Seq<(Seq<char>, Json)>
    decreases fields.len(),
{
    if fields.len() == 0 {
        fields
    } else if fields.last().0 == k {
        remove_field(fields.drop_last(), k)
    } else {
        remove_field(fields.drop_last(), k).push(fields.last())
    }
}

/// Removes the fields named `k` from an object's fields.
pub fn drop_field(fields: Vec<(String, JsonValue)>, k: &str) -> (r: Vec<(String, JsonValue)>)
    ensures
        view_fields(r@) == remove_field(view_fields(fields@), k@),
{
    let key = k.to_owned();
    let ghost f = view_fields(fields@);
    let ghost s = fields@;
    proof {
        lemma_view_fields_len(fields@);
    }
    let mut out: Vec<(String, JsonValue)> = Vec::new();
    for p in it: fields.into_iter()
        invariant
            it.seq() == s,
            f == view_fields(s),
            f.len() == s.len(),
            key@ == k@,
            view_fields(out@) == remove_field(f.take(it.index() as int), k@),
    {
        let ghost n = it.index() as int;
        proof {
            lemma_view_fields_index(s, n);
            assert(f.take(n + 1).drop_last() =~= f.take(n));
            assert(f.take(n + 1).last() == f[n]);
        }
        if p.0 != key {
            let ghost prev = out@;
            out.push(p);
            proof {
                lemma_view_fields_push(prev, out@[out@.len() - 1]);
            }
        }
    }
    assert(f.take(s.len() as int) =~= f);
    out
}


/// Setting a field and reading it back gives the value set; every other
/// field reads as before.
pub proof fn law_field_after_insert(fields: Seq<(Seq<char>, Json)>, k: Seq<char>, v: Json, other: Seq<char>)
    ensures
        field_value(insert_field(fields, k, v), k) == Some(v),
        other != k ==> field_value(insert_field(fields, k, v), other) == field_value(fields, other),
{
    let after = insert_field(fields, k, v);
    lemma_field_index_found(fields, k);
    lemma_field_index_found(fields, other);
    match field_index(fields, k) {
        Some(i) => {
            assert forall|j: int| 0 <= j < i implies (#[trigger] after[j]).0 != k by {
                assert(after[j] == fields[j]);
            }
            lemma_field_index(after, k, i);
            if other != k {
                match field_index(fields, other) {
                    Some(m) => {
                        assert forall|j: int| 0 <= j < m implies (#[trigger] after[j]).0 != other by {
                            if j != i {
                                assert(after[j] == fields[j]);
                            }
                        }
                        assert(after[m] == fields[m]);
                        lemma_field_index(after, other, m);
                    },
                    None => {
                        assert forall|j: int| 0 <= j < after.len() implies (#[trigger] after[j]).0 != other by {
                            if j != i {
                                assert(after[j] == fields[j]);
                            }
                        }
                        lemma_field_index(after, other, after.len() as int);
                    },
                }
            }
        },
        None => {
            assert forall|j: int| 0 <= j < fields.len() implies (#[trigger] after[j]).0 != k by {
                assert(after[j] == fields[j]);
            }
            lemma_field_index(after, k, fields.len() as int);
            if other != k {
                match field_index(fields, other) {
                    Some(m) => {
                        assert forall|j: int| 0 <= j < m implies (#[trigger] after[j]).0 != other by {
                            assert(after[j] == fields[j]);
                        }
                        assert(after[m] == fields[m]);
                        lemma_field_index(after, other, m);
                    },
                    None => {
                        assert forall|j: int| 0 <= j < after.len() implies (#[trigger] after[j]).0 != other by {
                            if j < fields.len() {
                                assert(after[j] == fields[j]);
                            }
                        }
                        lemma_field_index(after, other, after.len() as int);
                    },
                }
            }
        },
    }
}

/// Where the first field named `k` is, in terms of positions.
proof fn lemma_field_index_found(fields: Seq<(Seq<char>, Json)>, k: Seq<char>)
    ensures
        match field_index(fields, k) {
            Some(i) => 0 <= i < fields.len() && fields[i].0 == k && forall|j: int|
                0 <= j < i ==> (#[trigger] fields[j]).0 != k,
            None => forall|j: int| 0 <= j < fields.len() ==> (#[trigger] fields[j]).0 != k,
        },
    decreases fields.len(),
{
    if fields.len() > 0 {
        let t = fields.drop_first();
        lemma_field_index_found(t, k);
        if fields[0].0 != k {
            match field_index(t, k) {
                Some(i) => {
                    assert(fields[i + 1] == t[i]);
                    assert forall|j: int| 0 <= j < i + 1 implies (#[trigger] fields[j]).0 != k by {
                        if j > 0 {
                            assert(fields[j] == t[j - 1]);
                        }
                    }
                },
                None => {
                    assert forall|j: int| 0 <= j < fields.len() implies (#[trigger] fields[j]).0 != k by {
                        if j > 0 {
                            assert(fields[j] == t[j - 1]);
                        }
                    }
                },
            }
        }
    }
}

} // verus!
