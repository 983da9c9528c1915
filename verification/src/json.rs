//! The opaque key/value payload carried by a wire record.
//!
//! Payload values form a small JSON-shaped tree: null, booleans, integers,
//! strings, arrays and objects with string keys. Numeric payload fields that
//! are not integers (and are never computed with locally) travel as their
//! decimal text. Lookup is lenient: every accessor resolves a missing or
//! type-mismatched field to a caller-supplied default, so a malformed field
//! can never abort the processing of a batch.

use vstd::prelude::*;

use crate::util::str_eq;

verus! {

broadcast use vstd::std_specs::vec::group_vec_axioms;

/// One payload value.
#[derive(Debug)]
pub enum JsonValue {
    Null,
    Bool(bool),
    Int(i64),
    Str(String),
    Arr(Vec<JsonValue>),
    Obj(Vec<(String, JsonValue)>),
}

/// Mathematical shape of a payload value.
#[verifier::ext_equal]
pub enum JsonV {
    Null,
    Bool(bool),
    Int(i64),
    Str(Seq<char>),
    Arr(Seq<JsonV>),
    Obj(Seq<(Seq<char>, JsonV)>),
}

pub open spec fn json_view(v: JsonValue) -> JsonV
    decreases v,
{
    match v {
        JsonValue::Null => JsonV::Null,
        JsonValue::Bool(b) => JsonV::Bool(b),
        JsonValue::Int(i) => JsonV::Int(i),
        JsonValue::Str(s) => JsonV::Str(s@),
        JsonValue::Arr(a) => JsonV::Arr(
            Seq::new(a@.len(), |i: int| if 0 <= i < a@.len() { json_view(a[i]) } else { JsonV::Null }),
        ),
        JsonValue::Obj(m) => JsonV::Obj(
            Seq::new(
                m@.len(),
                |i: int| if 0 <= i < m@.len() { (m[i].0@, json_view(m[i].1)) } else { (Seq::empty(), JsonV::Null) },
            ),
        ),
    }
}

impl DeepView for JsonValue {
    type V = JsonV;

    open spec fn deep_view(&self) -> JsonV {
        json_view(*self)
    }
}

/// Viewing an array value is viewing its elements.
pub broadcast proof fn lemma_arr_deep_view(a: Vec<JsonValue>)
    ensures
        #[trigger] (JsonValue::Arr(a)).deep_view() == JsonV::Arr(a.deep_view()),
{
    assert((JsonValue::Arr(a)).deep_view()->Arr_0 =~= a.deep_view());
}

/// Viewing an object value is viewing its fields.
pub broadcast proof fn lemma_obj_deep_view(m: Vec<(String, JsonValue)>)
    ensures
        #[trigger] (JsonValue::Obj(m)).deep_view() == JsonV::Obj(m.deep_view()),
{
    assert((JsonValue::Obj(m)).deep_view()->Obj_0 =~= m.deep_view());
}

/// First binding of `key` among `fields`, if any.
pub open spec fn spec_fields_get(fields: Seq<(Seq<char>, JsonV)>, key: Seq<char>) -> Option<JsonV>
    decreases fields.len(),
{
    if fields.len() == 0 {
        None
    } else if fields[0].0 == key {
        Some(fields[0].1)
    } else {
        spec_fields_get(fields.drop_first(), key)
    }
}

/// Field lookup on a payload: `None` when the payload is not an object or
/// has no field named `key`.
pub open spec fn spec_get(v: JsonV, key: Seq<char>) -> Option<JsonV> {
    match v {
        JsonV::Obj(fields) => spec_fields_get(fields, key),
        _ => None,
    }
}

pub open spec fn spec_str_or(v: JsonV, key: Seq<char>, default: Seq<char>) -> Seq<char> {
    match spec_get(v, key) {
        Some(JsonV::Str(s)) => s,
        _ => default,
    }
}

pub open spec fn spec_int_or(v: JsonV, key: Seq<char>, default: i64) -> i64 {
    match spec_get(v, key) {
        Some(JsonV::Int(i)) => i,
        _ => default,
    }
}

pub open spec fn spec_bool_or(v: JsonV, key: Seq<char>, default: bool) -> bool {
    match spec_get(v, key) {
        Some(JsonV::Bool(b)) => b,
        _ => default,
    }
}

pub open spec fn spec_opt_str(v: JsonV, key: Seq<char>) -> Option<Seq<char>> {
    match spec_get(v, key) {
        Some(JsonV::Str(s)) => Some(s),
        _ => None,
    }
}

pub open spec fn spec_opt_int(v: JsonV, key: Seq<char>) -> Option<i64> {
    match spec_get(v, key) {
        Some(JsonV::Int(i)) => Some(i),
        _ => None,
    }
}

/// The string elements of `items`, in order; elements of any other shape
/// are dropped.
pub open spec fn spec_strings_of(items: Seq<JsonV>) -> Seq<Seq<char>>
    decreases items.len(),
{
    if items.len() == 0 {
        Seq::empty()
    } else {
        let rest = spec_strings_of(items.drop_first());
        match items[0] {
            JsonV::Str(s) => seq![s] + rest,
            _ => rest,
        }
    }
}

pub open spec fn spec_str_list(v: JsonV, key: Seq<char>) -> Seq<Seq<char>> {
    match spec_get(v, key) {
        Some(JsonV::Arr(items)) => spec_strings_of(items),
        _ => Seq::empty(),
    }
}

pub open spec fn spec_arr_or_empty(v: JsonV, key: Seq<char>) -> Seq<JsonV> {
    match spec_get(v, key) {
        Some(JsonV::Arr(items)) => items,
        _ => Seq::empty(),
    }
}

proof fn lemma_fields_get_skip(fields: Seq<(Seq<char>, JsonV)>, key: Seq<char>, i: int)
    requires
        0 <= i <= fields.len(),
        forall|j: int| 0 <= j < i ==> fields[j].0 != key,
    ensures
        spec_fields_get(fields, key) == spec_fields_get(fields.skip(i), key),
    decreases i,
{
    if i > 0 {
        assert(fields.skip(i - 1).drop_first() =~= fields.skip(i));
        lemma_fields_get_skip(fields, key, i - 1);
    } else {
        assert(fields.skip(0) =~= fields);
    }
}

/// Looking a key up finds the first binding that carries it.
pub proof fn lemma_fields_get_found(fields: Seq<(Seq<char>, JsonV)>, key: Seq<char>, i: int)
    requires
        0 <= i < fields.len(),
        fields[i].0 == key,
        forall|j: int| 0 <= j < i ==> fields[j].0 != key,
    ensures
        spec_fields_get(fields, key) == Some(fields[i].1),
{
    lemma_fields_get_skip(fields, key, i);
    assert(fields.skip(i)[0] == fields[i]);
}

/// Looking a key up that no binding carries finds nothing.
pub proof fn lemma_fields_get_missing(fields: Seq<(Seq<char>, JsonV)>, key: Seq<char>)
    requires
        forall|j: int| 0 <= j < fields.len() ==> fields[j].0 != key,
    ensures
        spec_fields_get(fields, key) is None,
{
    lemma_fields_get_skip(fields, key, fields.len() as int);
    assert(fields.skip(fields.len() as int) =~= Seq::<(Seq<char>, JsonV)>::empty());
}

/// Scan `fields` for the first binding of `key`.
fn fields_get<'a>(fields: &'a Vec<(String, JsonValue)>, key: &str) -> (r: Option<&'a JsonValue>)
    ensures
        match r {
            Some(v) => spec_fields_get(fields.deep_view(), key@) == Some(v.deep_view()),
            None => spec_fields_get(fields.deep_view(), key@) is None,
        },
{
    let ghost gfields = fields.deep_view();
    let mut i: usize = 0;
    while i < fields.len()
        invariant
            i <= fields.len(),
            gfields == fields.deep_view(),
            gfields.len() == fields@.len(),
            forall|j: int| 0 <= j < i ==> gfields[j].0 != key@,
        decreases fields.len() - i,
    {
        if str_eq(fields[i].0.as_str(), key) {
            proof {
                lemma_fields_get_skip(gfields, key@, i as int);
                assert(gfields.skip(i as int)[0] == gfields[i as int]);
                assert(gfields[i as int].1 == fields@[i as int].1.deep_view());
            }
            return Some(&fields[i].1);
        }
        proof {
            assert(gfields[i as int].0 == fields@[i as int].0@);
        }
        i += 1;
    }
    proof {
        lemma_fields_get_skip(gfields, key@, gfields.len() as int);
        assert(gfields.skip(gfields.len() as int) =~= Seq::<(Seq<char>, JsonV)>::empty());
    }
    None
}

impl JsonValue {
    /// Reference to the value of field `key`, if this is an object that
    /// carries one.
    pub fn get<'a>(&'a self, key: &str) -> (r: Option<&'a JsonValue>)
        ensures
            match r {
                Some(v) => spec_get(self.deep_view(), key@) == Some(v.deep_view()),
                None => spec_get(self.deep_view(), key@) is None,
            },
    {
        match self {
            JsonValue::Obj(fields) => {
                proof {
                    assert(self.deep_view()->Obj_0 =~= fields.deep_view());
                }
                fields_get(fields, key)
            },
            _ => None,
        }
    }

    /// String value of field `key`, or `default` when the field is missing
    /// or not a string.
    pub fn str_or(&self, key: &str, default: &str) -> (r: String)
        ensures
            r@ == spec_str_or(self.deep_view(), key@, default@),
    {
        match self.get(key) {
            Some(JsonValue::Str(s)) => s.clone(),
            _ => default.to_owned(),
        }
    }

    /// Integer value of field `key`, or `default` when the field is missing
    /// or not an integer.
    pub fn int_or(&self, key: &str, default: i64) -> (r: i64)
        ensures
            r == spec_int_or(self.deep_view(), key@, default),
    {
        match self.get(key) {
            Some(JsonValue::Int(i)) => *i,
            _ => default,
        }
    }

    /// Boolean value of field `key`, or `default` when the field is missing
    /// or not a boolean.
    pub fn bool_or(&self, key: &str, default: bool) -> (r: bool)
        ensures
            r == spec_bool_or(self.deep_view(), key@, default),
    {
        match self.get(key) {
            Some(JsonValue::Bool(b)) => *b,
            _ => default,
        }
    }

    /// String value of field `key`, or `None` when missing or not a string.
    pub fn opt_str(&self, key: &str) -> (r: Option<String>)
        ensures
            r.deep_view() == spec_opt_str(self.deep_view(), key@),
    {
        match self.get(key) {
            Some(JsonValue::Str(s)) => Some(s.clone()),
            _ => None,
        }
    }

    /// Integer value of field `key`, or `None` when missing or not an integer.
    pub fn opt_int(&self, key: &str) -> (r: Option<i64>)
        ensures
            r.deep_view() == spec_opt_int(self.deep_view(), key@),
    {
        match self.get(key) {
            Some(JsonValue::Int(i)) => Some(*i),
            _ => None,
        }
    }

    /// The string elements of the array in field `key`; empty when the field
    /// is missing or not an array.
    pub fn str_list(&self, key: &str) -> (r: Vec<String>)
        ensures
            r.deep_view() == spec_str_list(self.deep_view(), key@),
    {
        match self.get(key) {
            Some(v) => match v {
                JsonValue::Arr(items) => {
                    proof {
                        assert(v.deep_view()->Arr_0 =~= items.deep_view());
                    }
                    strings_of(items)
                },
                _ => Vec::new(),
            },
            None => Vec::new(),
        }
    }

    /// The elements of the array in field `key`; empty when the field is
    /// missing or not an array.
    pub fn arr_or_empty<'a>(&'a self, key: &str) -> (r: &'a [JsonValue])
        ensures
            r.deep_view() == spec_arr_or_empty(self.deep_view(), key@),
    {
        match self.get(key) {
            Some(JsonValue::Arr(items)) => items.as_slice(),
            _ => &[],
        }
    }

    /// A structurally equal copy of this payload value.
    #[verifier::loop_isolation(false)]
    pub fn duplicate(&self) -> (r: JsonValue)
        ensures
            r.deep_view() == self.deep_view(),
        decreases self,
    {
        match self {
            JsonValue::Null => JsonValue::Null,
            JsonValue::Bool(b) => JsonValue::Bool(*b),
            JsonValue::Int(i) => JsonValue::Int(*i),
            JsonValue::Str(s) => JsonValue::Str(s.clone()),
            JsonValue::Arr(a) => {
                let mut out: Vec<JsonValue> = Vec::new();
                let mut i: usize = 0;
                while i < a.len()
                    invariant
                        i <= a.len(),
                        out.deep_view() =~= a.deep_view().take(i as int),
                    decreases a.len() - i,
                {
                    out.push(a[i].duplicate());
                    i += 1;
                }
                proof {
                    assert(a.deep_view().take(a@.len() as int) =~= a.deep_view());
                    lemma_arr_deep_view(out);
                    assert(self.deep_view()->Arr_0 =~= a.deep_view());
                }
                JsonValue::Arr(out)
            },
            JsonValue::Obj(m) => {
                let mut out: Vec<(String, JsonValue)> = Vec::new();
                let mut i: usize = 0;
                while i < m.len()
                    invariant
                        i <= m.len(),
                        out.deep_view() =~= m.deep_view().take(i as int),
                    decreases m.len() - i,
                {
                    out.push((m[i].0.clone(), m[i].1.duplicate()));
                    i += 1;
                }
                proof {
                    assert(m.deep_view().take(m@.len() as int) =~= m.deep_view());
                    lemma_obj_deep_view(out);
                    assert(self.deep_view()->Obj_0 =~= m.deep_view());
                }
                JsonValue::Obj(out)
            },
        }
    }
}

/// Collect the string elements of `items`, dropping everything else.
pub fn strings_of(items: &Vec<JsonValue>) -> (r: Vec<String>)
    ensures
        r.deep_view() == spec_strings_of(items.deep_view()),
{
    let mut out: Vec<String> = Vec::new();
    let mut i: usize = 0;
    while i < items.len()
        invariant
            i <= items.len(),
            out.deep_view() =~= spec_strings_of(items.deep_view().take(i as int)),
        decreases items.len() - i,
    {
        proof {
            lemma_strings_of_take_step(items.deep_view(), i as int);
        }
        match &items[i] {
            JsonValue::Str(s) => {
                out.push(s.clone());
            },
            _ => {},
        }
        i += 1;
    }
    proof {
        assert(items.deep_view().take(items@.len() as int) =~= items.deep_view());
    }
    out
}

/// Appending one element extends the collected strings by that element's
/// string content, if any.
proof fn lemma_strings_of_snoc(items: Seq<JsonV>, x: JsonV)
    ensures
        spec_strings_of(items.push(x)) == spec_strings_of(items) + (match x {
            JsonV::Str(s) => seq![s],
            _ => Seq::<Seq<char>>::empty(),
        }),
    decreases items.len(),
{
    if items.len() == 0 {
        assert(items.push(x).drop_first() =~= Seq::<JsonV>::empty());
        assert(spec_strings_of(items.push(x).drop_first()) =~= Seq::<Seq<char>>::empty());
        assert(spec_strings_of(items) + (match x {
            JsonV::Str(s) => seq![s],
            _ => Seq::<Seq<char>>::empty(),
        }) =~= spec_strings_of(items.push(x)));
    } else {
        assert(items.push(x).drop_first() =~= items.drop_first().push(x));
        lemma_strings_of_snoc(items.drop_first(), x);
        assert(spec_strings_of(items) + (match x {
            JsonV::Str(s) => seq![s],
            _ => Seq::<Seq<char>>::empty(),
        }) =~= spec_strings_of(items.push(x)));
    }
}

proof fn lemma_strings_of_take_step(items: Seq<JsonV>, i: int)
    requires
        0 <= i < items.len(),
    ensures
        spec_strings_of(items.take(i + 1)) == spec_strings_of(items.take(i)) + (match items[i] {
            JsonV::Str(s) => seq![s],
            _ => Seq::<Seq<char>>::empty(),
        }),
{
    assert(items.take(i + 1) =~= items.take(i).push(items[i]));
    lemma_strings_of_snoc(items.take(i), items[i]);
}

/// An empty payload object.
pub fn obj_new() -> (r: JsonValue)
    ensures
        r.deep_view() == JsonV::Obj(Seq::empty()),
{
    let out: Vec<(String, JsonValue)> = Vec::new();
    proof {
        lemma_obj_deep_view(out);
        assert(out.deep_view() =~= Seq::<(Seq<char>, JsonV)>::empty());
    }
    JsonValue::Obj(out)
}

/// Append a field to a payload object; payloads that are not objects are
/// returned unchanged.
pub fn obj_push(obj: JsonValue, key: &str, value: JsonValue) -> (r: JsonValue)
    ensures
        r.deep_view() == (match obj.deep_view() {
            JsonV::Obj(fields) => JsonV::Obj(fields.push((key@, value.deep_view()))),
            other => other,
        }),
{
    match obj {
        JsonValue::Obj(fields) => {
            let ghost before = fields.deep_view();
            let ghost whole = obj.deep_view();
            let mut fields = fields;
            fields.push((key.to_owned(), value));
            proof {
                assert(whole->Obj_0 =~= before);
                lemma_obj_deep_view(fields);
                assert(fields.deep_view() =~= before.push((key@, value.deep_view())));
            }
            JsonValue::Obj(fields)
        },
        other => other,
    }
}

} // verus!
