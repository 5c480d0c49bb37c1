//! JSON values.

use vstd::prelude::*;

use crate::order::{Order, text_order, text_precedes};
use crate::text::same;

verus! {

/// A JSON value. A number that is no integer of 64 bits is kept in its
/// spelling; the fields of an object stand in ascending order of their names.
pub enum Json {
    Null,
    Bool(bool),
    Unsigned(u64),
    Negative(i64),
    Decimal(String),
    Text(String),
    Array(Vec<Json>),
    Object(Vec<(String, Json)>),
}

/// The value that a [`Json`] stands for.
pub ghost enum JsonView {
    Null,
    Bool(bool),
    Int(int),
    Decimal(Seq<char>),
    Text(Seq<char>),
    Array(Seq<JsonView>),
    Object(Seq<(Seq<char>, JsonView)>),
}

/// What a value stands for.
pub open spec fn json_view(j: Json) -> JsonView
    decreases j,
{
    match j {
        Json::Null => JsonView::Null,
        Json::Bool(b) => JsonView::Bool(b),
        Json::Unsigned(n) => JsonView::Int(n as int),
        Json::Negative(n) => JsonView::Int(n as int),
        Json::Decimal(s) => JsonView::Decimal(s@),
        Json::Text(s) => JsonView::Text(s@),
        Json::Array(v) => JsonView::Array(array_view(v@)),
        Json::Object(v) => JsonView::Object(object_view(v@)),
    }
}

/// What a row of values stands for.
pub open spec fn array_view(s: Seq<Json>) -> Seq<JsonView>
    decreases s,
{
    Seq::new(s.len(), |i: int| if 0 <= i < s.len() { json_view(s[i]) } else { JsonView::Null })
}

/// What a row of fields stands for.
pub open spec fn object_view(s: Seq<(String, Json)>) -> Seq<(Seq<char>, JsonView)>
    decreases s,
{
    Seq::new(
        s.len(),
        |i: int| if 0 <= i < s.len() { (s[i].0@, json_view(s[i].1)) } else { (Seq::<char>::empty(), JsonView::Null) },
    )
}

impl View for Json {
    type V = JsonView;

    open spec fn view(&self) -> JsonView {
        json_view(*self)
    }
}

/// The value of the first field named `key`.
pub open spec fn field(o: Seq<(Seq<char>, JsonView)>, key: Seq<char>) -> Option<JsonView>
    decreases o.len(),
{
    if o.len() == 0 {
        None
    } else if o[0].0 == key {
        Some(o[0].1)
    } else {
        field(o.drop_first(), key)
    }
}

/// A field that no earlier field shares its name with is the one found under
/// its name.
pub proof fn lemma_field_at(o: Seq<(Seq<char>, JsonView)>, at: int, key: Seq<char>)
    requires
        0 <= at < o.len(),
        o[at].0 == key,
        forall|j: int| 0 <= j < at ==> (#[trigger] o[j]).0 != key,
    ensures
        field(o, key) == Some(o[at].1),
    decreases at,
{
    if at > 0 {
        assert(o[0].0 != key);
        let rest = o.drop_first();
        assert forall|j: int| 0 <= j < at - 1 implies (#[trigger] rest[j]).0 != key by {
            assert(rest[j] == o[j + 1]);
        }
        lemma_field_at(rest, at - 1, key);
    }
}

/// Where no field has a name, none is found under it.
pub proof fn lemma_field_missing(o: Seq<(Seq<char>, JsonView)>, key: Seq<char>)
    requires
        forall|j: int| 0 <= j < o.len() ==> (#[trigger] o[j]).0 != key,
    ensures
        field(o, key) is None,
    decreases o.len(),
{
    if o.len() > 0 {
        let rest = o.drop_first();
        assert forall|j: int| 0 <= j < rest.len() implies (#[trigger] rest[j]).0 != key by {
            assert(rest[j] == o[j + 1]);
        }
        lemma_field_missing(rest, key);
    }
}

/// The fields with `key` set to `value`: replaced where it stands, else put
/// before the first greater key.
pub open spec fn with_field(o: Seq<(Seq<char>, JsonView)>, key: Seq<char>, value: JsonView) -> Seq<(Seq<char>, JsonView)>
    decreases o.len(),
{
    if o.len() == 0 {
        seq![(key, value)]
    } else if o[0].0 == key {
        seq![(key, value)] + o.drop_first()
    } else if text_precedes(key, o[0].0) {
        seq![(key, value)] + o
    } else {
        seq![o[0]] + with_field(o.drop_first(), key, value)
    }
}

/// A field that is set is found as it was set, and the others as they were.
pub proof fn lemma_field_set(o: Seq<(Seq<char>, JsonView)>, key: Seq<char>, value: JsonView, name: Seq<char>)
    ensures
        field(with_field(o, key, value), name) == (if name == key {
            Some(value)
        } else {
            field(o, name)
        }),
    decreases o.len(),
{
    let r = with_field(o, key, value);
    if o.len() > 0 && o[0].0 != key && !text_precedes(key, o[0].0) {
        lemma_field_set(o.drop_first(), key, value, name);
        assert(r.drop_first() =~= with_field(o.drop_first(), key, value));
    } else if o.len() > 0 && o[0].0 == key {
        assert(r.drop_first() =~= o.drop_first());
    } else if o.len() > 0 {
        assert(r.drop_first() =~= o);
    } else {
        assert(r.drop_first() =~= o);
    }
}

/// What is set last counts.
pub proof fn lemma_field_set_twice(o: Seq<(Seq<char>, JsonView)>, key: Seq<char>, first: JsonView, second: JsonView)
    ensures
        with_field(with_field(o, key, first), key, second) == with_field(o, key, second),
    decreases o.len(),
{
    let r = with_field(o, key, first);
    if o.len() > 0 && o[0].0 != key && !text_precedes(key, o[0].0) {
        lemma_field_set_twice(o.drop_first(), key, first, second);
        assert(r.drop_first() =~= with_field(o.drop_first(), key, first));
        assert(r[0] == o[0]);
    } else if o.len() > 0 && o[0].0 == key {
        assert(r.drop_first() =~= o.drop_first());
    } else {
        assert(r.drop_first() =~= o);
        assert(with_field(r, key, second) =~= seq![(key, second)] + o);
        assert(with_field(o, key, second) =~= seq![(key, second)] + o);
    }
}

/// A name is looked up in the first of two rows of fields, and where it is not
/// there in the second.
pub proof fn lemma_field_concat(a: Seq<(Seq<char>, JsonView)>, b: Seq<(Seq<char>, JsonView)>, key: Seq<char>)
    ensures
        field(a + b, key) == (if field(a, key) is Some {
            field(a, key)
        } else {
            field(b, key)
        }),
    decreases a.len(),
{
    if a.len() > 0 {
        lemma_field_concat(a.drop_first(), b, key);
        assert((a + b).drop_first() =~= a.drop_first() + b);
    } else {
        assert(a + b =~= b);
    }
}

impl JsonView {
    /// The value of a field, where this is an object that has it.
    pub open spec fn get(self, key: Seq<char>) -> Option<JsonView> {
        match self {
            JsonView::Object(o) => field(o, key),
            _ => None,
        }
    }

    pub open spec fn as_text(self) -> Option<Seq<char>> {
        match self {
            JsonView::Text(s) => Some(s),
            _ => None,
        }
    }

    pub open spec fn as_bool(self) -> Option<bool> {
        match self {
            JsonView::Bool(b) => Some(b),
            _ => None,
        }
    }

    pub open spec fn as_u64(self) -> Option<int> {
        match self {
            JsonView::Int(n) => if 0 <= n <= u64::MAX { Some(n) } else { None },
            _ => None,
        }
    }

    pub open spec fn as_i64(self) -> Option<int> {
        match self {
            JsonView::Int(n) => if i64::MIN <= n <= i64::MAX { Some(n) } else { None },
            _ => None,
        }
    }

    /// The text of a field.
    pub open spec fn text_at(self, key: Seq<char>) -> Option<Seq<char>> {
        match self.get(key) {
            Some(v) => v.as_text(),
            None => None,
        }
    }
}

/// `serde_json::Value`, the JSON value of `serde_json`.
#[verifier::external_type_specification]
#[verifier::external_body]
pub struct ExValue(serde_json::Value);

/// The `serde_json::Value` of a value: each kind of value becomes the same
/// kind, and a number kept in its spelling is read by `str::parse`, which finds
/// the number nearest to it.
#[verifier::external_body]
fn to_outside(value: &Json) -> serde_json::Value {
    match value {
        Json::Null => serde_json::Value::Null,
        Json::Bool(b) => serde_json::Value::from(*b),
        Json::Unsigned(n) => serde_json::Value::from(*n),
        Json::Negative(n) => serde_json::Value::from(*n),
        Json::Decimal(s) => serde_json::Number::from_f64(s.parse().unwrap_or_default()).into(),
        Json::Text(s) => serde_json::Value::from(s.as_str()),
        Json::Array(v) => v.iter().map(to_outside).collect(),
        Json::Object(o) => o.iter().map(|(k, v)| (k.as_str(), to_outside(v))).collect(),
    }
}

/// The value of a `serde_json::Value`: each kind of value becomes the same
/// kind, and a number that is no integer of 64 bits is kept in its spelling.
#[verifier::external_body]
fn from_outside(value: &serde_json::Value) -> Json {
    match value {
        serde_json::Value::Null => Json::Null,
        serde_json::Value::Bool(b) => Json::Bool(*b),
        serde_json::Value::Number(n) => match n.as_u64() {
            Some(u) => Json::Unsigned(u),
            None => n.as_i64().map_or(Json::Decimal(n.to_string()), Json::Negative),
        },
        serde_json::Value::String(s) => Json::Text(s.clone()),
        serde_json::Value::Array(v) => Json::Array(v.iter().map(from_outside).collect()),
        serde_json::Value::Object(o) => Json::Object(o.iter().map(|(k, v)| (k.clone(), from_outside(v))).collect()),
    }
}

/// The bytes of a value in compact JSON.
pub uninterp spec fn serialized_json(value: JsonView) -> Seq<u8>;

/// `serde_json::to_vec` writes a value as compact JSON.
#[verifier::external_body]
pub(crate) fn json_bytes(value: &Json) -> (r: Vec<u8>)
    ensures
        r@ == serialized_json(value@),
{
    serde_json::to_vec(&to_outside(value)).unwrap_or_default()
}

/// Where a text stops being JSON.
#[derive(Clone, Copy, Debug, PartialEq, Eq, Structural)]
pub struct JsonSyntaxError {
    pub line: usize,
    pub column: usize,
}

/// The value that a text spells in JSON, or where it stops being JSON.
pub uninterp spec fn parsed_json(text: Seq<char>) -> Result<JsonView, JsonSyntaxError>;

/// `serde_json::from_str` reads a JSON value; its error tells the line and the
/// column.
#[verifier::external_body]
pub(crate) fn parse_json(text: &str) -> (r: Result<Json, JsonSyntaxError>)
    ensures
        match r {
            Ok(value) => parsed_json(text@) == Ok::<JsonView, JsonSyntaxError>(value@),
            Err(error) => parsed_json(text@) == Err::<JsonView, JsonSyntaxError>(error),
        },
{
    match serde_json::from_str::<serde_json::Value>(text) {
        Ok(value) => Ok(from_outside(&value)),
        Err(error) => Err(JsonSyntaxError { line: error.line(), column: error.column() }),
    }
}

/// The value that bytes spell in JSON, or where they stop being JSON.
pub uninterp spec fn parsed_json_bytes(bytes: Seq<u8>) -> Result<JsonView, JsonSyntaxError>;

/// `serde_json::from_slice` reads a JSON value; its error tells the line and
/// the column.
#[verifier::external_body]
pub(crate) fn parse_json_bytes(bytes: &Vec<u8>) -> (r: Result<Json, JsonSyntaxError>)
    ensures
        match r {
            Ok(value) => parsed_json_bytes(bytes@) == Ok::<JsonView, JsonSyntaxError>(value@),
            Err(error) => parsed_json_bytes(bytes@) == Err::<JsonView, JsonSyntaxError>(error),
        },
{
    match serde_json::from_slice::<serde_json::Value>(bytes) {
        Ok(value) => Ok(from_outside(&value)),
        Err(error) => Err(JsonSyntaxError { line: error.line(), column: error.column() }),
    }
}

/// The first field named `key`.
pub fn find_field<'a>(o: &'a Vec<(String, Json)>, key: &str) -> (r: Option<&'a Json>)
    ensures
        crate::text::opt_ref_view(r) == field(object_view(o@), key@),
{
    let mut i: usize = 0;
    let ghost all = object_view(o@);
    assert(all.skip(0) =~= all);
    while i < o.len()
        invariant
            i <= o.len(),
            all == object_view(o@),
            field(all, key@) == field(all.skip(i as int), key@),
        decreases o.len() - i,
    {
        assert(all.skip(i as int)[0] == (o@[i as int].0@, o@[i as int].1@));
        assert(all.skip(i as int).drop_first() =~= all.skip(i + 1));
        if same(o[i].0.as_str(), key) {
            return Some(&o[i].1);
        }
        i += 1;
    }
    assert(all.skip(i as int).len() == 0);
    None
}

/// Copies the items of an array.
pub fn copy_items(v: &Vec<Json>) -> (r: Vec<Json>)
    ensures
        array_view(r@) == array_view(v@),
    decreases v@, 0nat,
{
    let mut r: Vec<Json> = Vec::new();
    let mut i: usize = 0;
    while i < v.len()
        invariant
            i <= v.len(),
            r@.len() == i,
            forall|j: int| 0 <= j < i ==> json_view(#[trigger] r@[j]) == json_view(v@[j]),
        decreases v.len() - i,
    {
        let value: Json = v[i].copy();
        r.push(value);
        i += 1;
    }
    assert(array_view(r@) =~= array_view(v@));
    r
}

/// Copies fields.
pub fn copy_fields(o: &Vec<(String, Json)>) -> (r: Vec<(String, Json)>)
    ensures
        object_view(r@) == object_view(o@),
    decreases o@, 0nat,
{
    let mut r: Vec<(String, Json)> = Vec::new();
    let mut i: usize = 0;
    while i < o.len()
        invariant
            i <= o.len(),
            r@.len() == i,
            forall|j: int| 0 <= j < i ==> (#[trigger] r@[j]).0@ == o@[j].0@ && json_view(r@[j].1) == json_view(o@[j].1),
        decreases o.len() - i,
    {
        let value: Json = o[i].1.copy();
        r.push((o[i].0.clone(), value));
        i += 1;
    }
    assert(object_view(r@) =~= object_view(o@));
    r
}

impl Json {
    /// A value with the same view.
    pub fn copy(&self) -> (r: Json)
        ensures
            r@ == self@,
        decreases *self, 1nat,
    {
        match self {
            Json::Null => Json::Null,
            Json::Bool(b) => Json::Bool(*b),
            Json::Unsigned(n) => Json::Unsigned(*n),
            Json::Negative(n) => Json::Negative(*n),
            Json::Decimal(s) => Json::Decimal(s.clone()),
            Json::Text(s) => Json::Text(s.clone()),
            Json::Array(v) => Json::Array(copy_items(v)),
            Json::Object(o) => Json::Object(copy_fields(o)),
        }
    }

    /// The value of a field, where this is an object that has it.
    pub fn get(&self, key: &str) -> (r: Option<&Json>)
        ensures
            crate::text::opt_ref_view(r) == self@.get(key@),
    {
        match self {
            Json::Object(o) => find_field(o, key),
            _ => None,
        }
    }

    pub fn is_null(&self) -> (r: bool)
        ensures
            r == (self@ is Null),
    {
        matches!(self, Json::Null)
    }

    pub fn as_str(&self) -> (r: Option<&String>)
        ensures
            crate::text::opt_ref_view(r) == self@.as_text(),
    {
        match self {
            Json::Text(s) => Some(s),
            _ => None,
        }
    }

    pub fn as_bool(&self) -> (r: Option<bool>)
        ensures
            r == self@.as_bool(),
    {
        match self {
            Json::Bool(b) => Some(*b),
            _ => None,
        }
    }

    pub fn as_u64(&self) -> (r: Option<u64>)
        ensures
            match r {
                Some(n) => self@.as_u64() == Some(n as int),
                None => self@.as_u64() is None,
            },
    {
        match self {
            Json::Unsigned(n) => Some(*n),
            Json::Negative(n) => if *n >= 0 { Some(*n as u64) } else { None },
            _ => None,
        }
    }

    pub fn as_i64(&self) -> (r: Option<i64>)
        ensures
            match r {
                Some(n) => self@.as_i64() == Some(n as int),
                None => self@.as_i64() is None,
            },
    {
        match self {
            Json::Unsigned(n) => if *n <= 0x7fff_ffff_ffff_ffff { Some(*n as i64) } else { None },
            Json::Negative(n) => Some(*n),
            _ => None,
        }
    }

    /// The text of a field.
    pub fn text_at(&self, key: &str) -> (r: Option<&String>)
        ensures
            crate::text::opt_ref_view(r) == self@.text_at(key@),
    {
        match self.get(key) {
            Some(v) => v.as_str(),
            None => None,
        }
    }
}

/// Appends a field.
pub fn push_field(o: &mut Vec<(String, Json)>, key: &str, value: Json)
    ensures
        object_view(final(o)@) == object_view(old(o)@).push((key@, value@)),
{
    let ghost before = o@;
    let name: String = key.to_owned();
    let ghost entry = (name, value);
    o.push((name, value));
    assert(o@ == before.push(entry));
    assert(object_view(o@) =~= object_view(before).push((key@, value@)));
}

/// The object with one field.
pub fn object1(k: &str, v: Json) -> (r: Json)
    ensures
        r@ == JsonView::Object(seq![(k@, v@)]),
{
    let mut o: Vec<(String, Json)> = Vec::new();
    assert(object_view(o@) =~= seq![]);
    push_field(&mut o, k, v);
    assert(object_view(o@) =~= seq![(k@, v@)]);
    Json::Object(o)
}

/// The object with two fields.
pub fn object2(k: &str, v: Json, k2: &str, v2: Json) -> (r: Json)
    ensures
        r@ == JsonView::Object(seq![(k@, v@), (k2@, v2@)]),
{
    let mut o: Vec<(String, Json)> = Vec::new();
    assert(object_view(o@) =~= seq![]);
    push_field(&mut o, k, v);
    push_field(&mut o, k2, v2);
    assert(object_view(o@) =~= seq![(k@, v@), (k2@, v2@)]);
    Json::Object(o)
}

/// The object with three fields.
pub fn object3(k: &str, v: Json, k2: &str, v2: Json, k3: &str, v3: Json) -> (r: Json)
    ensures
        r@ == JsonView::Object(seq![(k@, v@), (k2@, v2@), (k3@, v3@)]),
{
    let mut o: Vec<(String, Json)> = Vec::new();
    assert(object_view(o@) =~= seq![]);
    push_field(&mut o, k, v);
    push_field(&mut o, k2, v2);
    push_field(&mut o, k3, v3);
    assert(object_view(o@) =~= seq![(k@, v@), (k2@, v2@), (k3@, v3@)]);
    Json::Object(o)
}

/// The object with four fields.
pub fn object4(k: &str, v: Json, k2: &str, v2: Json, k3: &str, v3: Json, k4: &str, v4: Json) -> (r: Json)
    ensures
        r@ == JsonView::Object(seq![(k@, v@), (k2@, v2@), (k3@, v3@), (k4@, v4@)]),
{
    let mut o: Vec<(String, Json)> = Vec::new();
    assert(object_view(o@) =~= seq![]);
    push_field(&mut o, k, v);
    push_field(&mut o, k2, v2);
    push_field(&mut o, k3, v3);
    push_field(&mut o, k4, v4);
    assert(object_view(o@) =~= seq![(k@, v@), (k2@, v2@), (k3@, v3@), (k4@, v4@)]);
    Json::Object(o)
}

/// The object without fields.
pub fn empty_object() -> (r: Json)
    ensures
        r@ == JsonView::Object(seq![]),
{
    let o: Vec<(String, Json)> = Vec::new();
    assert(object_view(o@) =~= seq![]);
    Json::Object(o)
}

/// An optional text: the text, or null.
pub open spec fn opt_text_view(o: Option<Seq<char>>) -> JsonView {
    match o {
        Some(s) => JsonView::Text(s),
        None => JsonView::Null,
    }
}

/// An optional text: the text, or null.
pub fn opt_text_value(o: Option<&String>) -> (r: Json)
    ensures
        r@ == opt_text_view(crate::text::opt_ref_view(o)),
{
    match o {
        Some(s) => Json::Text(s.clone()),
        None => Json::Null,
    }
}

/// A text value.
pub fn text_value(s: &str) -> (r: Json)
    ensures
        r@ == JsonView::Text(s@),
{
    Json::Text(s.to_owned())
}

proof fn lemma_object_update(s: Seq<(String, Json)>, i: int, k: String, v: Json)
    requires
        0 <= i < s.len(),
    ensures
        object_view(s.update(i, (k, v))) == object_view(s).take(i) + (seq![(k@, v@)] + object_view(s).skip(i + 1)),
{
    assert(object_view(s.update(i, (k, v))) =~= object_view(s).update(i, (k@, v@)));
    assert(object_view(s).update(i, (k@, v@)) =~= object_view(s).take(i) + (seq![(k@, v@)] + object_view(s).skip(i + 1)));
}

proof fn lemma_object_insert(s: Seq<(String, Json)>, i: int, k: String, v: Json)
    requires
        0 <= i <= s.len(),
    ensures
        object_view(s.insert(i, (k, v))) == object_view(s).take(i) + (seq![(k@, v@)] + object_view(s).skip(i)),
{
    assert(object_view(s.insert(i, (k, v))) =~= object_view(s).insert(i, (k@, v@)));
    assert(object_view(s).insert(i, (k@, v@)) =~= object_view(s).take(i) + (seq![(k@, v@)] + object_view(s).skip(i)));
}

/// Sets the field `key` to `value`.
pub fn set_field(o: &mut Vec<(String, Json)>, key: &str, value: Json)
    ensures
        object_view(final(o)@) == with_field(object_view(old(o)@), key@, value@),
{
    let ghost all = object_view(o@);
    let ghost v = value@;
    let mut i: usize = 0;
    let mut replace: bool = false;
    assert(all.skip(0) =~= all);
    assert(all.take(0) + with_field(all.skip(0), key@, v) =~= with_field(all, key@, v));
    while i < o.len()
        invariant_except_break
            i <= o.len(),
            *o == *old(o),
            all == object_view(o@),
            !replace,
            with_field(all, key@, v) == all.take(i as int) + with_field(all.skip(i as int), key@, v),
        ensures
            i <= o.len(),
            *o == *old(o),
            all == object_view(o@),
            replace ==> i < o.len() && with_field(all, key@, v) == all.take(i as int) + (seq![(key@, v)] + all.skip(i + 1)),
            !replace ==> with_field(all, key@, v) == all.take(i as int) + (seq![(key@, v)] + all.skip(i as int)),
        decreases o.len() - i,
    {
        assert(all.skip(i as int)[0] == (o@[i as int].0@, o@[i as int].1@));
        assert(all.skip(i as int).drop_first() =~= all.skip(i + 1));
        match text_order(key, o[i].0.as_str()) {
            Order::Same => {
                replace = true;
                break;
            },
            Order::Less => {
                break;
            },
            Order::Greater => {
                proof {
                    if text_precedes(key@, o@[i as int].0@) {
                        crate::order::lemma_text_transitive(key@, o@[i as int].0@, key@);
                        crate::order::lemma_text_irreflexive(key@);
                    }
                    assert(all.take(i + 1) =~= all.take(i as int).push(all[i as int]));
                    assert(all.take(i as int) + with_field(all.skip(i as int), key@, v)
                        =~= all.take(i + 1) + with_field(all.skip(i + 1), key@, v));
                }
                i += 1;
                if i == o.len() {
                    assert(all.skip(i as int).len() == 0);
                    assert(with_field(all.skip(i as int), key@, v) =~= seq![(key@, v)] + all.skip(i as int));
                }
            },
        }
    }
    let name: String = key.to_owned();
    proof {
        if replace {
            lemma_object_update(o@, i as int, name, value);
        } else {
            lemma_object_insert(o@, i as int, name, value);
        }
    }
    if replace {
        o.set(i, (name, value));
    } else {
        o.insert(i, (name, value));
    }
}

} // verus!
