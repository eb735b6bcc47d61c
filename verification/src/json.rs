//! JSON values as the replies and requests hold them.
//!
//! Reading a text and writing one are `serde_json`'s work. Everything that
//! looks into a value or builds one works on [`Json`].
use vstd::prelude::*;
use vstd::string::*;
use crate::error::{ErrorView, MatError};
use crate::text;

verus! {

/// A JSON value. An object keeps its fields in order.
#[derive(Debug, PartialEq, Eq)]
pub enum Json {
    Null,
    Bool(bool),
    /// A whole number that is not negative.
    UInt(u64),
    /// A negative whole number.
    Int(i64),
    /// Any other number, as `serde_json` holds it.
    Float(serde_json::Number),
    Str(String),
    Array(Vec<Json>),
    Object(Vec<(String, Json)>),
}

/// What a JSON value holds.
pub enum JsonView {
    Null,
    Bool(bool),
    UInt(u64),
    Int(i64),
    Float(serde_json::Number),
    Str(Seq<char>),
    Array(Seq<JsonView>),
    Object(Seq<(Seq<char>, JsonView)>),
}

/// What a JSON value holds.
pub open spec fn json_view(j: Json) -> JsonView
    decreases j,
{
    match j {
        Json::Null => JsonView::Null,
        Json::Bool(b) => JsonView::Bool(b),
        Json::UInt(n) => JsonView::UInt(n),
        Json::Int(n) => JsonView::Int(n),
        Json::Float(n) => JsonView::Float(n),
        Json::Str(s) => JsonView::Str(s@),
        Json::Array(items) => JsonView::Array(
            Seq::new(
                items@.len(),
                |i: int|
                    if 0 <= i < items@.len() {
                        json_view(items@[i])
                    } else {
                        JsonView::Null
                    },
            ),
        ),
        Json::Object(fields) => JsonView::Object(
            Seq::new(
                fields@.len(),
                |i: int|
                    if 0 <= i < fields@.len() {
                        (fields@[i].0@, json_view(fields@[i].1))
                    } else {
                        (Seq::empty(), JsonView::Null)
                    },
            ),
        ),
    }
}

impl View for Json {
    type V = JsonView;

    open spec fn view(&self) -> JsonView {
        json_view(*self)
    }
}

/// What some JSON values hold.
pub open spec fn json_views(items: Seq<Json>) -> Seq<JsonView> {
    Seq::new(items.len(), |i: int| items[i]@)
}

/// What some JSON fields hold.
pub open spec fn field_views(fields: Seq<(String, Json)>) -> Seq<(Seq<char>, JsonView)> {
    Seq::new(fields.len(), |i: int| (fields[i].0@, fields[i].1@))
}

/// The view of an array is the array of the views, and so for an object.
pub proof fn lemma_container_views(j: Json)
    ensures
        j matches Json::Array(items) ==> j@ == JsonView::Array(json_views(items@)),
        j matches Json::Object(fields) ==> j@ == JsonView::Object(field_views(fields@)),
{
    match j {
        Json::Array(items) => {
            assert(j@->Array_0 =~= json_views(items@));
        },
        Json::Object(fields) => {
            assert(j@->Object_0 =~= field_views(fields@));
        },
        _ => {},
    }
}

/// The value of the first field with a key.
pub open spec fn lookup(fields: Seq<(Seq<char>, JsonView)>, key: Seq<char>) -> Option<JsonView>
    decreases fields.len(),
{
    if fields.len() == 0 {
        None
    } else if fields[0].0 == key {
        Some(fields[0].1)
    } else {
        lookup(fields.skip(1), key)
    }
}

impl JsonView {
    /// The value under a key of an object.
    pub open spec fn get(self, key: Seq<char>) -> Option<JsonView> {
        match self {
            JsonView::Object(fields) => lookup(fields, key),
            _ => None,
        }
    }

    /// The number, where it is whole and not negative.
    pub open spec fn as_u64(self) -> Option<u64> {
        match self {
            JsonView::UInt(n) => Some(n),
            _ => None,
        }
    }

    /// The number, where it is whole and fits an `i64`.
    pub open spec fn as_i64(self) -> Option<i64> {
        match self {
            JsonView::UInt(n) => if n <= i64::MAX {
                Some(n as i64)
            } else {
                None
            },
            JsonView::Int(n) => Some(n),
            _ => None,
        }
    }

    /// The text of a string.
    pub open spec fn as_str(self) -> Option<Seq<char>> {
        match self {
            JsonView::Str(s) => Some(s),
            _ => None,
        }
    }

    /// The truth value.
    pub open spec fn as_bool(self) -> Option<bool> {
        match self {
            JsonView::Bool(b) => Some(b),
            _ => None,
        }
    }
}

/// The whole number under a key of an object.
pub open spec fn u64_field(v: JsonView, key: Seq<char>) -> Option<u64> {
    match v.get(key) {
        Some(x) => x.as_u64(),
        None => None,
    }
}

/// The text under a key of an object.
pub open spec fn str_field(v: JsonView, key: Seq<char>) -> Option<Seq<char>> {
    match v.get(key) {
        Some(x) => x.as_str(),
        None => None,
    }
}

impl Json {
    /// A string value.
    pub fn text(s: &str) -> (j: Json)
        ensures
            j@ == JsonView::Str(s@),
    {
        Json::Str(s.to_owned())
    }

    /// An object without fields.
    pub fn object() -> (j: Json)
        ensures
            j@ == JsonView::Object(Seq::empty()),
    {
        let j = Json::Object(Vec::new());
        proof {
            lemma_container_views(j);
            assert(j@->Object_0 =~= Seq::empty());
        }
        j
    }

    /// The object with a field more at its end.
    pub fn with(self, key: &str, value: Json) -> (j: Json)
        ensures
            self@ matches JsonView::Object(f) ==> j@ == JsonView::Object(f.push((key@, value@))),
            !(self@ is Object) ==> j == self,
    {
        let ghost before = self;
        match self {
            Json::Object(mut fields) => {
                let ghost old_fields = fields@;
                let name = key.to_owned();
                fields.push((name, value));
                let j = Json::Object(fields);
                proof {
                    lemma_container_views(before);
                    lemma_container_views(j);
                    assert(j@->Object_0 =~= field_views(old_fields).push((key@, value@)));
                }
                j
            },
            other => other,
        }
    }

    /// An array of values.
    pub fn array(items: Vec<Json>) -> (j: Json)
        ensures
            j@ == JsonView::Array(json_views(items@)),
    {
        let j = Json::Array(items);
        proof {
            lemma_container_views(j);
        }
        j
    }

    /// The value under a key of an object.
    pub fn get(&self, key: &str) -> (r: Option<&Json>)
        ensures
            r is Some <==> self@.get(key@) is Some,
            r matches Some(v) ==> self@.get(key@) == Some(v@),
    {
        match self {
            Json::Object(fields) => {
                proof {
                    lemma_container_views(*self);
                }
                let ghost all = field_views(fields@);
                assert(all.skip(0) =~= all);
                let mut i: usize = 0;
                while i < fields.len()
                    invariant
                        i <= fields.len(),
                        all == field_views(fields@),
                        self@.get(key@) == lookup(all.skip(i as int), key@),
                    decreases fields.len() - i,
                {
                    let here = text::same(fields[i].0.as_str(), key);
                    proof {
                        assert(all.skip(i as int)[0] == all[i as int]);
                        assert(all.skip(i as int).skip(1) =~= all.skip(i + 1));
                    }
                    if here {
                        return Some(&fields[i].1);
                    }
                    i += 1;
                }
                None
            },
            _ => None,
        }
    }

    /// The number, where it is whole and not negative.
    pub fn as_u64(&self) -> (r: Option<u64>)
        ensures
            r == self@.as_u64(),
    {
        match self {
            Json::UInt(n) => Some(*n),
            _ => None,
        }
    }

    /// The number, where it is whole and fits an `i64`.
    pub fn as_i64(&self) -> (r: Option<i64>)
        ensures
            r == self@.as_i64(),
    {
        match self {
            Json::UInt(n) => if *n <= i64::MAX as u64 {
                Some(*n as i64)
            } else {
                None
            },
            Json::Int(n) => Some(*n),
            _ => None,
        }
    }

    /// The text of a string.
    pub fn as_str(&self) -> (r: Option<&String>)
        ensures
            r is Some <==> self@.as_str() is Some,
            r matches Some(s) ==> self@.as_str() == Some(s@),
    {
        match self {
            Json::Str(s) => Some(s),
            _ => None,
        }
    }

    /// The truth value.
    pub fn as_bool(&self) -> (r: Option<bool>)
        ensures
            r == self@.as_bool(),
    {
        match self {
            Json::Bool(b) => Some(*b),
            _ => None,
        }
    }

    /// The items of an array.
    pub fn as_array(&self) -> (r: Option<&Vec<Json>>)
        ensures
            r is Some <==> self@ is Array,
            r matches Some(items) ==> self@ == JsonView::Array(json_views(items@)),
    {
        proof {
            lemma_container_views(*self);
        }
        match self {
            Json::Array(items) => Some(items),
            _ => None,
        }
    }

    /// The whole number under a key of an object.
    pub fn u64_field(&self, key: &str) -> (r: Option<u64>)
        ensures
            r == u64_field(self@, key@),
    {
        match self.get(key) {
            Some(v) => v.as_u64(),
            None => None,
        }
    }
}

impl Clone for Json {
    fn clone(&self) -> (j: Json)
        ensures
            j@ == self@,
        decreases self,
    {
        match self {
            Json::Null => Json::Null,
            Json::Bool(b) => Json::Bool(*b),
            Json::UInt(n) => Json::UInt(*n),
            Json::Int(n) => Json::Int(*n),
            Json::Float(n) => Json::Float(copy_number(n)),
            Json::Str(s) => Json::Str(s.clone()),
            Json::Array(items) => {
                let mut out: Vec<Json> = Vec::new();
                let mut i: usize = 0;
                while i < items.len()
                    invariant
                        i <= items.len(),
                        out.len() == i,
                        *self == Json::Array(*items),
                        forall|k: int| 0 <= k < i ==> (#[trigger] out@[k])@ == items@[k]@,
                    decreases items.len() - i,
                {
                    assert(decreases_to!(self => self->Array_0@[i as int]));
                    let c = items[i].clone();
                    out.push(c);
                    i += 1;
                }
                let j = Json::Array(out);
                proof {
                    lemma_container_views(j);
                    lemma_container_views(*self);
                    assert(json_views(out@) =~= json_views(items@));
                }
                j
            },
            Json::Object(fields) => {
                let mut out: Vec<(String, Json)> = Vec::new();
                let mut i: usize = 0;
                while i < fields.len()
                    invariant
                        i <= fields.len(),
                        out.len() == i,
                        *self == Json::Object(*fields),
                        forall|k: int|
                            0 <= k < i ==> (#[trigger] out@[k]).0@ == fields@[k].0@ && out@[k].1@
                                == fields@[k].1@,
                    decreases fields.len() - i,
                {
                    assert(decreases_to!(self => self->Object_0@[i as int].1));
                    let c = fields[i].1.clone();
                    let name = fields[i].0.clone();
                    out.push((name, c));
                    i += 1;
                }
                let j = Json::Object(out);
                proof {
                    lemma_container_views(j);
                    lemma_container_views(*self);
                    assert(field_views(out@) =~= field_views(fields@));
                }
                j
            },
        }
    }
}

/// `serde_json`'s own value.
#[verifier::external_type_specification]
#[verifier::external_body]
pub struct ExValue(serde_json::Value);

/// `serde_json`'s own map.
#[verifier::external_type_specification]
#[verifier::external_body]
#[verifier::reject_recursive_types(K)]
#[verifier::reject_recursive_types(V)]
pub struct ExMap<K, V>(serde_json::Map<K, V>);

/// `serde_json`'s own number.
#[verifier::external_type_specification]
#[verifier::external_body]
pub struct ExNumber(serde_json::Number);

/// `serde_json::Number`'s `clone`: the same number.
#[verifier::external_body]
fn copy_number(n: &serde_json::Number) -> (r: serde_json::Number)
    ensures
        r == *n,
{
    n.clone()
}

/// The values that a `serde_json::Value` holds, objects in the order in which
/// the crate walks them.
pub uninterp spec fn value_tree(v: serde_json::Value) -> JsonView;

/// What `serde_json::from_str` reads in a text: a value, or the text of its
/// error.
pub uninterp spec fn json_parsed(source: Seq<char>) -> Result<JsonView, Seq<char>>;

/// What a `serde_json::Number` is taken apart as: the whole number that it is,
/// or the number itself where it is none that fits.
pub uninterp spec fn number_tree(n: serde_json::Number) -> JsonView;

/// The fields of a `serde_json::Map`, in the order in which the crate walks
/// them.
pub uninterp spec fn map_fields(m: serde_json::Map<String, serde_json::Value>) -> Seq<
    (Seq<char>, JsonView),
>;

/// The compact text that `serde_json` writes for a value.
pub uninterp spec fn written(tree: JsonView) -> Seq<char>;

/// What a result holds: the values, or the text of the error.
pub open spec fn read_view(r: Result<serde_json::Value, String>) -> Result<JsonView, Seq<char>> {
    match r {
        Ok(v) => Ok(value_tree(v)),
        Err(e) => Err(e@),
    }
}

/// `serde_json::from_str`: the value that the text spells, or the display text
/// of the error.
#[verifier::external_body]
fn read_value(source: &str) -> (r: Result<serde_json::Value, String>)
    ensures
        read_view(r) == json_parsed(source@),
{
    serde_json::from_str(source).map_err(|e| e.to_string())
}

/// Takes a `serde_json::Value` apart, one variant for one variant. A number
/// that is neither a `u64` nor an `i64` is kept as it is.
#[verifier::external_body]
fn from_value(v: serde_json::Value) -> (j: Json)
    ensures
        j@ == value_tree(v),
{
    match v {
        serde_json::Value::Null => Json::Null,
        serde_json::Value::Bool(b) => Json::Bool(b),
        serde_json::Value::Number(n) => n.as_u64().map(Json::UInt).or(n.as_i64().map(Json::Int)).unwrap_or(Json::Float(n)),
        serde_json::Value::String(s) => Json::Str(s),
        serde_json::Value::Array(a) => Json::Array(a.into_iter().map(from_value).collect()),
        serde_json::Value::Object(m) => Json::Object(m.into_iter().map(|(k, x)| (k, from_value(x))).collect()),
    }
}

/// `serde_json::Value::from`, and the variants `Number` and `Null`, for a value
/// that holds no others: one variant for one variant. A whole number is the
/// same whether it came as a `u64` or an `i64`; a number that was kept as it is
/// holds what taking it apart gives.
#[verifier::external_body]
fn plain_value(j: &Json) -> (v: serde_json::Value)
    requires
        !(j is Array),
        !(j is Object),
    ensures
        match *j {
            Json::Null => value_tree(v) == JsonView::Null,
            Json::Bool(b) => value_tree(v) == JsonView::Bool(b),
            Json::UInt(n) => value_tree(v) == JsonView::UInt(n),
            Json::Int(n) => value_tree(v) == whole(n),
            Json::Float(n) => value_tree(v) == number_tree(n),
            Json::Str(s) => value_tree(v) == JsonView::Str(s@),
            _ => true,
        },
{
    match j {
        Json::Bool(b) => serde_json::Value::from(*b),
        Json::UInt(n) => serde_json::Value::from(*n),
        Json::Int(n) => serde_json::Value::from(*n),
        Json::Float(n) => serde_json::Value::Number(n.clone()),
        Json::Str(s) => serde_json::Value::from(s.as_str()),
        _ => serde_json::Value::Null,
    }
}

/// `serde_json::Value::Array`: the values in their order.
#[verifier::external_body]
fn array_value(items: Vec<serde_json::Value>) -> (v: serde_json::Value)
    ensures
        value_tree(v) == JsonView::Array(value_trees(items@)),
{
    serde_json::Value::Array(items)
}

/// `serde_json::Map::new`: no fields.
#[verifier::external_body]
fn new_map() -> (m: serde_json::Map<String, serde_json::Value>)
    ensures
        map_fields(m) == Seq::<(Seq<char>, JsonView)>::empty(),
{
    serde_json::Map::new()
}

/// `serde_json::Map::insert`: the field stands in the place of its key in the
/// order of the keys, and replaces one of the same key. The crate is built
/// without the feature that keeps the order of insertion.
#[verifier::external_body]
fn put_value(
    m: &mut serde_json::Map<String, serde_json::Value>,
    key: String,
    v: serde_json::Value,
)
    ensures
        map_fields(*final(m)) == put_ordered(map_fields(*old(m)), key@, value_tree(v)),
{
    m.insert(key, v);
}

/// `serde_json::Value::Object`: the fields of the map.
#[verifier::external_body]
fn object_value(m: serde_json::Map<String, serde_json::Value>) -> (v: serde_json::Value)
    ensures
        value_tree(v) == JsonView::Object(map_fields(m)),
{
    serde_json::Value::Object(m)
}

/// A whole number, by its sign.
pub open spec fn whole(n: i64) -> JsonView {
    if n >= 0 {
        JsonView::UInt(n as u64)
    } else {
        JsonView::Int(n)
    }
}

/// What some `serde_json::Value`s hold.
pub open spec fn value_trees(items: Seq<serde_json::Value>) -> Seq<JsonView> {
    Seq::new(items.len(), |i: int| value_tree(items[i]))
}

/// What a `serde_json::Value` holds once a value was put into it: every object
/// has its fields in the order of their keys, and of two with the same key the
/// later one stays.
pub open spec fn stored(j: JsonView) -> JsonView
    decreases j,
{
    match j {
        JsonView::Int(n) => whole(n),
        JsonView::Float(n) => number_tree(n),
        JsonView::Array(items) => JsonView::Array(stored_items(items)),
        JsonView::Object(fields) => JsonView::Object(ordered(stored_fields(fields))),
        _ => j,
    }
}

/// Some values, each as it is stored.
pub open spec fn stored_items(items: Seq<JsonView>) -> Seq<JsonView>
    decreases items,
{
    Seq::new(
        items.len(),
        |i: int|
            if 0 <= i < items.len() {
                stored(items[i])
            } else {
                JsonView::Null
            },
    )
}

/// Some fields, the value of each as it is stored.
pub open spec fn stored_fields(fields: Seq<(Seq<char>, JsonView)>) -> Seq<(Seq<char>, JsonView)>
    decreases fields,
{
    Seq::new(
        fields.len(),
        |i: int|
            if 0 <= i < fields.len() {
                (fields[i].0, stored(fields[i].1))
            } else {
                (Seq::empty(), JsonView::Null)
            },
    )
}

fn to_value(j: &Json) -> (v: serde_json::Value)
    ensures
        value_tree(v) == stored(j@),
    decreases j,
{
    proof {
        lemma_container_views(*j);
    }
    match j {
        Json::Array(items) => {
            let mut out: Vec<serde_json::Value> = Vec::new();
            let mut i: usize = 0;
            while i < items.len()
                invariant
                    i <= items.len(),
                    out.len() == i,
                    *j == Json::Array(*items),
                    forall|k: int|
                        0 <= k < i ==> value_tree(#[trigger] out@[k]) == stored(items@[k]@),
                decreases items.len() - i,
            {
                assert(decreases_to!(j => j->Array_0@[i as int]));
                let v = to_value(&items[i]);
                out.push(v);
                i += 1;
            }
            assert(value_trees(out@) =~= stored_items(json_views(items@)));
            array_value(out)
        },
        Json::Object(fields) => {
            let ghost all = stored_fields(field_views(fields@));
            let mut out = new_map();
            assert(all.take(0) =~= Seq::empty());
            let mut i: usize = 0;
            while i < fields.len()
                invariant
                    i <= fields.len(),
                    *j == Json::Object(*fields),
                    all == stored_fields(field_views(fields@)),
                    map_fields(out) == ordered(all.take(i as int)),
                decreases fields.len() - i,
            {
                assert(decreases_to!(j => j->Object_0@[i as int].1));
                let v = to_value(&fields[i].1);
                assert(all.take(i + 1).drop_last() =~= all.take(i as int));
                assert(all.take(i + 1).last() == (fields@[i as int].0@, value_tree(v)));
                put_value(&mut out, fields[i].0.clone(), v);
                i += 1;
            }
            assert(all.take(i as int) =~= all);
            object_value(out)
        },
        _ => plain_value(j),
    }
}

/// The display text of a `serde_json::Value`, which is its compact form.
#[verifier::external_body]
fn write_value(v: &serde_json::Value) -> (s: String)
    ensures
        s@ == written(value_tree(*v)),
{
    v.to_string()
}

/// The text of a value.
pub open spec fn json_text(j: JsonView) -> Seq<char> {
    written(stored(j))
}

/// What a result holds: the value, or the text of the error.
pub open spec fn parse_view(r: Result<Json, String>) -> Result<JsonView, Seq<char>> {
    match r {
        Ok(j) => Ok(j@),
        Err(e) => Err(e@),
    }
}

/// Reads a JSON text.
pub fn parse(source: &str) -> (r: Result<Json, String>)
    ensures
        parse_view(r) == json_parsed(source@),
{
    match read_value(source) {
        Ok(v) => Ok(from_value(v)),
        Err(e) => Err(e),
    }
}

/// Writes a value as JSON text.
pub fn render(j: &Json) -> (s: String)
    ensures
        s@ == json_text(j@),
{
    let v = to_value(j);
    write_value(&v)
}

/// The object that describes an error: its kind and its detail.
pub open spec fn error_json(e: ErrorView) -> JsonView {
    JsonView::Object(
        seq![
            ("kind"@, JsonView::Str(e.kind.name())),
            ("detail"@, JsonView::Str(e.detail)),
        ],
    )
}

/// The object that describes an error.
pub fn error_object(e: &MatError) -> (j: Json)
    ensures
        j@ == error_json(e@),
{
    let j = Json::object().with("kind", Json::text(e.kind.as_str())).with("detail", Json::text(&e.detail));
    assert(j@->Object_0 =~= error_json(e@)->Object_0);
    j
}

/// The array of some numbers.
pub open spec fn u64_array(ids: Seq<u64>) -> JsonView {
    JsonView::Array(Seq::new(ids.len(), |i: int| JsonView::UInt(ids[i])))
}

/// The array of some numbers.
pub fn u64_list(ids: &Vec<u64>) -> (j: Json)
    ensures
        j@ == u64_array(ids@),
{
    let mut items: Vec<Json> = Vec::new();
    let mut i: usize = 0;
    while i < ids.len()
        invariant
            i <= ids.len(),
            items.len() == i,
            forall|k: int| 0 <= k < i ==> (#[trigger] items@[k])@ == JsonView::UInt(ids@[k]),
        decreases ids.len() - i,
    {
        items.push(Json::UInt(ids[i]));
        i += 1;
    }
    assert(json_views(items@) =~= u64_array(ids@)->Array_0);
    Json::array(items)
}

/// The array of some texts.
pub open spec fn text_array(parts: Seq<String>) -> JsonView {
    JsonView::Array(Seq::new(parts.len(), |i: int| JsonView::Str(parts[i]@)))
}

/// The array of some texts.
pub fn text_list(parts: &Vec<String>) -> (j: Json)
    ensures
        j@ == text_array(parts@),
{
    let mut items: Vec<Json> = Vec::new();
    let mut i: usize = 0;
    while i < parts.len()
        invariant
            i <= parts.len(),
            items.len() == i,
            forall|k: int| 0 <= k < i ==> (#[trigger] items@[k])@ == JsonView::Str(parts@[k]@),
        decreases parts.len() - i,
    {
        items.push(Json::text(&parts[i]));
        i += 1;
    }
    assert(json_views(items@) =~= text_array(parts@)->Array_0);
    Json::array(items)
}

/// An object's fields with one put in: in the place of the first of the same
/// key, or at the end.
pub open spec fn put_field(fields: Seq<(Seq<char>, JsonView)>, key: Seq<char>, v: JsonView) -> Seq<
    (Seq<char>, JsonView),
>
    decreases fields.len(),
{
    if fields.len() == 0 {
        seq![(key, v)]
    } else if fields[0].0 == key {
        fields.update(0, (key, v))
    } else {
        seq![fields[0]] + put_field(fields.skip(1), key, v)
    }
}

proof fn lemma_put_field_at(
    fields: Seq<(Seq<char>, JsonView)>,
    key: Seq<char>,
    v: JsonView,
    i: int,
)
    requires
        0 <= i <= fields.len(),
        forall|k: int| 0 <= k < i ==> (#[trigger] fields[k]).0 != key,
    ensures
        i == fields.len() ==> put_field(fields, key, v) == fields.push((key, v)),
        i < fields.len() && fields[i].0 == key ==> put_field(fields, key, v) == fields.update(
            i,
            (key, v),
        ),
    decreases i,
{
    if i == 0 {
        if fields.len() == 0 {
            assert(seq![(key, v)] =~= fields.push((key, v)));
        }
    } else {
        let rest = fields.skip(1);
        assert(fields[0].0 != key);
        assert forall|k: int| 0 <= k < i - 1 implies (#[trigger] rest[k]).0 != key by {
            assert(rest[k] == fields[k + 1]);
        }
        lemma_put_field_at(rest, key, v, i - 1);
        if i == fields.len() {
            assert(seq![fields[0]] + rest.push((key, v)) =~= fields.push((key, v)));
        } else if fields[i].0 == key {
            assert(rest[i - 1] == fields[i]);
            assert(seq![fields[0]] + rest.update(i - 1, (key, v)) =~= fields.update(i, (key, v)));
        }
    }
}

/// Puts a field into an object's fields.
pub fn insert_field(fields: &mut Vec<(String, Json)>, key: String, v: Json)
    ensures
        field_views(final(fields)@) == put_field(field_views(old(fields)@), key@, v@),
{
    let ghost before = field_views(fields@);
    let mut i: usize = 0;
    while i < fields.len()
        invariant
            i <= fields.len(),
            fields@ == old(fields)@,
            before == field_views(fields@),
            forall|k: int| 0 <= k < i ==> (#[trigger] before[k]).0 != key@,
        decreases fields.len() - i,
    {
        if text::same(fields[i].0.as_str(), key.as_str()) {
            proof {
                lemma_put_field_at(before, key@, v@, i as int);
            }
            fields.set(i, (key, v));
            assert(field_views(fields@) =~= before.update(i as int, (key@, v@)));
            return ;
        }
        i += 1;
    }
    proof {
        lemma_put_field_at(before, key@, v@, i as int);
    }
    fields.push((key, v));
    assert(field_views(fields@) =~= before.push((key@, v@)));
}

/// An object's fields in the order of their keys with one put in: in its place,
/// or in that of the field of the same key.
pub open spec fn put_ordered(
    fields: Seq<(Seq<char>, JsonView)>,
    key: Seq<char>,
    v: JsonView,
) -> Seq<(Seq<char>, JsonView)>
    decreases fields.len(),
{
    if fields.len() == 0 {
        seq![(key, v)]
    } else if fields[0].0 == key {
        fields.update(0, (key, v))
    } else if text::precedes(key, fields[0].0) {
        seq![(key, v)] + fields
    } else {
        seq![fields[0]] + put_ordered(fields.skip(1), key, v)
    }
}

/// An object's fields in the order of their keys; of two with the same key the
/// later one stays.
pub open spec fn ordered(fields: Seq<(Seq<char>, JsonView)>) -> Seq<(Seq<char>, JsonView)>
    decreases fields.len(),
{
    if fields.len() == 0 {
        Seq::empty()
    } else {
        put_ordered(ordered(fields.drop_last()), fields.last().0, fields.last().1)
    }
}

proof fn lemma_put_ordered_at(
    fields: Seq<(Seq<char>, JsonView)>,
    key: Seq<char>,
    v: JsonView,
    i: int,
)
    requires
        0 <= i <= fields.len(),
        forall|k: int|
            0 <= k < i ==> (#[trigger] fields[k]).0 != key && !text::precedes(key, fields[k].0),
    ensures
        i == fields.len() ==> put_ordered(fields, key, v) == fields.push((key, v)),
        i < fields.len() && fields[i].0 == key ==> put_ordered(fields, key, v) == fields.update(
            i,
            (key, v),
        ),
        i < fields.len() && fields[i].0 != key && text::precedes(key, fields[i].0)
            ==> put_ordered(fields, key, v) == fields.insert(i, (key, v)),
    decreases i,
{
    if i == 0 {
        if fields.len() == 0 {
            assert(seq![(key, v)] =~= fields.push((key, v)));
        } else {
            assert(seq![(key, v)] + fields =~= fields.insert(0, (key, v)));
        }
    } else {
        let rest = fields.skip(1);
        assert(fields[0].0 != key);
        assert forall|k: int| 0 <= k < i - 1 implies (#[trigger] rest[k]).0 != key
            && !text::precedes(key, rest[k].0) by {
            assert(rest[k] == fields[k + 1]);
        }
        lemma_put_ordered_at(rest, key, v, i - 1);
        if i == fields.len() {
            assert(seq![fields[0]] + rest.push((key, v)) =~= fields.push((key, v)));
        } else {
            assert(rest[i - 1] == fields[i]);
            assert(seq![fields[0]] + rest.update(i - 1, (key, v)) =~= fields.update(i, (key, v)));
            assert(seq![fields[0]] + rest.insert(i - 1, (key, v)) =~= fields.insert(i, (key, v)));
        }
    }
}

fn insert_ordered(fields: &mut Vec<(String, Json)>, key: String, v: Json)
    ensures
        field_views(final(fields)@) == put_ordered(field_views(old(fields)@), key@, v@),
{
    let ghost before = field_views(fields@);
    let mut i: usize = 0;
    while i < fields.len()
        invariant
            i <= fields.len(),
            fields@ == old(fields)@,
            before == field_views(fields@),
            forall|k: int|
                0 <= k < i ==> (#[trigger] before[k]).0 != key@ && !text::precedes(
                    key@,
                    before[k].0,
                ),
        decreases fields.len() - i,
    {
        if text::same(fields[i].0.as_str(), key.as_str()) {
            proof {
                lemma_put_ordered_at(before, key@, v@, i as int);
            }
            fields.set(i, (key, v));
            assert(field_views(fields@) =~= before.update(i as int, (key@, v@)));
            return ;
        }
        if text::is_before(key.as_str(), fields[i].0.as_str()) {
            proof {
                lemma_put_ordered_at(before, key@, v@, i as int);
            }
            fields.insert(i, (key, v));
            assert(field_views(fields@) =~= before.insert(i as int, (key@, v@)));
            return ;
        }
        i += 1;
    }
    proof {
        lemma_put_ordered_at(before, key@, v@, i as int);
    }
    fields.push((key, v));
    assert(field_views(fields@) =~= before.push((key@, v@)));
}

/// Copies an object's fields into the order of their keys.
pub fn order_fields(fields: &Vec<(String, Json)>) -> (r: Vec<(String, Json)>)
    ensures
        field_views(r@) == ordered(field_views(fields@)),
{
    let ghost all = field_views(fields@);
    let mut out: Vec<(String, Json)> = Vec::new();
    assert(field_views(out@) =~= Seq::empty());
    let mut i: usize = 0;
    while i < fields.len()
        invariant
            i <= fields.len(),
            all == field_views(fields@),
            field_views(out@) == ordered(all.take(i as int)),
        decreases fields.len() - i,
    {
        assert(all.take(i + 1).drop_last() =~= all.take(i as int));
        assert(all.take(i + 1).last() == (fields@[i as int].0@, fields@[i as int].1@));
        insert_ordered(&mut out, fields[i].0.clone(), fields[i].1.clone());
        i += 1;
    }
    assert(all.take(i as int) =~= all);
    out
}

proof fn lemma_puts_commute(
    fields: Seq<(Seq<char>, JsonView)>,
    a: (Seq<char>, JsonView),
    b: (Seq<char>, JsonView),
)
    requires
        a.0 != b.0,
    ensures
        put_ordered(put_ordered(fields, a.0, a.1), b.0, b.1) == put_ordered(
            put_ordered(fields, b.0, b.1),
            a.0,
            a.1,
        ),
    decreases fields.len(),
{
    reveal_with_fuel(put_ordered, 3);
    text::lemma_precedes_total(a.0, b.0);
    let fa = put_ordered(fields, a.0, a.1);
    let fb = put_ordered(fields, b.0, b.1);
    if fields.len() == 0 {
        assert(fa.skip(1) =~= Seq::empty());
        assert(fb.skip(1) =~= Seq::empty());
        assert(put_ordered(fa, b.0, b.1) =~= put_ordered(fb, a.0, a.1));
    } else {
        let x = fields[0].0;
        let rest = fields.skip(1);
        text::lemma_precedes_total(a.0, x);
        text::lemma_precedes_total(b.0, x);
        if text::precedes(a.0, x) && text::precedes(x, b.0) {
            text::lemma_precedes_transitive(a.0, x, b.0);
        }
        if text::precedes(b.0, x) && text::precedes(x, a.0) {
            text::lemma_precedes_transitive(b.0, x, a.0);
        }
        lemma_puts_commute(rest, a, b);
        assert(fa[0].0 == x || fa[0] == a);
        if a.0 == x {
            assert(fa.skip(1) =~= rest);
        } else if text::precedes(a.0, x) {
            assert(fa.skip(1) =~= fields);
        } else {
            assert(fa.skip(1) =~= put_ordered(rest, a.0, a.1));
        }
        if b.0 == x {
            assert(fb.skip(1) =~= rest);
        } else if text::precedes(b.0, x) {
            assert(fb.skip(1) =~= fields);
        } else {
            assert(fb.skip(1) =~= put_ordered(rest, b.0, b.1));
        }
        assert(put_ordered(fa, b.0, b.1) =~= put_ordered(fb, a.0, a.1));
    }
}

/// Two fields with different keys that stand next to each other may change
/// places: the order of the keys is the same.
pub proof fn lemma_ordered_swap(fields: Seq<(Seq<char>, JsonView)>, i: int)
    requires
        0 <= i < fields.len() - 1,
        fields[i].0 != fields[i + 1].0,
    ensures
        ordered(fields.update(i, fields[i + 1]).update(i + 1, fields[i])) == ordered(fields),
    decreases fields.len(),
{
    reveal_with_fuel(ordered, 3);
    let other = fields.update(i, fields[i + 1]).update(i + 1, fields[i]);
    let n = fields.len() as int;
    if i + 2 == n {
        let front = fields.drop_last().drop_last();
        assert(other.drop_last().drop_last() =~= front);
        assert(fields.drop_last().last() == fields[i]);
        assert(other.drop_last().last() == fields[i + 1]);
        lemma_puts_commute(ordered(front), fields[i], fields[i + 1]);
    } else {
        let front = fields.drop_last();
        lemma_ordered_swap(front, i);
        assert(other.drop_last() =~= front.update(i, front[i + 1]).update(i + 1, front[i]));
    }
}

/// The order in which an object's fields were put in does not show in its text:
/// two with different keys that stand next to each other may change places.
pub proof fn law_field_order_is_not_written(fields: Seq<(Seq<char>, JsonView)>, i: int)
    requires
        0 <= i < fields.len() - 1,
        fields[i].0 != fields[i + 1].0,
    ensures
        json_text(
            JsonView::Object(fields.update(i, fields[i + 1]).update(i + 1, fields[i])),
        ) == json_text(JsonView::Object(fields)),
{
    let other = fields.update(i, fields[i + 1]).update(i + 1, fields[i]);
    let kept = stored_fields(fields);
    lemma_ordered_swap(kept, i);
    assert(stored_fields(other) =~= kept.update(i, kept[i + 1]).update(i + 1, kept[i]));
}

/// A value with a field put in, where it is an object.
pub open spec fn with_field(v: JsonView, key: Seq<char>, value: JsonView) -> JsonView {
    match v {
        JsonView::Object(fields) => JsonView::Object(put_field(fields, key, value)),
        _ => v,
    }
}

impl Json {
    /// The value with a field put in, where it is an object.
    pub fn set(self, key: &str, value: Json) -> (j: Json)
        ensures
            j@ == with_field(self@, key@, value@),
    {
        proof {
            lemma_container_views(self);
        }
        match self {
            Json::Object(fields) => {
                let mut fields = fields;
                insert_field(&mut fields, key.to_owned(), value);
                let j = Json::Object(fields);
                proof {
                    lemma_container_views(j);
                }
                j
            },
            other => other,
        }
    }
}

/// A text or null.
pub open spec fn text_or_null(s: Option<String>) -> JsonView {
    match s {
        Some(s) => JsonView::Str(s@),
        None => JsonView::Null,
    }
}

/// A text or null.
pub fn nullable(s: &Option<String>) -> (j: Json)
    ensures
        j@ == text_or_null(*s),
{
    match s {
        Some(s) => Json::text(s),
        None => Json::Null,
    }
}

/// A key that no field has is not found.
pub proof fn lemma_lookup_absent(fields: Seq<(Seq<char>, JsonView)>, key: Seq<char>)
    requires
        forall|i: int| 0 <= i < fields.len() ==> (#[trigger] fields[i]).0 != key,
    ensures
        lookup(fields, key) is None,
    decreases fields.len(),
{
    if fields.len() > 0 {
        let rest = fields.skip(1);
        assert forall|i: int| 0 <= i < rest.len() implies (#[trigger] rest[i]).0 != key by {
            assert(rest[i] == fields[i + 1]);
        }
        lemma_lookup_absent(rest, key);
    }
}

/// A field put behind others is found where none of them has its key.
pub proof fn lemma_lookup_pushed(
    fields: Seq<(Seq<char>, JsonView)>,
    key: Seq<char>,
    v: JsonView,
)
    requires
        forall|i: int| 0 <= i < fields.len() ==> (#[trigger] fields[i]).0 != key,
    ensures
        lookup(fields.push((key, v)), key) == Some(v),
    decreases fields.len(),
{
    let all = fields.push((key, v));
    if fields.len() > 0 {
        let rest = fields.skip(1);
        assert forall|i: int| 0 <= i < rest.len() implies (#[trigger] rest[i]).0 != key by {
            assert(rest[i] == fields[i + 1]);
        }
        lemma_lookup_pushed(rest, key, v);
        assert(all.skip(1) =~= rest.push((key, v)));
        assert(all[0] == fields[0]);
    } else {
        assert(all[0] == (key, v));
    }
}

/// A field that was put in is found.
pub proof fn lemma_put_is_found(
    fields: Seq<(Seq<char>, JsonView)>,
    key: Seq<char>,
    v: JsonView,
)
    ensures
        lookup(put_field(fields, key, v), key) == Some(v),
    decreases fields.len(),
{
    let all = put_field(fields, key, v);
    if fields.len() > 0 && fields[0].0 != key {
        lemma_put_is_found(fields.skip(1), key, v);
        assert(all.skip(1) =~= put_field(fields.skip(1), key, v));
        assert(all[0] == fields[0]);
    }
}

/// A value is seen as what it holds.
pub proof fn law_values_are_seen_as_they_are(b: bool, n: u64, i: i64, s: String)
    ensures
        Json::Null@ == JsonView::Null,
        Json::Bool(b)@ == JsonView::Bool(b),
        Json::UInt(n)@ == JsonView::UInt(n),
        Json::Int(i)@ == JsonView::Int(i),
        Json::Str(s)@ == JsonView::Str(s@),
{
}

/// What an object has under a key is the value of its first field with that
/// key.
pub proof fn law_first_field_is_found(
    fields: Seq<(Seq<char>, JsonView)>,
    key: Seq<char>,
    i: int,
)
    requires
        0 <= i < fields.len(),
        fields[i].0 == key,
        forall|k: int| 0 <= k < i ==> (#[trigger] fields[k]).0 != key,
    ensures
        JsonView::Object(fields).get(key) == Some(fields[i].1),
        lookup(fields, key) == Some(fields[i].1),
    decreases i,
{
    if i > 0 {
        let rest = fields.skip(1);
        assert(fields[0].0 != key);
        assert(rest[i - 1] == fields[i]);
        assert forall|k: int| 0 <= k < i - 1 implies (#[trigger] rest[k]).0 != key by {
            assert(rest[k] == fields[k + 1]);
        }
        law_first_field_is_found(rest, key, i - 1);
    }
}

/// Nothing is found under a key that no field has, nor in what is no object.
pub proof fn law_nothing_else_is_found(v: JsonView, key: Seq<char>)
    ensures
        v.get(key) is Some ==> (v matches JsonView::Object(fields) && exists|i: int|
            0 <= i < fields.len() && (#[trigger] fields[i]).0 == key && Some(fields[i].1)
                == v.get(key)),
{
    if let JsonView::Object(fields) = v {
        if forall|i: int| 0 <= i < fields.len() ==> (#[trigger] fields[i]).0 != key {
            lemma_lookup_absent(fields, key);
        } else {
            lemma_some_field_is_first(fields, key);
        }
    }
}

proof fn lemma_some_field_is_first(fields: Seq<(Seq<char>, JsonView)>, key: Seq<char>)
    requires
        exists|i: int| 0 <= i < fields.len() && (#[trigger] fields[i]).0 == key,
    ensures
        exists|i: int|
            0 <= i < fields.len() && (#[trigger] fields[i]).0 == key && lookup(fields, key) == Some(
                fields[i].1,
            ),
    decreases fields.len(),
{
    if fields[0].0 == key {
        assert(lookup(fields, key) == Some(fields[0].1));
    } else {
        let rest = fields.skip(1);
        let i = choose|i: int| 0 <= i < fields.len() && (#[trigger] fields[i]).0 == key;
        assert(rest[i - 1] == fields[i]);
        lemma_some_field_is_first(rest, key);
        let j = choose|j: int|
            0 <= j < rest.len() && (#[trigger] rest[j]).0 == key && lookup(rest, key) == Some(
                rest[j].1,
            );
        assert(fields[j + 1] == rest[j]);
    }
}

/// A field that is put into an object is found there, and every other key
/// finds what it found before.
pub proof fn law_put_changes_one_field(
    fields: Seq<(Seq<char>, JsonView)>,
    key: Seq<char>,
    v: JsonView,
    other: Seq<char>,
)
    ensures
        lookup(put_field(fields, key, v), other) == if other == key {
            Some(v)
        } else {
            lookup(fields, other)
        },
    decreases fields.len(),
{
    let all = put_field(fields, key, v);
    lemma_put_is_found(fields, key, v);
    if fields.len() == 0 {
        assert(all.skip(1) =~= Seq::empty());
        assert(all[0] == (key, v));
        assert(lookup(all.skip(1), other) is None);
    } else if fields[0].0 == key {
        assert(all.skip(1) =~= fields.skip(1));
        assert(all[0] == (key, v));
    } else {
        law_put_changes_one_field(fields.skip(1), key, v, other);
        assert(all.skip(1) =~= put_field(fields.skip(1), key, v));
        assert(all[0] == fields[0]);
    }
}

proof fn lemma_put_ordered_changes_one_field(
    fields: Seq<(Seq<char>, JsonView)>,
    key: Seq<char>,
    v: JsonView,
    other: Seq<char>,
)
    requires
        forall|i: int, j: int|
            0 <= i < j < fields.len() ==> text::precedes(
                (#[trigger] fields[i]).0,
                (#[trigger] fields[j]).0,
            ),
    ensures
        lookup(put_ordered(fields, key, v), other) == if other == key {
            Some(v)
        } else {
            lookup(fields, other)
        },
        forall|i: int, j: int|
            0 <= i < j < put_ordered(fields, key, v).len() ==> text::precedes(
                (#[trigger] put_ordered(fields, key, v)[i]).0,
                (#[trigger] put_ordered(fields, key, v)[j]).0,
            ),
        forall|i: int|
            0 <= i < put_ordered(fields, key, v).len() ==> ((
            #[trigger] put_ordered(fields, key, v)[i]).0 == key || exists|j: int|
                0 <= j < fields.len() && (#[trigger] fields[j]).0 == put_ordered(
                    fields,
                    key,
                    v,
                )[i].0),
    decreases fields.len(),
{
    let all = put_ordered(fields, key, v);
    if fields.len() == 0 {
        assert(all.skip(1) =~= Seq::empty());
        assert(all[0] == (key, v));
        assert(lookup(all.skip(1), other) is None);
    } else if fields[0].0 == key {
        assert(all.skip(1) =~= fields.skip(1));
        assert(all[0] == (key, v));
        assert forall|i: int| 0 <= i < all.len() implies ((#[trigger] all[i]).0 == key || exists|
            j: int,
        |
            0 <= j < fields.len() && (#[trigger] fields[j]).0 == all[i].0) by {
            assert(fields[i].0 == all[i].0);
        }
        assert forall|i: int, j: int| 0 <= i < j < all.len() implies text::precedes(
            (#[trigger] all[i]).0,
            (#[trigger] all[j]).0,
        ) by {
            assert(fields[i].0 == all[i].0);
            assert(fields[j].0 == all[j].0);
        }
    } else if text::precedes(key, fields[0].0) {
        assert(all.skip(1) =~= fields);
        assert(all[0] == (key, v));
        assert forall|i: int| 0 <= i < all.len() implies ((#[trigger] all[i]).0 == key || exists|
            j: int,
        |
            0 <= j < fields.len() && (#[trigger] fields[j]).0 == all[i].0) by {
            if i > 0 {
                assert(fields[i - 1] == all[i]);
            }
        }
        assert forall|i: int, j: int| 0 <= i < j < all.len() implies text::precedes(
            (#[trigger] all[i]).0,
            (#[trigger] all[j]).0,
        ) by {
            assert(fields[j - 1] == all[j]);
            if i > 0 {
                assert(fields[i - 1] == all[i]);
            } else if j > 1 {
                text::lemma_precedes_transitive(key, fields[0].0, fields[j - 1].0);
            }
        }
    } else {
        let rest = fields.skip(1);
        let put = put_ordered(rest, key, v);
        assert forall|i: int, j: int| 0 <= i < j < rest.len() implies text::precedes(
            (#[trigger] rest[i]).0,
            (#[trigger] rest[j]).0,
        ) by {
            assert(rest[i] == fields[i + 1]);
            assert(rest[j] == fields[j + 1]);
        }
        lemma_put_ordered_changes_one_field(rest, key, v, other);
        assert(all.skip(1) =~= put);
        assert(all[0] == fields[0]);
        text::lemma_precedes_total(key, fields[0].0);
        assert forall|i: int| 0 <= i < all.len() implies ((#[trigger] all[i]).0 == key || exists|
            j: int,
        |
            0 <= j < fields.len() && (#[trigger] fields[j]).0 == all[i].0) by {
            if i > 0 {
                assert(put[i - 1] == all[i]);
                if put[i - 1].0 != key {
                    let j = choose|j: int|
                        0 <= j < rest.len() && (#[trigger] rest[j]).0 == put[i - 1].0;
                    assert(fields[j + 1] == rest[j]);
                }
            } else {
                assert(fields[0].0 == all[0].0);
            }
        }
        assert forall|i: int, j: int| 0 <= i < j < all.len() implies text::precedes(
            (#[trigger] all[i]).0,
            (#[trigger] all[j]).0,
        ) by {
            assert(put[j - 1] == all[j]);
            if i > 0 {
                assert(put[i - 1] == all[i]);
            } else if put[j - 1].0 != key {
                let k = choose|k: int| 0 <= k < rest.len()
                    && (#[trigger] rest[k]).0 == put[j - 1].0;
                assert(fields[k + 1] == rest[k]);
                assert(text::precedes(fields[0].0, fields[k + 1].0));
            }
        }
    }
}

/// Ordering an object's fields puts their keys in order and keeps under each
/// key the value of the last field that had it.
pub proof fn law_ordering_keeps_the_last_value(
    fields: Seq<(Seq<char>, JsonView)>,
    key: Seq<char>,
)
    ensures
        forall|i: int, j: int|
            0 <= i < j < ordered(fields).len() ==> text::precedes(
                (#[trigger] ordered(fields)[i]).0,
                (#[trigger] ordered(fields)[j]).0,
            ),
        forall|i: int|
            0 <= i < fields.len() && (#[trigger] fields[i]).0 == key && (forall|k: int|
                i < k < fields.len() ==> (#[trigger] fields[k]).0 != key) ==> lookup(
                ordered(fields),
                key,
            ) == Some(fields[i].1),
        (forall|i: int| 0 <= i < fields.len() ==> (#[trigger] fields[i]).0 != key) ==> lookup(
            ordered(fields),
            key,
        ) is None,
    decreases fields.len(),
{
    if fields.len() > 0 {
        let front = fields.drop_last();
        law_ordering_keeps_the_last_value(front, key);
        lemma_put_ordered_changes_one_field(
            ordered(front),
            fields.last().0,
            fields.last().1,
            key,
        );
        assert(fields[fields.len() - 1] == fields.last());
        assert forall|i: int|
            0 <= i < fields.len() && (#[trigger] fields[i]).0 == key && (forall|k: int|
                i < k < fields.len() ==> (#[trigger] fields[k]).0 != key) implies lookup(
            ordered(fields),
            key,
        ) == Some(fields[i].1) by {
            if i < front.len() {
                assert(front[i] == fields[i]);
                assert forall|k: int| i < k < front.len() implies (#[trigger] front[k]).0
                    != key by {
                    assert(front[k] == fields[k]);
                }
            }
        }
        if forall|i: int| 0 <= i < fields.len() ==> (#[trigger] fields[i]).0 != key {
            assert forall|i: int| 0 <= i < front.len() implies (#[trigger] front[i]).0 != key by {
                assert(front[i] == fields[i]);
            }
        }
    }
}

/// The object of an error holds its kind's name and its detail.
pub proof fn law_error_object_by_name(e: ErrorView)
    ensures
        error_json(e).get("kind"@) == Some(JsonView::Str(e.kind.name())),
        error_json(e).get("detail"@) == Some(JsonView::Str(e.detail)),
{
    reveal_strlit("kind");
    reveal_strlit("detail");
    law_first_field_is_found(error_json(e)->Object_0, "kind"@, 0);
    let fields = error_json(e)->Object_0;
    assert(fields[0].0 == "kind"@);
    law_first_field_is_found(error_json(e)->Object_0, "detail"@, 1);
}

/// A list of numbers, or of texts, holds each in its place.
pub proof fn law_lists_keep_their_places(ids: Seq<u64>, parts: Seq<String>, i: int)
    ensures
        u64_array(ids) matches JsonView::Array(a) && a.len() == ids.len() && (0 <= i < a.len()
            ==> a[i] == JsonView::UInt(ids[i])),
        text_array(parts) matches JsonView::Array(a) && a.len() == parts.len() && (0 <= i < a.len()
            ==> a[i] == JsonView::Str(parts[i]@)),
{
}

/// A number is read as itself, where it is whole and fits.
pub proof fn law_numbers_read_as_themselves(n: u64, m: i64)
    ensures
        JsonView::UInt(n).as_u64() == Some(n),
        JsonView::Int(m).as_u64() is None,
        JsonView::Int(m).as_i64() == Some(m),
        JsonView::UInt(n).as_i64() matches Some(k) ==> k == n,
        JsonView::UInt(n).as_i64() is None <==> n > 0x7fff_ffff_ffff_ffff,
        whole(m) matches JsonView::UInt(k) ==> k == m && m >= 0,
        whole(m) matches JsonView::Int(k) ==> k == m && m < 0,
        whole(m) is UInt || whole(m) is Int,
{
}

/// The key of a field is found.
pub proof fn lemma_key_is_found(fields: Seq<(Seq<char>, JsonView)>, i: int)
    requires
        0 <= i < fields.len(),
    ensures
        lookup(fields, fields[i].0) is Some,
    decreases fields.len(),
{
    if fields[0].0 != fields[i].0 {
        assert(fields.skip(1)[i - 1] == fields[i]);
        lemma_key_is_found(fields.skip(1), i - 1);
    }
}

/// A field put behind others is found if none of them has its key, and hides
/// none of them.
pub proof fn lemma_lookup_push(
    fields: Seq<(Seq<char>, JsonView)>,
    key: Seq<char>,
    v: JsonView,
    other: Seq<char>,
)
    ensures
        lookup(fields.push((key, v)), other) == match lookup(fields, other) {
            Some(x) => Some(x),
            None => if other == key {
                Some(v)
            } else {
                None
            },
        },
    decreases fields.len(),
{
    let all = fields.push((key, v));
    if fields.len() == 0 {
        assert(all[0] == (key, v));
        assert(all.skip(1) =~= Seq::empty());
        assert(lookup(all.skip(1), other) is None);
    } else {
        assert(all[0] == fields[0]);
        assert(all.skip(1) =~= fields.skip(1).push((key, v)));
        lemma_lookup_push(fields.skip(1), key, v, other);
    }
}

/// Putting a field into an object makes it found there and leaves the others;
/// what is no object stays.
pub proof fn law_setting_changes_one_field(
    v: JsonView,
    key: Seq<char>,
    value: JsonView,
    other: Seq<char>,
)
    ensures
        v is Object ==> with_field(v, key, value).get(key) == Some(value),
        other != key ==> with_field(v, key, value).get(other) == v.get(other),
        !(v is Object) ==> with_field(v, key, value) == v,
{
    if let JsonView::Object(fields) = v {
        law_put_changes_one_field(fields, key, value, other);
        law_put_changes_one_field(fields, key, value, key);
    }
}

/// A field of an object is read as what it is.
pub proof fn law_fields_are_read_as_what_they_are(v: JsonView, key: Seq<char>)
    ensures
        u64_field(v, key) matches Some(n) ==> v.get(key) == Some(JsonView::UInt(n)),
        v.get(key) matches Some(JsonView::UInt(n)) ==> u64_field(v, key) == Some(n),
        str_field(v, key) matches Some(s) ==> v.get(key) == Some(JsonView::Str(s)),
        v.get(key) matches Some(JsonView::Str(s)) ==> str_field(v, key) == Some(s),
{
}

/// What is stored is the value itself: texts, truth values, whole numbers and
/// nothing stay as they are, a list stays item by item, and an object keeps
/// under each key the last value that it had.
pub proof fn law_storing_keeps_the_value(
    v: JsonView,
    items: Seq<JsonView>,
    fields: Seq<(Seq<char>, JsonView)>,
    i: int,
)
    ensures
        v is Null || v is Bool || v is UInt || v is Str ==> stored(v) == v,
        v matches JsonView::Int(n) ==> (n < 0 ==> stored(v) == v),
        stored(JsonView::Array(items)) matches JsonView::Array(l) && l.len() == items.len() && (0
            <= i < items.len() ==> l[i] == stored(items[i])),
        0 <= i < fields.len() && (forall|k: int|
            i < k < fields.len() ==> (#[trigger] fields[k]).0 != fields[i].0) ==> stored(
            JsonView::Object(fields),
        ).get(fields[i].0) == Some(stored(fields[i].1)),
{
    reveal_with_fuel(stored, 2);
    let kept = stored_fields(fields);
    if 0 <= i < fields.len() && (forall|k: int|
        i < k < fields.len() ==> (#[trigger] fields[k]).0 != fields[i].0) {
        let key = fields[i].0;
        assert forall|k: int| i < k < kept.len() implies (#[trigger] kept[k]).0 != key by {
            assert(kept[k].0 == fields[k].0);
        }
        assert(kept[i].0 == key);
        law_ordering_keeps_the_last_value(kept, key);
    }
}

/// A list and an object are seen item by item and field by field.
pub proof fn law_containers_are_seen_as_they_are(
    items: Vec<Json>,
    fields: Vec<(String, Json)>,
    i: int,
)
    ensures
        Json::Array(items)@ matches JsonView::Array(l) && l.len() == items@.len() && (0 <= i
            < l.len() ==> l[i] == items@[i]@),
        Json::Object(fields)@ matches JsonView::Object(l) && l.len() == fields@.len() && (0 <= i
            < l.len() ==> l[i] == (fields@[i].0@, fields@[i].1@)),
{
    lemma_container_views(Json::Array(items));
    lemma_container_views(Json::Object(fields));
}

} // verus!
