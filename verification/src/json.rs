//! A document tree, as JSON text describes one, and the calls into
//! `serde_json` that read and print it.
//!
//! A number is kept as its decimal text, so that nothing here holds a
//! floating-point value.


use vstd::prelude::*;

verus! {

/// A document tree.
#[derive(Debug)]
pub enum Json {
    Null,
    Bool(bool),
    /// A number, as the text that prints it.
    Number(String),
    Text(String),
    Array(Vec<Json>),
    /// The members of an object, in the order in which they are held.
    Object(Vec<(String, Json)>),
}

/// The mathematical value of a [`Json`].
pub enum JsonValue {
    Null,
    Bool(bool),
    Number(Seq<char>),
    Text(Seq<char>),
    Array(Seq<JsonValue>),
    Object(Seq<(Seq<char>, JsonValue)>),
}

/// The value of a tree.
pub open spec fn tree(j: Json) -> JsonValue
    decreases j,
{
    match j {
        Json::Null => JsonValue::Null,
        Json::Bool(b) => JsonValue::Bool(b),
        Json::Number(n) => JsonValue::Number(n@),
        Json::Text(t) => JsonValue::Text(t@),
        Json::Array(items) => JsonValue::Array(
            Seq::new(
                items@.len(),
                |i: int|
                    if 0 <= i < items@.len() {
                        tree(items@[i])
                    } else {
                        JsonValue::Null
                    },
            ),
        ),
        Json::Object(members) => JsonValue::Object(
            Seq::new(
                members@.len(),
                |i: int|
                    if 0 <= i < members@.len() {
                        (members@[i].0@, tree(members@[i].1))
                    } else {
                        (Seq::<char>::empty(), JsonValue::Null)
                    },
            ),
        ),
    }
}

impl View for Json {
    type V = JsonValue;

    open spec fn view(&self) -> JsonValue {
        tree(*self)
    }
}

/// The views of a sequence of trees.
pub open spec fn views(items: Seq<Json>) -> Seq<JsonValue> {
    Seq::new(items.len(), |i: int| items[i]@)
}

/// The views of a sequence of members.
pub open spec fn member_views(members: Seq<(String, Json)>) -> Seq<(Seq<char>, JsonValue)> {
    Seq::new(members.len(), |i: int| (members[i].0@, members[i].1@))
}

pub proof fn lemma_array_view(items: Vec<Json>)
    ensures
        Json::Array(items)@ == JsonValue::Array(views(items@)),
{
    assert(Json::Array(items)@->Array_0 =~= views(items@));
}

pub proof fn lemma_object_view(members: Vec<(String, Json)>)
    ensures
        Json::Object(members)@ == JsonValue::Object(member_views(members@)),
{
    assert(Json::Object(members)@->Object_0 =~= member_views(members@));
}

/// The value of the first member named `key`.
pub open spec fn lookup(members: Seq<(Seq<char>, JsonValue)>, key: Seq<char>) -> Option<
    JsonValue,
>
    decreases members.len(),
{
    if members.len() == 0 {
        None
    } else if members[0].0 == key {
        Some(members[0].1)
    } else {
        lookup(members.drop_first(), key)
    }
}

/// The member `key` of an object; `None` for a missing member and for a
/// tree that is no object.
pub open spec fn field(v: JsonValue, key: Seq<char>) -> Option<JsonValue> {
    match v {
        JsonValue::Object(members) => lookup(members, key),
        _ => None,
    }
}

/// The text of a string node.
pub open spec fn text_of(v: JsonValue) -> Option<Seq<char>> {
    match v {
        JsonValue::Text(t) => Some(t),
        _ => None,
    }
}

/// The member `key` of an object that is a string.
pub open spec fn text_field(v: JsonValue, key: Seq<char>) -> Option<Seq<char>> {
    match field(v, key) {
        Some(JsonValue::Text(t)) => Some(t),
        _ => None,
    }
}

pub proof fn lemma_lookup_skip(members: Seq<(Seq<char>, JsonValue)>, key: Seq<char>, i: int)
    requires
        0 <= i <= members.len(),
        forall|k: int| 0 <= k < i ==> (#[trigger] members[k]).0 != key,
    ensures
        lookup(members, key) == lookup(members.skip(i), key),
    decreases i,
{
    if i == 0 {
        assert(members.skip(0) == members);
    } else {
        lemma_lookup_skip(members.drop_first(), key, i - 1);
        assert(members.drop_first().skip(i - 1) == members.skip(i));
        assert(members[0].0 != key);
    }
}

impl Json {
    /// The member `key` of an object.
    pub fn get<'a>(&'a self, key: &str) -> (r: Option<&'a Json>)
        ensures
            match r {
                Some(x) => field(self@, key@) == Some(x@),
                None => field(self@, key@) is None,
            },
    {
        match self {
            Json::Object(members) => {
                proof {
                    lemma_object_view(*members);
                }
                let ghost mv = member_views(members@);
                let mut i: usize = 0;
                while i < members.len()
                    invariant
                        i <= members.len(),
                        mv == member_views(members@),
                        self@ == JsonValue::Object(mv),
                        forall|k: int| 0 <= k < i ==> (#[trigger] mv[k]).0 != key@,
                    decreases members.len() - i,
                {
                    if str::eq(members[i].0.as_str(), key) {
                        proof {
                            lemma_lookup_skip(mv, key@, i as int);
                            assert(mv.skip(i as int)[0] == mv[i as int]);
                            assert(mv[i as int].0 == key@);
                            assert(mv[i as int].1 == members@[i as int].1@);
                        }
                        return Some(&members[i].1);
                    }
                    i = i + 1;
                }
                proof {
                    lemma_lookup_skip(mv, key@, i as int);
                }
                None
            },
            _ => None,
        }
    }

    /// The text of a string node.
    pub fn as_text<'a>(&'a self) -> (r: Option<&'a String>)
        ensures
            match r {
                Some(t) => text_of(self@) == Some(t@),
                None => text_of(self@) is None,
            },
    {
        match self {
            Json::Text(t) => Some(t),
            _ => None,
        }
    }

    /// The member `key` of an object, where it is a string.
    pub fn get_text<'a>(&'a self, key: &str) -> (r: Option<&'a String>)
        ensures
            match r {
                Some(t) => text_field(self@, key@) == Some(t@),
                None => text_field(self@, key@) is None,
            },
    {
        match self.get(key) {
            Some(x) => x.as_text(),
            None => None,
        }
    }

    /// A copy of this tree.
    pub fn duplicate(&self) -> (r: Json)
        ensures
            r@ == self@,
        decreases self,
    {
        match self {
            Json::Null => Json::Null,
            Json::Bool(b) => Json::Bool(*b),
            Json::Number(n) => Json::Number(n.clone()),
            Json::Text(t) => Json::Text(t.clone()),
            Json::Array(items) => {
                let mut out: Vec<Json> = Vec::new();
                let mut i: usize = 0;
                while i < items.len()
                    invariant
                        i <= items.len(),
                        *self == Json::Array(*items),
                        out@.len() == i,
                        forall|k: int| 0 <= k < i ==> (#[trigger] out@[k])@ == items@[k]@,
                    decreases items.len() - i,
                {
                    proof {
                        assert(decreases_to!(self => self->Array_0));
                        assert(decreases_to!(self->Array_0 => items@));
                        assert(decreases_to!(items@ => items@[i as int]));
                    }
                    out.push(items[i].duplicate());
                    i = i + 1;
                }
                proof {
                    lemma_array_view(*items);
                    lemma_array_view(out);
                    assert(views(out@) =~= views(items@));
                }
                Json::Array(out)
            },
            Json::Object(members) => {
                let mut out: Vec<(String, Json)> = Vec::new();
                let mut i: usize = 0;
                while i < members.len()
                    invariant
                        i <= members.len(),
                        *self == Json::Object(*members),
                        out@.len() == i,
                        forall|k: int|
                            0 <= k < i ==> (#[trigger] out@[k]).0@ == members@[k].0@ && out@[k].1@
                                == members@[k].1@,
                    decreases members.len() - i,
                {
                    proof {
                        assert(decreases_to!(self => self->Object_0));
                        assert(decreases_to!(self->Object_0 => members@));
                        assert(decreases_to!(members@ => members@[i as int]));
                        assert(decreases_to!(members@[i as int] => members@[i as int].1));
                    }
                    out.push((members[i].0.clone(), members[i].1.duplicate()));
                    i = i + 1;
                }
                proof {
                    lemma_object_view(*members);
                    lemma_object_view(out);
                    assert(member_views(out@) =~= member_views(members@));
                }
                Json::Object(out)
            },
        }
    }
}

/// `serde_json::Value`, the document tree of `serde_json`.
#[verifier::external_type_specification]
#[verifier::external_body]
pub struct ExValue(serde_json::Value);

/// The tree that a `serde_json::Value` holds: node for node the same shape,
/// a number as the text that `serde_json` prints for it, the members of an
/// object in the order in which the value walks them.
pub uninterp spec fn value_tree(v: serde_json::Value) -> JsonValue;

/// The tree that `serde_json` reads from a JSON text, `None` where it
/// rejects the text.
pub uninterp spec fn parsed_json(text: Seq<char>) -> Option<JsonValue>;

/// The tree held by the `serde_json::Value` that is built from a tree: the
/// same tree, but that each number stands as `serde_json` reads and prints
/// it, null where it reads none, and that an object keeps one member for each
/// name.
pub uninterp spec fn encoded_json(tree: JsonValue) -> JsonValue;

/// The compact JSON text that `serde_json` prints for a tree held in a
/// `serde_json::Value`.
pub uninterp spec fn rendered_json(tree: JsonValue) -> Seq<char>;

/// `serde_json::from_str::<serde_json::Value>`: reads one JSON document from
/// the text. The result is the named reading of the text; nothing is
/// claimed of which texts are accepted.
#[verifier::external_body]
fn value_from_str(text: &str) -> (r: Option<serde_json::Value>)
    ensures
        match r {
            Some(v) => parsed_json(text@) == Some(value_tree(v)),
            None => parsed_json(text@) is None,
        },
{
    serde_json::from_str::<serde_json::Value>(text).ok()
}

/// Copies a `serde_json::Value` into a [`Json`], variant by variant;
/// `Number`'s `Display` gives the text of a number, `Map::iter` the members.
#[verifier::external_body]
fn json_of_value(v: &serde_json::Value) -> (j: Json)
    ensures
        j@ == value_tree(*v),
{
    match v {
        serde_json::Value::Null => Json::Null,
        serde_json::Value::Bool(b) => Json::Bool(*b),
        serde_json::Value::Number(n) => Json::Number(n.to_string()),
        serde_json::Value::String(s) => Json::Text(s.clone()),
        serde_json::Value::Array(a) => Json::Array(a.iter().map(json_of_value).collect()),
        serde_json::Value::Object(m) => Json::Object(
            m.iter().map(|(k, x)| (k.clone(), json_of_value(x))).collect(),
        ),
    }
}

/// Builds a `serde_json::Value` from a [`Json`], variant by variant; the
/// text of a number is read by `serde_json::from_str`, the members of an
/// object are collected into a `serde_json::Map`.
#[verifier::external_body]
fn value_of_json(j: &Json) -> (v: serde_json::Value)
    ensures
        value_tree(v) == encoded_json(j@),
{
    match j {
        Json::Null => serde_json::Value::Null,
        Json::Bool(b) => serde_json::Value::Bool(*b),
        Json::Number(n) => serde_json::from_str(n).unwrap_or(serde_json::Value::Null),
        Json::Text(s) => serde_json::Value::String(s.clone()),
        Json::Array(a) => serde_json::Value::Array(a.iter().map(value_of_json).collect()),
        Json::Object(m) => serde_json::Value::Object(
            m.iter().map(|(k, x)| (k.clone(), value_of_json(x))).collect(),
        ),
    }
}

/// `serde_json::to_string` on a `serde_json::Value`: the compact JSON text
/// of the value, which depends on the held tree alone.
#[verifier::external_body]
fn text_of_value(v: &serde_json::Value) -> (s: String)
    ensures
        s@ == rendered_json(value_tree(*v)),
{
    serde_json::to_string(v).unwrap_or_default()
}

/// Reads a JSON text into a tree.
pub fn parse_json(text: &str) -> (r: Option<Json>)
    ensures
        match r {
            Some(j) => parsed_json(text@) == Some(j@),
            None => parsed_json(text@) is None,
        },
{
    match value_from_str(text) {
        Some(v) => Some(json_of_value(&v)),
        None => None,
    }
}

/// Prints a tree as compact JSON text.
pub fn render_json(j: &Json) -> (s: String)
    ensures
        s@ == rendered_json(encoded_json(j@)),
{
    let v = value_of_json(j);
    text_of_value(&v)
}

} // verus!
