//! JSON documents, as far as the service's replies are read.

use vstd::prelude::*;
use crate::text::{chars_of, same};

verus! {

/// The parsed documents of serde_json.
#[verifier::external_type_specification]
#[verifier::external_body]
pub struct ExValue(serde_json::Value);

/// A JSON document. Of a number only its value as a `u64` is kept, if it is one.
pub enum Json {
    Null,
    Bool(bool),
    Number(Option<u64>),
    Text(String),
    Array(Vec<Json>),
    Object(Vec<(String, Json)>),
}

/// What a JSON document holds.
pub enum Tree {
    Null,
    Bool(bool),
    Number(Option<u64>),
    Text(Seq<char>),
    Array(Seq<Tree>),
    Object(Seq<(Seq<char>, Tree)>),
}

/// The value of the first of some fields with a given name.
pub open spec fn field_of(fields: Seq<(Seq<char>, Tree)>, key: Seq<char>) -> Option<Tree>
    decreases fields.len(),
{
    if fields.len() == 0 {
        None
    } else if fields.first().0 == key {
        Some(fields.first().1)
    } else {
        field_of(fields.drop_first(), key)
    }
}

impl Tree {
    /// The field of an object; nothing else has fields.
    pub open spec fn field(self, key: Seq<char>) -> Option<Tree> {
        match self {
            Tree::Object(fields) => field_of(fields, key),
            _ => None,
        }
    }

    /// The text of a string.
    pub open spec fn as_text(self) -> Option<Seq<char>> {
        match self {
            Tree::Text(s) => Some(s),
            _ => None,
        }
    }

    /// The value of a number that is a `u64`.
    pub open spec fn as_number(self) -> Option<u64> {
        match self {
            Tree::Number(n) => n,
            _ => None,
        }
    }

    /// The items of an array; nothing else has items.
    pub open spec fn items(self) -> Seq<Tree> {
        match self {
            Tree::Array(items) => items,
            _ => Seq::empty(),
        }
    }
}

impl Json {
    /// What the document holds.
    pub open spec fn tree(self) -> Tree
        decreases self,
    {
        match self {
            Json::Null => Tree::Null,
            Json::Bool(b) => Tree::Bool(b),
            Json::Number(n) => Tree::Number(n),
            Json::Text(s) => Tree::Text(s@),
            Json::Array(items) => Tree::Array(
                Seq::new(
                    items@.len(),
                    |i: int|
                        if 0 <= i < items@.len() {
                            items@[i].tree()
                        } else {
                            Tree::Null
                        },
                ),
            ),
            Json::Object(fields) => Tree::Object(
                Seq::new(
                    fields@.len(),
                    |i: int|
                        if 0 <= i < fields@.len() {
                            (fields@[i].0@, fields@[i].1.tree())
                        } else {
                            (Seq::empty(), Tree::Null)
                        },
                ),
            ),
        }
    }

    /// The field of an object.
    pub fn get(&self, key: &str) -> (r: Option<&Json>)
        ensures
            match r {
                Some(j) => self.tree().field(key@) == Some(j.tree()),
                None => self.tree().field(key@) is None,
            },
    {
        match self {
            Json::Object(fields) => {
                let ghost all = self.tree()->Object_0;
                let mut i: usize = 0;
                assert(all.skip(0) =~= all);
                while i < fields.len()
                    invariant
                        i <= fields@.len(),
                        self.tree() == Tree::Object(all),
                        all.len() == fields@.len(),
                        forall|k: int|
                            0 <= k < all.len() ==> #[trigger] all[k] == (
                                fields@[k].0@,
                                fields@[k].1.tree(),
                            ),
                        field_of(all, key@) == field_of(all.skip(i as int), key@),
                    decreases fields@.len() - i,
                {
                    assert(all.skip(i as int).first() == all[i as int]);
                    if same(&chars_of(fields[i].0.as_str()), key) {
                        return Some(&fields[i].1);
                    }
                    assert(all.skip(i as int).drop_first() =~= all.skip(i + 1));
                    i += 1;
                }
                None
            },
            _ => None,
        }
    }

    /// The text of a string.
    pub fn as_str(&self) -> (r: Option<&str>)
        ensures
            match r {
                Some(s) => self.tree().as_text() == Some(s@),
                None => self.tree().as_text() is None,
            },
    {
        match self {
            Json::Text(s) => Some(s.as_str()),
            _ => None,
        }
    }

    /// The value of a number that is a `u64`.
    pub fn as_u64(&self) -> (r: Option<u64>)
        ensures
            r == self.tree().as_number(),
    {
        match self {
            Json::Number(n) => *n,
            _ => None,
        }
    }

    /// How many items an array has.
    pub fn len(&self) -> (r: usize)
        ensures
            r == self.tree().items().len(),
    {
        match self {
            Json::Array(items) => items.len(),
            _ => 0,
        }
    }

    /// One of the items of an array.
    pub fn item(&self, i: usize) -> (r: &Json)
        requires
            i < self.tree().items().len(),
        ensures
            r.tree() == self.tree().items()[i as int],
    {
        match self {
            Json::Array(items) => &items[i],
            _ => self,
        }
    }
}

/// What a value of serde_json holds.
pub uninterp spec fn value_tree(v: serde_json::Value) -> Tree;

/// What serde_json reads in a text; nothing if it is no JSON document.
pub uninterp spec fn json_tree(text: Seq<char>) -> Option<Tree>;

/// The top of a value of serde_json.
enum Shape<'a> {
    Null,
    Bool(bool),
    Number(Option<u64>),
    Text(&'a str),
    Array(Vec<&'a serde_json::Value>),
    Object(Vec<(&'a str, &'a serde_json::Value)>),
}

impl<'a> Shape<'a> {
    /// What a value with this top holds.
    spec fn tree(self) -> Tree {
        match self {
            Shape::Null => Tree::Null,
            Shape::Bool(b) => Tree::Bool(b),
            Shape::Number(n) => Tree::Number(n),
            Shape::Text(s) => Tree::Text(s@),
            Shape::Array(items) => Tree::Array(
                items@.map_values(|v: &serde_json::Value| value_tree(*v)),
            ),
            Shape::Object(fields) => Tree::Object(
                fields@.map_values(|f: (&str, &serde_json::Value)| (f.0@, value_tree(*f.1))),
            ),
        }
    }
}

/// `serde_json::from_str`: the document that a text holds, or none where the
/// text is no JSON document. What is read in a text depends on the text alone.
#[verifier::external_body]
fn parse_value(text: &str) -> (r: Option<serde_json::Value>)
    ensures
        match r {
            Some(v) => json_tree(text@) == Some(value_tree(v)),
            None => json_tree(text@) is None,
        },
{
    serde_json::from_str::<serde_json::Value>(text).ok()
}

/// The variant of a `serde_json::Value` and its parts; of a number,
/// `serde_json::Number::as_u64`.
#[verifier::external_body]
fn open_value<'a>(v: &'a serde_json::Value) -> (r: Shape<'a>)
    ensures
        r.tree() == value_tree(*v),
{
    match v {
        serde_json::Value::Null => Shape::Null,
        serde_json::Value::Bool(b) => Shape::Bool(*b),
        serde_json::Value::Number(n) => Shape::Number(n.as_u64()),
        serde_json::Value::String(s) => Shape::Text(s.as_str()),
        serde_json::Value::Array(items) => Shape::Array(items.iter().collect()),
        serde_json::Value::Object(fields) => Shape::Object(
            fields.iter().map(|f| (f.0.as_str(), f.1)).collect(),
        ),
    }
}

/// The document that a value of serde_json holds.
fn document(v: &serde_json::Value) -> (r: Json)
    ensures
        r.tree() == value_tree(*v),
    decreases value_tree(*v),
{
    match open_value(v) {
        Shape::Null => Json::Null,
        Shape::Bool(b) => Json::Bool(b),
        Shape::Number(n) => Json::Number(n),
        Shape::Text(s) => Json::Text(s.to_owned()),
        Shape::Array(items) => {
            let ghost all = items@.map_values(|v: &serde_json::Value| value_tree(*v));
            let mut out: Vec<Json> = Vec::new();
            let mut i: usize = 0;
            while i < items.len()
                invariant
                    i <= items@.len(),
                    out@.len() == i,
                    all == items@.map_values(|v: &serde_json::Value| value_tree(*v)),
                    value_tree(*v) == Tree::Array(all),
                    forall|k: int| 0 <= k < i ==> (#[trigger] out@[k]).tree() == all[k],
                decreases items@.len() - i,
            {
                assert(all[i as int] == value_tree(*items@[i as int]));
                assert(decreases_to!(value_tree(*v) => value_tree(*v)->Array_0[i as int]));
                out.push(document(items[i]));
                i += 1;
            }
            let r = Json::Array(out);
            assert(r.tree()->Array_0 =~= all);
            r
        },
        Shape::Object(fields) => {
            let ghost all = fields@.map_values(
                |f: (&str, &serde_json::Value)| (f.0@, value_tree(*f.1)),
            );
            let mut out: Vec<(String, Json)> = Vec::new();
            let mut i: usize = 0;
            while i < fields.len()
                invariant
                    i <= fields@.len(),
                    out@.len() == i,
                    all == fields@.map_values(
                        |f: (&str, &serde_json::Value)| (f.0@, value_tree(*f.1)),
                    ),
                    value_tree(*v) == Tree::Object(all),
                    forall|k: int|
                        0 <= k < i ==> ((#[trigger] out@[k]).0@, out@[k].1.tree()) == all[k],
                decreases fields@.len() - i,
            {
                assert(all[i as int].1 == value_tree(*fields@[i as int].1));
                assert(decreases_to!(value_tree(*v) => value_tree(*v)->Object_0[i as int].1));
                out.push((fields[i].0.to_owned(), document(fields[i].1)));
                i += 1;
            }
            let r = Json::Object(out);
            assert(r.tree()->Object_0 =~= all);
            r
        },
    }
}

/// Reads a JSON document.
pub fn parse(text: &str) -> (r: Option<Json>)
    ensures
        match r {
            Some(j) => json_tree(text@) == Some(j.tree()),
            None => json_tree(text@) is None,
        },
{
    match parse_value(text) {
        Some(v) => Some(document(&v)),
        None => None,
    }
}

} // verus!
