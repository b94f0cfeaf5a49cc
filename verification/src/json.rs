//! JSON values: what they say, and how they are built.
use vstd::prelude::*;

use crate::text;

verus! {

/// What a JSON value says.
pub enum Shape {
    Null,
    Bool(bool),
    Number(nat),
    Text(Seq<char>),
    List(Seq<Shape>),
    Object(Map<Seq<char>, Shape>),
}

/// The object with the given fields; of two fields with one name the later one counts.
pub open spec fn fields_map(fields: Seq<(Seq<char>, Shape)>) -> Map<Seq<char>, Shape>
    decreases fields.len(),
{
    if fields.len() == 0 {
        Map::empty()
    } else {
        fields_map(fields.drop_last()).insert(fields.last().0, fields.last().1)
    }
}

/// The object with the given fields.
pub open spec fn object_of(fields: Seq<(Seq<char>, Shape)>) -> Shape {
    Shape::Object(fields_map(fields))
}

/// A text where there is one, else null.
pub open spec fn text_or_null(o: Option<Seq<char>>) -> Shape {
    match o {
        Some(s) => Shape::Text(s),
        None => Shape::Null,
    }
}

/// A list of texts.
pub open spec fn list_of_texts(items: Seq<Seq<char>>) -> Shape {
    Shape::List(items.map_values(|s: Seq<char>| Shape::Text(s)))
}

/// `serde_json::Value`, carried as it is.
#[verifier::external_type_specification]
#[verifier::external_body]
pub struct ExValue(serde_json::Value);

/// What a `serde_json::Value` holds.
pub uninterp spec fn shape(v: serde_json::Value) -> Shape;

/// What each of the values holds.
pub open spec fn shapes(items: Seq<serde_json::Value>) -> Seq<Shape> {
    items.map_values(|v: serde_json::Value| shape(v))
}

/// What each of the named values holds.
pub open spec fn field_shapes(fields: Seq<(&str, serde_json::Value)>) -> Seq<(Seq<char>, Shape)> {
    fields.map_values(|f: (&str, serde_json::Value)| (f.0@, shape(f.1)))
}

/// `serde_json::Map`, the collection that a JSON object is held in.
#[verifier::external_type_specification]
#[verifier::external_body]
#[verifier::reject_recursive_types(K)]
#[verifier::reject_recursive_types(V)]
pub struct ExMap<K, V>(serde_json::Map<K, V>);

/// What a `serde_json::Map` holds: each name with what its value holds.
pub uninterp spec fn entries(m: serde_json::Map<String, serde_json::Value>) -> Map<Seq<char>, Shape>;

/// The variant `serde_json::Value::Null`.
#[verifier::external_body]
pub(crate) fn null() -> (v: serde_json::Value)
    ensures
        shape(v) == Shape::Null,
{
    serde_json::Value::Null
}

/// The variant `serde_json::Value::Bool`.
#[verifier::external_body]
pub(crate) fn flag(b: bool) -> (v: serde_json::Value)
    ensures
        shape(v) == Shape::Bool(b),
{
    serde_json::Value::Bool(b)
}

/// `serde_json::Value::from` on a `usize` gives the number itself.
#[verifier::external_body]
pub(crate) fn count(n: usize) -> (v: serde_json::Value)
    ensures
        shape(v) == Shape::Number(n as nat),
{
    serde_json::Value::from(n)
}

/// The variant `serde_json::Value::String`, holding the given text.
#[verifier::external_body]
pub(crate) fn text(s: &str) -> (v: serde_json::Value)
    ensures
        shape(v) == Shape::Text(s@),
{
    serde_json::Value::String(s.to_string())
}

/// The variant `serde_json::Value::Array`, holding the given values in their order.
#[verifier::external_body]
pub(crate) fn list(items: Vec<serde_json::Value>) -> (v: serde_json::Value)
    ensures
        shape(v) == Shape::List(shapes(items@)),
{
    serde_json::Value::Array(items)
}

/// `serde_json::Map::new` gives a map that holds nothing.
#[verifier::external_body]
fn no_entries() -> (m: serde_json::Map<String, serde_json::Value>)
    ensures
        entries(m) == fields_map(Seq::empty()),
{
    serde_json::Map::new()
}

/// `serde_json::Map::insert` adds the value under its name, in place of the one that was there, and
/// leaves the others as they are.
#[verifier::external_body]
fn insert_entry(m: &mut serde_json::Map<String, serde_json::Value>, name: &str, v: serde_json::Value)
    ensures
        entries(*final(m)) == entries(*old(m)).insert(name@, shape(v)),
{
    m.insert(name.to_string(), v);
}

/// The variant `serde_json::Value::Object`, holding the given map.
#[verifier::external_body]
fn object_with(m: serde_json::Map<String, serde_json::Value>) -> (v: serde_json::Value)
    ensures
        shape(v) == Shape::Object(entries(m)),
{
    serde_json::Value::Object(m)
}

/// The object with the given fields.
pub(crate) fn object(fields: Vec<(&str, serde_json::Value)>) -> (v: serde_json::Value)
    ensures
        shape(v) == object_of(field_shapes(fields@)),
{
    let ghost all = field_shapes(fields@);
    let ghost given = fields@;
    let mut rest = fields;
    let mut m = no_entries();
    let ghost mut k: int = 0;
    proof {
        assert(all.take(0) =~= Seq::empty());
        assert(given.skip(0) =~= given);
    }
    while rest.len() > 0
        invariant
            all == field_shapes(given),
            0 <= k <= given.len(),
            rest@ == given.skip(k),
            entries(m) == fields_map(all.take(k)),
        decreases rest.len(),
    {
        let (name, value) = rest.remove(0);
        proof {
            assert(all[k] == (name@, shape(value)));
            assert(all.take(k + 1).drop_last() =~= all.take(k));
            assert(rest@ =~= given.skip(k + 1));
            k = k + 1;
        }
        insert_entry(&mut m, name, value);
    }
    proof {
        assert(all.take(k) =~= all);
    }
    object_with(m)
}

/// The text, or null.
pub(crate) fn optional_text(o: &Option<String>) -> (v: serde_json::Value)
    ensures
        shape(v) == text_or_null(text::opt_text(*o)),
{
    match o {
        Some(s) => text(s.as_str()),
        None => null(),
    }
}

/// The list of the given texts.
pub(crate) fn text_list(items: &Vec<String>) -> (v: serde_json::Value)
    ensures
        shape(v) == list_of_texts(text::texts(items@)),
{
    let n: usize = items.len();
    let mut out: Vec<serde_json::Value> = Vec::new();
    let mut i: usize = 0;
    while i < n
        invariant
            n == items@.len(),
            i <= n,
            out@.len() == i,
            forall|k: int| 0 <= k < i ==> shape(#[trigger] out@[k]) == Shape::Text(items@[k]@),
        decreases n - i,
    {
        out.push(text(items[i].as_str()));
        i += 1;
    }
    proof {
        assert(shapes(out@) =~= text::texts(items@).map_values(|s: Seq<char>| Shape::Text(s)));
    }
    list(out)
}

/// What an object holds under a name, where it holds anything.
pub open spec fn field(s: Shape, name: Seq<char>) -> Option<Shape> {
    match s {
        Shape::Object(m) => if m.dom().contains(name) {
            Some(m[name])
        } else {
            None
        },
        _ => None,
    }
}

/// A field that is added to an object is held under its name, in place of one that was there, and
/// leaves the others alone; an object without fields holds nothing.
pub proof fn added_field_is_held(
    fields: Seq<(Seq<char>, Shape)>,
    name: Seq<char>,
    v: Shape,
    other: Seq<char>,
)
    ensures
        field(object_of(fields.push((name, v))), name) == Some(v),
        other != name ==> field(object_of(fields.push((name, v))), other) == field(
            object_of(fields),
            other,
        ),
        field(object_of(Seq::empty()), other) is None,
{
    assert(fields.push((name, v)).drop_last() =~= fields);
}

/// An object holds each of its fields that no later one of the same name replaces.
pub proof fn field_is_held(fields: Seq<(Seq<char>, Shape)>, i: int)
    requires
        0 <= i < fields.len(),
        forall|j: int| i < j < fields.len() ==> (#[trigger] fields[j]).0 != fields[i].0,
    ensures
        field(object_of(fields), fields[i].0) == Some(fields[i].1),
    decreases fields.len(),
{
    let t = fields.drop_last();
    let n = fields.len() - 1;
    assert(t.push(fields.last()) =~= fields);
    assert(fields.last() == (fields.last().0, fields.last().1));
    if i < n {
        assert(fields[n].0 != fields[i].0);
        assert forall|j: int| i < j < t.len() implies (#[trigger] t[j]).0 != t[i].0 by {
            assert(fields[j] == t[j]);
            assert(fields[i] == t[i]);
        }
        field_is_held(t, i);
        added_field_is_held(t, fields.last().0, fields.last().1, fields[i].0);
    } else {
        added_field_is_held(t, fields.last().0, fields.last().1, fields[i].0);
    }
}

/// A list of texts holds each text in its place; a text that is not there is null.
pub proof fn texts_are_listed_in_order(items: Seq<Seq<char>>, i: int, s: Seq<char>)
    ensures
        list_of_texts(items) matches Shape::List(l) && l.len() == items.len() && (0 <= i < items.len()
            ==> l[i] == Shape::Text(items[i])),
        text_or_null(Some(s)) == Shape::Text(s),
        text_or_null(None) == Shape::Null,
{
}

} // verus!
