//! JSON text and `serde_json` values, and what they have to do with this crate's values.
use vstd::prelude::*;

use crate::json::{
    json_entries, json_items, lemma_entries_pushed, lemma_items_pushed, Json, JsonNumber,
    JsonObject, JsonValue, Num, Obj,
};
use crate::number::{in_floating_point, FiniteFloat};
use crate::text::str_eq;

verus! {

#[verifier::external_type_specification]
#[verifier::external_body]
pub struct ExValue(serde_json::Value);

/// What a `serde_json` value holds.
pub uninterp spec fn contents(v: serde_json::Value) -> Json;

/// What the JSON text `text` says, where `serde_json` takes it.
pub uninterp spec fn parsed(text: Seq<char>) -> Option<Json>;

/// The compact JSON text that `serde_json` writes for `v`.
pub uninterp spec fn rendered(v: Json) -> Seq<char>;

/// How deep `serde_json` lets arrays and objects nest in a text.
pub open spec fn max_nesting() -> nat {
    127
}

/// Whether `v` has no number in floating point and no more than `depth` arrays and
/// objects inside one another.
pub open spec fn exact(v: Json, depth: nat) -> bool
    decreases depth,
{
    match v {
        Json::Number(Num::Float(_)) => false,
        Json::Array(items) => depth > 0 && forall|i: int|
            0 <= i < items.len() ==> exact(#[trigger] items[i], (depth - 1) as nat),
        Json::Object(o) => depth > 0 && forall|k: Seq<char>| #[trigger]
            o.contains_key(k) ==> exact(o[k], (depth - 1) as nat),
        _ => true,
    }
}

/// Whether the text of `v` parses back to `v`, as it does wherever `v` is exact.
pub open spec fn reads_back(v: Json) -> bool {
    exact(v, max_nesting()) ==> parsed(rendered(v)) == Some(v)
}

/// One level of a `serde_json` value.
pub enum Node {
    Null,
    Bool(bool),
    Unsigned(u64),
    Signed(i64),
    Float(serde_json::Number),
    String(String),
    Array(Vec<serde_json::Value>),
    Object(Vec<(String, serde_json::Value)>),
}

/// What `pairs` hold, where the last pair of a name counts.
pub open spec fn pairs_contents(pairs: Seq<(String, serde_json::Value)>) -> Obj
    decreases pairs.len(),
{
    if pairs.len() == 0 {
        Map::empty()
    } else {
        pairs_contents(pairs.drop_last()).insert(pairs.last().0@, contents(pairs.last().1))
    }
}

/// Whether no name stands twice among `pairs`.
pub open spec fn names_differ(pairs: Seq<(String, serde_json::Value)>) -> bool {
    forall|i: int, j: int|
        0 <= i < j < pairs.len() ==> (#[trigger] pairs[i]).0@ != (#[trigger] pairs[j]).0@
}

/// What the values in `items` hold.
pub open spec fn items_contents(items: Seq<serde_json::Value>) -> Seq<Json> {
    items.map_values(|v: serde_json::Value| contents(v))
}

/// What one level and the values below it hold.
pub open spec fn node_contents(node: Node) -> Json {
    match node {
        Node::Null => Json::Null,
        Node::Bool(b) => Json::Bool(b),
        Node::Unsigned(n) => Json::Number(Num::Int(n as int)),
        Node::Signed(n) => Json::Number(Num::Int(n as int)),
        Node::Float(x) => Json::Number(Num::Float(x)),
        Node::String(s) => Json::String(s@),
        Node::Array(items) => Json::Array(items_contents(items@)),
        Node::Object(pairs) => Json::Object(pairs_contents(pairs@)),
    }
}

/// Builds a `serde_json::Value` from its variant's fields. An integer becomes a number by
/// `From`, a list of pairs in which no name stands twice an object by `FromIterator`.
#[verifier::external_body]
fn assemble(node: Node) -> (v: serde_json::Value)
    requires
        node matches Node::Float(x) ==> in_floating_point(x),
        node matches Node::Object(pairs) ==> names_differ(pairs@),
    ensures
        contents(v) == node_contents(node),
{
    match node {
        Node::Null => serde_json::Value::Null,
        Node::Bool(b) => serde_json::Value::Bool(b),
        Node::Unsigned(n) => serde_json::Value::from(n),
        Node::Signed(n) => serde_json::Value::from(n),
        Node::Float(x) => serde_json::Value::Number(x),
        Node::String(s) => serde_json::Value::String(s),
        Node::Array(items) => serde_json::Value::Array(items),
        Node::Object(pairs) => serde_json::Value::Object(pairs.into_iter().collect()),
    }
}

/// Takes a `serde_json::Value` apart into its variant's fields. A number that neither
/// `Number::as_u64` nor `Number::as_i64` reads is held in floating point. The fields of an
/// object come as a list in which no name stands twice.
#[verifier::external_body]
fn dismantle(v: serde_json::Value) -> (node: Node)
    ensures
        node_contents(node) == contents(v),
        node matches Node::Float(x) ==> in_floating_point(x),
        node matches Node::Object(pairs) ==> names_differ(pairs@),
{
    match v {
        serde_json::Value::Null => Node::Null,
        serde_json::Value::Bool(b) => Node::Bool(b),
        serde_json::Value::Number(n) => match (n.as_u64(), n.as_i64()) {
            (Some(k), _) => Node::Unsigned(k),
            (None, Some(k)) => Node::Signed(k),
            (None, None) => Node::Float(n),
        },
        serde_json::Value::String(s) => Node::String(s),
        serde_json::Value::Array(items) => Node::Array(items),
        serde_json::Value::Object(map) => Node::Object(map.into_iter().collect()),
    }
}

/// Calls `serde_json::from_str`. The result is named: it is a value exactly where the
/// text is JSON that the parser takes.
#[verifier::external_body]
fn parse_value(text: &str) -> (v: Option<serde_json::Value>)
    ensures
        v is Some <==> parsed(text@) is Some,
        v matches Some(x) ==> parsed(text@) == Some(contents(x)),
{
    serde_json::from_str(text).ok()
}

/// Calls `to_string` on a `serde_json::Value`. The text is named. It parses back to the
/// same value where that has no number in floating point (which the parser may round
/// differently) and does not nest deeper than the parser follows.
#[verifier::external_body]
fn render_value(v: &serde_json::Value) -> (text: String)
    ensures
        text@ == rendered(contents(*v)),
        exact(contents(*v), max_nesting()) ==> parsed(text@) == Some(contents(*v)),
{
    v.to_string()
}

proof fn lemma_pairs_last(pairs: Seq<(String, serde_json::Value)>, i: int)
    requires
        0 <= i < pairs.len(),
        names_differ(pairs),
    ensures
        pairs_contents(pairs).contains_key(pairs[i].0@),
        pairs_contents(pairs)[pairs[i].0@] == contents(pairs[i].1),
    decreases pairs.len(),
{
    let front = pairs.drop_last();
    if i < front.len() {
        assert(pairs[i].0@ != pairs[front.len() as int].0@);
        assert forall|a: int, b: int| 0 <= a < b < front.len() implies (#[trigger] front[a]).0@ != (
        #[trigger] front[b]).0@ by {
            assert(front[a] == pairs[a]);
            assert(front[b] == pairs[b]);
        }
        lemma_pairs_last(front, i);
    }
}

proof fn lemma_pairs_finite(pairs: Seq<(String, serde_json::Value)>)
    ensures
        pairs_contents(pairs).dom().finite(),
    decreases pairs.len(),
{
    if pairs.len() > 0 {
        lemma_pairs_finite(pairs.drop_last());
    }
}

proof fn lemma_pairs_pushed(
    pairs: Seq<(String, serde_json::Value)>,
    pair: (String, serde_json::Value),
)
    ensures
        pairs_contents(pairs.push(pair)) == pairs_contents(pairs).insert(
            pair.0@,
            contents(pair.1),
        ),
{
    assert(pairs.push(pair).drop_last() =~= pairs);
}

proof fn lemma_pairs_removed(pairs: Seq<(String, serde_json::Value)>, i: int)
    requires
        0 <= i < pairs.len(),
    ensures
        pairs_contents(pairs.remove(i)).remove(pairs[i].0@) == pairs_contents(pairs).remove(
            pairs[i].0@,
        ),
    decreases pairs.len(),
{
    let name = pairs[i].0@;
    let rest = pairs.remove(i);
    if i == pairs.len() - 1 {
        assert(rest =~= pairs.drop_last());
    } else {
        assert(rest.drop_last() =~= pairs.drop_last().remove(i));
        lemma_pairs_removed(pairs.drop_last(), i);
        assert(pairs.drop_last()[i] == pairs[i]);
        assert(rest.last() == pairs.last());
        let a = pairs_contents(rest.drop_last());
        let b = pairs_contents(pairs.drop_last());
        assert forall|k: Seq<char>| k != name implies #[trigger] a.contains_key(k)
            == b.contains_key(k) && (a.contains_key(k) ==> a[k] == b[k]) by {
            assert(a.remove(name).contains_key(k) == b.remove(name).contains_key(k));
            assert(a.remove(name)[k] == b.remove(name)[k]);
        }
    }
    assert(pairs_contents(rest).remove(name) =~= pairs_contents(pairs).remove(name));
}

/// Adds a pair and takes out the one that had its name.
fn put(pairs: &mut Vec<(String, serde_json::Value)>, pair: (String, serde_json::Value))
    requires
        names_differ(old(pairs)@),
    ensures
        names_differ(final(pairs)@),
        pairs_contents(final(pairs)@) == pairs_contents(old(pairs)@).insert(
            pair.0@,
            contents(pair.1),
        ),
{
    let mut i: usize = 0;
    while i < pairs.len()
        invariant
            i <= pairs@.len(),
            names_differ(pairs@),
            pairs_contents(pairs@).remove(pair.0@) == pairs_contents(old(pairs)@).remove(pair.0@),
            forall|j: int| 0 <= j < i ==> (#[trigger] pairs@[j]).0@ != pair.0@,
        decreases pairs@.len() - i,
    {
        if str_eq(pairs[i].0.as_str(), pair.0.as_str()) {
            proof {
                lemma_pairs_removed(pairs@, i as int);
            }
            let ghost before = pairs@;
            pairs.remove(i);
            assert(pairs@ =~= before.remove(i as int));
        } else {
            i += 1;
        }
    }
    proof {
        lemma_pairs_pushed(pairs@, pair);
        let a = pairs_contents(pairs@);
        let b = pairs_contents(old(pairs)@);
        assert(a.insert(pair.0@, contents(pair.1)) =~= a.remove(pair.0@).insert(
            pair.0@,
            contents(pair.1),
        ));
        assert(b.insert(pair.0@, contents(pair.1)) =~= b.remove(pair.0@).insert(
            pair.0@,
            contents(pair.1),
        ));
    }
    pairs.push(pair);
}

/// Takes over a `serde_json` value.
pub fn from_serde(value: serde_json::Value) -> (v: JsonValue)
    ensures
        v@ == contents(value),
    decreases contents(value),
{
    match dismantle(value) {
        Node::Null => JsonValue::Null,
        Node::Bool(b) => JsonValue::Bool(b),
        Node::Unsigned(n) => JsonValue::Number(JsonNumber::Unsigned(n)),
        Node::Signed(n) => JsonValue::Number(JsonNumber::Signed(n)),
        Node::Float(n) => match FiniteFloat::new(n) {
            Some(x) => JsonValue::Number(JsonNumber::Float(x)),
            None => JsonValue::Null,
        },
        Node::String(s) => JsonValue::String(s),
        Node::Array(items) => {
            let ghost all = items@;
            let mut values: Vec<JsonValue> = Vec::new();
            for item in it: items
                invariant
                    it.seq() == all,
                    json_items(values@) == items_contents(all.take(it.index() as int)),
                    contents(value) == Json::Array(items_contents(all)),
            {
                let ghost i = it.index() as int;
                assert(items_contents(all)[i] == contents(item));
                assert(decreases_to!(contents(value) => contents(value)->Array_0));
                assert(decreases_to!(contents(value)->Array_0 => contents(value)->Array_0[i]));
                let v = from_serde(item);
                proof {
                    lemma_items_pushed(values@, v);
                    assert(all.take(i + 1) =~= all.take(i).push(all[i]));
                    assert(items_contents(all.take(i + 1)) =~= items_contents(all.take(i)).push(
                        contents(all[i]),
                    ));
                }
                values.push(v);
            }
            assert(all.take(all.len() as int) =~= all);
            JsonValue::Array(values)
        },
        Node::Object(pairs) => {
            let ghost all = pairs@;
            let mut entries: Vec<(String, JsonValue)> = Vec::new();
            for pair in it: pairs
                invariant
                    it.seq() == all,
                    json_entries(entries@) == pairs_contents(all.take(it.index() as int)),
                    contents(value) == Json::Object(pairs_contents(all)),
                    names_differ(all),
            {
                let ghost i = it.index() as int;
                proof {
                    lemma_pairs_last(all, i);
                    lemma_pairs_finite(all);
                    let key = all[i].0@;
                    let fields = contents(value)->Object_0;
                    assert(decreases_to!(contents(value) => contents(value)->Object_0));
                    assert(decreases_to!(fields => fields[key]));
                }
                let entry = (pair.0, from_serde(pair.1));
                proof {
                    lemma_entries_pushed(entries@, entry);
                    lemma_pairs_pushed(all.take(i), all[i]);
                    assert(all.take(i + 1) =~= all.take(i).push(all[i]));
                }
                entries.push(entry);
            }
            assert(all.take(all.len() as int) =~= all);
            JsonValue::Object(JsonObject { entries })
        },
    }
}

/// Gives the `serde_json` form of a value.
pub fn to_serde(v: &JsonValue) -> (value: serde_json::Value)
    ensures
        contents(value) == v@,
    decreases *v,
{
    match v {
        JsonValue::Null => assemble(Node::Null),
        JsonValue::Bool(b) => assemble(Node::Bool(*b)),
        JsonValue::Number(JsonNumber::Unsigned(n)) => assemble(Node::Unsigned(*n)),
        JsonValue::Number(JsonNumber::Signed(n)) => assemble(Node::Signed(*n)),
        JsonValue::Number(JsonNumber::Float(x)) => assemble(Node::Float(x.number())),
        JsonValue::String(s) => assemble(Node::String(s.clone())),
        JsonValue::Array(items) => {
            let mut values: Vec<serde_json::Value> = Vec::new();
            let mut i: usize = 0;
            while i < items.len()
                invariant
                    i <= items@.len(),
                    items_contents(values@) == json_items(items@.take(i as int)),
                    decreases_to!(*v => items),
                decreases items@.len() - i,
            {
                let value = to_serde(&items[i]);
                proof {
                    lemma_items_pushed(items@.take(i as int), items@[i as int]);
                    assert(items@.take(i + 1) =~= items@.take(i as int).push(items@[i as int]));
                    assert(items_contents(values@.push(value)) =~= items_contents(values@).push(
                        contents(value),
                    ));
                }
                values.push(value);
                i += 1;
            }
            assert(items@.take(i as int) =~= items@);
            assemble(Node::Array(values))
        },
        JsonValue::Object(o) => {
            let mut pairs: Vec<(String, serde_json::Value)> = Vec::new();
            let mut i: usize = 0;
            while i < o.entries.len()
                invariant
                    i <= o.entries@.len(),
                    names_differ(pairs@),
                    pairs_contents(pairs@) == json_entries(o.entries@.take(i as int)),
                    decreases_to!(*v => o.entries),
                decreases o.entries@.len() - i,
            {
                let pair = (o.entries[i].0.clone(), to_serde(&o.entries[i].1));
                proof {
                    let entry = o.entries@[i as int];
                    lemma_entries_pushed(o.entries@.take(i as int), entry);
                    assert(o.entries@.take(i + 1) =~= o.entries@.take(i as int).push(entry));
                }
                put(&mut pairs, pair);
                i += 1;
            }
            assert(o.entries@.take(i as int) =~= o.entries@);
            assemble(Node::Object(pairs))
        },
    }
}

/// Parses JSON text.
pub fn parse(text: &str) -> (v: Option<JsonValue>)
    ensures
        v is Some <==> parsed(text@) is Some,
        v matches Some(x) ==> parsed(text@) == Some(x@),
{
    match parse_value(text) {
        Some(value) => Some(from_serde(value)),
        None => None,
    }
}

/// Writes JSON text.
pub fn render(v: &JsonValue) -> (text: String)
    ensures
        text@ == rendered(v@),
        reads_back(v@),
{
    let value = to_serde(v);
    render_value(&value)
}

} // verus!
