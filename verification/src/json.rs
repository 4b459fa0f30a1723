//! JSON values: the executable representation, the mathematical value that it stands
//! for, and the reads and writes that the codec needs.
use vstd::prelude::*;

use crate::number::{nearest_float, FiniteFloat, Float};
use crate::text::{opt_str, opt_text, str_eq};

verus! {

/// What a JSON number stands for. A number with a fraction or an exponent is carried
/// as it is and never looked into.
pub enum Num {
    Int(int),
    Float(serde_json::Number),
}

/// What a JSON value stands for. An object has no order.
pub enum Json {
    Null,
    Bool(bool),
    Number(Num),
    String(Seq<char>),
    Array(Seq<Json>),
    Object(Map<Seq<char>, Json>),
}

/// What a JSON object stands for.
pub type Obj = Map<Seq<char>, Json>;

/// A JSON number.
#[derive(Debug)]
pub enum JsonNumber {
    Unsigned(u64),
    Signed(i64),
    Float(FiniteFloat),
}

/// A JSON object: its fields, where the last field of a name counts.
#[derive(Debug)]
pub struct JsonObject {
    pub entries: Vec<(String, JsonValue)>,
}

/// A JSON value.
#[derive(Debug)]
pub enum JsonValue {
    Null,
    Bool(bool),
    Number(JsonNumber),
    String(String),
    Array(Vec<JsonValue>),
    Object(JsonObject),
}

/// The number that `n` stands for.
pub open spec fn num(n: JsonNumber) -> Num {
    match n {
        JsonNumber::Unsigned(k) => Num::Int(k as int),
        JsonNumber::Signed(k) => Num::Int(k as int),
        JsonNumber::Float(x) => Num::Float(x@),
    }
}

/// The value that `v` stands for.
pub open spec fn json(v: JsonValue) -> Json
    decreases v,
{
    match v {
        JsonValue::Null => Json::Null,
        JsonValue::Bool(b) => Json::Bool(b),
        JsonValue::Number(n) => Json::Number(num(n)),
        JsonValue::String(s) => Json::String(s@),
        JsonValue::Array(items) => Json::Array(json_items(items@)),
        JsonValue::Object(o) => Json::Object(json_entries(o.entries@)),
    }
}

/// The values that `items` stand for, in order.
pub open spec fn json_items(items: Seq<JsonValue>) -> Seq<Json>
    decreases items,
{
    Seq::new(
        items.len(),
        |i: int|
            if 0 <= i < items.len() {
                json(items[i])
            } else {
                Json::Null
            },
    )
}

/// The object that `entries` stand for.
pub open spec fn json_entries(entries: Seq<(String, JsonValue)>) -> Obj
    decreases entries,
{
    if entries.len() == 0 {
        Map::empty()
    } else {
        json_entries(entries.drop_last()).insert(entries.last().0@, json(entries.last().1))
    }
}

impl View for JsonValue {
    type V = Json;

    open spec fn view(&self) -> Json {
        json(*self)
    }
}

impl View for JsonObject {
    type V = Obj;

    open spec fn view(&self) -> Obj {
        json_entries(self.entries@)
    }
}

/// The value behind an optional reference.
pub open spec fn opt_json(v: Option<&JsonValue>) -> Option<Json> {
    match v {
        Some(x) => Some(x@),
        None => None,
    }
}

/// The value in an option.
pub open spec fn opt_value(v: Option<JsonValue>) -> Option<Json> {
    match v {
        Some(x) => Some(x@),
        None => None,
    }
}

/// The object behind an optional reference.
pub open spec fn opt_obj(o: Option<&JsonObject>) -> Option<Obj> {
    match o {
        Some(x) => Some(x@),
        None => None,
    }
}

// What the reads of a JSON value give.

/// The field `key` of an object; nothing of any other value.
pub open spec fn field(v: Json, key: Seq<char>) -> Option<Json> {
    match v {
        Json::Object(o) => o.get(key),
        _ => None,
    }
}

/// The string, where `v` is one.
pub open spec fn string_in(v: Option<Json>) -> Option<Seq<char>> {
    match v {
        Some(Json::String(s)) => Some(s),
        _ => None,
    }
}

/// The items, where `v` is an array.
pub open spec fn array_in(v: Option<Json>) -> Option<Seq<Json>> {
    match v {
        Some(Json::Array(items)) => Some(items),
        _ => None,
    }
}

/// The fields, where `v` is an object.
pub open spec fn object_in(v: Option<Json>) -> Option<Obj> {
    match v {
        Some(Json::Object(o)) => Some(o),
        _ => None,
    }
}

/// The truth value, where `v` is one.
pub open spec fn bool_in(v: Option<Json>) -> Option<bool> {
    match v {
        Some(Json::Bool(b)) => Some(b),
        _ => None,
    }
}

/// The number, where `v` is an integer that fits in `u64`.
pub open spec fn u64_in(v: Option<Json>) -> Option<u64> {
    match v {
        Some(Json::Number(Num::Int(n))) => if 0 <= n <= u64::MAX {
            Some(n as u64)
        } else {
            None
        },
        _ => None,
    }
}

/// The number, where `v` is an integer that fits in `i64`.
pub open spec fn i64_in(v: Option<Json>) -> Option<i64> {
    match v {
        Some(Json::Number(Num::Int(n))) => if i64::MIN <= n <= i64::MAX {
            Some(n as i64)
        } else {
            None
        },
        _ => None,
    }
}

/// The floating-point number, where `v` is a number.
pub open spec fn float_in(v: Option<Json>) -> Option<serde_json::Number> {
    match v {
        Some(Json::Number(Num::Int(n))) => Some(nearest_float(n)),
        Some(Json::Number(Num::Float(x))) => Some(x),
        _ => None,
    }
}

/// The JSON form of a floating-point number: `null` where it is not finite.
pub open spec fn float_json(x: Option<serde_json::Number>) -> Json {
    match x {
        Some(n) => Json::Number(Num::Float(n)),
        None => Json::Null,
    }
}

/// The JSON form of an integer.
pub open spec fn int_json(n: int) -> Json {
    Json::Number(Num::Int(n))
}

// Facts on the fields of an object.

proof fn lemma_entries_absent(entries: Seq<(String, JsonValue)>, key: Seq<char>)
    requires
        forall|i: int| 0 <= i < entries.len() ==> (#[trigger] entries[i]).0@ != key,
    ensures
        !json_entries(entries).contains_key(key),
    decreases entries.len(),
{
    if entries.len() > 0 {
        assert(entries[entries.len() - 1].0@ != key);
        assert forall|i: int| 0 <= i < entries.drop_last().len() implies (
        #[trigger] entries.drop_last()[i]).0@ != key by {
            assert(entries.drop_last()[i] == entries[i]);
        }
        lemma_entries_absent(entries.drop_last(), key);
    }
}

proof fn lemma_entries_last(entries: Seq<(String, JsonValue)>, i: int)
    requires
        0 <= i < entries.len(),
        forall|j: int| i < j < entries.len() ==> (#[trigger] entries[j]).0@ != entries[i].0@,
    ensures
        json_entries(entries).contains_key(entries[i].0@),
        json_entries(entries)[entries[i].0@] == entries[i].1@,
    decreases entries.len(),
{
    if i < entries.len() - 1 {
        assert(entries[entries.len() - 1].0@ != entries[i].0@);
        assert forall|j: int| i < j < entries.drop_last().len() implies (
        #[trigger] entries.drop_last()[j]).0@ != entries.drop_last()[i].0@ by {
            assert(entries.drop_last()[j] == entries[j]);
        }
        lemma_entries_last(entries.drop_last(), i);
    }
}

proof fn lemma_entries_removed(entries: Seq<(String, JsonValue)>, i: int)
    requires
        0 <= i < entries.len(),
    ensures
        json_entries(entries.remove(i)).remove(entries[i].0@) == json_entries(entries).remove(
            entries[i].0@,
        ),
    decreases entries.len(),
{
    let key = entries[i].0@;
    let rest = entries.remove(i);
    if i == entries.len() - 1 {
        assert(rest =~= entries.drop_last());
    } else {
        assert(rest.drop_last() =~= entries.drop_last().remove(i));
        lemma_entries_removed(entries.drop_last(), i);
        assert(entries.drop_last()[i] == entries[i]);
        assert(rest.last() == entries.last());
        let a = json_entries(rest.drop_last());
        let b = json_entries(entries.drop_last());
        assert forall|k: Seq<char>| k != key implies #[trigger] a.contains_key(k)
            == b.contains_key(k) && (a.contains_key(k) ==> a[k] == b[k]) by {
            assert(a.remove(key).contains_key(k) == b.remove(key).contains_key(k));
            assert(a.remove(key)[k] == b.remove(key)[k]);
        }
    }
    assert(json_entries(rest).remove(key) =~= json_entries(entries).remove(key));
}

pub proof fn lemma_entries_pushed(entries: Seq<(String, JsonValue)>, entry: (String, JsonValue))
    ensures
        json_entries(entries.push(entry)) == json_entries(entries).insert(entry.0@, entry.1@),
{
    assert(entries.push(entry).drop_last() =~= entries);
}

pub proof fn lemma_items_pushed(items: Seq<JsonValue>, item: JsonValue)
    ensures
        json_items(items.push(item)) == json_items(items).push(item@),
{
    assert(json_items(items.push(item)) =~= json_items(items).push(item@));
}

impl JsonObject {
    /// An object without fields.
    pub fn new() -> (o: Self)
        ensures
            o@ == Map::<Seq<char>, Json>::empty(),
    {
        JsonObject { entries: Vec::new() }
    }

    /// The value of the field `key`.
    pub fn get(&self, key: &str) -> (v: Option<&JsonValue>)
        ensures
            opt_json(v) == self@.get(key@),
    {
        let mut i: usize = self.entries.len();
        while i > 0
            invariant
                i <= self.entries@.len(),
                forall|j: int|
                    i <= j < self.entries@.len() ==> (#[trigger] self.entries@[j]).0@ != key@,
            decreases i,
        {
            i -= 1;
            if str_eq(self.entries[i].0.as_str(), key) {
                proof {
                    lemma_entries_last(self.entries@, i as int);
                }
                return Some(&self.entries[i].1);
            }
        }
        proof {
            lemma_entries_absent(self.entries@, key@);
        }
        None
    }

    /// Whether the object has no field.
    pub fn is_empty(&self) -> (empty: bool)
        ensures
            empty == (self@ == Map::<Seq<char>, Json>::empty()),
    {
        let n: usize = self.entries.len();
        proof {
            if n > 0 {
                assert(self@.contains_key(self.entries@[n - 1].0@));
            } else {
                assert(self@ =~= Map::<Seq<char>, Json>::empty());
            }
        }
        n == 0
    }

    /// Takes the field `key` out.
    pub fn remove(&mut self, key: &str)
        ensures
            final(self)@ == old(self)@.remove(key@),
    {
        let mut i: usize = 0;
        while i < self.entries.len()
            invariant
                i <= self.entries@.len(),
                self@.remove(key@) == old(self)@.remove(key@),
                forall|j: int| 0 <= j < i ==> (#[trigger] self.entries@[j]).0@ != key@,
            decreases self.entries@.len() - i,
        {
            if str_eq(self.entries[i].0.as_str(), key) {
                proof {
                    lemma_entries_removed(self.entries@, i as int);
                }
                let ghost before = self.entries@;
                self.entries.remove(i);
                assert(self.entries@ =~= before.remove(i as int));
            } else {
                i += 1;
            }
        }
        proof {
            lemma_entries_absent(self.entries@, key@);
            assert(self@.remove(key@) =~= self@);
        }
    }

    /// Sets the field `key`.
    pub fn insert(&mut self, key: &str, value: JsonValue)
        ensures
            final(self)@ == old(self)@.insert(key@, value@),
    {
        self.remove(key);
        proof {
            assert forall|entry: (String, JsonValue)| entry.0@ == key@ implies json_entries(
                #[trigger] self.entries@.push(entry),
            ) == json_entries(self.entries@).insert(key@, entry.1@) by {
                lemma_entries_pushed(self.entries@, entry);
            }
        }
        self.entries.push((key.to_owned(), value));
        assert(self@ =~= old(self)@.insert(key@, value@));
    }

    /// The object with the field `key` set.
    pub fn with(self, key: &str, value: JsonValue) -> (o: Self)
        ensures
            o@ == self@.insert(key@, value@),
    {
        let mut o = self;
        o.insert(key, value);
        o
    }
}

/// A copy of `v`.
fn copy_value(v: &JsonValue) -> (copy: JsonValue)
    ensures
        copy@ == v@,
    decreases *v,
{
    match v {
        JsonValue::Null => JsonValue::Null,
        JsonValue::Bool(b) => JsonValue::Bool(*b),
        JsonValue::Number(JsonNumber::Unsigned(n)) => JsonValue::Number(JsonNumber::Unsigned(*n)),
        JsonValue::Number(JsonNumber::Signed(n)) => JsonValue::Number(JsonNumber::Signed(*n)),
        JsonValue::Number(JsonNumber::Float(n)) => JsonValue::Number(JsonNumber::Float(n.clone())),
        JsonValue::String(s) => JsonValue::String(s.clone()),
        JsonValue::Array(items) => {
            let mut copies: Vec<JsonValue> = Vec::new();
            let mut i: usize = 0;
            while i < items.len()
                invariant
                    i <= items@.len(),
                    json_items(copies@) == json_items(items@.take(i as int)),
                    decreases_to!(*v => items),
                decreases items@.len() - i,
            {
                let copy = copy_value(&items[i]);
                proof {
                    lemma_items_pushed(copies@, copy);
                    lemma_items_pushed(items@.take(i as int), items@[i as int]);
                    assert(items@.take(i + 1) =~= items@.take(i as int).push(items@[i as int]));
                }
                copies.push(copy);
                i += 1;
            }
            assert(items@.take(i as int) =~= items@);
            JsonValue::Array(copies)
        },
        JsonValue::Object(o) => JsonValue::Object(copy_object(o)),
    }
}

/// A copy of `o`.
fn copy_object(o: &JsonObject) -> (copy: JsonObject)
    ensures
        copy@ == o@,
    decreases *o,
{
    let mut copies: Vec<(String, JsonValue)> = Vec::new();
    let mut i: usize = 0;
    while i < o.entries.len()
        invariant
            i <= o.entries@.len(),
            json_entries(copies@) == json_entries(o.entries@.take(i as int)),
            decreases_to!(*o => o.entries),
        decreases o.entries@.len() - i,
    {
        let copy = (o.entries[i].0.clone(), copy_value(&o.entries[i].1));
        proof {
            let entry = o.entries@[i as int];
            lemma_entries_pushed(copies@, copy);
            lemma_entries_pushed(o.entries@.take(i as int), entry);
            assert(o.entries@.take(i + 1) =~= o.entries@.take(i as int).push(entry));
        }
        copies.push(copy);
        i += 1;
    }
    assert(o.entries@.take(i as int) =~= o.entries@);
    JsonObject { entries: copies }
}

impl Clone for JsonObject {
    fn clone(&self) -> (copy: Self)
        ensures
            copy@ == self@,
    {
        copy_object(self)
    }
}

impl Clone for JsonValue {
    fn clone(&self) -> (copy: Self)
        ensures
            copy@ == self@,
    {
        copy_value(self)
    }
}

/// Reads the field `key` of an object.
pub fn json_field<'a>(v: &'a JsonValue, key: &str) -> (r: Option<&'a JsonValue>)
    ensures
        opt_json(r) == field(v@, key@),
{
    match v {
        JsonValue::Object(o) => o.get(key),
        _ => None,
    }
}

/// Reads a string.
pub fn json_str<'a>(v: Option<&'a JsonValue>) -> (r: Option<&'a str>)
    ensures
        opt_str(r) == string_in(opt_json(v)),
{
    match v {
        Some(JsonValue::String(s)) => Some(s.as_str()),
        _ => None,
    }
}

/// Reads a string and copies it.
pub fn json_text(v: Option<&JsonValue>) -> (r: Option<String>)
    ensures
        opt_text(r) == string_in(opt_json(v)),
{
    match v {
        Some(JsonValue::String(s)) => Some(s.clone()),
        _ => None,
    }
}

/// The items behind an optional reference.
pub open spec fn opt_items(items: Option<&Vec<JsonValue>>) -> Option<Seq<Json>> {
    match items {
        Some(x) => Some(json_items(x@)),
        None => None,
    }
}

/// Reads an array.
pub fn json_array<'a>(v: Option<&'a JsonValue>) -> (r: Option<&'a Vec<JsonValue>>)
    ensures
        opt_items(r) == array_in(opt_json(v)),
{
    match v {
        Some(JsonValue::Array(items)) => Some(items),
        _ => None,
    }
}

/// Reads an object.
pub fn json_object<'a>(v: Option<&'a JsonValue>) -> (r: Option<&'a JsonObject>)
    ensures
        opt_obj(r) == object_in(opt_json(v)),
{
    match v {
        Some(JsonValue::Object(o)) => Some(o),
        _ => None,
    }
}

/// Reads a truth value.
pub fn json_bool(v: Option<&JsonValue>) -> (r: Option<bool>)
    ensures
        r == bool_in(opt_json(v)),
{
    match v {
        Some(JsonValue::Bool(b)) => Some(*b),
        _ => None,
    }
}

/// Reads an unsigned integer.
pub fn json_u64(v: Option<&JsonValue>) -> (r: Option<u64>)
    ensures
        r == u64_in(opt_json(v)),
{
    match v {
        Some(JsonValue::Number(JsonNumber::Unsigned(n))) => Some(*n),
        Some(JsonValue::Number(JsonNumber::Signed(n))) => if *n >= 0 {
            Some(*n as u64)
        } else {
            None
        },
        _ => None,
    }
}

/// Reads a signed integer.
pub fn json_i64(v: Option<&JsonValue>) -> (r: Option<i64>)
    ensures
        r == i64_in(opt_json(v)),
{
    match v {
        Some(JsonValue::Number(JsonNumber::Unsigned(n))) => if *n <= i64::MAX as u64 {
            Some(*n as i64)
        } else {
            None
        },
        Some(JsonValue::Number(JsonNumber::Signed(n))) => Some(*n),
        _ => None,
    }
}

/// The floating-point number in an option of a request.
pub open spec fn opt_float(x: Option<Float>) -> Option<Option<serde_json::Number>> {
    match x {
        Some(f) => Some(f@),
        None => None,
    }
}

/// Reads a floating-point number; an integer is converted.
pub fn json_float(v: Option<&JsonValue>) -> (r: Option<Float>)
    ensures
        r is Some <==> float_in(opt_json(v)) is Some,
        r matches Some(x) ==> x@ == float_in(opt_json(v)),
{
    let x = match v {
        Some(JsonValue::Number(JsonNumber::Unsigned(n))) => FiniteFloat::from_int(*n as i128),
        Some(JsonValue::Number(JsonNumber::Signed(n))) => FiniteFloat::from_int(*n as i128),
        Some(JsonValue::Number(JsonNumber::Float(x))) => Some(x.clone()),
        _ => None,
    };
    match x {
        Some(f) => Some(Float::Finite(f)),
        None => None,
    }
}

/// The JSON form of a floating-point number.
pub fn json_of_float(x: &Float) -> (v: JsonValue)
    ensures
        v@ == float_json(x@),
{
    match x {
        Float::Finite(f) => JsonValue::Number(JsonNumber::Float(f.clone())),
        Float::NonFinite => JsonValue::Null,
    }
}

/// The JSON form of a text.
pub fn json_of_str(s: &str) -> (v: JsonValue)
    ensures
        v@ == Json::String(s@),
{
    JsonValue::String(s.to_owned())
}

/// The JSON form of an unsigned integer.
pub fn json_of_u64(n: u64) -> (v: JsonValue)
    ensures
        v@ == int_json(n as int),
{
    JsonValue::Number(JsonNumber::Unsigned(n))
}

} // verus!
