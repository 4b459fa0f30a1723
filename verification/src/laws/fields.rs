//! How the laws read a JSON object: by what stands under a key.
use vstd::prelude::*;

use crate::json::{Json, Obj};

verus! {

/// The string under `key`.
pub open spec fn text_at(o: Obj, key: Seq<char>) -> Option<Seq<char>> {
    if o.contains_key(key) && o[key] is String {
        Some(o[key]->String_0)
    } else {
        None
    }
}

/// The string under `key`, or the empty text.
pub open spec fn text_or_none(o: Obj, key: Seq<char>) -> Seq<char> {
    if o.contains_key(key) && o[key] is String {
        o[key]->String_0
    } else {
        Seq::empty()
    }
}

/// The string under `key` where it is not empty.
pub open spec fn name_at(o: Obj, key: Seq<char>) -> Option<Seq<char>> {
    if o.contains_key(key) && o[key] is String && o[key]->String_0.len() > 0 {
        Some(o[key]->String_0)
    } else {
        None
    }
}

/// Whether an object stands under `key`.
pub open spec fn has_object(o: Obj, key: Seq<char>) -> bool {
    o.contains_key(key) && o[key] is Object
}

/// Whether a string stands under `key`.
pub open spec fn has_text(o: Obj, key: Seq<char>) -> bool {
    o.contains_key(key) && o[key] is String
}

/// The integer under `key`.
pub open spec fn integer_at(o: Obj, key: Seq<char>) -> Option<int> {
    if o.contains_key(key) && o[key] is Number && o[key]->Number_0 is Int {
        Some(o[key]->Number_0->Int_0)
    } else {
        None
    }
}

/// The count under `key`: an integer that fits in `u64`.
pub open spec fn count_at(o: Obj, key: Seq<char>) -> Option<u64> {
    match integer_at(o, key) {
        Some(n) => if 0 <= n <= u64::MAX {
            Some(n as u64)
        } else {
            None
        },
        None => None,
    }
}

/// What stands under `key` in an object; nothing of any other value.
pub open spec fn value_at(v: Json, key: Seq<char>) -> Option<Json> {
    if v is Object && v->Object_0.contains_key(key) {
        Some(v->Object_0[key])
    } else {
        None
    }
}

/// The items of the array under `key`; none where there is no array.
pub open spec fn items_at(o: Obj, key: Seq<char>) -> Seq<Json> {
    if o.contains_key(key) && o[key] is Array {
        o[key]->Array_0
    } else {
        Seq::empty()
    }
}

/// Whether `text` begins with `start`.
pub open spec fn begins(text: Option<Seq<char>>, start: Seq<char>) -> bool {
    text matches Some(t) && t.len() >= start.len() && t.take(start.len() as int) == start
}

/// An object with one field.
pub open spec fn one(key: Seq<char>, value: Json) -> Json {
    Json::Object(Map::empty().insert(key, value))
}

/// The object `o`, with a string under `key` where there is one.
pub open spec fn plus(o: Obj, key: Seq<char>, text: Option<Seq<char>>) -> Obj {
    if text is Some {
        o.insert(key, Json::String(text->Some_0))
    } else {
        o
    }
}

/// `n`, or zero where it is not known.
pub open spec fn known(n: Option<u64>) -> int {
    if n is Some {
        n->Some_0 as int
    } else {
        0
    }
}

} // verus!
