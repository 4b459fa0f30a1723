//! Schemas and structured output.
use vstd::prelude::*;

use crate::error::{messages_of, TranslationDiagnostic, TranslationError};
use crate::gemini::encode::note_list;
use crate::gemini::media::{json_single, single};
use crate::json::{
    field, json_entries, json_field, json_items, json_of_str, json_str, lemma_entries_pushed,
    lemma_items_pushed, opt_value, string_in, Json, JsonObject, JsonValue, Obj,
};
use crate::policy::TranslationPolicy;
use crate::text::{ascii_lowercase, lower, str_eq};
use crate::util::{dropped, lemma_reported_nothing, push_lossy};

verus! {

/// A schema with its type names in lower case, at every depth.
pub open spec fn json_schema(schema: Json) -> Json
    decreases schema,
{
    match schema {
        Json::Object(o) => Json::Object(
            Map::new(
                |k: Seq<char>| o.contains_key(k),
                |k: Seq<char>|
                    if o.contains_key(k) {
                        if k == "type"@ && o[k] is String {
                            Json::String(lower(o[k]->String_0))
                        } else {
                            json_schema(o[k])
                        }
                    } else {
                        Json::Null
                    },
            ),
        ),
        Json::Array(items) => Json::Array(
            Seq::new(
                items.len(),
                |i: int|
                    if 0 <= i < items.len() {
                        json_schema(items[i])
                    } else {
                        Json::Null
                    },
            ),
        ),
        other => other,
    }
}

/// The value of the field `key` of a schema, converted.
pub open spec fn schema_field(key: Seq<char>, value: Json) -> Json {
    if key == "type"@ && value is String {
        Json::String(lower(value->String_0))
    } else {
        json_schema(value)
    }
}

/// The fields of a schema, converted.
pub open spec fn schema_fields(o: Obj) -> Obj {
    Map::new(|k: Seq<char>| o.contains_key(k), |k: Seq<char>| schema_field(k, o[k]))
}

/// The items of a schema, converted.
pub open spec fn schema_items(items: Seq<Json>) -> Seq<Json> {
    items.map_values(|v: Json| json_schema(v))
}

pub proof fn lemma_json_schema(schema: Json)
    ensures
        schema matches Json::Object(o) ==> json_schema(schema) == Json::Object(schema_fields(o)),
        schema matches Json::Array(items) ==> json_schema(schema) == Json::Array(
            schema_items(items),
        ),
{
    match schema {
        Json::Object(o) => {
            assert(json_schema(schema)->Object_0 =~= schema_fields(o));
        },
        Json::Array(items) => {
            assert(json_schema(schema)->Array_0 =~= schema_items(items));
        },
        _ => {},
    }
}

proof fn lemma_schema_inserted(o: Obj, key: Seq<char>, value: Json)
    ensures
        schema_fields(o.insert(key, value)) == schema_fields(o).insert(
            key,
            schema_field(key, value),
        ),
{
    assert(schema_fields(o.insert(key, value)) =~= schema_fields(o).insert(
        key,
        schema_field(key, value),
    ));
}

fn schema_of_field(key: &str, value: &JsonValue) -> (converted: JsonValue)
    ensures
        converted@ == schema_field(key@, value@),
    decreases *value, 1nat,
{
    match value {
        JsonValue::String(name) => if str_eq(key, "type") {
            JsonValue::String(ascii_lowercase(name.as_str()))
        } else {
            json_schema_from_openapi(value)
        },
        other => json_schema_from_openapi(other),
    }
}

/// Converts a Gemini OpenAPI schema to JSON Schema by lower-casing its type names.
pub fn json_schema_from_openapi(schema: &JsonValue) -> (converted: JsonValue)
    ensures
        converted@ == json_schema(schema@),
    decreases *schema, 0nat,
{
    proof {
        lemma_json_schema(schema@);
    }
    match schema {
        JsonValue::Object(o) => {
            let mut entries: Vec<(String, JsonValue)> = Vec::new();
            let mut i: usize = 0;
            assert(schema_fields(json_entries(o.entries@.take(0))) =~= json_entries(entries@));
            while i < o.entries.len()
                invariant
                    i <= o.entries@.len(),
                    json_entries(entries@) == schema_fields(
                        json_entries(o.entries@.take(i as int)),
                    ),
                    decreases_to!(*schema => o.entries),
                decreases o.entries@.len() - i,
            {
                let value = schema_of_field(o.entries[i].0.as_str(), &o.entries[i].1);
                let entry = (o.entries[i].0.clone(), value);
                proof {
                    let old_entry = o.entries@[i as int];
                    let front = o.entries@.take(i as int);
                    lemma_entries_pushed(entries@, entry);
                    lemma_entries_pushed(front, old_entry);
                    lemma_schema_inserted(json_entries(front), old_entry.0@, old_entry.1@);
                    assert(o.entries@.take(i + 1) =~= front.push(old_entry));
                }
                entries.push(entry);
                i += 1;
            }
            assert(o.entries@.take(i as int) =~= o.entries@);
            JsonValue::Object(JsonObject { entries })
        },
        JsonValue::Array(items) => {
            let mut converted: Vec<JsonValue> = Vec::new();
            let mut i: usize = 0;
            assert(schema_items(json_items(items@.take(0))) =~= json_items(converted@));
            while i < items.len()
                invariant
                    i <= items@.len(),
                    json_items(converted@) == schema_items(json_items(items@.take(i as int))),
                    decreases_to!(*schema => items),
                decreases items@.len() - i,
            {
                let item = json_schema_from_openapi(&items[i]);
                proof {
                    let front = items@.take(i as int);
                    lemma_items_pushed(converted@, item);
                    lemma_items_pushed(front, items@[i as int]);
                    assert(items@.take(i + 1) =~= front.push(items@[i as int]));
                    assert(schema_items(json_items(front).push(items@[i as int]@)) =~= schema_items(
                        json_items(front),
                    ).push(json_schema(items@[i as int]@)));
                }
                converted.push(item);
                i += 1;
            }
            assert(items@.take(i as int) =~= items@);
            JsonValue::Array(converted)
        },
        other => other.clone(),
    }
}

/// The schema that `generationConfig` asks for.
pub open spec fn response_schema(generation: Obj) -> Option<Json> {
    match generation.get("responseJsonSchema"@) {
        Some(schema) => Some(schema),
        None => match generation.get("responseSchema"@) {
            Some(schema) => Some(json_schema(schema)),
            None => None,
        },
    }
}

/// The format that asks for `schema`, under a neutral name.
pub open spec fn schema_format(schema: Json) -> Json {
    Json::Object(
        map![
            "type"@ => Json::String("json_schema"@),
            "json_schema"@ => Json::Object(
                map!["name"@ => Json::String("response"@), "schema"@ => schema],
            )
        ],
    )
}

/// The response format that `generationConfig` asks for.
pub open spec fn response_format_of(generation: Obj) -> Option<Json> {
    match response_schema(generation) {
        Some(schema) => Some(schema_format(schema)),
        None => if string_in(generation.get("responseMimeType"@)) == Some("application/json"@) {
            Some(single("type"@, Json::String("json_object"@)))
        } else {
            None
        },
    }
}

/// Maps Gemini structured output to the `response_format` that the model carries.
pub fn decode_gemini_response_format(generation: &JsonObject) -> (format: Option<JsonValue>)
    ensures
        opt_value(format) == response_format_of(generation@),
{
    let schema = match generation.get("responseJsonSchema") {
        Some(schema) => Some(schema.clone()),
        None => match generation.get("responseSchema") {
            Some(schema) => Some(json_schema_from_openapi(schema)),
            None => None,
        },
    };
    match schema {
        Some(schema) => {
            // Gemini does not name the schema; the neutral shape needs a name.
            let named = JsonObject::new().with("name", json_of_str("response")).with(
                "schema",
                schema,
            );
            let format = JsonObject::new().with("type", json_of_str("json_schema")).with(
                "json_schema",
                JsonValue::Object(named),
            );
            Some(JsonValue::Object(format))
        },
        None => match json_str(generation.get("responseMimeType")) {
            Some(mime) => if str_eq(mime, "application/json") {
                Some(json_single("type", json_of_str("json_object")))
            } else {
                None
            },
            None => None,
        },
    }
}

/// The type that a response format names.
pub open spec fn format_type(format: Json) -> Option<Seq<char>> {
    string_in(field(format, "type"@))
}

/// The schema in a response format.
pub open spec fn format_schema(format: Json) -> Option<Json> {
    match field(format, "json_schema"@) {
        Some(named) => field(named, "schema"@),
        None => None,
    }
}

/// `generationConfig` with a response format written into it.
pub open spec fn with_format(format: Json, generation: Obj) -> Obj {
    let mime = Json::String("application/json"@);
    if format_type(format) == Some("json_schema"@) {
        match format_schema(format) {
            Some(schema) => generation.insert("responseMimeType"@, mime).insert(
                "responseJsonSchema"@,
                schema,
            ),
            None => generation,
        }
    } else if format_type(format) == Some("json_object"@) {
        generation.insert("responseMimeType"@, mime)
    } else {
        generation
    }
}

/// What is dropped of a response format.
pub open spec fn format_note(format: Json) -> Option<Seq<char>> {
    if format_type(format) == Some("json_schema"@) {
        if format_schema(format) is Some {
            None
        } else {
            Some("json_schema response format has no schema; the requested format was dropped"@)
        }
    } else if format_type(format) == Some("json_object"@) || format_type(format) == Some("text"@) {
        None
    } else {
        Some("response format has no Gemini equivalent; the requested format was dropped"@)
    }
}

/// Writes a `response_format` into `generationConfig`.
pub fn encode_gemini_response_format(
    format: &JsonValue,
    generation: &mut JsonObject,
    diagnostics: &mut Vec<TranslationDiagnostic>,
    policy: &TranslationPolicy,
) -> (r: Result<(), TranslationError>)
    ensures
        final(generation)@ == with_format(format@, old(generation)@),
        dropped(
            r,
            old(diagnostics)@,
            final(diagnostics)@,
            *policy,
            note_list(format_note(format@)),
        ),
{
    proof {
        lemma_reported_nothing(messages_of(diagnostics@), *policy, Seq::empty());
        reveal_strlit("json_schema");
        reveal_strlit("json_object");
        reveal_strlit("text");
        assert("json_schema"@.len() == 11);
        assert("json_object"@[5] == 'o');
        assert("json_schema"@[5] == 's');
        assert("text"@.len() == 4);
    }
    match json_str(json_field(format, "type")) {
        Some(kind) => {
            if str_eq(kind, "json_schema") {
                let schema = match json_field(format, "json_schema") {
                    Some(named) => json_field(named, "schema"),
                    None => None,
                };
                return match schema {
                    Some(schema) => {
                        generation.insert("responseMimeType", json_of_str("application/json"));
                        generation.insert("responseJsonSchema", schema.clone());
                        Ok(())
                    },
                    None => push_lossy(
                        diagnostics,
                        policy,
                        "json_schema response format has no schema; the requested format was dropped",
                    ),
                };
            }
            if str_eq(kind, "json_object") {
                generation.insert("responseMimeType", json_of_str("application/json"));
                return Ok(());
            }
            if str_eq(kind, "text") {
                return Ok(());
            }
        },
        None => {},
    }
    push_lossy(
        diagnostics,
        policy,
        "response format has no Gemini equivalent; the requested format was dropped",
    )
}

} // verus!
