//! MIME types, data URIs and the parts that carry media.
use vstd::prelude::*;

use crate::json::{json_of_str, Json, JsonObject, JsonValue, Obj};
use crate::text::{
    after_prefix, before_suffix, opt_str, split_at_first, split_once, strip_prefix, strip_suffix,
};

verus! {

/// The type in front of the slash of a MIME type.
pub open spec fn kind_of(media_type: Option<Seq<char>>) -> Option<Seq<char>> {
    match media_type {
        Some(t) => match split_at_first(t, '/') {
            Some((kind, _)) => Some(kind),
            None => None,
        },
        None => None,
    }
}

/// Returns the top-level MIME type, such as `image` for `image/png`.
pub fn media_kind(media_type: Option<&str>) -> (kind: Option<&str>)
    ensures
        opt_str(kind) == kind_of(opt_str(media_type)),
{
    match media_type {
        Some(t) => match split_once(t, '/') {
            Some((kind, _)) => Some(kind),
            None => None,
        },
        None => None,
    }
}

/// The text of `s` in front of the first `c`, or all of it.
pub open spec fn up_to(s: Seq<char>, c: char) -> Seq<char> {
    match split_at_first(s, c) {
        Some((before, _)) => before,
        None => s,
    }
}

/// The media type and the payload of `data:<media type>[;<parameter>...];base64,<payload>`.
pub open spec fn data_uri(url: Seq<char>) -> Option<(Seq<char>, Seq<char>)> {
    match after_prefix(url, "data:"@) {
        Some(rest) => match split_at_first(rest, ',') {
            Some((metadata, data)) => match before_suffix(metadata, ";base64"@) {
                Some(parameters) => if up_to(parameters, ';').len() > 0 {
                    Some((up_to(parameters, ';'), data))
                } else {
                    None
                },
                None => None,
            },
            None => None,
        },
        None => None,
    }
}

/// Splits `data:<media type>[;<parameter>...];base64,<payload>`.
pub fn split_data_uri<'a>(url: &'a str) -> (parts: Option<(&'a str, &'a str)>)
    ensures
        parts is Some <==> data_uri(url@) is Some,
        parts matches Some((media_type, data)) ==> data_uri(url@) == Some((media_type@, data@)),
{
    let rest = match strip_prefix(url, "data:") {
        Some(rest) => rest,
        None => return None,
    };
    let (metadata, data) = match split_once(rest, ',') {
        Some(parts) => parts,
        None => return None,
    };
    let parameters = match strip_suffix(metadata, ";base64") {
        Some(parameters) => parameters,
        None => return None,
    };
    let media_type = match split_once(parameters, ';') {
        Some((media_type, _)) => media_type,
        None => parameters,
    };
    if media_type.is_empty() {
        None
    } else {
        Some((media_type, data))
    }
}

/// `o` with the field `key` set to a text, where there is one.
pub open spec fn with_text(o: Obj, key: Seq<char>, text: Option<Seq<char>>) -> Obj {
    match text {
        Some(t) => o.insert(key, Json::String(t)),
        None => o,
    }
}

/// Sets the field `key` to a text, where there is one.
pub fn insert_text(o: &mut JsonObject, key: &str, text: Option<&str>)
    ensures
        final(o)@ == with_text(old(o)@, key@, opt_str(text)),
{
    match text {
        Some(t) => o.insert(key, json_of_str(t)),
        None => {},
    }
}

/// An object with one field.
pub open spec fn single(key: Seq<char>, value: Json) -> Json {
    Json::Object(map![key => value])
}

/// Builds an object with one field.
pub fn json_single(key: &str, value: JsonValue) -> (v: JsonValue)
    ensures
        v@ == single(key@, value@),
{
    JsonValue::Object(JsonObject::new().with(key, value))
}

/// An `inlineData` part.
pub open spec fn inline_data(
    media_type: Option<Seq<char>>,
    data: Seq<char>,
    display_name: Option<Seq<char>>,
) -> Json {
    let blob = map!["data"@ => Json::String(data)];
    single(
        "inlineData"@,
        Json::Object(
            with_text(with_text(blob, "mimeType"@, media_type), "displayName"@, display_name),
        ),
    )
}

/// Builds an `inlineData` part.
pub fn gemini_inline_data(
    media_type: Option<&str>,
    data: &str,
    display_name: Option<&str>,
) -> (part: JsonValue)
    ensures
        part@ == inline_data(opt_str(media_type), data@, opt_str(display_name)),
{
    let mut blob = JsonObject::new().with("data", json_of_str(data));
    insert_text(&mut blob, "mimeType", media_type);
    insert_text(&mut blob, "displayName", display_name);
    json_single("inlineData", JsonValue::Object(blob))
}

/// The part for a URL: a base64 data URI inline, any other by reference.
pub open spec fn url_part(url: Seq<char>, media_type: Option<Seq<char>>) -> Json {
    match data_uri(url) {
        Some((t, data)) => inline_data(Some(t), data, None),
        None => single(
            "fileData"@,
            Json::Object(with_text(map!["fileUri"@ => Json::String(url)], "mimeType"@, media_type)),
        ),
    }
}

/// Inlines a base64 data URI and references any other URL through `fileData`.
pub fn gemini_url_part(url: &str, media_type: Option<&str>) -> (part: JsonValue)
    ensures
        part@ == url_part(url@, opt_str(media_type)),
{
    match split_data_uri(url) {
        Some((media_type, data)) => gemini_inline_data(Some(media_type), data, None),
        None => {
            let mut file = JsonObject::new().with("fileUri", json_of_str(url));
            insert_text(&mut file, "mimeType", media_type);
            json_single("fileData", JsonValue::Object(file))
        },
    }
}

} // verus!
