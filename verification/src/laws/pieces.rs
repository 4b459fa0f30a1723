//! Laws on the pieces that bodies are made of.
use vstd::prelude::*;

use crate::common::without;
use crate::error::ErrorView;
use crate::gemini::decode::{function_name, ids_after, items_blocks, parts_blocks, parts_ids};
use crate::gemini::decode_request::{content_path, decoded_request, role_error};
use crate::gemini::encode::{
    args_json, kind_name, name_or_id, response_json, text_args, text_response,
};
use crate::gemini::ids::IdsView;
use crate::gemini::media::{inline_data, url_part};
use crate::gemini::response::{decoded_response, encoded_response, response_body};
use crate::gemini::GEMINI_FORMAT;
use crate::json::{Json, Obj};
use crate::laws::bodies::kept_for_gemini;
use crate::laws::fields::{one, text_or_none};
use crate::laws::request::lemma_decoded;
use crate::laws::writing::{args_for, inline_part, part_for_url, response_for};
use crate::llm::{BlockView, CapturedView, RequestView, ResponseView};
use crate::policy::{PreservationPolicy, TranslationPolicy};
use crate::text::decimal;
use crate::util::{captured, embedded, object_or_error, replayed, text_of_json};
use crate::wire::rendered;
use crate::common::{block_texts, joined};

verus! {

/// A `parts` field: absent it says nothing, an array says its items, and anything else is an
/// error at its path and leaves the conversation as it was.
pub proof fn law_parts_field_is_read(
    items: Seq<Json>,
    other: Json,
    path: Seq<char>,
    ids: IdsView,
    policy: TranslationPolicy,
)
    requires
        !(other is Array),
    ensures
        parts_blocks(None, path, ids, policy) matches Ok(content) && content.len() == 0,
        parts_blocks(Some(Json::Array(items)), path, ids, policy) == Ok::<
            Seq<BlockView>,
            ErrorView,
        >(items_blocks(items, ids, policy)),
        parts_blocks(Some(other), path, ids, policy) == Err::<Seq<BlockView>, ErrorView>(
            ErrorView::InvalidType { path, expected: "array"@ },
        ),
        parts_ids(None, ids, policy) == ids,
        parts_ids(Some(other), ids, policy) == ids,
        parts_ids(Some(Json::Array(items)), ids, policy) == ids_after(
            items,
            items.len() as int,
            ids,
            policy,
        ),
{
}

/// Arguments and responses, from a text and what it parses to, and as a whole.
pub proof fn law_texts_become_objects(
    text: Seq<char>,
    value: Option<Json>,
    is_error: Option<bool>,
    arguments: Json,
    content: Seq<BlockView>,
)
    ensures
        value is Some && value->Some_0 is Object ==> text_args(text, value) == value->Some_0
            && text_response(text, value, is_error) == value->Some_0,
        !(value is Some && value->Some_0 is Object) ==> text_args(text, value) == one(
            "raw"@,
            Json::String(text),
        ),
        !(value is Some && value->Some_0 is Object) && is_error == Some(true) ==> text_response(
            text,
            value,
            is_error,
        ) == one("error"@, Json::String(text)),
        !(value is Some && value->Some_0 is Object) && is_error != Some(true) ==> text_response(
            text,
            value,
            is_error,
        ) == one("output"@, Json::String(text)),
        args_json(arguments) == args_for(arguments),
        response_json(content, is_error) == response_for(
            joined(block_texts(content), "\n"@),
            is_error,
        ),
{
}

/// Names and messages: the name of a function, that of a call id, that of a kind of content, the
/// place of a content and what is wrong with a role.
pub proof fn law_names_and_messages(
    o: Obj,
    names: Map<Seq<char>, Seq<char>>,
    id: Seq<char>,
    b: BlockView,
    index: nat,
    quoted: Seq<char>,
)
    ensures
        function_name(o) == text_or_none(o, "name"@),
        names.contains_key(id) ==> name_or_id(names, id) == names[id],
        !names.contains_key(id) ==> name_or_id(names, id) == id,
        b is Image ==> kind_name(b) == "image"@,
        b is Audio ==> kind_name(b) == "audio"@,
        b is Video ==> kind_name(b) == "video"@,
        b is File ==> kind_name(b) == "file"@,
        !(b is Image) && !(b is Audio) && !(b is Video) && !(b is File) ==> kind_name(b)
            == "provider-specific"@,
        content_path(index) == "$.contents["@ + decimal(index) + "]"@,
        role_error(quoted) == "Invalid value: "@ + quoted
            + ". Supported content roles are user, model."@,
        GEMINI_FORMAT@ == "gemini_generate_content"@,
{
}

/// Parts for data and for a URL.
pub proof fn law_media_parts(
    media_type: Option<Seq<char>>,
    data: Seq<char>,
    name: Option<Seq<char>>,
    url: Seq<char>,
)
    ensures
        inline_data(media_type, data, name) == inline_part(media_type, data, name),
        url_part(url, media_type) == part_for_url(url, media_type),
{
}

/// An object is read as its fields, and anything else is an error at its path. The text of a
/// string is the string, and that of anything else is its JSON. Taking fields out leaves the
/// others as they are.
pub proof fn law_values_are_read(
    v: Json,
    path: Seq<char>,
    o: Obj,
    keys: Seq<Seq<char>>,
    key: Seq<char>,
)
    ensures
        v is Object ==> object_or_error(v, path) == Ok::<Obj, ErrorView>(v->Object_0),
        !(v is Object) ==> object_or_error(v, path) == Err::<Obj, ErrorView>(
            ErrorView::InvalidType { path, expected: "object"@ },
        ),
        v is String ==> text_of_json(v) == v->String_0,
        !(v is String) ==> text_of_json(v) == rendered(v),
        without(o, keys).contains_key(key) == (o.contains_key(key) && !keys.contains(key)),
        without(o, keys).contains_key(key) ==> without(o, keys)[key] == o[key],
{
    assert(keys.to_set().contains(key) == keys.contains(key));
}

/// A body is kept with its format unless the policy discards it, a kept body of the format is
/// sent again unless the policy discards it, and the policy that embeds one puts it under its
/// key.
pub proof fn law_bodies_are_kept(
    format: Seq<char>,
    body: Json,
    kept: Option<CapturedView>,
    o: Obj,
    policy: TranslationPolicy,
)
    ensures
        policy.preservation is Discard ==> captured(format, body, policy) is None && replayed(
            kept,
            format,
            policy,
        ) is None && embedded(o, kept, policy) == o,
        !(policy.preservation is Discard) ==> captured(format, body, policy) == Some(
            CapturedView { format, body },
        ),
        !(policy.preservation is Discard) && kept is Some && kept->Some_0.format == format
            ==> replayed(kept, format, policy) == Some(kept->Some_0.body),
        kept is None || kept->Some_0.format != format ==> replayed(kept, format, policy) is None,
        kept is None || policy.preservation is Replay ==> embedded(o, kept, policy) == o,
        kept is Some ==> (policy.preservation matches PreservationPolicy::Embed { key }
            ==> embedded(o, kept, policy) == o.insert(
            key@,
            Json::Object(
                Map::empty().insert("format"@, Json::String(kept->Some_0.format)).insert(
                    "body"@,
                    kept->Some_0.body,
                ),
            ),
        )),
{
}

/// What is kept of the bodies that requests and responses are read from.
pub proof fn law_read_bodies_are_kept(
    body: Obj,
    request: RequestView,
    notes: Seq<Seq<char>>,
    response: ResponseView,
    policy: TranslationPolicy,
)
    ensures
        decoded_request(Json::Object(body), policy) == Ok::<
            (RequestView, Seq<Seq<char>>),
            ErrorView,
        >((request, notes)) ==> request.preservation == (if policy.preservation is Discard {
            None
        } else {
            Some(
                CapturedView { format: "gemini_generate_content"@, body: Json::Object(body) },
            )
        }),
        decoded_response(Json::Object(body), policy) == Ok::<ResponseView, ErrorView>(response)
            ==> response.preservation == (if policy.preservation is Discard {
            None
        } else {
            Some(
                CapturedView { format: "gemini_generate_content"@, body: Json::Object(body) },
            )
        }),
{
    if decoded_request(Json::Object(body), policy) == Ok::<
        (RequestView, Seq<Seq<char>>),
        ErrorView,
    >((request, notes)) {
        lemma_decoded(body, request, notes, policy);
    }
}

/// A kept response of this format is sent again as it is; everything else is written anew, with
/// a kept body of another format in the field that the policy names.
pub proof fn law_what_a_response_is_encoded_as(response: ResponseView, policy: TranslationPolicy)
    ensures
        kept_for_gemini(response.preservation, policy) ==> encoded_response(response, policy)
            == Ok::<(Json, Seq<Seq<char>>), ErrorView>(
            (response.preservation->Some_0.body, Seq::empty()),
        ),
        !kept_for_gemini(response.preservation, policy) ==> (encoded_response(
            response,
            policy,
        ) matches Ok((body, notes)) ==> body == Json::Object(
            match (policy.preservation, response.preservation) {
                (PreservationPolicy::Embed { key }, Some(kept)) => response_body(
                    response,
                    policy,
                ).insert(
                    key@,
                    Json::Object(
                        Map::empty().insert("format"@, Json::String(kept.format)).insert(
                            "body"@,
                            kept.body,
                        ),
                    ),
                ),
                _ => response_body(response, policy),
            },
        )),
{
}

} // verus!
