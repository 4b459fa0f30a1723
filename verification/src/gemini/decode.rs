//! Reads Gemini parts into content blocks.
use vstd::prelude::*;
use vstd::seq_lib::*;
use vstd::string::*;

use crate::common::{block_text, block_texts};
use crate::error::{ErrorView, TranslationError};
use crate::format::FormatId;
use crate::gemini::encode::{response_json, text_response};
use crate::gemini::ids::{after_answer, after_call, answer_id, next_id, GeminiToolIds, IdsView};
use crate::gemini::media::{kind_of, media_kind};
use crate::gemini::GEMINI_FORMAT;
use crate::json::{
    array_in, bool_in, field, json_bool, json_items, json_object, json_str, json_text, object_in,
    opt_json, string_in, Json, JsonObject, JsonValue, Obj,
};
use crate::llm::{
    blocks, lemma_blocks_pushed, BlockView, ContentBlock, FileSource, FileSourceView, ImageSource,
    ImageSourceView, MediaSource, MediaSourceView, ToolCall, ToolResult,
};
use crate::policy::TranslationPolicy;
use crate::text::{opt_borrow, opt_str, str_eq};
use crate::util::{json_string, text_of_json};
use crate::wire::{exact, max_nesting, parsed};

verus! {

/// A text, or the empty one where there is none.
pub open spec fn or_empty(text: Option<Seq<char>>) -> Seq<char> {
    match text {
        Some(t) => t,
        None => Seq::empty(),
    }
}

/// The function name in a `functionCall` or `functionResponse`.
pub open spec fn function_name(o: Obj) -> Seq<char> {
    or_empty(string_in(o.get("name"@)))
}

/// Reads the required function name from a `functionCall` or `functionResponse`.
pub fn gemini_function_name(object: &JsonObject) -> (name: String)
    ensures
        name@ == function_name(object@),
{
    text_or_empty(json_str(object.get("name")))
}

pub(crate) fn text_or_empty(text: Option<&str>) -> (r: String)
    ensures
        r@ == or_empty(opt_str(text)),
{
    match text {
        Some(t) => t.to_owned(),
        None => String::new(),
    }
}

/// A part that the model has no shape for.
pub open spec fn unknown(raw: Json) -> BlockView {
    BlockView::Unknown { provider: GEMINI_FORMAT@, raw }
}

/// Wraps a part that the model has no shape for, so that it can be sent again.
pub fn gemini_unknown(raw: JsonValue) -> (b: ContentBlock)
    ensures
        b@ == unknown(raw@),
{
    ContentBlock::Unknown { provider: FormatId::new(GEMINI_FORMAT), raw }
}

/// A part with a text: reasoning where it is marked as a thought.
pub open spec fn text_block(part: Obj, text: Seq<char>) -> BlockView {
    if bool_in(part.get("thought"@)) == Some(true) {
        BlockView::Reasoning {
            text,
            signature: string_in(part.get("thoughtSignature"@)),
            details: Seq::empty(),
        }
    } else {
        BlockView::Text { text }
    }
}

/// A `functionCall`, with the id that the next call gets.
pub open spec fn call_block(call: Obj, ids: IdsView, policy: TranslationPolicy) -> BlockView {
    BlockView::ToolCall {
        id: next_id(ids, string_in(call.get("id"@)), policy),
        name: function_name(call),
        arguments: match call.get("args"@) {
            Some(args) => args,
            None => Json::Object(Map::empty()),
        },
    }
}

/// A `functionResponse`, with the id of the call that it answers.
pub open spec fn result_block(result: Obj, ids: IdsView) -> BlockView {
    BlockView::ToolResult {
        tool_call_id: answer_id(ids, string_in(result.get("id"@)), function_name(result)),
        content: seq![
            BlockView::Text {
                text: match result.get("response"@) {
                    Some(response) => text_of_json(response),
                    None => Seq::empty(),
                },
            },
        ],
        is_error: None,
    }
}

/// Data as a file carries it: a data URI where the media type is known.
pub open spec fn file_text(media_type: Option<Seq<char>>, data: Seq<char>) -> Seq<char> {
    match media_type {
        Some(t) => "data:"@ + t + ";base64,"@ + data,
        None => data,
    }
}

/// An `inlineData` part, by the kind of its media type.
pub open spec fn blob_block(blob: Obj) -> BlockView {
    let media_type = string_in(blob.get("mimeType"@));
    let data = or_empty(string_in(blob.get("data"@)));
    let kind = kind_of(media_type);
    if kind == Some("image"@) {
        BlockView::Image { source: ImageSourceView::Base64 { media_type, data } }
    } else if kind == Some("audio"@) {
        BlockView::Audio { source: MediaSourceView::Base64 { media_type, data } }
    } else if kind == Some("video"@) {
        BlockView::Video { source: MediaSourceView::Base64 { media_type, data } }
    } else {
        BlockView::File {
            source: FileSourceView::FileData {
                data: file_text(media_type, data),
                filename: string_in(blob.get("displayName"@)),
            },
        }
    }
}

/// A `fileData` part, where it has a URI and a media type that the model has a shape for.
pub open spec fn file_block(file: Obj) -> Option<BlockView> {
    let media_type = string_in(file.get("mimeType"@));
    let kind = kind_of(media_type);
    match string_in(file.get("fileUri"@)) {
        Some(url) => if kind == Some("image"@) {
            Some(BlockView::Image { source: ImageSourceView::Url { url, detail: None } })
        } else if kind == Some("audio"@) {
            Some(BlockView::Audio { source: MediaSourceView::Url { url, media_type } })
        } else if kind == Some("video"@) {
            Some(BlockView::Video { source: MediaSourceView::Url { url, media_type } })
        } else {
            None
        },
        None => None,
    }
}

/// The block that a part says. The first data field that the part has decides.
pub open spec fn part_block(part: Obj, ids: IdsView, policy: TranslationPolicy) -> BlockView {
    if let Some(text) = string_in(part.get("text"@)) {
        text_block(part, text)
    } else if let Some(call) = object_in(part.get("functionCall"@)) {
        call_block(call, ids, policy)
    } else if let Some(result) = object_in(part.get("functionResponse"@)) {
        result_block(result, ids)
    } else if let Some(blob) = object_in(part.get("inlineData"@)) {
        blob_block(blob)
    } else if let Some(file) = object_in(part.get("fileData"@)) {
        match file_block(file) {
            Some(b) => b,
            None => unknown(Json::Object(part)),
        }
    } else {
        unknown(Json::Object(part))
    }
}

/// The response in an item of a `parts` array that is read as a function response.
pub open spec fn item_response(item: Json) -> Option<Json> {
    if string_in(field(item, "text"@)) is Some || object_in(field(item, "functionCall"@)) is Some {
        None
    } else {
        match object_in(field(item, "functionResponse"@)) {
            Some(result) => result.get("response"@),
            None => None,
        }
    }
}

/// Whether the block `b` that was read from `item` is written with the response that `item`
/// has, where that is an object without numbers in floating point.
pub open spec fn response_kept(item: Json, b: BlockView) -> bool {
    item_response(item) matches Some(response) ==> response is Object && exact(
        response,
        max_nesting(),
    ) ==> {
        &&& b matches BlockView::ToolResult { content, is_error, .. }
        &&& response_json(content, is_error) == response
    }
}

/// Whether all function responses in `parts` are kept in the content that was read from them.
pub open spec fn responses_kept(parts: Option<Json>, content: Seq<BlockView>) -> bool {
    array_in(parts) matches Some(items) ==> forall|i: int|
        0 <= i < items.len() ==> response_kept(#[trigger] items[i], content[i])
}

/// The response of a result with one text is what that text stands for.
pub proof fn lemma_response_of_text(text: Seq<char>, is_error: Option<bool>)
    ensures
        response_json(seq![BlockView::Text { text }], is_error) == text_response(
            text,
            parsed(text),
            is_error,
        ),
{
    let content = seq![BlockView::Text { text }];
    let f = |b: BlockView| block_text(b);
    content.lemma_filter_map_take_succ(f, 0);
    assert(content.take(0).filter_map(f) =~= Seq::<Seq<char>>::empty());
    assert(content.take(1) =~= content);
    assert(block_texts(content) =~= seq![text]);
}

/// The conversation after a part: a call is pending from then on, a response answers one.
pub open spec fn part_ids(part: Obj, ids: IdsView, policy: TranslationPolicy) -> IdsView {
    if string_in(part.get("text"@)) is Some {
        ids
    } else if let Some(call) = object_in(part.get("functionCall"@)) {
        after_call(ids, string_in(call.get("id"@)), function_name(call), policy)
    } else if let Some(result) = object_in(part.get("functionResponse"@)) {
        after_answer(ids, string_in(result.get("id"@)), function_name(result))
    } else {
        ids
    }
}

fn decode_blob(blob: &JsonObject) -> (b: ContentBlock)
    ensures
        b@ == blob_block(blob@),
{
    let media_type = json_text(blob.get("mimeType"));
    let data = text_or_empty(json_str(blob.get("data")));
    match media_kind(opt_borrow(&media_type)) {
        Some(kind) => {
            if str_eq(kind, "image") {
                return ContentBlock::Image { source: ImageSource::Base64 { media_type, data } };
            }
            if str_eq(kind, "audio") {
                return ContentBlock::Audio { source: MediaSource::Base64 { media_type, data } };
            }
            if str_eq(kind, "video") {
                return ContentBlock::Video { source: MediaSource::Base64 { media_type, data } };
            }
        },
        None => {},
    }
    // Documents travel as data URIs in the model, which keeps their MIME type.
    let data = match media_type {
        Some(t) => {
            let mut uri = "data:".to_owned();
            uri.append(t.as_str());
            uri.append(";base64,");
            uri.append(data.as_str());
            uri
        },
        None => data,
    };
    let filename = json_text(blob.get("displayName"));
    ContentBlock::File { source: FileSource::FileData { data, filename } }
}

fn decode_file(file: &JsonObject) -> (b: Option<ContentBlock>)
    ensures
        b is Some <==> file_block(file@) is Some,
        b matches Some(x) ==> file_block(file@) == Some(x@),
{
    let url = match json_text(file.get("fileUri")) {
        Some(url) => url,
        None => return None,
    };
    let media_type = json_text(file.get("mimeType"));
    match media_kind(opt_borrow(&media_type)) {
        Some(kind) => {
            if str_eq(kind, "image") {
                return Some(
                    ContentBlock::Image { source: ImageSource::Url { url, detail: None } },
                );
            }
            if str_eq(kind, "audio") {
                return Some(ContentBlock::Audio { source: MediaSource::Url { url, media_type } });
            }
            if str_eq(kind, "video") {
                return Some(ContentBlock::Video { source: MediaSource::Url { url, media_type } });
            }
        },
        None => {},
    }
    None
}

/// Decodes one Gemini part. `thought` and `thoughtSignature` are siblings of the data
/// field, not part kinds of their own.
pub fn decode_gemini_part(
    part: &JsonObject,
    ids: &mut GeminiToolIds,
    policy: &TranslationPolicy,
) -> (b: ContentBlock)
    requires
        old(ids).counter < u128::MAX,
    ensures
        b@ == part_block(part@, old(ids)@, *policy),
        final(ids)@ == part_ids(part@, old(ids)@, *policy),
        response_kept(Json::Object(part@), b@),
{
    match json_text(part.get("text")) {
        Some(text) => {
            if json_bool(part.get("thought")) == Some(true) {
                let details: Vec<JsonValue> = Vec::new();
                let signature = json_text(part.get("thoughtSignature"));
                let b = ContentBlock::Reasoning { text, signature, details };
                assert(b@ == part_block(part@, old(ids)@, *policy)) by {
                    assert(json_items(details@) =~= Seq::<Json>::empty());
                }
                return b;
            }
            return ContentBlock::Text { text };
        },
        None => {},
    }
    match json_object(part.get("functionCall")) {
        Some(call) => {
            let name = gemini_function_name(call);
            let id = ids.call_id(json_str(call.get("id")), name.as_str(), policy);
            let arguments = match call.get("args") {
                Some(args) => args.clone(),
                None => JsonValue::Object(JsonObject::new()),
            };
            return ContentBlock::ToolCall(ToolCall { id, name, arguments });
        },
        None => {},
    }
    match json_object(part.get("functionResponse")) {
        Some(result) => {
            let name = gemini_function_name(result);
            let tool_call_id = ids.result_id(json_str(result.get("id")), name.as_str());
            let text = match result.get("response") {
                Some(response) => json_string(response),
                None => String::new(),
            };
            let mut content: Vec<ContentBlock> = Vec::new();
            content.push(ContentBlock::Text { text });
            let b = ContentBlock::ToolResult(
                ToolResult { tool_call_id, content, is_error: None },
            );
            assert(b@ == part_block(part@, old(ids)@, *policy)) by {
                assert(blocks(content@) =~= seq![BlockView::Text { text: text@ }]);
            }
            proof {
                lemma_response_of_text(text@, None);
            }
            return b;
        },
        None => {},
    }
    match json_object(part.get("inlineData")) {
        Some(blob) => return decode_blob(blob),
        None => {},
    }
    match json_object(part.get("fileData")) {
        Some(file) => match decode_file(file) {
            Some(b) => return b,
            None => {},
        },
        None => {},
    }
    gemini_unknown(JsonValue::Object(part.clone()))
}

/// The block that an item of a `parts` array says.
pub open spec fn item_block(item: Json, ids: IdsView, policy: TranslationPolicy) -> BlockView {
    match item {
        Json::Object(part) => part_block(part, ids, policy),
        other => unknown(other),
    }
}

/// The conversation after an item of a `parts` array.
pub open spec fn item_ids(item: Json, ids: IdsView, policy: TranslationPolicy) -> IdsView {
    match item {
        Json::Object(part) => part_ids(part, ids, policy),
        _ => ids,
    }
}

/// The conversation after the first `n` items.
pub open spec fn ids_after(
    items: Seq<Json>,
    n: int,
    ids: IdsView,
    policy: TranslationPolicy,
) -> IdsView
    decreases n,
{
    if n <= 0 {
        ids
    } else {
        item_ids(items[n - 1], ids_after(items, n - 1, ids, policy), policy)
    }
}

/// The blocks that the items of a `parts` array say, each read in the conversation that the
/// items before it left.
pub open spec fn items_blocks(
    items: Seq<Json>,
    ids: IdsView,
    policy: TranslationPolicy,
) -> Seq<BlockView> {
    Seq::new(items.len(), |i: int| item_block(items[i], ids_after(items, i, ids, policy), policy))
}

/// The blocks that `parts` at `path` say.
pub open spec fn parts_blocks(
    parts: Option<Json>,
    path: Seq<char>,
    ids: IdsView,
    policy: TranslationPolicy,
) -> Result<Seq<BlockView>, ErrorView> {
    match parts {
        None => Ok(Seq::empty()),
        Some(Json::Array(items)) => Ok(items_blocks(items, ids, policy)),
        Some(_) => Err(ErrorView::InvalidType { path, expected: "array"@ }),
    }
}

/// The conversation after `parts`.
pub open spec fn parts_ids(
    parts: Option<Json>,
    ids: IdsView,
    policy: TranslationPolicy,
) -> IdsView {
    match parts {
        Some(Json::Array(items)) => ids_after(items, items.len() as int, ids, policy),
        _ => ids,
    }
}

/// A part counts at most one call.
pub proof fn lemma_counter(items: Seq<Json>, n: int, ids: IdsView, policy: TranslationPolicy)
    requires
        0 <= n <= items.len(),
    ensures
        ids.counter <= ids_after(items, n, ids, policy).counter <= ids.counter + n,
    decreases n,
{
    if n > 0 {
        lemma_counter(items, n - 1, ids, policy);
    }
}

/// Decodes a Gemini `parts` array into content blocks.
pub fn decode_gemini_parts(
    parts: Option<&JsonValue>,
    path: &str,
    ids: &mut GeminiToolIds,
    policy: &TranslationPolicy,
) -> (r: Result<Vec<ContentBlock>, TranslationError>)
    requires
        old(ids).counter + usize::MAX <= u128::MAX,
    ensures
        match r {
            Ok(content) => parts_blocks(opt_json(parts), path@, old(ids)@, *policy) == Ok::<
                Seq<BlockView>,
                ErrorView,
            >(blocks(content@)),
            Err(e) => parts_blocks(opt_json(parts), path@, old(ids)@, *policy) == Err::<
                Seq<BlockView>,
                ErrorView,
            >(e@),
        },
        final(ids)@ == parts_ids(opt_json(parts), old(ids)@, *policy),
        r matches Ok(content) ==> responses_kept(opt_json(parts), blocks(content@)),
        final(ids).counter <= old(ids).counter + usize::MAX,
{
    let mut content: Vec<ContentBlock> = Vec::new();
    let items = match parts {
        None => {
            assert(blocks(content@) =~= Seq::<BlockView>::empty());
            return Ok(content);
        },
        Some(JsonValue::Array(items)) => items,
        Some(_) => {
            return Err(
                TranslationError::InvalidType { path: path.to_owned(), expected: "array" },
            );
        },
    };
    let ghost all = json_items(items@);
    let ghost start = ids@;
    let mut i: usize = 0;
    while i < items.len()
        invariant
            i <= items@.len(),
            all == json_items(items@),
            start.counter + usize::MAX <= u128::MAX,
            ids@ == ids_after(all, i as int, start, *policy),
            blocks(content@) == items_blocks(all, start, *policy).take(i as int),
            forall|j: int|
                0 <= j < i ==> response_kept(#[trigger] all[j], blocks(content@)[j]),
        decreases items@.len() - i,
    {
        proof {
            lemma_counter(all, i as int, start, *policy);
            assert(all[i as int] == items@[i as int]@);
        }
        let b = match &items[i] {
            JsonValue::Object(part) => decode_gemini_part(part, ids, policy),
            other => gemini_unknown(other.clone()),
        };
        proof {
            let whole = items_blocks(all, start, *policy);
            lemma_blocks_pushed(content@, b);
            assert(whole[i as int] == b@);
            assert(whole.take(i + 1) =~= whole.take(i as int).push(whole[i as int]));
        }
        content.push(b);
        i += 1;
    }
    proof {
        lemma_counter(all, i as int, start, *policy);
        let whole = items_blocks(all, start, *policy);
        assert(whole.take(i as int) =~= whole);
    }
    Ok(content)
}

} // verus!
