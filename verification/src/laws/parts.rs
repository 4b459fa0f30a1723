//! Laws on what a part says and how it is written again.
use vstd::prelude::*;
use vstd::seq_lib::*;

use crate::gemini::decode::{file_text, ids_after, item_block, items_blocks, response_kept, unknown};
use crate::gemini::encode::{
    args_json, block_note, block_part, call_part, content_notes, content_parts, name_or_id,
    response_json, thought_part,
};
use crate::gemini::ids::{answer_id, next_id, no_calls, synthesized, wire_id, IdsView};
use crate::gemini::media::{data_uri, inline_data, kind_of, single, up_to, with_text};
use crate::gemini::GEMINI_FORMAT;
use crate::json::{string_in, Json, Obj};
use crate::laws::ids::law_made_ids_are_withheld;
use crate::laws::keys::lemma_part_keys;
use crate::llm::{BlockView, FileSourceView, ImageSourceView, MediaSourceView};
use crate::policy::TranslationPolicy;
use crate::text::lemma_first_index;
use crate::wire::{exact, max_nesting};

verus! {

/// The part that comes out where a part is read and written again.
pub open spec fn hop(
    item: Json,
    ids: IdsView,
    names: Map<Seq<char>, Seq<char>>,
    policy: TranslationPolicy,
) -> Option<Json> {
    block_part(item_block(item, ids, policy), names, policy)
}

/// A part that the model has no shape for comes out of a hop as it went in, and nothing is
/// reported.
pub proof fn law_unknown_part_survives(
    item: Json,
    ids: IdsView,
    names: Map<Seq<char>, Seq<char>>,
    policy: TranslationPolicy,
)
    requires
        item_block(item, ids, policy) is Unknown,
    ensures
        hop(item, ids, names, policy) == Some(item),
        block_note(item_block(item, ids, policy)) is None,
{
    assert(item_block(item, ids, policy) == unknown(item));
}

/// A text comes out of a hop as it went in.
pub proof fn law_text_part_survives(
    text: Seq<char>,
    ids: IdsView,
    names: Map<Seq<char>, Seq<char>>,
    policy: TranslationPolicy,
)
    ensures
        item_block(single("text"@, Json::String(text)), ids, policy) == (BlockView::Text { text }),
        hop(single("text"@, Json::String(text)), ids, names, policy) == Some(
            single("text"@, Json::String(text)),
        ),
{
    lemma_part_keys();
}

/// A thought comes out of a hop as it went in, unless it says nothing at all.
pub proof fn law_thought_part_survives(
    text: Seq<char>,
    signature: Option<Seq<char>>,
    ids: IdsView,
    names: Map<Seq<char>, Seq<char>>,
    policy: TranslationPolicy,
)
    ensures
        item_block(thought_part(text, signature), ids, policy) == (BlockView::Reasoning {
            text,
            signature,
            details: Seq::empty(),
        }),
        hop(thought_part(text, signature), ids, names, policy) == (if text.len() == 0
            && signature is None {
            None
        } else {
            Some(thought_part(text, signature))
        }),
{
    lemma_part_keys();
}

/// The `functionCall` part with these fields.
pub open spec fn sent_call(name: Seq<char>, args: Obj, id: Option<Seq<char>>) -> Json {
    let call = map!["name"@ => Json::String(name), "args"@ => Json::Object(args)];
    single("functionCall"@, Json::Object(with_text(call, "id"@, id)))
}

/// A call comes out of a hop as it went in, with an id where it had one and without where it
/// had none. An id of the very shape that the policy makes is left out.
pub proof fn law_call_part_survives(
    name: Seq<char>,
    args: Obj,
    id: Option<Seq<char>>,
    ids: IdsView,
    names: Map<Seq<char>, Seq<char>>,
    policy: TranslationPolicy,
)
    requires
        id matches Some(x) ==> x.len() > 0,
    ensures
        item_block(sent_call(name, args, id), ids, policy) == (BlockView::ToolCall {
            id: next_id(ids, id, policy),
            name,
            arguments: Json::Object(args),
        }),
        hop(sent_call(name, args, id), ids, names, policy) == Some(
            sent_call(
                name,
                args,
                match id {
                    Some(x) => if synthesized(x, policy) {
                        None
                    } else {
                        Some(x)
                    },
                    None => None,
                },
            ),
        ),
{
    lemma_part_keys();
    let call = map!["name"@ => Json::String(name), "args"@ => Json::Object(args)];
    let fields = with_text(call, "id"@, id);
    assert(string_in(fields.get("id"@)) == id);
    assert(string_in(fields.get("name"@)) == Some(name));
    assert(fields.get("args"@) == Some(Json::Object(args)));
    if id is None {
        law_made_ids_are_withheld(ids.counter + 1, id, policy);
    }
}

/// The `functionResponse` part with these fields.
pub open spec fn sent_response(name: Seq<char>, response: Obj, id: Option<Seq<char>>) -> Json {
    let result = map!["name"@ => Json::String(name), "response"@ => Json::Object(response)];
    single("functionResponse"@, Json::Object(with_text(result, "id"@, id)))
}

/// A function response whose response object is kept, as reading promises of one without
/// numbers in floating point, comes out of a hop with that object. It comes out under its
/// name where that is the name of the call that it answers, and with its id where it had one
/// that the policy does not make.
pub proof fn law_response_part_survives(
    name: Seq<char>,
    response: Obj,
    id: Option<Seq<char>>,
    ids: IdsView,
    names: Map<Seq<char>, Seq<char>>,
    policy: TranslationPolicy,
)
    requires
        id matches Some(x) ==> x.len() > 0,
        exact(Json::Object(response), max_nesting()),
        response_kept(
            sent_response(name, response, id),
            item_block(sent_response(name, response, id), ids, policy),
        ),
        name_or_id(names, answer_id(ids, id, name)) == name,
    ensures
        hop(sent_response(name, response, id), ids, names, policy) == Some(
            sent_response(name, response, wire_id(answer_id(ids, id, name), policy)),
        ),
        id matches Some(x) ==> !synthesized(x, policy) ==> hop(
            sent_response(name, response, id),
            ids,
            names,
            policy,
        ) == Some(sent_response(name, response, id)),
{
    lemma_part_keys();
    let result = map!["name"@ => Json::String(name), "response"@ => Json::Object(response)];
    let fields = with_text(result, "id"@, id);
    assert(string_in(fields.get("id"@)) == id);
    assert(string_in(fields.get("name"@)) == Some(name));
    assert(fields.get("response"@) == Some(Json::Object(response)));
}

/// Whether the model has a shape of its own for media of this type.
pub open spec fn is_media(media_type: Seq<char>) -> bool {
    ||| kind_of(Some(media_type)) == Some("image"@)
    ||| kind_of(Some(media_type)) == Some("audio"@)
    ||| kind_of(Some(media_type)) == Some("video"@)
}

/// Inline images, audio and video come out of a hop as they went in.
pub proof fn law_inline_media_survive(
    media_type: Seq<char>,
    data: Seq<char>,
    ids: IdsView,
    names: Map<Seq<char>, Seq<char>>,
    policy: TranslationPolicy,
)
    requires
        is_media(media_type),
    ensures
        hop(inline_data(Some(media_type), data, None), ids, names, policy) == Some(
            inline_data(Some(media_type), data, None),
        ),
{
    lemma_part_keys();
}

/// A data URI that is made of a media type and a payload splits into the media type without
/// its parameters and the payload.
pub proof fn law_data_uri_splits(media_type: Seq<char>, data: Seq<char>)
    requires
        !media_type.contains(','),
        up_to(media_type, ';').len() > 0,
    ensures
        data_uri(file_text(Some(media_type), data)) == Some((up_to(media_type, ';'), data)),
{
    reveal_strlit("data:");
    reveal_strlit(";base64,");
    reveal_strlit(";base64");
    let url = file_text(Some(media_type), data);
    let rest = media_type + ";base64,"@ + data;
    assert(url.subrange(0, 5) =~= "data:"@);
    assert("data:"@.is_prefix_of(url));
    assert(url.skip(5) =~= rest);
    let n = media_type.len() as int;
    assert(rest[n + 7] == ',');
    assert forall|j: int| 0 <= j < n + 7 implies rest[j] != ',' by {
        if j < n {
            assert(rest[j] == media_type[j]);
            assert(media_type.contains(media_type[j]));
        } else {
            assert(rest[j] == ";base64,"@[j - n]);
        }
    }
    lemma_first_index(rest, ',', n + 7);
    let metadata = rest.take(n + 7);
    assert(rest.skip(n + 8) =~= data);
    assert(metadata =~= media_type + ";base64"@);
    assert(metadata.subrange(n, n + 7) =~= ";base64"@);
    assert(";base64"@.is_suffix_of(metadata));
    assert(metadata.take(n) =~= media_type);
}

/// Documents travel as data URIs, which keeps their media type: an inline document comes out
/// of a hop with the media type, less its parameters, the data and the name that it had.
pub proof fn law_inline_documents_survive(
    media_type: Seq<char>,
    data: Seq<char>,
    display_name: Option<Seq<char>>,
    ids: IdsView,
    names: Map<Seq<char>, Seq<char>>,
    policy: TranslationPolicy,
)
    requires
        !is_media(media_type),
        !media_type.contains(','),
        up_to(media_type, ';').len() > 0,
    ensures
        hop(inline_data(Some(media_type), data, display_name), ids, names, policy) == Some(
            inline_data(Some(up_to(media_type, ';')), data, display_name),
        ),
        !media_type.contains(';') ==> up_to(media_type, ';') == media_type,
{
    lemma_part_keys();
    law_data_uri_splits(media_type, data);
}

/// The `fileData` part with these fields.
pub open spec fn sent_file(url: Seq<char>, media_type: Option<Seq<char>>) -> Json {
    single(
        "fileData"@,
        Json::Object(with_text(map!["fileUri"@ => Json::String(url)], "mimeType"@, media_type)),
    )
}

/// References to audio and video come out of a hop as they went in; one to an image comes out
/// without its media type. A reference that is itself a base64 data URI is inlined.
pub proof fn law_referenced_media_survive(
    url: Seq<char>,
    media_type: Seq<char>,
    ids: IdsView,
    names: Map<Seq<char>, Seq<char>>,
    policy: TranslationPolicy,
)
    requires
        is_media(media_type),
    ensures
        hop(sent_file(url, Some(media_type)), ids, names, policy) == Some(
            match data_uri(url) {
                Some((inner, data)) => inline_data(Some(inner), data, None),
                None => sent_file(
                    url,
                    if kind_of(Some(media_type)) == Some("image"@) {
                        None
                    } else {
                        Some(media_type)
                    },
                ),
            },
        ),
{
    lemma_part_keys();
}

/// The arguments of a call and the response of a result are objects on the wire.
pub proof fn law_arguments_and_responses_are_objects(
    arguments: Json,
    content: Seq<BlockView>,
    is_error: Option<bool>,
)
    ensures
        args_json(arguments) is Object,
        response_json(content, is_error) is Object,
        arguments is Object ==> args_json(arguments) == arguments,
{
}

/// Of a block either a part is written or something is reported, except that an empty thought
/// is left out and that a result is written even where content of it is dropped.
pub proof fn law_nothing_is_dropped_in_silence(
    b: BlockView,
    names: Map<Seq<char>, Seq<char>>,
    policy: TranslationPolicy,
)
    ensures
        block_part(b, names, policy) is None ==> {
            ||| block_note(b) is Some
            ||| b matches BlockView::Reasoning { text, signature, .. } && text.len() == 0
                && signature is None
        },
        block_part(b, names, policy) is Some && block_note(b) is Some ==> b is ToolResult,
{
}

/// Whether a part can say the block as it is. A refusal is no more than a text on the wire,
/// results are paired anew, and what a part has no place for is lost.
pub open spec fn readable(b: BlockView, policy: TranslationPolicy) -> bool {
    match b {
        BlockView::Text { .. } => true,
        BlockView::Reasoning { text, signature, details } => details.len() == 0 && (text.len() > 0
            || signature is Some),
        BlockView::ToolCall { id, arguments, .. } => arguments is Object && wire_id(id, policy)
            == Some(id),
        BlockView::Image { source: ImageSourceView::Base64 { media_type, .. } } => kind_of(
            media_type,
        ) == Some("image"@),
        BlockView::Audio { source: MediaSourceView::Base64 { media_type, .. } } => kind_of(
            media_type,
        ) == Some("audio"@),
        BlockView::Video { source: MediaSourceView::Base64 { media_type, .. } } => kind_of(
            media_type,
        ) == Some("video"@),
        BlockView::Audio { source: MediaSourceView::Url { url, media_type } } => data_uri(
            url,
        ) is None && kind_of(media_type) == Some("audio"@),
        BlockView::Video { source: MediaSourceView::Url { url, media_type } } => data_uri(
            url,
        ) is None && kind_of(media_type) == Some("video"@),
        BlockView::File { source: FileSourceView::FileData { data, .. } } => match data_uri(data) {
            Some((media_type, payload)) => data == file_text(Some(media_type), payload)
                && !is_media(media_type),
            None => false,
        },
        BlockView::Unknown { provider, raw } => provider == GEMINI_FORMAT@ && item_block(
            raw,
            no_calls(),
            policy,
        ) is Unknown,
        _ => false,
    }
}

/// Whether parts can say all of `content` as it is.
pub open spec fn all_readable(content: Seq<BlockView>, policy: TranslationPolicy) -> bool {
    forall|i: int| 0 <= i < content.len() ==> readable(#[trigger] content[i], policy)
}

/// A block that a part can say is read back from the part that it is written as.
pub proof fn law_block_reads_back(
    b: BlockView,
    ids: IdsView,
    names: Map<Seq<char>, Seq<char>>,
    policy: TranslationPolicy,
)
    requires
        readable(b, policy),
    ensures
        block_part(b, names, policy) matches Some(part) && item_block(part, ids, policy) == b,
        block_note(b) is None,
{
    lemma_part_keys();
    match b {
        BlockView::Text { text } => law_text_part_survives(text, ids, names, policy),
        BlockView::Reasoning { text, signature, details } => {
            law_thought_part_survives(text, signature, ids, names, policy);
            assert(details =~= Seq::<Json>::empty());
        },
        BlockView::ToolCall { id, name, arguments } => {
            law_call_part_survives(name, arguments->Object_0, Some(id), ids, names, policy);
            assert(call_part(id, name, arguments, policy) == sent_call(
                name,
                arguments->Object_0,
                Some(id),
            ));
        },
        _ => {},
    }
}

/// Content that parts can say is read back from the parts that it is written as.
pub proof fn lemma_parts_read_back(
    content: Seq<BlockView>,
    names: Map<Seq<char>, Seq<char>>,
    ids: IdsView,
    policy: TranslationPolicy,
)
    requires
        all_readable(content, policy),
    ensures
        content_parts(content, names, policy).len() == content.len(),
        items_blocks(content_parts(content, names, policy), ids, policy) == content,
        content_notes(content).len() == 0,
{
    lemma_each_part(content, names, policy);
    let parts = content_parts(content, names, policy);
    assert forall|i: int| 0 <= i < content.len() implies items_blocks(parts, ids, policy)[i]
        == content[i] by {
        assert(readable(content[i], policy));
        law_block_reads_back(content[i], ids_after(parts, i, ids, policy), names, policy);
        assert(Some(parts[i]) == block_part(content[i], names, policy));
    }
    assert(items_blocks(parts, ids, policy) =~= content);
}

proof fn lemma_each_part(
    content: Seq<BlockView>,
    names: Map<Seq<char>, Seq<char>>,
    policy: TranslationPolicy,
)
    requires
        all_readable(content, policy),
    ensures
        content_notes(content).len() == 0,
        content_parts(content, names, policy).len() == content.len(),
        forall|i: int|
            0 <= i < content.len() ==> Some(#[trigger] content_parts(content, names, policy)[i])
                == block_part(content[i], names, policy),
    decreases content.len(),
{
    let f = |b: BlockView| block_part(b, names, policy);
    let g = |b: BlockView| block_note(b);
    if content.len() > 0 {
        let front = content.drop_last();
        let n = front.len() as int;
        assert forall|i: int| 0 <= i < front.len() implies readable(
            #[trigger] front[i],
            policy,
        ) by {
            assert(front[i] == content[i]);
        }
        lemma_each_part(front, names, policy);
        content.lemma_filter_map_take_succ(f, n);
        content.lemma_filter_map_take_succ(g, n);
        assert(content.take(n) =~= front);
        assert(content.take(n + 1) =~= content);
        assert(readable(content[n], policy));
        law_block_reads_back(content[n], no_calls(), names, policy);
        let parts = content_parts(content, names, policy);
        assert forall|i: int| 0 <= i < content.len() implies Some(#[trigger] parts[i])
            == block_part(content[i], names, policy) by {
            if i < n {
                assert(parts[i] == content_parts(front, names, policy)[i]);
            }
        }
    }
}

} // verus!
