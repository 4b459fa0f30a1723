//! Laws on what the parts of a content say, for all parts.
use vstd::prelude::*;
use vstd::seq_lib::*;

use crate::gemini::decode::{ids_after, item_block, item_ids, items_blocks, part_block, part_ids};
use crate::gemini::ids::{after_answer, answer_id, no_calls, CallView, IdsView};
use crate::gemini::media::kind_of;
use crate::json::{Json, Obj};
use crate::laws::fields::{begins, has_object, has_text, name_at, text_at, text_or_none};
use crate::laws::keys::lemma_part_keys;
use crate::llm::{BlockView, FileSourceView, ImageSourceView, MediaSourceView};
use crate::policy::{DeterministicIdPolicy, TranslationPolicy};
use crate::text::{first_index, lemma_first_index};
use crate::util::stable_id_of;
use crate::wire::rendered;

verus! {

/// A part with a string under `text` is a text, whatever else it has, unless it is marked as a
/// thought: then it is reasoning, with the string under `thoughtSignature` as its signature.
pub proof fn law_text_is_read(part: Obj, ids: IdsView, policy: TranslationPolicy)
    requires
        part.contains_key("text"@),
        part["text"@] is String,
    ensures
        part.contains_key("thought"@) && part["thought"@] == Json::Bool(true) ==> part_block(
            part,
            ids,
            policy,
        ) == (BlockView::Reasoning {
            text: part["text"@]->String_0,
            signature: text_at(part, "thoughtSignature"@),
            details: Seq::empty(),
        }),
        !(part.contains_key("thought"@) && part["thought"@] == Json::Bool(true)) ==> part_block(
            part,
            ids,
            policy,
        ) == (BlockView::Text { text: part["text"@]->String_0 }),
        part_ids(part, ids, policy) == ids,
{
}

/// A part without a text and with an object under `functionCall` is a call: to the name that it
/// gives, with the arguments that it gives, under the id that it gives or else one made from the
/// number of the call. From then on the call waits for its response behind all others.
pub proof fn law_call_is_read(part: Obj, call: Obj, ids: IdsView, policy: TranslationPolicy)
    requires
        !has_text(part, "text"@),
        part.contains_key("functionCall"@),
        part["functionCall"@] == Json::Object(call),
    ensures
        part_block(part, ids, policy) matches BlockView::ToolCall { id, name, arguments } && name
            == text_or_none(call, "name"@) && arguments == (if call.contains_key("args"@) {
            call["args"@]
        } else {
            Json::Object(Map::empty())
        }) && id == (match (name_at(call, "id"@), policy.deterministic_ids) {
            (Some(given), _) => given,
            (None, DeterministicIdPolicy::GenerateStable { prefix }) => stable_id_of(
                prefix@,
                ids.counter + 1,
            ),
            (None, DeterministicIdPolicy::Preserve) => Seq::empty(),
        }) && part_ids(part, ids, policy) == (IdsView {
            counter: ids.counter + 1,
            pending: ids.pending.push(CallView { name, id }),
        }),
{
}

/// A part without a text or a call and with an object under `functionResponse` is a result with
/// one text: the response itself where that is a string, its JSON where it is anything else, and
/// nothing where there is none. It never counts as an error.
pub proof fn law_response_is_read(part: Obj, result: Obj, ids: IdsView, policy: TranslationPolicy)
    requires
        !has_text(part, "text"@),
        !has_object(part, "functionCall"@),
        part.contains_key("functionResponse"@),
        part["functionResponse"@] == Json::Object(result),
    ensures
        part_block(part, ids, policy) == (BlockView::ToolResult {
            tool_call_id: answer_id(ids, text_at(result, "id"@), text_or_none(result, "name"@)),
            content: seq![
                BlockView::Text {
                    text: if !result.contains_key("response"@) {
                        Seq::empty()
                    } else if result["response"@] is String {
                        result["response"@]->String_0
                    } else {
                        rendered(result["response"@])
                    },
                },
            ],
            is_error: None,
        }),
        part_ids(part, ids, policy) == after_answer(
            ids,
            text_at(result, "id"@),
            text_or_none(result, "name"@),
        ),
{
}

proof fn lemma_first_slash(s: Seq<char>, c: char)
    requires
        s.contains(c),
    ensures
        0 <= first_index(s, c) < s.len(),
        s[first_index(s, c)] == c,
    decreases s.len(),
{
    if s[0] != c {
        let i = choose|i: int| 0 <= i < s.len() && s[i] == c;
        assert(s.skip(1)[i - 1] == c);
        assert(s.skip(1).contains(c));
        lemma_first_slash(s.skip(1), c);
    }
}

/// The kind of a media type is what stands before its first slash.
pub proof fn law_kind_stands_before_the_slash(media_type: Seq<char>, kind: Seq<char>)
    requires
        !kind.contains('/'),
    ensures
        kind_of(Some(media_type)) == Some(kind) <==> begins(Some(media_type), kind.push('/')),
        kind_of(None) is None,
{
    let start = kind.push('/');
    let n = kind.len() as int;
    if begins(Some(media_type), start) {
        assert(media_type.take(n + 1)[n] == '/');
        assert forall|j: int| 0 <= j < n implies media_type[j] != '/' by {
            assert(media_type.take(n + 1)[j] == start[j]);
            assert(kind.contains(kind[j]));
        }
        lemma_first_index(media_type, '/', n);
        assert(media_type.take(n) =~= kind) by {
            assert forall|j: int| 0 <= j < n implies media_type[j] == kind[j] by {
                assert(media_type.take(n + 1)[j] == start[j]);
            }
        }
    }
    if kind_of(Some(media_type)) == Some(kind) {
        lemma_first_slash(media_type, '/');
        assert(media_type.take(n + 1) =~= start);
    }
}

proof fn lemma_media_kinds(media_type: Option<Seq<char>>)
    ensures
        kind_of(media_type) == Some("image"@) <==> begins(media_type, "image/"@),
        kind_of(media_type) == Some("audio"@) <==> begins(media_type, "audio/"@),
        kind_of(media_type) == Some("video"@) <==> begins(media_type, "video/"@),
{
    reveal_strlit("image");
    reveal_strlit("audio");
    reveal_strlit("video");
    reveal_strlit("image/");
    reveal_strlit("audio/");
    reveal_strlit("video/");
    assert("image"@.push('/') =~= "image/"@);
    assert("audio"@.push('/') =~= "audio/"@);
    assert("video"@.push('/') =~= "video/"@);
    if let Some(t) = media_type {
        law_kind_stands_before_the_slash(t, "image"@);
        law_kind_stands_before_the_slash(t, "audio"@);
        law_kind_stands_before_the_slash(t, "video"@);
    }
}

/// A media type begins in one way only.
proof fn lemma_one_kind(media_type: Option<Seq<char>>)
    ensures
        !(begins(media_type, "image/"@) && begins(media_type, "audio/"@)),
        !(begins(media_type, "image/"@) && begins(media_type, "video/"@)),
        !(begins(media_type, "audio/"@) && begins(media_type, "video/"@)),
{
    lemma_media_kinds(media_type);
    lemma_part_keys();
}

/// Inline data are an image, audio or video by the beginning of their media type, with their
/// media type and data. Any other data are a file: a data URI where the media type is known,
/// else the bare data, under the display name.
pub proof fn law_inline_data_are_read(
    part: Obj,
    blob: Obj,
    ids: IdsView,
    policy: TranslationPolicy,
)
    requires
        !has_text(part, "text"@),
        !has_object(part, "functionCall"@),
        !has_object(part, "functionResponse"@),
        part.contains_key("inlineData"@),
        part["inlineData"@] == Json::Object(blob),
    ensures
        begins(text_at(blob, "mimeType"@), "image/"@) ==> part_block(part, ids, policy) == (
        BlockView::Image {
            source: ImageSourceView::Base64 {
                media_type: text_at(blob, "mimeType"@),
                data: text_or_none(blob, "data"@),
            },
        }),
        begins(text_at(blob, "mimeType"@), "audio/"@) ==> part_block(part, ids, policy) == (
        BlockView::Audio {
            source: MediaSourceView::Base64 {
                media_type: text_at(blob, "mimeType"@),
                data: text_or_none(blob, "data"@),
            },
        }),
        begins(text_at(blob, "mimeType"@), "video/"@) ==> part_block(part, ids, policy) == (
        BlockView::Video {
            source: MediaSourceView::Base64 {
                media_type: text_at(blob, "mimeType"@),
                data: text_or_none(blob, "data"@),
            },
        }),
        !begins(text_at(blob, "mimeType"@), "image/"@) && !begins(
            text_at(blob, "mimeType"@),
            "audio/"@,
        ) && !begins(text_at(blob, "mimeType"@), "video/"@) ==> part_block(part, ids, policy) == (
        BlockView::File {
            source: FileSourceView::FileData {
                data: if has_text(blob, "mimeType"@) {
                    "data:"@ + blob["mimeType"@]->String_0 + ";base64,"@ + text_or_none(
                        blob,
                        "data"@,
                    )
                } else {
                    text_or_none(blob, "data"@)
                },
                filename: text_at(blob, "displayName"@),
            },
        }),
        part_ids(part, ids, policy) == ids,
{
    lemma_media_kinds(text_at(blob, "mimeType"@));
    lemma_one_kind(text_at(blob, "mimeType"@));
}

/// A reference to a file is an image, audio or video by the beginning of its media type, with
/// its URI. A reference of any other type, or without a URI, is kept as the part that it is.
pub proof fn law_file_data_are_read(part: Obj, file: Obj, ids: IdsView, policy: TranslationPolicy)
    requires
        !has_text(part, "text"@),
        !has_object(part, "functionCall"@),
        !has_object(part, "functionResponse"@),
        !has_object(part, "inlineData"@),
        part.contains_key("fileData"@),
        part["fileData"@] == Json::Object(file),
    ensures
        has_text(file, "fileUri"@) && begins(text_at(file, "mimeType"@), "image/"@) ==> part_block(
            part,
            ids,
            policy,
        ) == (BlockView::Image {
            source: ImageSourceView::Url { url: text_or_none(file, "fileUri"@), detail: None },
        }),
        has_text(file, "fileUri"@) && begins(text_at(file, "mimeType"@), "audio/"@) ==> part_block(
            part,
            ids,
            policy,
        ) == (BlockView::Audio {
            source: MediaSourceView::Url {
                url: text_or_none(file, "fileUri"@),
                media_type: text_at(file, "mimeType"@),
            },
        }),
        has_text(file, "fileUri"@) && begins(text_at(file, "mimeType"@), "video/"@) ==> part_block(
            part,
            ids,
            policy,
        ) == (BlockView::Video {
            source: MediaSourceView::Url {
                url: text_or_none(file, "fileUri"@),
                media_type: text_at(file, "mimeType"@),
            },
        }),
        !has_text(file, "fileUri"@) || (!begins(text_at(file, "mimeType"@), "image/"@) && !begins(
            text_at(file, "mimeType"@),
            "audio/"@,
        ) && !begins(text_at(file, "mimeType"@), "video/"@)) ==> part_block(part, ids, policy) == (
        BlockView::Unknown { provider: "gemini_generate_content"@, raw: Json::Object(part) }),
        part_ids(part, ids, policy) == ids,
{
    lemma_media_kinds(text_at(file, "mimeType"@));
    lemma_one_kind(text_at(file, "mimeType"@));
}

/// A part without any of the five kinds of data, and an item that is no object, are kept as they
/// are.
pub proof fn law_other_parts_are_kept(item: Json, ids: IdsView, policy: TranslationPolicy)
    requires
        item matches Json::Object(part) ==> !has_text(part, "text"@) && !has_object(
            part,
            "functionCall"@,
        ) && !has_object(part, "functionResponse"@) && !has_object(part, "inlineData"@)
            && !has_object(part, "fileData"@),
    ensures
        item_block(item, ids, policy) == (BlockView::Unknown {
            provider: "gemini_generate_content"@,
            raw: item,
        }),
        item_ids(item, ids, policy) == ids,
{
}

/// A list of parts says one block for each, in order. Each part is read in the conversation that
/// the parts before it left, and the first one in the conversation before the list.
pub proof fn law_parts_are_read_in_order(
    items: Seq<Json>,
    n: int,
    ids: IdsView,
    policy: TranslationPolicy,
)
    requires
        0 <= n < items.len(),
    ensures
        items_blocks(items, ids, policy).len() == items.len(),
        ids_after(items, 0, ids, policy) == ids,
        items[n] matches Json::Object(part) ==> items_blocks(items, ids, policy)[n] == part_block(
            part,
            ids_after(items, n, ids, policy),
            policy,
        ) && ids_after(items, n + 1, ids, policy) == part_ids(
            part,
            ids_after(items, n, ids, policy),
            policy,
        ),
        !(items[n] is Object) ==> items_blocks(items, ids, policy)[n] == (BlockView::Unknown {
            provider: "gemini_generate_content"@,
            raw: items[n],
        }) && ids_after(items, n + 1, ids, policy) == ids_after(items, n, ids, policy),
        no_calls().counter == 0,
        no_calls().pending.len() == 0,
{
}

} // verus!
