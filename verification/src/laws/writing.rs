//! Laws on how content is written as parts, for all content.
use vstd::prelude::*;
use vstd::seq_lib::*;

use crate::common::{block_text, block_texts, joined};
use crate::gemini::encode::{
    block_note, block_part, content_notes, content_parts, lemma_filter_map_split,
};
use crate::gemini::ids::wire_id;
use crate::gemini::media::{data_uri, up_to};
use crate::json::Json;
use crate::laws::fields::{one, plus};
use crate::laws::parts::law_data_uri_splits;
use crate::llm::{BlockView, FileSourceView, ImageSourceView, MediaSourceView};
use crate::policy::TranslationPolicy;
use crate::text::{first_index, lemma_first_index};
use crate::wire::parsed;

verus! {

/// Content is written block by block: what two pieces are written as, and what is reported of
/// them, follows one another, and a single block is written as its part or left out.
pub proof fn law_content_is_written_in_order(
    a: Seq<BlockView>,
    b: Seq<BlockView>,
    block: BlockView,
    names: Map<Seq<char>, Seq<char>>,
    policy: TranslationPolicy,
)
    ensures
        content_parts(a + b, names, policy) == content_parts(a, names, policy) + content_parts(
            b,
            names,
            policy,
        ),
        content_notes(a + b) == content_notes(a) + content_notes(b),
        block_part(block, names, policy) matches Some(part) ==> content_parts(
            seq![block],
            names,
            policy,
        ) == seq![part],
        block_part(block, names, policy) is None ==> content_parts(
            seq![block],
            names,
            policy,
        ).len() == 0,
        block_note(block) matches Some(note) ==> content_notes(seq![block]) == seq![note],
        block_note(block) is None ==> content_notes(seq![block]).len() == 0,
{
    let f = |x: BlockView| block_part(x, names, policy);
    let g = |x: BlockView| block_note(x);
    let n = a.len() as int;
    lemma_filter_map_split(a + b, f, n);
    lemma_filter_map_split(a + b, g, n);
    assert((a + b).take(n) =~= a);
    assert((a + b).skip(n) =~= b);
    let s = seq![block];
    s.lemma_filter_map_take_succ(f, 0);
    s.lemma_filter_map_take_succ(g, 0);
    assert(s.take(1) =~= s);
    assert(s.take(0).filter_map(f) =~= Seq::<Json>::empty());
    assert(s.take(0).filter_map(g) =~= Seq::<Seq<char>>::empty());
    assert(block_part(block, names, policy) matches Some(part) ==> content_parts(s, names, policy)
        =~= seq![part]);
    assert(block_note(block) matches Some(note) ==> content_notes(s) =~= seq![note]);
}

/// A text and a refusal are written as their text and nothing else.
pub proof fn law_text_is_written(
    text: Seq<char>,
    names: Map<Seq<char>, Seq<char>>,
    policy: TranslationPolicy,
)
    ensures
        block_part(BlockView::Text { text }, names, policy) == Some(
            one("text"@, Json::String(text)),
        ),
        block_part(BlockView::Refusal { text }, names, policy) == Some(
            one("text"@, Json::String(text)),
        ),
        block_note(BlockView::Text { text }) is None,
        block_note(BlockView::Refusal { text }) is None,
{
}

/// A thought is written as its text, the mark and its signature. It is left out only where it
/// has neither a text nor a signature.
pub proof fn law_thought_is_written(
    text: Seq<char>,
    signature: Option<Seq<char>>,
    details: Seq<Json>,
    names: Map<Seq<char>, Seq<char>>,
    policy: TranslationPolicy,
)
    ensures
        text.len() > 0 || signature is Some ==> block_part(
            BlockView::Reasoning { text, signature, details },
            names,
            policy,
        ) == Some(
            Json::Object(
                plus(
                    Map::empty().insert("text"@, Json::String(text)).insert(
                        "thought"@,
                        Json::Bool(true),
                    ),
                    "thoughtSignature"@,
                    signature,
                ),
            ),
        ),
        text.len() == 0 && signature is None ==> block_part(
            BlockView::Reasoning { text, signature, details },
            names,
            policy,
        ) is None,
        block_note(BlockView::Reasoning { text, signature, details }) is None,
{
}

/// The `args` that arguments are to be written as: an object as it is, a text as the object
/// that it parses to or else under `raw`, nothing as an empty object, and anything else under
/// `value`.
pub open spec fn args_for(arguments: Json) -> Json {
    if arguments is Object {
        arguments
    } else if arguments is Null {
        Json::Object(Map::empty())
    } else if arguments is String {
        if parsed(arguments->String_0) is Some && parsed(arguments->String_0)->Some_0 is Object {
            parsed(arguments->String_0)->Some_0
        } else {
            one("raw"@, arguments)
        }
    } else {
        one("value"@, arguments)
    }
}

/// A call is written with its name, its arguments as an object and the id that goes on the wire.
pub proof fn law_call_is_written(
    id: Seq<char>,
    name: Seq<char>,
    arguments: Json,
    names: Map<Seq<char>, Seq<char>>,
    policy: TranslationPolicy,
)
    ensures
        block_part(BlockView::ToolCall { id, name, arguments }, names, policy) == Some(
            one(
                "functionCall"@,
                Json::Object(
                    plus(
                        Map::empty().insert("name"@, Json::String(name)).insert(
                            "args"@,
                            args_for(arguments),
                        ),
                        "id"@,
                        wire_id(id, policy),
                    ),
                ),
            ),
        ),
        block_note(BlockView::ToolCall { id, name, arguments }) is None,
{
}

/// The `response` that a result is to be written as: the object that its text parses to, or
/// else the text under `error` where the result says that it is one and under `output` where
/// not.
pub open spec fn response_for(text: Seq<char>, is_error: Option<bool>) -> Json {
    if parsed(text) is Some && parsed(text)->Some_0 is Object {
        parsed(text)->Some_0
    } else if is_error is Some && is_error->Some_0 {
        one("error"@, Json::String(text))
    } else {
        one("output"@, Json::String(text))
    }
}

/// A result is written under the name of its call, or its id where no call has it, with its
/// text as an object and the id that goes on the wire.
pub proof fn law_result_is_written(
    tool_call_id: Seq<char>,
    content: Seq<BlockView>,
    is_error: Option<bool>,
    names: Map<Seq<char>, Seq<char>>,
    policy: TranslationPolicy,
)
    ensures
        block_part(BlockView::ToolResult { tool_call_id, content, is_error }, names, policy)
            == Some(
            one(
                "functionResponse"@,
                Json::Object(
                    plus(
                        Map::empty().insert(
                            "name"@,
                            Json::String(
                                if names.contains_key(tool_call_id) {
                                    names[tool_call_id]
                                } else {
                                    tool_call_id
                                },
                            ),
                        ).insert(
                            "response"@,
                            response_for(joined(block_texts(content), "\n"@), is_error),
                        ),
                        "id"@,
                        wire_id(tool_call_id, policy),
                    ),
                ),
            ),
        ),
{
}

/// Content of a result that is no text is reported once, and a result of texts alone not at all.
pub proof fn law_results_report_what_is_no_text(
    tool_call_id: Seq<char>,
    content: Seq<BlockView>,
    is_error: Option<bool>,
    i: int,
)
    ensures
        0 <= i < content.len() && !(content[i] is Text) && !(content[i] is Refusal) ==> block_note(
            BlockView::ToolResult { tool_call_id, content, is_error },
        ) == Some(
            "Gemini function responses carry only text here; non-text tool-result content was dropped"@,
        ),
        (forall|j: int|
            0 <= j < content.len() ==> (#[trigger] content[j]) is Text || content[j] is Refusal)
            ==> block_note(BlockView::ToolResult { tool_call_id, content, is_error }) is None,
{
}

/// The text of content is that of its texts and refusals, in order, with the separator between
/// one and the next.
pub proof fn law_texts_are_joined(
    a: Seq<BlockView>,
    b: Seq<BlockView>,
    block: BlockView,
    texts: Seq<Seq<char>>,
    text: Seq<char>,
    separator: Seq<char>,
)
    ensures
        block_texts(a + b) == block_texts(a) + block_texts(b),
        block matches BlockView::Text { text: t } ==> block_texts(seq![block]) == seq![t],
        block matches BlockView::Refusal { text: t } ==> block_texts(seq![block]) == seq![t],
        !(block is Text) && !(block is Refusal) ==> block_texts(seq![block]).len() == 0,
        joined(Seq::empty(), separator) == Seq::<char>::empty(),
        joined(seq![text], separator) == text,
        texts.len() > 0 ==> joined(texts.push(text), separator) == joined(texts, separator)
            + separator + text,
{
    let f = |x: BlockView| block_text(x);
    let n = a.len() as int;
    lemma_filter_map_split(a + b, f, n);
    assert((a + b).take(n) =~= a);
    assert((a + b).skip(n) =~= b);
    let s = seq![block];
    s.lemma_filter_map_take_succ(f, 0);
    assert(s.take(1) =~= s);
    assert(s.take(0).filter_map(f) =~= Seq::<Seq<char>>::empty());
    assert(texts.push(text).drop_last() =~= texts);
    if let BlockView::Text { text: t } = block {
        assert(block_texts(s) =~= seq![t]);
    }
    if let BlockView::Refusal { text: t } = block {
        assert(block_texts(s) =~= seq![t]);
    }
}

/// A text of the form `data:<type>[;<parameter>...];base64,<payload>` is a data URI of that type
/// and payload.
pub proof fn law_data_uri_is_split(
    media_type: Seq<char>,
    parameters: Seq<char>,
    payload: Seq<char>,
)
    requires
        media_type.len() > 0,
        !media_type.contains(';'),
        !media_type.contains(','),
        !parameters.contains(','),
        parameters.len() > 0 ==> parameters[0] == ';',
    ensures
        data_uri("data:"@ + media_type + parameters + ";base64,"@ + payload) == Some(
            (media_type, payload),
        ),
{
    let whole = media_type + parameters;
    let n = media_type.len() as int;
    assert forall|j: int| 0 <= j < whole.len() implies whole[j] != ',' by {
        if j < n {
            assert(media_type.contains(media_type[j]));
        } else {
            assert(parameters.contains(parameters[j - n]));
        }
    }
    assert(!whole.contains(','));
    assert forall|j: int| 0 <= j < n implies whole[j] != ';' by {
        assert(media_type.contains(media_type[j]));
    }
    if parameters.len() > 0 {
        lemma_first_index(whole, ';', n);
        assert(whole.take(n) =~= media_type);
    } else {
        assert(whole =~= media_type);
    }
    assert(up_to(whole, ';') == media_type);
    law_data_uri_splits(whole, payload);
    assert("data:"@ + media_type + parameters + ";base64,"@ + payload =~= "data:"@ + whole
        + ";base64,"@ + payload);
}

proof fn lemma_no_earlier(s: Seq<char>, c: char)
    ensures
        s.contains(c) ==> 0 <= first_index(s, c) < s.len() && s[first_index(s, c)] == c,
        forall|j: int| 0 <= j < first_index(s, c) && j < s.len() ==> s[j] != c,
    decreases s.len(),
{
    if s.len() > 0 && s[0] != c {
        lemma_no_earlier(s.skip(1), c);
        if s.contains(c) {
            let i = choose|i: int| 0 <= i < s.len() && s[i] == c;
            assert(s.skip(1)[i - 1] == c);
        }
        assert forall|j: int| 0 <= j < first_index(s, c) && j < s.len() implies s[j] != c by {
            if j > 0 {
                assert(s.skip(1)[j - 1] == s[j]);
            }
        }
    }
}

/// A data URI has that form: whatever is taken for one is made of `data:`, the type, parameters
/// or none, `;base64,` and the payload.
pub proof fn law_data_uri_has_its_form(url: Seq<char>)
    ensures
        data_uri(url) matches Some((media_type, payload)) ==> media_type.len() > 0
            && !media_type.contains(';') && !media_type.contains(',') && url.len() >= 13
            + media_type.len() + payload.len() && url.take(5) == "data:"@ && url.skip(5).take(
            media_type.len() as int,
        ) == media_type && url.skip(url.len() - payload.len() - 8) == ";base64,"@ + payload,
{
    reveal_strlit("data:");
    reveal_strlit(";base64,");
    reveal_strlit(";base64");
    if let Some((media_type, payload)) = data_uri(url) {
        let rest = url.skip(5);
        assert(url.take(5) =~= "data:"@) by {
            assert(url.subrange(0, 5) =~= "data:"@);
        }
        let i = first_index(rest, ',');
        lemma_no_earlier(rest, ',');
        let metadata = rest.take(i);
        assert(payload == rest.skip(i + 1));
        assert(metadata.subrange(i - 7, i) =~= ";base64"@);
        let parameters = metadata.take(i - 7);
        lemma_no_earlier(parameters, ';');
        let n = media_type.len() as int;
        assert(media_type =~= parameters.take(n));
        assert(rest.take(n) =~= media_type);
        assert forall|j: int| 0 <= j < n implies media_type[j] != ';' by {}
        assert forall|j: int| 0 <= j < n implies media_type[j] != ',' by {
            assert(media_type[j] == rest[j]);
        }
        let tail = url.skip(url.len() - payload.len() - 8);
        assert(tail =~= ";base64,"@ + payload) by {
            assert forall|k: int| 0 <= k < tail.len() implies tail[k] == (";base64,"@ + payload)[k]
                by {
                if k < 7 {
                    assert(tail[k] == rest[i - 7 + k]);
                    assert(rest[i - 7 + k] == metadata.subrange(i - 7, i)[k]);
                } else if k == 7 {
                    assert(tail[k] == rest[i]);
                }
            }
        }
    }
}

/// An `inlineData` part of a type, data and a name.
pub open spec fn inline_part(
    media_type: Option<Seq<char>>,
    data: Seq<char>,
    name: Option<Seq<char>>,
) -> Json {
    one(
        "inlineData"@,
        Json::Object(
            plus(
                plus(
                    Map::empty().insert("data"@, Json::String(data)),
                    "mimeType"@,
                    media_type,
                ),
                "displayName"@,
                name,
            ),
        ),
    )
}

/// Data of an image, audio or video are written inline.
pub proof fn law_inline_media_are_written(
    media_type: Option<Seq<char>>,
    data: Seq<char>,
    names: Map<Seq<char>, Seq<char>>,
    policy: TranslationPolicy,
)
    ensures
        block_part(
            BlockView::Image { source: ImageSourceView::Base64 { media_type, data } },
            names,
            policy,
        ) == Some(inline_part(media_type, data, None)),
        block_part(
            BlockView::Audio { source: MediaSourceView::Base64 { media_type, data } },
            names,
            policy,
        ) == Some(inline_part(media_type, data, None)),
        block_part(
            BlockView::Video { source: MediaSourceView::Base64 { media_type, data } },
            names,
            policy,
        ) == Some(inline_part(media_type, data, None)),
        block_note(BlockView::Image { source: ImageSourceView::Base64 { media_type, data } }) is None,
        block_note(BlockView::Audio { source: MediaSourceView::Base64 { media_type, data } }) is None,
        block_note(BlockView::Video { source: MediaSourceView::Base64 { media_type, data } }) is None,
{
}

/// The part for a URL: inline where it is a data URI, a reference with the type where not.
pub open spec fn part_for_url(url: Seq<char>, media_type: Option<Seq<char>>) -> Json {
    if data_uri(url) is Some {
        inline_part(Some(data_uri(url)->Some_0.0), data_uri(url)->Some_0.1, None)
    } else {
        one(
            "fileData"@,
            Json::Object(
                plus(
                    Map::empty().insert("fileUri"@, Json::String(url)),
                    "mimeType"@,
                    media_type,
                ),
            ),
        )
    }
}

/// A URL of an image, audio or video is inlined where it is a data URI and else referenced. An
/// image has no media type of its own.
pub proof fn law_urls_are_written(
    url: Seq<char>,
    detail: Option<Seq<char>>,
    media_type: Option<Seq<char>>,
    names: Map<Seq<char>, Seq<char>>,
    policy: TranslationPolicy,
)
    ensures
        block_part(
            BlockView::Image { source: ImageSourceView::Url { url, detail } },
            names,
            policy,
        ) == Some(part_for_url(url, None)),
        block_part(
            BlockView::Audio { source: MediaSourceView::Url { url, media_type } },
            names,
            policy,
        ) == Some(part_for_url(url, media_type)),
        block_part(
            BlockView::Video { source: MediaSourceView::Url { url, media_type } },
            names,
            policy,
        ) == Some(part_for_url(url, media_type)),
        block_note(BlockView::Image { source: ImageSourceView::Url { url, detail } }) is None,
        block_note(BlockView::Audio { source: MediaSourceView::Url { url, media_type } }) is None,
        block_note(BlockView::Video { source: MediaSourceView::Url { url, media_type } }) is None,
{
}

/// What is reported of a block that no part can carry.
pub open spec fn cannot_carry(kind: Seq<char>) -> Seq<char> {
    "Gemini parts cannot carry this "@ + kind + " content; it was dropped"@
}

/// A file is written inline where its data are a data URI, and else reported. A part of Gemini
/// that was kept is sent again as it is, and one of another provider is reported. So is
/// everything that is known by a file id alone.
pub proof fn law_files_and_kept_parts_are_written(
    data: Seq<char>,
    filename: Option<Seq<char>>,
    file_id: Seq<char>,
    provider: Seq<char>,
    raw: Json,
    names: Map<Seq<char>, Seq<char>>,
    policy: TranslationPolicy,
)
    ensures
        block_part(
            BlockView::File { source: FileSourceView::FileData { data, filename } },
            names,
            policy,
        ) == (if data_uri(data) is Some {
            Some(inline_part(Some(data_uri(data)->Some_0.0), data_uri(data)->Some_0.1, filename))
        } else {
            None
        }),
        block_note(BlockView::File { source: FileSourceView::FileData { data, filename } }) == (
        if data_uri(data) is Some {
            None
        } else {
            Some(cannot_carry("file"@))
        }),
        block_part(BlockView::Unknown { provider, raw }, names, policy) == (if provider
            == "gemini_generate_content"@ {
            Some(raw)
        } else {
            None
        }),
        block_note(BlockView::Unknown { provider, raw }) == (if provider
            == "gemini_generate_content"@ {
            None
        } else {
            Some(cannot_carry("provider-specific"@))
        }),
        block_part(
            BlockView::Image { source: ImageSourceView::FileId { file_id } },
            names,
            policy,
        ) is None,
        block_part(
            BlockView::Audio { source: MediaSourceView::FileId { file_id } },
            names,
            policy,
        ) is None,
        block_part(
            BlockView::Video { source: MediaSourceView::FileId { file_id } },
            names,
            policy,
        ) is None,
        block_part(
            BlockView::File { source: FileSourceView::FileId { file_id } },
            names,
            policy,
        ) is None,
        block_note(BlockView::Image { source: ImageSourceView::FileId { file_id } }) == Some(
            cannot_carry("image"@),
        ),
        block_note(BlockView::Audio { source: MediaSourceView::FileId { file_id } }) == Some(
            cannot_carry("audio"@),
        ),
        block_note(BlockView::Video { source: MediaSourceView::FileId { file_id } }) == Some(
            cannot_carry("video"@),
        ),
        block_note(BlockView::File { source: FileSourceView::FileId { file_id } }) == Some(
            cannot_carry("file"@),
        ),
{
}

} // verus!
