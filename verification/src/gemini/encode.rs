//! Writes content blocks as Gemini parts.
use vstd::prelude::*;
use vstd::seq_lib::*;
use vstd::string::*;

use crate::common::{block_texts, joined, text_from_blocks};
use crate::error::{messages_of, ErrorView, TranslationDiagnostic, TranslationError};
use crate::gemini::ids::{gemini_wire_id, wire_id};
use crate::gemini::media::{
    data_uri, gemini_inline_data, gemini_url_part, inline_data, insert_text, json_single, single,
    split_data_uri, url_part, with_text,
};
use crate::gemini::GEMINI_FORMAT;
use crate::json::{
    json_items, json_of_str, lemma_items_pushed, opt_value, Json, JsonObject, JsonValue,
};
use crate::llm::{
    blocks, BlockView, ContentBlock, FileSource, FileSourceView, ImageSource, ImageSourceView,
    MediaSource, MediaSourceView, ToolCall, ToolResult,
};
use crate::policy::TranslationPolicy;
use crate::text::{opt_borrow, opt_text, str_eq};
use crate::util::{dropped, lemma_reported_append, lemma_reported_nothing, push_lossy, reported};
use crate::wire::{parse, parsed};

verus! {

/// The name of the function that a call id belongs to.
#[derive(Debug)]
pub struct CallName {
    pub id: String,
    pub name: String,
}

/// The names of functions by call id, where the last name of an id counts.
#[derive(Debug)]
pub struct CallNames {
    pub entries: Vec<CallName>,
}

/// The names that `entries` give.
pub open spec fn names_of(entries: Seq<CallName>) -> Map<Seq<char>, Seq<char>>
    decreases entries.len(),
{
    if entries.len() == 0 {
        Map::empty()
    } else {
        names_of(entries.drop_last()).insert(entries.last().id@, entries.last().name@)
    }
}

impl View for CallNames {
    type V = Map<Seq<char>, Seq<char>>;

    open spec fn view(&self) -> Map<Seq<char>, Seq<char>> {
        names_of(self.entries@)
    }
}

proof fn lemma_name_absent(entries: Seq<CallName>, id: Seq<char>)
    requires
        forall|i: int| 0 <= i < entries.len() ==> (#[trigger] entries[i]).id@ != id,
    ensures
        !names_of(entries).contains_key(id),
    decreases entries.len(),
{
    if entries.len() > 0 {
        assert(entries[entries.len() - 1].id@ != id);
        assert forall|i: int| 0 <= i < entries.drop_last().len() implies (
        #[trigger] entries.drop_last()[i]).id@ != id by {
            assert(entries.drop_last()[i] == entries[i]);
        }
        lemma_name_absent(entries.drop_last(), id);
    }
}

proof fn lemma_name_last(entries: Seq<CallName>, i: int)
    requires
        0 <= i < entries.len(),
        forall|j: int| i < j < entries.len() ==> (#[trigger] entries[j]).id@ != entries[i].id@,
    ensures
        names_of(entries).contains_key(entries[i].id@),
        names_of(entries)[entries[i].id@] == entries[i].name@,
    decreases entries.len(),
{
    if i < entries.len() - 1 {
        assert(entries[entries.len() - 1].id@ != entries[i].id@);
        assert forall|j: int| i < j < entries.drop_last().len() implies (
        #[trigger] entries.drop_last()[j]).id@ != entries.drop_last()[i].id@ by {
            assert(entries.drop_last()[j] == entries[j]);
        }
        lemma_name_last(entries.drop_last(), i);
    }
}

impl CallNames {
    /// No names.
    pub fn new() -> (names: Self)
        ensures
            names@ == Map::<Seq<char>, Seq<char>>::empty(),
    {
        CallNames { entries: Vec::new() }
    }

    /// Sets the name of `id`.
    pub fn insert(&mut self, id: &str, name: &str)
        ensures
            final(self)@ == old(self)@.insert(id@, name@),
    {
        self.entries.push(CallName { id: id.to_owned(), name: name.to_owned() });
        assert(self.entries@.drop_last() =~= old(self).entries@);
    }

    /// The name of `id`, or `id` itself where it has none.
    pub fn name_of<'a>(&'a self, id: &'a str) -> (name: &'a str)
        ensures
            name@ == name_or_id(self@, id@),
    {
        let mut i: usize = self.entries.len();
        while i > 0
            invariant
                i <= self.entries@.len(),
                forall|j: int|
                    i <= j < self.entries@.len() ==> (#[trigger] self.entries@[j]).id@ != id@,
            decreases i,
        {
            i -= 1;
            if str_eq(self.entries[i].id.as_str(), id) {
                proof {
                    lemma_name_last(self.entries@, i as int);
                }
                return self.entries[i].name.as_str();
            }
        }
        proof {
            lemma_name_absent(self.entries@, id@);
        }
        id
    }
}

/// The name of `id`, or `id` itself where it has none.
pub open spec fn name_or_id(names: Map<Seq<char>, Seq<char>>, id: Seq<char>) -> Seq<char> {
    match names.get(id) {
        Some(name) => name,
        None => id,
    }
}

/// Arguments that are a text: the object that it parses to, else the text under `raw`.
pub open spec fn text_args(text: Seq<char>, value: Option<Json>) -> Json {
    match value {
        Some(Json::Object(o)) => Json::Object(o),
        _ => single("raw"@, Json::String(text)),
    }
}

/// Gives the arguments that a text stands for, of which `value` is what it parses to.
pub fn args_from_text(text: &str, value: Option<JsonValue>) -> (args: JsonValue)
    ensures
        args@ == text_args(text@, opt_value(value)),
{
    match value {
        Some(JsonValue::Object(o)) => JsonValue::Object(o),
        _ => json_single("raw", json_of_str(text)),
    }
}

/// The arguments of a call as an object.
pub open spec fn args_json(arguments: Json) -> Json {
    match arguments {
        Json::Object(o) => Json::Object(o),
        Json::String(text) => text_args(text, parsed(text)),
        Json::Null => Json::Object(Map::empty()),
        other => single("value"@, other),
    }
}

/// Gemini `args` must be an object, while other formats may carry a JSON string.
pub fn gemini_args(arguments: &JsonValue) -> (args: JsonValue)
    ensures
        args@ == args_json(arguments@),
{
    match arguments {
        JsonValue::Object(_) => arguments.clone(),
        JsonValue::String(text) => args_from_text(text.as_str(), parse(text.as_str())),
        JsonValue::Null => JsonValue::Object(JsonObject::new()),
        other => json_single("value", other.clone()),
    }
}

/// A result that is a text: the object that it parses to, else the text under `error` or
/// `output`.
pub open spec fn text_response(
    text: Seq<char>,
    value: Option<Json>,
    is_error: Option<bool>,
) -> Json {
    match value {
        Some(Json::Object(o)) => Json::Object(o),
        _ => if is_error == Some(true) {
            single("error"@, Json::String(text))
        } else {
            single("output"@, Json::String(text))
        },
    }
}

/// Gives the response that a text stands for, of which `value` is what it parses to.
pub fn response_from_text(
    text: &str,
    value: Option<JsonValue>,
    is_error: Option<bool>,
) -> (response: JsonValue)
    ensures
        response@ == text_response(text@, opt_value(value), is_error),
{
    match value {
        Some(JsonValue::Object(o)) => JsonValue::Object(o),
        _ => if is_error == Some(true) {
            json_single("error", json_of_str(text))
        } else {
            json_single("output", json_of_str(text))
        },
    }
}

/// The response that the content of a result stands for.
pub open spec fn response_json(content: Seq<BlockView>, is_error: Option<bool>) -> Json {
    let text = joined(block_texts(content), "\n"@);
    text_response(text, parsed(text), is_error)
}

/// Gemini `response` must be an object. JSON object text is sent as it is; anything else is
/// wrapped under the `output` or `error` key that Gemini documents for function results.
pub fn gemini_function_response(result: &ToolResult) -> (response: JsonValue)
    ensures
        response@ == response_json(blocks(result.content@), result.is_error),
{
    let text = text_from_blocks(&result.content, "\n");
    let value = parse(text.as_str());
    response_from_text(text.as_str(), value, result.is_error)
}

/// What a block is called in a report.
pub open spec fn kind_name(b: BlockView) -> Seq<char> {
    match b {
        BlockView::Image { .. } => "image"@,
        BlockView::Audio { .. } => "audio"@,
        BlockView::Video { .. } => "video"@,
        BlockView::File { .. } => "file"@,
        _ => "provider-specific"@,
    }
}

/// Names a content block for a lossy-conversion diagnostic.
pub fn content_kind(b: &ContentBlock) -> (kind: &'static str)
    ensures
        kind@ == kind_name(b@),
{
    match b {
        ContentBlock::Image { .. } => "image",
        ContentBlock::Audio { .. } => "audio",
        ContentBlock::Video { .. } => "video",
        ContentBlock::File { .. } => "file",
        _ => "provider-specific",
    }
}

/// A `functionCall` part.
pub open spec fn call_part(
    id: Seq<char>,
    name: Seq<char>,
    arguments: Json,
    policy: TranslationPolicy,
) -> Json {
    let call = map!["name"@ => Json::String(name), "args"@ => args_json(arguments)];
    single("functionCall"@, Json::Object(with_text(call, "id"@, wire_id(id, policy))))
}

/// A `functionResponse` part.
pub open spec fn response_part(
    tool_call_id: Seq<char>,
    content: Seq<BlockView>,
    is_error: Option<bool>,
    names: Map<Seq<char>, Seq<char>>,
    policy: TranslationPolicy,
) -> Json {
    let response = map![
        "name"@ => Json::String(name_or_id(names, tool_call_id)),
        "response"@ => response_json(content, is_error)
    ];
    single(
        "functionResponse"@,
        Json::Object(with_text(response, "id"@, wire_id(tool_call_id, policy))),
    )
}

/// A part with a thought.
pub open spec fn thought_part(text: Seq<char>, signature: Option<Seq<char>>) -> Json {
    Json::Object(
        with_text(
            map!["text"@ => Json::String(text), "thought"@ => Json::Bool(true)],
            "thoughtSignature"@,
            signature,
        ),
    )
}

/// The part that a block is written as, where there is one.
pub open spec fn block_part(
    b: BlockView,
    names: Map<Seq<char>, Seq<char>>,
    policy: TranslationPolicy,
) -> Option<Json> {
    match b {
        BlockView::Text { text } => Some(single("text"@, Json::String(text))),
        BlockView::Refusal { text } => Some(single("text"@, Json::String(text))),
        BlockView::Reasoning { text, signature, .. } => if text.len() == 0 && signature is None {
            None
        } else {
            Some(thought_part(text, signature))
        },
        BlockView::ToolCall { id, name, arguments } => Some(
            call_part(id, name, arguments, policy),
        ),
        BlockView::ToolResult { tool_call_id, content, is_error } => Some(
            response_part(tool_call_id, content, is_error, names, policy),
        ),
        BlockView::Image { source: ImageSourceView::Url { url, .. } } => Some(url_part(url, None)),
        BlockView::Image { source: ImageSourceView::Base64 { media_type, data } } => Some(
            inline_data(media_type, data, None),
        ),
        BlockView::Audio { source: MediaSourceView::Base64 { media_type, data } } => Some(
            inline_data(media_type, data, None),
        ),
        BlockView::Video { source: MediaSourceView::Base64 { media_type, data } } => Some(
            inline_data(media_type, data, None),
        ),
        BlockView::Audio { source: MediaSourceView::Url { url, media_type } } => Some(
            url_part(url, media_type),
        ),
        BlockView::Video { source: MediaSourceView::Url { url, media_type } } => Some(
            url_part(url, media_type),
        ),
        BlockView::File { source: FileSourceView::FileData { data, filename } } => match data_uri(
            data,
        ) {
            Some((media_type, payload)) => Some(inline_data(Some(media_type), payload, filename)),
            None => None,
        },
        BlockView::Unknown { provider, raw } => if provider == GEMINI_FORMAT@ {
            Some(raw)
        } else {
            None
        },
        _ => None,
    }
}

/// Whether a block is text.
pub open spec fn is_text(b: BlockView) -> bool {
    b is Text || b is Refusal
}

/// Whether all of `content` is text.
pub open spec fn only_text(content: Seq<BlockView>) -> bool {
    forall|i: int| 0 <= i < content.len() ==> is_text(#[trigger] content[i])
}

/// What is dropped of a result whose content is not all text.
pub open spec fn result_note() -> Seq<char> {
    "Gemini function responses carry only text here; non-text tool-result content was dropped"@
}

/// What is dropped where no part can carry a block of the kind `kind`.
pub open spec fn kind_note(kind: Seq<char>) -> Seq<char> {
    "Gemini parts cannot carry this "@ + kind + " content; it was dropped"@
}

/// What is dropped of a block. An empty thought is left out without a word.
pub open spec fn block_note(b: BlockView) -> Option<Seq<char>> {
    match b {
        BlockView::ToolResult { content, .. } => if only_text(content) {
            None
        } else {
            Some(result_note())
        },
        BlockView::Reasoning { .. } => None,
        BlockView::File { source: FileSourceView::FileData { data, .. } } => if data_uri(
            data,
        ) is Some {
            None
        } else {
            Some(kind_note(kind_name(b)))
        },
        BlockView::Unknown { provider, .. } => if provider == GEMINI_FORMAT@ {
            None
        } else {
            Some(kind_note(kind_name(b)))
        },
        BlockView::Image { source: ImageSourceView::FileId { .. } } => Some(
            kind_note(kind_name(b)),
        ),
        BlockView::Audio { source: MediaSourceView::FileId { .. } } => Some(
            kind_note(kind_name(b)),
        ),
        BlockView::Video { source: MediaSourceView::FileId { .. } } => Some(
            kind_note(kind_name(b)),
        ),
        BlockView::File { source: FileSourceView::FileId { .. } } => Some(kind_note(kind_name(b))),
        _ => None,
    }
}

/// What is dropped of a block, as a list.
pub open spec fn note_list(note: Option<Seq<char>>) -> Seq<Seq<char>> {
    match note {
        Some(n) => seq![n],
        None => seq![],
    }
}

/// The parts that content is written as, in order.
pub open spec fn content_parts(
    content: Seq<BlockView>,
    names: Map<Seq<char>, Seq<char>>,
    policy: TranslationPolicy,
) -> Seq<Json> {
    content.filter_map(|b: BlockView| block_part(b, names, policy))
}

/// What is dropped of content, in order.
pub open spec fn content_notes(content: Seq<BlockView>) -> Seq<Seq<char>> {
    content.filter_map(|b: BlockView| block_note(b))
}

fn all_text(content: &Vec<ContentBlock>) -> (text: bool)
    ensures
        text == only_text(blocks(content@)),
{
    let mut i: usize = 0;
    while i < content.len()
        invariant
            i <= content@.len(),
            forall|j: int| 0 <= j < i ==> is_text(#[trigger] blocks(content@)[j]),
        decreases content@.len() - i,
    {
        assert(blocks(content@)[i as int] == content@[i as int]@);
        match &content[i] {
            ContentBlock::Text { .. } => {},
            ContentBlock::Refusal { .. } => {},
            _ => {
                assert(!is_text(blocks(content@)[i as int]));
                return false;
            },
        }
        i += 1;
    }
    true
}

fn encode_call(call: &ToolCall, policy: &TranslationPolicy) -> (part: JsonValue)
    ensures
        part@ == call_part(call.id@, call.name@, call.arguments@, *policy),
{
    let mut function_call = JsonObject::new().with("name", json_of_str(call.name.as_str())).with(
        "args",
        gemini_args(&call.arguments),
    );
    insert_text(&mut function_call, "id", gemini_wire_id(call.id.as_str(), policy));
    json_single("functionCall", JsonValue::Object(function_call))
}

fn encode_result(result: &ToolResult, names: &CallNames, policy: &TranslationPolicy) -> (part:
    JsonValue)
    ensures
        part@ == response_part(
            result.tool_call_id@,
            blocks(result.content@),
            result.is_error,
            names@,
            *policy,
        ),
{
    let name = names.name_of(result.tool_call_id.as_str());
    let mut function_response = JsonObject::new().with("name", json_of_str(name)).with(
        "response",
        gemini_function_response(result),
    );
    insert_text(&mut function_response, "id", gemini_wire_id(result.tool_call_id.as_str(), policy));
    json_single("functionResponse", JsonValue::Object(function_response))
}

fn encode_thought(text: &String, signature: &Option<String>) -> (part: Option<JsonValue>)
    ensures
        opt_value(part) == (if text@.len() == 0 && *signature is None {
            None
        } else {
            Some(thought_part(text@, opt_text(*signature)))
        }),
{
    if text.as_str().is_empty() && signature.is_none() {
        return None;
    }
    let mut part = JsonObject::new().with("text", json_of_str(text.as_str())).with(
        "thought",
        JsonValue::Bool(true),
    );
    insert_text(&mut part, "thoughtSignature", opt_borrow(signature));
    Some(JsonValue::Object(part))
}

fn push_kind_note(
    b: &ContentBlock,
    diagnostics: &mut Vec<TranslationDiagnostic>,
    policy: &TranslationPolicy,
) -> (r: Result<(), TranslationError>)
    ensures
        dropped(r, old(diagnostics)@, final(diagnostics)@, *policy, seq![kind_note(kind_name(b@))]),
{
    let mut message = "Gemini parts cannot carry this ".to_owned();
    message.append(content_kind(b));
    message.append(" content; it was dropped");
    push_lossy(diagnostics, policy, message.as_str())
}

/// Encodes one content block.
fn encode_block(
    b: &ContentBlock,
    names: &CallNames,
    diagnostics: &mut Vec<TranslationDiagnostic>,
    policy: &TranslationPolicy,
) -> (r: Result<Option<JsonValue>, TranslationError>)
    ensures
        r matches Ok(part) ==> opt_value(part) == block_part(b@, names@, *policy),
        dropped(
            r,
            old(diagnostics)@,
            final(diagnostics)@,
            *policy,
            note_list(block_note(b@)),
        ),
{
    proof {
        lemma_reported_nothing(messages_of(diagnostics@), *policy, Seq::empty());
    }
    match b {
        ContentBlock::Text { text } => Ok(
            Some(json_single("text", json_of_str(text.as_str()))),
        ),
        ContentBlock::Refusal { text } => Ok(
            Some(json_single("text", json_of_str(text.as_str()))),
        ),
        ContentBlock::Reasoning { text, signature, .. } => Ok(encode_thought(text, signature)),
        ContentBlock::ToolCall(call) => Ok(Some(encode_call(call, policy))),
        ContentBlock::ToolResult(result) => {
            if !all_text(&result.content) {
                push_lossy(
                    diagnostics,
                    policy,
                    "Gemini function responses carry only text here; non-text tool-result content was dropped",
                )?;
            }
            Ok(Some(encode_result(result, names, policy)))
        },
        ContentBlock::Image { source: ImageSource::Url { url, .. } } => Ok(
            Some(gemini_url_part(url.as_str(), None)),
        ),
        ContentBlock::Image { source: ImageSource::Base64 { media_type, data } } => Ok(
            Some(gemini_inline_data(opt_borrow(media_type), data.as_str(), None)),
        ),
        ContentBlock::Audio { source: MediaSource::Base64 { media_type, data } } => Ok(
            Some(gemini_inline_data(opt_borrow(media_type), data.as_str(), None)),
        ),
        ContentBlock::Video { source: MediaSource::Base64 { media_type, data } } => Ok(
            Some(gemini_inline_data(opt_borrow(media_type), data.as_str(), None)),
        ),
        ContentBlock::Audio { source: MediaSource::Url { url, media_type } } => Ok(
            Some(gemini_url_part(url.as_str(), opt_borrow(media_type))),
        ),
        ContentBlock::Video { source: MediaSource::Url { url, media_type } } => Ok(
            Some(gemini_url_part(url.as_str(), opt_borrow(media_type))),
        ),
        ContentBlock::File { source: FileSource::FileData { data, filename } } => {
            match split_data_uri(data.as_str()) {
                Some((media_type, payload)) => Ok(
                    Some(gemini_inline_data(Some(media_type), payload, opt_borrow(filename))),
                ),
                None => {
                    push_kind_note(b, diagnostics, policy)?;
                    Ok(None)
                },
            }
        },
        ContentBlock::Unknown { provider, raw } => {
            if provider.is(GEMINI_FORMAT) {
                Ok(Some(raw.clone()))
            } else {
                push_kind_note(b, diagnostics, policy)?;
                Ok(None)
            }
        },
        _ => {
            push_kind_note(b, diagnostics, policy)?;
            Ok(None)
        },
    }
}

/// Mapping the front of a list gives the front of what mapping the list gives.
pub proof fn lemma_filter_map_split<A, B>(s: Seq<A>, f: spec_fn(A) -> Option<B>, i: int)
    requires
        0 <= i <= s.len(),
    ensures
        s.filter_map(f) == s.take(i).filter_map(f) + s.skip(i).filter_map(f),
    decreases s.len() - i,
{
    if i == s.len() {
        assert(s.take(i) =~= s);
        assert(s.skip(i).filter_map(f) =~= Seq::<B>::empty());
        assert(s.filter_map(f) =~= s.take(i).filter_map(f) + s.skip(i).filter_map(f));
    } else {
        lemma_filter_map_split(s, f, i + 1);
        s.lemma_filter_map_take_succ(f, i);
        let rest = s.skip(i);
        lemma_filter_map_head(rest, f);
        assert(rest.skip(1) =~= s.skip(i + 1));
        assert(s.filter_map(f) =~= s.take(i).filter_map(f) + s.skip(i).filter_map(f));
    }
}

proof fn lemma_filter_map_head<A, B>(s: Seq<A>, f: spec_fn(A) -> Option<B>)
    requires
        s.len() > 0,
    ensures
        s.filter_map(f) == (match f(s[0]) {
            Some(b) => seq![b],
            None => seq![],
        }) + s.skip(1).filter_map(f),
    decreases s.len(),
{
    let head = match f(s[0]) {
        Some(b) => seq![b],
        None => seq![],
    };
    if s.len() == 1 {
        assert(s.skip(1).filter_map(f) =~= Seq::<B>::empty());
        assert(s.drop_last().filter_map(f) =~= Seq::<B>::empty());
        assert(s.filter_map(f) =~= head + s.skip(1).filter_map(f));
    } else {
        lemma_filter_map_head(s.drop_last(), f);
        assert(s.drop_last().skip(1) =~= s.skip(1).drop_last());
        assert(s.filter_map(f) =~= head + s.skip(1).filter_map(f));
    }
}

/// Encodes content blocks as Gemini parts. `names` maps tool-call ids to function names.
pub fn encode_gemini_parts(
    content: &Vec<ContentBlock>,
    names: &CallNames,
    diagnostics: &mut Vec<TranslationDiagnostic>,
    policy: &TranslationPolicy,
) -> (r: Result<Vec<JsonValue>, TranslationError>)
    ensures
        r matches Ok(parts) ==> json_items(parts@) == content_parts(
            blocks(content@),
            names@,
            *policy,
        ),
        dropped(
            r,
            old(diagnostics)@,
            final(diagnostics)@,
            *policy,
            content_notes(blocks(content@)),
        ),
{
    let ghost all = blocks(content@);
    let ghost part_of = |b: BlockView| block_part(b, names@, *policy);
    let ghost note_of = |b: BlockView| block_note(b);
    let ghost start = messages_of(diagnostics@);
    let mut parts: Vec<JsonValue> = Vec::new();
    let mut i: usize = 0;
    proof {
        lemma_reported_nothing(start, *policy, all.take(0).filter_map(note_of));
        assert(json_items(parts@) =~= all.take(0).filter_map(part_of));
    }
    while i < content.len()
        invariant
            i <= content@.len(),
            all == blocks(content@),
            part_of == (|b: BlockView| block_part(b, names@, *policy)),
            note_of == (|b: BlockView| block_note(b)),
            start == messages_of(old(diagnostics)@),
            policy.lossy is Reject ==> diagnostics@ == old(diagnostics)@,
            json_items(parts@) == all.take(i as int).filter_map(part_of),
            reported(start, *policy, all.take(i as int).filter_map(note_of)) == Ok::<
                Seq<Seq<char>>,
                ErrorView,
            >(messages_of(diagnostics@)),
        decreases content@.len() - i,
    {
        proof {
            assert(all[i as int] == content@[i as int]@);
            all.lemma_filter_map_take_succ(part_of, i as int);
            all.lemma_filter_map_take_succ(note_of, i as int);
            let before = all.take(i as int).filter_map(note_of);
            let now = note_list(block_note(all[i as int]));
            let after = all.take(i + 1).filter_map(note_of);
            let rest = all.skip(i + 1).filter_map(note_of);
            assert(after =~= before + now);
            lemma_reported_append(start, *policy, before, now);
            lemma_filter_map_split(all, note_of, i + 1);
            lemma_reported_append(start, *policy, after, rest);
        }
        let part = encode_block(&content[i], names, diagnostics, policy)?;
        match part {
            Some(p) => {
                proof {
                    lemma_items_pushed(parts@, p);
                    assert(all.take(i + 1).filter_map(part_of) =~= json_items(parts@).push(p@));
                }
                parts.push(p);
            },
            None => {
                assert(all.take(i + 1).filter_map(part_of) =~= json_items(parts@));
            },
        }
        i += 1;
    }
    assert(all.take(i as int) =~= all);
    Ok(parts)
}

} // verus!
