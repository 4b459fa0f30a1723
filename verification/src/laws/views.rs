//! Laws on what the values of the library stand for.
use vstd::prelude::*;

use crate::error::{messages_of, ErrorView, TranslationDiagnostic, TranslationError};
use crate::format::FormatId;
use crate::json::{
    json_entries, json_items, lemma_entries_pushed, Json, JsonNumber, JsonObject, JsonValue, Num,
};
use crate::llm::{
    blocks, AggLlmResponse, BlockView, CapturedBody, ChoiceView, ContentBlock, FileSource,
    FileSourceView, ImageSource, ImageSourceView, InstructionBlock, LlmRequest, MediaSource,
    MediaSourceView, Message, OutputParams, Preservation, ResponseOutput, SamplingParams, ToolCall,
    ToolChoice, ToolDefinition, ToolResult,
};
use crate::number::{FiniteFloat, Float};

verus! {

/// The characters of a text that may be absent.
pub open spec fn characters(text: Option<String>) -> Option<Seq<char>> {
    if text is Some {
        Some(text->Some_0@)
    } else {
        None
    }
}

/// JSON values stand for what they are called. An array stands for its items in order, and an
/// object for its fields, of which the last of a name counts.
pub proof fn law_json_values(
    b: bool,
    n: u64,
    k: i64,
    x: FiniteFloat,
    s: String,
    items: Vec<JsonValue>,
    i: int,
    o: JsonObject,
    entries: Seq<(String, JsonValue)>,
    entry: (String, JsonValue),
)
    ensures
        JsonValue::Null@ == Json::Null,
        JsonValue::Bool(b)@ == Json::Bool(b),
        JsonValue::Number(JsonNumber::Unsigned(n))@ == Json::Number(Num::Int(n as int)),
        JsonValue::Number(JsonNumber::Signed(k))@ == Json::Number(Num::Int(k as int)),
        JsonValue::Number(JsonNumber::Float(x))@ == Json::Number(Num::Float(x@)),
        JsonValue::String(s)@ == Json::String(s@),
        JsonValue::Array(items)@ is Array,
        JsonValue::Array(items)@->Array_0.len() == items@.len(),
        0 <= i < items@.len() ==> JsonValue::Array(items)@->Array_0[i] == items@[i]@,
        JsonValue::Object(o)@ == Json::Object(o@),
        o@ == json_entries(o.entries@),
        json_entries(Seq::empty()) == Map::<Seq<char>, Json>::empty(),
        json_entries(entries.push(entry)) == json_entries(entries).insert(entry.0@, entry.1@),
{
    lemma_entries_pushed(entries, entry);
}

/// Content blocks stand for what they are called, with all that they hold.
pub proof fn law_content_blocks(
    text: String,
    signature: Option<String>,
    details: Vec<JsonValue>,
    call: ToolCall,
    result: ToolResult,
    image: ImageSource,
    media: MediaSource,
    file: FileSource,
    provider: FormatId,
    raw: JsonValue,
    content: Seq<ContentBlock>,
    i: int,
)
    ensures
        (ContentBlock::Text { text })@ == (BlockView::Text { text: text@ }),
        (ContentBlock::Refusal { text })@ == (BlockView::Refusal { text: text@ }),
        (ContentBlock::Reasoning { text, signature, details })@ == (BlockView::Reasoning {
            text: text@,
            signature: characters(signature),
            details: json_items(details@),
        }),
        ContentBlock::ToolCall(call)@ == (BlockView::ToolCall {
            id: call.id@,
            name: call.name@,
            arguments: call.arguments@,
        }),
        ContentBlock::ToolResult(result)@ == (BlockView::ToolResult {
            tool_call_id: result.tool_call_id@,
            content: blocks(result.content@),
            is_error: result.is_error,
        }),
        (ContentBlock::Image { source: image })@ == (BlockView::Image { source: image@ }),
        (ContentBlock::Audio { source: media })@ == (BlockView::Audio { source: media@ }),
        (ContentBlock::Video { source: media })@ == (BlockView::Video { source: media@ }),
        (ContentBlock::File { source: file })@ == (BlockView::File { source: file@ }),
        (ContentBlock::Unknown { provider, raw })@ == (BlockView::Unknown {
            provider: provider.key@,
            raw: raw@,
        }),
        blocks(content).len() == content.len(),
        0 <= i < content.len() ==> blocks(content)[i] == content[i]@,
{
}

/// Sources of media stand for what they hold.
pub proof fn law_media_sources(
    url: String,
    detail: Option<String>,
    media_type: Option<String>,
    data: String,
    file_id: String,
    filename: Option<String>,
)
    ensures
        (ImageSource::Url { url, detail })@ == (ImageSourceView::Url {
            url: url@,
            detail: characters(detail),
        }),
        (ImageSource::Base64 { media_type, data })@ == (ImageSourceView::Base64 {
            media_type: characters(media_type),
            data: data@,
        }),
        (ImageSource::FileId { file_id })@ == (ImageSourceView::FileId { file_id: file_id@ }),
        (MediaSource::Url { url, media_type })@ == (MediaSourceView::Url {
            url: url@,
            media_type: characters(media_type),
        }),
        (MediaSource::Base64 { media_type, data })@ == (MediaSourceView::Base64 {
            media_type: characters(media_type),
            data: data@,
        }),
        (MediaSource::FileId { file_id })@ == (MediaSourceView::FileId { file_id: file_id@ }),
        (FileSource::FileData { data, filename })@ == (FileSourceView::FileData {
            data: data@,
            filename: characters(filename),
        }),
        (FileSource::FileId { file_id })@ == (FileSourceView::FileId { file_id: file_id@ }),
{
}

/// Requests stand for what they hold: every message, instruction and tool in its place, and
/// every parameter under its name.
pub proof fn law_requests(
    request: LlmRequest,
    message: Message,
    instruction: InstructionBlock,
    tool: ToolDefinition,
    i: int,
)
    ensures
        message@.role == message.role,
        message@.content == blocks(message.content@),
        instruction@.role == instruction.role,
        instruction@.content == blocks(instruction.content@),
        tool@.name == tool.name@,
        tool@.description == characters(tool.description),
        tool@.parameters == tool.parameters@,
        tool@.strict == tool.strict,
        request@.model == characters(request.model),
        request@.instructions.len() == request.instructions@.len(),
        0 <= i < request.instructions@.len() ==> request@.instructions[i]
            == request.instructions@[i]@,
        request@.messages.len() == request.messages@.len(),
        0 <= i < request.messages@.len() ==> request@.messages[i] == request.messages@[i]@,
        request@.tools.len() == request.tools@.len(),
        0 <= i < request.tools@.len() ==> request@.tools[i] == request.tools@[i]@,
        request.tool_choice is None ==> request@.tool_choice is None,
        request.tool_choice matches Some(choice) ==> request@.tool_choice == Some(choice@),
        request@.extensions == request.extensions.fields@,
        request@.preservation == request.preservation@,
        request@.sampling == request.sampling@,
        request@.output == request.output@,
{
}

/// Parameters, choices and kept bodies stand for what they hold.
pub proof fn law_parameters(
    sampling: SamplingParams,
    output: OutputParams,
    x: FiniteFloat,
    name: String,
    raw: JsonValue,
    kept: CapturedBody,
)
    ensures
        sampling.temperature is None ==> sampling@.temperature is None,
        sampling.temperature matches Some(t) ==> sampling@.temperature == Some(t@),
        sampling.top_p is None ==> sampling@.top_p is None,
        sampling.top_p matches Some(p) ==> sampling@.top_p == Some(p@),
        sampling@.top_k == sampling.top_k,
        output@.max_output_tokens == output.max_output_tokens,
        output.response_format is None ==> output@.response_format is None,
        output.response_format matches Some(format) ==> output@.response_format == Some(format@),
        Float::Finite(x)@ == Some(x@),
        Float::NonFinite@ is None,
        ToolChoice::Auto@ == ChoiceView::Auto,
        ToolChoice::Required@ == ChoiceView::Required,
        ToolChoice::Never@ == ChoiceView::Never,
        (ToolChoice::Tool { name })@ == (ChoiceView::Tool { name: name@ }),
        ToolChoice::Raw(raw)@ == ChoiceView::Raw(raw@),
        (Preservation { captured: None })@ is None,
        (Preservation { captured: Some(kept) })@ matches Some(view) && view.format
            == kept.format.key@ && view.body == kept.body@,
{
}

/// Responses stand for what they hold: every output in its place.
pub proof fn law_responses(response: AggLlmResponse, output: ResponseOutput, i: int)
    ensures
        output@.role == output.role,
        output@.content == blocks(output.content@),
        output@.url_citations == json_items(output.url_citations@),
        output@.stop_reason == output.stop_reason,
        response@.id == characters(response.id),
        response@.model == characters(response.model),
        response@.outputs.len() == response.outputs@.len(),
        0 <= i < response.outputs@.len() ==> response@.outputs[i] == response.outputs@[i]@,
        response@.usage == response.usage,
        response@.extensions == response.extensions.fields@,
        response@.preservation == response.preservation@,
{
}

/// Errors and reports say what they hold, in order.
pub proof fn law_errors_and_reports(
    path: String,
    expected: &'static str,
    message: String,
    diagnostics: Seq<TranslationDiagnostic>,
    i: int,
)
    ensures
        (TranslationError::InvalidType { path, expected })@ == (ErrorView::InvalidType {
            path: path@,
            expected: expected@,
        }),
        (TranslationError::InvalidValue { path, message })@ == (ErrorView::InvalidValue {
            path: path@,
            message: message@,
        }),
        (TranslationError::Lossy { message })@ == (ErrorView::Lossy { message: message@ }),
        messages_of(diagnostics).len() == diagnostics.len(),
        0 <= i < diagnostics.len() ==> messages_of(diagnostics)[i] == diagnostics[i].message@,
{
}

} // verus!
