//! The provider-neutral model of requests and responses. Each type has a view, in which
//! texts are sequences of characters and JSON values are what they stand for.
use vstd::prelude::*;

use crate::format::FormatId;
use crate::json::{json_items, opt_float, opt_value, Json, JsonObject, JsonValue, Obj};
use crate::number::Float;
use crate::text::opt_text;

verus! {

/// Who a message is from.
#[derive(Debug, Clone, Copy, PartialEq, Eq, Structural)]
pub enum Role {
    System,
    User,
    Assistant,
    Tool,
}

/// Why a model stopped.
#[derive(Debug, Clone, Copy, PartialEq, Eq, Structural)]
pub enum StopReason {
    EndTurn,
    MaxTokens,
    ToolUse,
    ContentFilter,
    Error,
    Unknown,
}

/// Where an image is.
#[derive(Debug)]
pub enum ImageSource {
    Url { url: String, detail: Option<String> },
    Base64 { media_type: Option<String>, data: String },
    FileId { file_id: String },
}

/// Where audio or video is.
#[derive(Debug)]
pub enum MediaSource {
    Url { url: String, media_type: Option<String> },
    Base64 { media_type: Option<String>, data: String },
    FileId { file_id: String },
}

/// Where a file is.
#[derive(Debug)]
pub enum FileSource {
    FileData { data: String, filename: Option<String> },
    FileId { file_id: String },
}

/// A call that the model asks for.
#[derive(Debug)]
pub struct ToolCall {
    pub id: String,
    pub name: String,
    pub arguments: JsonValue,
}

/// What a call gave.
#[derive(Debug)]
pub struct ToolResult {
    pub tool_call_id: String,
    pub content: Vec<ContentBlock>,
    pub is_error: Option<bool>,
}

/// A piece of a message.
#[allow(inconsistent_fields)]
#[derive(Debug)]
pub enum ContentBlock {
    Text { text: String },
    Refusal { text: String },
    Reasoning { text: String, signature: Option<String>, details: Vec<JsonValue> },
    ToolCall(ToolCall),
    ToolResult(ToolResult),
    Image { source: ImageSource },
    Audio { source: MediaSource },
    Video { source: MediaSource },
    File { source: FileSource },
    Unknown { provider: FormatId, raw: JsonValue },
}

/// What a `ContentBlock` says.
#[allow(inconsistent_fields)]
pub enum BlockView {
    Text { text: Seq<char> },
    Refusal { text: Seq<char> },
    Reasoning { text: Seq<char>, signature: Option<Seq<char>>, details: Seq<Json> },
    ToolCall { id: Seq<char>, name: Seq<char>, arguments: Json },
    ToolResult { tool_call_id: Seq<char>, content: Seq<BlockView>, is_error: Option<bool> },
    Image { source: ImageSourceView },
    Audio { source: MediaSourceView },
    Video { source: MediaSourceView },
    File { source: FileSourceView },
    Unknown { provider: Seq<char>, raw: Json },
}

/// What an `ImageSource` says.
pub enum ImageSourceView {
    Url { url: Seq<char>, detail: Option<Seq<char>> },
    Base64 { media_type: Option<Seq<char>>, data: Seq<char> },
    FileId { file_id: Seq<char> },
}

/// What a `MediaSource` says.
pub enum MediaSourceView {
    Url { url: Seq<char>, media_type: Option<Seq<char>> },
    Base64 { media_type: Option<Seq<char>>, data: Seq<char> },
    FileId { file_id: Seq<char> },
}

/// What a `FileSource` says.
pub enum FileSourceView {
    FileData { data: Seq<char>, filename: Option<Seq<char>> },
    FileId { file_id: Seq<char> },
}

impl View for ImageSource {
    type V = ImageSourceView;

    open spec fn view(&self) -> ImageSourceView {
        match self {
            ImageSource::Url { url, detail } => ImageSourceView::Url {
                url: url@,
                detail: opt_text(*detail),
            },
            ImageSource::Base64 { media_type, data } => ImageSourceView::Base64 {
                media_type: opt_text(*media_type),
                data: data@,
            },
            ImageSource::FileId { file_id } => ImageSourceView::FileId { file_id: file_id@ },
        }
    }
}

impl View for MediaSource {
    type V = MediaSourceView;

    open spec fn view(&self) -> MediaSourceView {
        match self {
            MediaSource::Url { url, media_type } => MediaSourceView::Url {
                url: url@,
                media_type: opt_text(*media_type),
            },
            MediaSource::Base64 { media_type, data } => MediaSourceView::Base64 {
                media_type: opt_text(*media_type),
                data: data@,
            },
            MediaSource::FileId { file_id } => MediaSourceView::FileId { file_id: file_id@ },
        }
    }
}

impl View for FileSource {
    type V = FileSourceView;

    open spec fn view(&self) -> FileSourceView {
        match self {
            FileSource::FileData { data, filename } => FileSourceView::FileData {
                data: data@,
                filename: opt_text(*filename),
            },
            FileSource::FileId { file_id } => FileSourceView::FileId { file_id: file_id@ },
        }
    }
}

/// What a block says.
pub open spec fn block(b: ContentBlock) -> BlockView
    decreases b,
{
    match b {
        ContentBlock::Text { text } => BlockView::Text { text: text@ },
        ContentBlock::Refusal { text } => BlockView::Refusal { text: text@ },
        ContentBlock::Reasoning { text, signature, details } => BlockView::Reasoning {
            text: text@,
            signature: opt_text(signature),
            details: json_items(details@),
        },
        ContentBlock::ToolCall(call) => BlockView::ToolCall {
            id: call.id@,
            name: call.name@,
            arguments: call.arguments@,
        },
        ContentBlock::ToolResult(result) => BlockView::ToolResult {
            tool_call_id: result.tool_call_id@,
            content: blocks(result.content@),
            is_error: result.is_error,
        },
        ContentBlock::Image { source } => BlockView::Image { source: source@ },
        ContentBlock::Audio { source } => BlockView::Audio { source: source@ },
        ContentBlock::Video { source } => BlockView::Video { source: source@ },
        ContentBlock::File { source } => BlockView::File { source: source@ },
        ContentBlock::Unknown { provider, raw } => BlockView::Unknown {
            provider: provider@,
            raw: raw@,
        },
    }
}

/// What blocks say, in order.
pub open spec fn blocks(s: Seq<ContentBlock>) -> Seq<BlockView>
    decreases s,
{
    Seq::new(
        s.len(),
        |i: int|
            if 0 <= i < s.len() {
                block(s[i])
            } else {
                BlockView::Text { text: Seq::empty() }
            },
    )
}

impl View for ContentBlock {
    type V = BlockView;

    open spec fn view(&self) -> BlockView {
        block(*self)
    }
}

pub proof fn lemma_blocks_pushed(s: Seq<ContentBlock>, b: ContentBlock)
    ensures
        blocks(s.push(b)) == blocks(s).push(b@),
{
    assert(blocks(s.push(b)) =~= blocks(s).push(b@));
}

/// An instruction to the model.
#[derive(Debug)]
pub struct InstructionBlock {
    pub role: Role,
    pub content: Vec<ContentBlock>,
}

/// A message of a conversation.
#[derive(Debug)]
pub struct Message {
    pub role: Role,
    pub content: Vec<ContentBlock>,
}

/// What an instruction or a message says.
pub struct MessageView {
    pub role: Role,
    pub content: Seq<BlockView>,
}

impl View for InstructionBlock {
    type V = MessageView;

    open spec fn view(&self) -> MessageView {
        MessageView { role: self.role, content: blocks(self.content@) }
    }
}

impl View for Message {
    type V = MessageView;

    open spec fn view(&self) -> MessageView {
        MessageView { role: self.role, content: blocks(self.content@) }
    }
}

/// A tool that the model may call.
#[derive(Debug)]
pub struct ToolDefinition {
    pub name: String,
    pub description: Option<String>,
    pub parameters: JsonValue,
    pub strict: Option<bool>,
}

/// What a `ToolDefinition` says.
pub struct ToolView {
    pub name: Seq<char>,
    pub description: Option<Seq<char>>,
    pub parameters: Json,
    pub strict: Option<bool>,
}

impl View for ToolDefinition {
    type V = ToolView;

    open spec fn view(&self) -> ToolView {
        ToolView {
            name: self.name@,
            description: opt_text(self.description),
            parameters: self.parameters@,
            strict: self.strict,
        }
    }
}

/// Which tools the model is to call.
#[derive(Debug)]
pub enum ToolChoice {
    Auto,
    Required,
    Never,
    Tool { name: String },
    Raw(JsonValue),
}

/// What a `ToolChoice` says.
pub enum ChoiceView {
    Auto,
    Required,
    Never,
    Tool { name: Seq<char> },
    Raw(Json),
}

impl View for ToolChoice {
    type V = ChoiceView;

    open spec fn view(&self) -> ChoiceView {
        match self {
            ToolChoice::Auto => ChoiceView::Auto,
            ToolChoice::Required => ChoiceView::Required,
            ToolChoice::Never => ChoiceView::Never,
            ToolChoice::Tool { name } => ChoiceView::Tool { name: name@ },
            ToolChoice::Raw(value) => ChoiceView::Raw(value@),
        }
    }
}

/// The choice in an option.
pub open spec fn opt_choice(choice: Option<ToolChoice>) -> Option<ChoiceView> {
    match choice {
        Some(c) => Some(c@),
        None => None,
    }
}

/// How the model samples.
#[derive(Debug)]
pub struct SamplingParams {
    pub temperature: Option<Float>,
    pub top_p: Option<Float>,
    pub top_k: Option<i64>,
}

/// What `SamplingParams` say.
pub struct SamplingView {
    pub temperature: Option<Option<serde_json::Number>>,
    pub top_p: Option<Option<serde_json::Number>>,
    pub top_k: Option<i64>,
}

impl View for SamplingParams {
    type V = SamplingView;

    open spec fn view(&self) -> SamplingView {
        SamplingView {
            temperature: opt_float(self.temperature),
            top_p: opt_float(self.top_p),
            top_k: self.top_k,
        }
    }
}

/// What the model is to produce.
#[derive(Debug)]
pub struct OutputParams {
    pub max_output_tokens: Option<u64>,
    pub response_format: Option<JsonValue>,
}

/// What `OutputParams` say.
pub struct OutputView {
    pub max_output_tokens: Option<u64>,
    pub response_format: Option<Json>,
}

impl View for OutputParams {
    type V = OutputView;

    open spec fn view(&self) -> OutputView {
        OutputView {
            max_output_tokens: self.max_output_tokens,
            response_format: opt_value(self.response_format),
        }
    }
}

/// Fields of a provider that the model has no place for.
#[derive(Debug)]
pub struct ProviderExtensions {
    pub fields: JsonObject,
}

/// A body as it was received.
#[derive(Debug)]
pub struct CapturedBody {
    pub format: FormatId,
    pub body: JsonValue,
}

/// The body that a request or response was read from, where it is kept.
#[derive(Debug)]
pub struct Preservation {
    pub captured: Option<CapturedBody>,
}

/// A format and a body of it.
pub struct CapturedView {
    pub format: Seq<char>,
    pub body: Json,
}

impl View for Preservation {
    type V = Option<CapturedView>;

    open spec fn view(&self) -> Option<CapturedView> {
        match self.captured {
            Some(c) => Some(CapturedView { format: c.format@, body: c.body@ }),
            None => None,
        }
    }
}

/// A request to a model.
#[derive(Debug)]
pub struct LlmRequest {
    pub model: Option<String>,
    pub instructions: Vec<InstructionBlock>,
    pub messages: Vec<Message>,
    pub tools: Vec<ToolDefinition>,
    pub tool_choice: Option<ToolChoice>,
    pub sampling: SamplingParams,
    pub output: OutputParams,
    pub extensions: ProviderExtensions,
    pub preservation: Preservation,
}

/// What an `LlmRequest` says.
pub struct RequestView {
    pub model: Option<Seq<char>>,
    pub instructions: Seq<MessageView>,
    pub messages: Seq<MessageView>,
    pub tools: Seq<ToolView>,
    pub tool_choice: Option<ChoiceView>,
    pub sampling: SamplingView,
    pub output: OutputView,
    pub extensions: Obj,
    pub preservation: Option<CapturedView>,
}

/// What instructions say, in order.
pub open spec fn instruction_views(s: Seq<InstructionBlock>) -> Seq<MessageView> {
    s.map_values(|m: InstructionBlock| m@)
}

/// What messages say, in order.
pub open spec fn message_views(s: Seq<Message>) -> Seq<MessageView> {
    s.map_values(|m: Message| m@)
}

/// What tool definitions say, in order.
pub open spec fn tool_views(s: Seq<ToolDefinition>) -> Seq<ToolView> {
    s.map_values(|t: ToolDefinition| t@)
}

impl View for LlmRequest {
    type V = RequestView;

    open spec fn view(&self) -> RequestView {
        RequestView {
            model: opt_text(self.model),
            instructions: instruction_views(self.instructions@),
            messages: message_views(self.messages@),
            tools: tool_views(self.tools@),
            tool_choice: opt_choice(self.tool_choice),
            sampling: self.sampling@,
            output: self.output@,
            extensions: self.extensions.fields@,
            preservation: self.preservation@,
        }
    }
}

/// How many input tokens a cache served and took up.
#[derive(Debug, Clone, Copy, PartialEq, Eq, Structural)]
pub struct CacheDetails {
    pub cached: Option<u64>,
    pub creation: Option<u64>,
}

/// How many tokens a response used. Cached tokens are not among the input tokens.
#[derive(Debug, Clone, Copy, PartialEq, Eq, Structural)]
pub struct Usage {
    pub input_tokens: Option<u64>,
    pub cache: CacheDetails,
    pub output_tokens: Option<u64>,
    pub total_tokens: Option<u64>,
    pub reasoning_tokens: Option<u64>,
}

/// A usage in which nothing is known.
pub open spec fn no_usage() -> Usage {
    Usage {
        input_tokens: None,
        cache: CacheDetails { cached: None, creation: None },
        output_tokens: None,
        total_tokens: None,
        reasoning_tokens: None,
    }
}

impl Default for Usage {
    fn default() -> (usage: Self)
        ensures
            usage == no_usage(),
    {
        Usage {
            input_tokens: None,
            cache: Usage::cache_details(None, None),
            output_tokens: None,
            total_tokens: None,
            reasoning_tokens: None,
        }
    }
}

impl Usage {
    /// The details of a cache that served `cached` tokens and took up `creation`.
    pub fn cache_details(cached: Option<u64>, creation: Option<u64>) -> (cache: CacheDetails)
        ensures
            cache == (CacheDetails { cached, creation }),
    {
        CacheDetails { cached, creation }
    }

    /// The input tokens that a cache served.
    pub fn cached_input_tokens(&self) -> (tokens: Option<u64>)
        ensures
            tokens == self.cache.cached,
    {
        self.cache.cached
    }

    /// The input tokens that a cache took up.
    pub fn cache_creation_input_tokens(&self) -> (tokens: Option<u64>)
        ensures
            tokens == self.cache.creation,
    {
        self.cache.creation
    }
}

/// One answer of a model.
#[derive(Debug)]
pub struct ResponseOutput {
    pub role: Role,
    pub content: Vec<ContentBlock>,
    pub url_citations: Vec<JsonValue>,
    pub stop_reason: Option<StopReason>,
}

/// What a `ResponseOutput` says.
pub struct ResponseOutputView {
    pub role: Role,
    pub content: Seq<BlockView>,
    pub url_citations: Seq<Json>,
    pub stop_reason: Option<StopReason>,
}

impl View for ResponseOutput {
    type V = ResponseOutputView;

    open spec fn view(&self) -> ResponseOutputView {
        ResponseOutputView {
            role: self.role,
            content: blocks(self.content@),
            url_citations: json_items(self.url_citations@),
            stop_reason: self.stop_reason,
        }
    }
}

/// A whole response of a model.
#[derive(Debug)]
pub struct AggLlmResponse {
    pub id: Option<String>,
    pub model: Option<String>,
    pub outputs: Vec<ResponseOutput>,
    pub usage: Usage,
    pub extensions: ProviderExtensions,
    pub preservation: Preservation,
}

/// What an `AggLlmResponse` says.
pub struct ResponseView {
    pub id: Option<Seq<char>>,
    pub model: Option<Seq<char>>,
    pub outputs: Seq<ResponseOutputView>,
    pub usage: Usage,
    pub extensions: Obj,
    pub preservation: Option<CapturedView>,
}

impl View for AggLlmResponse {
    type V = ResponseView;

    open spec fn view(&self) -> ResponseView {
        ResponseView {
            id: opt_text(self.id),
            model: opt_text(self.model),
            outputs: self.outputs@.map_values(|o: ResponseOutput| o@),
            usage: self.usage,
            extensions: self.extensions.fields@,
            preservation: self.preservation@,
        }
    }
}

/// The first output, where there is one.
pub open spec fn first_output_of(response: ResponseView) -> Option<ResponseOutputView> {
    if response.outputs.len() > 0 {
        Some(response.outputs[0])
    } else {
        None
    }
}

impl AggLlmResponse {
    /// The first output, where there is one.
    pub fn first_output(&self) -> (output: Option<&ResponseOutput>)
        ensures
            output is Some <==> first_output_of(self@) is Some,
            output matches Some(o) ==> first_output_of(self@) == Some(o@),
    {
        if self.outputs.len() > 0 {
            Some(&self.outputs[0])
        } else {
            None
        }
    }
}

} // verus!
