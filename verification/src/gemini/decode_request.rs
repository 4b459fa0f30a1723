//! Reads the body of a `generateContent` request.
use vstd::prelude::*;
use vstd::seq_lib::*;
use vstd::string::*;

use crate::codecs::DecodedRequest;
use crate::common::{key_texts, provider_extensions, remove_all, without};
use crate::error::{messages_of, ErrorView, TranslationDiagnostic, TranslationError};
use crate::gemini::decode::{decode_gemini_parts, parts_blocks, parts_ids, responses_kept};
use crate::gemini::ids::{no_calls, GeminiToolIds, IdsView};
use crate::gemini::schema::{decode_gemini_response_format, response_format_of};
use crate::gemini::tools::{
    choice_of, decode_gemini_tool_choice, decode_gemini_tools, tool_entries, tools_notes, tools_of,
};
use crate::gemini::GEMINI_FORMAT;
use crate::json::{
    array_in, field, float_in, i64_in, json_array, json_field, json_float, json_i64, json_items,
    json_str, json_u64, string_in, u64_in, Json, JsonObject, JsonValue, Obj,
};
use crate::llm::{
    blocks, instruction_views, lemma_blocks_pushed, message_views, opt_choice, BlockView,
    ChoiceView, ContentBlock, InstructionBlock, LlmRequest, Message, MessageView, OutputParams,
    OutputView, ProviderExtensions, RequestView, Role, SamplingParams, SamplingView, ToolChoice,
};
use crate::policy::TranslationPolicy;
use crate::text::{debug_form, debug_text, decimal, decimal_text, opt_text, str_eq};
use crate::util::{capture_request_preservation, captured, object, object_or_error, reported};

verus! {

/// The `generationConfig` fields that the model has a place for. The rest of the object
/// rides in the extensions, so that a Gemini-to-Gemini hop keeps it.
pub open spec fn mapped_generation_config() -> Seq<Seq<char>> {
    seq![
        "temperature"@,
        "topP"@,
        "topK"@,
        "maxOutputTokens"@,
        "responseSchema"@,
        "responseJsonSchema"@,
    ]
}

/// The request fields that the model has a place for.
pub open spec fn mapped_request() -> Seq<Seq<char>> {
    seq![
        "model"@,
        "contents"@,
        "systemInstruction"@,
        "tools"@,
        "toolConfig"@,
        "generationConfig"@,
    ]
}

/// The `generationConfig` of a request; an absent one is empty.
pub open spec fn generation_of(body: Obj) -> Result<Obj, ErrorView> {
    match body.get("generationConfig"@) {
        Some(config) => object_or_error(config, "$.generationConfig"@),
        None => Ok(Map::empty()),
    }
}

/// The model that a request names; an empty name is none.
pub open spec fn model_of(body: Obj) -> Option<Seq<char>> {
    match string_in(body.get("model"@)) {
        Some(model) => if model.len() > 0 {
            Some(model)
        } else {
            None
        },
        None => None,
    }
}

/// The number under `key`, in floating point.
pub open spec fn float_field(o: Obj, key: Seq<char>) -> Option<Option<serde_json::Number>> {
    match float_in(o.get(key)) {
        Some(x) => Some(Some(x)),
        None => None,
    }
}

/// How the model is to sample.
pub open spec fn sampling_of(generation: Obj) -> SamplingView {
    SamplingView {
        temperature: float_field(generation, "temperature"@),
        top_p: float_field(generation, "topP"@),
        top_k: i64_in(generation.get("topK"@)),
    }
}

/// What the model is to produce.
pub open spec fn output_of(generation: Obj) -> OutputView {
    OutputView {
        max_output_tokens: u64_in(generation.get("maxOutputTokens"@)),
        response_format: response_format_of(generation),
    }
}

/// The text that a part of a system instruction says.
pub open spec fn system_text(part: Json) -> Option<BlockView> {
    match string_in(field(part, "text"@)) {
        Some(text) => Some(BlockView::Text { text }),
        None => None,
    }
}

/// The parts of a system instruction.
pub open spec fn system_parts_of(system: Obj) -> Seq<Json> {
    match array_in(system.get("parts"@)) {
        Some(parts) => parts,
        None => Seq::empty(),
    }
}

/// The texts of a system instruction.
pub open spec fn system_content(system: Obj) -> Seq<BlockView> {
    system_parts_of(system).filter_map(|part: Json| system_text(part))
}

/// The instruction of a request, where it says anything.
pub open spec fn instructions_of(body: Obj) -> Result<Seq<MessageView>, ErrorView> {
    match body.get("systemInstruction"@) {
        Some(system) => match object_or_error(system, "$.systemInstruction"@) {
            Ok(fields) => if system_content(fields).len() > 0 {
                Ok(seq![MessageView { role: Role::System, content: system_content(fields) }])
            } else {
                Ok(Seq::empty())
            },
            Err(e) => Err(e),
        },
        None => Ok(Seq::empty()),
    }
}

/// Where the content number `index` of a request is.
pub open spec fn content_path(index: nat) -> Seq<char> {
    "$.contents["@ + decimal(index) + "]"@
}

/// What is wrong with a role, of which `quoted` is the quoted text.
pub open spec fn role_error(quoted: Seq<char>) -> Seq<char> {
    "Invalid value: "@ + quoted + ". Supported content roles are user, model."@
}

/// Who a content is from. Gemini defines only `user` and `model`; an absent role means
/// `user`.
pub open spec fn role_of(content: Obj, index: nat) -> Result<Role, ErrorView> {
    match string_in(content.get("role"@)) {
        None => Ok(Role::User),
        Some(role) => if role == "user"@ {
            Ok(Role::User)
        } else if role == "model"@ {
            Ok(Role::Assistant)
        } else {
            Err(
                ErrorView::InvalidValue {
                    path: content_path(index) + ".role"@,
                    message: role_error(debug_form(role)),
                },
            )
        },
    }
}

/// The message that content number `index` says in a conversation.
pub open spec fn content_message(
    content: Json,
    index: nat,
    ids: IdsView,
    policy: TranslationPolicy,
) -> Result<MessageView, ErrorView> {
    match object_or_error(content, content_path(index)) {
        Err(e) => Err(e),
        Ok(fields) => match role_of(fields, index) {
            Err(e) => Err(e),
            Ok(role) => match parts_blocks(
                fields.get("parts"@),
                content_path(index) + ".parts"@,
                ids,
                policy,
            ) {
                Err(e) => Err(e),
                Ok(content) => Ok(MessageView { role, content }),
            },
        },
    }
}

/// The conversation before content number `n`.
pub open spec fn ids_before(contents: Seq<Json>, n: int, policy: TranslationPolicy) -> IdsView
    decreases n,
{
    if n <= 0 {
        no_calls()
    } else {
        parts_ids(
            field(contents[n - 1], "parts"@),
            ids_before(contents, n - 1, policy),
            policy,
        )
    }
}

/// The messages that the first `n` contents say, or what is wrong with the first of them that
/// has something wrong.
pub open spec fn contents_messages(
    contents: Seq<Json>,
    n: int,
    policy: TranslationPolicy,
) -> Result<Seq<MessageView>, ErrorView>
    decreases n,
{
    if n <= 0 {
        Ok(Seq::empty())
    } else {
        match contents_messages(contents, n - 1, policy) {
            Err(e) => Err(e),
            Ok(messages) => match content_message(
                contents[n - 1],
                (n - 1) as nat,
                ids_before(contents, n - 1, policy),
                policy,
            ) {
                Err(e) => Err(e),
                Ok(message) => Ok(messages.push(message)),
            },
        }
    }
}

/// The messages of a request.
pub open spec fn messages_in(body: Obj, policy: TranslationPolicy) -> Result<
    Seq<MessageView>,
    ErrorView,
> {
    match body.get("contents"@) {
        None => Ok(Seq::empty()),
        Some(Json::Array(contents)) => contents_messages(contents, contents.len() as int, policy),
        Some(_) => Err(ErrorView::InvalidType { path: "$.contents"@, expected: "array"@ }),
    }
}

/// The tool choice of a request.
pub open spec fn choice_in(body: Obj) -> Option<ChoiceView> {
    match body.get("toolConfig"@) {
        Some(config) => choice_of(config),
        None => None,
    }
}

/// What the model has no place for in `generationConfig`.
pub open spec fn generation_rest(generation: Obj) -> Obj {
    let rest = without(generation, mapped_generation_config());
    if response_format_of(generation) is Some {
        rest.remove("responseMimeType"@)
    } else {
        rest
    }
}

/// What the model has no place for in a request.
pub open spec fn extensions_of(body: Obj, generation: Obj) -> Obj {
    let fields = without(body, mapped_request());
    if generation_rest(generation) == Map::<Seq<char>, Json>::empty() {
        fields
    } else {
        fields.insert("generationConfig"@, Json::Object(generation_rest(generation)))
    }
}

/// The request that a body with this configuration, these instructions and these messages
/// says.
pub open spec fn request_view(
    body: Obj,
    generation: Obj,
    instructions: Seq<MessageView>,
    messages: Seq<MessageView>,
    policy: TranslationPolicy,
) -> RequestView {
    RequestView {
        model: model_of(body),
        instructions,
        messages,
        tools: tools_of(tool_entries(body.get("tools"@))),
        tool_choice: choice_in(body),
        sampling: sampling_of(generation),
        output: output_of(generation),
        extensions: extensions_of(body, generation),
        preservation: captured(GEMINI_FORMAT@, Json::Object(body), policy),
    }
}

/// The request that a body says, and what is reported of it.
pub open spec fn decoded_request(body: Json, policy: TranslationPolicy) -> Result<
    (RequestView, Seq<Seq<char>>),
    ErrorView,
> {
    match object_or_error(body, "$"@) {
        Err(e) => Err(e),
        Ok(fields) => match generation_of(fields) {
            Err(e) => Err(e),
            Ok(generation) => match instructions_of(fields) {
                Err(e) => Err(e),
                Ok(instructions) => match messages_in(fields, policy) {
                    Err(e) => Err(e),
                    Ok(messages) => match reported(
                        Seq::empty(),
                        policy,
                        tools_notes(tool_entries(fields.get("tools"@))),
                    ) {
                        Err(e) => Err(e),
                        Ok(diagnostics) => Ok(
                            (
                                request_view(fields, generation, instructions, messages, policy),
                                diagnostics,
                            ),
                        ),
                    },
                },
            },
        },
    }
}

/// Whether all function responses in `contents` are kept in the messages that were read from
/// them.
pub open spec fn contents_kept(contents: Seq<Json>, messages: Seq<MessageView>) -> bool {
    forall|i: int|
        0 <= i < contents.len() ==> responses_kept(
            field(#[trigger] contents[i], "parts"@),
            messages[i].content,
        )
}

/// Whether all function responses in a body are kept in the messages that were read from it.
pub open spec fn request_kept(body: Json, messages: Seq<MessageView>) -> bool {
    array_in(field(body, "contents"@)) matches Some(contents) ==> contents_kept(contents, messages)
}

fn decode_generation(body: &JsonObject) -> (r: Result<JsonObject, TranslationError>)
    ensures
        match r {
            Ok(generation) => generation_of(body@) == Ok::<Obj, ErrorView>(generation@),
            Err(e) => generation_of(body@) == Err::<Obj, ErrorView>(e@),
        },
{
    match body.get("generationConfig") {
        Some(config) => Ok(object(config, "$.generationConfig")?.clone()),
        None => Ok(JsonObject::new()),
    }
}

fn decode_model(body: &JsonObject) -> (model: Option<String>)
    ensures
        opt_text(model) == model_of(body@),
{
    match json_str(body.get("model")) {
        Some(model) => if model.is_empty() {
            None
        } else {
            Some(model.to_owned())
        },
        None => None,
    }
}

fn decode_system_parts(system: &JsonObject) -> (content: Vec<ContentBlock>)
    ensures
        blocks(content@) == system_content(system@),
{
    let ghost all = system_parts_of(system@);
    let ghost f = |part: Json| system_text(part);
    let mut content: Vec<ContentBlock> = Vec::new();
    assert(blocks(content@) =~= all.take(0).filter_map(f));
    let parts = match json_array(system.get("parts")) {
        Some(parts) => parts,
        None => {
            assert(all =~= all.take(0));
            return content;
        },
    };
    let mut i: usize = 0;
    while i < parts.len()
        invariant
            i <= parts@.len(),
            all == json_items(parts@),
            f == (|part: Json| system_text(part)),
            blocks(content@) == all.take(i as int).filter_map(f),
        decreases parts@.len() - i,
    {
        proof {
            assert(all[i as int] == parts@[i as int]@);
            all.lemma_filter_map_take_succ(f, i as int);
        }
        match json_str(json_field(&parts[i], "text")) {
            Some(text) => {
                let b = ContentBlock::Text { text: text.to_owned() };
                proof {
                    lemma_blocks_pushed(content@, b);
                    assert(all.take(i + 1).filter_map(f) =~= blocks(content@).push(b@));
                }
                content.push(b);
            },
            None => {
                assert(all.take(i + 1).filter_map(f) =~= blocks(content@));
            },
        }
        i += 1;
    }
    assert(all.take(i as int) =~= all);
    content
}

fn decode_instructions(body: &JsonObject) -> (r: Result<Vec<InstructionBlock>, TranslationError>)
    ensures
        match r {
            Ok(instructions) => instructions_of(body@) == Ok::<Seq<MessageView>, ErrorView>(
                instruction_views(instructions@),
            ),
            Err(e) => instructions_of(body@) == Err::<Seq<MessageView>, ErrorView>(e@),
        },
{
    let mut instructions: Vec<InstructionBlock> = Vec::new();
    assert(instruction_views(instructions@) =~= Seq::<MessageView>::empty());
    match body.get("systemInstruction") {
        Some(system) => {
            // A role on systemInstruction carries no meaning, so it is ignored.
            let content = decode_system_parts(object(system, "$.systemInstruction")?);
            assert(blocks(content@).len() == content@.len());
            if content.len() > 0 {
                let instruction = InstructionBlock { role: Role::System, content };
                instructions.push(instruction);
                assert(instruction_views(instructions@) =~= seq![instruction@]);
            }
        },
        None => {},
    }
    Ok(instructions)
}

fn path_of_content(index: usize) -> (path: String)
    ensures
        path@ == content_path(index as nat),
{
    let mut path = "$.contents[".to_owned();
    path.append(decimal_text(index as u128).as_str());
    path.append("]");
    path
}

/// Says what is wrong with a role, of which `quoted` is the quoted text.
pub fn role_message(quoted: &str) -> (message: String)
    ensures
        message@ == role_error(quoted@),
{
    let mut message = "Invalid value: ".to_owned();
    message.append(quoted);
    message.append(". Supported content roles are user, model.");
    message
}

fn decode_role(content: &JsonObject, index: usize) -> (r: Result<Role, TranslationError>)
    ensures
        match r {
            Ok(role) => role_of(content@, index as nat) == Ok::<Role, ErrorView>(role),
            Err(e) => role_of(content@, index as nat) == Err::<Role, ErrorView>(e@),
        },
{
    let role = match json_str(content.get("role")) {
        Some(role) => role,
        None => return Ok(Role::User),
    };
    if str_eq(role, "user") {
        return Ok(Role::User);
    }
    if str_eq(role, "model") {
        return Ok(Role::Assistant);
    }
    let mut path = path_of_content(index);
    path.append(".role");
    Err(
        TranslationError::InvalidValue { path, message: role_message(debug_text(role).as_str()) },
    )
}

fn decode_content(
    content: &JsonValue,
    index: usize,
    ids: &mut GeminiToolIds,
    policy: &TranslationPolicy,
) -> (r: Result<Message, TranslationError>)
    requires
        old(ids).counter + usize::MAX <= u128::MAX,
    ensures
        match r {
            Ok(message) => content_message(content@, index as nat, old(ids)@, *policy) == Ok::<
                MessageView,
                ErrorView,
            >(message@),
            Err(e) => content_message(content@, index as nat, old(ids)@, *policy) == Err::<
                MessageView,
                ErrorView,
            >(e@),
        },
        r is Ok ==> final(ids)@ == parts_ids(field(content@, "parts"@), old(ids)@, *policy),
        r matches Ok(message) ==> responses_kept(field(content@, "parts"@), message@.content),
        final(ids).counter <= old(ids).counter + usize::MAX,
{
    let fields = object(content, path_of_content(index).as_str())?;
    let role = decode_role(fields, index)?;
    let mut path = path_of_content(index);
    path.append(".parts");
    let content = decode_gemini_parts(fields.get("parts"), path.as_str(), ids, policy)?;
    Ok(Message { role, content })
}

/// An error in a content is the error of all contents from there on.
pub proof fn lemma_contents_error(contents: Seq<Json>, k: int, n: int, policy: TranslationPolicy)
    requires
        0 <= k <= n,
        contents_messages(contents, k, policy) is Err,
    ensures
        contents_messages(contents, n, policy) == contents_messages(contents, k, policy),
    decreases n,
{
    if k < n {
        lemma_contents_error(contents, k, n - 1, policy);
    }
}

fn decode_messages(body: &JsonObject, policy: &TranslationPolicy) -> (r: Result<
    Vec<Message>,
    TranslationError,
>)
    ensures
        match r {
            Ok(messages) => messages_in(body@, *policy) == Ok::<Seq<MessageView>, ErrorView>(
                message_views(messages@),
            ),
            Err(e) => messages_in(body@, *policy) == Err::<Seq<MessageView>, ErrorView>(e@),
        },
        r matches Ok(messages) ==> request_kept(Json::Object(body@), message_views(messages@)),
{
    let mut messages: Vec<Message> = Vec::new();
    assert(message_views(messages@) =~= Seq::<MessageView>::empty());
    let contents = match body.get("contents") {
        None => return Ok(messages),
        Some(JsonValue::Array(contents)) => contents,
        Some(_) => {
            return Err(
                TranslationError::InvalidType { path: "$.contents".to_owned(), expected: "array" },
            );
        },
    };
    let ghost all = json_items(contents@);
    let mut ids = GeminiToolIds::default();
    let mut i: usize = 0;
    while i < contents.len()
        invariant
            i <= contents@.len(),
            all == json_items(contents@),
            messages_in(body@, *policy) == contents_messages(all, all.len() as int, *policy),
            ids@ == ids_before(all, i as int, *policy),
            ids.counter <= i * usize::MAX,
            contents_messages(all, i as int, *policy) == Ok::<Seq<MessageView>, ErrorView>(
                message_views(messages@),
            ),
            messages@.len() == i,
            forall|j: int|
                0 <= j < i ==> responses_kept(
                    field(#[trigger] all[j], "parts"@),
                    message_views(messages@)[j].content,
                ),
        decreases contents@.len() - i,
    {
        proof {
            assert(all[i as int] == contents@[i as int]@);
            assert((i + 1) * usize::MAX <= u128::MAX && (i + 1) * usize::MAX == i * usize::MAX
                + usize::MAX) by (nonlinear_arith)
                requires
                    0 <= i < usize::MAX <= u64::MAX,
            ;
            if contents_messages(all, i + 1, *policy) is Err {
                lemma_contents_error(all, i + 1, all.len() as int, *policy);
            }
        }
        let message = decode_content(&contents[i], i, &mut ids, policy)?;
        let ghost before = messages@;
        messages.push(message);
        assert(message_views(messages@) =~= message_views(before).push(message@));
        i += 1;
    }
    Ok(messages)
}

fn decode_choice(body: &JsonObject) -> (choice: Option<ToolChoice>)
    ensures
        opt_choice(choice) == choice_in(body@),
{
    match body.get("toolConfig") {
        Some(config) => decode_gemini_tool_choice(config),
        None => None,
    }
}

fn decode_extensions(body: &JsonObject, generation: JsonObject, has_format: bool) -> (fields:
    JsonObject)
    requires
        has_format == (response_format_of(generation@) is Some),
    ensures
        fields@ == extensions_of(body@, generation@),
{
    let known: [&str; 6] = [
        "model",
        "contents",
        "systemInstruction",
        "tools",
        "toolConfig",
        "generationConfig",
    ];
    let mapped: [&str; 6] = [
        "temperature",
        "topP",
        "topK",
        "maxOutputTokens",
        "responseSchema",
        "responseJsonSchema",
    ];
    assert(key_texts(known@) =~= mapped_request());
    assert(key_texts(mapped@) =~= mapped_generation_config());
    let mut fields = provider_extensions(body, known.as_slice());
    let mut rest = generation;
    remove_all(&mut rest, mapped.as_slice());
    if has_format {
        rest.remove("responseMimeType");
    }
    if !rest.is_empty() {
        fields.insert("generationConfig", JsonValue::Object(rest));
    }
    fields
}

/// Reads the body of a request.
pub fn read_request(body: &JsonValue, policy: &TranslationPolicy) -> (r: Result<
    DecodedRequest,
    TranslationError,
>)
    ensures
        match r {
            Ok(d) => decoded_request(body@, *policy) == Ok::<
                (RequestView, Seq<Seq<char>>),
                ErrorView,
            >((d.request@, messages_of(d.diagnostics@))),
            Err(e) => decoded_request(body@, *policy) == Err::<
                (RequestView, Seq<Seq<char>>),
                ErrorView,
            >(e@),
        },
        r matches Ok(d) ==> request_kept(body@, d.request@.messages),
{
    let fields = object(body, "$")?;
    let mut diagnostics: Vec<TranslationDiagnostic> = Vec::new();
    assert(messages_of(diagnostics@) =~= Seq::<Seq<char>>::empty());
    let generation = decode_generation(fields)?;
    let instructions = decode_instructions(fields)?;
    let messages = decode_messages(fields, policy)?;
    let tools = decode_gemini_tools(fields.get("tools"), &mut diagnostics, policy)?;
    let response_format = decode_gemini_response_format(&generation);
    let has_format = response_format.is_some();
    let sampling = SamplingParams {
        temperature: json_float(generation.get("temperature")),
        top_p: json_float(generation.get("topP")),
        top_k: json_i64(generation.get("topK")),
    };
    let output = OutputParams {
        max_output_tokens: json_u64(generation.get("maxOutputTokens")),
        response_format,
    };
    let request = LlmRequest {
        model: decode_model(fields),
        instructions,
        messages,
        tools,
        tool_choice: decode_choice(fields),
        sampling,
        output,
        extensions: ProviderExtensions {
            fields: decode_extensions(fields, generation, has_format),
        },
        preservation: capture_request_preservation(
            GEMINI_FORMAT,
            &JsonValue::Object(fields.clone()),
            policy,
        ),
    };
    Ok(DecodedRequest { request, diagnostics })
}

} // verus!
