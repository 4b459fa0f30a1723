use gemini_codec::codecs::FormatCodec;
use gemini_codec::error::TranslationError;
use gemini_codec::gemini::decode_request::role_message;
use gemini_codec::gemini::GeminiGenerateContentCodec;
use gemini_codec::json::{JsonObject, JsonValue};
use gemini_codec::llm::{
    ContentBlock, InstructionBlock, LlmRequest, Message, OutputParams, Preservation,
    ProviderExtensions, Role, SamplingParams, ToolCall, ToolChoice, ToolDefinition, ToolResult,
};
use gemini_codec::number::Float;
use gemini_codec::policy::{
    Capabilities, DeterministicIdPolicy, LossyPolicy, PreservationPolicy, TranslationPolicy,
};
use gemini_codec::wire::{from_serde, to_serde};

fn serde(text: &str) -> serde_json::Value {
    serde_json::from_str(text).unwrap()
}

fn value(text: &str) -> JsonValue {
    from_serde(serde(text))
}

fn policy() -> TranslationPolicy {
    TranslationPolicy {
        deterministic_ids: DeterministicIdPolicy::GenerateStable { prefix: "call".to_string() },
        lossy: LossyPolicy::Report,
        preservation: PreservationPolicy::Discard,
        capabilities: Capabilities { tools: true, structured_output: true },
    }
}

fn read(text: &str) -> LlmRequest {
    GeminiGenerateContentCodec.decode_request(&value(text), &policy()).unwrap().request
}

fn read_error(text: &str) -> TranslationError {
    GeminiGenerateContentCodec.decode_request(&value(text), &policy()).unwrap_err()
}

fn write(request: &LlmRequest) -> serde_json::Value {
    to_serde(&GeminiGenerateContentCodec.encode_request(request, &policy()).unwrap().body)
}

fn hop(text: &str) -> serde_json::Value {
    write(&read(text))
}

fn empty() -> LlmRequest {
    LlmRequest {
        model: None,
        instructions: vec![],
        messages: vec![],
        tools: vec![],
        tool_choice: None,
        sampling: SamplingParams { temperature: None, top_p: None, top_k: None },
        output: OutputParams { max_output_tokens: None, response_format: None },
        extensions: ProviderExtensions { fields: JsonObject::new() },
        preservation: Preservation { captured: None },
    }
}

fn text(t: &str) -> ContentBlock {
    ContentBlock::Text { text: t.to_string() }
}

fn message(role: Role, content: Vec<ContentBlock>) -> Message {
    Message { role, content }
}

#[test]
fn the_format_has_a_key() {
    assert_eq!(GeminiGenerateContentCodec.format().as_str(), "gemini_generate_content");
}

#[test]
fn a_request_is_read() {
    let request = read(
        r#"{"model":"gemini-pro","systemInstruction":{"role":"x","parts":[{"text":"be"},{"no":1},{"text":"kind"}]},
            "contents":[{"parts":[{"text":"hi"}]},{"role":"model","parts":[{"functionCall":{"name":"f","args":{"x":1}}}]},
                {"role":"user","parts":[{"functionResponse":{"name":"f","response":{"y":2}}}]}],
            "tools":[{"functionDeclarations":[{"name":"f"}]}],
            "toolConfig":{"functionCallingConfig":{"mode":"ANY"}},
            "generationConfig":{"temperature":1,"topP":0.5,"topK":40,"maxOutputTokens":100,"seed":7},
            "labels":{"a":"b"}}"#,
    );
    assert_eq!(request.model.as_deref(), Some("gemini-pro"));
    assert_eq!(request.instructions.len(), 1);
    assert_eq!(request.instructions[0].role, Role::System);
    assert_eq!(request.instructions[0].content.len(), 2);
    assert_eq!(request.messages.len(), 3);
    assert_eq!(request.messages[0].role, Role::User);
    assert_eq!(request.messages[1].role, Role::Assistant);
    match (&request.messages[1].content[0], &request.messages[2].content[0]) {
        (ContentBlock::ToolCall(call), ContentBlock::ToolResult(result)) => {
            assert_eq!(call.id, "call_00000001");
            assert_eq!(call.name, "f");
            assert_eq!(result.tool_call_id, "call_00000001");
        }
        other => panic!("{other:?}"),
    }
    assert_eq!(request.tools.len(), 1);
    assert!(matches!(request.tool_choice, Some(ToolChoice::Required)));
    match &request.sampling.temperature {
        Some(Float::Finite(x)) => assert_eq!(x.number().as_f64(), Some(1.0)),
        other => panic!("{other:?}"),
    }
    assert_eq!(request.sampling.top_k, Some(40));
    assert_eq!(request.output.max_output_tokens, Some(100));
    assert!(request.output.response_format.is_none());
    assert_eq!(
        to_serde(&JsonValue::Object(request.extensions.fields)),
        serde(r#"{"labels":{"a":"b"},"generationConfig":{"seed":7}}"#)
    );
    assert!(request.preservation.captured.is_none());
}

#[test]
fn an_empty_body_is_an_empty_request() {
    let request = read(r#"{"model":""}"#);
    assert!(request.model.is_none());
    assert!(request.messages.is_empty());
    assert!(request.instructions.is_empty());
    assert!(request.extensions.fields.is_empty());
    assert_eq!(hop("{}"), serde(r#"{"contents":[]}"#));
}

#[test]
fn an_instruction_without_text_is_none() {
    assert!(read(r#"{"systemInstruction":{"parts":[{"inlineData":{}}]}}"#).instructions.is_empty());
    assert!(read(r#"{"systemInstruction":{}}"#).instructions.is_empty());
}

#[test]
fn wrong_types_are_errors() {
    let invalid = |text: &str, at: &str, what: &str| match read_error(text) {
        TranslationError::InvalidType { path, expected } => {
            assert_eq!(path, at);
            assert_eq!(expected, what);
        }
        other => panic!("{other:?}"),
    };
    invalid("[]", "$", "object");
    invalid(r#"{"generationConfig":1,"contents":1}"#, "$.generationConfig", "object");
    invalid(r#"{"systemInstruction":"x","contents":1}"#, "$.systemInstruction", "object");
    invalid(r#"{"contents":{}}"#, "$.contents", "array");
    invalid(r#"{"contents":[{},"x"]}"#, "$.contents[1]", "object");
    invalid(
        r#"{"contents":[{},{},{},{},{},{},{},{},{},{},{"parts":{}}]}"#,
        "$.contents[10].parts",
        "array",
    );
}

#[test]
fn unknown_roles_are_errors() {
    match read_error(r#"{"contents":[{"role":"a\"b\n","parts":1}]}"#) {
        TranslationError::InvalidValue { path, message } => {
            assert_eq!(path, "$.contents[0].role");
            assert_eq!(
                message,
                r#"Invalid value: "a\"b\n". Supported content roles are user, model."#
            );
        }
        other => panic!("{other:?}"),
    }
    assert_eq!(
        role_message("\"x\""),
        "Invalid value: \"x\". Supported content roles are user, model."
    );
    assert_eq!(read(r#"{"contents":[{"role":1}]}"#).messages[0].role, Role::User);
}

#[test]
fn the_first_error_counts() {
    match read_error(r#"{"contents":[{"role":"x"},1]}"#) {
        TranslationError::InvalidValue { path, .. } => assert_eq!(path, "$.contents[0].role"),
        other => panic!("{other:?}"),
    }
}

#[test]
fn built_in_tools_are_reported() {
    let body = value(r#"{"tools":[{"googleSearch":{}}]}"#);
    let decoded = GeminiGenerateContentCodec.decode_request(&body, &policy()).unwrap();
    assert_eq!(decoded.diagnostics.len(), 1);
    let reject = TranslationPolicy { lossy: LossyPolicy::Reject, ..policy() };
    assert!(matches!(
        GeminiGenerateContentCodec.decode_request(&body, &reject),
        Err(TranslationError::Lossy { .. })
    ));
}

#[test]
fn a_request_survives_a_hop() {
    let body = r#"{"model":"gemini-pro","systemInstruction":{"parts":[{"text":"be"},{"text":"kind"}]},
        "contents":[{"role":"user","parts":[{"text":"hi"}]},
            {"role":"model","parts":[{"functionCall":{"name":"f","args":{"x":1}}},{"functionCall":{"name":"f","args":{"x":2}}}]},
            {"role":"user","parts":[{"functionResponse":{"name":"f","response":{"y":1}}},{"functionResponse":{"name":"f","response":{"y":2}}}]}],
        "tools":[{"functionDeclarations":[{"name":"f","description":"d","parametersJsonSchema":{"type":"object"}}]}],
        "toolConfig":{"functionCallingConfig":{"mode":"ANY","allowedFunctionNames":["f"]}},
        "generationConfig":{"temperature":0.5,"topP":0.25,"topK":40,"maxOutputTokens":100,"seed":7,"stopSequences":["x"],
            "responseMimeType":"application/json","responseJsonSchema":{"type":"object"}},
        "cachedContent":"c","labels":{"a":"b"},"safetySettings":[{}],"serviceTier":"s","store":true}"#;
    assert_eq!(hop(body), serde(body));
}

#[test]
fn a_conversation_with_ids_survives_a_hop() {
    let body = r#"{"contents":[
        {"role":"model","parts":[{"functionCall":{"name":"f","args":{"x":1},"id":"a"}},{"functionCall":{"name":"f","args":{"x":2},"id":"b"}},
            {"functionCall":{"name":"g","args":{}}}]},
        {"role":"user","parts":[{"functionResponse":{"name":"f","response":{"y":2},"id":"b"}},{"functionResponse":{"name":"g","response":{}}},
            {"functionResponse":{"name":"f","response":{"y":1},"id":"a"}},{"text":"and"}]},
        {"role":"model","parts":[{"text":"so"},{"functionCall":{"name":"f","args":{},"id":"c"}}]},
        {"role":"user","parts":[{"functionResponse":{"name":"f","response":{"y":3},"id":"c"}}]}]}"#;
    assert_eq!(hop(body), serde(body));
    let p = TranslationPolicy { deterministic_ids: DeterministicIdPolicy::Preserve, ..policy() };
    let with_ids = r#"{"contents":[
        {"role":"model","parts":[{"functionCall":{"name":"f","args":{},"id":"a"}},{"functionCall":{"name":"g","args":{},"id":"b"}}]},
        {"role":"user","parts":[{"functionResponse":{"name":"g","response":{},"id":"b"}},{"functionResponse":{"name":"f","response":{},"id":"a"}}]}]}"#;
    let request = GeminiGenerateContentCodec.decode_request(&value(with_ids), &p).unwrap().request;
    let written = to_serde(&GeminiGenerateContentCodec.encode_request(&request, &p).unwrap().body);
    assert_eq!(written, serde(with_ids));
}

#[test]
fn a_response_without_id_takes_the_id_of_its_call() {
    let written = hop(
        r#"{"contents":[{"role":"model","parts":[{"functionCall":{"name":"f","args":{},"id":"a"}}]},
            {"role":"user","parts":[{"functionResponse":{"name":"f","response":{}}}]}]}"#,
    );
    assert_eq!(written["contents"][1]["parts"][0]["functionResponse"]["id"], "a");
}

#[test]
fn some_of_a_request_changes_on_a_hop() {
    assert_eq!(
        hop(r#"{"contents":[],"generationConfig":{"temperature":1,"topK":"x","responseSchema":{"type":"STRING"},"responseMimeType":"text/x.enum"},"other":1}"#),
        serde(
            r#"{"contents":[],"generationConfig":{"temperature":1.0,"responseMimeType":"application/json","responseJsonSchema":{"type":"string"}}}"#
        )
    );
    assert_eq!(
        hop(r#"{"contents":[],"generationConfig":{"responseMimeType":"text/plain"}}"#),
        serde(r#"{"contents":[],"generationConfig":{"responseMimeType":"text/plain"}}"#)
    );
}

#[test]
fn ids_that_stay_empty_confuse_names() {
    let p = TranslationPolicy { deterministic_ids: DeterministicIdPolicy::Preserve, ..policy() };
    let body = value(
        r#"{"contents":[{"role":"model","parts":[{"functionCall":{"name":"f","args":{}}},{"functionCall":{"name":"g","args":{}}}]},
            {"role":"user","parts":[{"functionResponse":{"name":"f","response":{}}}]}]}"#,
    );
    let request = GeminiGenerateContentCodec.decode_request(&body, &p).unwrap().request;
    let written = to_serde(&GeminiGenerateContentCodec.encode_request(&request, &p).unwrap().body);
    assert_eq!(written["contents"][1]["parts"][0]["functionResponse"]["name"], "g");
}

#[test]
fn turns_of_one_role_are_merged() {
    let result = |id: &str, t: &str| {
        ContentBlock::ToolResult(ToolResult {
            tool_call_id: id.to_string(),
            content: vec![text(t)],
            is_error: None,
        })
    };
    let call = |id: &str, name: &str| {
        ContentBlock::ToolCall(ToolCall {
            id: id.to_string(),
            name: name.to_string(),
            arguments: JsonValue::Null,
        })
    };
    let mut request = empty();
    request.messages = vec![
        message(Role::User, vec![text("a")]),
        message(Role::System, vec![text("b")]),
        message(Role::User, vec![]),
        message(Role::Assistant, vec![call("1", "f")]),
        message(Role::Assistant, vec![call("2", "g")]),
        message(Role::Tool, vec![result("2", "y")]),
        message(Role::Tool, vec![result("1", "x")]),
    ];
    assert_eq!(
        write(&request),
        serde(
            r#"{"contents":[
                {"role":"user","parts":[{"text":"a"},{"text":"b"}]},
                {"role":"model","parts":[{"functionCall":{"name":"f","args":{},"id":"1"}},{"functionCall":{"name":"g","args":{},"id":"2"}}]},
                {"role":"user","parts":[{"functionResponse":{"name":"g","id":"2","response":{"output":"y"}}},
                    {"functionResponse":{"name":"f","id":"1","response":{"output":"x"}}}]}]}"#
        )
    );
}

#[test]
fn instructions_keep_their_texts() {
    let mut request = empty();
    request.instructions = vec![
        InstructionBlock {
            role: Role::System,
            content: vec![text("a"), ContentBlock::Refusal { text: "b".to_string() }],
        },
        InstructionBlock {
            role: Role::System,
            content: vec![
                ContentBlock::Reasoning { text: "x".to_string(), signature: None, details: vec![] },
                text("c"),
            ],
        },
    ];
    assert_eq!(
        write(&request),
        serde(r#"{"contents":[],"systemInstruction":{"parts":[{"text":"a"},{"text":"b"},{"text":"c"}]}}"#)
    );
}

#[test]
fn a_choice_goes_with_tools_only() {
    let mut request = empty();
    request.tool_choice = Some(ToolChoice::Raw(JsonValue::Null));
    assert_eq!(write(&request), serde(r#"{"contents":[]}"#));
    request.tools = vec![ToolDefinition {
        name: "f".to_string(),
        description: None,
        parameters: JsonValue::Null,
        strict: None,
    }];
    let encoded = GeminiGenerateContentCodec.encode_request(&request, &policy()).unwrap();
    assert_eq!(
        to_serde(&encoded.body),
        serde(r#"{"contents":[],"tools":[{"functionDeclarations":[{"name":"f"}]}]}"#)
    );
    assert_eq!(encoded.diagnostics.len(), 1);
}

#[test]
fn numbers_that_are_not_finite_are_null() {
    let mut request = empty();
    request.sampling.temperature = Some(Float::NonFinite);
    request.sampling.top_k = Some(-1);
    assert_eq!(
        write(&request),
        serde(r#"{"contents":[],"generationConfig":{"temperature":null,"topK":-1}}"#)
    );
}

#[test]
fn missing_capabilities_are_reported_first() {
    let mut request = read(
        r#"{"tools":[{"functionDeclarations":[{"name":"f"}]}],"generationConfig":{"responseMimeType":"application/json"}}"#,
    );
    request.tool_choice = Some(ToolChoice::Raw(JsonValue::Null));
    let p = TranslationPolicy {
        capabilities: Capabilities { tools: false, structured_output: false },
        ..policy()
    };
    let notes: Vec<String> = GeminiGenerateContentCodec
        .encode_request(&request, &p)
        .unwrap()
        .diagnostics
        .into_iter()
        .map(|d| d.message)
        .collect();
    assert_eq!(
        notes,
        [
            "the target does not support tools",
            "the target does not support structured output",
            "tool choice has no Gemini functionCallingConfig equivalent; it was dropped",
        ]
    );
    let reject = TranslationPolicy { lossy: LossyPolicy::Reject, ..p };
    match GeminiGenerateContentCodec.encode_request(&request, &reject) {
        Err(TranslationError::Lossy { message }) => {
            assert_eq!(message, "the target does not support tools")
        }
        other => panic!("{other:?}"),
    }
}

#[test]
fn a_kept_request_is_sent_again() {
    let keep = TranslationPolicy { preservation: PreservationPolicy::Replay, ..policy() };
    let text = r#"{"anything":[1,2.5],"contents":[{"parts":[]}],"tools":[{"googleSearch":{}}]}"#;
    let decoded = GeminiGenerateContentCodec.decode_request(&value(text), &keep).unwrap();
    assert_eq!(decoded.diagnostics.len(), 1);
    let reject = TranslationPolicy {
        lossy: LossyPolicy::Reject,
        preservation: PreservationPolicy::Replay,
        ..policy()
    };
    let encoded = GeminiGenerateContentCodec.encode_request(&decoded.request, &reject).unwrap();
    assert_eq!(to_serde(&encoded.body), serde(text));
    assert!(encoded.diagnostics.is_empty());
    assert_eq!(write(&decoded.request), serde(r#"{"contents":[]}"#));
}

#[test]
fn a_body_of_another_format_is_embedded() {
    let mut request = empty();
    request.preservation = Preservation {
        captured: Some(gemini_codec::llm::CapturedBody {
            format: gemini_codec::format::FormatId::new("other"),
            body: value("[1]"),
        }),
    };
    let p = TranslationPolicy {
        preservation: PreservationPolicy::Embed { key: "kept".to_string() },
        ..policy()
    };
    assert_eq!(
        to_serde(&GeminiGenerateContentCodec.encode_request(&request, &p).unwrap().body),
        serde(r#"{"contents":[],"kept":{"format":"other","body":[1]}}"#)
    );
}

#[test]
fn messages_read_back() {
    let mut request = empty();
    request.messages = vec![
        message(Role::User, vec![text("a"), text("b")]),
        message(
            Role::Assistant,
            vec![ContentBlock::Reasoning {
                text: "hm".to_string(),
                signature: Some("s".to_string()),
                details: vec![],
            }],
        ),
    ];
    let back = read(&write(&request).to_string());
    assert_eq!(format!("{:?}", back.messages), format!("{:?}", request.messages));
}
