use gemini_codec::codecs::FormatCodec;
use gemini_codec::error::TranslationError;
use gemini_codec::gemini::reason::{gemini_finish_reason, gemini_stop_reason};
use gemini_codec::gemini::response::is_countable;
use gemini_codec::gemini::usage::{counts_fit, decode_gemini_usage, encode_gemini_usage};
use gemini_codec::gemini::GeminiGenerateContentCodec;
use gemini_codec::json::{JsonObject, JsonValue};
use gemini_codec::llm::{
    AggLlmResponse, CacheDetails, ContentBlock, ImageSource, Preservation, ProviderExtensions,
    ResponseOutput, Role, StopReason, Usage,
};
use gemini_codec::policy::{
    Capabilities, DeterministicIdPolicy, LossyPolicy, PreservationPolicy, TranslationPolicy,
};
use gemini_codec::wire::{from_serde, to_serde};

fn serde(text: &str) -> serde_json::Value {
    serde_json::from_str(text).unwrap()
}

fn value(text: &str) -> JsonValue {
    from_serde(serde(text))
}

fn policy() -> TranslationPolicy {
    TranslationPolicy {
        deterministic_ids: DeterministicIdPolicy::GenerateStable { prefix: "call".to_string() },
        lossy: LossyPolicy::Report,
        preservation: PreservationPolicy::Discard,
        capabilities: Capabilities { tools: true, structured_output: true },
    }
}

fn read(text: &str) -> AggLlmResponse {
    let decoded = GeminiGenerateContentCodec.decode_response(&value(text), &policy()).unwrap();
    assert!(decoded.diagnostics.is_empty());
    decoded.response
}

fn write(response: &AggLlmResponse) -> serde_json::Value {
    to_serde(&GeminiGenerateContentCodec.encode_response(response, &policy()).unwrap().body)
}

fn empty() -> AggLlmResponse {
    AggLlmResponse {
        id: None,
        model: None,
        outputs: vec![],
        usage: Usage::default(),
        extensions: ProviderExtensions { fields: JsonObject::new() },
        preservation: Preservation { captured: None },
    }
}

#[test]
fn a_response_is_read() {
    let response = read(
        r#"{"candidates":[{"content":{"role":"model","parts":[{"text":"hi"},{"functionCall":{"name":"f"}}]},"finishReason":"STOP"},{"content":1}],
            "usageMetadata":{"promptTokenCount":10,"cachedContentTokenCount":4,"candidatesTokenCount":5,"totalTokenCount":17,"thoughtsTokenCount":2},
            "responseId":"r","modelVersion":"m","createTime":"t"}"#,
    );
    assert_eq!(response.id.as_deref(), Some("r"));
    assert_eq!(response.model.as_deref(), Some("m"));
    assert_eq!(response.outputs.len(), 1);
    assert_eq!(response.outputs[0].role, Role::Assistant);
    assert_eq!(response.outputs[0].stop_reason, Some(StopReason::ToolUse));
    assert_eq!(response.outputs[0].content.len(), 2);
    match &response.outputs[0].content[1] {
        ContentBlock::ToolCall(call) => {
            assert_eq!(call.id, "call_00000001");
            assert_eq!(to_serde(&call.arguments), serde("{}"));
        }
        other => panic!("{other:?}"),
    }
    assert_eq!(
        response.usage,
        Usage {
            input_tokens: Some(6),
            cache: CacheDetails { cached: Some(4), creation: None },
            output_tokens: Some(5),
            total_tokens: Some(17),
            reasoning_tokens: Some(2),
        }
    );
    assert_eq!(
        to_serde(&JsonValue::Object(response.extensions.fields)),
        serde(r#"{"createTime":"t"}"#)
    );
}

#[test]
fn a_blocked_prompt_is_filtered() {
    let response = read(r#"{"promptFeedback":{"blockReason":"SAFETY"}}"#);
    assert_eq!(response.outputs[0].stop_reason, Some(StopReason::ContentFilter));
    assert!(matches!(
        &response.outputs[0].content[..],
        [ContentBlock::Text { text }] if text.is_empty()
    ));
    let response = read(r#"{"candidates":[],"promptFeedback":{}}"#);
    assert_eq!(response.outputs[0].stop_reason, Some(StopReason::EndTurn));
    assert_eq!(response.usage, Usage::default());
}

#[test]
fn wrong_types_in_responses_are_errors() {
    let error = |text: &str| {
        GeminiGenerateContentCodec.decode_response(&value(text), &policy()).unwrap_err()
    };
    assert!(matches!(
        error("null"),
        TranslationError::InvalidType { path, expected: "object" } if path == "$"
    ));
    assert!(matches!(
        error(r#"{"candidates":[{"content":{"parts":"x"}}]}"#),
        TranslationError::InvalidType { path, expected: "array" }
            if path == "$.candidates[0].content.parts"
    ));
}

#[test]
fn an_empty_response_is_written() {
    assert_eq!(
        write(&empty()),
        serde(
            r#"{"candidates":[{"content":{"role":"model","parts":[]},"finishReason":"STOP","index":0}],
                "usageMetadata":{"promptTokenCount":0,"candidatesTokenCount":0,"totalTokenCount":0}}"#
        )
    );
}

#[test]
fn a_response_survives_a_hop() {
    let body = r#"{"candidates":[{"content":{"role":"model","parts":[{"text":"hm","thought":true},{"text":"hi"},{"functionCall":{"name":"f","args":{"x":1},"id":"abc"}}]},"finishReason":"STOP","index":0}],
        "usageMetadata":{"promptTokenCount":10,"cachedContentTokenCount":4,"candidatesTokenCount":5,"totalTokenCount":17,"thoughtsTokenCount":2},
        "responseId":"r","modelVersion":"m"}"#;
    assert_eq!(write(&read(body)), serde(body));
}

#[test]
fn only_the_first_output_is_written() {
    let output = |t: &str, stop_reason: Option<StopReason>| ResponseOutput {
        role: Role::Assistant,
        content: vec![ContentBlock::Text { text: t.to_string() }],
        url_citations: vec![],
        stop_reason,
    };
    let mut response = empty();
    response.outputs =
        vec![output("a", Some(StopReason::MaxTokens)), output("b", Some(StopReason::EndTurn))];
    let written = write(&response);
    assert_eq!(
        written["candidates"],
        serde(
            r#"[{"content":{"role":"model","parts":[{"text":"a"}]},"finishReason":"MAX_TOKENS","index":0}]"#
        )
    );
    let back = read(&written.to_string());
    assert_eq!(back.outputs[0].stop_reason, Some(StopReason::MaxTokens));
}

#[test]
fn loss_is_reported_or_rejected() {
    let mut response = empty();
    response.outputs = vec![ResponseOutput {
        role: Role::Assistant,
        content: vec![ContentBlock::Image {
            source: ImageSource::FileId { file_id: "x".to_string() },
        }],
        url_citations: vec![],
        stop_reason: None,
    }];
    let encoded = GeminiGenerateContentCodec.encode_response(&response, &policy()).unwrap();
    assert_eq!(
        encoded.diagnostics[0].message,
        "Gemini parts cannot carry this image content; it was dropped"
    );
    let reject = TranslationPolicy { lossy: LossyPolicy::Reject, ..policy() };
    assert!(matches!(
        GeminiGenerateContentCodec.encode_response(&response, &reject),
        Err(TranslationError::Lossy { .. })
    ));
}

#[test]
fn refused_content_needs_no_counts() {
    let mut response = empty();
    response.usage.input_tokens = Some(u64::MAX);
    response.usage.reasoning_tokens = Some(1);
    assert!(!counts_fit(&response.usage));
    let reject = TranslationPolicy { lossy: LossyPolicy::Reject, ..policy() };
    assert!(!is_countable(&response, &policy()));
    assert!(!is_countable(&response, &reject));
    response.outputs = vec![ResponseOutput {
        role: Role::Assistant,
        content: vec![ContentBlock::Image {
            source: ImageSource::FileId { file_id: "x".to_string() },
        }],
        url_citations: vec![],
        stop_reason: None,
    }];
    assert!(!is_countable(&response, &policy()));
    assert!(is_countable(&response, &reject));
    match GeminiGenerateContentCodec.encode_response(&response, &reject) {
        Err(TranslationError::Lossy { message }) => assert_eq!(
            message,
            "Gemini parts cannot carry this image content; it was dropped"
        ),
        other => panic!("{other:?}"),
    }
    response.usage.reasoning_tokens = None;
    assert!(counts_fit(&response.usage));
    assert!(is_countable(&response, &policy()));
}

#[test]
fn a_kept_response_is_sent_again() {
    let keep = TranslationPolicy { preservation: PreservationPolicy::Replay, ..policy() };
    let text = r#"{"candidates":[{"content":{},"safetyRatings":[0.5]}]}"#;
    let decoded = GeminiGenerateContentCodec.decode_response(&value(text), &keep).unwrap();
    let encoded = GeminiGenerateContentCodec.encode_response(&decoded.response, &keep).unwrap();
    assert_eq!(to_serde(&encoded.body), serde(text));
}

#[test]
fn finish_reasons_are_read() {
    assert_eq!(gemini_stop_reason(None, false), StopReason::EndTurn);
    assert_eq!(gemini_stop_reason(None, true), StopReason::ToolUse);
    assert_eq!(gemini_stop_reason(Some("STOP"), true), StopReason::ToolUse);
    assert_eq!(gemini_stop_reason(Some("MAX_TOKENS"), true), StopReason::MaxTokens);
    for reason in [
        "SAFETY",
        "RECITATION",
        "BLOCKLIST",
        "PROHIBITED_CONTENT",
        "SPII",
        "IMAGE_SAFETY",
        "IMAGE_PROHIBITED_CONTENT",
        "IMAGE_RECITATION",
    ] {
        assert_eq!(gemini_stop_reason(Some(reason), true), StopReason::ContentFilter);
    }
    assert_eq!(gemini_stop_reason(Some("MALFORMED_FUNCTION_CALL"), true), StopReason::Unknown);
    assert_eq!(gemini_stop_reason(Some("stop"), false), StopReason::Unknown);
}

#[test]
fn stop_reasons_read_back() {
    for reason in [
        StopReason::EndTurn,
        StopReason::ToolUse,
        StopReason::MaxTokens,
        StopReason::ContentFilter,
        StopReason::Unknown,
    ] {
        let finish = gemini_finish_reason(Some(reason));
        assert_eq!(gemini_stop_reason(Some(finish), reason == StopReason::ToolUse), reason);
    }
    assert_eq!(gemini_finish_reason(Some(StopReason::Error)), "OTHER");
    assert_eq!(gemini_finish_reason(None), "STOP");
}

#[test]
fn cached_tokens_are_part_of_the_prompt() {
    let usage = |text: &str| decode_gemini_usage(Some(&value(text)));
    assert_eq!(usage(r#"{"promptTokenCount":3,"cachedContentTokenCount":5}"#).input_tokens, Some(0));
    assert_eq!(usage(r#"{"promptTokenCount":3}"#).input_tokens, Some(3));
    assert_eq!(usage(r#"{"cachedContentTokenCount":5}"#).input_tokens, None);
    assert_eq!(usage("7"), Usage::default());
    assert_eq!(decode_gemini_usage(None), Usage::default());
}

#[test]
fn usage_is_written() {
    let usage = Usage {
        input_tokens: Some(1),
        cache: CacheDetails { cached: Some(2), creation: Some(4) },
        output_tokens: Some(8),
        total_tokens: None,
        reasoning_tokens: Some(16),
    };
    let written = encode_gemini_usage(&usage);
    assert_eq!(
        to_serde(&written),
        serde(
            r#"{"promptTokenCount":7,"candidatesTokenCount":8,"totalTokenCount":31,"cachedContentTokenCount":2,"thoughtsTokenCount":16}"#
        )
    );
    assert_eq!(
        decode_gemini_usage(Some(&written)),
        Usage {
            input_tokens: Some(5),
            cache: CacheDetails { cached: Some(2), creation: None },
            output_tokens: Some(8),
            total_tokens: Some(31),
            reasoning_tokens: Some(16),
        }
    );
    let total = Usage { total_tokens: Some(99), ..usage };
    assert_eq!(to_serde(&encode_gemini_usage(&total))["totalTokenCount"], 99);
}
