use gemini_codec::error::{TranslationDiagnostic, TranslationError};
use gemini_codec::format::FormatId;
use gemini_codec::gemini::decode::{decode_gemini_part, decode_gemini_parts, gemini_function_name};
use gemini_codec::gemini::encode::{
    args_from_text, content_kind, encode_gemini_parts, gemini_args, response_from_text, CallNames,
};
use gemini_codec::gemini::ids::GeminiToolIds;
use gemini_codec::gemini::media::{gemini_url_part, media_kind, split_data_uri};
use gemini_codec::json::{JsonObject, JsonValue};
use gemini_codec::llm::{
    ContentBlock, FileSource, ImageSource, MediaSource, ToolCall, ToolResult,
};
use gemini_codec::policy::{
    Capabilities, DeterministicIdPolicy, LossyPolicy, PreservationPolicy, TranslationPolicy,
};
use gemini_codec::wire::{from_serde, to_serde};

fn serde(text: &str) -> serde_json::Value {
    serde_json::from_str(text).unwrap()
}

fn value(text: &str) -> JsonValue {
    from_serde(serde(text))
}

fn object(text: &str) -> JsonObject {
    match value(text) {
        JsonValue::Object(o) => o,
        other => panic!("{other:?}"),
    }
}

fn policy(lossy: LossyPolicy) -> TranslationPolicy {
    TranslationPolicy {
        deterministic_ids: DeterministicIdPolicy::GenerateStable { prefix: "call".to_string() },
        lossy,
        preservation: PreservationPolicy::Discard,
        capabilities: Capabilities { tools: true, structured_output: true },
    }
}

fn read(text: &str) -> ContentBlock {
    let mut ids = GeminiToolIds::default();
    decode_gemini_part(&object(text), &mut ids, &policy(LossyPolicy::Report))
}

fn write(content: Vec<ContentBlock>) -> (serde_json::Value, Vec<String>) {
    let mut diagnostics: Vec<TranslationDiagnostic> = Vec::new();
    let names = CallNames::new();
    let parts =
        encode_gemini_parts(&content, &names, &mut diagnostics, &policy(LossyPolicy::Report))
            .unwrap();
    (
        to_serde(&JsonValue::Array(parts)),
        diagnostics.into_iter().map(|d| d.message).collect(),
    )
}

fn hop(text: &str) -> serde_json::Value {
    let (parts, notes) = write(vec![read(text)]);
    assert!(notes.is_empty(), "{notes:?}");
    parts[0].clone()
}

fn survives(text: &str) {
    assert_eq!(hop(text), serde(text));
}

#[test]
fn text_is_read() {
    assert!(matches!(read(r#"{"text":"hi"}"#), ContentBlock::Text { text } if text == "hi"));
    assert!(matches!(
        read(r#"{"text":"hi","thought":false,"thoughtSignature":"s"}"#),
        ContentBlock::Text { text } if text == "hi"
    ));
    assert!(matches!(
        read(r#"{"text":"hm","thought":true,"thoughtSignature":"s"}"#),
        ContentBlock::Reasoning { text, signature: Some(s), details }
            if text == "hm" && s == "s" && details.is_empty()
    ));
}

#[test]
fn text_comes_before_a_call() {
    assert!(matches!(
        read(r#"{"text":"hi","functionCall":{"name":"f"}}"#),
        ContentBlock::Text { .. }
    ));
}

#[test]
fn parts_survive_a_hop() {
    survives(r#"{"text":"hi"}"#);
    survives(r#"{"text":"hm","thought":true}"#);
    survives(r#"{"text":"","thought":true,"thoughtSignature":"s"}"#);
    survives(r#"{"functionCall":{"name":"f","args":{"x":1}}}"#);
    survives(r#"{"functionCall":{"name":"f","args":{},"id":"abc"}}"#);
    survives(r#"{"inlineData":{"mimeType":"image/png","data":"QQ=="}}"#);
    survives(r#"{"inlineData":{"mimeType":"audio/wav","data":"QQ=="}}"#);
    survives(r#"{"inlineData":{"mimeType":"video/mp4","data":"QQ=="}}"#);
    survives(r#"{"inlineData":{"mimeType":"application/pdf","data":"QQ==","displayName":"a.pdf"}}"#);
    survives(r#"{"fileData":{"fileUri":"gs://a","mimeType":"audio/wav"}}"#);
    survives(r#"{"fileData":{"fileUri":"gs://a","mimeType":"video/mp4"}}"#);
    survives(r#"{"fileData":{"fileUri":"gs://a","mimeType":"application/pdf"}}"#);
    survives(r#"{"executableCode":{"code":"1"},"more":[null]}"#);
}

#[test]
fn some_parts_change_on_a_hop() {
    assert_eq!(
        hop(r#"{"fileData":{"fileUri":"gs://a","mimeType":"image/png"}}"#),
        serde(r#"{"fileData":{"fileUri":"gs://a"}}"#)
    );
    assert_eq!(
        hop(r#"{"inlineData":{"mimeType":"text/plain;charset=utf-8","data":"QQ=="}}"#),
        serde(r#"{"inlineData":{"mimeType":"text/plain","data":"QQ=="}}"#)
    );
    assert_eq!(
        hop(r#"{"functionCall":{"name":"f","args":{},"id":"call_00000009"}}"#),
        serde(r#"{"functionCall":{"name":"f","args":{}}}"#)
    );
}

#[test]
fn function_responses_keep_their_object() {
    let text = r#"{"functionResponse":{"name":"f","response":{"a":[1,{"b":"c"}],"d":null}}}"#;
    match read(text) {
        ContentBlock::ToolResult(result) => {
            assert_eq!(result.tool_call_id, "f");
            assert_eq!(result.is_error, None);
            assert!(matches!(
                &result.content[0],
                ContentBlock::Text { text } if text == r#"{"a":[1,{"b":"c"}],"d":null}"#
            ));
        }
        other => panic!("{other:?}"),
    }
    let (parts, notes) = write(vec![read(text)]);
    assert!(notes.is_empty());
    assert_eq!(
        parts,
        serde(r#"[{"functionResponse":{"name":"f","id":"f","response":{"a":[1,{"b":"c"}],"d":null}}}]"#)
    );
    match read(r#"{"functionResponse":{"name":"f"}}"#) {
        ContentBlock::ToolResult(result) => {
            assert!(matches!(&result.content[0], ContentBlock::Text { text } if text.is_empty()));
        }
        other => panic!("{other:?}"),
    }
}

#[test]
fn media_are_read_by_kind() {
    assert!(matches!(
        read(r#"{"inlineData":{"mimeType":"image/png","data":"QQ=="}}"#),
        ContentBlock::Image { source: ImageSource::Base64 { media_type: Some(t), data } }
            if t == "image/png" && data == "QQ=="
    ));
    assert!(matches!(
        read(r#"{"fileData":{"fileUri":"gs://a","mimeType":"video/mp4"}}"#),
        ContentBlock::Video { source: MediaSource::Url { url, media_type: Some(t) } }
            if url == "gs://a" && t == "video/mp4"
    ));
    assert!(matches!(
        read(r#"{"inlineData":{"mimeType":"application/pdf","data":"QQ=="}}"#),
        ContentBlock::File { source: FileSource::FileData { data, filename: None } }
            if data == "data:application/pdf;base64,QQ=="
    ));
    assert!(matches!(
        read(r#"{"inlineData":{"data":"QQ=="}}"#),
        ContentBlock::File { source: FileSource::FileData { data, .. } } if data == "QQ=="
    ));
    assert!(matches!(
        read(r#"{"fileData":{"mimeType":"video/mp4"}}"#),
        ContentBlock::Unknown { .. }
    ));
}

#[test]
fn items_that_are_no_objects_are_unknown() {
    let mut ids = GeminiToolIds::default();
    let content =
        decode_gemini_parts(Some(&value(r#"["a",{"text":"b"},7]"#)), "$", &mut ids, &policy(LossyPolicy::Report))
            .unwrap();
    assert_eq!(content.len(), 3);
    assert!(matches!(
        &content[0],
        ContentBlock::Unknown { provider, .. } if provider.as_str() == "gemini_generate_content"
    ));
    let (parts, notes) = write(content);
    assert!(notes.is_empty());
    assert_eq!(parts, serde(r#"["a",{"text":"b"},7]"#));
}

#[test]
fn parts_are_an_array_or_absent() {
    let mut ids = GeminiToolIds::default();
    let p = policy(LossyPolicy::Report);
    assert!(decode_gemini_parts(None, "$.parts", &mut ids, &p).unwrap().is_empty());
    assert!(matches!(
        decode_gemini_parts(Some(&value("{}")), "$.parts", &mut ids, &p),
        Err(TranslationError::InvalidType { path, expected: "array" }) if path == "$.parts"
    ));
}

#[test]
fn names_are_texts() {
    assert_eq!(gemini_function_name(&object(r#"{"name":"f"}"#)), "f");
    assert_eq!(gemini_function_name(&object(r#"{"name":1}"#)), "");
    assert_eq!(gemini_function_name(&object("{}")), "");
}

#[test]
fn media_kinds_stand_before_the_slash() {
    assert_eq!(media_kind(Some("image/png")), Some("image"));
    assert_eq!(media_kind(Some("a/b/c")), Some("a"));
    assert_eq!(media_kind(Some("image")), None);
    assert_eq!(media_kind(None), None);
}

#[test]
fn data_uris_are_split() {
    assert_eq!(split_data_uri("data:image/png;base64,QQ=="), Some(("image/png", "QQ==")));
    assert_eq!(
        split_data_uri("data:text/plain;charset=utf-8;base64,a,b"),
        Some(("text/plain", "a,b"))
    );
    assert_eq!(split_data_uri("data:image/png;base64,"), Some(("image/png", "")));
    assert_eq!(split_data_uri("data:;base64,QQ=="), None);
    assert_eq!(split_data_uri("data:image/png,QQ=="), None);
    assert_eq!(split_data_uri("data:image/png;base64"), None);
    assert_eq!(split_data_uri("https://a/b,c"), None);
}

#[test]
fn data_uris_are_inlined() {
    assert_eq!(
        to_serde(&gemini_url_part("data:image/png;base64,QQ==", None)),
        serde(r#"{"inlineData":{"mimeType":"image/png","data":"QQ=="}}"#)
    );
    assert_eq!(
        to_serde(&gemini_url_part("https://a", Some("audio/wav"))),
        serde(r#"{"fileData":{"fileUri":"https://a","mimeType":"audio/wav"}}"#)
    );
}

#[test]
fn arguments_are_objects() {
    let args = |text: &str| to_serde(&gemini_args(&value(text)));
    assert_eq!(args(r#"{"a":1}"#), serde(r#"{"a":1}"#));
    assert_eq!(args(r#""{\"a\":1}""#), serde(r#"{"a":1}"#));
    assert_eq!(args(r#""[1]""#), serde(r#"{"raw":"[1]"}"#));
    assert_eq!(args(r#""oops""#), serde(r#"{"raw":"oops"}"#));
    assert_eq!(args("null"), serde("{}"));
    assert_eq!(args("[1]"), serde(r#"{"value":[1]}"#));
    assert_eq!(to_serde(&args_from_text("t", None)), serde(r#"{"raw":"t"}"#));
    assert_eq!(
        to_serde(&response_from_text("t", Some(value("[1]")), Some(true))),
        serde(r#"{"error":"t"}"#)
    );
}

fn result(id: &str, content: Vec<ContentBlock>, is_error: Option<bool>) -> ContentBlock {
    ContentBlock::ToolResult(ToolResult { tool_call_id: id.to_string(), content, is_error })
}

fn text(t: &str) -> ContentBlock {
    ContentBlock::Text { text: t.to_string() }
}

#[test]
fn responses_are_objects() {
    let response = |content: Vec<ContentBlock>, is_error: Option<bool>| {
        write(vec![result("x", content, is_error)]).0[0]["functionResponse"]["response"].clone()
    };
    assert_eq!(response(vec![text(r#"{"a":1}"#)], Some(true)), serde(r#"{"a":1}"#));
    assert_eq!(response(vec![text("a"), text("b")], None), serde(r#"{"output":"a\nb"}"#));
    assert_eq!(response(vec![text("a")], Some(true)), serde(r#"{"error":"a"}"#));
    assert_eq!(response(vec![text("a")], Some(false)), serde(r#"{"output":"a"}"#));
    assert_eq!(response(vec![text("[1]")], None), serde(r#"{"output":"[1]"}"#));
    assert_eq!(response(vec![], None), serde(r#"{"output":""}"#));
}

#[test]
fn results_are_named_after_their_calls() {
    let mut names = CallNames::new();
    names.insert("a", "f");
    names.insert("b", "g");
    names.insert("a", "h");
    let mut diagnostics = Vec::new();
    let content = vec![
        result("a", vec![text("1")], None),
        result("b", vec![text("2")], None),
        result("c", vec![text("3")], None),
    ];
    let parts =
        encode_gemini_parts(&content, &names, &mut diagnostics, &policy(LossyPolicy::Report))
            .unwrap();
    let names: Vec<String> = parts
        .iter()
        .map(|p| to_serde(p)["functionResponse"]["name"].as_str().unwrap().to_string())
        .collect();
    assert_eq!(names, ["h", "g", "c"]);
}

#[test]
fn what_no_part_can_carry_is_reported() {
    let image = || ContentBlock::Image { source: ImageSource::FileId { file_id: "i".to_string() } };
    let content = vec![
        image(),
        ContentBlock::Audio { source: MediaSource::FileId { file_id: "a".to_string() } },
        ContentBlock::Video { source: MediaSource::FileId { file_id: "v".to_string() } },
        ContentBlock::File { source: FileSource::FileId { file_id: "f".to_string() } },
        ContentBlock::File {
            source: FileSource::FileData { data: "QQ==".to_string(), filename: None },
        },
        ContentBlock::Unknown { provider: FormatId::new("other"), raw: JsonValue::Null },
        result("x", vec![image(), text("t")], None),
        ContentBlock::Reasoning { text: String::new(), signature: None, details: vec![] },
        ContentBlock::Refusal { text: "no".to_string() },
    ];
    let (parts, notes) = write(content);
    assert_eq!(
        parts,
        serde(
            r#"[{"functionResponse":{"name":"x","id":"x","response":{"output":"t"}}},{"text":"no"}]"#
        )
    );
    let kind = |k: &str| format!("Gemini parts cannot carry this {k} content; it was dropped");
    assert_eq!(
        notes,
        [
            kind("image"),
            kind("audio"),
            kind("video"),
            kind("file"),
            kind("file"),
            kind("provider-specific"),
            "Gemini function responses carry only text here; non-text tool-result content was dropped"
                .to_string(),
        ]
    );
}

#[test]
fn loss_is_an_error_where_the_policy_says_so() {
    let mut diagnostics = vec![TranslationDiagnostic { message: "before".to_string() }];
    let content =
        vec![text("a"), ContentBlock::Unknown { provider: FormatId::new("other"), raw: JsonValue::Null }];
    let names = CallNames::new();
    match encode_gemini_parts(&content, &names, &mut diagnostics, &policy(LossyPolicy::Reject)) {
        Err(TranslationError::Lossy { message }) => assert_eq!(
            message,
            "Gemini parts cannot carry this provider-specific content; it was dropped"
        ),
        other => panic!("{other:?}"),
    }
    assert_eq!(diagnostics.len(), 1);
    assert_eq!(diagnostics[0].message, "before");
}

#[test]
fn kinds_have_names() {
    assert_eq!(content_kind(&text("a")), "provider-specific");
    assert_eq!(
        content_kind(&ContentBlock::Image {
            source: ImageSource::Url { url: String::new(), detail: None }
        }),
        "image"
    );
}

#[test]
fn written_blocks_read_back() {
    let call = ContentBlock::ToolCall(ToolCall {
        id: "abc".to_string(),
        name: "f".to_string(),
        arguments: value(r#"{"x":[1]}"#),
    });
    let (parts, _) = write(vec![call]);
    match read(&parts[0].to_string()) {
        ContentBlock::ToolCall(call) => {
            assert_eq!(call.id, "abc");
            assert_eq!(call.name, "f");
            assert_eq!(to_serde(&call.arguments), serde(r#"{"x":[1]}"#));
        }
        other => panic!("{other:?}"),
    }
}
