use gemini_codec::error::TranslationError;
use gemini_codec::gemini::schema::{
    decode_gemini_response_format, encode_gemini_response_format, json_schema_from_openapi,
};
use gemini_codec::gemini::tools::{
    decode_gemini_tool_choice, decode_gemini_tools, encode_gemini_tool_config, encode_gemini_tools,
};
use gemini_codec::json::{JsonObject, JsonValue};
use gemini_codec::llm::{ToolChoice, ToolDefinition};
use gemini_codec::policy::{
    Capabilities, DeterministicIdPolicy, LossyPolicy, PreservationPolicy, TranslationPolicy,
};
use gemini_codec::wire::{from_serde, to_serde};

fn serde(text: &str) -> serde_json::Value {
    serde_json::from_str(text).unwrap()
}

fn value(text: &str) -> JsonValue {
    from_serde(serde(text))
}

fn object(text: &str) -> JsonObject {
    match value(text) {
        JsonValue::Object(o) => o,
        other => panic!("{other:?}"),
    }
}

fn policy(lossy: LossyPolicy) -> TranslationPolicy {
    TranslationPolicy {
        deterministic_ids: DeterministicIdPolicy::Preserve,
        lossy,
        preservation: PreservationPolicy::Discard,
        capabilities: Capabilities { tools: true, structured_output: true },
    }
}

#[test]
fn type_names_are_lowered_at_every_depth() {
    let schema = r#"{"type":"OBJECT","properties":{"type":{"type":"STRING","enum":["A"]},
        "b":{"anyOf":[{"type":"Number"},{"type":["STRING"]}]}},"title":"KEEP","n":1}"#;
    let lowered = r#"{"type":"object","properties":{"type":{"type":"string","enum":["A"]},
        "b":{"anyOf":[{"type":"number"},{"type":["STRING"]}]}},"title":"KEEP","n":1}"#;
    let once = json_schema_from_openapi(&value(schema));
    assert_eq!(to_serde(&once), serde(lowered));
    assert_eq!(to_serde(&json_schema_from_openapi(&once)), serde(lowered));
    assert_eq!(to_serde(&json_schema_from_openapi(&value("\"OBJECT\""))), serde("\"OBJECT\""));
    assert_eq!(
        to_serde(&json_schema_from_openapi(&value(r#"{"type":"ÄB"}"#))),
        serde(r#"{"type":"Äb"}"#)
    );
}

#[test]
fn declarations_are_read() {
    let tools = value(
        r#"[{"functionDeclarations":[
            {"name":"f","description":"d","parameters":{"type":"OBJECT"}},
            {"name":"g","parametersJsonSchema":{"type":"OBJECT"},"parameters":{}}]},
            {"googleSearch":{}},
            {"functionDeclarations":[{}]}]"#,
    );
    let mut diagnostics = Vec::new();
    let definitions =
        decode_gemini_tools(Some(&tools), &mut diagnostics, &policy(LossyPolicy::Report)).unwrap();
    assert_eq!(definitions.len(), 3);
    assert_eq!(definitions[0].name, "f");
    assert_eq!(definitions[0].description.as_deref(), Some("d"));
    assert_eq!(to_serde(&definitions[0].parameters), serde(r#"{"type":"object"}"#));
    assert_eq!(definitions[0].strict, None);
    assert_eq!(to_serde(&definitions[1].parameters), serde(r#"{"type":"OBJECT"}"#));
    assert_eq!(definitions[2].name, "");
    assert_eq!(
        to_serde(&definitions[2].parameters),
        serde(r#"{"type":"object","properties":{}}"#)
    );
    assert_eq!(diagnostics.len(), 1);
    assert_eq!(
        diagnostics[0].message,
        "Gemini built-in tools have no normalized form; the tool was dropped"
    );
    assert!(matches!(
        decode_gemini_tools(Some(&tools), &mut diagnostics, &policy(LossyPolicy::Reject)),
        Err(TranslationError::Lossy { message })
            if message == "Gemini built-in tools have no normalized form; the tool was dropped"
    ));
}

#[test]
fn tools_that_are_no_array_are_none() {
    let mut diagnostics = Vec::new();
    let p = policy(LossyPolicy::Reject);
    assert!(decode_gemini_tools(None, &mut diagnostics, &p).unwrap().is_empty());
    assert!(decode_gemini_tools(Some(&value("{}")), &mut diagnostics, &p).unwrap().is_empty());
}

#[test]
fn tools_read_back() {
    let tool = |name: &str, description: Option<&str>, parameters: &str| ToolDefinition {
        name: name.to_string(),
        description: description.map(|d| d.to_string()),
        parameters: value(parameters),
        strict: Some(true),
    };
    let tools = vec![tool("f", Some("d"), r#"{"type":"object","additionalProperties":false}"#), tool("g", None, "null")];
    let written = encode_gemini_tools(&tools);
    assert_eq!(
        to_serde(&written),
        serde(
            r#"[{"functionDeclarations":[{"name":"f","description":"d",
                "parametersJsonSchema":{"type":"object","additionalProperties":false}},
                {"name":"g"}]}]"#
        )
    );
    let mut diagnostics = Vec::new();
    let read =
        decode_gemini_tools(Some(&written), &mut diagnostics, &policy(LossyPolicy::Reject)).unwrap();
    assert_eq!(read.len(), 2);
    assert_eq!(
        to_serde(&read[0].parameters),
        serde(r#"{"type":"object","additionalProperties":false}"#)
    );
    assert_eq!(to_serde(&read[1].parameters), serde(r#"{"type":"object","properties":{}}"#));
    assert_eq!(read[0].strict, None);
}

fn config(choice: &ToolChoice) -> Option<serde_json::Value> {
    let mut diagnostics = Vec::new();
    encode_gemini_tool_config(choice, &mut diagnostics, &policy(LossyPolicy::Reject))
        .unwrap()
        .map(|c| to_serde(&c))
}

#[test]
fn choices_read_back() {
    let choice = |text: &str| decode_gemini_tool_choice(&value(text));
    for (text, c) in [
        (r#"{"functionCallingConfig":{"mode":"AUTO"}}"#, ToolChoice::Auto),
        (r#"{"functionCallingConfig":{"mode":"ANY"}}"#, ToolChoice::Required),
        (r#"{"functionCallingConfig":{"mode":"NONE"}}"#, ToolChoice::Never),
        (
            r#"{"functionCallingConfig":{"mode":"ANY","allowedFunctionNames":["f"]}}"#,
            ToolChoice::Tool { name: "f".to_string() },
        ),
    ] {
        assert_eq!(config(&c), Some(serde(text)));
        assert_eq!(format!("{:?}", choice(text)), format!("{:?}", Some(c)));
    }
}

#[test]
fn choices_are_read() {
    let choice = |text: &str| decode_gemini_tool_choice(&value(text));
    assert!(choice("{}").is_none());
    assert!(matches!(choice(r#"{"functionCallingConfig":{}}"#), Some(ToolChoice::Auto)));
    assert!(matches!(choice(r#"{"functionCallingConfig":{"mode":1}}"#), Some(ToolChoice::Auto)));
    assert!(matches!(
        choice(r#"{"functionCallingConfig":{"mode":"ANY","allowedFunctionNames":[]}}"#),
        Some(ToolChoice::Required)
    ));
    for raw in [
        r#"{"functionCallingConfig":{"mode":"ANY","allowedFunctionNames":["f","g"]}}"#,
        r#"{"functionCallingConfig":{"mode":"ANY","allowedFunctionNames":[1]}}"#,
        r#"{"functionCallingConfig":{"mode":"VALIDATED"}}"#,
    ] {
        match choice(raw) {
            Some(ToolChoice::Raw(v)) => {
                assert_eq!(to_serde(&v), serde(raw));
                assert_eq!(config(&ToolChoice::Raw(v)), Some(serde(raw)));
            }
            other => panic!("{other:?}"),
        }
    }
}

#[test]
fn a_foreign_choice_is_reported() {
    let mut diagnostics = Vec::new();
    let foreign = ToolChoice::Raw(value(r#"{"type":"auto"}"#));
    let written =
        encode_gemini_tool_config(&foreign, &mut diagnostics, &policy(LossyPolicy::Report)).unwrap();
    assert!(written.is_none());
    assert_eq!(
        diagnostics[0].message,
        "tool choice has no Gemini functionCallingConfig equivalent; it was dropped"
    );
    assert!(
        encode_gemini_tool_config(&foreign, &mut diagnostics, &policy(LossyPolicy::Reject)).is_err()
    );
    assert_eq!(diagnostics.len(), 1);
}

fn format_of(text: &str) -> Option<serde_json::Value> {
    decode_gemini_response_format(&object(text)).map(|f| to_serde(&f))
}

#[test]
fn formats_are_read() {
    assert_eq!(
        format_of(r#"{"responseSchema":{"type":"OBJECT"}}"#),
        Some(serde(
            r#"{"type":"json_schema","json_schema":{"name":"response","schema":{"type":"object"}}}"#
        ))
    );
    assert_eq!(
        format_of(r#"{"responseSchema":{},"responseJsonSchema":{"type":"OBJECT"}}"#),
        Some(serde(
            r#"{"type":"json_schema","json_schema":{"name":"response","schema":{"type":"OBJECT"}}}"#
        ))
    );
    assert_eq!(
        format_of(r#"{"responseMimeType":"application/json"}"#),
        Some(serde(r#"{"type":"json_object"}"#))
    );
    assert_eq!(format_of(r#"{"responseMimeType":"text/plain"}"#), None);
    assert_eq!(format_of("{}"), None);
}

fn written_format(text: &str, lossy: LossyPolicy) -> Result<(serde_json::Value, usize), String> {
    let mut generation = object(r#"{"seed":1}"#);
    let mut diagnostics = Vec::new();
    match encode_gemini_response_format(
        &value(text),
        &mut generation,
        &mut diagnostics,
        &policy(lossy),
    ) {
        Ok(()) => Ok((to_serde(&JsonValue::Object(generation)), diagnostics.len())),
        Err(TranslationError::Lossy { message }) => Err(message),
        Err(other) => panic!("{other:?}"),
    }
}

#[test]
fn formats_are_written() {
    assert_eq!(
        written_format(
            r#"{"type":"json_schema","json_schema":{"schema":{"type":"object"}}}"#,
            LossyPolicy::Reject
        ),
        Ok((
            serde(
                r#"{"seed":1,"responseMimeType":"application/json","responseJsonSchema":{"type":"object"}}"#
            ),
            0
        ))
    );
    assert_eq!(
        written_format(r#"{"type":"json_object"}"#, LossyPolicy::Reject),
        Ok((serde(r#"{"seed":1,"responseMimeType":"application/json"}"#), 0))
    );
    assert_eq!(
        written_format(r#"{"type":"text"}"#, LossyPolicy::Reject),
        Ok((serde(r#"{"seed":1}"#), 0))
    );
    assert_eq!(
        written_format(r#"{"type":"json_schema"}"#, LossyPolicy::Reject),
        Err("json_schema response format has no schema; the requested format was dropped"
            .to_string())
    );
    assert_eq!(
        written_format(r#"{"type":"grammar"}"#, LossyPolicy::Reject),
        Err("response format has no Gemini equivalent; the requested format was dropped"
            .to_string())
    );
    assert_eq!(
        written_format(r#"{"type":"grammar"}"#, LossyPolicy::Report),
        Ok((serde(r#"{"seed":1}"#), 1))
    );
}
