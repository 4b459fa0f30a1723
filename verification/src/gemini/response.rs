//! Reads and writes the body of a `generateContent` response.
use vstd::prelude::*;

use crate::codecs::{DecodedResponse, EncodedResponse};
use crate::common::{key_texts, provider_extensions, without};
use crate::error::{messages_of, ErrorView, TranslationDiagnostic, TranslationError};
use crate::gemini::decode::{decode_gemini_parts, parts_blocks, responses_kept};
use crate::gemini::encode::{content_notes, content_parts, encode_gemini_parts, CallNames};
use crate::gemini::ids::{no_calls, GeminiToolIds};
use crate::gemini::media::{insert_text, with_text};
use crate::gemini::reason::{
    finish_reason_of, gemini_finish_reason, gemini_stop_reason, stop_reason_of,
};
use crate::gemini::usage::{
    counted_tokens, counts_fit, decode_gemini_usage, encode_gemini_usage, usage_json, usage_of,
};
use crate::gemini::GEMINI_FORMAT;
use crate::json::{
    array_in, field, int_json, json_array, json_field, json_items, json_object, json_of_str,
    json_of_u64, json_str, json_text, object_in, opt_obj, string_in, Json, JsonObject, JsonValue,
    Obj,
};
use crate::llm::{
    blocks, first_output_of, lemma_blocks_pushed, AggLlmResponse, BlockView, ContentBlock,
    ProviderExtensions, ResponseOutput, ResponseOutputView, ResponseView, Role, StopReason,
};
use crate::policy::TranslationPolicy;
use crate::text::opt_borrow;
use crate::util::{
    capture_response_preservation, captured, embed_preservation, embedded, exact_preserved_response,
    lemma_reported_nothing, object, object_or_error, replayed, reported,
};

verus! {

/// The response fields that the model has a place for.
pub open spec fn mapped_response() -> Seq<Seq<char>> {
    seq!["candidates"@, "usageMetadata"@, "responseId"@, "modelVersion"@]
}

/// The first candidate of a response, where it is an object.
pub open spec fn candidate_of(body: Obj) -> Option<Obj> {
    match array_in(body.get("candidates"@)) {
        Some(candidates) => if candidates.len() > 0 {
            object_in(Some(candidates[0]))
        } else {
            None
        },
        None => None,
    }
}

/// The parts of a candidate.
pub open spec fn candidate_parts(candidate: Option<Obj>) -> Option<Json> {
    match candidate {
        Some(c) => match c.get("content"@) {
            Some(content) => field(content, "parts"@),
            None => None,
        },
        None => None,
    }
}

/// Whether content holds a call.
pub open spec fn has_call(content: Seq<BlockView>) -> bool {
    exists|i: int| 0 <= i < content.len() && (#[trigger] content[i]) is ToolCall
}

/// Whether a prompt was blocked before generation, which returns no candidates, only a block
/// reason.
pub open spec fn blocked(body: Obj) -> bool {
    match body.get("promptFeedback"@) {
        Some(feedback) => field(feedback, "blockReason"@) is Some,
        None => false,
    }
}

/// Why the model stopped.
pub open spec fn response_stop(body: Obj, content: Seq<BlockView>) -> StopReason {
    match candidate_of(body) {
        Some(c) => stop_reason_of(string_in(c.get("finishReason"@)), has_call(content)),
        None => if blocked(body) {
            StopReason::ContentFilter
        } else {
            StopReason::EndTurn
        },
    }
}

/// Content that is never empty: an empty text stands for none.
pub open spec fn or_empty_text(content: Seq<BlockView>) -> Seq<BlockView> {
    if content.len() == 0 {
        seq![BlockView::Text { text: Seq::empty() }]
    } else {
        content
    }
}

/// The response that a body with this content says.
pub open spec fn response_view(
    body: Obj,
    content: Seq<BlockView>,
    policy: TranslationPolicy,
) -> ResponseView {
    ResponseView {
        id: string_in(body.get("responseId"@)),
        model: string_in(body.get("modelVersion"@)),
        outputs: seq![
            ResponseOutputView {
                role: Role::Assistant,
                content: or_empty_text(content),
                url_citations: Seq::empty(),
                stop_reason: Some(response_stop(body, content)),
            },
        ],
        usage: usage_of(body.get("usageMetadata"@)),
        extensions: without(body, mapped_response()),
        preservation: captured(GEMINI_FORMAT@, Json::Object(body), policy),
    }
}

/// The response that a body says.
pub open spec fn decoded_response(body: Json, policy: TranslationPolicy) -> Result<
    ResponseView,
    ErrorView,
> {
    match object_or_error(body, "$"@) {
        Err(e) => Err(e),
        Ok(fields) => match parts_blocks(
            candidate_parts(candidate_of(fields)),
            "$.candidates[0].content.parts"@,
            no_calls(),
            policy,
        ) {
            Err(e) => Err(e),
            Ok(content) => Ok(response_view(fields, content, policy)),
        },
    }
}

/// Whether all function responses in a body are kept in the response that was read from it.
pub open spec fn response_content_kept(body: Json, response: ResponseView) -> bool {
    body matches Json::Object(fields) ==> responses_kept(
        candidate_parts(candidate_of(fields)),
        response_content(response),
    )
}

fn find_candidate<'a>(body: &'a JsonObject) -> (candidate: Option<&'a JsonObject>)
    ensures
        opt_obj(candidate) == candidate_of(body@),
{
    match json_array(body.get("candidates")) {
        Some(candidates) => if candidates.len() > 0 {
            assert(json_items(candidates@)[0] == candidates@[0]@);
            json_object(Some(&candidates[0]))
        } else {
            None
        },
        None => None,
    }
}

fn find_call(content: &Vec<ContentBlock>) -> (found: bool)
    ensures
        found == has_call(blocks(content@)),
{
    let mut i: usize = 0;
    while i < content.len()
        invariant
            i <= content@.len(),
            forall|j: int| 0 <= j < i ==> !((#[trigger] blocks(content@)[j]) is ToolCall),
        decreases content@.len() - i,
    {
        assert(blocks(content@)[i as int] == content@[i as int]@);
        match &content[i] {
            ContentBlock::ToolCall(_) => return true,
            _ => {},
        }
        i += 1;
    }
    false
}

fn find_block_reason(body: &JsonObject) -> (found: bool)
    ensures
        found == blocked(body@),
{
    match body.get("promptFeedback") {
        Some(feedback) => json_field(feedback, "blockReason").is_some(),
        None => false,
    }
}

/// Reads the body of a response.
pub fn read_response(body: &JsonValue, policy: &TranslationPolicy) -> (r: Result<
    DecodedResponse,
    TranslationError,
>)
    ensures
        match r {
            Ok(d) => decoded_response(body@, *policy) == Ok::<ResponseView, ErrorView>(d.response@)
                && d.diagnostics@.len() == 0,
            Err(e) => decoded_response(body@, *policy) == Err::<ResponseView, ErrorView>(e@),
        },
        r matches Ok(d) ==> response_content_kept(body@, d.response@),
{
    let fields = object(body, "$")?;
    let candidate = find_candidate(fields);
    let parts = match candidate {
        Some(c) => match c.get("content") {
            Some(content) => json_field(content, "parts"),
            None => None,
        },
        None => None,
    };
    let mut ids = GeminiToolIds::default();
    let mut content = decode_gemini_parts(
        parts,
        "$.candidates[0].content.parts",
        &mut ids,
        policy,
    )?;
    let ghost said = blocks(content@);
    let stop_reason = match candidate {
        Some(c) => gemini_stop_reason(json_str(c.get("finishReason")), find_call(&content)),
        // A prompt blocked before generation returns no candidates, only a block reason.
        None => if find_block_reason(fields) {
            StopReason::ContentFilter
        } else {
            StopReason::EndTurn
        },
    };
    assert(stop_reason == response_stop(fields@, said));
    assert(said.len() == content@.len());
    if content.len() == 0 {
        let b = ContentBlock::Text { text: String::new() };
        proof {
            lemma_blocks_pushed(content@, b);
            assert(b@ == BlockView::Text { text: Seq::empty() });
        }
        content.push(b);
        assert(blocks(content@) =~= or_empty_text(said));
    }
    let known: [&str; 4] = ["candidates", "usageMetadata", "responseId", "modelVersion"];
    assert(key_texts(known@) =~= mapped_response());
    let url_citations: Vec<JsonValue> = Vec::new();
    assert(json_items(url_citations@) =~= Seq::<Json>::empty());
    let output = ResponseOutput {
        role: Role::Assistant,
        content,
        url_citations,
        stop_reason: Some(stop_reason),
    };
    let mut outputs: Vec<ResponseOutput> = Vec::new();
    outputs.push(output);
    let response = AggLlmResponse {
        id: json_text(fields.get("responseId")),
        model: json_text(fields.get("modelVersion")),
        outputs,
        usage: decode_gemini_usage(fields.get("usageMetadata")),
        extensions: ProviderExtensions { fields: provider_extensions(fields, known.as_slice()) },
        preservation: capture_response_preservation(
            GEMINI_FORMAT,
            &JsonValue::Object(fields.clone()),
            policy,
        ),
    };
    assert(response@.outputs =~= response_view(fields@, said, *policy).outputs);
    Ok(DecodedResponse { response, diagnostics: Vec::new() })
}

/// The content of the first output of a response; none where there is no output.
pub open spec fn response_content(response: ResponseView) -> Seq<BlockView> {
    match first_output_of(response) {
        Some(output) => output.content,
        None => Seq::empty(),
    }
}

/// Why the first output of a response stopped.
pub open spec fn output_stop(response: ResponseView) -> Option<StopReason> {
    match first_output_of(response) {
        Some(output) => output.stop_reason,
        None => None,
    }
}

/// The candidate that a response is written as.
pub open spec fn candidate_json(response: ResponseView, policy: TranslationPolicy) -> Json {
    let parts = content_parts(response_content(response), Map::empty(), policy);
    Json::Object(
        map![
            "content"@ => Json::Object(
                map!["role"@ => Json::String("model"@), "parts"@ => Json::Array(parts)],
            ),
            "finishReason"@ => Json::String(finish_reason_of(output_stop(response))),
            "index"@ => int_json(0)
        ],
    )
}

/// The body of a response.
pub open spec fn response_body(response: ResponseView, policy: TranslationPolicy) -> Obj {
    let body = map![
        "candidates"@ => Json::Array(seq![candidate_json(response, policy)]),
        "usageMetadata"@ => usage_json(response.usage)
    ];
    with_text(with_text(body, "responseId"@, response.id), "modelVersion"@, response.model)
}

/// The body that a response is written as, and what is reported of it.
pub open spec fn encoded_response(response: ResponseView, policy: TranslationPolicy) -> Result<
    (Json, Seq<Seq<char>>),
    ErrorView,
> {
    match replayed(response.preservation, GEMINI_FORMAT@, policy) {
        Some(body) => Ok((body, Seq::empty())),
        None => match reported(
            Seq::empty(),
            policy,
            content_notes(response_content(response)),
        ) {
            Err(e) => Err(e),
            Ok(diagnostics) => Ok(
                (
                    Json::Object(
                        embedded(response_body(response, policy), response.preservation, policy),
                    ),
                    diagnostics,
                ),
            ),
        },
    }
}

/// Whether the token counts of a response can be written: they are not needed, because a kept
/// body is sent again or the content is refused, or they add up to a number that fits.
pub open spec fn countable(response: ResponseView, policy: TranslationPolicy) -> bool {
    ||| replayed(response.preservation, GEMINI_FORMAT@, policy) is Some
    ||| reported(Seq::empty(), policy, content_notes(response_content(response))) is Err
    ||| counted_tokens(response.usage) <= u64::MAX
}

/// Tests whether the token counts of a response can be written.
pub fn is_countable(response: &AggLlmResponse, policy: &TranslationPolicy) -> (can: bool)
    ensures
        can == countable(response@, *policy),
{
    if counts_fit(&response.usage) {
        return true;
    }
    if exact_preserved_response(&response.preservation, GEMINI_FORMAT, policy).is_some() {
        return true;
    }
    let mut diagnostics: Vec<TranslationDiagnostic> = Vec::new();
    proof {
        assert(messages_of(diagnostics@) =~= Seq::<Seq<char>>::empty());
        assert(content_notes(Seq::empty()) =~= Seq::<Seq<char>>::empty());
        lemma_reported_nothing(messages_of(diagnostics@), *policy, Seq::empty());
    }
    match response.first_output() {
        Some(output) => {
            let names = CallNames::new();
            encode_gemini_parts(&output.content, &names, &mut diagnostics, policy).is_err()
        },
        None => false,
    }
}

fn encode_candidate(parts: Vec<JsonValue>, stop_reason: Option<StopReason>) -> (candidate:
    JsonValue)
    ensures
        candidate@ == Json::Object(
            map![
                "content"@ => Json::Object(
                    map![
                        "role"@ => Json::String("model"@),
                        "parts"@ => Json::Array(json_items(parts@))
                    ],
                ),
                "finishReason"@ => Json::String(finish_reason_of(stop_reason)),
                "index"@ => int_json(0)
            ],
        ),
{
    let content = JsonObject::new().with("role", json_of_str("model")).with(
        "parts",
        JsonValue::Array(parts),
    );
    JsonValue::Object(
        JsonObject::new().with("content", JsonValue::Object(content)).with(
            "finishReason",
            json_of_str(gemini_finish_reason(stop_reason)),
        ).with("index", json_of_u64(0)),
    )
}

/// Writes the body of a response.
pub fn write_response(response: &AggLlmResponse, policy: &TranslationPolicy) -> (r: Result<
    EncodedResponse,
    TranslationError,
>)
    requires
        countable(response@, *policy),
    ensures
        match r {
            Ok(d) => encoded_response(response@, *policy) == Ok::<
                (Json, Seq<Seq<char>>),
                ErrorView,
            >((d.body@, messages_of(d.diagnostics@))),
            Err(e) => encoded_response(response@, *policy) == Err::<
                (Json, Seq<Seq<char>>),
                ErrorView,
            >(e@),
        },
{
    let mut diagnostics: Vec<TranslationDiagnostic> = Vec::new();
    assert(messages_of(diagnostics@) =~= Seq::<Seq<char>>::empty());
    match exact_preserved_response(&response.preservation, GEMINI_FORMAT, policy) {
        Some(body) => return Ok(EncodedResponse { body, diagnostics }),
        None => {},
    }
    let mut parts: Vec<JsonValue> = Vec::new();
    let mut stop_reason: Option<StopReason> = None;
    proof {
        assert(content_notes(Seq::empty()) =~= Seq::<Seq<char>>::empty());
        assert(content_parts(Seq::empty(), Map::empty(), *policy) =~= Seq::<Json>::empty());
        assert(json_items(parts@) =~= Seq::<Json>::empty());
        lemma_reported_nothing(messages_of(diagnostics@), *policy, Seq::empty());
    }
    match response.first_output() {
        Some(output) => {
            let names = CallNames::new();
            parts = encode_gemini_parts(&output.content, &names, &mut diagnostics, policy)?;
            stop_reason = output.stop_reason;
        },
        None => {},
    }
    let candidate = encode_candidate(parts, stop_reason);
    let mut candidates: Vec<JsonValue> = Vec::new();
    candidates.push(candidate);
    assert(json_items(candidates@) =~= seq![candidate_json(response@, *policy)]);
    let mut body = JsonObject::new().with("candidates", JsonValue::Array(candidates)).with(
        "usageMetadata",
        encode_gemini_usage(&response.usage),
    );
    insert_text(&mut body, "responseId", opt_borrow(&response.id));
    insert_text(&mut body, "modelVersion", opt_borrow(&response.model));
    let body = embed_preservation(body, &response.preservation, policy);
    Ok(EncodedResponse { body, diagnostics })
}

} // verus!
