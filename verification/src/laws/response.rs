//! Laws on responses.
use vstd::prelude::*;

use crate::error::ErrorView;
use crate::gemini::decode::{items_blocks, parts_blocks};
use crate::gemini::encode::{content_notes, content_parts};
use crate::gemini::ids::no_calls;
use crate::gemini::reason::{finish_reason_of, stop_reason_of};
use crate::gemini::response::{
    blocked, candidate_json, candidate_of, candidate_parts, countable, decoded_response,
    encoded_response, has_call, mapped_response, response_body, response_content,
};
use crate::gemini::usage::{
    counted_tokens, or_zero, prompt_tokens, usage_fields, usage_json, usage_of,
};
use crate::gemini::GEMINI_FORMAT;
use crate::json::{string_in, u64_in, Json, Num, Obj};
use crate::laws::fields::{count_at, has_object, integer_at, items_at, known, plus, text_at};
use crate::laws::keys::{lemma_candidate_keys, lemma_reasons, lemma_response_keys, lemma_usage_keys};
use crate::laws::parts::{all_readable, lemma_parts_read_back};
use crate::llm::{BlockView, CacheDetails, ResponseView, Role, StopReason, Usage};
use crate::policy::TranslationPolicy;
use crate::util::replayed;

verus! {

/// The explicit reason is read before any call in the candidate: where a model did not come to
/// an ordinary end, a call does not matter and is not reported as a clean stop.
pub proof fn law_explicit_reason_comes_first(reason: Seq<char>, has_tool_call: bool)
    requires
        reason != "STOP"@,
    ensures
        stop_reason_of(Some(reason), has_tool_call) == stop_reason_of(Some(reason), false),
        stop_reason_of(Some(reason), has_tool_call) != StopReason::ToolUse,
        stop_reason_of(Some(reason), has_tool_call) != StopReason::EndTurn,
{
}

/// A stop reason is read back from the finish reason that it is written as, but for an error,
/// for which Gemini has no reason of its own.
pub proof fn law_stop_reason_reads_back(reason: StopReason)
    ensures
        stop_reason_of(Some(finish_reason_of(Some(reason))), reason == StopReason::ToolUse) == (
        if reason == StopReason::Error {
            StopReason::Unknown
        } else {
            reason
        }),
{
    lemma_reasons();
}

/// What a finish reason is read as. No reason counts as an ordinary end, which a call makes a
/// tool use; what Gemini filters is filtered; and a reason that is not known is unknown.
pub proof fn law_finish_reasons_are_read(reason: Seq<char>, has_tool_call: bool)
    ensures
        stop_reason_of(None, true) == StopReason::ToolUse,
        stop_reason_of(None, false) == StopReason::EndTurn,
        stop_reason_of(Some("STOP"@), true) == StopReason::ToolUse,
        stop_reason_of(Some("STOP"@), false) == StopReason::EndTurn,
        stop_reason_of(Some("MAX_TOKENS"@), has_tool_call) == StopReason::MaxTokens,
        stop_reason_of(Some("SAFETY"@), has_tool_call) == StopReason::ContentFilter,
        stop_reason_of(Some("RECITATION"@), has_tool_call) == StopReason::ContentFilter,
        stop_reason_of(Some("BLOCKLIST"@), has_tool_call) == StopReason::ContentFilter,
        stop_reason_of(Some("PROHIBITED_CONTENT"@), has_tool_call) == StopReason::ContentFilter,
        stop_reason_of(Some("SPII"@), has_tool_call) == StopReason::ContentFilter,
        stop_reason_of(Some("IMAGE_SAFETY"@), has_tool_call) == StopReason::ContentFilter,
        stop_reason_of(Some("IMAGE_PROHIBITED_CONTENT"@), has_tool_call)
            == StopReason::ContentFilter,
        stop_reason_of(Some("IMAGE_RECITATION"@), has_tool_call) == StopReason::ContentFilter,
        reason != "STOP"@ && reason != "MAX_TOKENS"@ && reason != "SAFETY"@ && reason
            != "RECITATION"@ && reason != "BLOCKLIST"@ && reason != "PROHIBITED_CONTENT"@ && reason
            != "SPII"@ && reason != "IMAGE_SAFETY"@ && reason != "IMAGE_PROHIBITED_CONTENT"@
            && reason != "IMAGE_RECITATION"@ ==> stop_reason_of(Some(reason), has_tool_call)
            == StopReason::Unknown,
{
    lemma_reasons();
    reveal_strlit("STOP");
    reveal_strlit("SPII");
    reveal_strlit("MAX_TOKENS");
    reveal_strlit("RECITATION");
    assert("SPII"@[1] != "STOP"@[1]);
    assert("MAX_TOKENS"@[0] != "RECITATION"@[0]);
}

/// What a stop reason is written as. What Gemini has no word for is `OTHER`, and no reason is an
/// ordinary end.
pub proof fn law_stop_reasons_are_written()
    ensures
        finish_reason_of(None) == "STOP"@,
        finish_reason_of(Some(StopReason::EndTurn)) == "STOP"@,
        finish_reason_of(Some(StopReason::ToolUse)) == "STOP"@,
        finish_reason_of(Some(StopReason::MaxTokens)) == "MAX_TOKENS"@,
        finish_reason_of(Some(StopReason::ContentFilter)) == "SAFETY"@,
        finish_reason_of(Some(StopReason::Error)) == "OTHER"@,
        finish_reason_of(Some(StopReason::Unknown)) == "OTHER"@,
{
}

/// Token counts that are read: each is the count under its key, but for the input, which is the
/// prompt less what a cache served, and zero where a cache served more. Where there is no object
/// nothing is known.
pub proof fn law_usage_is_read(o: Obj, other: Option<Json>)
    requires
        other matches Some(v) ==> !(v is Object),
    ensures
        usage_of(Some(Json::Object(o))).cache.cached == count_at(o, "cachedContentTokenCount"@),
        usage_of(Some(Json::Object(o))).cache.creation is None,
        usage_of(Some(Json::Object(o))).output_tokens == count_at(o, "candidatesTokenCount"@),
        usage_of(Some(Json::Object(o))).total_tokens == count_at(o, "totalTokenCount"@),
        usage_of(Some(Json::Object(o))).reasoning_tokens == count_at(o, "thoughtsTokenCount"@),
        count_at(o, "promptTokenCount"@) is None <==> usage_of(
            Some(Json::Object(o)),
        ).input_tokens is None,
        known(count_at(o, "cachedContentTokenCount"@)) <= known(count_at(o, "promptTokenCount"@))
            && count_at(o, "promptTokenCount"@) is Some ==> known(
            usage_of(Some(Json::Object(o))).input_tokens,
        ) + known(count_at(o, "cachedContentTokenCount"@)) == known(
            count_at(o, "promptTokenCount"@),
        ),
        known(count_at(o, "cachedContentTokenCount"@)) > known(count_at(o, "promptTokenCount"@))
            ==> known(usage_of(Some(Json::Object(o))).input_tokens) == 0,
        usage_of(other).input_tokens is None,
        usage_of(other).output_tokens is None,
        usage_of(other).total_tokens is None,
        usage_of(other).reasoning_tokens is None,
        usage_of(other).cache.cached is None,
        usage_of(other).cache.creation is None,
{
}

/// Token counts that are written. The prompt is the input with what a cache served and took up.
/// A total that is not known is the sum of the other numbers that are written: the prompt, the
/// candidates and the thoughts. Counts that are not known are zero or, for the cache and the
/// thoughts, left out.
pub proof fn law_usage_is_written(usage: Usage)
    ensures
        usage_json(usage) is Object,
        integer_at(usage_json(usage)->Object_0, "promptTokenCount"@) == Some(
            known(usage.input_tokens) + known(usage.cache.cached) + known(usage.cache.creation),
        ),
        integer_at(usage_json(usage)->Object_0, "candidatesTokenCount"@) == Some(
            known(usage.output_tokens),
        ),
        usage.cache.cached matches Some(n) ==> integer_at(
            usage_json(usage)->Object_0,
            "cachedContentTokenCount"@,
        ) == Some(n as int),
        usage.cache.cached is None ==> !usage_json(usage)->Object_0.contains_key(
            "cachedContentTokenCount"@,
        ),
        usage.reasoning_tokens matches Some(n) ==> integer_at(
            usage_json(usage)->Object_0,
            "thoughtsTokenCount"@,
        ) == Some(n as int),
        usage.reasoning_tokens is None ==> !usage_json(usage)->Object_0.contains_key(
            "thoughtsTokenCount"@,
        ),
        usage.total_tokens matches Some(n) ==> integer_at(
            usage_json(usage)->Object_0,
            "totalTokenCount"@,
        ) == Some(n as int),
        usage.total_tokens is None ==> integer_at(
            usage_json(usage)->Object_0,
            "totalTokenCount"@,
        ) == Some(written_sum(usage_json(usage)->Object_0)),
        forall|key: Seq<char>| #[trigger]
            usage_json(usage)->Object_0.contains_key(key) ==> is_count_key(key),
{
    lemma_usage_keys();
}

/// The prompt, the candidates and the thoughts that an object says, added up.
pub open spec fn written_sum(o: Obj) -> int {
    let prompt = integer_at(o, "promptTokenCount"@);
    let candidates = integer_at(o, "candidatesTokenCount"@);
    let thoughts = integer_at(o, "thoughtsTokenCount"@);
    prompt->Some_0 + candidates->Some_0 + (if thoughts is Some {
        thoughts->Some_0
    } else {
        0
    })
}

/// Whether `key` is that of a token count.
pub open spec fn is_count_key(key: Seq<char>) -> bool {
    ||| key == "promptTokenCount"@
    ||| key == "candidatesTokenCount"@
    ||| key == "totalTokenCount"@
    ||| key == "cachedContentTokenCount"@
    ||| key == "thoughtsTokenCount"@
}

/// Token counts that add up to a number that fits can be written, and so can those of a
/// response whose content is refused.
pub proof fn law_counts_that_fit_can_be_written(response: ResponseView, policy: TranslationPolicy)
    ensures
        known(response.usage.input_tokens) + known(response.usage.cache.cached) + known(
            response.usage.cache.creation,
        ) + known(response.usage.output_tokens) + known(response.usage.reasoning_tokens)
            <= u64::MAX ==> countable(response, policy),
        encoded_response(response, policy) is Err ==> countable(response, policy),
{
}

/// Input tokens and cached tokens make up the prompt, as `promptTokenCount` includes what the
/// input count leaves out.
pub proof fn law_prompt_is_input_and_cached(o: Obj, prompt: u64)
    requires
        u64_in(o.get("promptTokenCount"@)) == Some(prompt),
        or_zero(u64_in(o.get("cachedContentTokenCount"@))) <= prompt,
    ensures
        prompt_tokens(usage_fields(o)) == prompt,
{
}

/// Token counts are read back as they were written. An unknown count is read as zero, an
/// unknown total as the sum, and what a cache took up counts as input.
pub proof fn law_usage_reads_back(usage: Usage)
    requires
        counted_tokens(usage) <= u64::MAX,
    ensures
        usage_of(Some(usage_json(usage))) == (Usage {
            input_tokens: Some(
                (or_zero(usage.input_tokens) + or_zero(usage.cache.creation)) as u64,
            ),
            cache: CacheDetails { cached: usage.cache.cached, creation: None },
            output_tokens: Some(or_zero(usage.output_tokens) as u64),
            total_tokens: Some(
                match usage.total_tokens {
                    Some(n) => n,
                    None => counted_tokens(usage) as u64,
                },
            ),
            reasoning_tokens: usage.reasoning_tokens,
        }),
{
    lemma_usage_keys();
}

/// Whether the token count under `key` is written as it is read: it is there, or it is one
/// that may be absent, and cached tokens are among those of the prompt.
pub open spec fn count_kept(o: Obj, key: Seq<char>) -> bool {
    let count = u64_in(o.get(key));
    let cached = u64_in(o.get("cachedContentTokenCount"@));
    ||| key == "promptTokenCount"@ && count is Some && or_zero(cached) <= or_zero(count)
    ||| key == "candidatesTokenCount"@ && count is Some
    ||| key == "totalTokenCount"@ && count is Some
    ||| key == "cachedContentTokenCount"@
    ||| key == "thoughtsTokenCount"@
}

/// A token count comes out of a hop as it went in.
pub proof fn law_usage_survives(o: Obj, key: Seq<char>)
    requires
        count_kept(o, key),
    ensures
        usage_json(usage_of(Some(Json::Object(o)))) matches Json::Object(written) && u64_in(
            written.get(key),
        ) == u64_in(o.get(key)),
{
    lemma_usage_keys();
}

/// A response that is read has one output, from the model, which is never empty and has a
/// reason why it stopped.
pub proof fn law_response_has_one_output(
    body: Json,
    response: ResponseView,
    policy: TranslationPolicy,
)
    requires
        decoded_response(body, policy) == Ok::<ResponseView, ErrorView>(response),
    ensures
        response.outputs.len() == 1,
        response.outputs[0].role == Role::Assistant,
        response.outputs[0].content.len() > 0,
        response.outputs[0].stop_reason is Some,
{
}

/// A prompt that was blocked before generation gives an empty text and says that it was
/// filtered.
pub proof fn law_blocked_prompt_is_filtered(
    body: Obj,
    policy: TranslationPolicy,
)
    requires
        candidate_of(body) is None,
        blocked(body),
    ensures
        decoded_response(Json::Object(body), policy) matches Ok(response)
            && response.outputs[0].stop_reason == Some(StopReason::ContentFilter)
            && response.outputs[0].content == seq![BlockView::Text { text: Seq::empty() }],
{
}

/// Why a response stopped, by any block of it that is a call: where the candidate gives no
/// reason or an ordinary one, a call at any place makes it a tool use, and without one it is the
/// end of a turn.
pub proof fn law_any_call_is_a_tool_use(
    body: Obj,
    response: ResponseView,
    policy: TranslationPolicy,
    i: int,
)
    requires
        decoded_response(Json::Object(body), policy) == Ok::<ResponseView, ErrorView>(response),
        items_at(body, "candidates"@).len() > 0,
        items_at(body, "candidates"@)[0] is Object,
        text_at(items_at(body, "candidates"@)[0]->Object_0, "finishReason"@) is None || text_at(
            items_at(body, "candidates"@)[0]->Object_0,
            "finishReason"@,
        ) == Some("STOP"@),
    ensures
        0 <= i < response.outputs[0].content.len() && response.outputs[0].content[i] is ToolCall
            ==> response.outputs[0].stop_reason == Some(StopReason::ToolUse),
        (forall|j: int|
            0 <= j < response.outputs[0].content.len() ==> !((
            #[trigger] response.outputs[0].content[j]) is ToolCall))
            ==> response.outputs[0].stop_reason == Some(StopReason::EndTurn),
{
    let candidate = items_at(body, "candidates"@)[0]->Object_0;
    assert(candidate_of(body) == Some(candidate));
    let parts = candidate_parts(candidate_of(body));
    let said = parts_blocks(parts, "$.candidates[0].content.parts"@, no_calls(), policy)->Ok_0;
    if said.len() > 0 {
        assert(response.outputs[0].content == said);
    } else {
        assert(response.outputs[0].content[0] is Text);
    }
    lemma_reasons();
}

/// Where the candidate gives a reason other than an ordinary end, that reason decides, whatever
/// the content is.
pub proof fn law_given_reason_decides(
    body: Obj,
    response: ResponseView,
    policy: TranslationPolicy,
    reason: Seq<char>,
)
    requires
        decoded_response(Json::Object(body), policy) == Ok::<ResponseView, ErrorView>(response),
        items_at(body, "candidates"@).len() > 0,
        items_at(body, "candidates"@)[0] is Object,
        text_at(items_at(body, "candidates"@)[0]->Object_0, "finishReason"@) == Some(reason),
        reason != "STOP"@,
    ensures
        response.outputs[0].stop_reason == Some(stop_reason_of(Some(reason), false)),
{
    let candidate = items_at(body, "candidates"@)[0]->Object_0;
    assert(candidate_of(body) == Some(candidate));
}

/// A response without a candidate is filtered where it gives a block reason, of whatever kind,
/// and an ordinary end where not. Its content is an empty text.
pub proof fn law_no_candidate_is_read(body: Obj, policy: TranslationPolicy)
    requires
        items_at(body, "candidates"@).len() == 0 || !(items_at(body, "candidates"@)[0] is Object),
    ensures
        decoded_response(Json::Object(body), policy) matches Ok(response)
            && response.outputs[0].content == seq![BlockView::Text { text: Seq::empty() }]
            && response.outputs[0].stop_reason == Some(
            if has_object(body, "promptFeedback"@)
                && body["promptFeedback"@]->Object_0.contains_key("blockReason"@) {
                StopReason::ContentFilter
            } else {
                StopReason::EndTurn
            },
        ),
{
    assert(candidate_of(body) is None);
}

/// The content of a response is that of its first candidate, block for part. Only parts that are
/// there and no array are an error.
pub proof fn law_response_content_is_read(body: Obj, candidate: Obj, policy: TranslationPolicy)
    requires
        items_at(body, "candidates"@).len() > 0,
        items_at(body, "candidates"@)[0] == Json::Object(candidate),
    ensures
        has_object(candidate, "content"@) && candidate["content"@]->Object_0.contains_key(
            "parts"@,
        ) && !(candidate["content"@]->Object_0["parts"@] is Array) ==> decoded_response(
            Json::Object(body),
            policy,
        ) == Err::<ResponseView, ErrorView>(
            ErrorView::InvalidType {
                path: "$.candidates[0].content.parts"@,
                expected: "array"@,
            },
        ),
        has_object(candidate, "content"@) && items_at(
            candidate["content"@]->Object_0,
            "parts"@,
        ).len() > 0 ==> (decoded_response(Json::Object(body), policy) matches Ok(response)
            && response.outputs[0].content == items_blocks(
            items_at(candidate["content"@]->Object_0, "parts"@),
            no_calls(),
            policy,
        )),
        !has_object(candidate, "content"@) || !candidate["content"@]->Object_0.contains_key(
            "parts"@,
        ) || (candidate["content"@]->Object_0["parts"@] is Array && items_at(
            candidate["content"@]->Object_0,
            "parts"@,
        ).len() == 0) ==> (decoded_response(Json::Object(body), policy) matches Ok(response)
            && response.outputs[0].content == seq![BlockView::Text { text: Seq::empty() }]),
{
    assert(candidate_of(body) == Some(candidate));
}

/// What else a response says: its id and model, its token counts, one output from the model, and
/// in its extensions every other field as it is. A body that is no object is an error.
pub proof fn law_response_fields_are_read(
    body: Obj,
    response: ResponseView,
    policy: TranslationPolicy,
    key: Seq<char>,
    other: Json,
)
    requires
        decoded_response(Json::Object(body), policy) == Ok::<ResponseView, ErrorView>(response),
        !(other is Object),
    ensures
        response.id == text_at(body, "responseId"@),
        response.model == text_at(body, "modelVersion"@),
        response.usage == usage_of(
            if body.contains_key("usageMetadata"@) {
                Some(body["usageMetadata"@])
            } else {
                None
            },
        ),
        response.outputs.len() == 1,
        response.outputs[0].role == Role::Assistant,
        response.outputs[0].url_citations.len() == 0,
        key == "candidates"@ || key == "usageMetadata"@ || key == "responseId"@ || key
            == "modelVersion"@ ==> !response.extensions.contains_key(key),
        key != "candidates"@ && key != "usageMetadata"@ && key != "responseId"@ && key
            != "modelVersion"@ ==> response.extensions.contains_key(key) == body.contains_key(key)
            && (body.contains_key(key) ==> response.extensions[key] == body[key]),
        decoded_response(other, policy) == Err::<ResponseView, ErrorView>(
            ErrorView::InvalidType { path: "$"@, expected: "object"@ },
        ),
{
    let mapped = mapped_response();
    assert(mapped[0] == "candidates"@);
    assert(mapped[1] == "usageMetadata"@);
    assert(mapped[2] == "responseId"@);
    assert(mapped[3] == "modelVersion"@);
    assert(mapped.to_set().contains(key) == mapped.contains(key));
}

/// The body of a response: one candidate with the parts of the first output and the reason why
/// it stopped, the token counts, and the id and model where they are known. Nothing else.
pub proof fn law_response_is_written(response: ResponseView, policy: TranslationPolicy)
    ensures
        response_body(response, policy) == plus(
            plus(
                Map::empty().insert(
                    "candidates"@,
                    Json::Array(
                        seq![
                            Json::Object(
                                Map::empty().insert(
                                    "content"@,
                                    Json::Object(
                                        Map::empty().insert("role"@, Json::String("model"@)).insert(
                                            "parts"@,
                                            Json::Array(
                                                if response.outputs.len() > 0 {
                                                    content_parts(
                                                        response.outputs[0].content,
                                                        Map::empty(),
                                                        policy,
                                                    )
                                                } else {
                                                    Seq::empty()
                                                },
                                            ),
                                        ),
                                    ),
                                ).insert(
                                    "finishReason"@,
                                    Json::String(
                                        finish_reason_of(
                                            if response.outputs.len() > 0 {
                                                response.outputs[0].stop_reason
                                            } else {
                                                None
                                            },
                                        ),
                                    ),
                                ).insert("index"@, Json::Number(Num::Int(0))),
                            ),
                        ],
                    ),
                ).insert("usageMetadata"@, usage_json(response.usage)),
                "responseId"@,
                response.id,
            ),
            "modelVersion"@,
            response.model,
        ),
        response.preservation is None && (policy.lossy is Report || response.outputs.len() == 0
            || content_notes(response.outputs[0].content).len() == 0) ==> encoded_response(
            response,
            policy,
        ) == Ok::<(Json, Seq<Seq<char>>), ErrorView>(
            (
                Json::Object(response_body(response, policy)),
                if response.outputs.len() > 0 {
                    content_notes(response.outputs[0].content)
                } else {
                    Seq::empty()
                },
            ),
        ),
{
    assert(content_notes(Seq::empty()) =~= Seq::<Seq<char>>::empty());
    assert(content_parts(Seq::empty(), Map::empty(), policy) =~= Seq::<Json>::empty());
    let notes = content_notes(response_content(response));
    assert(Seq::<Seq<char>>::empty() + notes =~= notes);
    if notes.len() == 0 {
        assert(notes =~= Seq::<Seq<char>>::empty());
    }
}

/// The id and the model of a response come out of a hop as they went in.
pub proof fn law_response_names_survive(
    body: Obj,
    response: ResponseView,
    reading: TranslationPolicy,
    writing: TranslationPolicy,
)
    requires
        decoded_response(Json::Object(body), reading) == Ok::<ResponseView, ErrorView>(response),
    ensures
        string_in(response_body(response, writing).get("responseId"@)) == string_in(
            body.get("responseId"@),
        ),
        string_in(response_body(response, writing).get("modelVersion"@)) == string_in(
            body.get("modelVersion"@),
        ),
{
    lemma_response_keys();
}

/// Whether a stop reason goes with content: a call is what makes an ordinary end a tool use.
pub open spec fn stop_fits(reason: StopReason, content: Seq<BlockView>) -> bool {
    match reason {
        StopReason::ToolUse => has_call(content),
        StopReason::EndTurn => !has_call(content),
        StopReason::Error => false,
        _ => true,
    }
}

/// A response is read back as it was written: its id, its model and its content, where a part
/// can say every block of it, and why it stopped, where that goes with the content.
pub proof fn law_response_reads_back(response: ResponseView, policy: TranslationPolicy)
    requires
        response.outputs.len() > 0,
        response.outputs[0].content.len() > 0,
        all_readable(response.outputs[0].content, policy),
    ensures
        decoded_response(Json::Object(response_body(response, policy)), policy) matches Ok(read)
            && read.id == response.id && read.model == response.model && read.outputs[0].content
            == response.outputs[0].content && (response.outputs[0].stop_reason matches Some(reason)
            ==> stop_fits(reason, response.outputs[0].content) ==> read.outputs[0].stop_reason
            == Some(reason)),
{
    lemma_response_keys();
    lemma_candidate_keys();
    lemma_reasons();
    let content = response.outputs[0].content;
    lemma_parts_read_back(content, Map::empty(), no_calls(), policy);
    let body = response_body(response, policy);
    let candidate = candidate_json(response, policy);
    assert(body.get("candidates"@) == Some(Json::Array(seq![candidate])));
    assert(candidate_of(body) == Some(candidate->Object_0));
    let parts = content_parts(content, Map::empty(), policy);
    assert(candidate_parts(candidate_of(body)) == Some(Json::Array(parts)));
}

/// A response that was kept is sent again as it was received, and nothing is reported.
pub proof fn law_kept_response_is_sent_again(
    body: Json,
    response: ResponseView,
    reading: TranslationPolicy,
    writing: TranslationPolicy,
)
    requires
        decoded_response(body, reading) == Ok::<ResponseView, ErrorView>(response),
        !(reading.preservation is Discard),
        !(writing.preservation is Discard),
    ensures
        encoded_response(response, writing) == Ok::<(Json, Seq<Seq<char>>), ErrorView>(
            (body, Seq::empty()),
        ),
{
}

/// Writing a response fails only where the policy rejects loss and something would be lost;
/// the error then says what. Where the policy reports loss, all of it is reported.
pub proof fn law_only_loss_fails_a_response(response: ResponseView, policy: TranslationPolicy)
    ensures
        encoded_response(response, policy) is Err <==> {
            &&& policy.lossy is Reject
            &&& replayed(response.preservation, GEMINI_FORMAT@, policy) is None
            &&& content_notes(response_content(response)).len() > 0
        },
        encoded_response(response, policy) matches Err(e) ==> e == (ErrorView::Lossy {
            message: content_notes(response_content(response))[0],
        }),
        encoded_response(response, policy) matches Ok((_, diagnostics)) ==> replayed(
            response.preservation,
            GEMINI_FORMAT@,
            policy,
        ) is None ==> diagnostics == content_notes(response_content(response)),
{
    let notes = content_notes(response_content(response));
    assert(Seq::<Seq<char>>::empty() + notes =~= notes);
    if notes.len() == 0 {
        assert(notes =~= Seq::<Seq<char>>::empty());
    }
}

} // verus!
