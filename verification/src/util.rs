//! What the codecs of all formats share.
use vstd::prelude::*;
use vstd::string::*;

use crate::error::{messages_of, ErrorView, TranslationDiagnostic, TranslationError};
use crate::format::FormatId;
use crate::json::{json_of_str, opt_value, Json, JsonObject, JsonValue, Obj};
use crate::llm::{CapturedBody, CapturedView, LlmRequest, Preservation, RequestView};
use crate::policy::{LossyPolicy, PreservationPolicy, TranslationPolicy};
use crate::text::{padded_decimal, padded_decimal_text};
use crate::wire::{reads_back, render, rendered};

verus! {

/// The fields of `v`, or the error that `v` at `path` is no object.
pub open spec fn object_or_error(v: Json, path: Seq<char>) -> Result<Obj, ErrorView> {
    match v {
        Json::Object(o) => Ok(o),
        _ => Err(ErrorView::InvalidType { path, expected: "object"@ }),
    }
}

/// Reads the object `value` at `path`.
pub fn object<'a>(value: &'a JsonValue, path: &str) -> (o: Result<
    &'a JsonObject,
    TranslationError,
>)
    ensures
        match o {
            Ok(fields) => object_or_error(value@, path@) == Ok::<Obj, ErrorView>(fields@),
            Err(e) => object_or_error(value@, path@) == Err::<Obj, ErrorView>(e@),
        },
{
    match value {
        JsonValue::Object(fields) => Ok(fields),
        _ => Err(TranslationError::InvalidType { path: path.to_owned(), expected: "object" }),
    }
}

/// The text of `v`: a string as it is, any other value as JSON.
pub open spec fn text_of_json(v: Json) -> Seq<char> {
    match v {
        Json::String(s) => s,
        other => rendered(other),
    }
}

/// Gives the text of a value.
pub fn json_string(value: &JsonValue) -> (text: String)
    ensures
        text@ == text_of_json(value@),
        value@ is String || reads_back(value@),
{
    match value {
        JsonValue::String(s) => s.clone(),
        other => render(other),
    }
}

/// What comes of dropping what `notes` say, in that order: it is reported, or the first of
/// it is an error where the policy does not allow to drop anything.
pub open spec fn reported(
    diagnostics: Seq<Seq<char>>,
    policy: TranslationPolicy,
    notes: Seq<Seq<char>>,
) -> Result<Seq<Seq<char>>, ErrorView> {
    match policy.lossy {
        LossyPolicy::Report => Ok(diagnostics + notes),
        LossyPolicy::Reject => if notes.len() == 0 {
            Ok(diagnostics)
        } else {
            Err(ErrorView::Lossy { message: notes[0] })
        },
    }
}

/// Whether an operation with the result `r` dropped what `notes` say and nothing else. What was
/// reported before stays as it was where the operation fails, and wherever the policy does not
/// allow to drop anything.
pub open spec fn dropped<T>(
    r: Result<T, TranslationError>,
    before: Seq<TranslationDiagnostic>,
    after: Seq<TranslationDiagnostic>,
    policy: TranslationPolicy,
    notes: Seq<Seq<char>>,
) -> bool {
    &&& policy.lossy is Reject ==> after == before
    &&& match r {
        Ok(_) => reported(messages_of(before), policy, notes) == Ok::<Seq<Seq<char>>, ErrorView>(
            messages_of(after),
        ),
        Err(e) => after == before && reported(messages_of(before), policy, notes) == Err::<
            Seq<Seq<char>>,
            ErrorView,
        >(e@),
    }
}

/// What is dropped first is reported first.
pub proof fn lemma_reported_append(
    diagnostics: Seq<Seq<char>>,
    policy: TranslationPolicy,
    first: Seq<Seq<char>>,
    second: Seq<Seq<char>>,
)
    ensures
        reported(diagnostics, policy, first + second) == match reported(
            diagnostics,
            policy,
            first,
        ) {
            Ok(d) => reported(d, policy, second),
            Err(e) => Err(e),
        },
{
    assert(diagnostics + (first + second) =~= (diagnostics + first) + second);
    if first.len() == 0 {
        assert(first + second =~= second);
    }
}

/// Dropping nothing changes nothing.
pub proof fn lemma_reported_nothing(
    diagnostics: Seq<Seq<char>>,
    policy: TranslationPolicy,
    notes: Seq<Seq<char>>,
)
    requires
        notes.len() == 0,
    ensures
        reported(diagnostics, policy, notes) == Ok::<Seq<Seq<char>>, ErrorView>(diagnostics),
{
    assert(diagnostics + notes =~= diagnostics);
}

/// Reports that something was dropped, or fails where the policy does not allow it.
pub fn push_lossy(
    diagnostics: &mut Vec<TranslationDiagnostic>,
    policy: &TranslationPolicy,
    message: &str,
) -> (r: Result<(), TranslationError>)
    ensures
        dropped(r, old(diagnostics)@, final(diagnostics)@, *policy, seq![message@]),
{
    match policy.lossy {
        LossyPolicy::Report => {
            diagnostics.push(TranslationDiagnostic { message: message.to_owned() });
            assert(messages_of(diagnostics@) =~= messages_of(old(diagnostics)@) + seq![message@]);
            Ok(())
        },
        LossyPolicy::Reject => Err(TranslationError::Lossy { message: message.to_owned() }),
    }
}

/// The id that stands for call number `counter`: the prefix, an underscore and at least
/// eight digits.
pub open spec fn stable_id_of(prefix: Seq<char>, counter: nat) -> Seq<char> {
    prefix + "_"@ + padded_decimal(counter, 8)
}

/// Makes the id of call number `counter`.
pub fn stable_id(prefix: &str, counter: u128) -> (id: String)
    ensures
        id@ == stable_id_of(prefix@, counter as nat),
{
    let mut id = prefix.to_owned();
    id.append("_");
    id.append(padded_decimal_text(counter, 8).as_str());
    id
}

/// What is kept of a body.
pub open spec fn captured(
    format: Seq<char>,
    body: Json,
    policy: TranslationPolicy,
) -> Option<CapturedView> {
    match policy.preservation {
        PreservationPolicy::Discard => None,
        _ => Some(CapturedView { format, body }),
    }
}

fn capture(format: &str, body: &JsonValue, policy: &TranslationPolicy) -> (p: Preservation)
    ensures
        p@ == captured(format@, body@, *policy),
{
    match policy.preservation {
        PreservationPolicy::Discard => Preservation { captured: None },
        _ => Preservation {
            captured: Some(CapturedBody { format: FormatId::new(format), body: body.clone() }),
        },
    }
}

/// Keeps the body of a request where the policy says so.
pub fn capture_request_preservation(
    format: &str,
    body: &JsonValue,
    policy: &TranslationPolicy,
) -> (p: Preservation)
    ensures
        p@ == captured(format@, body@, *policy),
{
    capture(format, body, policy)
}

/// Keeps the body of a response where the policy says so.
pub fn capture_response_preservation(
    format: &str,
    body: &JsonValue,
    policy: &TranslationPolicy,
) -> (p: Preservation)
    ensures
        p@ == captured(format@, body@, *policy),
{
    capture(format, body, policy)
}

/// The body to send again: the one that was kept, where it has the target's format.
pub open spec fn replayed(
    preservation: Option<CapturedView>,
    format: Seq<char>,
    policy: TranslationPolicy,
) -> Option<Json> {
    match (policy.preservation, preservation) {
        (PreservationPolicy::Discard, _) => None,
        (_, Some(c)) => if c.format == format {
            Some(c.body)
        } else {
            None
        },
        (_, None) => None,
    }
}

fn replay(preservation: &Preservation, format: &str, policy: &TranslationPolicy) -> (body: Option<
    JsonValue,
>)
    ensures
        opt_value(body) == replayed(preservation@, format@, *policy),
{
    match policy.preservation {
        PreservationPolicy::Discard => None,
        _ => match &preservation.captured {
            Some(c) => if c.format.is(format) {
                Some(c.body.clone())
            } else {
                None
            },
            None => None,
        },
    }
}

/// The body of a request to send again.
pub fn exact_preserved_request(
    preservation: &Preservation,
    format: &str,
    policy: &TranslationPolicy,
) -> (body: Option<JsonValue>)
    ensures
        opt_value(body) == replayed(preservation@, format@, *policy),
{
    replay(preservation, format, policy)
}

/// The body of a response to send again.
pub fn exact_preserved_response(
    preservation: &Preservation,
    format: &str,
    policy: &TranslationPolicy,
) -> (body: Option<JsonValue>)
    ensures
        opt_value(body) == replayed(preservation@, format@, *policy),
{
    replay(preservation, format, policy)
}

/// The object `body` with the kept body in it, where the policy says so.
pub open spec fn embedded(
    body: Obj,
    preservation: Option<CapturedView>,
    policy: TranslationPolicy,
) -> Obj {
    match (policy.preservation, preservation) {
        (PreservationPolicy::Embed { key }, Some(c)) => body.insert(
            key@,
            Json::Object(
                map!["format"@ => Json::String(c.format), "body"@ => c.body],
            ),
        ),
        _ => body,
    }
}

/// Puts the kept body into `body` where the policy says so.
pub fn embed_preservation(
    body: JsonObject,
    preservation: &Preservation,
    policy: &TranslationPolicy,
) -> (result: JsonValue)
    ensures
        result@ == Json::Object(embedded(body@, preservation@, *policy)),
{
    let mut body = body;
    match &policy.preservation {
        PreservationPolicy::Embed { key } => match &preservation.captured {
            Some(c) => {
                let kept = JsonObject::new().with("format", json_of_str(c.format.as_str())).with(
                    "body",
                    c.body.clone(),
                );
                body.insert(key.as_str(), JsonValue::Object(kept));
            },
            None => {},
        },
        _ => {},
    }
    JsonValue::Object(body)
}

/// What the target of `request` cannot do.
pub open spec fn capability_notes(request: RequestView, policy: TranslationPolicy) -> Seq<
    Seq<char>,
> {
    let tools = if request.tools.len() > 0 && !policy.capabilities.tools {
        seq!["the target does not support tools"@]
    } else {
        seq![]
    };
    let format = if request.output.response_format is Some
        && !policy.capabilities.structured_output {
        seq!["the target does not support structured output"@]
    } else {
        seq![]
    };
    tools + format
}

/// Reports what the target of `request` cannot do.
pub fn validate_request_capabilities(
    request: &LlmRequest,
    diagnostics: &mut Vec<TranslationDiagnostic>,
    policy: &TranslationPolicy,
) -> (r: Result<(), TranslationError>)
    ensures
        dropped(
            r,
            old(diagnostics)@,
            final(diagnostics)@,
            *policy,
            capability_notes(request@, *policy),
        ),
{
    let tools = request.tools.len() > 0 && !policy.capabilities.tools;
    let format = request.output.response_format.is_some()
        && !policy.capabilities.structured_output;
    proof {
        let start = messages_of(diagnostics@);
        let first = if tools {
            seq!["the target does not support tools"@]
        } else {
            seq![]
        };
        let second = if format {
            seq!["the target does not support structured output"@]
        } else {
            seq![]
        };
        assert(capability_notes(request@, *policy) == first + second);
        lemma_reported_append(start, *policy, first, second);
        lemma_reported_nothing(start, *policy, Seq::empty());
        if let Ok(d) = reported(start, *policy, first) {
            lemma_reported_nothing(d, *policy, Seq::empty());
        }
    }
    if tools {
        push_lossy(diagnostics, policy, "the target does not support tools")?;
    }
    if format {
        push_lossy(diagnostics, policy, "the target does not support structured output")?;
    }
    Ok(())
}

} // verus!
