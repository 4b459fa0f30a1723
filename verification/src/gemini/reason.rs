//! Why a model stopped, in Gemini's words and in the model's.
use vstd::prelude::*;

use crate::llm::StopReason;
use crate::text::{opt_str, str_eq};

verus! {

/// Whether a finish reason says that content was filtered.
pub open spec fn filtered(reason: Seq<char>) -> bool {
    ||| reason == "SAFETY"@
    ||| reason == "RECITATION"@
    ||| reason == "BLOCKLIST"@
    ||| reason == "PROHIBITED_CONTENT"@
    ||| reason == "SPII"@
    ||| reason == "IMAGE_SAFETY"@
    ||| reason == "IMAGE_PROHIBITED_CONTENT"@
    ||| reason == "IMAGE_RECITATION"@
}

/// The stop reason that a finish reason says. A function call counts only where the model
/// came to an ordinary end.
pub open spec fn stop_reason_of(reason: Option<Seq<char>>, has_tool_call: bool) -> StopReason {
    match reason {
        None => if has_tool_call {
            StopReason::ToolUse
        } else {
            StopReason::EndTurn
        },
        Some(r) => if r == "STOP"@ {
            if has_tool_call {
                StopReason::ToolUse
            } else {
                StopReason::EndTurn
            }
        } else if r == "MAX_TOKENS"@ {
            StopReason::MaxTokens
        } else if filtered(r) {
            StopReason::ContentFilter
        } else {
            StopReason::Unknown
        },
    }
}

/// Maps a Gemini finish reason. The explicit reason is read before any function call in
/// the candidate, so an aborted or truncated call is not reported as a clean tool-use stop.
pub fn gemini_stop_reason(reason: Option<&str>, has_tool_call: bool) -> (stop: StopReason)
    ensures
        stop == stop_reason_of(opt_str(reason), has_tool_call),
{
    let r = match reason {
        Some(r) => r,
        None => "STOP",
    };
    if str_eq(r, "STOP") {
        if has_tool_call {
            StopReason::ToolUse
        } else {
            StopReason::EndTurn
        }
    } else if str_eq(r, "MAX_TOKENS") {
        StopReason::MaxTokens
    } else if str_eq(r, "SAFETY") || str_eq(r, "RECITATION") || str_eq(r, "BLOCKLIST") || str_eq(
        r,
        "PROHIBITED_CONTENT",
    ) || str_eq(r, "SPII") || str_eq(r, "IMAGE_SAFETY") || str_eq(r, "IMAGE_PROHIBITED_CONTENT")
        || str_eq(r, "IMAGE_RECITATION") {
        StopReason::ContentFilter
    } else {
        StopReason::Unknown
    }
}

/// The finish reason that says a stop reason.
pub open spec fn finish_reason_of(reason: Option<StopReason>) -> Seq<char> {
    match reason {
        None => "STOP"@,
        Some(StopReason::EndTurn) => "STOP"@,
        Some(StopReason::ToolUse) => "STOP"@,
        Some(StopReason::MaxTokens) => "MAX_TOKENS"@,
        Some(StopReason::ContentFilter) => "SAFETY"@,
        Some(StopReason::Error) => "OTHER"@,
        Some(StopReason::Unknown) => "OTHER"@,
    }
}

/// Maps a normalized stop reason to a Gemini finish reason.
pub fn gemini_finish_reason(reason: Option<StopReason>) -> (finish: &'static str)
    ensures
        finish@ == finish_reason_of(reason),
{
    match reason {
        None => "STOP",
        Some(StopReason::EndTurn) => "STOP",
        Some(StopReason::ToolUse) => "STOP",
        Some(StopReason::MaxTokens) => "MAX_TOKENS",
        Some(StopReason::ContentFilter) => "SAFETY",
        Some(StopReason::Error) => "OTHER",
        Some(StopReason::Unknown) => "OTHER",
    }
}

} // verus!
