//! The interface that the codec of every format offers.
use vstd::prelude::*;

use crate::error::{TranslationDiagnostic, TranslationError};
use crate::format::FormatId;
use crate::json::JsonValue;
use crate::llm::{AggLlmResponse, LlmRequest};
use crate::policy::TranslationPolicy;

verus! {

/// A request that was read, and what was dropped on the way.
#[derive(Debug)]
pub struct DecodedRequest {
    pub request: LlmRequest,
    pub diagnostics: Vec<TranslationDiagnostic>,
}

/// A response that was read, and what was dropped on the way.
#[derive(Debug)]
pub struct DecodedResponse {
    pub response: AggLlmResponse,
    pub diagnostics: Vec<TranslationDiagnostic>,
}

/// The body of a request, and what was dropped on the way.
#[derive(Debug)]
pub struct EncodedRequest {
    pub body: JsonValue,
    pub diagnostics: Vec<TranslationDiagnostic>,
}

/// The body of a response, and what was dropped on the way.
#[derive(Debug)]
pub struct EncodedResponse {
    pub body: JsonValue,
    pub diagnostics: Vec<TranslationDiagnostic>,
}

/// Reads and writes the bodies of one format.
pub trait FormatCodec {
    /// Whether the format has numbers for all counts of `response`.
    spec fn can_encode_response(
        &self,
        response: &AggLlmResponse,
        policy: &TranslationPolicy,
    ) -> bool;

    /// The format.
    fn format(&self) -> FormatId;

    /// Reads the body of a request.
    fn decode_request(&self, body: &JsonValue, policy: &TranslationPolicy) -> Result<
        DecodedRequest,
        TranslationError,
    >;

    /// Writes the body of a request.
    fn encode_request(&self, request: &LlmRequest, policy: &TranslationPolicy) -> Result<
        EncodedRequest,
        TranslationError,
    >;

    /// Reads the body of a response.
    fn decode_response(&self, body: &JsonValue, policy: &TranslationPolicy) -> Result<
        DecodedResponse,
        TranslationError,
    >;

    /// Writes the body of a response.
    fn encode_response(&self, response: &AggLlmResponse, policy: &TranslationPolicy) -> Result<
        EncodedResponse,
        TranslationError,
    >
        requires
            self.can_encode_response(response, policy),
    ;
}

} // verus!
