//! The codec.
use vstd::prelude::*;

use crate::codecs::{DecodedRequest, DecodedResponse, EncodedRequest, EncodedResponse, FormatCodec};
use crate::error::{messages_of, ErrorView, TranslationError};
use crate::format::FormatId;
use crate::gemini::decode_request::{decoded_request, read_request, request_kept};
use crate::gemini::encode_request::{encoded_request, write_request};
use crate::gemini::response::{
    countable, decoded_response, encoded_response, read_response, response_content_kept,
    write_response,
};
use crate::gemini::{GEMINI_FORMAT, GeminiGenerateContentCodec};
use crate::json::{Json, JsonValue};
use crate::llm::{AggLlmResponse, LlmRequest, RequestView, ResponseView};
use crate::policy::TranslationPolicy;

verus! {

impl FormatCodec for GeminiGenerateContentCodec {
    open spec fn can_encode_response(
        &self,
        response: &AggLlmResponse,
        policy: &TranslationPolicy,
    ) -> bool {
        countable(response@, *policy)
    }

    fn format(&self) -> (format: FormatId)
        ensures
            format@ == GEMINI_FORMAT@,
    {
        FormatId::new(GEMINI_FORMAT)
    }

    fn decode_request(&self, body: &JsonValue, policy: &TranslationPolicy) -> (r: Result<
        DecodedRequest,
        TranslationError,
    >)
        ensures
            match r {
                Ok(d) => decoded_request(body@, *policy) == Ok::<
                    (RequestView, Seq<Seq<char>>),
                    ErrorView,
                >((d.request@, messages_of(d.diagnostics@))),
                Err(e) => decoded_request(body@, *policy) == Err::<
                    (RequestView, Seq<Seq<char>>),
                    ErrorView,
                >(e@),
            },
            r matches Ok(d) ==> request_kept(body@, d.request@.messages),
    {
        read_request(body, policy)
    }

    fn encode_request(&self, request: &LlmRequest, policy: &TranslationPolicy) -> (r: Result<
        EncodedRequest,
        TranslationError,
    >)
        ensures
            match r {
                Ok(d) => encoded_request(request@, *policy) == Ok::<
                    (Json, Seq<Seq<char>>),
                    ErrorView,
                >((d.body@, messages_of(d.diagnostics@))),
                Err(e) => encoded_request(request@, *policy) == Err::<
                    (Json, Seq<Seq<char>>),
                    ErrorView,
                >(e@),
            },
    {
        write_request(request, policy)
    }

    fn decode_response(&self, body: &JsonValue, policy: &TranslationPolicy) -> (r: Result<
        DecodedResponse,
        TranslationError,
    >)
        ensures
            match r {
                Ok(d) => decoded_response(body@, *policy) == Ok::<ResponseView, ErrorView>(
                    d.response@,
                ) && d.diagnostics@.len() == 0,
                Err(e) => decoded_response(body@, *policy) == Err::<ResponseView, ErrorView>(e@),
            },
            r matches Ok(d) ==> response_content_kept(body@, d.response@),
    {
        read_response(body, policy)
    }

    fn encode_response(&self, response: &AggLlmResponse, policy: &TranslationPolicy) -> (r: Result<
        EncodedResponse,
        TranslationError,
    >)
        ensures
            match r {
                Ok(d) => encoded_response(response@, *policy) == Ok::<
                    (Json, Seq<Seq<char>>),
                    ErrorView,
                >((d.body@, messages_of(d.diagnostics@))),
                Err(e) => encoded_response(response@, *policy) == Err::<
                    (Json, Seq<Seq<char>>),
                    ErrorView,
                >(e@),
            },
    {
        write_response(response, policy)
    }
}

} // verus!
