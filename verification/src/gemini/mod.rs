//! Buffered codec for Gemini `generateContent` request and response JSON.
use vstd::prelude::*;

pub mod codec;
pub mod decode;
pub mod decode_request;
pub mod encode;
pub mod encode_request;
pub mod ids;
pub mod media;
pub mod reason;
pub mod response;
pub mod schema;
pub mod tools;
pub mod usage;

verus! {

/// The registry key of the codec.
pub const GEMINI_FORMAT: &'static str = "gemini_generate_content";

/// Format codec for Gemini `generateContent` payloads.
#[derive(Debug, Clone, Copy)]
pub struct GeminiGenerateContentCodec;

} // verus!
