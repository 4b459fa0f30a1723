//! A codec between Gemini `generateContent` JSON and a provider-neutral model of
//! requests and responses, with its behaviour stated in contracts.
pub mod codecs;
pub mod common;
pub mod error;
pub mod format;
pub mod gemini;
pub mod json;
pub mod laws;
pub mod llm;
pub mod number;
pub mod policy;
pub mod text;
pub mod util;
pub mod wire;
