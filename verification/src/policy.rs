//! What a caller decides about a translation.
use vstd::prelude::*;

verus! {

/// What stands for a tool-call id that a provider did not send.
#[derive(Debug)]
pub enum DeterministicIdPolicy {
    /// An id made of `prefix` and a running number.
    GenerateStable { prefix: String },
    /// Nothing: the id stays empty.
    Preserve,
}

/// What happens where a format cannot carry something.
#[derive(Debug, Clone, Copy, PartialEq, Eq, Structural)]
pub enum LossyPolicy {
    /// It is dropped and reported.
    Report,
    /// The translation fails.
    Reject,
}

/// What happens to the body that a request or response was read from.
#[derive(Debug)]
pub enum PreservationPolicy {
    /// It is not kept.
    Discard,
    /// It is kept and sent again where the target has the same format.
    Replay,
    /// Besides, it travels in the field `key` of a body of another format.
    Embed { key: String },
}

/// What the target of a request can do.
#[derive(Debug, Clone, Copy)]
pub struct Capabilities {
    pub tools: bool,
    pub structured_output: bool,
}

/// What a caller decides about a translation.
#[derive(Debug)]
pub struct TranslationPolicy {
    pub deterministic_ids: DeterministicIdPolicy,
    pub lossy: LossyPolicy,
    pub preservation: PreservationPolicy,
    pub capabilities: Capabilities,
}

} // verus!
