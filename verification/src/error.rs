//! What a translation reports and how it fails.
use vstd::prelude::*;

verus! {

/// Why a translation failed.
#[derive(Debug)]
pub enum TranslationError {
    /// The value at `path` has another type than the format asks for.
    InvalidType { path: String, expected: &'static str },
    /// The value at `path` is none that the format defines.
    InvalidValue { path: String, message: String },
    /// The policy does not allow to drop what `message` says.
    Lossy { message: String },
}

/// What an error says.
pub enum ErrorView {
    InvalidType { path: Seq<char>, expected: Seq<char> },
    InvalidValue { path: Seq<char>, message: Seq<char> },
    Lossy { message: Seq<char> },
}

impl View for TranslationError {
    type V = ErrorView;

    open spec fn view(&self) -> ErrorView {
        match self {
            TranslationError::InvalidType { path, expected } => ErrorView::InvalidType {
                path: path@,
                expected: expected@,
            },
            TranslationError::InvalidValue { path, message } => ErrorView::InvalidValue {
                path: path@,
                message: message@,
            },
            TranslationError::Lossy { message } => ErrorView::Lossy { message: message@ },
        }
    }
}

/// Something that a translation dropped.
#[derive(Debug)]
pub struct TranslationDiagnostic {
    pub message: String,
}

impl View for TranslationDiagnostic {
    type V = Seq<char>;

    open spec fn view(&self) -> Seq<char> {
        self.message@
    }
}

/// The messages of diagnostics, in order.
pub open spec fn messages_of(diagnostics: Seq<TranslationDiagnostic>) -> Seq<Seq<char>> {
    diagnostics.map_values(|d: TranslationDiagnostic| d@)
}

} // verus!
