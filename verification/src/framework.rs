//! Diagnostics: what the parser reports of a token that does not fit, and
//! the sink that a caller supplies to receive such reports as they arise.
use vstd::prelude::*;

use crate::tokenizer::{Token, TokenLocation};

verus! {

/// A report handed to a sink: the token that did not fit, and why.
pub struct TokenProcessingError<'a> {
    pub token: &'a Token,
    pub err: String,
}

impl<'a> View for TokenProcessingError<'a> {
    type V = DiagnosticView;

    /// A report reads as the diagnostic it hands over: the position of its
    /// token, and the wording.
    open spec fn view(&self) -> DiagnosticView {
        DiagnosticView { location: Some(self.token.location), message: self.err@ }
    }
}

/// Why a sink could not take a report.
#[derive(Debug, PartialEq, Eq)]
pub struct SinkFailure {
    pub reason: String,
}

/// A sink for the parser's reports.
///
/// The parser hands each report over as soon as the token is read, in
/// source order. A sink fails only where it cannot pass the report on; the
/// parser stops at the first such failure.
pub trait HandleTokenProcessingError {
    /// Takes one report.
    fn handle_err(&mut self, err: TokenProcessingError) -> Result<(), SinkFailure>;
}

/// A recorded diagnostic. A diagnostic about a token carries the position
/// the token was stamped with; one about the end of the input carries none.
#[derive(Debug, PartialEq, Eq)]
pub struct Diagnostic {
    pub location: Option<TokenLocation>,
    pub message: String,
}

/// The mathematical model of a [`Diagnostic`].
pub struct DiagnosticView {
    pub location: Option<TokenLocation>,
    pub message: Seq<char>,
}

impl Clone for Diagnostic {
    fn clone(&self) -> (copy: Diagnostic)
        ensures
            copy@ == self@,
    {
        Diagnostic { location: self.location, message: self.message.clone() }
    }
}

impl DeepView for Diagnostic {
    type V = DiagnosticView;

    open spec fn deep_view(&self) -> DiagnosticView {
        DiagnosticView { location: self.location, message: self.message@ }
    }
}

impl View for Diagnostic {
    type V = DiagnosticView;

    open spec fn view(&self) -> DiagnosticView {
        self.deep_view()
    }
}

} // verus!
