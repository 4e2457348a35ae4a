//! The parser: a pushdown machine over an explicit stack of contexts.
//!
//! Each token is offered to the context on top of the stack. The context
//! answers with a [`StackOp`], which the driver applies, and at times with
//! a diagnostic, which the driver records before it goes on.
pub mod laws;
pub mod machine;
pub mod program;
pub mod scope;
pub mod version;

pub use machine::{advance, execute_stack_op, StackFault};
pub use program::{Instruction, LolCodeProgram};
pub use scope::{
    CommentContext, DecorationContext, ExprContext, IncludesContext, JoinContext, MainContext,
    ScopeContext, StringExprContext,
};
pub use version::LolCodeVersion;

use vstd::prelude::*;
use vstd::string::*;

use crate::framework::{
    Diagnostic, DiagnosticView, HandleTokenProcessingError, SinkFailure, TokenProcessingError,
};
use crate::parser::machine::MachineState;
use crate::parser::program::LolCodeProgramView;
use crate::parser::scope::{MainContextView, ScopeContextView};
use crate::tokenizer::{Token, TokenView};

verus! {

/// What the driver does with the stack once the context on top of it has
/// reacted to a token.
#[derive(Debug, PartialEq, Eq)]
pub enum StackOp {
    /// The context is finished: it leaves the stack and goes into the
    /// context beneath it.
    Unwind,
    /// The context stays; a child, where one is given, is pushed on top.
    Retain(Option<ScopeContext>),
    /// The context gives way to another at the same depth.
    Replace(ScopeContext),
}

/// The mathematical model of a [`StackOp`].
pub enum StackOpView {
    Unwind,
    Retain(Option<ScopeContextView>),
    Replace(ScopeContextView),
}

impl DeepView for StackOp {
    type V = StackOpView;

    open spec fn deep_view(&self) -> StackOpView {
        match self {
            StackOp::Unwind => StackOpView::Unwind,
            StackOp::Retain(child) => StackOpView::Retain(child.deep_view()),
            StackOp::Replace(next) => StackOpView::Replace(next@),
        }
    }
}

impl View for StackOp {
    type V = StackOpView;

    open spec fn view(&self) -> StackOpView {
        self.deep_view()
    }
}

/// Why a parse yielded no program.
#[derive(Debug, PartialEq, Eq)]
pub enum ParseError {
    /// The tokens do not make up a program. The diagnostics are in source
    /// order and there is at least one; one about the end of the input, if
    /// any, comes last.
    CompilationFailed(Vec<Diagnostic>),
    /// The stack machine reached a state that no rule covers.
    Fault(StackFault),
    /// The sink could not take a report.
    Sink(SinkFailure),
}

/// The mathematical model of a [`ParseError`].
pub enum ParseErrorView {
    CompilationFailed(Seq<DiagnosticView>),
    Fault(StackFault),
    Sink(Seq<char>),
}

impl DeepView for ParseError {
    type V = ParseErrorView;

    open spec fn deep_view(&self) -> ParseErrorView {
        match self {
            ParseError::CompilationFailed(diagnostics) => ParseErrorView::CompilationFailed(
                diagnostics.deep_view(),
            ),
            ParseError::Fault(fault) => ParseErrorView::Fault(*fault),
            ParseError::Sink(failure) => ParseErrorView::Sink(failure.reason@),
        }
    }
}

impl View for ParseError {
    type V = ParseErrorView;

    open spec fn view(&self) -> ParseErrorView {
        self.deep_view()
    }
}

/// The mathematical model of the result of a parse.
pub open spec fn parse_result_view(result: Result<LolCodeProgram, ParseError>) -> Result<
    LolCodeProgramView,
    ParseErrorView,
> {
    match result {
        Ok(program) => Ok(program@),
        Err(error) => Err(error@),
    }
}

/// The program that `stack` holds, where a completed program is all it
/// holds.
pub open spec fn completed_program(stack: Seq<ScopeContextView>) -> Option<LolCodeProgramView> {
    if stack.len() == 1 {
        match stack[0] {
            ScopeContextView::Main(MainContextView::Complete(program)) => Some(program),
            _ => None,
        }
    } else {
        None
    }
}

/// What is wrong with a stack that does not hold a completed program and
/// nothing else.
pub open spec fn closing_message(stack: Seq<ScopeContextView>) -> Seq<char> {
    if stack.len() == 1 {
        "Unterminated program"@
    } else {
        "Unexpected trailing context"@
    }
}

/// The result of a parse that ends with `stack` and has recorded
/// `diagnostics`. It is the completed program where nothing was recorded
/// and the stack holds nothing else. Where the stack holds anything else,
/// a last diagnostic says so.
pub open spec fn concluded(stack: Seq<ScopeContextView>, diagnostics: Seq<DiagnosticView>) -> Result<
    LolCodeProgramView,
    ParseErrorView,
> {
    match completed_program(stack) {
        Some(program) => {
            if diagnostics.len() == 0 {
                Ok(program)
            } else {
                Err(ParseErrorView::CompilationFailed(diagnostics))
            }
        },
        None => Err(
            ParseErrorView::CompilationFailed(
                diagnostics.push(
                    DiagnosticView { location: None, message: closing_message(stack) },
                ),
            ),
        ),
    }
}

/// What parsing `tokens` yields. A fault of the machine comes before
/// everything else.
pub open spec fn parse_outcome(tokens: Seq<TokenView>) -> Result<LolCodeProgramView, ParseErrorView> {
    let state = machine::machine_run(tokens);
    match state.fault {
        Some(fault) => Err(ParseErrorView::Fault(fault)),
        None => concluded(state.stack, state.diagnostics),
    }
}

/// Ends a parse that has left `ctx_stack` and has recorded `diagnostics`,
/// as [`concluded`] says.
pub fn conclude(ctx_stack: Vec<ScopeContext>, diagnostics: Vec<Diagnostic>) -> (result: Result<
    LolCodeProgram,
    ParseError,
>)
    ensures
        parse_result_view(result) == concluded(ctx_stack.deep_view(), diagnostics.deep_view()),
{
    let mut ctx_stack = ctx_stack;
    let mut diagnostics = diagnostics;
    let ghost stack = ctx_stack.deep_view();
    let ghost recorded = diagnostics.deep_view();
    if ctx_stack.len() != 1 {
        diagnostics.push(
            Diagnostic { location: None, message: String::from_str("Unexpected trailing context") },
        );
        assert(diagnostics.deep_view() =~= recorded.push(
            DiagnosticView { location: None, message: "Unexpected trailing context"@ },
        ));
        return Err(ParseError::CompilationFailed(diagnostics));
    }
    match ctx_stack.pop() {
        Some(ScopeContext::Main(MainContext::Complete(program))) => {
            if diagnostics.len() == 0 {
                Ok(program)
            } else {
                Err(ParseError::CompilationFailed(diagnostics))
            }
        },
        _ => {
            diagnostics.push(
                Diagnostic { location: None, message: String::from_str("Unterminated program") },
            );
            assert(diagnostics.deep_view() =~= recorded.push(
                DiagnosticView { location: None, message: "Unterminated program"@ },
            ));
            Err(ParseError::CompilationFailed(diagnostics))
        },
    }
}

/// Parses `tokens` into a program.
///
/// The parse goes on behind a token that does not fit, so that one pass
/// brings all the diagnostics. It yields the program only where there was
/// nothing to report.
pub fn process_tokens(tokens: Vec<Token>) -> (result: Result<LolCodeProgram, ParseError>)
    ensures
        parse_result_view(result) == parse_outcome(tokens.deep_view()),
        result matches Err(ParseError::CompilationFailed(diagnostics)) ==> diagnostics.len() > 0,
        !(result matches Err(ParseError::Fault(StackFault::EmptyStack))),
        !(result matches Err(ParseError::Sink(_))),
{
    let mut ctx_stack: Vec<ScopeContext> = Vec::new();
    ctx_stack.push(ScopeContext::Main(MainContext::Pre));
    let mut diagnostics: Vec<Diagnostic> = Vec::new();
    let ghost all = tokens.deep_view();
    assert(ctx_stack.deep_view() =~= seq![ScopeContextView::Main(MainContextView::Pre)]);
    assert(diagnostics.deep_view() =~= Seq::<DiagnosticView>::empty());
    assert(all.take(0) =~= Seq::<TokenView>::empty());
    let mut i: usize = 0;
    while i < tokens.len()
        invariant
            i <= tokens.len(),
            all == tokens.deep_view(),
            machine::machine_run(all.take(i as int)) == (MachineState {
                stack: ctx_stack.deep_view(),
                diagnostics: diagnostics.deep_view(),
                fault: None,
            }),
        decreases tokens.len() - i,
    {
        let ghost recorded = diagnostics.deep_view();
        proof {
            assert(all.take(i + 1).drop_last() =~= all.take(i as int));
            assert(all.take(i + 1).last() == tokens[i as int]@);
        }
        match advance(&mut ctx_stack, &tokens[i]) {
            Ok(Some(message)) => {
                let ghost wording = message@;
                diagnostics.push(Diagnostic { location: Some(tokens[i].location), message });
                assert(diagnostics.deep_view() =~= recorded.push(
                    DiagnosticView { location: Some(tokens[i as int]@.location), message: wording },
                ));
            },
            Ok(None) => {},
            Err(fault) => {
                proof {
                    machine::lemma_fault_is_final(all, i + 1);
                    laws::lemma_stack_depth(all, i + 1);
                }
                return Err(ParseError::Fault(fault));
            },
        }
        i += 1;
    }
    assert(all.take(i as int) =~= all);
    let result = conclude(ctx_stack, diagnostics);
    assert(result matches Err(ParseError::CompilationFailed(listed)) ==> listed.deep_view().len()
        == listed.len());
    result
}

/// The report that goes to the sink for a diagnostic about `token`, and the
/// diagnostic as it is recorded.
pub fn report_for<'a>(token: &'a Token, message: String) -> (report: (
    TokenProcessingError<'a>,
    Diagnostic,
))
    ensures
        report.0.token == token,
        report.0@ == report.1@,
        report.1@ == (DiagnosticView { location: Some(token@.location), message: message@ }),
{
    (
        TokenProcessingError { token, err: message.clone() },
        Diagnostic { location: Some(token.location), message },
    )
}

/// What the answer of the sink to a report means for the parse: it goes on
/// where the report was taken, and ends with the failure of the sink where
/// it was not.
pub fn sink_verdict(answer: Result<(), SinkFailure>) -> (end: Option<ParseError>)
    ensures
        match answer {
            Ok(_) => end is None,
            Err(failure) => end == Some(ParseError::Sink(failure)),
        },
{
    match answer {
        Ok(()) => None,
        Err(failure) => Some(ParseError::Sink(failure)),
    }
}

/// A parser that reports to a sink.
pub trait Parser {
    /// Parses `tokens` as [`process_tokens`] does, and hands each
    /// diagnostic about a token to the sink as soon as the token is read.
    ///
    /// Where the sink takes every report, or there is none to take, the
    /// result is that of [`process_tokens`]. The parse stops at the first
    /// report that the sink fails on.
    fn process_tokens(&mut self, tokens: Vec<Token>) -> (result: Result<LolCodeProgram, ParseError>)
        ensures
            result matches Err(ParseError::Sink(_)) ==> machine::machine_run(
                tokens.deep_view(),
            ).diagnostics.len() > 0,
            !(result matches Err(ParseError::Sink(_))) ==> parse_result_view(result)
                == parse_outcome(tokens.deep_view()),
            parse_outcome(tokens.deep_view()) is Ok ==> parse_result_view(result) == parse_outcome(
                tokens.deep_view(),
            ),
            result matches Err(ParseError::CompilationFailed(diagnostics)) ==> diagnostics.len()
                > 0,
            !(result matches Err(ParseError::Fault(StackFault::EmptyStack))),
    ;
}

impl<T: HandleTokenProcessingError> Parser for T {
    fn process_tokens(&mut self, tokens: Vec<Token>) -> (result: Result<LolCodeProgram, ParseError>) {
        let mut ctx_stack: Vec<ScopeContext> = Vec::new();
        ctx_stack.push(ScopeContext::Main(MainContext::Pre));
        let mut diagnostics: Vec<Diagnostic> = Vec::new();
        let ghost all = tokens.deep_view();
        assert(ctx_stack.deep_view() =~= seq![ScopeContextView::Main(MainContextView::Pre)]);
        assert(diagnostics.deep_view() =~= Seq::<DiagnosticView>::empty());
        assert(all.take(0) =~= Seq::<TokenView>::empty());
        let mut i: usize = 0;
        while i < tokens.len()
            invariant
                i <= tokens.len(),
                all == tokens.deep_view(),
                machine::machine_run(all.take(i as int)) == (MachineState {
                    stack: ctx_stack.deep_view(),
                    diagnostics: diagnostics.deep_view(),
                    fault: None,
                }),
            decreases tokens.len() - i,
        {
            let ghost recorded = diagnostics.deep_view();
            proof {
                assert(all.take(i + 1).drop_last() =~= all.take(i as int));
                assert(all.take(i + 1).last() == tokens[i as int]@);
            }
            match advance(&mut ctx_stack, &tokens[i]) {
                Ok(Some(message)) => {
                    let ghost wording = message@;
                    let (report, diagnostic) = report_for(&tokens[i], message);
                    diagnostics.push(diagnostic);
                    assert(diagnostics.deep_view() =~= recorded.push(
                        DiagnosticView {
                            location: Some(tokens[i as int]@.location),
                            message: wording,
                        },
                    ));
                    match sink_verdict(self.handle_err(report)) {
                        None => {},
                        Some(end) => {
                            proof {
                                machine::lemma_diagnostics_grow(all, i + 1);
                            }
                            return Err(end);
                        },
                    }
                },
                Ok(None) => {},
                Err(fault) => {
                    proof {
                        machine::lemma_fault_is_final(all, i + 1);
                        laws::lemma_stack_depth(all, i + 1);
                    }
                    return Err(ParseError::Fault(fault));
                },
            }
            i += 1;
        }
        assert(all.take(i as int) =~= all);
        let result = conclude(ctx_stack, diagnostics);
        assert(result matches Err(ParseError::CompilationFailed(listed))
            ==> listed.deep_view().len() == listed.len());
        result
    }
}

} // verus!
