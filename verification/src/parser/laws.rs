//! What holds of the stack machine on every token sequence: the shape and
//! the depth of its stack, and that a parse is a function of its tokens.
use vstd::prelude::*;

use crate::parser::machine::{self, StackFault};
use crate::parser::program::LolCodeProgram;
use crate::parser::scope::{
    CommentContextView, ExprContextView, IncludesContextView, MainContextView, ScopeContextView,
};
use crate::parser::ParseError;
use crate::tokenizer::{Token, TokenTypeView, TokenView};

verus! {

/// Whether `context` can stand at the bottom of the stack: it is the
/// program before, in or behind its header.
pub open spec fn is_base(context: ScopeContextView) -> bool {
    match context {
        ScopeContextView::Decoration(_) => true,
        ScopeContextView::Main(MainContextView::Pre) => true,
        ScopeContextView::Main(MainContextView::Root { .. }) => true,
        ScopeContextView::Main(MainContextView::Complete(_)) => true,
        _ => false,
    }
}

/// Whether `context` is the body of a program.
pub open spec fn is_root(context: ScopeContextView) -> bool {
    context matches ScopeContextView::Main(MainContextView::Root { .. })
}

/// Whether `context` is a print statement.
pub open spec fn is_print(context: ScopeContextView) -> bool {
    context matches ScopeContextView::Main(MainContextView::Expr(ExprContextView::Visible { .. }))
}

/// Whether `context` is a statement: a print statement or an include
/// declaration.
pub open spec fn is_statement(context: ScopeContextView) -> bool {
    match context {
        ScopeContextView::Main(MainContextView::Expr(ExprContextView::Visible { .. })) => true,
        ScopeContextView::Main(MainContextView::Expr(ExprContextView::Include(_))) => true,
        _ => false,
    }
}

/// Whether `context` is a part of a print statement: a string literal or a
/// join.
pub open spec fn is_print_part(context: ScopeContextView) -> bool {
    match context {
        ScopeContextView::Main(MainContextView::Expr(ExprContextView::String(_))) => true,
        ScopeContextView::Main(MainContextView::Expr(ExprContextView::Join(_))) => true,
        _ => false,
    }
}

/// Whether `stack` is the body of a program with a complete include
/// declaration on top of it.
pub open spec fn ends_in_include(stack: Seq<ScopeContextView>) -> bool {
    &&& stack.len() == 2
    &&& is_root(stack[0])
    &&& stack[1] matches ScopeContextView::Main(
        MainContextView::Expr(ExprContextView::Include(IncludesContextView::Module(_))),
    )
}

/// The shapes of a stack that holds no comment: the program alone; the
/// program body and a statement; or the program body, a print statement
/// and a part of it.
pub open spec fn code_shaped(stack: Seq<ScopeContextView>) -> bool {
    ||| stack.len() == 1 && is_base(stack[0])
    ||| stack.len() == 2 && is_root(stack[0]) && is_statement(stack[1])
    ||| stack.len() == 3 && is_root(stack[0]) && is_print(stack[1]) && is_print_part(stack[2])
}

/// The shapes of a stack: a stack without comments, with any number of
/// comments on top of it.
pub open spec fn well_shaped(stack: Seq<ScopeContextView>) -> bool
    decreases stack.len(),
{
    if stack.len() == 0 {
        false
    } else if stack.last() is Comment {
        well_shaped(stack.drop_last())
    } else {
        code_shaped(stack)
    }
}

/// The number of comments on top of `stack`.
pub open spec fn open_comments(stack: Seq<ScopeContextView>) -> nat
    decreases stack.len(),
{
    if stack.len() == 0 {
        0
    } else if stack.last() is Comment {
        1 + open_comments(stack.drop_last())
    } else {
        0
    }
}

/// The number of keywords among `tokens` that start a comment.
pub open spec fn comment_openers(tokens: Seq<TokenView>) -> nat
    decreases tokens.len(),
{
    if tokens.len() == 0 {
        0
    } else {
        comment_openers(tokens.drop_last()) + if tokens.last().t_type.opens_comment() {
            1nat
        } else {
            0nat
        }
    }
}

/// A well-shaped stack holds at least one context, and at most three that
/// are no comments.
pub proof fn lemma_shape_bounds_depth(stack: Seq<ScopeContextView>)
    requires
        well_shaped(stack),
    ensures
        1 <= stack.len() <= 3 + open_comments(stack),
    decreases stack.len(),
{
    if stack.last() is Comment {
        lemma_shape_bounds_depth(stack.drop_last());
    }
}

/// Offering a token to a well-shaped stack leaves a well-shaped stack, adds
/// a comment only for a keyword that starts one, and never finds the stack
/// empty. The one fault it can meet is the end of an include declaration,
/// which the program body has no rule for taking in.
pub proof fn lemma_offer_keeps_shape(stack: Seq<ScopeContextView>, token: TokenTypeView)
    requires
        well_shaped(stack),
    ensures
        well_shaped(machine::offered(stack, token).stack),
        machine::offered(stack, token).fault is Some ==> {
            &&& machine::offered(stack, token).fault == Some(StackFault::NoMergeRule)
            &&& machine::offered(stack, token).stack == stack
            &&& ends_in_include(stack)
            &&& token == TokenTypeView::NewLine
        },
        open_comments(machine::offered(stack, token).stack) <= open_comments(stack)
            + if token.opens_comment() {
            1nat
        } else {
            0nat
        },
{
    let result = machine::offered(stack, token);
    let top = stack.last();
    let rest = stack.drop_last();
    if token.opens_comment() {
        assert(result.stack.drop_last() =~= stack);
    } else if top is Comment {
        assert(well_shaped(rest));
        match top {
            ScopeContextView::Comment(CommentContextView::Started) => {
                assert(result.stack.drop_last() =~= rest);
            },
            _ => {
                if token == TokenTypeView::NewLine {
                    assert(result.stack =~= rest);
                } else {
                    assert(result.stack.drop_last() =~= rest);
                }
            },
        }
    } else {
        assert(code_shaped(stack));
        assert(open_comments(stack) == 0);
        assert(code_shaped(result.stack));
        if result.fault is Some {
            assert(result.stack =~= stack);
        }
    }
}

/// One token leaves a well-shaped stack well-shaped, adds a comment only
/// where it is a keyword that starts one, and never finds the stack empty.
/// The one fault it can meet is the end of an include declaration.
pub proof fn lemma_step_keeps_shape(stack: Seq<ScopeContextView>, token: TokenTypeView)
    requires
        well_shaped(stack),
    ensures
        well_shaped(machine::stepped(stack, token).stack),
        machine::stepped(stack, token).fault is Some ==> {
            &&& machine::stepped(stack, token).fault == Some(StackFault::NoMergeRule)
            &&& machine::stepped(stack, token).stack == stack
            &&& ends_in_include(stack)
            &&& token == TokenTypeView::NewLine
        },
        open_comments(machine::stepped(stack, token).stack) <= open_comments(stack)
            + if token.opens_comment() {
            1nat
        } else {
            0nat
        },
{
    lemma_offer_keeps_shape(stack, token);
    let first = machine::offered(stack, token);
    if first.fault is None && machine::resumes_parent(stack, token) {
        lemma_offer_keeps_shape(first.stack, token);
    }
}

/// Whatever the tokens, the stack stays well-shaped and holds no more
/// comments than the tokens have started. The machine stops on a fault
/// only at the end of an include declaration.
pub proof fn lemma_run_keeps_shape(tokens: Seq<TokenView>)
    ensures
        well_shaped(machine::machine_run(tokens).stack),
        open_comments(machine::machine_run(tokens).stack) <= comment_openers(tokens),
        machine::machine_run(tokens).fault is Some ==> {
            &&& machine::machine_run(tokens).fault == Some(StackFault::NoMergeRule)
            &&& ends_in_include(machine::machine_run(tokens).stack)
        },
    decreases tokens.len(),
{
    if tokens.len() > 0 {
        lemma_run_keeps_shape(tokens.drop_last());
        let before = machine::machine_run(tokens.drop_last());
        if before.fault is None {
            lemma_step_keeps_shape(before.stack, tokens.last().t_type);
        }
    }
}

/// Stack depth: after every part of a token sequence that the parser has
/// read, its stack holds at least one context, and at most three more than
/// the comments that the tokens read so far have started.
pub proof fn lemma_stack_depth(tokens: Seq<TokenView>, read: int)
    requires
        0 <= read <= tokens.len(),
    ensures
        1 <= machine::machine_run(tokens.take(read)).stack.len() <= 3
            + comment_openers(tokens.take(read)),
        machine::machine_run(tokens.take(read)).fault != Some(
            StackFault::EmptyStack,
        ),
{
    lemma_run_keeps_shape(tokens.take(read));
    lemma_shape_bounds_depth(machine::machine_run(tokens.take(read)).stack);
}

/// The machine stops on a fault only where the line of a complete include
/// declaration ends: the program body has no rule for taking the
/// declaration in. The stack is then left as the line break found it.
pub proof fn lemma_fault_ends_include(tokens: Seq<TokenView>)
    requires
        machine::machine_run(tokens).fault is Some,
    ensures
        machine::machine_run(tokens).fault == Some(StackFault::NoMergeRule),
        ends_in_include(machine::machine_run(tokens).stack),
{
    lemma_run_keeps_shape(tokens);
}

/// Whether `result` is what [`crate::parser::process_tokens`] returns for
/// `tokens`, by its contract.
pub open spec fn parses_to(tokens: Vec<Token>, result: Result<LolCodeProgram, ParseError>) -> bool {
    crate::parser::parse_result_view(result) == crate::parser::parse_outcome(tokens.deep_view())
}

/// Parsing the same tokens twice yields equal programs, or equal
/// diagnostics: the result of a parse depends on nothing but the tokens.
pub proof fn lemma_parse_is_repeatable(
    tokens: Vec<Token>,
    again: Vec<Token>,
    first: Result<LolCodeProgram, ParseError>,
    second: Result<LolCodeProgram, ParseError>,
)
    requires
        tokens.deep_view() == again.deep_view(),
        parses_to(tokens, first),
        parses_to(again, second),
    ensures
        crate::parser::parse_result_view(first) == crate::parser::parse_result_view(second),
{
}

} // verus!
