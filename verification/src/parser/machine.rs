//! The stack machine: how a reaction changes the stack, and what a whole
//! token sequence leaves behind.
use vstd::prelude::*;

use crate::framework::DiagnosticView;
use crate::parser::program::{Instruction, InstructionView};
use crate::parser::scope::{
    CommentContext, CommentContextView, ExprContext, ExprContextView, JoinContext, MainContext,
    MainContextView, ScopeContext, ScopeContextView,
};
use crate::parser::{StackOp, StackOpView};
use crate::tokenizer::{KeywordToken, Token, TokenType, TokenTypeView, TokenView};

verus! {

/// A state of the stack that no rule covers. No token sequence empties the
/// stack; see `lemma_stack_depth`.
#[derive(Debug, Clone, Copy, PartialEq, Eq)]
pub enum StackFault {
    /// A context was needed and the stack held none.
    EmptyStack,
    /// A context finished on top of one that has no rule for taking it in.
    NoMergeRule,
}

/// The parent once a finished child has gone into it, where a rule says so:
/// a print statement becomes a statement of the program body, a string
/// literal becomes an argument of its print statement, and a closed join or
/// a comment leaves its parent as it was.
pub open spec fn merged(parent: ScopeContextView, child: ScopeContextView) -> Option<
    ScopeContextView,
> {
    match child {
        ScopeContextView::Comment(CommentContextView::InProgress(_)) => Some(parent),
        ScopeContextView::Main(MainContextView::Expr(ExprContextView::Visible { args })) => {
            match parent {
                ScopeContextView::Main(MainContextView::Root { version, instrs }) => Some(
                    ScopeContextView::Main(
                        MainContextView::Root {
                            version,
                            instrs: instrs.push(InstructionView::Visible { args }),
                        },
                    ),
                ),
                _ => None,
            }
        },
        ScopeContextView::Main(MainContextView::Expr(ExprContextView::String(text))) => {
            match parent {
                ScopeContextView::Main(MainContextView::Expr(ExprContextView::Visible { args })) => {
                    Some(
                        ScopeContextView::Main(
                            MainContextView::Expr(ExprContextView::Visible { args: args.push(text) }),
                        ),
                    )
                },
                _ => None,
            }
        },
        ScopeContextView::Main(
            MainContextView::Expr(ExprContextView::Join(JoinContext::NewLine)),
        ) => {
            match parent {
                ScopeContextView::Main(MainContextView::Expr(ExprContextView::Visible { .. })) => {
                    Some(parent)
                },
                _ => None,
            }
        },
        _ => None,
    }
}

/// Merges `child` into `parent` as [`merged`] says, or hands both back
/// where no rule applies.
fn merge(parent: ScopeContext, child: ScopeContext) -> (result: Result<
    ScopeContext,
    (ScopeContext, ScopeContext),
>)
    ensures
        match merged(parent@, child@) {
            Some(joined) => result matches Ok(context) && context@ == joined,
            None => result matches Err(pair) && pair.0@ == parent@ && pair.1@ == child@,
        },
{
    match child {
        ScopeContext::Comment(CommentContext::InProgress(_)) => Ok(parent),
        ScopeContext::Main(MainContext::Expr(ExprContext::Visible { args })) => match parent {
            ScopeContext::Main(MainContext::Root { version, instrs }) => {
                let mut instrs = instrs;
                let ghost before = instrs.deep_view();
                let ghost statement = InstructionView::Visible { args: args.deep_view() };
                instrs.push(Instruction::Visible { args });
                assert(instrs.deep_view() =~= before.push(statement));
                Ok(ScopeContext::Main(MainContext::Root { version, instrs }))
            },
            other => Err((other, ScopeContext::Main(MainContext::Expr(ExprContext::Visible { args })))),
        },
        ScopeContext::Main(MainContext::Expr(ExprContext::String(string))) => match parent {
            ScopeContext::Main(MainContext::Expr(ExprContext::Visible { args })) => {
                let mut args = args;
                let ghost before = args.deep_view();
                let ghost text = string@;
                args.push(string.0);
                assert(args.deep_view() =~= before.push(text));
                Ok(ScopeContext::Main(MainContext::Expr(ExprContext::Visible { args })))
            },
            other => Err((other, ScopeContext::Main(MainContext::Expr(ExprContext::String(string))))),
        },
        ScopeContext::Main(MainContext::Expr(ExprContext::Join(JoinContext::NewLine))) => {
            match parent {
                ScopeContext::Main(MainContext::Expr(ExprContext::Visible { args })) => Ok(
                    ScopeContext::Main(MainContext::Expr(ExprContext::Visible { args })),
                ),
                other => Err(
                    (
                        other,
                        ScopeContext::Main(MainContext::Expr(ExprContext::Join(JoinContext::NewLine))),
                    ),
                ),
            }
        },
        other => Err((parent, other)),
    }
}

/// A stack after a stack operation, and the fault where it could not be
/// applied.
pub struct Applied {
    pub stack: Seq<ScopeContextView>,
    pub fault: Option<StackFault>,
}

/// The effect of `op` on the stack `rest`, from which `context` was taken
/// to react. Where the operation cannot be applied, `context` is put back
/// and the fault is named.
pub open spec fn applied(
    rest: Seq<ScopeContextView>,
    context: ScopeContextView,
    op: StackOpView,
) -> Applied {
    match op {
        StackOpView::Unwind => {
            if rest.len() == 0 {
                Applied { stack: rest.push(context), fault: Some(StackFault::EmptyStack) }
            } else {
                match merged(rest.last(), context) {
                    Some(parent) => Applied { stack: rest.drop_last().push(parent), fault: None },
                    None => Applied {
                        stack: rest.push(context),
                        fault: Some(StackFault::NoMergeRule),
                    },
                }
            }
        },
        StackOpView::Retain(None) => Applied { stack: rest.push(context), fault: None },
        StackOpView::Retain(Some(child)) => Applied {
            stack: rest.push(context).push(child),
            fault: None,
        },
        StackOpView::Replace(next) => Applied { stack: rest.push(next), fault: None },
    }
}

/// The view of the result of [`execute_stack_op`].
pub open spec fn fault_of(result: Result<(), StackFault>) -> Option<StackFault> {
    match result {
        Ok(_) => None,
        Err(fault) => Some(fault),
    }
}

/// Applies `op` to `ctx_stack`, from which `context` was taken to react, as
/// [`applied`] says.
pub fn execute_stack_op(op: StackOp, ctx_stack: &mut Vec<ScopeContext>, context: ScopeContext) -> (result:
    Result<(), StackFault>)
    ensures
        final(ctx_stack).deep_view() == applied(old(ctx_stack).deep_view(), context@, op@).stack,
        fault_of(result) == applied(old(ctx_stack).deep_view(), context@, op@).fault,
{
    let ghost rest = ctx_stack.deep_view();
    let ghost current = context@;
    match op {
        StackOp::Unwind => {
            match ctx_stack.pop() {
                None => {
                    ctx_stack.push(context);
                    assert(ctx_stack.deep_view() =~= rest.push(current));
                    Err(StackFault::EmptyStack)
                },
                Some(parent) => {
                    let ghost below = ctx_stack.deep_view();
                    assert(below =~= rest.drop_last());
                    assert(parent@ == rest.last());
                    match merge(parent, context) {
                        Ok(joined) => {
                            let ghost joined_view = joined@;
                            ctx_stack.push(joined);
                            assert(ctx_stack.deep_view() =~= below.push(joined_view));
                            Ok(())
                        },
                        Err(pair) => {
                            ctx_stack.push(pair.0);
                            ctx_stack.push(pair.1);
                            assert(ctx_stack.deep_view() =~= rest.push(current));
                            Err(StackFault::NoMergeRule)
                        },
                    }
                },
            }
        },
        StackOp::Retain(next) => {
            ctx_stack.push(context);
            assert(ctx_stack.deep_view() =~= rest.push(current));
            match next {
                Some(child) => {
                    let ghost child_view = child@;
                    ctx_stack.push(child);
                    assert(ctx_stack.deep_view() =~= rest.push(current).push(child_view));
                },
                None => {},
            }
            Ok(())
        },
        StackOp::Replace(next) => {
            let ghost next_view = next@;
            ctx_stack.push(next);
            assert(ctx_stack.deep_view() =~= rest.push(next_view));
            Ok(())
        },
    }
}

/// What offering a token to a stack leaves behind.
pub struct Offered {
    pub stack: Seq<ScopeContextView>,
    /// The wording of the diagnostic, where the token did not fit.
    pub diagnostic: Option<Seq<char>>,
    pub fault: Option<StackFault>,
}

/// Offers `token` to the context on top of `stack`.
///
/// A keyword that starts a comment is not shown to the context: it enters a
/// fresh comment on top of it. Any other token is shown to the context, and
/// the stack operation it answers with is applied. A diagnostic counts only
/// where the operation could be applied.
pub open spec fn offered(stack: Seq<ScopeContextView>, token: TokenTypeView) -> Offered {
    if stack.len() == 0 {
        Offered { stack, diagnostic: None, fault: Some(StackFault::EmptyStack) }
    } else if token.opens_comment() {
        Offered {
            stack: stack.push(ScopeContextView::Comment(CommentContextView::Started)),
            diagnostic: None,
            fault: None,
        }
    } else {
        let reaction = stack.last().react(token);
        let outcome = applied(stack.drop_last(), stack.last().after(token), reaction.op);
        Offered {
            stack: outcome.stack,
            diagnostic: if outcome.fault is None {
                reaction.diagnostic
            } else {
                None
            },
            fault: outcome.fault,
        }
    }
}

/// Whether `token` closes a join on top of `stack` and is then to be
/// handled by the statement that the join stands in: any token but a line
/// break does so, once the join has seen its own line break.
pub open spec fn resumes_parent(stack: Seq<ScopeContextView>, token: TokenTypeView) -> bool {
    &&& stack.len() > 0
    &&& stack.last() == JoinContext::NewLine.scope()
    &&& token != TokenTypeView::NewLine
    &&& !token.opens_comment()
}

/// The effect of one token on the stack: it is offered to the context on
/// top, and where it closes a join it is offered once more, to the context
/// that the join has uncovered.
pub open spec fn stepped(stack: Seq<ScopeContextView>, token: TokenTypeView) -> Offered {
    let first = offered(stack, token);
    if first.fault is None && resumes_parent(stack, token) {
        offered(first.stack, token)
    } else {
        first
    }
}

/// The view of what [`advance`] returns.
pub open spec fn advance_view(result: Result<Option<String>, StackFault>) -> (
    Option<Seq<char>>,
    Option<StackFault>,
) {
    match result {
        Ok(diagnostic) => (diagnostic.deep_view(), None),
        Err(fault) => (None, Some(fault)),
    }
}

fn opens_comment(token: &Token) -> (opens: bool)
    ensures
        opens == token@.t_type.opens_comment(),
{
    match &token.t_type {
        TokenType::Keyword(KeywordToken::Btw) => true,
        TokenType::Keyword(KeywordToken::OBtw) => true,
        _ => false,
    }
}

fn is_newline(token: &Token) -> (newline: bool)
    ensures
        newline == (token@.t_type == TokenTypeView::NewLine),
{
    match &token.t_type {
        TokenType::NewLine => true,
        _ => false,
    }
}

fn is_closed_join(context: &ScopeContext) -> (closed: bool)
    ensures
        closed == (context@ == JoinContext::NewLine.scope()),
{
    match context {
        ScopeContext::Main(MainContext::Expr(ExprContext::Join(JoinContext::NewLine))) => true,
        _ => false,
    }
}

/// Offers `token` to the context on top of `ctx_stack`, as [`offered`] says.
fn offer(ctx_stack: &mut Vec<ScopeContext>, token: &Token) -> (result: Result<
    Option<String>,
    StackFault,
>)
    ensures
        final(ctx_stack).deep_view() == offered(old(ctx_stack).deep_view(), token@.t_type).stack,
        advance_view(result) == (
            offered(old(ctx_stack).deep_view(), token@.t_type).diagnostic,
            offered(old(ctx_stack).deep_view(), token@.t_type).fault,
        ),
{
    let ghost stack = ctx_stack.deep_view();
    match ctx_stack.pop() {
        None => {
            assert(ctx_stack.deep_view() =~= stack);
            Err(StackFault::EmptyStack)
        },
        Some(context) => {
            let mut context = context;
            assert(ctx_stack.deep_view() =~= stack.drop_last());
            assert(context@ == stack.last());
            if opens_comment(token) {
                ctx_stack.push(context);
                ctx_stack.push(ScopeContext::Comment(CommentContext::Started));
                assert(ctx_stack.deep_view() =~= stack.push(
                    ScopeContextView::Comment(CommentContextView::Started),
                ));
                Ok(None)
            } else {
                let (op, diagnostic) = context.process_token(token);
                match execute_stack_op(op, ctx_stack, context) {
                    Ok(()) => Ok(diagnostic),
                    Err(fault) => Err(fault),
                }
            }
        },
    }
}

/// Lets the stack machine take one token, as [`stepped`] says: the stack is
/// changed, and the wording of a diagnostic is returned where the token did
/// not fit.
pub fn advance(ctx_stack: &mut Vec<ScopeContext>, token: &Token) -> (result: Result<
    Option<String>,
    StackFault,
>)
    ensures
        final(ctx_stack).deep_view() == stepped(old(ctx_stack).deep_view(), token@.t_type).stack,
        advance_view(result) == (
            stepped(old(ctx_stack).deep_view(), token@.t_type).diagnostic,
            stepped(old(ctx_stack).deep_view(), token@.t_type).fault,
        ),
{
    let depth: usize = ctx_stack.len();
    let resumes = depth > 0 && is_closed_join(&ctx_stack[depth - 1]) && !is_newline(token)
        && !opens_comment(token);
    match offer(ctx_stack, token) {
        Err(fault) => Err(fault),
        Ok(diagnostic) => {
            if resumes {
                offer(ctx_stack, token)
            } else {
                Ok(diagnostic)
            }
        },
    }
}

/// The state of a parse between two tokens.
pub struct MachineState {
    pub stack: Seq<ScopeContextView>,
    /// The diagnostics recorded so far, in source order.
    pub diagnostics: Seq<DiagnosticView>,
    /// The fault that stopped the machine, where one did.
    pub fault: Option<StackFault>,
}

/// The state before the first token: the stack holds the context that
/// waits for the header.
pub open spec fn machine_start() -> MachineState {
    MachineState {
        stack: seq![ScopeContextView::Main(MainContextView::Pre)],
        diagnostics: Seq::empty(),
        fault: None,
    }
}

/// The effect of one token on a parse. A machine that a fault has stopped
/// takes no more tokens.
pub open spec fn machine_step(state: MachineState, token: TokenView) -> MachineState {
    if state.fault is Some {
        state
    } else {
        let step = stepped(state.stack, token.t_type);
        MachineState {
            stack: step.stack,
            diagnostics: match step.diagnostic {
                Some(message) => state.diagnostics.push(
                    DiagnosticView { location: Some(token.location), message },
                ),
                None => state.diagnostics,
            },
            fault: step.fault,
        }
    }
}

/// The state of a parse after all of `tokens`.
pub open spec fn machine_run(tokens: Seq<TokenView>) -> MachineState
    decreases tokens.len(),
{
    if tokens.len() == 0 {
        machine_start()
    } else {
        machine_step(machine_run(tokens.drop_last()), tokens.last())
    }
}

/// Once a fault has stopped the machine, more tokens change nothing.
pub proof fn lemma_fault_is_final(tokens: Seq<TokenView>, seen: int)
    requires
        0 <= seen <= tokens.len(),
        machine_run(tokens.take(seen)).fault is Some,
    ensures
        machine_run(tokens) == machine_run(tokens.take(seen)),
    decreases tokens.len() - seen,
{
    if seen == tokens.len() {
        assert(tokens.take(seen) =~= tokens);
    } else {
        assert(tokens.drop_last().take(seen) =~= tokens.take(seen));
        lemma_fault_is_final(tokens.drop_last(), seen);
    }
}

/// Diagnostics are only ever added: what a part of the tokens has brought
/// is still recorded after all of them.
pub proof fn lemma_diagnostics_grow(tokens: Seq<TokenView>, seen: int)
    requires
        0 <= seen <= tokens.len(),
    ensures
        machine_run(tokens.take(seen)).diagnostics.is_prefix_of(machine_run(tokens).diagnostics),
    decreases tokens.len() - seen,
{
    if seen == tokens.len() {
        assert(tokens.take(seen) =~= tokens);
    } else {
        assert(tokens.drop_last().take(seen) =~= tokens.take(seen));
        lemma_diagnostics_grow(tokens.drop_last(), seen);
    }
}

} // verus!
