//! The contexts that the parser stacks, and how each reacts to a token.
//!
//! A reaction is a [`StackOp`] for the driver and, where the token does not
//! fit, the wording of a diagnostic. A context that gathers text (a string
//! literal, a comment) takes the token's text in as it reacts.
use vstd::prelude::*;
use vstd::string::*;

use crate::parser::program::{
    clone_instructions, Instruction, InstructionView, LolCodeProgram, LolCodeProgramView,
};
use crate::parser::version::{self, parse_number, LolCodeVersion};
use crate::parser::{StackOp, StackOpView};
use crate::text::clone_strings;
use crate::tokenizer::{KeywordToken, Token, TokenType, TokenTypeView};

verus! {

/// One frame of the parser's stack: the construct the parser is inside.
#[derive(Debug, PartialEq, Eq)]
pub enum ScopeContext {
    Decoration(DecorationContext),
    Main(MainContext),
    Comment(CommentContext),
}

/// The mathematical model of a [`ScopeContext`].
pub enum ScopeContextView {
    Decoration(DecorationContext),
    Main(MainContextView),
    Comment(CommentContextView),
}

/// The header between its opening keyword and the end of the version.
#[derive(Debug, PartialEq, Eq, Clone, Copy)]
pub enum DecorationContext {
    /// The opening keyword was read.
    Started,
    /// The major version was read.
    WithMajor(i32),
    /// The major version and the period behind it were read.
    WithMajorAndPeriod(i32),
}

/// The program outside of its header.
#[derive(Debug, PartialEq, Eq)]
pub enum MainContext {
    /// Before the header.
    Pre,
    /// The body of the program, with the statements read so far.
    Root { version: LolCodeVersion, instrs: Vec<Instruction> },
    /// Inside a statement.
    Expr(ExprContext),
    /// Behind the closing keyword.
    Complete(LolCodeProgram),
}

/// The mathematical model of a [`MainContext`].
pub enum MainContextView {
    Pre,
    Root { version: LolCodeVersion, instrs: Seq<InstructionView> },
    Expr(ExprContextView),
    Complete(LolCodeProgramView),
}

/// A statement, or a part of one, that is being read.
#[derive(Debug, PartialEq, Eq)]
pub enum ExprContext {
    /// A line continuation inside a print statement.
    Join(JoinContext),
    /// A print statement, with the arguments read so far.
    Visible { args: Vec<String> },
    /// An open string literal.
    String(StringExprContext),
    /// An include declaration.
    Include(IncludesContext),
}

/// The mathematical model of an [`ExprContext`].
pub enum ExprContextView {
    Join(JoinContext),
    Visible { args: Seq<Seq<char>> },
    String(Seq<char>),
    Include(IncludesContextView),
}

/// An open string literal: the text read since the opening quote.
#[derive(Debug, PartialEq, Eq, Default)]
pub struct StringExprContext(pub String);

/// A line continuation: three periods, then a line break.
#[derive(Debug, PartialEq, Eq, Clone, Copy)]
pub enum JoinContext {
    Period1,
    Period2,
    Period3,
    /// The line break was read; the next token closes the join.
    NewLine,
}

/// A comment up to the end of its line.
#[derive(Debug, PartialEq, Eq)]
pub enum CommentContext {
    /// The comment keyword was read.
    Started,
    /// The texts of the tokens read since.
    InProgress(Vec<String>),
}

/// The mathematical model of a [`CommentContext`].
pub enum CommentContextView {
    Started,
    InProgress(Seq<Seq<char>>),
}

/// An include declaration: `CAN`, a space, `HAS`, a space, the module.
#[derive(Debug, PartialEq, Eq)]
pub enum IncludesContext {
    Started,
    ReadyHas,
    Has,
    ReadyModule,
    /// The declaration is complete but for the end of its line.
    Module(String),
}

/// The mathematical model of an [`IncludesContext`].
pub enum IncludesContextView {
    Started,
    ReadyHas,
    Has,
    ReadyModule,
    Module(Seq<char>),
}

impl DeepView for IncludesContext {
    type V = IncludesContextView;

    open spec fn deep_view(&self) -> IncludesContextView {
        match self {
            IncludesContext::Started => IncludesContextView::Started,
            IncludesContext::ReadyHas => IncludesContextView::ReadyHas,
            IncludesContext::Has => IncludesContextView::Has,
            IncludesContext::ReadyModule => IncludesContextView::ReadyModule,
            IncludesContext::Module(module) => IncludesContextView::Module(module@),
        }
    }
}

impl View for IncludesContext {
    type V = IncludesContextView;

    open spec fn view(&self) -> IncludesContextView {
        self.deep_view()
    }
}

impl DeepView for CommentContext {
    type V = CommentContextView;

    open spec fn deep_view(&self) -> CommentContextView {
        match self {
            CommentContext::Started => CommentContextView::Started,
            CommentContext::InProgress(texts) => CommentContextView::InProgress(texts.deep_view()),
        }
    }
}

impl View for CommentContext {
    type V = CommentContextView;

    open spec fn view(&self) -> CommentContextView {
        self.deep_view()
    }
}

impl DeepView for StringExprContext {
    type V = Seq<char>;

    open spec fn deep_view(&self) -> Seq<char> {
        self.0@
    }
}

impl View for StringExprContext {
    type V = Seq<char>;

    open spec fn view(&self) -> Seq<char> {
        self.0@
    }
}

impl DeepView for ExprContext {
    type V = ExprContextView;

    open spec fn deep_view(&self) -> ExprContextView {
        match self {
            ExprContext::Join(join) => ExprContextView::Join(*join),
            ExprContext::Visible { args } => ExprContextView::Visible { args: args.deep_view() },
            ExprContext::String(string) => ExprContextView::String(string@),
            ExprContext::Include(includes) => ExprContextView::Include(includes@),
        }
    }
}

impl View for ExprContext {
    type V = ExprContextView;

    open spec fn view(&self) -> ExprContextView {
        self.deep_view()
    }
}

impl DeepView for MainContext {
    type V = MainContextView;

    open spec fn deep_view(&self) -> MainContextView {
        match self {
            MainContext::Pre => MainContextView::Pre,
            MainContext::Root { version, instrs } => MainContextView::Root {
                version: *version,
                instrs: instrs.deep_view(),
            },
            MainContext::Expr(expr) => MainContextView::Expr(expr@),
            MainContext::Complete(program) => MainContextView::Complete(program@),
        }
    }
}

impl View for MainContext {
    type V = MainContextView;

    open spec fn view(&self) -> MainContextView {
        self.deep_view()
    }
}

impl DeepView for ScopeContext {
    type V = ScopeContextView;

    open spec fn deep_view(&self) -> ScopeContextView {
        match self {
            ScopeContext::Decoration(decoration) => ScopeContextView::Decoration(*decoration),
            ScopeContext::Main(main) => ScopeContextView::Main(main@),
            ScopeContext::Comment(comment) => ScopeContextView::Comment(comment@),
        }
    }
}

impl View for ScopeContext {
    type V = ScopeContextView;

    open spec fn view(&self) -> ScopeContextView {
        self.deep_view()
    }
}

impl Clone for IncludesContext {
    fn clone(&self) -> (copy: IncludesContext)
        ensures
            copy@ == self@,
    {
        match self {
            IncludesContext::Started => IncludesContext::Started,
            IncludesContext::ReadyHas => IncludesContext::ReadyHas,
            IncludesContext::Has => IncludesContext::Has,
            IncludesContext::ReadyModule => IncludesContext::ReadyModule,
            IncludesContext::Module(module) => IncludesContext::Module(module.clone()),
        }
    }
}

impl Clone for StringExprContext {
    fn clone(&self) -> (copy: StringExprContext)
        ensures
            copy@ == self@,
    {
        StringExprContext(self.0.clone())
    }
}

impl Clone for ExprContext {
    fn clone(&self) -> (copy: ExprContext)
        ensures
            copy@ == self@,
    {
        match self {
            ExprContext::Join(join) => ExprContext::Join(*join),
            ExprContext::Visible { args } => ExprContext::Visible { args: clone_strings(args) },
            ExprContext::String(string) => ExprContext::String(string.clone()),
            ExprContext::Include(includes) => ExprContext::Include(includes.clone()),
        }
    }
}

impl From<DecorationContext> for ScopeContext {
    fn from(value: DecorationContext) -> (context: ScopeContext) {
        ScopeContext::Decoration(value)
    }
}

impl vstd::std_specs::convert::FromSpecImpl<DecorationContext> for ScopeContext {
    open spec fn obeys_from_spec() -> bool {
        true
    }

    open spec fn from_spec(value: DecorationContext) -> ScopeContext {
        ScopeContext::Decoration(value)
    }
}

impl From<MainContext> for ScopeContext {
    fn from(value: MainContext) -> (context: ScopeContext) {
        ScopeContext::Main(value)
    }
}

impl vstd::std_specs::convert::FromSpecImpl<MainContext> for ScopeContext {
    open spec fn obeys_from_spec() -> bool {
        true
    }

    open spec fn from_spec(value: MainContext) -> ScopeContext {
        ScopeContext::Main(value)
    }
}

impl From<CommentContext> for ScopeContext {
    fn from(value: CommentContext) -> (context: ScopeContext) {
        ScopeContext::Comment(value)
    }
}

impl vstd::std_specs::convert::FromSpecImpl<CommentContext> for ScopeContext {
    open spec fn obeys_from_spec() -> bool {
        true
    }

    open spec fn from_spec(value: CommentContext) -> ScopeContext {
        ScopeContext::Comment(value)
    }
}

impl From<ExprContext> for ScopeContext {
    fn from(value: ExprContext) -> (context: ScopeContext) {
        ScopeContext::Main(MainContext::Expr(value))
    }
}

impl vstd::std_specs::convert::FromSpecImpl<ExprContext> for ScopeContext {
    open spec fn obeys_from_spec() -> bool {
        true
    }

    open spec fn from_spec(value: ExprContext) -> ScopeContext {
        ScopeContext::Main(MainContext::Expr(value))
    }
}

impl From<StringExprContext> for ScopeContext {
    fn from(value: StringExprContext) -> (context: ScopeContext) {
        ScopeContext::Main(MainContext::Expr(ExprContext::String(value)))
    }
}

impl vstd::std_specs::convert::FromSpecImpl<StringExprContext> for ScopeContext {
    open spec fn obeys_from_spec() -> bool {
        true
    }

    open spec fn from_spec(value: StringExprContext) -> ScopeContext {
        ScopeContext::Main(MainContext::Expr(ExprContext::String(value)))
    }
}

impl From<JoinContext> for ScopeContext {
    fn from(value: JoinContext) -> (context: ScopeContext) {
        ScopeContext::Main(MainContext::Expr(ExprContext::Join(value)))
    }
}

impl vstd::std_specs::convert::FromSpecImpl<JoinContext> for ScopeContext {
    open spec fn obeys_from_spec() -> bool {
        true
    }

    open spec fn from_spec(value: JoinContext) -> ScopeContext {
        ScopeContext::Main(MainContext::Expr(ExprContext::Join(value)))
    }
}

impl From<IncludesContext> for ScopeContext {
    fn from(value: IncludesContext) -> (context: ScopeContext) {
        ScopeContext::Main(MainContext::Expr(ExprContext::Include(value)))
    }
}

impl vstd::std_specs::convert::FromSpecImpl<IncludesContext> for ScopeContext {
    open spec fn obeys_from_spec() -> bool {
        true
    }

    open spec fn from_spec(value: IncludesContext) -> ScopeContext {
        ScopeContext::Main(MainContext::Expr(ExprContext::Include(value)))
    }
}

/// What a context answers to a token: what the driver is to do with the
/// stack, and the wording of a diagnostic where the token does not fit.
pub struct Reaction {
    pub op: StackOpView,
    pub diagnostic: Option<Seq<char>>,
}

impl Reaction {
    /// The context stays as it is and nothing is reported.
    pub open spec fn retain() -> Reaction {
        Reaction { op: StackOpView::Retain(None), diagnostic: None }
    }

    /// The context stays as it is and the token is reported.
    pub open spec fn complain(message: Seq<char>) -> Reaction {
        Reaction { op: StackOpView::Retain(None), diagnostic: Some(message) }
    }

    /// The context stays and `child` is entered on top of it.
    pub open spec fn enter(child: ScopeContextView) -> Reaction {
        Reaction { op: StackOpView::Retain(Some(child)), diagnostic: None }
    }

    /// The context gives way to `next`.
    pub open spec fn replace(next: ScopeContextView) -> Reaction {
        Reaction { op: StackOpView::Replace(next), diagnostic: None }
    }

    /// The context is finished and goes into the one beneath it.
    pub open spec fn unwind() -> Reaction {
        Reaction { op: StackOpView::Unwind, diagnostic: None }
    }
}

/// The model of what a `process_token` returns.
pub open spec fn reaction_of(answer: (StackOp, Option<String>)) -> Reaction {
    Reaction { op: answer.0@, diagnostic: answer.1.deep_view() }
}

fn retain() -> (answer: (StackOp, Option<String>))
    ensures
        reaction_of(answer) == Reaction::retain(),
{
    (StackOp::Retain(None), None)
}

fn complain(message: &str) -> (answer: (StackOp, Option<String>))
    ensures
        reaction_of(answer) == Reaction::complain(message@),
{
    (StackOp::Retain(None), Some(String::from_str(message)))
}

fn enter(child: ScopeContext) -> (answer: (StackOp, Option<String>))
    ensures
        reaction_of(answer) == Reaction::enter(child@),
{
    (StackOp::Retain(Some(child)), None)
}

fn replace(next: ScopeContext) -> (answer: (StackOp, Option<String>))
    ensures
        reaction_of(answer) == Reaction::replace(next@),
{
    (StackOp::Replace(next), None)
}

fn unwind() -> (answer: (StackOp, Option<String>))
    ensures
        reaction_of(answer) == Reaction::unwind(),
{
    (StackOp::Unwind, None)
}

impl DecorationContext {
    /// The header takes a major version, a period and a minor version, in
    /// this order. Before the major version, whatever is neither a keyword
    /// nor a word is passed over; behind it, every token counts.
    pub open spec fn react(self, token: TokenTypeView) -> Reaction {
        match self {
            DecorationContext::Started => match token {
                TokenTypeView::Keyword(_) => Reaction::complain(
                    "Unexpected keyword. Expected major version"@,
                ),
                TokenTypeView::Word(word) => match version::decimal_i32(word) {
                    Some(major) => Reaction::replace(
                        ScopeContextView::Decoration(DecorationContext::WithMajor(major)),
                    ),
                    None => Reaction::complain("Unable to parse major version"@),
                },
                _ => Reaction::retain(),
            },
            DecorationContext::WithMajor(major) => match token {
                TokenTypeView::Period => Reaction::replace(
                    ScopeContextView::Decoration(DecorationContext::WithMajorAndPeriod(major)),
                ),
                _ => Reaction::complain("Unexpected token. Expected period"@),
            },
            DecorationContext::WithMajorAndPeriod(major) => match token {
                TokenTypeView::Word(word) => match version::decimal_i32(word) {
                    Some(minor) => Reaction::replace(
                        ScopeContextView::Main(
                            MainContextView::Root {
                                version: LolCodeVersion { major, minor },
                                instrs: Seq::empty(),
                            },
                        ),
                    ),
                    None => Reaction::complain("Unable to parse minor version"@),
                },
                _ => Reaction::complain("Unexpected token. Expected minor version"@),
            },
        }
    }

    /// Reacts to `token` as [`DecorationContext::react`] says.
    pub fn process_token(&self, token: &Token) -> (answer: (StackOp, Option<String>))
        ensures
            reaction_of(answer) == self.react(token@.t_type),
    {
        match self {
            DecorationContext::Started => match &token.t_type {
                TokenType::Keyword(_) => complain("Unexpected keyword. Expected major version"),
                TokenType::Word(word) => match parse_number(word.as_str()) {
                    Some(major) => replace(DecorationContext::WithMajor(major).into()),
                    None => complain("Unable to parse major version"),
                },
                _ => retain(),
            },
            DecorationContext::WithMajor(major) => match &token.t_type {
                TokenType::Period => replace(DecorationContext::WithMajorAndPeriod(*major).into()),
                _ => complain("Unexpected token. Expected period"),
            },
            DecorationContext::WithMajorAndPeriod(major) => match &token.t_type {
                TokenType::Word(word) => match parse_number(word.as_str()) {
                    Some(minor) => {
                        let instrs: Vec<Instruction> = Vec::new();
                        assert(instrs.deep_view() =~= Seq::<InstructionView>::empty());
                        replace(
                            MainContext::Root {
                                version: LolCodeVersion::from((*major, minor)),
                                instrs,
                            }.into(),
                        )
                    },
                    None => complain("Unable to parse minor version"),
                },
                _ => complain("Unexpected token. Expected minor version"),
            },
        }
    }
}

impl JoinContext {
    /// A join takes two more periods and a line break. Once the line break
    /// is read, any token closes the join; a second line break is reported.
    pub open spec fn react(self, token: TokenTypeView) -> Reaction {
        match self {
            JoinContext::Period1 => match token {
                TokenTypeView::Period => Reaction::replace(JoinContext::Period2.scope()),
                _ => Reaction::complain("Unexpected token. Expected '.'"@),
            },
            JoinContext::Period2 => match token {
                TokenTypeView::Period => Reaction::replace(JoinContext::Period3.scope()),
                _ => Reaction::complain("Unexpected token. Expected '.'"@),
            },
            JoinContext::Period3 => match token {
                TokenTypeView::NewLine => Reaction::replace(JoinContext::NewLine.scope()),
                _ => Reaction::complain("Unexpected token. Expected newline"@),
            },
            JoinContext::NewLine => match token {
                TokenTypeView::NewLine => Reaction {
                    op: StackOpView::Unwind,
                    diagnostic: Some("Invalid blank line after join"@),
                },
                _ => Reaction::unwind(),
            },
        }
    }

    /// The join as a frame of the stack.
    pub open spec fn scope(self) -> ScopeContextView {
        ScopeContextView::Main(MainContextView::Expr(ExprContextView::Join(self)))
    }

    /// Reacts to `token` as [`JoinContext::react`] says.
    pub fn process_token(&self, token: &Token) -> (answer: (StackOp, Option<String>))
        ensures
            reaction_of(answer) == self.react(token@.t_type),
    {
        match self {
            JoinContext::Period1 => match &token.t_type {
                TokenType::Period => replace(JoinContext::Period2.into()),
                _ => complain("Unexpected token. Expected '.'"),
            },
            JoinContext::Period2 => match &token.t_type {
                TokenType::Period => replace(JoinContext::Period3.into()),
                _ => complain("Unexpected token. Expected '.'"),
            },
            JoinContext::Period3 => match &token.t_type {
                TokenType::NewLine => replace(JoinContext::NewLine.into()),
                _ => complain("Unexpected token. Expected newline"),
            },
            JoinContext::NewLine => match &token.t_type {
                TokenType::NewLine => (
                    StackOp::Unwind,
                    Some(String::from_str("Invalid blank line after join")),
                ),
                _ => unwind(),
            },
        }
    }
}

impl StringExprContext {
    /// A quote closes the literal. A line break closes it too, and is
    /// reported. The text of any other token becomes part of the literal.
    pub open spec fn react(text: Seq<char>, token: TokenTypeView) -> Reaction {
        match token {
            TokenTypeView::NewLine => Reaction {
                op: StackOpView::Unwind,
                diagnostic: Some("Unexpected newline in string"@),
            },
            TokenTypeView::Quote => Reaction::unwind(),
            _ => Reaction::retain(),
        }
    }

    /// The literal's text once it has seen `token`.
    pub open spec fn after(text: Seq<char>, token: TokenTypeView) -> Seq<char> {
        match token {
            TokenTypeView::NewLine => text,
            TokenTypeView::Quote => text,
            _ => text + token.text(),
        }
    }

    /// Reacts to `token` as [`StringExprContext::react`] says, and takes its
    /// text in as [`StringExprContext::after`] says.
    pub fn process_token(&mut self, token: &Token) -> (answer: (StackOp, Option<String>))
        ensures
            reaction_of(answer) == StringExprContext::react(old(self)@, token@.t_type),
            final(self)@ == StringExprContext::after(old(self)@, token@.t_type),
    {
        match &token.t_type {
            TokenType::NewLine => (
                StackOp::Unwind,
                Some(String::from_str("Unexpected newline in string")),
            ),
            TokenType::Quote => unwind(),
            other => {
                let text = other.to_string();
                self.0.append(text.as_str());
                retain()
            },
        }
    }
}

impl IncludesContextView {
    /// An include declaration takes a space, `HAS`, a space and a word, in
    /// this order. Behind the word, spaces may follow, and a line break
    /// finishes the declaration.
    pub open spec fn react(self, token: TokenTypeView) -> Reaction {
        match self {
            IncludesContextView::Started => match token {
                TokenTypeView::Space => Reaction::replace(IncludesContextView::ReadyHas.scope()),
                _ => Reaction::complain("Unexpected token in include"@),
            },
            IncludesContextView::ReadyHas => match token {
                TokenTypeView::Keyword(KeywordToken::Has) => Reaction::replace(
                    IncludesContextView::Has.scope(),
                ),
                _ => Reaction::complain("Unexpected token in include"@),
            },
            IncludesContextView::Has => match token {
                TokenTypeView::Space => Reaction::replace(IncludesContextView::ReadyModule.scope()),
                _ => Reaction::complain("Unexpected token in include"@),
            },
            IncludesContextView::ReadyModule => match token {
                TokenTypeView::Word(module) => Reaction::replace(
                    IncludesContextView::Module(module).scope(),
                ),
                _ => Reaction::complain("Expected module name"@),
            },
            IncludesContextView::Module(_) => match token {
                TokenTypeView::NewLine => Reaction::unwind(),
                TokenTypeView::Space => Reaction::retain(),
                _ => Reaction::complain("Unexpected token in include"@),
            },
        }
    }

    /// The declaration as a frame of the stack.
    pub open spec fn scope(self) -> ScopeContextView {
        ScopeContextView::Main(MainContextView::Expr(ExprContextView::Include(self)))
    }
}

impl IncludesContext {
    /// Reacts to `token` as [`IncludesContextView::react`] says.
    pub fn process_token(&self, token: &Token) -> (answer: (StackOp, Option<String>))
        ensures
            reaction_of(answer) == self@.react(token@.t_type),
    {
        match self {
            IncludesContext::Started => match &token.t_type {
                TokenType::Space => replace(IncludesContext::ReadyHas.into()),
                _ => complain("Unexpected token in include"),
            },
            IncludesContext::ReadyHas => match &token.t_type {
                TokenType::Keyword(KeywordToken::Has) => replace(IncludesContext::Has.into()),
                _ => complain("Unexpected token in include"),
            },
            IncludesContext::Has => match &token.t_type {
                TokenType::Space => replace(IncludesContext::ReadyModule.into()),
                _ => complain("Unexpected token in include"),
            },
            IncludesContext::ReadyModule => match &token.t_type {
                TokenType::Word(module) => replace(IncludesContext::Module(module.clone()).into()),
                _ => complain("Expected module name"),
            },
            IncludesContext::Module(_) => match &token.t_type {
                TokenType::NewLine => unwind(),
                TokenType::Space => retain(),
                _ => complain("Unexpected token in include"),
            },
        }
    }
}

impl CommentContextView {
    /// A comment takes every token up to the next line break, which ends
    /// it. The token right behind the comment keyword is taken whatever it
    /// is, a line break too.
    pub open spec fn react(self, token: TokenTypeView) -> Reaction {
        match self {
            CommentContextView::Started => Reaction::replace(
                ScopeContextView::Comment(CommentContextView::InProgress(seq![token.text()])),
            ),
            CommentContextView::InProgress(_) => match token {
                TokenTypeView::NewLine => Reaction::unwind(),
                _ => Reaction::retain(),
            },
        }
    }

    /// The comment once it has seen `token`.
    pub open spec fn after(self, token: TokenTypeView) -> CommentContextView {
        match self {
            CommentContextView::Started => self,
            CommentContextView::InProgress(texts) => match token {
                TokenTypeView::NewLine => self,
                _ => CommentContextView::InProgress(texts.push(token.text())),
            },
        }
    }
}

impl CommentContext {
    /// Reacts to `token` as [`CommentContextView::react`] says, and takes
    /// its text in as [`CommentContextView::after`] says.
    pub fn process_token(&mut self, token: &Token) -> (answer: (StackOp, Option<String>))
        ensures
            reaction_of(answer) == old(self)@.react(token@.t_type),
            final(self)@ == old(self)@.after(token@.t_type),
    {
        match self {
            CommentContext::Started => {
                let mut texts: Vec<String> = Vec::new();
                texts.push(token.t_type.to_string());
                assert(texts.deep_view() =~= seq![token@.t_type.text()]);
                replace(CommentContext::InProgress(texts).into())
            },
            CommentContext::InProgress(texts) => match &token.t_type {
                TokenType::NewLine => unwind(),
                other => {
                    let ghost before = texts.deep_view();
                    texts.push(other.to_string());
                    assert(texts.deep_view() =~= before.push(token@.t_type.text()));
                    retain()
                },
            },
        }
    }
}

impl ExprContextView {
    /// A print statement takes string literals, joins and spaces; a comma or
    /// a line break finishes it. The other contexts react as their own
    /// rules say.
    pub open spec fn react(self, token: TokenTypeView) -> Reaction {
        match self {
            ExprContextView::Visible { args } => match token {
                TokenTypeView::NewLine => Reaction::unwind(),
                TokenTypeView::Comma => Reaction::unwind(),
                TokenTypeView::Quote => Reaction::enter(
                    ScopeContextView::Main(
                        MainContextView::Expr(ExprContextView::String(Seq::empty())),
                    ),
                ),
                TokenTypeView::Space => Reaction::retain(),
                TokenTypeView::Period => Reaction::enter(JoinContext::Period1.scope()),
                _ => Reaction::complain("Unexpected token in VISIBLE"@),
            },
            ExprContextView::String(text) => StringExprContext::react(text, token),
            ExprContextView::Join(join) => join.react(token),
            ExprContextView::Include(includes) => includes.react(token),
        }
    }

    /// The context once it has seen `token`.
    pub open spec fn after(self, token: TokenTypeView) -> ExprContextView {
        match self {
            ExprContextView::String(text) => ExprContextView::String(
                StringExprContext::after(text, token),
            ),
            _ => self,
        }
    }
}

impl ExprContext {
    /// Reacts to `token` as [`ExprContextView::react`] says, and takes its
    /// text in as [`ExprContextView::after`] says.
    pub fn process_token(&mut self, token: &Token) -> (answer: (StackOp, Option<String>))
        ensures
            reaction_of(answer) == old(self)@.react(token@.t_type),
            final(self)@ == old(self)@.after(token@.t_type),
    {
        match self {
            ExprContext::Visible { .. } => match &token.t_type {
                TokenType::NewLine => unwind(),
                TokenType::Comma => unwind(),
                TokenType::Quote => enter(StringExprContext(String::new()).into()),
                TokenType::Space => retain(),
                TokenType::Period => enter(JoinContext::Period1.into()),
                _ => complain("Unexpected token in VISIBLE"),
            },
            ExprContext::String(string_ctx) => string_ctx.process_token(token),
            ExprContext::Join(join_ctx) => join_ctx.process_token(token),
            ExprContext::Include(includes) => includes.process_token(token),
        }
    }
}

impl MainContextView {
    /// Before the header only its opening keyword is taken. The body takes
    /// keywords, as [`MainContextView::root_keyword`] says. Behind the
    /// closing keyword nothing more is taken. Spaces and line breaks may
    /// stand in all three places.
    pub open spec fn react(self, token: TokenTypeView) -> Reaction {
        match self {
            MainContextView::Pre => match token {
                TokenTypeView::Keyword(KeywordToken::Hai) => Reaction::replace(
                    ScopeContextView::Decoration(DecorationContext::Started),
                ),
                TokenTypeView::Space => Reaction::retain(),
                TokenTypeView::NewLine => Reaction::retain(),
                _ => Reaction::complain("Unexpected token. Expected HAI"@),
            },
            MainContextView::Root { version, instrs } => match token {
                TokenTypeView::Space => Reaction::retain(),
                TokenTypeView::NewLine => Reaction::retain(),
                TokenTypeView::Keyword(keyword) => MainContextView::root_keyword(
                    version,
                    instrs,
                    keyword,
                ),
                _ => Reaction::complain("Unexpected token"@),
            },
            MainContextView::Expr(expr) => expr.react(token),
            MainContextView::Complete(_) => match token {
                TokenTypeView::Space => Reaction::retain(),
                TokenTypeView::NewLine => Reaction::retain(),
                _ => Reaction::complain("Unexpected trailing token"@),
            },
        }
    }

    /// In the body of a program, the closing keyword completes the program
    /// with the statements read so far, the print keyword starts a print
    /// statement and the include keyword starts an include declaration.
    pub open spec fn root_keyword(
        version: LolCodeVersion,
        instrs: Seq<InstructionView>,
        keyword: KeywordToken,
    ) -> Reaction {
        match keyword {
            KeywordToken::KThxBye => Reaction::replace(
                ScopeContextView::Main(
                    MainContextView::Complete(LolCodeProgramView { version, instrs }),
                ),
            ),
            KeywordToken::Visible => Reaction::enter(
                ScopeContextView::Main(
                    MainContextView::Expr(ExprContextView::Visible { args: Seq::empty() }),
                ),
            ),
            KeywordToken::Can => Reaction::enter(IncludesContextView::Started.scope()),
            KeywordToken::Has => Reaction::complain("Unexpected HAS. Are you missing CAN?"@),
            _ => Reaction::complain("Unexpected keyword"@),
        }
    }

    /// The context once it has seen `token`.
    pub open spec fn after(self, token: TokenTypeView) -> MainContextView {
        match self {
            MainContextView::Expr(expr) => MainContextView::Expr(expr.after(token)),
            _ => self,
        }
    }
}

impl MainContext {
    /// Reacts to a keyword in the body of a program as
    /// [`MainContextView::root_keyword`] says.
    pub fn root_handle_keyword(
        version: &LolCodeVersion,
        instrs: &Vec<Instruction>,
        token: &KeywordToken,
    ) -> (answer: (StackOp, Option<String>))
        ensures
            reaction_of(answer) == MainContextView::root_keyword(
                *version,
                instrs.deep_view(),
                *token,
            ),
    {
        match token {
            KeywordToken::KThxBye => replace(
                MainContext::Complete(
                    LolCodeProgram { version: *version, instrs: clone_instructions(instrs) },
                ).into(),
            ),
            KeywordToken::Visible => {
                let args: Vec<String> = Vec::new();
                assert(args.deep_view() =~= Seq::<Seq<char>>::empty());
                enter(ExprContext::Visible { args }.into())
            },
            KeywordToken::Can => enter(IncludesContext::Started.into()),
            KeywordToken::Has => complain("Unexpected HAS. Are you missing CAN?"),
            _ => complain("Unexpected keyword"),
        }
    }

    /// Reacts to `token` as [`MainContextView::react`] says, and takes its
    /// text in as [`MainContextView::after`] says.
    pub fn process_token(&mut self, token: &Token) -> (answer: (StackOp, Option<String>))
        ensures
            reaction_of(answer) == old(self)@.react(token@.t_type),
            final(self)@ == old(self)@.after(token@.t_type),
    {
        match self {
            MainContext::Pre => match &token.t_type {
                TokenType::Keyword(KeywordToken::Hai) => replace(DecorationContext::Started.into()),
                TokenType::Space => retain(),
                TokenType::NewLine => retain(),
                _ => complain("Unexpected token. Expected HAI"),
            },
            MainContext::Root { version, instrs } => match &token.t_type {
                TokenType::Space => retain(),
                TokenType::NewLine => retain(),
                TokenType::Keyword(keyword) => MainContext::root_handle_keyword(
                    version,
                    instrs,
                    keyword,
                ),
                _ => complain("Unexpected token"),
            },
            MainContext::Expr(expr) => expr.process_token(token),
            MainContext::Complete(_) => match &token.t_type {
                TokenType::Space => retain(),
                TokenType::NewLine => retain(),
                _ => complain("Unexpected trailing token"),
            },
        }
    }
}

impl ScopeContextView {
    /// How the context reacts to `token`, by the rules of its kind.
    pub open spec fn react(self, token: TokenTypeView) -> Reaction {
        match self {
            ScopeContextView::Decoration(decoration) => decoration.react(token),
            ScopeContextView::Main(main) => main.react(token),
            ScopeContextView::Comment(comment) => comment.react(token),
        }
    }

    /// The context once it has seen `token`: a string literal and a comment
    /// have taken its text in, any other context is as it was.
    pub open spec fn after(self, token: TokenTypeView) -> ScopeContextView {
        match self {
            ScopeContextView::Decoration(_) => self,
            ScopeContextView::Main(main) => ScopeContextView::Main(main.after(token)),
            ScopeContextView::Comment(comment) => ScopeContextView::Comment(comment.after(token)),
        }
    }
}

impl ScopeContext {
    /// Reacts to `token` as [`ScopeContextView::react`] says, and takes its
    /// text in as [`ScopeContextView::after`] says.
    pub fn process_token(&mut self, token: &Token) -> (answer: (StackOp, Option<String>))
        ensures
            reaction_of(answer) == old(self)@.react(token@.t_type),
            final(self)@ == old(self)@.after(token@.t_type),
    {
        match self {
            ScopeContext::Comment(comment) => comment.process_token(token),
            ScopeContext::Decoration(decoration) => decoration.process_token(token),
            ScopeContext::Main(main) => main.process_token(token),
        }
    }
}

} // verus!
