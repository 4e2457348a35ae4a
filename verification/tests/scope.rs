use lolcode::parser::{
    CommentContext, DecorationContext, ExprContext, IncludesContext, Instruction, JoinContext,
    LolCodeProgram, LolCodeVersion, MainContext, ScopeContext, StackOp, StringExprContext,
};
use lolcode::tokenizer::{KeywordToken, Token, TokenLocation, TokenType};

fn token(t_type: TokenType) -> Token {
    Token { location: TokenLocation { line: 7, column: 9 }, t_type }
}

fn word(text: &str) -> Token {
    token(TokenType::Word(text.to_string()))
}

fn keyword(keyword: KeywordToken) -> Token {
    token(TokenType::Keyword(keyword))
}

fn every_token() -> Vec<Token> {
    vec![
        keyword(KeywordToken::Hai),
        keyword(KeywordToken::KThxBye),
        keyword(KeywordToken::Visible),
        keyword(KeywordToken::Btw),
        keyword(KeywordToken::Can),
        keyword(KeywordToken::Has),
        keyword(KeywordToken::OBtw),
        keyword(KeywordToken::Tldr),
        word("x"),
        word("12"),
        token(TokenType::Space),
        token(TokenType::NewLine),
        token(TokenType::Period),
        token(TokenType::Comma),
        token(TokenType::Quote),
    ]
}

fn retain() -> (StackOp, Option<String>) {
    (StackOp::Retain(None), None)
}

fn complain(message: &str) -> (StackOp, Option<String>) {
    (StackOp::Retain(None), Some(message.to_string()))
}

fn replace(next: ScopeContext) -> (StackOp, Option<String>) {
    (StackOp::Replace(next), None)
}

fn enter(child: ScopeContext) -> (StackOp, Option<String>) {
    (StackOp::Retain(Some(child)), None)
}

fn unwind() -> (StackOp, Option<String>) {
    (StackOp::Unwind, None)
}

#[test]
fn header_started() {
    let context = DecorationContext::Started;
    assert_eq!(context.process_token(&word("12")), replace(DecorationContext::WithMajor(12).into()));
    assert_eq!(context.process_token(&word("-3")), replace(DecorationContext::WithMajor(-3).into()));
    assert_eq!(context.process_token(&word("x")), complain("Unable to parse major version"));
    for token in every_token() {
        let expected = match &token.t_type {
            TokenType::Keyword(_) => complain("Unexpected keyword. Expected major version"),
            TokenType::Word(text) if text == "12" => replace(DecorationContext::WithMajor(12).into()),
            TokenType::Word(_) => complain("Unable to parse major version"),
            _ => retain(),
        };
        assert_eq!(context.process_token(&token), expected);
    }
}

#[test]
fn header_with_major() {
    let context = DecorationContext::WithMajor(4);
    for token in every_token() {
        let expected = match &token.t_type {
            TokenType::Period => replace(DecorationContext::WithMajorAndPeriod(4).into()),
            _ => complain("Unexpected token. Expected period"),
        };
        assert_eq!(context.process_token(&token), expected);
    }
}

#[test]
fn header_with_major_and_period() {
    let context = DecorationContext::WithMajorAndPeriod(4);
    for token in every_token() {
        let expected = match &token.t_type {
            TokenType::Word(text) if text == "12" => replace(
                MainContext::Root { version: LolCodeVersion { major: 4, minor: 12 }, instrs: vec![] }
                    .into(),
            ),
            TokenType::Word(_) => complain("Unable to parse minor version"),
            _ => complain("Unexpected token. Expected minor version"),
        };
        assert_eq!(context.process_token(&token), expected);
    }
}

#[test]
fn before_the_header() {
    for token in every_token() {
        let mut context = MainContext::Pre;
        let expected = match &token.t_type {
            TokenType::Keyword(KeywordToken::Hai) => replace(DecorationContext::Started.into()),
            TokenType::Space | TokenType::NewLine => retain(),
            _ => complain("Unexpected token. Expected HAI"),
        };
        assert_eq!(context.process_token(&token), expected);
        assert_eq!(context, MainContext::Pre);
    }
}

fn statements() -> Vec<Instruction> {
    vec![Instruction::Visible { args: vec!["a".to_string(), "b".to_string()] }]
}

#[test]
fn program_body() {
    let version = LolCodeVersion { major: 1, minor: 2 };
    for token in every_token() {
        let mut context = MainContext::Root { version, instrs: statements() };
        let expected = match &token.t_type {
            TokenType::Space | TokenType::NewLine => retain(),
            TokenType::Keyword(KeywordToken::KThxBye) => replace(
                MainContext::Complete(LolCodeProgram { version, instrs: statements() }).into(),
            ),
            TokenType::Keyword(KeywordToken::Visible) => {
                enter(ExprContext::Visible { args: vec![] }.into())
            }
            TokenType::Keyword(KeywordToken::Can) => enter(IncludesContext::Started.into()),
            TokenType::Keyword(KeywordToken::Has) => {
                complain("Unexpected HAS. Are you missing CAN?")
            }
            TokenType::Keyword(_) => complain("Unexpected keyword"),
            _ => complain("Unexpected token"),
        };
        assert_eq!(context.process_token(&token), expected);
        assert_eq!(context, MainContext::Root { version, instrs: statements() });
    }
}

#[test]
fn root_keywords() {
    let version = LolCodeVersion { major: 1, minor: 2 };
    let instrs = statements();
    assert_eq!(
        MainContext::root_handle_keyword(&version, &instrs, &KeywordToken::KThxBye),
        replace(MainContext::Complete(LolCodeProgram { version, instrs: statements() }).into())
    );
    assert_eq!(
        MainContext::root_handle_keyword(&version, &instrs, &KeywordToken::Visible),
        enter(ExprContext::Visible { args: vec![] }.into())
    );
    assert_eq!(
        MainContext::root_handle_keyword(&version, &instrs, &KeywordToken::Can),
        enter(IncludesContext::Started.into())
    );
    assert_eq!(
        MainContext::root_handle_keyword(&version, &instrs, &KeywordToken::Has),
        complain("Unexpected HAS. Are you missing CAN?")
    );
    for keyword in [KeywordToken::Hai, KeywordToken::Btw, KeywordToken::OBtw, KeywordToken::Tldr] {
        assert_eq!(
            MainContext::root_handle_keyword(&version, &instrs, &keyword),
            complain("Unexpected keyword")
        );
    }
    assert_eq!(instrs, statements());
}

#[test]
fn behind_the_closing_keyword() {
    let program = || LolCodeProgram {
        version: LolCodeVersion { major: 1, minor: 2 },
        instrs: statements(),
    };
    for token in every_token() {
        let mut context = MainContext::Complete(program());
        let expected = match &token.t_type {
            TokenType::Space | TokenType::NewLine => retain(),
            _ => complain("Unexpected trailing token"),
        };
        assert_eq!(context.process_token(&token), expected);
        assert_eq!(context, MainContext::Complete(program()));
    }
}

#[test]
fn print_statement() {
    let print = || ExprContext::Visible { args: vec!["a".to_string()] };
    for token in every_token() {
        let mut context = print();
        let expected = match &token.t_type {
            TokenType::NewLine | TokenType::Comma => unwind(),
            TokenType::Quote => enter(StringExprContext(String::new()).into()),
            TokenType::Space => retain(),
            TokenType::Period => enter(JoinContext::Period1.into()),
            _ => complain("Unexpected token in VISIBLE"),
        };
        assert_eq!(context.process_token(&token), expected);
        assert_eq!(context, print());
    }
}

#[test]
fn string_literal() {
    for token in every_token() {
        let mut context = StringExprContext("ab".to_string());
        let (expected, text) = match &token.t_type {
            TokenType::NewLine => {
                ((StackOp::Unwind, Some("Unexpected newline in string".to_string())), "ab".to_string())
            }
            TokenType::Quote => (unwind(), "ab".to_string()),
            other => (retain(), format!("ab{}", other.to_string())),
        };
        assert_eq!(context.process_token(&token), expected);
        assert_eq!(context, StringExprContext(text));
    }
    let mut context = StringExprContext::default();
    assert_eq!(context.process_token(&keyword(KeywordToken::Visible)), retain());
    assert_eq!(context.process_token(&token(TokenType::Space)), retain());
    assert_eq!(context.process_token(&word("x")), retain());
    assert_eq!(context.process_token(&token(TokenType::Comma)), retain());
    assert_eq!(context.process_token(&token(TokenType::Period)), retain());
    assert_eq!(context, StringExprContext("VISIBLE x,.".to_string()));
}

#[test]
fn string_literal_inside_its_wrappers() {
    let mut context: ScopeContext = StringExprContext("a".to_string()).into();
    assert_eq!(context.process_token(&word("b")), retain());
    assert_eq!(context, StringExprContext("ab".to_string()).into());
    assert_eq!(context.process_token(&token(TokenType::Quote)), unwind());
    assert_eq!(context, StringExprContext("ab".to_string()).into());
}

#[test]
fn join() {
    for token in every_token() {
        let expected = match &token.t_type {
            TokenType::Period => replace(JoinContext::Period2.into()),
            _ => complain("Unexpected token. Expected '.'"),
        };
        assert_eq!(JoinContext::Period1.process_token(&token), expected);
        let expected = match &token.t_type {
            TokenType::Period => replace(JoinContext::Period3.into()),
            _ => complain("Unexpected token. Expected '.'"),
        };
        assert_eq!(JoinContext::Period2.process_token(&token), expected);
        let expected = match &token.t_type {
            TokenType::NewLine => replace(JoinContext::NewLine.into()),
            _ => complain("Unexpected token. Expected newline"),
        };
        assert_eq!(JoinContext::Period3.process_token(&token), expected);
        let expected = match &token.t_type {
            TokenType::NewLine => {
                (StackOp::Unwind, Some("Invalid blank line after join".to_string()))
            }
            _ => unwind(),
        };
        assert_eq!(JoinContext::NewLine.process_token(&token), expected);
    }
}

#[test]
fn include_declaration() {
    let unexpected = || complain("Unexpected token in include");
    for token in every_token() {
        let expected = match &token.t_type {
            TokenType::Space => replace(IncludesContext::ReadyHas.into()),
            _ => unexpected(),
        };
        assert_eq!(IncludesContext::Started.process_token(&token), expected);
        let expected = match &token.t_type {
            TokenType::Keyword(KeywordToken::Has) => replace(IncludesContext::Has.into()),
            _ => unexpected(),
        };
        assert_eq!(IncludesContext::ReadyHas.process_token(&token), expected);
        let expected = match &token.t_type {
            TokenType::Space => replace(IncludesContext::ReadyModule.into()),
            _ => unexpected(),
        };
        assert_eq!(IncludesContext::Has.process_token(&token), expected);
        let expected = match &token.t_type {
            TokenType::Word(module) => replace(IncludesContext::Module(module.clone()).into()),
            _ => complain("Expected module name"),
        };
        assert_eq!(IncludesContext::ReadyModule.process_token(&token), expected);
        let expected = match &token.t_type {
            TokenType::NewLine => unwind(),
            TokenType::Space => retain(),
            _ => unexpected(),
        };
        assert_eq!(IncludesContext::Module("STDIO".to_string()).process_token(&token), expected);
    }
}

#[test]
fn comment() {
    for token in every_token() {
        let mut context = CommentContext::Started;
        assert_eq!(
            context.process_token(&token),
            replace(CommentContext::InProgress(vec![token.t_type.to_string()]).into())
        );
        assert_eq!(context, CommentContext::Started);

        let mut context = CommentContext::InProgress(vec!["a".to_string()]);
        let (expected, texts) = match &token.t_type {
            TokenType::NewLine => (unwind(), vec!["a".to_string()]),
            other => (retain(), vec!["a".to_string(), other.to_string()]),
        };
        assert_eq!(context.process_token(&token), expected);
        assert_eq!(context, CommentContext::InProgress(texts));
    }
}

#[test]
fn a_scope_reacts_as_the_context_in_it() {
    let mut context: ScopeContext = DecorationContext::WithMajor(1).into();
    assert_eq!(
        context.process_token(&token(TokenType::Period)),
        replace(DecorationContext::WithMajorAndPeriod(1).into())
    );
    let mut context: ScopeContext = CommentContext::InProgress(vec![]).into();
    assert_eq!(context.process_token(&word("x")), retain());
    assert_eq!(context, CommentContext::InProgress(vec!["x".to_string()]).into());
    let mut context: ScopeContext = JoinContext::Period3.into();
    assert_eq!(
        context.process_token(&token(TokenType::NewLine)),
        replace(JoinContext::NewLine.into())
    );
    let mut context: ScopeContext = IncludesContext::ReadyModule.into();
    assert_eq!(
        context.process_token(&word("STDIO?")),
        replace(IncludesContext::Module("STDIO?".to_string()).into())
    );
    let mut context = ScopeContext::Main(MainContext::Pre);
    assert_eq!(
        context.process_token(&keyword(KeywordToken::Hai)),
        replace(DecorationContext::Started.into())
    );
}

#[test]
fn contexts_become_scopes() {
    assert_eq!(
        ScopeContext::from(DecorationContext::Started),
        ScopeContext::Decoration(DecorationContext::Started)
    );
    assert_eq!(ScopeContext::from(MainContext::Pre), ScopeContext::Main(MainContext::Pre));
    assert_eq!(
        ScopeContext::from(CommentContext::Started),
        ScopeContext::Comment(CommentContext::Started)
    );
    assert_eq!(
        ScopeContext::from(ExprContext::Visible { args: vec!["a".to_string()] }),
        ScopeContext::Main(MainContext::Expr(ExprContext::Visible {
            args: vec!["a".to_string()]
        }))
    );
    assert_eq!(
        ScopeContext::from(StringExprContext("a".to_string())),
        ScopeContext::Main(MainContext::Expr(ExprContext::String(StringExprContext(
            "a".to_string()
        ))))
    );
    assert_eq!(
        ScopeContext::from(JoinContext::Period1),
        ScopeContext::Main(MainContext::Expr(ExprContext::Join(JoinContext::Period1)))
    );
    assert_eq!(
        ScopeContext::from(IncludesContext::Module("m".to_string())),
        ScopeContext::Main(MainContext::Expr(ExprContext::Include(IncludesContext::Module(
            "m".to_string()
        ))))
    );
}

#[test]
fn copies_are_equal() {
    let contexts = [
        ExprContext::Join(JoinContext::Period2),
        ExprContext::Visible { args: vec!["a".to_string(), "".to_string()] },
        ExprContext::String(StringExprContext("text".to_string())),
        ExprContext::Include(IncludesContext::Module("m".to_string())),
        ExprContext::Include(IncludesContext::ReadyHas),
    ];
    for context in contexts {
        assert_eq!(context.clone(), context);
    }
    let program = LolCodeProgram {
        version: LolCodeVersion { major: 1, minor: 2 },
        instrs: statements(),
    };
    assert_eq!(program.clone(), program);
}
