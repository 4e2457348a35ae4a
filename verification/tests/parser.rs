use lolcode::framework::Diagnostic;
use lolcode::parser::{
    process_tokens, Instruction, LolCodeProgram, LolCodeVersion, ParseError, StackFault,
};
use lolcode::tokenizer::{parse_tokens, TokenLocation};

fn parse(source: &str) -> Result<LolCodeProgram, ParseError> {
    process_tokens(parse_tokens(source.to_string()))
}

fn program(major: i32, minor: i32, statements: &[&[&str]]) -> LolCodeProgram {
    LolCodeProgram {
        version: LolCodeVersion { major, minor },
        instrs: statements
            .iter()
            .map(|args| Instruction::Visible {
                args: args.iter().map(|arg| arg.to_string()).collect(),
            })
            .collect(),
    }
}

fn about(line: usize, column: usize, message: &str) -> Diagnostic {
    Diagnostic {
        location: Some(TokenLocation { line, column }),
        message: message.to_string(),
    }
}

fn at_end(message: &str) -> Diagnostic {
    Diagnostic { location: None, message: message.to_string() }
}

fn failed(diagnostics: Vec<Diagnostic>) -> Result<LolCodeProgram, ParseError> {
    Err(ParseError::CompilationFailed(diagnostics))
}

#[test]
fn minimal_valid_program() {
    assert_eq!(parse("HAI\n1.3\nKTHXBYE\n"), Ok(program(1, 3, &[])));
}

#[test]
fn header_on_one_line() {
    assert_eq!(parse("HAI 1.2\nKTHXBYE\n"), Ok(program(1, 2, &[])));
}

#[test]
fn print_with_literal() {
    assert_eq!(parse("HAI\n1.2\nVISIBLE \"abc\"\nKTHXBYE\n"), Ok(program(1, 2, &[&["abc"]])));
}

#[test]
fn print_with_join() {
    assert_eq!(
        parse("HAI\n1.2\nVISIBLE \"abc\"...\n\"def\"\nKTHXBYE\n"),
        Ok(program(1, 2, &[&["abc", "def"]]))
    );
}

#[test]
fn print_with_several_arguments() {
    assert_eq!(
        parse("HAI 1.2\nVISIBLE \"a\" \"b\"\"c\"\nKTHXBYE\n"),
        Ok(program(1, 2, &[&["a", "b", "c"]]))
    );
}

#[test]
fn print_without_arguments() {
    assert_eq!(parse("HAI 1.2\nVISIBLE\nKTHXBYE\n"), Ok(program(1, 2, &[&[]])));
}

#[test]
fn several_statements_in_source_order() {
    assert_eq!(
        parse("HAI 1.2\nVISIBLE \"one\"\n\nVISIBLE \"two\"\nVISIBLE \"three\"\nKTHXBYE\n"),
        Ok(program(1, 2, &[&["one"], &["two"], &["three"]]))
    );
}

#[test]
fn a_comma_ends_a_print_statement() {
    assert_eq!(
        parse("HAI 1.2\nVISIBLE \"a\", VISIBLE \"b\"\nKTHXBYE\n"),
        Ok(program(1, 2, &[&["a"], &["b"]]))
    );
}

#[test]
fn a_literal_keeps_the_text_of_its_tokens() {
    assert_eq!(
        parse("HAI 1.2\nVISIBLE \"a, b. c\"\nKTHXBYE\n"),
        Ok(program(1, 2, &[&["a, b. c"]]))
    );
    assert_eq!(
        parse("HAI 1.2\nVISIBLE \"HAI KTHXBYE TLDR\"\nKTHXBYE\n"),
        Ok(program(1, 2, &[&["HAI KTHXBYE TLDR"]]))
    );
    assert_eq!(parse("HAI 1.2\nVISIBLE \"\"\nKTHXBYE\n"), Ok(program(1, 2, &[&[""]])));
}

#[test]
fn a_tab_in_a_literal_becomes_a_space() {
    assert_eq!(parse("HAI 1.2\nVISIBLE \"a\tb\"\nKTHXBYE\n"), Ok(program(1, 2, &[&["a b"]])));
}

#[test]
fn a_join_is_closed_by_the_token_behind_it() {
    assert_eq!(
        parse("HAI 1.2\nVISIBLE \"a\"...\n,\nKTHXBYE\n"),
        Ok(program(1, 2, &[&["a"]]))
    );
    assert_eq!(
        parse("HAI 1.2\nVISIBLE \"a\"...\n  \"b\"...\n\"c\"\nKTHXBYE\n"),
        Ok(program(1, 2, &[&["a", "b", "c"]]))
    );
}

#[test]
fn the_token_behind_a_join_is_handled_by_the_print_statement() {
    assert_eq!(
        parse("HAI 1.2\nVISIBLE \"a\"...\nx \"b\"\nKTHXBYE\n"),
        failed(vec![about(3, 3, "Unexpected token in VISIBLE")])
    );
}

#[test]
fn missing_header_is_diagnosed() {
    assert_eq!(
        parse("1.3\nKTHXBYE\n"),
        failed(vec![
            about(1, 3, "Unexpected token. Expected HAI"),
            about(1, 3, "Unexpected token. Expected HAI"),
            about(2, 1, "Unexpected token. Expected HAI"),
            about(3, 1, "Unexpected token. Expected HAI"),
            at_end("Unterminated program"),
        ])
    );
}

#[test]
fn unterminated_string_literal() {
    assert_eq!(
        parse("HAI\n1.3\nVISIBLE \"abc\nKTHXBYE\n"),
        failed(vec![
            about(4, 1, "Unexpected newline in string"),
            about(5, 1, "Unexpected token in VISIBLE"),
            at_end("Unterminated program"),
        ])
    );
}

#[test]
fn empty_input_is_an_unterminated_program() {
    assert_eq!(parse(""), failed(vec![at_end("Unterminated program")]));
    assert_eq!(parse(" \n \n"), failed(vec![at_end("Unterminated program")]));
}

#[test]
fn a_pending_closing_keyword_leaves_the_program_unterminated() {
    assert_eq!(parse("HAI 1.2\nKTHXBYE"), failed(vec![at_end("Unterminated program")]));
}

#[test]
fn header_diagnostics() {
    assert_eq!(
        parse("HAI HAI 1.2\nKTHXBYE\n"),
        failed(vec![about(1, 9, "Unexpected keyword. Expected major version")])
    );
    assert_eq!(
        parse("HAI x 1.2\nKTHXBYE\n"),
        failed(vec![about(1, 7, "Unable to parse major version")])
    );
    assert_eq!(
        parse("HAI 1 .2\nKTHXBYE\n"),
        failed(vec![about(1, 7, "Unexpected token. Expected period")])
    );
    assert_eq!(
        parse("HAI 1. 2\nKTHXBYE\n"),
        failed(vec![about(1, 8, "Unexpected token. Expected minor version")])
    );
    assert_eq!(
        parse("HAI 1.x 2\nKTHXBYE\n"),
        failed(vec![
            about(1, 9, "Unable to parse minor version"),
            about(1, 9, "Unexpected token. Expected minor version"),
        ])
    );
    assert_eq!(
        parse("HAI 1.KTHXBYE 2\nKTHXBYE\n"),
        failed(vec![
            about(1, 15, "Unexpected token. Expected minor version"),
            about(1, 15, "Unexpected token. Expected minor version"),
        ])
    );
}

#[test]
fn punctuation_before_the_major_version_is_passed_over() {
    assert_eq!(parse("HAI ,\". 1.2\nKTHXBYE\n"), Ok(program(1, 2, &[])));
}

#[test]
fn a_version_out_of_range_is_diagnosed() {
    assert_eq!(
        parse("HAI 2147483648.0\nKTHXBYE\n"),
        failed(vec![
            about(1, 16, "Unable to parse major version"),
            about(2, 1, "Unexpected token. Expected period"),
            about(3, 1, "Unexpected token. Expected period"),
            about(3, 1, "Unexpected token. Expected period"),
            at_end("Unterminated program"),
        ])
    );
}

#[test]
fn body_diagnostics() {
    assert_eq!(
        parse("HAI 1.2\nHAS\nKTHXBYE\n"),
        failed(vec![about(3, 1, "Unexpected HAS. Are you missing CAN?")])
    );
    assert_eq!(
        parse("HAI 1.2\nHAI\nTLDR\nKTHXBYE\n"),
        failed(vec![about(3, 1, "Unexpected keyword"), about(4, 1, "Unexpected keyword")])
    );
    assert_eq!(
        parse("HAI 1.2\nx.\nKTHXBYE\n"),
        failed(vec![about(2, 3, "Unexpected token"), about(2, 3, "Unexpected token")])
    );
    assert_eq!(
        parse("HAI 1.2\n\"\nKTHXBYE\n"),
        failed(vec![about(2, 2, "Unexpected token")])
    );
}

#[test]
fn trailing_tokens_are_diagnosed() {
    assert_eq!(
        parse("HAI 1.2\nKTHXBYE\n \nx\nKTHXBYE\n"),
        failed(vec![
            about(5, 1, "Unexpected trailing token"),
            about(6, 1, "Unexpected trailing token"),
        ])
    );
}

#[test]
fn print_diagnostics() {
    assert_eq!(
        parse("HAI 1.2\nVISIBLE x KTHXBYE\nKTHXBYE\n"),
        failed(vec![
            about(2, 11, "Unexpected token in VISIBLE"),
            about(3, 1, "Unexpected token in VISIBLE"),
        ])
    );
}

#[test]
fn join_diagnostics() {
    assert_eq!(
        parse("HAI 1.2\nVISIBLE \"a\". ..\n\"b\"\nKTHXBYE\n"),
        failed(vec![about(2, 14, "Unexpected token. Expected '.'")])
    );
    assert_eq!(
        parse("HAI 1.2\nVISIBLE \"a\"..\n.\n\"b\"\nKTHXBYE\n"),
        failed(vec![about(3, 1, "Unexpected token. Expected '.'")])
    );
    assert_eq!(
        parse("HAI 1.2\nVISIBLE \"a\"... \n\"b\"\nKTHXBYE\n"),
        failed(vec![about(2, 16, "Unexpected token. Expected newline")])
    );
    assert_eq!(
        parse("HAI 1.2\nVISIBLE \"a\"...\n\n\"b\"\nKTHXBYE\n"),
        failed(vec![about(4, 1, "Invalid blank line after join")])
    );
}

#[test]
fn an_open_statement_at_the_end_is_a_trailing_context() {
    assert_eq!(
        parse("HAI 1.2\nVISIBLE \"a\""),
        failed(vec![at_end("Unexpected trailing context")])
    );
    assert_eq!(
        parse("HAI 1.2\nVISIBLE \"a"),
        failed(vec![at_end("Unexpected trailing context")])
    );
    assert_eq!(parse("HAI 1.2\nCAN "), failed(vec![at_end("Unexpected trailing context")]));
}

#[test]
fn include_diagnostics() {
    assert_eq!(
        parse("HAI 1.2\nCAN\n"),
        failed(vec![
            about(3, 1, "Unexpected token in include"),
            at_end("Unexpected trailing context"),
        ])
    );
    assert_eq!(
        parse("HAI 1.2\nCAN x "),
        failed(vec![
            about(2, 7, "Unexpected token in include"),
            about(2, 7, "Unexpected token in include"),
            at_end("Unexpected trailing context"),
        ])
    );
    assert_eq!(
        parse("HAI 1.2\nCAN HAS\n"),
        failed(vec![
            about(3, 1, "Unexpected token in include"),
            at_end("Unexpected trailing context"),
        ])
    );
    assert_eq!(
        parse("HAI 1.2\nCAN HAS VISIBLE "),
        failed(vec![
            about(2, 17, "Expected module name"),
            about(2, 17, "Expected module name"),
            at_end("Unexpected trailing context"),
        ])
    );
    assert_eq!(
        parse("HAI 1.2\nCAN HAS STDIO? x "),
        failed(vec![
            about(2, 18, "Unexpected token in include"),
            at_end("Unexpected trailing context"),
        ])
    );
}

#[test]
fn the_end_of_an_include_declaration_stops_the_machine() {
    assert_eq!(
        parse("HAI 1.2\nCAN HAS STDIO?\nKTHXBYE\n"),
        Err(ParseError::Fault(StackFault::NoMergeRule))
    );
    assert_eq!(
        parse("HAI 1.2\nx\nCAN HAS STDIO?  \nVISIBLE \"a\"\n"),
        Err(ParseError::Fault(StackFault::NoMergeRule))
    );
}

#[test]
fn comments_run_to_the_end_of_the_line() {
    assert_eq!(parse("HAI 1.2\nBTW hello, world\nKTHXBYE\n"), Ok(program(1, 2, &[])));
    assert_eq!(parse("HAI 1.2\nOBTW hello TLDR\nKTHXBYE\n"), Ok(program(1, 2, &[])));
    assert_eq!(parse("BTW first\nHAI BTW x\n1.2 BTW y\nKTHXBYE BTW z\n"), Ok(program(1, 2, &[])));
}

#[test]
fn a_comment_takes_the_token_behind_its_keyword_whatever_it_is() {
    // The line break right behind the keyword is the comment's first token:
    // the comment then runs to the end of the next line.
    assert_eq!(
        parse("HAI 1.2\nBTW\nVISIBLE \"a\"\nKTHXBYE\n"),
        Ok(program(1, 2, &[]))
    );
}

#[test]
fn a_comment_takes_the_line_break_of_its_statement() {
    assert_eq!(
        parse("HAI 1.2\nVISIBLE \"a\" BTW note\nKTHXBYE\n"),
        failed(vec![about(4, 1, "Unexpected token in VISIBLE"), at_end("Unterminated program")])
    );
    assert_eq!(
        parse("HAI 1.2\nVISIBLE \"a\" BTW note\n\nKTHXBYE\n"),
        Ok(program(1, 2, &[&["a"]]))
    );
}

#[test]
fn a_comment_keyword_in_a_literal_starts_a_comment() {
    assert_eq!(
        parse("HAI 1.2\nVISIBLE \"a BTW b\"\nc\"\nKTHXBYE\n"),
        Ok(program(1, 2, &[&["a c"]]))
    );
}

#[test]
fn a_comment_keyword_in_a_comment_starts_another() {
    assert_eq!(
        parse("HAI 1.2\nBTW a BTW b\nstill a comment\nKTHXBYE\n"),
        Ok(program(1, 2, &[]))
    );
    assert_eq!(
        parse("HAI 1.2\nBTW a BTW b\nKTHXBYE\n"),
        failed(vec![at_end("Unterminated program")])
    );
    assert_eq!(
        parse("HAI 1.2\nBTW a BTW b\n"),
        failed(vec![at_end("Unexpected trailing context")])
    );
}

#[test]
fn diagnostics_come_in_source_order() {
    let result = parse("x\nHAI y 1 2.z\nw\nKTHXBYE\n!\n");
    assert_eq!(
        result,
        failed(vec![
            about(2, 1, "Unexpected token. Expected HAI"),
            about(2, 7, "Unable to parse major version"),
            about(2, 9, "Unexpected token. Expected period"),
            about(2, 11, "Unexpected token. Expected period"),
            about(3, 1, "Unable to parse minor version"),
            about(3, 1, "Unexpected token. Expected minor version"),
            about(4, 1, "Unable to parse minor version"),
            about(4, 1, "Unexpected token. Expected minor version"),
            about(5, 1, "Unexpected token. Expected minor version"),
            about(5, 1, "Unexpected token. Expected minor version"),
            about(6, 1, "Unable to parse minor version"),
            about(6, 1, "Unexpected token. Expected minor version"),
            at_end("Unterminated program"),
        ])
    );
}

#[test]
fn idempotent_re_parse() {
    let sources = [
        "HAI\n1.3\nKTHXBYE\n",
        "HAI 1.2\nVISIBLE \"a\"...\n\"b\"\nKTHXBYE\n",
        "1.3\nKTHXBYE\n",
        "HAI 1.2\nCAN HAS STDIO?\n",
        "HAI\n1.3\nVISIBLE \"abc\nKTHXBYE\n",
    ];
    for source in sources {
        let first = process_tokens(parse_tokens(source.to_string()));
        let second = process_tokens(parse_tokens(source.to_string()));
        assert_eq!(first, second);
    }
}
