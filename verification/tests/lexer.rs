use asmvm::parser::{Parser, ParserError};

fn lex(source: &str) -> Result<Vec<String>, ParserError> {
    let mut parser = Parser::init(String::from(source));
    parser.parse().map(|tokens| tokens.clone())
}

fn words(items: &[&str]) -> Result<Vec<String>, ParserError> {
    Ok(items.iter().map(|s| String::from(*s)).collect())
}

#[test]
fn splits_at_spaces_commas_tabs_and_line_ends() {
    assert_eq!(lex("MOV RAX, 5\nPNL\tRAX\r\nRET"), words(&["MOV", "RAX", "5", "PNL", "RAX", "RET"]));
}

#[test]
fn keeps_the_last_token_without_a_line_end() {
    assert_eq!(lex("PNL 42"), words(&["PNL", "42"]));
    assert_eq!(lex("x"), words(&["x"]));
}

#[test]
fn drops_empty_tokens() {
    assert_eq!(lex(" ,,\n\t  "), words(&[]));
    assert_eq!(lex(""), words(&[]));
    assert_eq!(lex("a,,b"), words(&["a", "b"]));
}

#[test]
fn quoted_text_keeps_its_delimiters_and_loses_its_quotes() {
    assert_eq!(lex("PNL \"a, b\tc\" RAX"), words(&["PNL", "a, b\tc", "RAX"]));
    assert_eq!(lex("\"one\"\"two\""), words(&["one", "two"]));
}

#[test]
fn quoted_character_loses_its_quotes() {
    assert_eq!(lex("MOV RAX, 'x'"), words(&["MOV", "RAX", "x"]));
    assert_eq!(lex("'a b'"), words(&["a b"]));
}

#[test]
fn empty_quoted_tokens_are_dropped() {
    assert_eq!(lex("PNL \"\" ''"), words(&["PNL"]));
}

#[test]
fn comment_runs_to_the_end_of_its_line() {
    assert_eq!(
        lex("MOV RAX, 1 ; set, up \"x\"\nPNL RAX"),
        words(&["MOV", "RAX", "1", "; set, up \"x\"", "PNL", "RAX"])
    );
    assert_eq!(lex("; only a comment"), words(&["; only a comment"]));
    assert_eq!(lex(";\rRET"), words(&[";", "RET"]));
}

#[test]
fn quote_and_semicolon_inside_a_raw_token_belong_to_it() {
    assert_eq!(lex("ab\"cd 5;x"), words(&["ab\"cd", "5;x"]));
}

#[test]
fn text_that_ends_inside_quotes_is_refused() {
    assert_eq!(lex("PNL \"abc"), Err(ParserError::EOF));
    assert_eq!(lex("PNL 'a"), Err(ParserError::EOF));
    assert_eq!(lex("\""), Err(ParserError::EOF));
    assert_eq!(lex("MOV RAX, 1\n'"), Err(ParserError::EOF));
}

#[test]
fn single_quote_does_not_close_double_quotes() {
    assert_eq!(lex("\"it's\""), words(&["it's"]));
    assert_eq!(lex("'say \"hi\"'"), words(&["say \"hi\""]));
}

#[test]
fn second_parse_adds_nothing() {
    let mut parser = Parser::init(String::from("MOV RAX, 5"));
    assert_eq!(parser.parse().map(|t| t.len()), Ok(3));
    assert_eq!(parser.parse().map(|t| t.len()), Ok(3));
    assert_eq!(parser.tokens().len(), 3);
    assert_eq!(parser.tokens, vec!["MOV", "RAX", "5"]);
}

#[test]
fn non_ascii_text_is_kept() {
    assert_eq!(lex("PNL \"grüße, 世界\""), words(&["PNL", "grüße, 世界"]));
}

#[test]
fn refusal_leaves_the_lexer_at_the_open_quote() {
    let mut parser = Parser::init(String::from("MOV RAX \"abc"));
    assert_eq!(parser.unread(), 12);
    assert_eq!(parser.parse().err(), Some(ParserError::EOF));
    assert_eq!(parser.tokens, vec!["MOV", "RAX"]);
    assert_eq!(parser.unread(), 4);
    assert_eq!(parser.parse().err(), Some(ParserError::EOF));
    assert_eq!(parser.tokens, vec!["MOV", "RAX"]);
    assert_eq!(parser.unread(), 4);
}

#[test]
fn parse_reads_the_whole_text() {
    let mut parser = Parser::init(String::from("PNL 'x' ; done"));
    assert_eq!(parser.unread(), 14);
    assert!(parser.parse().is_ok());
    assert_eq!(parser.unread(), 0);
}
