use onefig::errors::{Culprit, SyntaxErrorKind};
use onefig::lexer::{chars_of, tokenize_chars};
use onefig::position::Position;
use onefig::token::{Lexeme, Token};

fn kinds(src: &str) -> Vec<Token> {
    Token::tokenize(src).unwrap().into_iter().map(|l| l.token).collect()
}

fn lexeme(start: usize, end: usize, token: Token) -> Lexeme {
    Lexeme { position: Position { start, end }, token }
}

fn words(items: &[&str]) -> Vec<String> {
    items.iter().map(|s| s.to_string()).collect()
}

#[test]
fn shell_command_is_one_token() {
    let tokens = Token::tokenize("$ echo hi\n").unwrap();
    assert_eq!(tokens, vec![lexeme(0, 9, Token::Shell(words(&["echo", "hi"])))]);
}

#[test]
fn shell_command_splits_on_runs_of_blanks() {
    assert_eq!(
        kinds("$   ls \t -la   /tmp  \nx"),
        vec![Token::Shell(words(&["ls", "-la", "/tmp"])), Token::Ident("x".to_string())]
    );
    assert_eq!(kinds("$"), vec![Token::Shell(vec![])]);
    assert_eq!(kinds("$ a=b \"q\" # c"), vec![Token::Shell(words(&["a=b", "\"q\"", "#", "c"]))]);
}

#[test]
fn shell_command_ends_at_the_end_of_input() {
    assert_eq!(
        Token::tokenize("$ echo hi").unwrap(),
        vec![lexeme(0, 9, Token::Shell(words(&["echo", "hi"])))]
    );
}

#[test]
fn unterminated_string_points_at_the_quote() {
    let err = Token::tokenize("key = \"unterminated").unwrap_err();
    assert_eq!(err.kind, SyntaxErrorKind::NonTerminatedString);
    assert_eq!(err.position, Position { start: 6, end: 7 });
    assert_eq!(err.culprit, Culprit::Nothing);
}

#[test]
fn string_may_not_run_over_a_newline() {
    let err = Token::tokenize("a: \"one\ntwo\"").unwrap_err();
    assert_eq!(err.kind, SyntaxErrorKind::NonTerminatedString);
    assert_eq!(err.position, Position { start: 3, end: 4 });
}

#[test]
fn operators_are_disambiguated() {
    assert_eq!(
        kinds("== = >> >= > <= < != ! . * : ; ,"),
        vec![
            Token::EE,
            Token::Assign(true),
            Token::Apply,
            Token::GTE,
            Token::GT,
            Token::LTE,
            Token::LT,
            Token::NE,
            Token::Not,
            Token::Dot,
            Token::Glob,
            Token::Assign(false),
            Token::Sep(true),
            Token::Sep(false),
        ]
    );
}

#[test]
fn operators_need_no_space_between_them() {
    assert_eq!(
        kinds("===>>>=<=<!=!"),
        vec![
            Token::EE,
            Token::Assign(true),
            Token::Apply,
            Token::GTE,
            Token::LTE,
            Token::LT,
            Token::NE,
            Token::Not,
        ]
    );
}

#[test]
fn brackets_are_single_tokens() {
    assert_eq!(
        kinds("(){}[]"),
        vec![
            Token::LParen,
            Token::RParen,
            Token::LBrace,
            Token::RBrace,
            Token::LBracket,
            Token::RBracket,
        ]
    );
}

#[test]
fn words_are_keywords_or_identifiers() {
    assert_eq!(
        kinds("conff var true false conf _x a-b-9 True"),
        vec![
            Token::Conff,
            Token::Var,
            Token::Bool(true),
            Token::Bool(false),
            Token::Ident("conf".to_string()),
            Token::Ident("_x".to_string()),
            Token::Ident("a-b-9".to_string()),
            Token::Ident("True".to_string()),
        ]
    );
}

#[test]
fn tokens_carry_character_offsets() {
    assert_eq!(
        Token::tokenize("k: \"üé\"\n  n = 12").unwrap(),
        vec![
            lexeme(0, 1, Token::Ident("k".to_string())),
            lexeme(1, 2, Token::Assign(false)),
            lexeme(3, 7, Token::Str("üé".to_string())),
            lexeme(10, 11, Token::Ident("n".to_string())),
            lexeme(12, 13, Token::Assign(true)),
            lexeme(14, 16, Token::Int(12)),
        ]
    );
}

#[test]
fn escapes_are_resolved() {
    assert_eq!(
        kinds("\"a\\n\\t\\\\\\\"b\""),
        vec![Token::Str("a\n\t\\\"b".to_string())]
    );
    assert_eq!(kinds("\"\""), vec![Token::Str(String::new())]);
}

#[test]
fn unknown_escape_is_refused() {
    let err = Token::tokenize("x: \"a\\qb\"").unwrap_err();
    assert_eq!(err.kind, SyntaxErrorKind::InvalidEscape);
    assert_eq!(err.position, Position { start: 6, end: 7 });
    assert_eq!(err.culprit, Culprit::Char('q'));
}

#[test]
fn backslash_at_the_end_of_input_is_refused() {
    let err = Token::tokenize("\"a\\").unwrap_err();
    assert_eq!(err.kind, SyntaxErrorKind::InvalidEscape);
    assert_eq!(err.position, Position { start: 2, end: 3 });
    assert_eq!(err.culprit, Culprit::Char(' '));
}

#[test]
fn comments_produce_no_token() {
    assert_eq!(
        kinds("a // b c\n# whole line\nd # tail\n// end"),
        vec![Token::Ident("a".to_string()), Token::Ident("d".to_string())]
    );
    assert_eq!(kinds("# only a comment"), vec![]);
    assert_eq!(kinds(""), vec![]);
    assert_eq!(kinds(" \t\n"), vec![]);
}

#[test]
fn single_slash_is_unexpected() {
    let err = Token::tokenize("a / b").unwrap_err();
    assert_eq!(err.kind, SyntaxErrorKind::UnexpectedCharacter);
    assert_eq!(err.position, Position { start: 2, end: 3 });
    assert_eq!(err.culprit, Culprit::Char('/'));
}

#[test]
fn unknown_character_is_unexpected() {
    let err = Token::tokenize("a: 1\n@").unwrap_err();
    assert_eq!(err.kind, SyntaxErrorKind::UnexpectedCharacter);
    assert_eq!(err.position, Position { start: 5, end: 6 });
    assert_eq!(err.culprit, Culprit::Char('@'));
    let err = Token::tokenize("é").unwrap_err();
    assert_eq!(err.culprit, Culprit::Char('é'));
    let err = Token::tokenize("a\r\n").unwrap_err();
    assert_eq!(err.culprit, Culprit::Char('\r'));
}

#[test]
fn integers_are_64_bit() {
    assert_eq!(
        kinds("0 007 18446744073709551615"),
        vec![Token::Int(0), Token::Int(7), Token::Int(18446744073709551615)]
    );
}

#[test]
fn integer_overflow_is_refused() {
    let err = Token::tokenize("n: 18446744073709551616;").unwrap_err();
    assert_eq!(err.kind, SyntaxErrorKind::IntegerOverflow);
    assert_eq!(err.position, Position { start: 3, end: 23 });
    let err = Token::tokenize("99999999999999999999999999").unwrap_err();
    assert_eq!(err.kind, SyntaxErrorKind::IntegerOverflow);
    assert_eq!(err.position, Position { start: 0, end: 26 });
}

#[test]
fn digits_followed_by_letters_are_two_tokens() {
    assert_eq!(kinds("12ab"), vec![Token::Int(12), Token::Ident("ab".to_string())]);
}

#[test]
fn characters_and_text_lex_alike() {
    let src = "a.b: { c: \"x\"; }";
    let chars = chars_of(src);
    assert_eq!(chars, src.chars().collect::<Vec<char>>());
    assert_eq!(tokenize_chars(&chars), Token::tokenize(src));
}

#[test]
fn lexing_stops_at_the_first_failure() {
    let err = Token::tokenize("a: 1 ~ \"open").unwrap_err();
    assert_eq!(err.kind, SyntaxErrorKind::UnexpectedCharacter);
    assert_eq!(err.culprit, Culprit::Char('~'));
}
