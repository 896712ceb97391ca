use lib::lang::error::LexerError;
use lib::lang::lexer::{create_matchers, lex, Matcher};
use lib::lang::text::CharIter;
use lib::lang::token::Token;

fn lex_text(text: &str) -> Result<Vec<Vec<Token>>, LexerError> {
    let mut iter = CharIter::new(text);
    lex(&mut iter, &create_matchers())
}

#[test]
fn lexes_an_assignment_line() {
    let body = lex_text("a = 1\n").unwrap();
    assert_eq!(body.len(), 1);
    assert_eq!(body[0].len(), 3);
    assert!(matches!(&body[0][0], Token::Var(name) if name == "a"));
    assert!(matches!(body[0][1], Token::Assign));
    assert!(matches!(body[0][2], Token::Integer(1)));
}

#[test]
fn double_semicolon_adds_a_return() {
    let body = lex_text("x == 2;;").unwrap();
    assert_eq!(body.len(), 1);
    assert_eq!(body[0].len(), 4);
    assert!(matches!(&body[0][0], Token::Var(name) if name == "x"));
    assert!(matches!(body[0][1], Token::Equals));
    assert!(matches!(body[0][2], Token::Integer(2)));
    assert!(matches!(body[0][3], Token::Return));
}

#[test]
fn empty_lines_are_dropped() {
    let body = lex_text("\n\n\na\n\n").unwrap();
    assert_eq!(body.len(), 1);
    assert!(matches!(&body[0][0], Token::Var(name) if name == "a"));
    assert!(lex_text("").unwrap().is_empty());
}

#[test]
fn a_semicolon_after_an_end_of_line_is_a_return() {
    let body = lex_text("\n;").unwrap();
    assert_eq!(body.len(), 1);
    assert_eq!(body[0].len(), 1);
    assert!(matches!(body[0][0], Token::Return));
}

#[test]
fn braces_and_parentheses_nest() {
    let body = lex_text("{ a }(1)\n").unwrap();
    assert_eq!(body.len(), 1);
    assert_eq!(body[0].len(), 2);
    match &body[0][0] {
        Token::Block(inner) => {
            assert_eq!(inner.len(), 1);
            assert!(matches!(&inner[0][0], Token::Var(name) if name == "a"));
        }
        other => panic!("expected a block, got {:?}", other),
    }
    match &body[0][1] {
        Token::Group(inner) => {
            assert_eq!(inner.len(), 1);
            assert!(matches!(inner[0][0], Token::Integer(1)));
        }
        other => panic!("expected a group, got {:?}", other),
    }
}

#[test]
fn closing_brace_ends_the_block_being_read() {
    let mut iter = CharIter::new("a } b\n");
    let body = lex(&mut iter, &create_matchers()).unwrap();
    assert_eq!(body.len(), 1);
    assert!(matches!(&body[0][0], Token::Var(name) if name == "a"));
    let rest = lex(&mut iter, &create_matchers()).unwrap();
    assert!(matches!(&rest[0][0], Token::Var(name) if name == "b"));
}

#[test]
fn a_name_at_the_very_end_is_an_error() {
    assert_eq!(lex_text("abc").unwrap_err(), LexerError::EndOfFile);
    assert_eq!(lex_text("a =").unwrap_err(), LexerError::EndOfFile);
}

#[test]
fn floats_keep_their_text() {
    let body = lex_text("1.5\n").unwrap();
    assert!(matches!(&body[0][0], Token::Float(text) if text == "1.5"));
    let body = lex_text("2.e3\n").unwrap();
    assert!(matches!(&body[0][0], Token::Float(text) if text == "2.e3"));
}

#[test]
fn a_second_point_or_a_point_after_letters_is_invalid() {
    assert_eq!(lex_text("1.2.3\n").unwrap_err(), LexerError::InvalidFloat);
    assert_eq!(lex_text("a.b\n").unwrap_err(), LexerError::InvalidFloat);
}

#[test]
fn names_may_start_with_digits() {
    let body = lex_text("12ab\n").unwrap();
    assert!(matches!(&body[0][0], Token::Var(name) if name == "12ab"));
}

#[test]
fn strings_unescape() {
    let body = lex_text("\"a\\tb\\n\\\\\"\n").unwrap();
    assert!(matches!(&body[0][0], Token::String(text) if text == "a\tb\n\\"));
    assert_eq!(lex_text("\"a\\q\"\n").unwrap_err(), LexerError::InvalidStringEscape);
    assert_eq!(lex_text("\"abc").unwrap_err(), LexerError::EndOfFile);
}

#[test]
fn comments_run_to_the_end_of_the_line() {
    let body = lex_text("# note\nx\n").unwrap();
    assert_eq!(body.len(), 2);
    assert!(matches!(&body[0][0], Token::Comment(text) if text == "# note"));
    assert!(matches!(&body[1][0], Token::Var(name) if name == "x"));
}

#[test]
fn greater_marks_read_in_rows() {
    let body = lex_text("> >> >>> ? . + - ! != =< => \n").unwrap();
    let line = &body[0];
    assert!(matches!(line[0], Token::Greater));
    assert!(matches!(line[1], Token::IoWrite));
    assert!(matches!(line[2], Token::IoAppend));
    assert!(matches!(line[3], Token::If));
    assert!(matches!(line[4], Token::CallSelf));
    assert!(matches!(line[5], Token::Add));
    assert!(matches!(line[6], Token::Sub));
    assert!(matches!(line[7], Token::Not));
    assert!(matches!(line[8], Token::NotEquals));
    assert!(matches!(line[9], Token::EqualsGreater));
    assert!(matches!(line[10], Token::EqualsLess));
    assert_eq!(line.len(), 11);
}

#[test]
fn unknown_characters_are_skipped() {
    let body = lex_text("a ^ & b\n").unwrap();
    assert_eq!(body[0].len(), 2);
}

#[test]
fn a_matcher_of_its_own() {
    let m = Matcher::new('<', Token::Less, vec![vec!['<']], vec![vec![Token::IoWrite]]);
    assert!(m.is_match('<'));
    assert!(!m.is_match('>'));
    let mut iter = CharIter::new("< 1\n");
    let body = lex(&mut iter, &vec![m]).unwrap();
    assert!(matches!(body[0][0], Token::Less));
    let m2 = Matcher::new('<', Token::Less, vec![vec!['<']], vec![vec![Token::IoWrite]]);
    let mut iter = CharIter::new("<< 1\n");
    let body = lex(&mut iter, &vec![m2]).unwrap();
    assert!(matches!(body[0][0], Token::IoWrite));
}

#[test]
fn token_copies_are_equal_in_shape() {
    let body = lex_text("{ a (1) }\n").unwrap();
    let copy = body[0][0].deep_clone();
    assert_eq!(format!("{:?}", copy), format!("{:?}", body[0][0]));
}

fn try_lex_text(text: &str) -> Option<Result<Vec<Vec<Token>>, LexerError>> {
    let mut iter = CharIter::new(text);
    lib::lang::lexer::try_lex(&mut iter, &create_matchers())
}

#[test]
fn numbers_that_cannot_be_parsed_are_reported() {
    assert!(try_lex_text("99999999999999999999\n").is_none());
    assert!(try_lex_text("1.5x\n").is_none());
    assert!(try_lex_text("1.5e\n").is_none());
    assert!(try_lex_text("{ 1.5_ }\n").is_none());
    let body = try_lex_text("9223372036854775807 1.5e3 2.E10\n").unwrap().unwrap();
    assert!(matches!(body[0][0], Token::Integer(i64::MAX)));
    assert!(matches!(&body[0][1], Token::Float(t) if t == "1.5e3"));
    assert!(matches!(&body[0][2], Token::Float(t) if t == "2.E10"));
    assert_eq!(try_lex_text("abc").unwrap().unwrap_err(), LexerError::EndOfFile);
}

#[test]
fn a_cursor_over_given_characters() {
    let mut iter = CharIter::from_chars(vec!['a', 'b']);
    assert_eq!(iter.peek(), Some('a'));
    assert_eq!(iter.next(), Some('a'));
    assert_eq!(iter.next(), Some('b'));
    assert_eq!(iter.next(), None);
}
