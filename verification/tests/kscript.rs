use lib::kscript::error::Error;
use lib::kscript::controller::Controller;
use lib::kscript::logger::{DebugLogger, Logger, LoggerEvent, LoggerMode, VoidLogger};
use lib::kscript::parser::end_parser::EndParser;
use lib::kscript::parser::parser_container::ParserContainer;
use lib::kscript::parser::token::Token;

#[test]
fn the_container_walks_characters_and_lines() {
    let mut p = ParserContainer::new("a\nb");
    assert!(!p.is_done());
    assert_eq!(p.get_as_tuple(), ('a', 0, 0));
    p.inc_char();
    p.inc_line();
    assert_eq!(p.get_current_char(), '\n');
    assert_eq!(p.get_current_line_index(), 1);
    p.inc_char();
    p.inc_char();
    assert!(p.is_done());
    assert_eq!(p.get_current_char(), '\0');
    assert_eq!(p.get_current_char_index(), 3);
}

#[test]
fn the_end_parser_takes_ends_of_statements() {
    let mut parser = EndParser::new();
    assert!(parser.check(';'));
    assert!(parser.check('\n'));
    assert!(!parser.check('a'));
    let mut data = ParserContainer::new(";\nx");
    let mut chars = Vec::new();
    let mut tokens = Vec::new();
    let mut controller = Controller::new(VoidLogger::new(LoggerMode::Void));
    parser.parse(&mut controller, &mut data, &mut chars, &mut tokens).unwrap();
    assert_eq!(data.get_as_tuple(), ('\n', 1, 0));
    parser.parse(&mut controller, &mut data, &mut chars, &mut tokens).unwrap();
    assert_eq!(data.get_as_tuple(), ('x', 2, 1));
    assert_eq!(tokens.len(), 2);
    assert!(matches!(tokens[1], Token::End));
    let r = parser.parse(&mut controller, &mut data, &mut chars, &mut tokens);
    assert_eq!(r, Err(Error::CheckMismatch('x', 2, 1)));
    assert_eq!(tokens.len(), 2);
}

#[test]
fn the_end_parser_tells_the_logger_of_each_end() {
    let mut parser = EndParser::new();
    let mut data = ParserContainer::new(";x");
    let mut chars = Vec::new();
    let mut tokens = Vec::new();
    let mut controller = Controller::new(DebugLogger::new(LoggerMode::Stdout));
    parser.parse(&mut controller, &mut data, &mut chars, &mut tokens).unwrap();
    assert!(matches!(
        controller.get_logger_mut().get_last_event(),
        Some(LoggerEvent::ParserAddToken(Token::End))
    ));
    let r = parser.parse(&mut controller, &mut data, &mut chars, &mut tokens);
    assert!(r.is_err());
    assert!(matches!(
        controller.get_logger_mut().get_last_event(),
        Some(LoggerEvent::ParserAddToken(Token::End))
    ));
}

#[test]
fn the_debug_logger_records_events() {
    let mut logger = DebugLogger::new(LoggerMode::Stdout);
    assert!(logger.get_last_event().is_none());
    logger.parser_start();
    assert!(matches!(logger.get_last_event(), Some(LoggerEvent::ParserStart)));
    logger.parser_add_token(Token::Integer(4));
    assert!(matches!(logger.get_last_event(), Some(LoggerEvent::ParserAddToken(Token::Integer(4)))));
    logger.parser_end();
    assert!(matches!(logger.get_last_event(), Some(LoggerEvent::ParserEnd)));
    logger.add_event(LoggerEvent::ParserNextChar('c', 1, 2));
    assert!(matches!(logger.get_last_event(), Some(LoggerEvent::ParserNextChar('c', 1, 2))));
    assert!(matches!(logger.get_mode(), LoggerMode::Stdout));
}

#[test]
fn the_void_logger_keeps_nothing() {
    let mut logger = VoidLogger::new(LoggerMode::Stdout);
    logger.parser_start();
    logger.parser_add_token(Token::Integer(1));
    logger.add_event(LoggerEvent::ParserEnd);
    assert!(logger.get_last_event().is_none());
    assert!(matches!(logger.get_mode(), LoggerMode::Void));
}

#[test]
fn the_controller_hands_out_its_logger() {
    let mut controller = Controller::new(DebugLogger::new(LoggerMode::Stderr));
    controller.get_logger_mut().parser_start();
    controller.get_logger_mut().parser_end();
    assert!(matches!(controller.get_logger_mut().get_last_event(), Some(LoggerEvent::ParserEnd)));
    assert!(matches!(controller.get_logger_mut().get_mode(), LoggerMode::Stderr));
}

#[test]
fn the_next_character_is_not_recorded() {
    let mut logger = DebugLogger::new(LoggerMode::Stdout);
    logger.parser_start();
    logger.parser_next_char('a', 0, 0);
    assert!(matches!(logger.get_last_event(), Some(LoggerEvent::ParserStart)));
}
