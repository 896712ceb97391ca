use vstd::prelude::*;
use crate::kscript::error::Error;
use super::parser_container::ParserContainer;
use super::token::Token;
use crate::kscript::controller::Controller;
use crate::kscript::logger::Logger;

verus! {

/// Reads the end of a statement: `;` or a new line.
pub struct EndParser {}

impl EndParser {
    pub fn new() -> (r: EndParser) {
        EndParser {}
    }

    /// Whether this parser takes the character.
    pub fn check(&self, c: char) -> (r: bool)
        ensures
            r == (c == ';' || c == '\n'),
    {
        match c {
            ';' | '\n' => true,
            _ => false,
        }
    }

    /// Reads an end of statement at the current character: tells the logger
    /// of an `End` token, adds the token and moves on, to the next line too
    /// after a new line.
    pub fn parse<T: Logger>(
        &mut self,
        controller: &mut Controller<T>,
        parser_data: &mut ParserContainer,
        current_chars: &mut Vec<char>,
        tokens: &mut Vec<Token>,
    ) -> (r: Result<(), Error>)
        requires
            old(parser_data).char_index() <= old(parser_data).text().len(),
            old(parser_data).char_index() < usize::MAX,
            old(parser_data).line_index() < usize::MAX,
        ensures
            final(current_chars)@ == old(current_chars)@,
            final(parser_data).text() == old(parser_data).text(),
            ({
                let c = old(parser_data).spec_current_char();
                if c == ';' || c == '\n' {
                    &&& r is Ok
                    &&& T::told_token(old(controller).logger(), Token::End, final(controller).logger())
                    &&& final(tokens)@.len() == old(tokens)@.len() + 1
                    &&& final(tokens)@.last() is End
                    &&& final(tokens)@.drop_last() == old(tokens)@
                    &&& final(parser_data).char_index() == old(parser_data).char_index() + 1
                    &&& final(parser_data).line_index() == old(parser_data).line_index() + (if c
                        == '\n' {
                        1int
                    } else {
                        0int
                    })
                } else {
                    &&& r == Err::<(), Error>(
                        Error::CheckMismatch(
                            c,
                            old(parser_data).char_index() as usize,
                            old(parser_data).line_index() as usize,
                        ),
                    )
                    &&& final(tokens)@ == old(tokens)@
                    &&& *final(parser_data) == *old(parser_data)
                    &&& final(controller).logger() == old(controller).logger()
                }
            }),
    {
        match parser_data.get_current_char() {
            ';' => {
                controller.get_logger_mut().parser_add_token(Token::End);
                tokens.push(Token::End);
                parser_data.inc_char();
            },
            '\n' => {
                controller.get_logger_mut().parser_add_token(Token::End);
                tokens.push(Token::End);
                parser_data.inc_line();
                parser_data.inc_char();
            },
            _ => {
                let (c, ci, li) = parser_data.get_as_tuple();
                return Err(Error::CheckMismatch(c, ci, li));
            },
        };
        Ok(())
    }
}

} // verus!
