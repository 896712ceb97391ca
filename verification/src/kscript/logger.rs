use vstd::prelude::*;
use crate::kscript::parser::token::Token;

verus! {

/// Where a logger writes.
#[derive(Debug, Clone)]
pub enum LoggerMode {
    Void,
    Stdout,
    Stderr,
    // filename
    File(String),
}

/// Something that happened while a program was read.
#[derive(Debug)]
pub enum LoggerEvent {
    ParserStart,
    // char, index, line
    ParserNextChar(char, usize, usize),
    ParserAddToken(Token),
    ParserEnd,
}

/// What the parser reports while it reads. A logger keeps the events it
/// is told of, or drops them; by default it drops them and writes nothing.
pub trait Logger: Sized {
    fn new(mode: LoggerMode) -> Self;

    /// Where the logger writes; unless a logger says otherwise, nowhere.
    fn get_mode(&self) -> (r: &LoggerMode)
        default_ensures
            *r == LoggerMode::Void,
    {
        &LoggerMode::Void
    }

    fn add_event(&mut self, _event: LoggerEvent) {
    }

    /// The event recorded last; a logger that keeps no events has none.
    fn get_last_event(&self) -> (r: Option<&LoggerEvent>)
        default_ensures
            r is None,
    {
        None
    }

    fn parser_start(&mut self) {
    }

    fn parser_next_char(&mut self, _c: char, _c_index: usize, _l_index: usize) {
    }

    /// Whether `after` is this logger once it was told of a token the
    /// parser added.
    spec fn told_token(self, token: Token, after: Self) -> bool;

    fn parser_add_token(&mut self, token: Token)
        ensures
            Self::told_token(*old(self), token, *final(self)),
    ;

    fn parser_end(&mut self) {
    }
}

/// A logger that writes nothing.
#[derive(Debug)]
pub struct VoidLogger {}

impl Logger for VoidLogger {
    fn new(_mode: LoggerMode) -> (r: VoidLogger) {
        VoidLogger {}
    }

    /// A token changes nothing: the logger keeps nothing.
    open spec fn told_token(self, token: Token, after: Self) -> bool {
        after == self
    }

    fn parser_add_token(&mut self, _token: Token) {
    }
}

/// A logger that records every event; after each event of the parser the
/// caller writes the last one out, as the mode says.
#[derive(Debug)]
pub struct DebugLogger {
    mode: LoggerMode,
    events: Vec<LoggerEvent>,
}

impl DebugLogger {
    pub closed spec fn mode(&self) -> LoggerMode {
        self.mode
    }

    /// The events recorded so far, oldest first.
    pub closed spec fn events(&self) -> Seq<LoggerEvent> {
        self.events@
    }
}

impl Logger for DebugLogger {
    fn new(mode: LoggerMode) -> (r: DebugLogger)
        ensures
            r.mode() == mode,
            r.events() == Seq::<LoggerEvent>::empty(),
    {
        DebugLogger { mode: mode, events: Vec::new() }
    }

    fn get_mode(&self) -> (r: &LoggerMode)
        ensures
            *r == self.mode(),
    {
        &self.mode
    }

    fn add_event(&mut self, event: LoggerEvent)
        ensures
            final(self).mode() == old(self).mode(),
            final(self).events() == old(self).events().push(event),
    {
        self.events.push(event);
    }

    /// The event recorded last, if any.
    fn get_last_event(&self) -> (r: Option<&LoggerEvent>)
        ensures
            self.events().len() == 0 ==> r is None,
            self.events().len() > 0 ==> r == Some(&self.events().last()),
    {
        if self.events.len() == 0 {
            None
        } else {
            Some(&self.events[self.events.len() - 1])
        }
    }

    fn parser_start(&mut self)
        ensures
            final(self).mode() == old(self).mode(),
            final(self).events() == old(self).events().push(LoggerEvent::ParserStart),
    {
        self.add_event(LoggerEvent::ParserStart);
    }

    /// The token is recorded as the last event; the mode stays.
    open spec fn told_token(self, token: Token, after: Self) -> bool {
        after.mode() == self.mode() && after.events() == self.events().push(
            LoggerEvent::ParserAddToken(token),
        )
    }

    fn parser_add_token(&mut self, token: Token)
        ensures
            final(self).mode() == old(self).mode(),
            final(self).events() == old(self).events().push(LoggerEvent::ParserAddToken(token)),
    {
        self.add_event(LoggerEvent::ParserAddToken(token));
    }

    fn parser_end(&mut self)
        ensures
            final(self).mode() == old(self).mode(),
            final(self).events() == old(self).events().push(LoggerEvent::ParserEnd),
    {
        self.add_event(LoggerEvent::ParserEnd);
    }
}

} // verus!
