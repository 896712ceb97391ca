use vstd::prelude::*;

verus! {

/// The text being read, with the index of the current character and of the
/// current line.
pub struct ParserContainer {
    text_vec: Vec<char>,
    current_char: usize,
    current_line: usize,
}

impl ParserContainer {
    pub closed spec fn text(&self) -> Seq<char> {
        self.text_vec@
    }

    pub closed spec fn char_index(&self) -> nat {
        self.current_char as nat
    }

    pub closed spec fn line_index(&self) -> nat {
        self.current_line as nat
    }

    pub open spec fn spec_is_done(&self) -> bool {
        self.char_index() == self.text().len()
    }

    /// The current character; the null character once the text is done.
    pub open spec fn spec_current_char(&self) -> char {
        if self.spec_is_done() {
            '\0'
        } else {
            self.text()[self.char_index() as int]
        }
    }

    pub fn new(text_str: &str) -> (r: ParserContainer)
        ensures
            r.text() == text_str@,
            r.char_index() == 0,
            r.line_index() == 0,
    {
        let mut text_vec: Vec<char> = Vec::new();
        for c in it: text_str.chars()
            invariant
                text_vec@ == it.seq().take(it.index()),
        {
            text_vec.push(c);
        }
        ParserContainer { text_vec: text_vec, current_char: 0, current_line: 0 }
    }

    pub fn is_done(&self) -> (r: bool)
        ensures
            r == self.spec_is_done(),
    {
        self.current_char == self.text_vec.len()
    }

    pub fn get_as_tuple(&self) -> (r: (char, usize, usize))
        requires
            self.char_index() <= self.text().len(),
        ensures
            r == (self.spec_current_char(), self.char_index() as usize, self.line_index() as usize),
    {
        (self.get_current_char(), self.get_current_char_index(), self.get_current_line_index())
    }

    pub fn get_current_char_index(&self) -> (r: usize)
        ensures
            r == self.char_index(),
    {
        self.current_char
    }

    pub fn get_current_line_index(&self) -> (r: usize)
        ensures
            r == self.line_index(),
    {
        self.current_line
    }

    pub fn get_current_char(&self) -> (r: char)
        requires
            self.char_index() <= self.text().len(),
        ensures
            r == self.spec_current_char(),
    {
        if self.is_done() {
            // return null byte so current parser flushes
            return '\0';
        }
        self.text_vec[self.current_char]
    }

    pub fn inc_char(&mut self)
        requires
            old(self).char_index() < usize::MAX,
        ensures
            final(self).text() == old(self).text(),
            final(self).char_index() == old(self).char_index() + 1,
            final(self).line_index() == old(self).line_index(),
    {
        self.current_char += 1;
    }

    pub fn inc_line(&mut self)
        requires
            old(self).line_index() < usize::MAX,
        ensures
            final(self).text() == old(self).text(),
            final(self).char_index() == old(self).char_index(),
            final(self).line_index() == old(self).line_index() + 1,
    {
        self.current_line += 1;
    }
}

} // verus!
