use vstd::prelude::*;
use vstd::utf8::encode_utf8;

verus! {

/// A cursor over the characters of a source text: the counterpart of a
/// peekable character iterator.
pub struct CharIter {
    chars: Vec<char>,
    pos: usize,
}

impl CharIter {
    /// The whole text the cursor walks over.
    pub closed spec fn text(&self) -> Seq<char> {
        self.chars@
    }

    /// The index of the next character to be read.
    pub closed spec fn at(&self) -> int {
        self.pos as int
    }

    pub open spec fn wf(&self) -> bool {
        0 <= self.at() <= self.text().len()
    }

    pub fn new(text: &str) -> (r: CharIter)
        ensures
            r.text() == text@,
            r.at() == 0,
            r.wf(),
    {
        CharIter { chars: chars_of(text), pos: 0 }
    }

    pub fn from_chars(chars: Vec<char>) -> (r: CharIter)
        ensures
            r.text() == chars@,
            r.at() == 0,
            r.wf(),
    {
        CharIter { chars, pos: 0 }
    }

    pub fn peek(&self) -> (r: Option<char>)
        requires
            self.wf(),
        ensures
            r == (if self.at() < self.text().len() {
                Some(self.text()[self.at()])
            } else {
                None::<char>
            }),
    {
        if self.pos < self.chars.len() {
            Some(self.chars[self.pos])
        } else {
            None
        }
    }

    pub fn next(&mut self) -> (r: Option<char>)
        requires
            old(self).wf(),
        ensures
            final(self).wf(),
            final(self).text() == old(self).text(),
            r == (if old(self).at() < old(self).text().len() {
                Some(old(self).text()[old(self).at()])
            } else {
                None::<char>
            }),
            final(self).at() == (if old(self).at() < old(self).text().len() {
                old(self).at() + 1
            } else {
                old(self).at()
            }),
    {
        if self.pos < self.chars.len() {
            let c = self.chars[self.pos];
            self.pos = self.pos + 1;
            Some(c)
        } else {
            None
        }
    }
}

} // verus!

verus! {

/// Appends one character to a string (`String::push`).
#[verifier::external_body]
pub(crate) fn push_char(s: &mut String, c: char)
    ensures
        final(s)@ == old(s)@.push(c),
{
    s.push(c);
}

/// The byte position, in the UTF-8 encoding of `s`, at which its character
/// `k` starts.
pub open spec fn byte_pos(s: Seq<char>, k: int) -> int {
    encode_utf8(s.take(k)).len() as int
}

/// Removes the character that starts at byte `idx` and returns it
/// (`String::remove`). The call panics where `idx` is not the start of a
/// character, so the contract asks that it be one.
#[verifier::external_body]
pub(crate) fn string_remove(s: &mut String, idx: usize) -> (r: char)
    requires
        exists|k: int| 0 <= k < old(s)@.len() && byte_pos(old(s)@, k) == idx,
    ensures
        forall|k: int|
            0 <= k < old(s)@.len() && byte_pos(old(s)@, k) == idx ==> final(s)@ == old(s)@.remove(k)
                && r == old(s)@[k],
{
    s.remove(idx)
}

/// Inserts a character at byte `idx` (`String::insert`). The call panics
/// where `idx` is not a character boundary, so the contract asks that it be
/// one.
#[verifier::external_body]
pub(crate) fn string_insert(s: &mut String, idx: usize, c: char)
    requires
        exists|k: int| 0 <= k <= old(s)@.len() && byte_pos(old(s)@, k) == idx,
    ensures
        forall|k: int|
            0 <= k <= old(s)@.len() && byte_pos(old(s)@, k) == idx ==> final(s)@ == old(s)@.insert(k, c),
{
    s.insert(idx, c);
}

/// The characters of a text, in order.
pub fn chars_of(text: &str) -> (r: Vec<char>)
    ensures
        r@ == text@,
{
    let mut chars: Vec<char> = Vec::new();
    for c in it: text.chars()
        invariant
            chars@ == it.seq().take(it.index()),
    {
        chars.push(c);
    }
    chars
}

/// The string made of the given characters, in order.
pub fn string_from_chars(chars: &Vec<char>) -> (r: String)
    ensures
        r@ == chars@,
{
    let mut s = String::new();
    let mut i: usize = 0;
    while i < chars.len()
        invariant
            i <= chars.len(),
            s@ == chars@.take(i as int),
        decreases chars.len() - i,
    {
        push_char(&mut s, chars[i]);
        i = i + 1;
        assert(chars@.take(i as int) == chars@.take(i - 1).push(chars@[i - 1]));
    }
    assert(chars@.take(chars.len() as int) == chars@);
    s
}

} // verus!
