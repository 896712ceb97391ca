use vstd::prelude::*;
use crate::lang::error::LexerError;
use crate::lang::text::{CharIter, string_from_chars};
use crate::lang::token::{
    Token, SToken, TokenBody, view_token, view_line, view_tbody, lemma_view_line_push,
    lemma_view_tbody_push, lemma_view_tokens_empty,
};
use crate::lang::builder::ast::grammar::{is_letter, is_digit, is_ident_char, decimal_value, in_text};
use crate::lang::builder::ast::{is_letter_char, is_digit_char, is_ident, parse_decimal};

verus! {

/// The outcome of lexing from a position of a text.
pub enum Lexed<T> {
    /// What was read, and the position of the first character after it.
    Done(T, int),
    /// Lexing stops with this error.
    Fail(LexerError),
    /// Lexing panics: a number literal that cannot be parsed.
    Panic,
}

pub open spec fn all_digits(r: Seq<char>) -> bool {
    forall|i: int| 0 <= i < r.len() ==> is_digit(#[trigger] r[i])
}

/// The index of the first `c` in `r` from `i` on, or the length of `r`.
pub open spec fn first_index(r: Seq<char>, c: char, i: int) -> int
    decreases r.len() - i,
{
    if i >= r.len() {
        r.len() as int
    } else if r[i] == c {
        i
    } else {
        first_index(r, c, i + 1)
    }
}

/// The index of the first exponent mark (`e` or `E`) in `r` from `i` on, or
/// the length of `r`.
pub open spec fn first_exp(r: Seq<char>, i: int) -> int
    decreases r.len() - i,
{
    if i >= r.len() {
        r.len() as int
    } else if r[i] == 'e' || r[i] == 'E' {
        i
    } else {
        first_exp(r, i + 1)
    }
}

/// What follows the point of a float literal: digits, then optionally an
/// exponent mark and at least one digit.
pub open spec fn float_tail_ok(r: Seq<char>) -> bool {
    let j = first_exp(r, 0);
    all_digits(r.take(j)) && (j == r.len() || (j + 1 < r.len() && all_digits(r.skip(j + 1))))
}

/// A float literal of the lexer (digits, a point, then letters, digits or
/// `_`) that the standard float parser accepts.
pub open spec fn float_text_ok(t: Seq<char>) -> bool {
    let k = first_index(t, '.', 0);
    k < t.len() && float_tail_ok(t.skip(k + 1))
}

/// A comment: from the `#` up to, and not including, the end of the line.
pub open spec fn sp_lex_comment(s: Seq<char>, p: int, acc: Seq<char>) -> Lexed<SToken>
    decreases s.len() - p,
{
    if !in_text(s, p) {
        Lexed::Panic
    } else if p == s.len() {
        Lexed::Fail(LexerError::EndOfFile)
    } else if s[p] == '\n' {
        Lexed::Done(SToken::Comment(acc), p)
    } else {
        sp_lex_comment(s, p + 1, acc.push(s[p]))
    }
}

/// A name, an integer or a float: letters, digits and `_`, with at most one
/// `.` in a literal that started as an integer.
pub open spec fn sp_var_number(
    s: Seq<char>,
    p: int,
    acc: Seq<char>,
    is_integer: bool,
    is_float: bool,
) -> Lexed<SToken>
    decreases s.len() - p,
{
    if !in_text(s, p) {
        Lexed::Panic
    } else if p == s.len() {
        Lexed::Fail(LexerError::EndOfFile)
    } else if s[p] == '_' || is_letter(s[p]) {
        sp_var_number(s, p + 1, acc.push(s[p]), false, is_float)
    } else if is_digit(s[p]) {
        sp_var_number(s, p + 1, acc.push(s[p]), is_integer, is_float)
    } else if s[p] == '.' {
        if !is_integer || is_float {
            Lexed::Fail(LexerError::InvalidFloat)
        } else {
            sp_var_number(s, p + 1, acc.push('.'), is_integer, true)
        }
    } else if is_float {
        if float_text_ok(acc) {
            Lexed::Done(SToken::Float(acc), p)
        } else {
            Lexed::Panic
        }
    } else if is_integer {
        if acc.len() > 0 && decimal_value(acc) <= i64::MAX {
            Lexed::Done(SToken::Integer(decimal_value(acc)), p)
        } else {
            Lexed::Panic
        }
    } else {
        Lexed::Done(SToken::Var(acc), p)
    }
}

/// The inside of a string literal, up to and including the closing quote.
pub open spec fn sp_lex_string_body(s: Seq<char>, p: int, acc: Seq<char>) -> Lexed<SToken>
    decreases s.len() - p,
{
    if !in_text(s, p) {
        Lexed::Panic
    } else if p == s.len() {
        Lexed::Fail(LexerError::EndOfFile)
    } else if s[p] == '"' {
        Lexed::Done(SToken::String(acc), p + 1)
    } else if s[p] == '\\' {
        if p + 1 == s.len() {
            Lexed::Fail(LexerError::EndOfFile)
        } else if s[p + 1] == 'n' {
            sp_lex_string_body(s, p + 2, acc.push('\n'))
        } else if s[p + 1] == 't' {
            sp_lex_string_body(s, p + 2, acc.push('\t'))
        } else if s[p + 1] == '\\' {
            sp_lex_string_body(s, p + 2, acc.push('\\'))
        } else {
            Lexed::Fail(LexerError::InvalidStringEscape)
        }
    } else {
        sp_lex_string_body(s, p + 1, acc.push(s[p]))
    }
}

/// A matcher: the token for a character `base`, turned into another token
/// when the next characters are found in the rows of `chars` in turn.
pub struct SMatcher {
    pub base: char,
    pub base_token: SToken,
    pub chars: Seq<Seq<char>>,
    pub tokens: Seq<Seq<SToken>>,
}

impl SMatcher {
    /// Each row of characters has a token for each of its characters.
    pub open spec fn wf(self) -> bool {
        &&& self.chars.len() == self.tokens.len()
        &&& forall|i: int| 0 <= i < self.chars.len() ==> #[trigger] self.chars[i].len() == self.tokens[i].len()
    }
}

/// What a matcher reads after its base character, from row `o` on, having
/// the token `tok` so far.
pub open spec fn sp_do_match(m: SMatcher, s: Seq<char>, p: int, o: int, tok: SToken) -> Lexed<SToken>
    decreases m.chars.len() - o,
{
    if !in_text(s, p) || o < 0 {
        Lexed::Panic
    } else if o >= m.chars.len() {
        Lexed::Done(tok, p)
    } else if p == s.len() {
        Lexed::Fail(LexerError::EndOfFile)
    } else {
        let k = first_index(m.chars[o], s[p], 0);
        if k < m.chars[o].len() {
            sp_do_match(m, s, p + 1, o + 1, m.tokens[o][k])
        } else {
            Lexed::Done(tok, p)
        }
    }
}

/// The first matcher from index `i` on whose base is `c` (the character at
/// `p`) reads its token; `None` when there is none.
pub open spec fn sp_run_matcher(ms: Seq<SMatcher>, i: int, c: char, s: Seq<char>, p: int) -> Lexed<
    Option<SToken>,
>
    decreases ms.len() - i,
{
    if i < 0 || i >= ms.len() {
        Lexed::Done(None, p)
    } else if ms[i].base == c {
        match sp_do_match(ms[i], s, p + 1, 0, ms[i].base_token) {
            Lexed::Done(t, q) => Lexed::Done(Some(t), q),
            Lexed::Fail(e) => Lexed::Fail(e),
            Lexed::Panic => Lexed::Panic,
        }
    } else {
        sp_run_matcher(ms, i + 1, c, s, p)
    }
}

/// A block gets the line being read only when that line holds a token.
pub open spec fn push_line(body: Seq<Seq<SToken>>, line: Seq<SToken>) -> Seq<Seq<SToken>> {
    if line.len() > 0 {
        body.push(line)
    } else {
        body
    }
}

/// The lines of tokens from position `p` up to a closing `}` or `)` (read),
/// or to the end of the text.
pub open spec fn sp_lex(
    s: Seq<char>,
    p: int,
    ms: Seq<SMatcher>,
    body: Seq<Seq<SToken>>,
    line: Seq<SToken>,
) -> Lexed<Seq<Seq<SToken>>>
    decreases s.len() - p,
{
    if !in_text(s, p) {
        Lexed::Panic
    } else if p == s.len() {
        Lexed::Done(push_line(body, line), p)
    } else {
        let c = s[p];
        if c == '\n' || c == ';' {
            let line2 = if p + 1 < s.len() && s[p + 1] == ';' {
                line.push(SToken::Return)
            } else {
                line
            };
            sp_lex(s, p + 1, ms, push_line(body, line2), Seq::empty())
        } else if c == '}' || c == ')' {
            Lexed::Done(push_line(body, line), p + 1)
        } else if c == '{' || c == '(' {
            match sp_lex(s, p + 1, ms, Seq::empty(), Seq::empty()) {
                Lexed::Done(b, q) => {
                    if !(p < q <= s.len()) {
                        Lexed::Panic
                    } else {
                        let t = if c == '{' {
                            SToken::Block(b)
                        } else {
                            SToken::Group(b)
                        };
                        sp_lex(s, q, ms, body, line.push(t))
                    }
                },
                Lexed::Fail(e) => Lexed::Fail(e),
                Lexed::Panic => Lexed::Panic,
            }
        } else if c == '#' || is_ident_char(c) || c == '"' {
            let r = if c == '#' {
                sp_lex_comment(s, p, Seq::empty())
            } else if c == '"' {
                sp_lex_string_body(s, p + 1, Seq::empty())
            } else {
                sp_var_number(s, p, Seq::empty(), true, false)
            };
            match r {
                Lexed::Done(t, q) => {
                    if !(p < q <= s.len()) {
                        Lexed::Panic
                    } else {
                        sp_lex(s, q, ms, body, line.push(t))
                    }
                },
                Lexed::Fail(e) => Lexed::Fail(e),
                Lexed::Panic => Lexed::Panic,
            }
        } else {
            match sp_run_matcher(ms, 0, c, s, p) {
                Lexed::Done(Some(t), q) => {
                    if !(p < q <= s.len()) {
                        Lexed::Panic
                    } else {
                        sp_lex(s, q, ms, body, line.push(t))
                    }
                },
                Lexed::Done(None, _) => sp_lex(s, p + 1, ms, body, line),
                Lexed::Fail(e) => Lexed::Fail(e),
                Lexed::Panic => Lexed::Panic,
            }
        }
    }
}

/// Every line of a block holds at least one token.
pub open spec fn lines_nonempty(b: Seq<Seq<SToken>>) -> bool {
    forall|k: int| 0 <= k < b.len() ==> (#[trigger] b[k]).len() > 0
}

/// Lexing never yields an empty line: a line without a token is dropped.
pub proof fn law_lex_lines_nonempty(
    s: Seq<char>,
    p: int,
    ms: Seq<SMatcher>,
    body: Seq<Seq<SToken>>,
    line: Seq<SToken>,
)
    requires
        lines_nonempty(body),
    ensures
        sp_lex(s, p, ms, body, line) matches Lexed::Done(b, _) ==> lines_nonempty(b),
    decreases s.len() - p,
{
    if in_text(s, p) && p < s.len() {
        let c = s[p];
        if c == '\n' || c == ';' {
            let line2 = if p + 1 < s.len() && s[p + 1] == ';' {
                line.push(SToken::Return)
            } else {
                line
            };
            law_lex_lines_nonempty(s, p + 1, ms, push_line(body, line2), Seq::empty());
        } else if c == '}' || c == ')' {
        } else if c == '{' || c == '(' {
            if let Lexed::Done(b, q) = sp_lex(s, p + 1, ms, Seq::empty(), Seq::empty()) {
                if p < q <= s.len() {
                    let t = if c == '{' {
                        SToken::Block(b)
                    } else {
                        SToken::Group(b)
                    };
                    law_lex_lines_nonempty(s, q, ms, body, line.push(t));
                }
            }
        } else if c == '#' || is_ident_char(c) || c == '"' {
            let r = if c == '#' {
                sp_lex_comment(s, p, Seq::empty())
            } else if c == '"' {
                sp_lex_string_body(s, p + 1, Seq::empty())
            } else {
                sp_var_number(s, p, Seq::empty(), true, false)
            };
            if let Lexed::Done(t, q) = r {
                if p < q <= s.len() {
                    law_lex_lines_nonempty(s, q, ms, body, line.push(t));
                }
            }
        } else {
            match sp_run_matcher(ms, 0, c, s, p) {
                Lexed::Done(Some(t), q) => {
                    if p < q <= s.len() {
                        law_lex_lines_nonempty(s, q, ms, body, line.push(t));
                    }
                },
                Lexed::Done(None, _) => {
                    law_lex_lines_nonempty(s, p + 1, ms, body, line);
                },
                _ => {},
            }
        }
    }
}

/// `r` is what lexing gives where `spec` describes it;/// `r` is what lexing gives where `spec` describes it; after a success the
/// cursor stands at `at`.
pub open spec fn agrees_token(spec: Lexed<SToken>, r: Result<Token, LexerError>, at: int) -> bool {
    match spec {
        Lexed::Done(v, q) => r matches Ok(t) && t@ == v && at == q,
        Lexed::Fail(e) => r == Err::<Token, LexerError>(e),
        Lexed::Panic => false,
    }
}

pub open spec fn agrees_opt_token(
    spec: Lexed<Option<SToken>>,
    r: Result<Option<Token>, LexerError>,
    at: int,
) -> bool {
    match spec {
        Lexed::Done(v, q) => at == q && match r {
            Ok(Some(t)) => v == Some(t@),
            Ok(None) => v is None,
            Err(_) => false,
        },
        Lexed::Fail(e) => r == Err::<Option<Token>, LexerError>(e),
        Lexed::Panic => false,
    }
}

pub open spec fn agrees_tbody(
    spec: Lexed<Seq<Seq<SToken>>>,
    r: Result<TokenBody, LexerError>,
    at: int,
) -> bool {
    match spec {
        Lexed::Done(v, q) => r matches Ok(b) && view_tbody(b@) == v && at == q,
        Lexed::Fail(e) => r == Err::<TokenBody, LexerError>(e),
        Lexed::Panic => false,
    }
}

/// A matcher of the lexer (see [`SMatcher`]).
#[derive(Debug)]
pub struct Matcher {
    base: char,
    base_token: Token,
    chars: Vec<Vec<char>>,
    tokens: Vec<Vec<Token>>,
}

impl View for Matcher {
    type V = SMatcher;

    closed spec fn view(&self) -> SMatcher {
        SMatcher {
            base: self.base,
            base_token: self.base_token@,
            chars: self.chars@.map_values(|r: Vec<char>| r@),
            tokens: view_tbody(self.tokens@),
        }
    }
}

/// The views of a list of matchers.
pub open spec fn matchers_view(ms: Seq<Matcher>) -> Seq<SMatcher> {
    ms.map_values(|m: Matcher| m@)
}

pub open spec fn all_wf(ms: Seq<Matcher>) -> bool {
    forall|i: int| 0 <= i < ms.len() ==> (#[trigger] ms[i])@.wf()
}

/// The next character, or the end of the text as an error.
fn peek_next_char(iter: &CharIter) -> (r: Result<char, LexerError>)
    requires
        iter.wf(),
    ensures
        r == (if iter.at() < iter.text().len() {
            Ok::<char, LexerError>(iter.text()[iter.at()])
        } else {
            Err::<char, LexerError>(LexerError::EndOfFile)
        }),
{
    match iter.peek() {
        Some(c) => Ok(c),
        None => Err(LexerError::EndOfFile),
    }
}

/// The index of the first `c` in `row`, or the length of `row`.
fn find_char(row: &Vec<char>, c: char) -> (r: usize)
    ensures
        r == first_index(row@, c, 0),
        r <= row.len(),
        r < row.len() ==> row@[r as int] == c,
{
    let mut i: usize = 0;
    while i < row.len()
        invariant
            i <= row.len(),
            first_index(row@, c, i as int) == first_index(row@, c, 0),
        decreases row.len() - i,
    {
        if row[i] == c {
            return i;
        }
        i = i + 1;
    }
    i
}

impl Matcher {
    pub fn new(base: char, base_token: Token, chars: Vec<Vec<char>>, tokens: Vec<Vec<Token>>) -> (r:
        Matcher)
        ensures
            r@ == (SMatcher {
                base,
                base_token: base_token@,
                chars: chars@.map_values(|row: Vec<char>| row@),
                tokens: view_tbody(tokens@),
            }),
    {
        Matcher { base, base_token, chars, tokens }
    }

    pub fn is_match(&self, c: char) -> (r: bool)
        ensures
            r == (self@.base == c),
    {
        self.base == c
    }

    /// Reads what follows the base character (already read) and gives the
    /// token it makes.
    pub fn do_match(&self, iter: &mut CharIter) -> (r: Result<Token, LexerError>)
        requires
            self@.wf(),
            old(iter).wf(),
        ensures
            final(iter).wf(),
            final(iter).text() == old(iter).text(),
            agrees_token(
                sp_do_match(self@, old(iter).text(), old(iter).at(), 0, self@.base_token),
                r,
                final(iter).at(),
            ),
            r is Ok ==> final(iter).at() >= old(iter).at(),
    {
        let ghost m = self@;
        let mut token = self.base_token.deep_clone();
        let mut outer: usize = 0;
        while outer < self.chars.len()
            invariant
                iter.wf(),
                iter.text() == old(iter).text(),
                old(iter).at() <= iter.at(),
                outer <= self.chars.len(),
                m == self@,
                m.wf(),
                sp_do_match(m, iter.text(), iter.at(), outer as int, token@) == sp_do_match(
                    m,
                    old(iter).text(),
                    old(iter).at(),
                    0,
                    m.base_token,
                ),
            decreases self.chars.len() - outer,
        {
            let c = match peek_next_char(iter) {
                Ok(c) => c,
                Err(e) => return Err(e),
            };
            let k = find_char(&self.chars[outer], c);
            assert(m.chars[outer as int] == self.chars@[outer as int]@);
            if k == self.chars[outer].len() {
                return Ok(token);
            }
            assert(m.tokens[outer as int] == view_line(self.tokens@[outer as int]@));
            assert(m.tokens[outer as int][k as int] == view_token(self.tokens@[outer as int]@[k as int]));
            token = self.tokens[outer][k].deep_clone();
            iter.next();
            outer = outer + 1;
        }
        Ok(token)
    }
}

/// The matchers for the operators: `=`, `+`, `-`, `!`, `.`, `>` and `?`.
pub open spec fn sp_matchers() -> Seq<SMatcher> {
    seq![
        SMatcher {
            base: '=',
            base_token: SToken::Assign,
            chars: seq![seq!['=', '<', '>']],
            tokens: seq![seq![SToken::Equals, SToken::EqualsGreater, SToken::EqualsLess]],
        },
        SMatcher { base: '+', base_token: SToken::Add, chars: seq![], tokens: seq![] },
        SMatcher { base: '-', base_token: SToken::Sub, chars: seq![], tokens: seq![] },
        SMatcher {
            base: '!',
            base_token: SToken::Not,
            chars: seq![seq!['=']],
            tokens: seq![seq![SToken::NotEquals]],
        },
        SMatcher { base: '.', base_token: SToken::CallSelf, chars: seq![], tokens: seq![] },
        SMatcher {
            base: '>',
            base_token: SToken::Greater,
            chars: seq![seq!['>'], seq!['>']],
            tokens: seq![seq![SToken::IoWrite], seq![SToken::IoAppend]],
        },
        SMatcher { base: '?', base_token: SToken::If, chars: seq![], tokens: seq![] },
    ]
}

/// The matchers that [`lex`] uses for operators.
pub fn create_matchers() -> (r: Vec<Matcher>)
    ensures
        matchers_view(r@) == sp_matchers(),
        all_wf(r@),
{
    let m0 = Matcher::new(
        '=',
        Token::Assign,
        vec![vec!['=', '<', '>']],
        vec![vec![Token::Equals, Token::EqualsGreater, Token::EqualsLess]],
    );
    let m1 = Matcher::new('+', Token::Add, Vec::new(), Vec::new());
    let m2 = Matcher::new('-', Token::Sub, Vec::new(), Vec::new());
    let m3 = Matcher::new('!', Token::Not, vec![vec!['=']], vec![vec![Token::NotEquals]]);
    let m4 = Matcher::new('.', Token::CallSelf, Vec::new(), Vec::new());
    let m5 = Matcher::new(
        '>',
        Token::Greater,
        vec![vec!['>'], vec!['>']],
        vec![vec![Token::IoWrite], vec![Token::IoAppend]],
    );
    let m6 = Matcher::new('?', Token::If, Vec::new(), Vec::new());
    let ghost sm = sp_matchers();
    proof {
        lemma_view_tokens_empty();
        assert(m0@.chars =~= sm[0].chars);
        assert(view_line(seq![Token::Equals, Token::EqualsGreater, Token::EqualsLess]) =~= seq![
            SToken::Equals,
            SToken::EqualsGreater,
            SToken::EqualsLess,
        ]);
        assert(m0@.tokens =~= sm[0].tokens);
        assert(m1@.chars =~= sm[1].chars);
        assert(m2@.chars =~= sm[2].chars);
        assert(m3@.chars.len() == 1);
        assert(m3@.chars[0] =~= seq!['=']);
        assert(m3@.chars =~= sm[3].chars);
        assert(view_line(seq![Token::NotEquals]) =~= seq![SToken::NotEquals]);
        assert(m3@.tokens.len() == 1);
        assert(m3@.tokens[0] == view_line(seq![Token::NotEquals]));
        assert(m3@.tokens =~= sm[3].tokens);
        assert(m4@.chars =~= sm[4].chars);
        assert(m5@.chars.len() == 2);
        assert(m5@.chars[0] =~= seq!['>']);
        assert(m5@.chars[1] =~= seq!['>']);
        assert(m5@.chars =~= sm[5].chars);
        assert(view_line(seq![Token::IoWrite]) =~= seq![SToken::IoWrite]);
        assert(view_line(seq![Token::IoAppend]) =~= seq![SToken::IoAppend]);
        assert(m5@.tokens.len() == 2);
        assert(m5@.tokens[0] == view_line(seq![Token::IoWrite]));
        assert(m5@.tokens[1] == view_line(seq![Token::IoAppend]));
        assert(m5@.tokens =~= sm[5].tokens);
        assert(m6@.chars =~= sm[6].chars);
    }
    let r = vec![m0, m1, m2, m3, m4, m5, m6];
    assert(matchers_view(r@) =~= sm);
    r
}

/// Runs the first matcher whose base is `c`, the character at the cursor.
fn run_matcher(c: char, iter: &mut CharIter, matchers: &Vec<Matcher>) -> (r: Result<
    Option<Token>,
    LexerError,
>)
    requires
        old(iter).wf(),
        old(iter).at() < old(iter).text().len(),
        old(iter).text()[old(iter).at()] == c,
        all_wf(matchers@),
    ensures
        final(iter).wf(),
        final(iter).text() == old(iter).text(),
        agrees_opt_token(
            sp_run_matcher(matchers_view(matchers@), 0, c, old(iter).text(), old(iter).at()),
            r,
            final(iter).at(),
        ),
        r matches Ok(Some(_)) ==> final(iter).at() > old(iter).at(),
        r matches Ok(None) ==> final(iter).at() == old(iter).at(),
{
    let ghost ms = matchers_view(matchers@);
    let mut i: usize = 0;
    while i < matchers.len()
        invariant
            i <= matchers.len(),
            ms == matchers_view(matchers@),
            all_wf(matchers@),
            iter == old(iter),
            iter.wf(),
            iter.at() < iter.text().len(),
            iter.text()[iter.at()] == c,
            sp_run_matcher(ms, i as int, c, iter.text(), iter.at()) == sp_run_matcher(
                ms,
                0,
                c,
                iter.text(),
                iter.at(),
            ),
        decreases matchers.len() - i,
    {
        assert(ms[i as int] == matchers@[i as int]@);
        if matchers[i].is_match(c) {
            iter.next();
            return match matchers[i].do_match(iter) {
                Ok(t) => Ok(Some(t)),
                Err(e) => Err(e),
            };
        }
        i = i + 1;
    }
    Ok(None)
}

fn load_comment(iter: &mut CharIter) -> (r: Result<Token, LexerError>)
    requires
        old(iter).wf(),
    ensures
        final(iter).wf(),
        final(iter).text() == old(iter).text(),
        agrees_token(
            sp_lex_comment(old(iter).text(), old(iter).at(), Seq::empty()),
            r,
            final(iter).at(),
        ),
        r is Ok ==> final(iter).at() >= old(iter).at(),
        r is Ok && old(iter).at() < old(iter).text().len() && old(iter).text()[old(iter).at()] != '\n'
            ==> final(iter).at() > old(iter).at(),
{
    let mut string: Vec<char> = Vec::new();
    loop
        invariant
            string@.len() == iter.at() - old(iter).at(),
            iter.wf(),
            iter.text() == old(iter).text(),
            old(iter).at() <= iter.at(),
            sp_lex_comment(iter.text(), iter.at(), string@) == sp_lex_comment(
                old(iter).text(),
                old(iter).at(),
                Seq::empty(),
            ),
        ensures
            iter.at() < iter.text().len(),
            iter.text()[iter.at()] == '\n',
        decreases iter.text().len() - iter.at(),
    {
        let c = match peek_next_char(iter) {
            Ok(c) => c,
            Err(e) => return Err(e),
        };
        if c == '\n' {
            break ;
        }
        string.push(c);
        iter.next();
    }
    Ok(Token::Comment(string_from_chars(&string)))
}

/// Reads a name or a number; `None` where the number cannot be parsed.
fn load_var_number(iter: &mut CharIter) -> (r: Option<Result<Token, LexerError>>)
    requires
        old(iter).wf(),
    ensures
        final(iter).wf(),
        final(iter).text() == old(iter).text(),
        match sp_var_number(old(iter).text(), old(iter).at(), Seq::empty(), true, false) {
            Lexed::Panic => r is None,
            spec => r matches Some(x) && agrees_token(spec, x, final(iter).at()),
        },
        r matches Some(Ok(_)) ==> final(iter).at() >= old(iter).at(),
        r matches Some(Ok(_)) && old(iter).at() < old(iter).text().len() && is_ident_char(
            old(iter).text()[old(iter).at()],
        ) ==> final(iter).at() > old(iter).at(),
{
    let mut is_integer = true;
    let mut is_float = false;
    let mut var_num: Vec<char> = Vec::new();
    loop
        invariant
            var_num@.len() == iter.at() - old(iter).at(),
            iter.wf(),
            iter.text() == old(iter).text(),
            old(iter).at() <= iter.at(),
            is_integer && !is_float ==> all_digits(var_num@),
            sp_var_number(iter.text(), iter.at(), var_num@, is_integer, is_float) == sp_var_number(
                old(iter).text(),
                old(iter).at(),
                Seq::empty(),
                true,
                false,
            ),
        ensures
            iter.at() < iter.text().len(),
            !is_ident_char(iter.text()[iter.at()]),
            iter.text()[iter.at()] != '.',
        decreases iter.text().len() - iter.at(),
    {
        let c = match peek_next_char(iter) {
            Ok(c) => c,
            Err(e) => return Some(Err(e)),
        };
        if c == '_' || is_letter_char(c) {
            is_integer = false;
            var_num.push(c);
            iter.next();
        } else if is_digit_char(c) {
            var_num.push(c);
            iter.next();
        } else if c == '.' {
            if !is_integer || is_float {
                return Some(Err(LexerError::InvalidFloat));
            }
            is_float = true;
            var_num.push(c);
            iter.next();
        } else {
            break ;
        }
    }
    if is_float {
        if float_text_valid(&var_num) {
            Some(Ok(Token::Float(string_from_chars(&var_num))))
        } else {
            None
        }
    } else if is_integer {
        if var_num.len() == 0 {
            return None;
        }
        match parse_decimal(&var_num) {
            Some(v) => Some(Ok(Token::Integer(v))),
            None => None,
        }
    } else {
        Some(Ok(Token::Var(string_from_chars(&var_num))))
    }
}

/// Whether the digits of `t` from `from` on are all digits.
fn digits_from(t: &Vec<char>, from: usize, to: usize) -> (r: bool)
    requires
        from <= to <= t.len(),
    ensures
        r == all_digits(t@.subrange(from as int, to as int)),
{
    let mut i: usize = from;
    while i < to
        invariant
            from <= i <= to <= t.len(),
            all_digits(t@.subrange(from as int, i as int)),
        decreases to - i,
    {
        if !is_digit_char(t[i]) {
            assert(t@.subrange(from as int, to as int)[i - from] == t@[i as int]);
            return false;
        }
        i = i + 1;
        assert forall|k: int| 0 <= k < i - from implies is_digit(
            #[trigger] t@.subrange(from as int, i as int)[k],
        ) by {
            if k < i - 1 - from {
                assert(t@.subrange(from as int, i as int)[k] == t@.subrange(from as int, i - 1)[k]);
            }
        }
    }
    true
}

/// The index of the first `c` in `t` from `i` on, or the length of `t`.
fn find_from(t: &Vec<char>, c: char, i: usize) -> (r: usize)
    requires
        i <= t.len(),
    ensures
        r as int == first_index(t@, c, i as int),
        r <= t.len(),
{
    let mut k: usize = i;
    while k < t.len()
        invariant
            i <= k <= t.len(),
            first_index(t@, c, k as int) == first_index(t@, c, i as int),
        decreases t.len() - k,
    {
        if t[k] == c {
            return k;
        }
        k = k + 1;
    }
    k
}

/// Whether a float literal of the lexer is one that the standard float
/// parser accepts (see [`float_text_ok`]).
fn float_text_valid(t: &Vec<char>) -> (r: bool)
    ensures
        r == float_text_ok(t@),
{
    let point = find_from(t, '.', 0);
    if point == t.len() {
        return false;
    }
    let start = point + 1;
    let ghost tail = t@.skip(start as int);
    let mut j: usize = start;
    while j < t.len() && t[j] != 'e' && t[j] != 'E'
        invariant
            start <= j <= t.len(),
            tail == t@.skip(start as int),
            first_exp(tail, j - start) == first_exp(tail, 0),
        decreases t.len() - j,
    {
        j = j + 1;
    }
    assert(first_exp(tail, 0) == j - start);
    assert(tail.take(j - start) =~= t@.subrange(start as int, j as int));
    let head_ok = digits_from(t, start, j);
    if j == t.len() {
        return head_ok;
    }
    if j + 1 < t.len() {
        assert(tail.skip(j - start + 1) =~= t@.subrange(j + 1, t@.len() as int));
        head_ok && digits_from(t, j + 1, t.len())
    } else {
        false
    }
}

fn load_string(iter: &mut CharIter) -> (r: Result<Token, LexerError>)
    requires
        old(iter).wf(),
        old(iter).at() < old(iter).text().len(),
    ensures
        final(iter).wf(),
        final(iter).text() == old(iter).text(),
        agrees_token(
            sp_lex_string_body(old(iter).text(), old(iter).at() + 1, Seq::empty()),
            r,
            final(iter).at(),
        ),
        r is Ok ==> final(iter).at() > old(iter).at(),
{
    iter.next();
    let mut string: Vec<char> = Vec::new();
    loop
        invariant
            iter.wf(),
            iter.text() == old(iter).text(),
            old(iter).at() < iter.at(),
            sp_lex_string_body(iter.text(), iter.at(), string@) == sp_lex_string_body(
                old(iter).text(),
                old(iter).at() + 1,
                Seq::empty(),
            ),
        ensures
            iter.at() < iter.text().len(),
            iter.text()[iter.at()] == '"',
        decreases iter.text().len() - iter.at(),
    {
        let c = match peek_next_char(iter) {
            Ok(c) => c,
            Err(e) => return Err(e),
        };
        if c == '"' {
            break ;
        } else if c == '\\' {
            iter.next();
            let c2 = match peek_next_char(iter) {
                Ok(c2) => c2,
                Err(e) => return Err(e),
            };
            if c2 == 'n' {
                string.push('\n');
            } else if c2 == 't' {
                string.push('\t');
            } else if c2 == '\\' {
                string.push('\\');
            } else {
                return Err(LexerError::InvalidStringEscape);
            }
        } else {
            string.push(c);
        }
        iter.next();
    }
    iter.next();
    Ok(Token::String(string_from_chars(&string)))
}

/// Closes the line being read: the block gets it when it holds a token, and
/// a new line starts.
fn close_line(body: &mut TokenBody, line: &mut Vec<Token>)
    ensures
        view_tbody(final(body)@) == push_line(view_tbody(old(body)@), view_line(old(line)@)),
        view_line(final(line)@) == Seq::<SToken>::empty(),
{
    proof {
        lemma_view_tokens_empty();
    }
    if line.len() > 0 {
        let mut done: Vec<Token> = Vec::new();
        std::mem::swap(&mut done, line);
        proof {
            lemma_view_tbody_push(body@, done);
        }
        body.push(done);
    } else {
        assert(view_line(line@) =~= Seq::<SToken>::empty());
    }
}

/// Splits a text into lines of tokens. A line ends at a newline or `;`
/// (`;;` also gives a `Return`); `{ }` and `( )` make nested blocks and
/// groups; a closing `}` or `)` ends the block being read. `None` where a
/// number literal cannot be parsed (see [`lex`]).
pub fn try_lex(iter: &mut CharIter, matchers: &Vec<Matcher>) -> (r: Option<
    Result<TokenBody, LexerError>,
>)
    requires
        old(iter).wf(),
        all_wf(matchers@),
    ensures
        final(iter).wf(),
        final(iter).text() == old(iter).text(),
        match sp_lex(
            old(iter).text(),
            old(iter).at(),
            matchers_view(matchers@),
            Seq::empty(),
            Seq::empty(),
        ) {
            Lexed::Panic => r is None,
            spec => r matches Some(x) && agrees_tbody(spec, x, final(iter).at()),
        },
        r matches Some(Ok(_)) ==> final(iter).at() >= old(iter).at(),
    decreases old(iter).text().len() - old(iter).at(),
{
    let ghost ms = matchers_view(matchers@);
    let ghost whole = sp_lex(old(iter).text(), old(iter).at(), ms, Seq::empty(), Seq::empty());
    let mut token_body: TokenBody = Vec::new();
    let mut section: Vec<Token> = Vec::new();
    proof {
        lemma_view_tokens_empty();
    }
    loop
        invariant
            iter.wf(),
            iter.text() == old(iter).text(),
            old(iter).at() <= iter.at(),
            ms == matchers_view(matchers@),
            all_wf(matchers@),
            whole == sp_lex(old(iter).text(), old(iter).at(), ms, Seq::empty(), Seq::empty()),
            sp_lex(iter.text(), iter.at(), ms, view_tbody(token_body@), view_line(section@))
                == whole,
        ensures
            iter.at() == iter.text().len(),
        decreases iter.text().len() - iter.at(),
    {
        let c = match iter.peek() {
            Some(c) => c,
            None => break,
        };
        if c == '\n' || c == ';' {
            iter.next();
            match iter.peek() {
                Some(c2) => {
                    if c2 == ';' {
                        proof {
                            lemma_view_line_push(section@, Token::Return);
                        }
                        section.push(Token::Return);
                    }
                },
                None => {},
            }
            close_line(&mut token_body, &mut section);
        } else if c == '}' || c == ')' {
            iter.next();
            close_line(&mut token_body, &mut section);
            return Some(Ok(token_body));
        } else if c == '{' || c == '(' {
            iter.next();
            let b = match try_lex(iter, matchers) {
                Some(Ok(b)) => b,
                Some(Err(e)) => return Some(Err(e)),
                None => return None,
            };
            let t = if c == '{' {
                Token::Block(b)
            } else {
                Token::Group(b)
            };
            proof {
                lemma_view_line_push(section@, t);
            }
            section.push(t);
        } else if c == '#' || is_ident(c) || c == '"' {
            let r = if c == '#' {
                Some(load_comment(iter))
            } else if c == '"' {
                Some(load_string(iter))
            } else {
                load_var_number(iter)
            };
            let t = match r {
                Some(Ok(t)) => t,
                Some(Err(e)) => return Some(Err(e)),
                None => return None,
            };
            proof {
                lemma_view_line_push(section@, t);
            }
            section.push(t);
        } else {
            match run_matcher(c, iter, matchers) {
                Ok(Some(t)) => {
                    proof {
                        lemma_view_line_push(section@, t);
                    }
                    section.push(t);
                },
                Ok(None) => {
                    iter.next();
                },
                Err(e) => return Some(Err(e)),
            }
        }
    }
    close_line(&mut token_body, &mut section);
    Some(Ok(token_body))
}

/// Splits a text into lines of tokens (see [`try_lex`]). A number literal
/// that cannot be parsed makes the lexer panic, so the contract leaves
/// such texts out.
pub fn lex(iter: &mut CharIter, matchers: &Vec<Matcher>) -> (r: Result<TokenBody, LexerError>)
    requires
        old(iter).wf(),
        all_wf(matchers@),
        !(sp_lex(
            old(iter).text(),
            old(iter).at(),
            matchers_view(matchers@),
            Seq::empty(),
            Seq::empty(),
        ) is Panic),
    ensures
        final(iter).wf(),
        final(iter).text() == old(iter).text(),
        agrees_tbody(
            sp_lex(
                old(iter).text(),
                old(iter).at(),
                matchers_view(matchers@),
                Seq::empty(),
                Seq::empty(),
            ),
            r,
            final(iter).at(),
        ),
        r is Ok ==> final(iter).at() >= old(iter).at(),
{
    match try_lex(iter, matchers) {
        Some(r) => r,
        None => {
            proof {
                assert(false);
            }
            Err(LexerError::InvalidTokenLength)
        },
    }
}

/// Reading on through the characters of a name, having read a letter or
/// `_` before them.
proof fn lemma_name_run(s: Seq<char>, p: int, k: int, q: int, acc: Seq<char>)
    requires
        p <= k <= q < s.len(),
        0 <= p,
        acc == s.subrange(p, k),
        forall|j: int| k <= j < q ==> is_ident_char(#[trigger] s[j]),
        !is_ident_char(s[q]),
        s[q] != '.',
    ensures
        sp_var_number(s, k, acc, false, false) == Lexed::Done(SToken::Var(s.subrange(p, q)), q),
    decreases q - k,
{
    if k < q {
        assert(s.subrange(p, k + 1) =~= acc.push(s[k]));
        lemma_name_run(s, p, k + 1, q, s.subrange(p, k + 1));
    } else {
        assert(acc =~= s.subrange(p, q));
    }
}

/// A name, upper case letters included, is one token holding all its
/// characters as written: a letter or `_` followed by letters, digits and
/// `_` up to a character that can be in no name or number, and the line
/// being read goes on after it with that token.
pub proof fn law_names_are_tokens(
    s: Seq<char>,
    p: int,
    q: int,
    ms: Seq<SMatcher>,
    body: Seq<Seq<SToken>>,
    line: Seq<SToken>,
)
    requires
        0 <= p < q < s.len(),
        s[p] == '_' || is_letter(s[p]),
        forall|j: int| p <= j < q ==> is_ident_char(#[trigger] s[j]),
        !is_ident_char(s[q]),
        s[q] != '.',
    ensures
        sp_var_number(s, p, Seq::empty(), true, false) == Lexed::Done(SToken::Var(s.subrange(p, q)), q),
        sp_lex(s, p, ms, body, line) == sp_lex(s, q, ms, body, line.push(SToken::Var(s.subrange(p, q)))),
{
    assert(s.subrange(p, p + 1) =~= seq![s[p]]);
    assert(Seq::<char>::empty().push(s[p]) =~= seq![s[p]]);
    lemma_name_run(s, p, p + 1, q, s.subrange(p, p + 1));
    assert(is_ident_char(s[p]));
}

} // verus!
