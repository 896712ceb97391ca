use vstd::prelude::*;
use super::ast::SAst;
use super::error::Error;
use crate::lang::builder::ast::grammar::{is_letter, is_digit, is_ident_char, decimal_value, in_text};

verus! {

/// The outcome of reading a construct that starts at a position of a text.
pub enum Loaded<T> {
    /// What was read, and the position of the first character after it.
    Done(T, int),
    /// Reading stops with this error.
    Fail(Error),
    /// Reading panics: a number literal that cannot be parsed.
    Panic,
}

pub open spec fn some_node(r: Loaded<SAst>) -> Loaded<Option<SAst>> {
    match r {
        Loaded::Done(a, q) => Loaded::Done(Some(a), q),
        Loaded::Fail(e) => Loaded::Fail(e),
        Loaded::Panic => Loaded::Panic,
    }
}

/// The characters that end the arguments of a function.
pub open spec fn fn_stops() -> Seq<char> {
    seq!['{', '\n', ';']
}

/// The character that ends the items of an array.
pub open spec fn array_stops() -> Seq<char> {
    seq![']']
}

/// A comment: from the `#` up to, and not including, the end of the line.
pub open spec fn sp_comment(s: Seq<char>, p: int, acc: Seq<char>) -> Loaded<SAst>
    decreases s.len() - p,
{
    if !in_text(s, p) {
        Loaded::Panic
    } else if p == s.len() {
        Loaded::Fail(Error::InvalidComment("No more charaters"))
    } else if s[p] == '\n' {
        Loaded::Done(SAst::Comment(acc), p)
    } else {
        sp_comment(s, p + 1, acc.push(s[p]))
    }
}

/// A name of letters, digits and `_`; `t` and `f` are the booleans.
pub open spec fn sp_var(s: Seq<char>, p: int, acc: Seq<char>) -> Loaded<SAst>
    decreases s.len() - p,
{
    if !in_text(s, p) {
        Loaded::Panic
    } else if p == s.len() {
        Loaded::Fail(Error::InvalidVar("No more charaters"))
    } else if is_ident_char(s[p]) {
        sp_var(s, p + 1, acc.push(s[p]))
    } else if acc == seq!['t'] {
        Loaded::Done(SAst::Bool(true), p)
    } else if acc == seq!['f'] {
        Loaded::Done(SAst::Bool(false), p)
    } else {
        Loaded::Done(SAst::Var(acc), p)
    }
}

/// A number: digits with at most one `.`; with a `.` it is a float literal.
/// An integer that does not fit in `i64`, an empty integer and a lone `.`
/// cannot be parsed.
pub open spec fn sp_number(s: Seq<char>, p: int, acc: Seq<char>, is_float: bool) -> Loaded<SAst>
    decreases s.len() - p,
{
    if !in_text(s, p) {
        Loaded::Panic
    } else if p == s.len() {
        Loaded::Fail(Error::InvalidNumber("No more charaters"))
    } else if is_digit(s[p]) {
        sp_number(s, p + 1, acc.push(s[p]), is_float)
    } else if s[p] == '.' {
        if !is_float {
            sp_number(s, p + 1, acc.push('.'), true)
        } else {
            Loaded::Fail(Error::InvalidNumber("Came across another ."))
        }
    } else if !is_float {
        if acc.len() > 0 && decimal_value(acc) <= i64::MAX {
            Loaded::Done(SAst::Integer(decimal_value(acc)), p)
        } else {
            Loaded::Panic
        }
    } else if acc.len() > 1 {
        Loaded::Done(SAst::Float(acc), p)
    } else {
        Loaded::Panic
    }
}

/// A string literal: skip to the opening quote, then read up to and
/// including the closing one.
pub open spec fn sp_string(s: Seq<char>, p: int) -> Loaded<SAst>
    decreases s.len() - p,
{
    if !in_text(s, p) {
        Loaded::Panic
    } else if p == s.len() {
        Loaded::Fail(Error::InvalidString("No more charaters"))
    } else if s[p] == '"' {
        sp_string_body(s, p + 1, Seq::empty())
    } else {
        sp_string(s, p + 1)
    }
}

pub open spec fn sp_string_body(s: Seq<char>, p: int, acc: Seq<char>) -> Loaded<SAst>
    decreases s.len() - p,
{
    if !in_text(s, p) {
        Loaded::Panic
    } else if p == s.len() {
        Loaded::Fail(Error::InvalidString("No more chraters"))
    } else if s[p] == '"' {
        Loaded::Done(SAst::String(acc), p + 1)
    } else if s[p] == '\\' {
        if p + 1 == s.len() {
            Loaded::Fail(Error::InvalidString("No more charaters for escape"))
        } else if s[p + 1] == '\\' {
            sp_string_body(s, p + 2, acc.push('\\'))
        } else if s[p + 1] == 'n' {
            sp_string_body(s, p + 2, acc.push('\n'))
        } else if s[p + 1] == '"' {
            sp_string_body(s, p + 2, acc.push('"'))
        } else {
            Loaded::Fail(Error::InvalidString("Invalid escape"))
        }
    } else {
        sp_string_body(s, p + 1, acc.push(s[p]))
    }
}

/// `=` is an assignment, `==` a comparison.
pub open spec fn sp_equals(s: Seq<char>, p: int) -> Loaded<SAst> {
    if !in_text(s, p) {
        Loaded::Panic
    } else if p == s.len() {
        Loaded::Fail(Error::InvalidEquals("No more charaters"))
    } else if s[p] == '=' {
        if p + 1 < s.len() && s[p + 1] == '=' {
            Loaded::Done(SAst::Equals, p + 2)
        } else {
            Loaded::Done(SAst::Assign, p + 1)
        }
    } else {
        Loaded::Fail(Error::InvalidComment("Equal charater mismatch"))
    }
}

/// `>` writes, `>>` appends.
pub open spec fn sp_io_out(s: Seq<char>, p: int) -> Loaded<SAst> {
    if !in_text(s, p) {
        Loaded::Panic
    } else if p == s.len() {
        Loaded::Fail(Error::InvalidIoWrite("No more charaters"))
    } else if s[p] == '>' {
        if p + 1 < s.len() && s[p + 1] == '>' {
            Loaded::Done(SAst::IoAppend, p + 2)
        } else {
            Loaded::Done(SAst::IoWrite, p + 1)
        }
    } else {
        Loaded::Fail(Error::InvalidIoWrite("Io charater mismatch"))
    }
}

/// Skips up to and including the next `,`.
pub open spec fn sp_skip_comma(s: Seq<char>, p: int) -> Loaded<()>
    decreases s.len() - p,
{
    if !in_text(s, p) {
        Loaded::Panic
    } else if p == s.len() {
        Loaded::Fail(Error::InvalidArgs("No more charaters"))
    } else if s[p] == ',' {
        Loaded::Done((), p + 1)
    } else {
        sp_skip_comma(s, p + 1)
    }
}

/// The node that starts at `p`, if any. A character that starts no node is
/// not read.
pub open spec fn sp_statement(s: Seq<char>, p: int) -> Loaded<Option<SAst>>
    decreases s.len() - p, 1int,
{
    if !in_text(s, p) {
        Loaded::Panic
    } else if p == s.len() {
        Loaded::Done(None, p)
    } else {
        let c = s[p];
        if c == '\n' {
            Loaded::Done(Some(SAst::End), p + 1)
        } else if c == ';' {
            if p + 1 < s.len() && s[p + 1] == ';' {
                Loaded::Done(Some(SAst::Return), p + 1)
            } else {
                Loaded::Done(Some(SAst::End), p + 1)
            }
        } else if c == '(' || c == '[' || c == '?' {
            let r = if c == '(' {
                sp_block(s, p, '(', ')')
            } else if c == '[' {
                sp_block(s, p, '[', ']')
            } else {
                sp_block(s, p, '{', '}')
            };
            match r {
                Loaded::Done(b, q) => Loaded::Done(
                    Some(
                        if c == '(' {
                            SAst::Group(b)
                        } else if c == '[' {
                            SAst::Access(b)
                        } else {
                            SAst::If(b)
                        },
                    ),
                    q,
                ),
                Loaded::Fail(e) => Loaded::Fail(e),
                Loaded::Panic => Loaded::Panic,
            }
        } else if c == '.' {
            match sp_var(s, p + 1, Seq::empty()) {
                Loaded::Done(name, q1) => match sp_skip_comma(s, q1) {
                    Loaded::Done(_, q2) => {
                        if !(p < q2 <= s.len()) {
                            Loaded::Panic
                        } else {
                            match sp_args(s, q2, fn_stops(), Seq::empty(), Seq::empty()) {
                                Loaded::Done(args, q3) => {
                                    if !(p < q3 <= s.len()) {
                                        Loaded::Panic
                                    } else {
                                        match sp_block(s, q3, '{', '}') {
                                            Loaded::Done(body, q4) => Loaded::Done(
                                                Some(SAst::Function(Box::new(name), args, body)),
                                                q4,
                                            ),
                                            Loaded::Fail(e) => Loaded::Fail(e),
                                            Loaded::Panic => Loaded::Panic,
                                        }
                                    }
                                },
                                Loaded::Fail(e) => Loaded::Fail(e),
                                Loaded::Panic => Loaded::Panic,
                            }
                        }
                    },
                    Loaded::Fail(e) => Loaded::Fail(e),
                    Loaded::Panic => Loaded::Panic,
                },
                Loaded::Fail(e) => Loaded::Fail(e),
                Loaded::Panic => Loaded::Panic,
            }
        } else if c == '@' {
            if p + 1 == s.len() {
                Loaded::Fail(Error::InvalidArray("No more charaters"))
            } else if s[p + 1] == '[' {
                match sp_args(s, p + 2, array_stops(), Seq::empty(), Seq::empty()) {
                    Loaded::Done(items, q) => Loaded::Done(
                        Some(SAst::Array(items)),
                        if q < s.len() {
                            q + 1
                        } else {
                            q
                        },
                    ),
                    Loaded::Fail(e) => Loaded::Fail(e),
                    Loaded::Panic => Loaded::Panic,
                }
            } else if s[p + 1] == '<' {
                Loaded::Done(
                    Some(SAst::ArrayPush),
                    if p + 2 < s.len() {
                        p + 3
                    } else {
                        p + 2
                    },
                )
            } else {
                Loaded::Fail(Error::InvalidArray("Invalid array charater"))
            }
        } else if c == '#' {
            some_node(sp_comment(s, p, Seq::empty()))
        } else if c == '_' || is_letter(c) {
            some_node(sp_var(s, p, Seq::empty()))
        } else if is_digit(c) {
            some_node(sp_number(s, p, Seq::empty(), false))
        } else if c == '+' {
            Loaded::Done(Some(SAst::Add), p + 1)
        } else if c == '-' {
            Loaded::Done(Some(SAst::Sub), p + 1)
        } else if c == '*' {
            if p + 1 < s.len() && s[p + 1] == '*' {
                Loaded::Done(Some(SAst::Exp), p + 2)
            } else {
                Loaded::Done(Some(SAst::Mul), p + 1)
            }
        } else if c == '/' || c == '\\' {
            if p + 1 < s.len() && s[p + 1] == c {
                Loaded::Done(Some(SAst::Rem), p + 2)
            } else {
                Loaded::Done(Some(SAst::Div), p + 1)
            }
        } else if c == '=' {
            some_node(sp_equals(s, p))
        } else if c == '>' {
            some_node(sp_io_out(s, p))
        } else if c == '"' {
            some_node(sp_string(s, p))
        } else {
            Loaded::Done(None, p)
        }
    }
}

/// A block: skip to the `start` character (an end of line first gives an
/// empty block), then read nodes up to and including `end`.
pub open spec fn sp_block(s: Seq<char>, p: int, start: char, end: char) -> Loaded<Seq<SAst>>
    decreases s.len() - p, 0int,
{
    if !in_text(s, p) {
        Loaded::Panic
    } else if p == s.len() {
        Loaded::Fail(Error::InvalidBlock("No more charaters before start"))
    } else if s[p] == ';' || s[p] == '\n' {
        Loaded::Done(Seq::empty(), p + 1)
    } else if s[p] == start {
        sp_block_body(s, p + 1, end, Seq::empty())
    } else {
        sp_block(s, p + 1, start, end)
    }
}

pub open spec fn sp_block_body(s: Seq<char>, p: int, end: char, acc: Seq<SAst>) -> Loaded<
    Seq<SAst>,
>
    decreases s.len() - p, 2int,
{
    if !in_text(s, p) {
        Loaded::Panic
    } else if p == s.len() {
        Loaded::Fail(Error::InvalidBlock("No more charaters brefore end"))
    } else if s[p] == end {
        Loaded::Done(acc, p + 1)
    } else {
        match sp_statement(s, p) {
            Loaded::Done(Some(x), q) => {
                if !(p < q <= s.len()) {
                    Loaded::Panic
                } else {
                    sp_block_body(s, q, end, acc.push(x))
                }
            },
            Loaded::Done(None, _) => sp_block_body(s, p + 1, end, acc),
            Loaded::Fail(e) => Loaded::Fail(e),
            Loaded::Panic => Loaded::Panic,
        }
    }
}

/// Comma separated arguments up to one of the `stops` characters, which is
/// not read; an empty last argument is dropped.
pub open spec fn sp_args(
    s: Seq<char>,
    p: int,
    stops: Seq<char>,
    args: Seq<Seq<SAst>>,
    cur: Seq<SAst>,
) -> Loaded<Seq<Seq<SAst>>>
    decreases s.len() - p, 2int,
{
    if !in_text(s, p) {
        Loaded::Panic
    } else if p == s.len() {
        Loaded::Fail(Error::InvalidArgs("No more charaters"))
    } else if s[p] == ',' {
        sp_args(s, p + 1, stops, args.push(cur), Seq::empty())
    } else if stops.contains(s[p]) {
        Loaded::Done(
            if cur.len() > 0 {
                args.push(cur)
            } else {
                args
            },
            p,
        )
    } else {
        match sp_statement(s, p) {
            Loaded::Done(Some(x), q) => {
                if !(p < q <= s.len()) {
                    Loaded::Panic
                } else {
                    sp_args(s, q, stops, args, cur.push(x))
                }
            },
            Loaded::Done(None, _) => sp_args(s, p + 1, stops, args, cur),
            Loaded::Fail(e) => Loaded::Fail(e),
            Loaded::Panic => Loaded::Panic,
        }
    }
}

/// All the nodes of a text from `p` on; characters that start no node are
/// skipped.
pub open spec fn sp_load_ast(s: Seq<char>, p: int, acc: Seq<SAst>) -> Loaded<Seq<SAst>>
    decreases s.len() - p,
{
    if !in_text(s, p) {
        Loaded::Panic
    } else if p == s.len() {
        Loaded::Done(acc, p)
    } else {
        match sp_statement(s, p) {
            Loaded::Done(Some(x), q) => {
                if !(p < q <= s.len()) {
                    Loaded::Panic
                } else {
                    sp_load_ast(s, q, acc.push(x))
                }
            },
            Loaded::Done(None, _) => sp_load_ast(s, p + 1, acc),
            Loaded::Fail(e) => Loaded::Fail(e),
            Loaded::Panic => Loaded::Panic,
        }
    }
}

/// The older parser reads each arithmetic character as its own node,
/// whatever follows it: `+` as `Add`, `-` as `Sub`, `*` as `Mul` or `**` as
/// `Exp`, `/` or a backslash as `Div`, doubled as `Rem`.
pub proof fn law_operator_chars(s: Seq<char>, p: int)
    requires
        0 <= p < s.len(),
    ensures
        s[p] == '+' ==> sp_statement(s, p) == Loaded::Done(Some(SAst::Add), p + 1),
        s[p] == '-' ==> sp_statement(s, p) == Loaded::Done(Some(SAst::Sub), p + 1),
        s[p] == '*' && !(p + 1 < s.len() && s[p + 1] == '*') ==> sp_statement(s, p) == Loaded::Done(
            Some(SAst::Mul),
            p + 1,
        ),
        s[p] == '*' && p + 1 < s.len() && s[p + 1] == '*' ==> sp_statement(s, p) == Loaded::Done(
            Some(SAst::Exp),
            p + 2,
        ),
        (s[p] == '/' || s[p] == '\\') && !(p + 1 < s.len() && s[p + 1] == s[p]) ==> sp_statement(s, p)
            == Loaded::Done(Some(SAst::Div), p + 1),
        (s[p] == '/' || s[p] == '\\') && p + 1 < s.len() && s[p + 1] == s[p] ==> sp_statement(s, p)
            == Loaded::Done(Some(SAst::Rem), p + 2),
{
}

} // verus!
