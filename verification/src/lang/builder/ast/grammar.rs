use vstd::prelude::*;
use crate::lang::error::ParserError;
use super::ast::SAst;

verus! {

/// The outcome of reading a construct that starts at a position of a text.
pub enum Parsed<T> {
    /// What was read, and the position of the first character after it.
    Done(T, int),
    /// Reading stops with this error, at this position.
    Fail(ParserError, int),
    /// Reading panics: an integer literal does not fit in `i64`.
    Panic,
}

pub open spec fn is_letter(c: char) -> bool {
    ('a' <= c && c <= 'z') || ('A' <= c && c <= 'Z')
}

pub open spec fn is_digit(c: char) -> bool {
    '0' <= c && c <= '9'
}

pub open spec fn is_ident_char(c: char) -> bool {
    c == '_' || is_letter(c) || is_digit(c)
}

pub open spec fn digit_value(c: char) -> int {
    (c as int) - ('0' as int)
}

/// The number that a string of decimal digits denotes.
pub open spec fn decimal_value(d: Seq<char>) -> int
    decreases d.len(),
{
    if d.len() == 0 {
        0
    } else {
        decimal_value(d.drop_last()) * 10 + digit_value(d.last())
    }
}

pub open spec fn some_node(r: Parsed<SAst>) -> Parsed<Option<SAst>> {
    match r {
        Parsed::Done(a, q) => Parsed::Done(Some(a), q),
        Parsed::Fail(e, q) => Parsed::Fail(e, q),
        Parsed::Panic => Parsed::Panic,
    }
}

pub open spec fn in_text(s: Seq<char>, p: int) -> bool {
    0 <= p <= s.len()
}

/// A comment: everything up to, and not including, the end of the line.
pub open spec fn sp_comment(s: Seq<char>, p: int, acc: Seq<char>) -> Parsed<SAst>
    decreases s.len() - p,
{
    if !in_text(s, p) {
        Parsed::Panic
    } else if p == s.len() {
        Parsed::Fail(ParserError::InvalidComment, p)
    } else if s[p] == '\n' {
        Parsed::Done(SAst::Comment(acc), p)
    } else {
        sp_comment(s, p + 1, acc.push(s[p]))
    }
}

/// A name made of letters, digits and `_`; `t` and `f` are the booleans.
pub open spec fn sp_var(s: Seq<char>, p: int, acc: Seq<char>) -> Parsed<SAst>
    decreases s.len() - p,
{
    if !in_text(s, p) {
        Parsed::Panic
    } else if p == s.len() {
        Parsed::Fail(ParserError::InvalidVar, p)
    } else if is_ident_char(s[p]) {
        sp_var(s, p + 1, acc.push(s[p]))
    } else if acc == seq!['t'] {
        Parsed::Done(SAst::Bool(true), p)
    } else if acc == seq!['f'] {
        Parsed::Done(SAst::Bool(false), p)
    } else {
        Parsed::Done(SAst::Var(acc), p)
    }
}

/// A number: digits with at most one `.`; with a `.` it is a float literal.
pub open spec fn sp_number(s: Seq<char>, p: int, acc: Seq<char>, is_float: bool) -> Parsed<SAst>
    decreases s.len() - p,
{
    if !in_text(s, p) {
        Parsed::Panic
    } else if p == s.len() {
        Parsed::Fail(ParserError::InvalidNumber, p)
    } else if is_digit(s[p]) {
        sp_number(s, p + 1, acc.push(s[p]), is_float)
    } else if s[p] == '.' {
        if is_float {
            Parsed::Fail(ParserError::InvalidFloat, p)
        } else {
            sp_number(s, p + 1, acc.push('.'), true)
        }
    } else if is_float {
        Parsed::Done(SAst::Float(acc), p)
    } else if decimal_value(acc) <= i64::MAX {
        Parsed::Done(SAst::Integer(decimal_value(acc)), p)
    } else {
        Parsed::Panic
    }
}

/// The inside of a string literal, up to and including the closing quote.
pub open spec fn sp_string_body(s: Seq<char>, p: int, acc: Seq<char>) -> Parsed<SAst>
    decreases s.len() - p,
{
    if !in_text(s, p) {
        Parsed::Panic
    } else if p == s.len() {
        Parsed::Fail(ParserError::InvalidString, p)
    } else if s[p] == '"' {
        Parsed::Done(SAst::String(acc), p + 1)
    } else if s[p] == '\\' {
        if p + 1 == s.len() {
            Parsed::Fail(ParserError::InvalidStringEscape, p + 1)
        } else if s[p + 1] == '\\' {
            sp_string_body(s, p + 2, acc.push('\\'))
        } else if s[p + 1] == 't' {
            sp_string_body(s, p + 2, acc.push('\t'))
        } else if s[p + 1] == 'n' {
            sp_string_body(s, p + 2, acc.push('\n'))
        } else {
            Parsed::Fail(ParserError::InvalidStringEscape, p + 1)
        }
    } else {
        sp_string_body(s, p + 1, acc.push(s[p]))
    }
}

pub open spec fn sp_string(s: Seq<char>, p: int) -> Parsed<SAst> {
    if !in_text(s, p) {
        Parsed::Panic
    } else if p < s.len() && s[p] == '"' {
        sp_string_body(s, p + 1, Seq::empty())
    } else {
        Parsed::Fail(ParserError::InvalidStringStart, p)
    }
}

/// An operator of one character `m`, or of two when `m` is doubled.
pub open spec fn sp_double(
    s: Seq<char>,
    p: int,
    m: char,
    e_single: ParserError,
    e_double: ParserError,
    single: SAst,
    double: SAst,
) -> Parsed<SAst> {
    if !in_text(s, p) {
        Parsed::Panic
    } else if p == s.len() || s[p] != m {
        Parsed::Fail(e_single, p)
    } else if p + 1 == s.len() {
        Parsed::Fail(e_double, p + 1)
    } else if s[p + 1] == m {
        Parsed::Done(double, p + 2)
    } else {
        Parsed::Done(single, p + 1)
    }
}

pub open spec fn close_stmt(ast: Seq<Seq<SAst>>, cur: Seq<SAst>) -> Seq<Seq<SAst>> {
    if cur.len() > 0 {
        ast.push(cur)
    } else {
        ast
    }
}

pub open spec fn close_arg(args: Seq<Seq<Seq<SAst>>>, arg: Seq<Seq<SAst>>) -> Seq<Seq<Seq<SAst>>> {
    if arg.len() > 0 {
        args.push(arg)
    } else {
        args
    }
}

pub open spec fn fn_stops() -> Seq<char> {
    seq!['\n', ';', '{']
}

pub open spec fn line_stops() -> Seq<char> {
    seq!['\n', ';']
}

/// The node that starts at position `p`, if any.
pub open spec fn sp_match(s: Seq<char>, p: int) -> Parsed<Option<SAst>>
    decreases s.len() - p, 1int,
{
    if !in_text(s, p) {
        Parsed::Panic
    } else if p == s.len() {
        Parsed::Done(None, p)
    } else {
        let c = s[p];
        if c == '\n' {
            Parsed::Done(Some(SAst::End), p + 1)
        } else if c == '#' {
            some_node(sp_comment(s, p, Seq::empty()))
        } else if c == ';' {
            if p + 1 < s.len() && s[p + 1] == ';' {
                Parsed::Done(Some(SAst::Return), p + 1)
            } else {
                Parsed::Done(Some(SAst::End), p + 1)
            }
        } else if is_letter(c) {
            some_node(sp_var(s, p, Seq::empty()))
        } else if is_digit(c) {
            some_node(sp_number(s, p, Seq::empty(), false))
        } else if c == '.' {
            match sp_items(s, p + 1, fn_stops(), Seq::empty(), Seq::empty(), Seq::empty()) {
                Parsed::Done((args, end_c), q) => {
                    if !(p < q < s.len()) {
                        Parsed::Panic
                    } else if end_c == '{' {
                        match sp_block(s, q, '{', '}') {
                            Parsed::Done(body, q2) => Parsed::Done(Some(SAst::Function(args, body)), q2),
                            Parsed::Fail(e, q) => Parsed::Fail(e, q),
                            Parsed::Panic => Parsed::Panic,
                        }
                    } else if end_c == ';' {
                        Parsed::Done(Some(SAst::FunctionCall(args)), q + 1)
                    } else {
                        Parsed::Done(Some(SAst::FunctionCall(args)), q)
                    }
                },
                Parsed::Fail(e, q) => Parsed::Fail(e, q),
                Parsed::Panic => Parsed::Panic,
            }
        } else if c == '(' {
            match sp_block(s, p, '(', ')') {
                Parsed::Done(body, q) => Parsed::Done(Some(SAst::Group(body)), q),
                Parsed::Fail(e, q) => Parsed::Fail(e, q),
                Parsed::Panic => Parsed::Panic,
            }
        } else if c == '"' {
            some_node(sp_string(s, p))
        } else if c == '?' {
            match sp_block(s, p, '{', '}') {
                Parsed::Done(body, q) => Parsed::Done(Some(SAst::If(body)), q),
                Parsed::Fail(e, q) => Parsed::Fail(e, q),
                Parsed::Panic => Parsed::Panic,
            }
        } else if c == '=' {
            some_node(sp_equals(s, p))
        } else if c == '+' {
            some_node(
                sp_double(s, p, '+', ParserError::InvalidAdd, ParserError::InvalidConcat, SAst::Add, SAst::Concat),
            )
        } else if c == '-' {
            Parsed::Done(Some(SAst::Sub), p + 1)
        } else if c == '*' {
            some_node(
                sp_double(s, p, '*', ParserError::InvalidMul, ParserError::InvalidExp, SAst::Mul, SAst::Exp),
            )
        } else if c == '/' || c == '\\' {
            some_node(
                sp_double(s, p, c, ParserError::InvalidDiv, ParserError::InvalidRem, SAst::Div, SAst::Rem),
            )
        } else if c == '>' {
            some_node(
                sp_double(
                    s,
                    p,
                    '>',
                    ParserError::InvalidIoWrite,
                    ParserError::InvalidIoAppend,
                    SAst::IoWrite,
                    SAst::IoAppend,
                ),
            )
        } else {
            Parsed::Done(None, p)
        }
    }
}

/// A block: skip to the `start` character, then read statements up to `end`.
pub open spec fn sp_block(s: Seq<char>, p: int, start: char, end: char) -> Parsed<Seq<Seq<SAst>>>
    decreases s.len() - p, 0int,
{
    if !in_text(s, p) {
        Parsed::Panic
    } else if p == s.len() {
        Parsed::Fail(ParserError::InvalidBlockStart, p)
    } else if s[p] == start {
        sp_block_body(s, p + 1, end, Seq::empty(), Seq::empty())
    } else {
        sp_block(s, p + 1, start, end)
    }
}

pub open spec fn sp_block_body(
    s: Seq<char>,
    p: int,
    end: char,
    ast: Seq<Seq<SAst>>,
    cur: Seq<SAst>,
) -> Parsed<Seq<Seq<SAst>>>
    decreases s.len() - p, 2int,
{
    if !in_text(s, p) {
        Parsed::Panic
    } else if p == s.len() {
        Parsed::Fail(ParserError::InvalidBlock, p)
    } else if s[p] == end {
        Parsed::Done(close_stmt(ast, cur), p + 1)
    } else {
        match sp_match(s, p) {
            Parsed::Done(None, _) => sp_block_body(s, p + 1, end, ast, cur),
            Parsed::Done(Some(x), q) => {
                if !(p < q <= s.len()) {
                    Parsed::Panic
                } else if x is End {
                    sp_block_body(s, q, end, close_stmt(ast, cur), Seq::empty())
                } else {
                    sp_block_body(s, q, end, ast, cur.push(x))
                }
            },
            Parsed::Fail(e, q) => Parsed::Fail(e, q),
            Parsed::Panic => Parsed::Panic,
        }
    }
}

/// Comma separated items up to one of the `stops` characters, which is
/// returned and not read.
pub open spec fn sp_items(
    s: Seq<char>,
    p: int,
    stops: Seq<char>,
    args: Seq<Seq<Seq<SAst>>>,
    arg: Seq<Seq<SAst>>,
    stmts: Seq<SAst>,
) -> Parsed<(Seq<Seq<Seq<SAst>>>, char)>
    decreases s.len() - p, 2int,
{
    if !in_text(s, p) {
        Parsed::Panic
    } else if p == s.len() {
        Parsed::Fail(ParserError::InvalidItem, p)
    } else if stops.contains(s[p]) {
        Parsed::Done((close_arg(args, close_stmt(arg, stmts)), s[p]), p)
    } else if s[p] == ',' {
        sp_items(s, p + 1, stops, args.push(close_stmt(arg, stmts)), Seq::empty(), Seq::empty())
    } else {
        match sp_match(s, p) {
            Parsed::Done(None, _) => sp_items(s, p + 1, stops, args, arg, stmts),
            Parsed::Done(Some(x), q) => {
                if !(p < q <= s.len()) {
                    Parsed::Panic
                } else if x is End {
                    sp_items(s, q, stops, args, arg.push(stmts), Seq::empty())
                } else {
                    sp_items(s, q, stops, args, arg, stmts.push(x))
                }
            },
            Parsed::Fail(e, q) => Parsed::Fail(e, q),
            Parsed::Panic => Parsed::Panic,
        }
    }
}

/// Statements up to one of the `stops` characters, which is not read.
pub open spec fn sp_til_end(
    s: Seq<char>,
    p: int,
    stops: Seq<char>,
    ast: Seq<Seq<SAst>>,
    cur: Seq<SAst>,
) -> Parsed<Seq<Seq<SAst>>>
    decreases s.len() - p, 2int,
{
    if !in_text(s, p) {
        Parsed::Panic
    } else if p == s.len() {
        Parsed::Fail(ParserError::InvalidPart, p)
    } else if stops.contains(s[p]) {
        Parsed::Done(close_stmt(ast, cur), p)
    } else {
        match sp_match(s, p) {
            Parsed::Done(None, _) => sp_til_end(s, p + 1, stops, ast, cur),
            Parsed::Done(Some(x), q) => {
                if !(p < q <= s.len()) {
                    Parsed::Panic
                } else if x is End {
                    sp_til_end(s, q, stops, ast.push(cur), Seq::empty())
                } else {
                    sp_til_end(s, q, stops, ast, cur.push(x))
                }
            },
            Parsed::Fail(e, q) => Parsed::Fail(e, q),
            Parsed::Panic => Parsed::Panic,
        }
    }
}

/// `==` is a comparison; `=` followed by the rest of the line is an assignment.
pub open spec fn sp_equals(s: Seq<char>, p: int) -> Parsed<SAst>
    decreases s.len() - p, 0int,
{
    if !in_text(s, p) {
        Parsed::Panic
    } else if p == s.len() || s[p] != '=' {
        Parsed::Fail(ParserError::InvalidAssign, p)
    } else if p + 1 == s.len() {
        Parsed::Fail(ParserError::InvalidEquals, p + 1)
    } else if s[p + 1] == '=' {
        Parsed::Done(SAst::Equals, p + 2)
    } else {
        match sp_til_end(s, p + 1, line_stops(), Seq::empty(), Seq::empty()) {
            Parsed::Done(body, q) => Parsed::Done(SAst::Assign(body), q),
            Parsed::Fail(e, q) => Parsed::Fail(e, q),
            Parsed::Panic => Parsed::Panic,
        }
    }
}

/// The nodes of one line: up to an end of line, or up to and including an
/// `if` node; characters that start no node are skipped.
pub open spec fn sp_line(s: Seq<char>, p: int, ast: Seq<SAst>) -> Parsed<Seq<SAst>>
    decreases s.len() - p,
{
    if !in_text(s, p) {
        Parsed::Panic
    } else {
        match sp_match(s, p) {
            Parsed::Done(None, _) => {
                if p == s.len() {
                    Parsed::Done(ast, p)
                } else {
                    sp_line(s, p + 1, ast)
                }
            },
            Parsed::Done(Some(x), q) => {
                if !(p < q <= s.len()) {
                    Parsed::Panic
                } else if x is End {
                    Parsed::Done(ast, q)
                } else if x.spec_add_end() {
                    Parsed::Done(ast.push(x), q)
                } else {
                    sp_line(s, q, ast.push(x))
                }
            },
            Parsed::Fail(e, q) => Parsed::Fail(e, q),
            Parsed::Panic => Parsed::Panic,
        }
    }
}

/// Each operator character is read as its own node, whatever follows it:
/// `-` as `Sub`; `+` as `Add`, or `++` as `Concat`; `*` as `Mul`, or `**` as
/// `Exp`; `/` or a backslash as `Div`, doubled as `Rem`; `>` as `IoWrite`, or `>>`
/// as `IoAppend`; `==` as `Equals`.
pub proof fn law_operator_chars(s: Seq<char>, p: int)
    requires
        0 <= p < s.len(),
    ensures
        s[p] == '-' ==> sp_match(s, p) == Parsed::Done(Some(SAst::Sub), p + 1),
        s[p] == '+' && p + 1 < s.len() && s[p + 1] != '+' ==> sp_match(s, p) == Parsed::Done(
            Some(SAst::Add),
            p + 1,
        ),
        s[p] == '+' && p + 1 < s.len() && s[p + 1] == '+' ==> sp_match(s, p) == Parsed::Done(
            Some(SAst::Concat),
            p + 2,
        ),
        s[p] == '*' && p + 1 < s.len() && s[p + 1] != '*' ==> sp_match(s, p) == Parsed::Done(
            Some(SAst::Mul),
            p + 1,
        ),
        s[p] == '*' && p + 1 < s.len() && s[p + 1] == '*' ==> sp_match(s, p) == Parsed::Done(
            Some(SAst::Exp),
            p + 2,
        ),
        (s[p] == '/' || s[p] == '\\') && p + 1 < s.len() && s[p + 1] != s[p] ==> sp_match(s, p)
            == Parsed::Done(Some(SAst::Div), p + 1),
        (s[p] == '/' || s[p] == '\\') && p + 1 < s.len() && s[p + 1] == s[p] ==> sp_match(s, p)
            == Parsed::Done(Some(SAst::Rem), p + 2),
        s[p] == '>' && p + 1 < s.len() && s[p + 1] != '>' ==> sp_match(s, p) == Parsed::Done(
            Some(SAst::IoWrite),
            p + 1,
        ),
        s[p] == '>' && p + 1 < s.len() && s[p + 1] == '>' ==> sp_match(s, p) == Parsed::Done(
            Some(SAst::IoAppend),
            p + 2,
        ),
        s[p] == '=' && p + 1 < s.len() && s[p + 1] == '=' ==> sp_match(s, p) == Parsed::Done(
            Some(SAst::Equals),
            p + 2,
        ),
{
}

} // verus!
