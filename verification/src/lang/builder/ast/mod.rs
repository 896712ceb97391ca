mod ast;
pub mod grammar;
mod jump;

pub use self::ast::{
    Ast, AstArgs, AstBody, SAst, view_ast, view_args, view_body, view_stmt, lemma_view_stmt_push,
    lemma_view_body_push, lemma_view_args_push, lemma_view_empty, clone_stmt,
};
pub use self::jump::{
    shunt_yard, sp_shunt, sp_shunt_inner, sp_args, sp_body, resolved, fresh_arg_state,
    law_shunt_keeps_operations, count_ops,
};
use vstd::prelude::*;
use crate::lang::error::ParserError;
use crate::lang::text::{CharIter, string_from_chars};
use self::grammar::{
    Parsed, is_letter, is_digit, is_ident_char, decimal_value, digit_value, sp_comment, sp_var,
    sp_number, sp_string, sp_string_body, sp_double, sp_match, sp_block, sp_block_body, sp_items,
    sp_til_end, sp_equals, sp_line, close_stmt, close_arg, fn_stops, line_stops,
};

verus! {

/// `r` is what reading from position `p` gives, as `spec` describes it, and
/// the cursor stands at `at` after a success.
pub open spec fn agrees_node(spec: Parsed<SAst>, r: Result<Ast, ParserError>, at: int) -> bool {
    match spec {
        Parsed::Done(v, q) => r matches Ok(a) && a@ == v && at == q,
        Parsed::Fail(e, q) => r == Err::<Ast, ParserError>(e) && at == q,
        Parsed::Panic => false,
    }
}

pub open spec fn agrees_opt(
    spec: Parsed<Option<SAst>>,
    r: Result<Option<Ast>, ParserError>,
    at: int,
) -> bool {
    match spec {
        Parsed::Done(v, q) => at == q && match r {
            Ok(Some(a)) => v == Some(a@),
            Ok(None) => v is None,
            Err(_) => false,
        },
        Parsed::Fail(e, q) => r == Err::<Option<Ast>, ParserError>(e) && at == q,
        Parsed::Panic => false,
    }
}

pub open spec fn agrees_body(
    spec: Parsed<Seq<Seq<SAst>>>,
    r: Result<AstBody, ParserError>,
    at: int,
) -> bool {
    match spec {
        Parsed::Done(v, q) => r matches Ok(b) && view_body(b@) == v && at == q,
        Parsed::Fail(e, q) => r == Err::<AstBody, ParserError>(e) && at == q,
        Parsed::Panic => false,
    }
}

pub open spec fn agrees_items(
    spec: Parsed<(Seq<Seq<Seq<SAst>>>, char)>,
    r: Result<(AstArgs, char), ParserError>,
    at: int,
) -> bool {
    match spec {
        Parsed::Done((v, c), q) => r matches Ok((a, c2)) && view_args(a@) == v && c2 == c && at
            == q,
        Parsed::Fail(e, q) => r == Err::<(AstArgs, char), ParserError>(e) && at == q,
        Parsed::Panic => false,
    }
}

pub open spec fn agrees_line(
    spec: Parsed<Seq<SAst>>,
    r: Result<Vec<Ast>, ParserError>,
    at: int,
) -> bool {
    match spec {
        Parsed::Done(v, q) => r matches Ok(a) && view_stmt(a@) == v && at == q,
        Parsed::Fail(e, q) => r == Err::<Vec<Ast>, ParserError>(e) && at == q,
        Parsed::Panic => false,
    }
}

pub(crate) fn is_letter_char(c: char) -> (r: bool)
    ensures
        r == is_letter(c),
{
    ('a' <= c && c <= 'z') || ('A' <= c && c <= 'Z')
}

pub(crate) fn is_digit_char(c: char) -> (r: bool)
    ensures
        r == is_digit(c),
{
    '0' <= c && c <= '9'
}

pub(crate) fn is_ident(c: char) -> (r: bool)
    ensures
        r == is_ident_char(c),
{
    c == '_' || is_letter_char(c) || is_digit_char(c)
}

fn contains_char(chars: &Vec<char>, c: char) -> (r: bool)
    ensures
        r == chars@.contains(c),
{
    let mut i: usize = 0;
    while i < chars.len()
        invariant
            i <= chars.len(),
            forall|j: int| 0 <= j < i ==> chars@[j] != c,
        decreases chars.len() - i,
    {
        if chars[i] == c {
            return true;
        }
        i = i + 1;
    }
    false
}

/// The next character, or the given error at the end of the text.
fn peek_next_char(iter: &CharIter, error: ParserError) -> (r: Result<char, ParserError>)
    requires
        iter.wf(),
    ensures
        r == (if iter.at() < iter.text().len() {
            Ok::<char, ParserError>(iter.text()[iter.at()])
        } else {
            Err::<char, ParserError>(error)
        }),
{
    match iter.peek() {
        Some(c) => Ok(c),
        None => Err(error),
    }
}

fn next_and_return(iter: &mut CharIter, ast: Ast) -> (r: Ast)
    requires
        old(iter).wf(),
        old(iter).at() < old(iter).text().len(),
    ensures
        final(iter).wf(),
        final(iter).text() == old(iter).text(),
        final(iter).at() == old(iter).at() + 1,
        r == ast,
{
    iter.next();
    ast
}

pub proof fn lemma_decimal_nonneg(d: Seq<char>)
    requires
        forall|i: int| 0 <= i < d.len() ==> is_digit(#[trigger] d[i]),
    ensures
        decimal_value(d) >= 0,
    decreases d.len(),
{
    if d.len() > 0 {
        lemma_decimal_nonneg(d.drop_last());
    }
}

/// A longer string of digits never denotes a smaller number.
pub proof fn lemma_decimal_monotone(d: Seq<char>, k: int)
    requires
        0 <= k <= d.len(),
        forall|i: int| 0 <= i < d.len() ==> is_digit(#[trigger] d[i]),
    ensures
        decimal_value(d.take(k)) <= decimal_value(d),
    decreases d.len() - k,
{
    if k < d.len() {
        lemma_decimal_monotone(d, k + 1);
        assert(d.take(k + 1).drop_last() =~= d.take(k));
        lemma_decimal_nonneg(d.take(k));
    } else {
        assert(d.take(k) =~= d);
    }
}

/// The `i64` that a non-empty string of digits denotes, or `None` when it
/// does not fit.
pub(crate) fn parse_decimal(digits: &Vec<char>) -> (r: Option<i64>)
    requires
        forall|i: int| 0 <= i < digits@.len() ==> is_digit(#[trigger] digits@[i]),
    ensures
        r matches Some(v) ==> v as int == decimal_value(digits@),
        r is None ==> decimal_value(digits@) > i64::MAX,
{
    let mut value: i64 = 0;
    let mut i: usize = 0;
    while i < digits.len()
        invariant
            i <= digits.len(),
            forall|k: int| 0 <= k < digits@.len() ==> is_digit(#[trigger] digits@[k]),
            value as int == decimal_value(digits@.take(i as int)),
        decreases digits.len() - i,
    {
        let c = digits[i];
        let d = (c as u32 - '0' as u32) as i64;
        proof {
            assert(digits@.take(i + 1).drop_last() =~= digits@.take(i as int));
            assert(is_digit(digits@[i as int]));
        }
        let next = match value.checked_mul(10) {
            Some(v) => v.checked_add(d),
            None => None,
        };
        match next {
            Some(v) => {
                value = v;
            },
            None => {
                proof {
                    lemma_decimal_nonneg(digits@.take(i as int));
                    lemma_decimal_monotone(digits@, i + 1);
                }
                return None;
            },
        }
        i = i + 1;
    }
    assert(digits@.take(digits.len() as int) =~= digits@);
    Some(value)
}

fn load_comment(iter: &mut CharIter) -> (r: Result<Ast, ParserError>)
    requires
        old(iter).wf(),
    ensures
        final(iter).wf(),
        final(iter).text() == old(iter).text(),
        agrees_node(sp_comment(old(iter).text(), old(iter).at(), Seq::empty()), r, final(iter).at()),
        r is Ok ==> final(iter).at() < final(iter).text().len() && final(iter).text()[final(iter).at()]
            == '\n' && final(iter).at() >= old(iter).at(),
{
    let mut comment: Vec<char> = Vec::new();
    loop
        invariant
            iter.wf(),
            iter.text() == old(iter).text(),
            old(iter).at() <= iter.at(),
            sp_comment(iter.text(), iter.at(), comment@) == sp_comment(
                old(iter).text(),
                old(iter).at(),
                Seq::empty(),
            ),
        ensures
            iter.at() < iter.text().len(),
            iter.text()[iter.at()] == '\n',
        decreases iter.text().len() - iter.at(),
    {
        let c = match peek_next_char(iter, ParserError::InvalidComment) {
            Ok(c) => c,
            Err(e) => return Err(e),
        };
        if c == '\n' {
            break ;
        }
        comment.push(c);
        iter.next();
    }
    Ok(Ast::Comment(string_from_chars(&comment)))
}

fn load_var(iter: &mut CharIter) -> (r: Result<Ast, ParserError>)
    requires
        old(iter).wf(),
    ensures
        final(iter).wf(),
        final(iter).text() == old(iter).text(),
        agrees_node(sp_var(old(iter).text(), old(iter).at(), Seq::empty()), r, final(iter).at()),
        r is Ok ==> final(iter).at() < final(iter).text().len() && !is_ident_char(
            final(iter).text()[final(iter).at()],
        ) && final(iter).at() >= old(iter).at(),
{
    let mut var: Vec<char> = Vec::new();
    loop
        invariant
            iter.wf(),
            iter.text() == old(iter).text(),
            old(iter).at() <= iter.at(),
            sp_var(iter.text(), iter.at(), var@) == sp_var(
                old(iter).text(),
                old(iter).at(),
                Seq::empty(),
            ),
        ensures
            iter.at() < iter.text().len(),
            !is_ident_char(iter.text()[iter.at()]),
        decreases iter.text().len() - iter.at(),
    {
        let c = match peek_next_char(iter, ParserError::InvalidVar) {
            Ok(c) => c,
            Err(e) => return Err(e),
        };
        if is_ident(c) {
            var.push(c);
            iter.next();
        } else {
            break ;
        }
    }
    if var.len() == 1 && var[0] == 't' {
        assert(var@ =~= seq!['t']);
        return Ok(Ast::Bool(true));
    } else if var.len() == 1 && var[0] == 'f' {
        assert(var@ =~= seq!['f']);
        assert(var@ != seq!['t']);
        return Ok(Ast::Bool(false));
    }
    assert(var@ != seq!['t']) by {
        if var@.len() == 1 {
            assert(var@[0] == seq!['t'][0] ==> var@ =~= seq!['t']);
        }
    }
    assert(var@ != seq!['f']) by {
        if var@.len() == 1 {
            assert(var@[0] == seq!['f'][0] ==> var@ =~= seq!['f']);
        }
    }
    Ok(Ast::Var(string_from_chars(&var)))
}

fn load_number(iter: &mut CharIter) -> (r: Result<Ast, ParserError>)
    requires
        old(iter).wf(),
        !(sp_number(old(iter).text(), old(iter).at(), Seq::empty(), false) is Panic),
    ensures
        final(iter).wf(),
        final(iter).text() == old(iter).text(),
        agrees_node(
            sp_number(old(iter).text(), old(iter).at(), Seq::empty(), false),
            r,
            final(iter).at(),
        ),
        r is Ok ==> final(iter).at() < final(iter).text().len() && !is_digit(
            final(iter).text()[final(iter).at()],
        ) && final(iter).text()[final(iter).at()] != '.' && final(iter).at() >= old(iter).at(),
{
    let mut number: Vec<char> = Vec::new();
    let mut is_float = false;
    loop
        invariant
            iter.wf(),
            iter.text() == old(iter).text(),
            old(iter).at() <= iter.at(),
            !is_float ==> forall|i: int| 0 <= i < number@.len() ==> is_digit(#[trigger] number@[i]),
            sp_number(iter.text(), iter.at(), number@, is_float) == sp_number(
                old(iter).text(),
                old(iter).at(),
                Seq::empty(),
                false,
            ),
        ensures
            iter.at() < iter.text().len(),
            !is_digit(iter.text()[iter.at()]),
            iter.text()[iter.at()] != '.',
        decreases iter.text().len() - iter.at(),
    {
        let c = match peek_next_char(iter, ParserError::InvalidNumber) {
            Ok(c) => c,
            Err(e) => return Err(e),
        };
        if is_digit_char(c) {
            number.push(c);
            iter.next();
        } else if c == '.' {
            if is_float {
                return Err(ParserError::InvalidFloat);
            }
            number.push(c);
            iter.next();
            is_float = true;
        } else {
            break ;
        }
    }
    if is_float {
        Ok(Ast::Float(string_from_chars(&number)))
    } else {
        match parse_decimal(&number) {
            Some(v) => Ok(Ast::Integer(v)),
            None => {
                proof {
                    assert(false);
                }
                Err(ParserError::InvalidNumber)
            },
        }
    }
}

fn load_string(iter: &mut CharIter) -> (r: Result<Ast, ParserError>)
    requires
        old(iter).wf(),
    ensures
        final(iter).wf(),
        final(iter).text() == old(iter).text(),
        agrees_node(sp_string(old(iter).text(), old(iter).at()), r, final(iter).at()),
        r is Ok ==> final(iter).at() > old(iter).at(),
{
    let c = match peek_next_char(iter, ParserError::InvalidStringStart) {
        Ok(c) => c,
        Err(e) => return Err(e),
    };
    if c == '"' {
        iter.next();
    } else {
        return Err(ParserError::InvalidStringStart);
    }
    let mut string: Vec<char> = Vec::new();
    loop
        invariant
            iter.wf(),
            iter.text() == old(iter).text(),
            old(iter).at() < iter.at(),
            sp_string_body(iter.text(), iter.at(), string@) == sp_string(
                old(iter).text(),
                old(iter).at(),
            ),
        decreases iter.text().len() - iter.at(),
    {
        let c = match peek_next_char(iter, ParserError::InvalidString) {
            Ok(c) => c,
            Err(e) => return Err(e),
        };
        if c == '"' {
            iter.next();
            return Ok(Ast::String(string_from_chars(&string)));
        } else if c == '\\' {
            iter.next();
            let c2 = match peek_next_char(iter, ParserError::InvalidStringEscape) {
                Ok(c2) => c2,
                Err(e) => return Err(e),
            };
            if c2 == '\\' {
                string.push('\\');
            } else if c2 == 't' {
                string.push('\t');
            } else if c2 == 'n' {
                string.push('\n');
            } else {
                return Err(ParserError::InvalidStringEscape);
            }
            iter.next();
        } else {
            string.push(c);
            iter.next();
        }
    }
}

fn double_char(
    iter: &mut CharIter,
    to_match: char,
    error_types: (ParserError, ParserError),
    return_types: (Ast, Ast),
) -> (r: Result<Ast, ParserError>)
    requires
        old(iter).wf(),
    ensures
        final(iter).wf(),
        final(iter).text() == old(iter).text(),
        agrees_node(
            sp_double(
                old(iter).text(),
                old(iter).at(),
                to_match,
                error_types.0,
                error_types.1,
                return_types.0@,
                return_types.1@,
            ),
            r,
            final(iter).at(),
        ),
        r is Ok ==> final(iter).at() > old(iter).at(),
{
    let (e_single, e_double) = error_types;
    let (single, double) = return_types;
    let c = match iter.peek() {
        Some(c) => c,
        None => return Err(e_single),
    };
    if c == to_match {
        iter.next();
    } else {
        return Err(e_single);
    }
    let c2 = match iter.peek() {
        Some(c2) => c2,
        None => return Err(e_double),
    };
    if c2 == to_match {
        iter.next();
        return Ok(double);
    }
    Ok(single)
}


fn match_ast(iter: &mut CharIter) -> (r: Result<Option<Ast>, ParserError>)
    requires
        old(iter).wf(),
        !(sp_match(old(iter).text(), old(iter).at()) is Panic),
    ensures
        final(iter).wf(),
        final(iter).text() == old(iter).text(),
        agrees_opt(sp_match(old(iter).text(), old(iter).at()), r, final(iter).at()),
        r matches Ok(Some(_)) ==> final(iter).at() > old(iter).at(),
        r matches Ok(None) ==> final(iter).at() == old(iter).at(),
    decreases old(iter).text().len() - old(iter).at(), 1int,
{
    let ghost s = iter.text();
    let ghost p = iter.at();
    let c = match iter.peek() {
        Some(c) => c,
        None => return Ok(None),
    };
    if c == '\n' {
        iter.next();
        return Ok(Some(Ast::End));
    } else if c == '#' {
        return match load_comment(iter) {
            Ok(a) => Ok(Some(a)),
            Err(e) => Err(e),
        };
    } else if c == ';' {
        iter.next();
        let c2 = match iter.peek() {
            Some(c2) => c2,
            None => return Ok(Some(Ast::End)),
        };
        if c2 == ';' {
            return Ok(Some(Ast::Return));
        }
        return Ok(Some(Ast::End));
    } else if is_letter_char(c) {
        return match load_var(iter) {
            Ok(a) => Ok(Some(a)),
            Err(e) => Err(e),
        };
    } else if is_digit_char(c) {
        return match load_number(iter) {
            Ok(a) => Ok(Some(a)),
            Err(e) => Err(e),
        };
    } else if c == '.' {
        iter.next();
        let stops = vec!['\n', ';', '{'];
        assert(stops@ == fn_stops());
        let (args, end_c) = match load_items(iter, &stops) {
            Ok(items) => items,
            Err(e) => return Err(e),
        };
        if end_c == '{' {
            return match load_block(iter, '{', '}') {
                Ok(body) => Ok(Some(Ast::Function(args, body))),
                Err(e) => Err(e),
            };
        }
        if end_c == ';' {
            iter.next();
        }
        return Ok(Some(Ast::FunctionCall(args)));
    } else if c == '(' {
        return match load_block(iter, '(', ')') {
            Ok(body) => Ok(Some(Ast::Group(body))),
            Err(e) => Err(e),
        };
    } else if c == '"' {
        return match load_string(iter) {
            Ok(a) => Ok(Some(a)),
            Err(e) => Err(e),
        };
    } else if c == '?' {
        return match load_block(iter, '{', '}') {
            Ok(body) => Ok(Some(Ast::If(body))),
            Err(e) => Err(e),
        };
    } else if c == '=' {
        return match load_equals(iter) {
            Ok(a) => Ok(Some(a)),
            Err(e) => Err(e),
        };
    } else if c == '+' {
        return match double_char(
            iter,
            '+',
            (ParserError::InvalidAdd, ParserError::InvalidConcat),
            (Ast::Add, Ast::Concat),
        ) {
            Ok(a) => Ok(Some(a)),
            Err(e) => Err(e),
        };
    } else if c == '-' {
        return Ok(Some(next_and_return(iter, Ast::Sub)));
    } else if c == '*' {
        return match double_char(
            iter,
            '*',
            (ParserError::InvalidMul, ParserError::InvalidExp),
            (Ast::Mul, Ast::Exp),
        ) {
            Ok(a) => Ok(Some(a)),
            Err(e) => Err(e),
        };
    } else if c == '/' || c == '\\' {
        return match double_char(
            iter,
            c,
            (ParserError::InvalidDiv, ParserError::InvalidRem),
            (Ast::Div, Ast::Rem),
        ) {
            Ok(a) => Ok(Some(a)),
            Err(e) => Err(e),
        };
    } else if c == '>' {
        return match double_char(
            iter,
            '>',
            (ParserError::InvalidIoWrite, ParserError::InvalidIoAppend),
            (Ast::IoWrite, Ast::IoAppend),
        ) {
            Ok(a) => Ok(Some(a)),
            Err(e) => Err(e),
        };
    }
    Ok(None)
}

fn load_block(iter: &mut CharIter, start: char, end: char) -> (r: Result<AstBody, ParserError>)
    requires
        old(iter).wf(),
        !(sp_block(old(iter).text(), old(iter).at(), start, end) is Panic),
    ensures
        final(iter).wf(),
        final(iter).text() == old(iter).text(),
        agrees_body(sp_block(old(iter).text(), old(iter).at(), start, end), r, final(iter).at()),
        r is Ok ==> final(iter).at() > old(iter).at(),
    decreases old(iter).text().len() - old(iter).at(), 0int,
{
    let ghost whole = sp_block(old(iter).text(), old(iter).at(), start, end);
    let mut ast: AstBody = Vec::new();
    let mut current_ast: Vec<Ast> = Vec::new();
    loop
        invariant_except_break
            sp_block(iter.text(), iter.at(), start, end) == whole,
        invariant
            iter.wf(),
            iter.text() == old(iter).text(),
            whole == sp_block(old(iter).text(), old(iter).at(), start, end),
            !(whole is Panic),
            old(iter).at() <= iter.at(),
        ensures
            old(iter).at() < iter.at(),
            sp_block_body(iter.text(), iter.at(), end, Seq::empty(), Seq::empty()) == whole,
        decreases iter.text().len() - iter.at(),
    {
        let c = match peek_next_char(iter, ParserError::InvalidBlockStart) {
            Ok(c) => c,
            Err(e) => return Err(e),
        };
        if c == start {
            iter.next();
            break ;
        }
        iter.next();
    }
    proof {
        lemma_view_empty();
    }
    loop
        invariant
            iter.wf(),
            iter.text() == old(iter).text(),
            whole == sp_block(old(iter).text(), old(iter).at(), start, end),
            !(whole is Panic),
            old(iter).at() < iter.at(),
            sp_block_body(iter.text(), iter.at(), end, view_body(ast@), view_stmt(current_ast@))
                == whole,
        decreases iter.text().len() - iter.at(),
    {
        let c = match peek_next_char(iter, ParserError::InvalidBlock) {
            Ok(c) => c,
            Err(e) => return Err(e),
        };
        if c == end {
            if current_ast.len() > 0 {
                proof {
                    lemma_view_body_push(ast@, current_ast);
                }
                ast.push(current_ast);
            }
            iter.next();
            return Ok(ast);
        }
        match match_ast(iter) {
            Ok(Some(statement)) => {
                if let Ast::End = statement {
                    if current_ast.len() > 0 {
                        proof {
                            lemma_view_body_push(ast@, current_ast);
                            lemma_view_empty();
                        }
                        ast.push(current_ast);
                        current_ast = Vec::new();
                    } else {
                        assert(view_stmt(current_ast@) =~= Seq::<SAst>::empty());
                    }
                } else {
                    proof {
                        lemma_view_stmt_push(current_ast@, statement);
                    }
                    current_ast.push(statement);
                }
            },
            Ok(None) => {
                iter.next();
            },
            Err(e) => return Err(e),
        }
    }
}

fn load_items(iter: &mut CharIter, stop_chars: &Vec<char>) -> (r: Result<
    (AstArgs, char),
    ParserError,
>)
    requires
        old(iter).wf(),
        !(sp_items(
            old(iter).text(),
            old(iter).at(),
            stop_chars@,
            Seq::empty(),
            Seq::empty(),
            Seq::empty(),
        ) is Panic),
    ensures
        final(iter).wf(),
        final(iter).text() == old(iter).text(),
        agrees_items(
            sp_items(
                old(iter).text(),
                old(iter).at(),
                stop_chars@,
                Seq::empty(),
                Seq::empty(),
                Seq::empty(),
            ),
            r,
            final(iter).at(),
        ),
        r is Ok ==> old(iter).at() <= final(iter).at() < final(iter).text().len(),
    decreases old(iter).text().len() - old(iter).at(), 2int,
{
    let ghost whole = sp_items(
        old(iter).text(),
        old(iter).at(),
        stop_chars@,
        Seq::empty(),
        Seq::empty(),
        Seq::empty(),
    );
    let mut args: AstArgs = Vec::new();
    let mut current_arg: AstBody = Vec::new();
    let mut current_statements: Vec<Ast> = Vec::new();
    proof {
        lemma_view_empty();
    }
    loop
        invariant
            iter.wf(),
            iter.text() == old(iter).text(),
            whole == sp_items(old(iter).text(), old(iter).at(), stop_chars@, Seq::empty(), Seq::empty(), Seq::empty()),
            !(whole is Panic),
            old(iter).at() <= iter.at(),
            sp_items(
                iter.text(),
                iter.at(),
                stop_chars@,
                view_args(args@),
                view_body(current_arg@),
                view_stmt(current_statements@),
            ) == whole,
        decreases iter.text().len() - iter.at(),
    {
        let c = match peek_next_char(iter, ParserError::InvalidItem) {
            Ok(c) => c,
            Err(e) => return Err(e),
        };
        if contains_char(stop_chars, c) {
            if current_statements.len() > 0 {
                proof {
                    lemma_view_body_push(current_arg@, current_statements);
                }
                current_arg.push(current_statements);
            }
            if current_arg.len() > 0 {
                proof {
                    lemma_view_args_push(args@, current_arg);
                }
                args.push(current_arg);
            }
            return Ok((args, c));
        }
        if c == ',' {
            iter.next();
            if current_statements.len() > 0 {
                proof {
                    lemma_view_body_push(current_arg@, current_statements);
                }
                current_arg.push(current_statements);
                current_statements = Vec::new();
            } else {
                assert(view_stmt(current_statements@) =~= Seq::<SAst>::empty());
            }
            proof {
                lemma_view_args_push(args@, current_arg);
                lemma_view_empty();
            }
            args.push(current_arg);
            current_arg = Vec::new();
        } else {
            match match_ast(iter) {
                Ok(Some(statement)) => {
                    if let Ast::End = statement {
                        proof {
                            lemma_view_body_push(current_arg@, current_statements);
                            lemma_view_empty();
                        }
                        current_arg.push(current_statements);
                        current_statements = Vec::new();
                    } else {
                        proof {
                            lemma_view_stmt_push(current_statements@, statement);
                        }
                        current_statements.push(statement);
                    }
                },
                Ok(None) => {
                    iter.next();
                },
                Err(e) => return Err(e),
            }
        }
    }
}

fn load_til_end(iter: &mut CharIter, stop_chars: &Vec<char>) -> (r: Result<AstBody, ParserError>)
    requires
        old(iter).wf(),
        !(sp_til_end(old(iter).text(), old(iter).at(), stop_chars@, Seq::empty(), Seq::empty())
            is Panic),
    ensures
        final(iter).wf(),
        final(iter).text() == old(iter).text(),
        agrees_body(
            sp_til_end(old(iter).text(), old(iter).at(), stop_chars@, Seq::empty(), Seq::empty()),
            r,
            final(iter).at(),
        ),
        r is Ok ==> old(iter).at() <= final(iter).at() < final(iter).text().len(),
    decreases old(iter).text().len() - old(iter).at(), 2int,
{
    let ghost whole = sp_til_end(
        old(iter).text(),
        old(iter).at(),
        stop_chars@,
        Seq::empty(),
        Seq::empty(),
    );
    let mut ast: AstBody = Vec::new();
    let mut current_statements: Vec<Ast> = Vec::new();
    proof {
        lemma_view_empty();
    }
    loop
        invariant
            iter.wf(),
            iter.text() == old(iter).text(),
            whole == sp_til_end(old(iter).text(), old(iter).at(), stop_chars@, Seq::empty(), Seq::empty()),
            !(whole is Panic),
            old(iter).at() <= iter.at(),
            sp_til_end(
                iter.text(),
                iter.at(),
                stop_chars@,
                view_body(ast@),
                view_stmt(current_statements@),
            ) == whole,
        decreases iter.text().len() - iter.at(),
    {
        let c = match peek_next_char(iter, ParserError::InvalidPart) {
            Ok(c) => c,
            Err(e) => return Err(e),
        };
        if contains_char(stop_chars, c) {
            if current_statements.len() > 0 {
                proof {
                    lemma_view_body_push(ast@, current_statements);
                }
                ast.push(current_statements);
            }
            return Ok(ast);
        }
        match match_ast(iter) {
            Ok(Some(statement)) => {
                if let Ast::End = statement {
                    proof {
                        lemma_view_body_push(ast@, current_statements);
                        lemma_view_empty();
                    }
                    ast.push(current_statements);
                    current_statements = Vec::new();
                } else {
                    proof {
                        lemma_view_stmt_push(current_statements@, statement);
                    }
                    current_statements.push(statement);
                }
            },
            Ok(None) => {
                iter.next();
            },
            Err(e) => return Err(e),
        }
    }
}

fn load_equals(iter: &mut CharIter) -> (r: Result<Ast, ParserError>)
    requires
        old(iter).wf(),
        !(sp_equals(old(iter).text(), old(iter).at()) is Panic),
    ensures
        final(iter).wf(),
        final(iter).text() == old(iter).text(),
        agrees_node(sp_equals(old(iter).text(), old(iter).at()), r, final(iter).at()),
        r is Ok ==> final(iter).at() > old(iter).at(),
    decreases old(iter).text().len() - old(iter).at(), 0int,
{
    let c = match peek_next_char(iter, ParserError::InvalidAssign) {
        Ok(c) => c,
        Err(e) => return Err(e),
    };
    if c == '=' {
        iter.next();
    } else {
        return Err(ParserError::InvalidAssign);
    }
    let c2 = match peek_next_char(iter, ParserError::InvalidEquals) {
        Ok(c2) => c2,
        Err(e) => return Err(e),
    };
    if c2 == '=' {
        iter.next();
        return Ok(Ast::Equals);
    }
    let stops = vec!['\n', ';'];
    assert(stops@ == line_stops());
    match load_til_end(iter, &stops) {
        Ok(body) => Ok(Ast::Assign(body)),
        Err(e) => Err(e),
    }
}

/// Reads the nodes of the next line: up to an end of line, or up to and
/// including an `if`. Characters that start no node are skipped.
pub fn load_ast_til_end(iter: &mut CharIter) -> (r: Result<Vec<Ast>, ParserError>)
    requires
        old(iter).wf(),
        !(sp_line(old(iter).text(), old(iter).at(), Seq::empty()) is Panic),
    ensures
        final(iter).wf(),
        final(iter).text() == old(iter).text(),
        agrees_line(sp_line(old(iter).text(), old(iter).at(), Seq::empty()), r, final(iter).at()),
        r is Ok ==> final(iter).at() >= old(iter).at(),
        r is Ok && old(iter).at() < old(iter).text().len() ==> final(iter).at() > old(iter).at(),
{
    let ghost whole = sp_line(old(iter).text(), old(iter).at(), Seq::empty());
    let mut ast: Vec<Ast> = Vec::new();
    proof {
        lemma_view_empty();
    }
    loop
        invariant
            iter.wf(),
            iter.text() == old(iter).text(),
            whole == sp_line(old(iter).text(), old(iter).at(), Seq::empty()),
            !(whole is Panic),
            old(iter).at() <= iter.at(),
            sp_line(iter.text(), iter.at(), view_stmt(ast@)) == whole,
        decreases iter.text().len() - iter.at(),
    {
        match match_ast(iter) {
            Ok(Some(item)) => {
                if let Ast::End = item {
                    return Ok(ast);
                }
                let add_end = item.add_end();
                proof {
                    lemma_view_stmt_push(ast@, item);
                }
                ast.push(item);
                if add_end {
                    return Ok(ast);
                }
            },
            Ok(None) => {
                if iter.next().is_none() {
                    return Ok(ast);
                }
            },
            Err(e) => return Err(e),
        }
    }
}

} // verus!
