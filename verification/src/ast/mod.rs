mod ast;
mod error;
pub mod grammar;

use vstd::prelude::*;
pub use self::ast::{Ast, SAst, view_node, view_list, view_lists};
pub use self::error::Error;
use crate::lang::text::{CharIter, string_from_chars};
use crate::lang::builder::ast::grammar::{is_letter, is_digit, is_ident_char, decimal_value};
use crate::lang::builder::ast::{is_letter_char, is_digit_char, is_ident, parse_decimal};
use self::ast::{lemma_view_list_push, lemma_view_lists_push, lemma_view_lists_empty};
use self::grammar::{
    Loaded, sp_comment, sp_var, sp_number, sp_string, sp_string_body, sp_equals, sp_io_out,
    sp_skip_comma, sp_statement, sp_block, sp_block_body, sp_args, sp_load_ast, fn_stops,
    array_stops,
};

verus! {

/// A set of characters at which reading a list stops.
pub struct StopChars {
    chars: Vec<char>,
}

impl StopChars {
    pub closed spec fn chars(&self) -> Seq<char> {
        self.chars@
    }

    pub fn new(chars: Vec<char>) -> (r: StopChars)
        ensures
            r.chars() == chars@,
    {
        StopChars { chars: chars }
    }

    pub fn is_stop(&self, c: char) -> (r: bool)
        ensures
            r == self.chars().contains(c),
    {
        let mut i: usize = 0;
        while i < self.chars.len()
            invariant
                i <= self.chars@.len(),
                forall|j: int| 0 <= j < i ==> self.chars@[j] != c,
            decreases self.chars.len() - i,
        {
            if c == self.chars[i] {
                return true;
            }
            i = i + 1;
        }
        false
    }
}

/// `r` is what reading gives where `spec` describes it; after a success the
/// cursor stands at `at`.
pub open spec fn agrees_node(spec: Loaded<SAst>, r: Result<Ast, Error>, at: int) -> bool {
    match spec {
        Loaded::Done(v, q) => r matches Ok(a) && a@ == v && at == q,
        Loaded::Fail(e) => r == Err::<Ast, Error>(e),
        Loaded::Panic => false,
    }
}

pub open spec fn agrees_opt(spec: Loaded<Option<SAst>>, r: Result<Option<Ast>, Error>, at: int) -> bool {
    match spec {
        Loaded::Done(v, q) => at == q && match r {
            Ok(Some(a)) => v == Some(a@),
            Ok(None) => v is None,
            Err(_) => false,
        },
        Loaded::Fail(e) => r == Err::<Option<Ast>, Error>(e),
        Loaded::Panic => false,
    }
}

pub open spec fn agrees_list(spec: Loaded<Seq<SAst>>, r: Result<Vec<Ast>, Error>, at: int) -> bool {
    match spec {
        Loaded::Done(v, q) => r matches Ok(a) && view_list(a@) == v && at == q,
        Loaded::Fail(e) => r == Err::<Vec<Ast>, Error>(e),
        Loaded::Panic => false,
    }
}

pub open spec fn agrees_lists(
    spec: Loaded<Seq<Seq<SAst>>>,
    r: Result<Vec<Vec<Ast>>, Error>,
    at: int,
) -> bool {
    match spec {
        Loaded::Done(v, q) => r matches Ok(a) && view_lists(a@) == v && at == q,
        Loaded::Fail(e) => r == Err::<Vec<Vec<Ast>>, Error>(e),
        Loaded::Panic => false,
    }
}

fn load_comment(iter: &mut CharIter) -> (r: Result<Ast, Error>)
    requires
        old(iter).wf(),
    ensures
        final(iter).wf(),
        final(iter).text() == old(iter).text(),
        agrees_node(sp_comment(old(iter).text(), old(iter).at(), Seq::empty()), r, final(iter).at()),
        r is Ok ==> final(iter).at() >= old(iter).at(),
        r is Ok && old(iter).at() < old(iter).text().len() && old(iter).text()[old(iter).at()] != '\n'
            ==> final(iter).at() > old(iter).at(),
{
    let mut comment: Vec<char> = Vec::new();
    loop
        invariant
            comment@.len() == iter.at() - old(iter).at(),
            iter.wf(),
            iter.text() == old(iter).text(),
            old(iter).at() <= iter.at(),
            sp_comment(iter.text(), iter.at(), comment@) == sp_comment(
                old(iter).text(),
                old(iter).at(),
                Seq::empty(),
            ),
        ensures
            iter.at() == iter.text().len(),
        decreases iter.text().len() - iter.at(),
    {
        let c = match iter.peek() {
            Some(c) => c,
            None => break,
        };
        if c == '\n' {
            return Ok(Ast::Comment(string_from_chars(&comment)));
        }
        comment.push(c);
        iter.next();
    }
    Err(Error::InvalidComment("No more charaters"))
}

fn load_var(iter: &mut CharIter) -> (r: Result<Ast, Error>)
    requires
        old(iter).wf(),
    ensures
        final(iter).wf(),
        final(iter).text() == old(iter).text(),
        agrees_node(sp_var(old(iter).text(), old(iter).at(), Seq::empty()), r, final(iter).at()),
        r is Ok ==> final(iter).at() >= old(iter).at(),
        r is Ok && old(iter).at() < old(iter).text().len() && is_ident_char(old(iter).text()[old(iter).at()])
            ==> final(iter).at() > old(iter).at(),
{
    let mut var: Vec<char> = Vec::new();
    loop
        invariant
            var@.len() == iter.at() - old(iter).at(),
            iter.wf(),
            iter.text() == old(iter).text(),
            old(iter).at() <= iter.at(),
            sp_var(iter.text(), iter.at(), var@) == sp_var(old(iter).text(), old(iter).at(), Seq::empty()),
        ensures
            iter.at() == iter.text().len(),
        decreases iter.text().len() - iter.at(),
    {
        let c = match iter.peek() {
            Some(c) => c,
            None => break,
        };
        if is_ident(c) {
            var.push(c);
            iter.next();
        } else {
            if var.len() == 1 && var[0] == 't' {
                assert(var@ =~= seq!['t']);
                return Ok(Ast::Bool(true));
            } else if var.len() == 1 && var[0] == 'f' {
                assert(var@ =~= seq!['f']);
                assert(var@ != seq!['t']);
                return Ok(Ast::Bool(false));
            }
            assert(var@ != seq!['t']) by {
                if var@.len() == 1 {
                    assert(var@[0] == seq!['t'][0] ==> var@ =~= seq!['t']);
                }
            }
            assert(var@ != seq!['f']) by {
                if var@.len() == 1 {
                    assert(var@[0] == seq!['f'][0] ==> var@ =~= seq!['f']);
                }
            }
            return Ok(Ast::Var(string_from_chars(&var)));
        }
    }
    Err(Error::InvalidVar("No more charaters"))
}

fn load_number(iter: &mut CharIter) -> (r: Result<Ast, Error>)
    requires
        old(iter).wf(),
        !(sp_number(old(iter).text(), old(iter).at(), Seq::empty(), false) is Panic),
    ensures
        final(iter).wf(),
        final(iter).text() == old(iter).text(),
        agrees_node(
            sp_number(old(iter).text(), old(iter).at(), Seq::empty(), false),
            r,
            final(iter).at(),
        ),
        r is Ok ==> final(iter).at() >= old(iter).at(),
        r is Ok && old(iter).at() < old(iter).text().len() && is_digit(old(iter).text()[old(iter).at()])
            ==> final(iter).at() > old(iter).at(),
{
    let mut number: Vec<char> = Vec::new();
    let mut is_float = false;
    loop
        invariant
            number@.len() == iter.at() - old(iter).at(),
            iter.wf(),
            iter.text() == old(iter).text(),
            old(iter).at() <= iter.at(),
            !is_float ==> forall|i: int| 0 <= i < number@.len() ==> is_digit(#[trigger] number@[i]),
            !(sp_number(old(iter).text(), old(iter).at(), Seq::empty(), false) is Panic),
            sp_number(iter.text(), iter.at(), number@, is_float) == sp_number(
                old(iter).text(),
                old(iter).at(),
                Seq::empty(),
                false,
            ),
        ensures
            iter.at() == iter.text().len(),
        decreases iter.text().len() - iter.at(),
    {
        let c = match iter.peek() {
            Some(c) => c,
            None => break,
        };
        if is_digit_char(c) {
            number.push(c);
            iter.next();
        } else if c == '.' {
            if !is_float {
                number.push(c);
                iter.next();
                is_float = true;
            } else {
                return Err(Error::InvalidNumber("Came across another ."));
            }
        } else {
            if !is_float {
                return match parse_decimal(&number) {
                    Some(v) => Ok(Ast::Integer(v)),
                    None => {
                        proof {
                            assert(false);
                        }
                        Err(Error::InvalidNumber("No more charaters"))
                    },
                };
            } else {
                return Ok(Ast::Float(string_from_chars(&number)));
            }
        }
    }
    Err(Error::InvalidNumber("No more charaters"))
}

fn load_string(iter: &mut CharIter) -> (r: Result<Ast, Error>)
    requires
        old(iter).wf(),
    ensures
        final(iter).wf(),
        final(iter).text() == old(iter).text(),
        agrees_node(sp_string(old(iter).text(), old(iter).at()), r, final(iter).at()),
        r is Ok ==> final(iter).at() > old(iter).at(),
{
    loop
        invariant_except_break
            sp_string(iter.text(), iter.at()) == sp_string(old(iter).text(), old(iter).at()),
        invariant
            iter.wf(),
            iter.text() == old(iter).text(),
            old(iter).at() <= iter.at(),
        ensures
            old(iter).at() < iter.at(),
            sp_string_body(iter.text(), iter.at(), Seq::empty()) == sp_string(
                old(iter).text(),
                old(iter).at(),
            ),
        decreases iter.text().len() - iter.at(),
    {
        let c = match iter.next() {
            Some(c) => c,
            None => return Err(Error::InvalidString("No more charaters")),
        };
        if c == '"' {
            break ;
        }
    }
    let mut string: Vec<char> = Vec::new();
    loop
        invariant
            iter.wf(),
            iter.text() == old(iter).text(),
            old(iter).at() < iter.at(),
            sp_string_body(iter.text(), iter.at(), string@) == sp_string(
                old(iter).text(),
                old(iter).at(),
            ),
        ensures
            iter.at() == iter.text().len(),
        decreases iter.text().len() - iter.at(),
    {
        let c = match iter.peek() {
            Some(c) => c,
            None => break,
        };
        if c == '"' {
            iter.next();
            return Ok(Ast::String(string_from_chars(&string)));
        } else if c == '\\' {
            iter.next();
            let next = match iter.next() {
                Some(n) => n,
                None => return Err(Error::InvalidString("No more charaters for escape")),
            };
            if next == '\\' {
                string.push('\\');
            } else if next == 'n' {
                string.push('\n');
            } else if next == '"' {
                string.push('"');
            } else {
                return Err(Error::InvalidString("Invalid escape"));
            }
        } else {
            string.push(c);
            iter.next();
        }
    }
    Err(Error::InvalidString("No more chraters"))
}

fn load_eqauls(iter: &mut CharIter) -> (r: Result<Ast, Error>)
    requires
        old(iter).wf(),
    ensures
        final(iter).wf(),
        final(iter).text() == old(iter).text(),
        agrees_node(sp_equals(old(iter).text(), old(iter).at()), r, final(iter).at()),
        r is Ok ==> final(iter).at() > old(iter).at(),
{
    let c = match iter.next() {
        Some(c) => c,
        None => return Err(Error::InvalidEquals("No more charaters")),
    };
    if c == '=' {
        let c2 = match iter.peek() {
            Some(c2) => c2,
            None => return Ok(Ast::Assign),
        };
        if c2 == '=' {
            iter.next();
            return Ok(Ast::Equals);
        }
        return Ok(Ast::Assign);
    }
    Err(Error::InvalidComment("Equal charater mismatch"))
}

fn load_io_out(iter: &mut CharIter) -> (r: Result<Ast, Error>)
    requires
        old(iter).wf(),
    ensures
        final(iter).wf(),
        final(iter).text() == old(iter).text(),
        agrees_node(sp_io_out(old(iter).text(), old(iter).at()), r, final(iter).at()),
        r is Ok ==> final(iter).at() > old(iter).at(),
{
    let c = match iter.next() {
        Some(c) => c,
        None => return Err(Error::InvalidIoWrite("No more charaters")),
    };
    if c == '>' {
        let c2 = match iter.peek() {
            Some(c2) => c2,
            None => return Ok(Ast::IoWrite),
        };
        if c2 == '>' {
            iter.next();
            return Ok(Ast::IoAppend);
        }
        return Ok(Ast::IoWrite);
    }
    return Err(Error::InvalidIoWrite("Io charater mismatch"));
}

/// Reads up to and including the next `,`.
fn skip_to_comma(iter: &mut CharIter) -> (r: Result<(), Error>)
    requires
        old(iter).wf(),
    ensures
        final(iter).wf(),
        final(iter).text() == old(iter).text(),
        match sp_skip_comma(old(iter).text(), old(iter).at()) {
            Loaded::Done(_, q) => r is Ok && final(iter).at() == q,
            Loaded::Fail(e) => r == Err::<(), Error>(e),
            Loaded::Panic => false,
        },
        r is Ok ==> final(iter).at() > old(iter).at(),
{
    loop
        invariant
            iter.wf(),
            iter.text() == old(iter).text(),
            old(iter).at() <= iter.at(),
            sp_skip_comma(iter.text(), iter.at()) == sp_skip_comma(old(iter).text(), old(iter).at()),
        decreases iter.text().len() - iter.at(),
    {
        let c = match iter.next() {
            Some(c) => c,
            None => return Err(Error::InvalidArgs("No more charaters")),
        };
        if c == ',' {
            return Ok(());
        }
    }
}

/// Reads the node that starts at the cursor, if any: `Ok(None)` at the end
/// of the text and at a character that starts no node (which is not read).
fn load_statement(iter: &mut CharIter) -> (r: Result<Option<Ast>, Error>)
    requires
        old(iter).wf(),
        !(sp_statement(old(iter).text(), old(iter).at()) is Panic),
    ensures
        final(iter).wf(),
        final(iter).text() == old(iter).text(),
        agrees_opt(sp_statement(old(iter).text(), old(iter).at()), r, final(iter).at()),
        r matches Ok(Some(_)) ==> final(iter).at() > old(iter).at(),
        r matches Ok(None) ==> final(iter).at() == old(iter).at(),
    decreases old(iter).text().len() - old(iter).at(), 1int,
{
    let ghost s = iter.text();
    let ghost p = iter.at();
    let c = match iter.peek() {
        Some(c) => c,
        None => return Ok(None),
    };
    if c == '\n' {
        iter.next();
        return Ok(Some(Ast::End));
    } else if c == ';' {
        iter.next();
        if let Some(c2) = iter.peek() {
            if c2 == ';' {
                return Ok(Some(Ast::Return));
            }
        }
        return Ok(Some(Ast::End));
    } else if c == '(' {
        return match load_block(iter, '(', ')') {
            Ok(b) => Ok(Some(Ast::Group(b))),
            Err(e) => Err(e),
        };
    } else if c == '[' {
        return match load_block(iter, '[', ']') {
            Ok(b) => Ok(Some(Ast::Access(b))),
            Err(e) => Err(e),
        };
    } else if c == '?' {
        return match load_block(iter, '{', '}') {
            Ok(b) => Ok(Some(Ast::If(b))),
            Err(e) => Err(e),
        };
    } else if c == '.' {
        iter.next();
        let fn_name = match load_var(iter) {
            Ok(a) => a,
            Err(e) => return Err(e),
        };
        match skip_to_comma(iter) {
            Ok(()) => {},
            Err(e) => return Err(e),
        }
        let fn_stop = StopChars::new(vec!['{', '\n', ';']);
        assert(fn_stop.chars() == fn_stops());
        let fn_args = match load_args(iter, &fn_stop) {
            Ok(a) => a,
            Err(e) => return Err(e),
        };
        let body = match load_block(iter, '{', '}') {
            Ok(b) => b,
            Err(e) => return Err(e),
        };
        return Ok(Some(Ast::Function(Box::new(fn_name), fn_args, body)));
    } else if c == '@' {
        iter.next();
        let c = match iter.next() {
            Some(c) => c,
            None => return Err(Error::InvalidArray("No more charaters")),
        };
        let rst;
        if c == '[' {
            let array_stop = StopChars::new(vec![']']);
            assert(array_stop.chars() == array_stops());
            rst = match load_args(iter, &array_stop) {
                Ok(a) => Some(Ast::Array(a)),
                Err(e) => return Err(e),
            };
        } else if c == '<' {
            rst = Some(Ast::ArrayPush);
        } else {
            return Err(Error::InvalidArray("Invalid array charater"));
        }
        iter.next();
        return Ok(rst);
    } else if c == '#' {
        return match load_comment(iter) {
            Ok(a) => Ok(Some(a)),
            Err(e) => Err(e),
        };
    } else if c == '_' || is_letter_char(c) {
        return match load_var(iter) {
            Ok(a) => Ok(Some(a)),
            Err(e) => Err(e),
        };
    } else if is_digit_char(c) {
        return match load_number(iter) {
            Ok(a) => Ok(Some(a)),
            Err(e) => Err(e),
        };
    } else if c == '+' {
        iter.next();
        return Ok(Some(Ast::Add));
    } else if c == '-' {
        iter.next();
        return Ok(Some(Ast::Sub));
    } else if c == '*' {
        iter.next();
        let mut has_exp = false;
        if let Some(c2) = iter.peek() {
            if c2 == '*' {
                has_exp = true;
            }
        }
        if has_exp {
            iter.next();
            return Ok(Some(Ast::Exp));
        } else {
            return Ok(Some(Ast::Mul));
        }
    } else if c == '/' || c == '\\' {
        iter.next();
        let mut has_rem = false;
        if let Some(c2) = iter.peek() {
            if c2 == c {
                has_rem = true;
            }
        }
        if has_rem {
            iter.next();
            return Ok(Some(Ast::Rem));
        } else {
            return Ok(Some(Ast::Div));
        }
    } else if c == '=' {
        return match load_eqauls(iter) {
            Ok(a) => Ok(Some(a)),
            Err(e) => Err(e),
        };
    } else if c == '>' {
        return match load_io_out(iter) {
            Ok(a) => Ok(Some(a)),
            Err(e) => Err(e),
        };
    } else if c == '"' {
        return match load_string(iter) {
            Ok(a) => Ok(Some(a)),
            Err(e) => Err(e),
        };
    }
    Ok(None)
}

/// Reads comma separated arguments up to a stop character, which is not
/// read.
fn load_args(iter: &mut CharIter, stop_chars: &StopChars) -> (r: Result<Vec<Vec<Ast>>, Error>)
    requires
        old(iter).wf(),
        !(sp_args(old(iter).text(), old(iter).at(), stop_chars.chars(), Seq::empty(), Seq::empty())
            is Panic),
    ensures
        final(iter).wf(),
        final(iter).text() == old(iter).text(),
        agrees_lists(
            sp_args(old(iter).text(), old(iter).at(), stop_chars.chars(), Seq::empty(), Seq::empty()),
            r,
            final(iter).at(),
        ),
        r is Ok ==> old(iter).at() <= final(iter).at() < final(iter).text().len(),
    decreases old(iter).text().len() - old(iter).at(), 2int,
{
    let ghost whole = sp_args(
        old(iter).text(),
        old(iter).at(),
        stop_chars.chars(),
        Seq::empty(),
        Seq::empty(),
    );
    let mut args: Vec<Vec<Ast>> = Vec::new();
    let mut current_arg: Vec<Ast> = Vec::new();
    proof {
        lemma_view_lists_empty();
    }
    loop
        invariant
            iter.wf(),
            iter.text() == old(iter).text(),
            old(iter).at() <= iter.at(),
            whole == sp_args(
                old(iter).text(),
                old(iter).at(),
                stop_chars.chars(),
                Seq::empty(),
                Seq::empty(),
            ),
            !(whole is Panic),
            sp_args(iter.text(), iter.at(), stop_chars.chars(), view_lists(args@), view_list(current_arg@))
                == whole,
        decreases iter.text().len() - iter.at(),
    {
        let c = match iter.peek() {
            Some(c) => c,
            None => return Err(Error::InvalidArgs("No more charaters")),
        };
        if c == ',' {
            iter.next();
            proof {
                lemma_view_lists_push(args@, current_arg);
            }
            args.push(current_arg);
            current_arg = Vec::new();
            proof {
                lemma_view_lists_empty();
            }
        } else if stop_chars.is_stop(c) {
            if current_arg.len() > 0 {
                proof {
                    lemma_view_lists_push(args@, current_arg);
                }
                args.push(current_arg);
            }
            return Ok(args);
        } else {
            match load_statement(iter) {
                Ok(Some(statement)) => {
                    proof {
                        lemma_view_list_push(current_arg@, statement);
                    }
                    current_arg.push(statement);
                },
                Ok(None) => {
                    iter.next();
                },
                Err(e) => return Err(e),
            }
        }
    }
}

/// Reads a block: skips to `start` (an end of line first gives an empty
/// block), then reads nodes up to and including `end`.
fn load_block(iter: &mut CharIter, start: char, end: char) -> (r: Result<Vec<Ast>, Error>)
    requires
        old(iter).wf(),
        !(sp_block(old(iter).text(), old(iter).at(), start, end) is Panic),
    ensures
        final(iter).wf(),
        final(iter).text() == old(iter).text(),
        agrees_list(sp_block(old(iter).text(), old(iter).at(), start, end), r, final(iter).at()),
        r is Ok ==> final(iter).at() > old(iter).at(),
    decreases old(iter).text().len() - old(iter).at(), 0int,
{
    let ghost whole = sp_block(old(iter).text(), old(iter).at(), start, end);
    let mut ast: Vec<Ast> = Vec::new();
    proof {
        lemma_view_lists_empty();
    }
    loop
        invariant_except_break
            sp_block(iter.text(), iter.at(), start, end) == whole,
        invariant
            iter.wf(),
            iter.text() == old(iter).text(),
            whole == sp_block(old(iter).text(), old(iter).at(), start, end),
            !(whole is Panic),
            old(iter).at() <= iter.at(),
            ast@.len() == 0,
        ensures
            old(iter).at() < iter.at(),
            sp_block_body(iter.text(), iter.at(), end, Seq::empty()) == whole,
        decreases iter.text().len() - iter.at(),
    {
        let c = match iter.next() {
            Some(c) => c,
            None => return Err(Error::InvalidBlock("No more charaters before start")),
        };
        if c == ';' || c == '\n' {
            assert(view_list(ast@) =~= Seq::<SAst>::empty());
            return Ok(ast);
        }
        if c == start {
            break ;
        }
    }
    assert(view_list(ast@) =~= Seq::<SAst>::empty());
    loop
        invariant
            iter.wf(),
            iter.text() == old(iter).text(),
            whole == sp_block(old(iter).text(), old(iter).at(), start, end),
            !(whole is Panic),
            old(iter).at() < iter.at(),
            sp_block_body(iter.text(), iter.at(), end, view_list(ast@)) == whole,
        decreases iter.text().len() - iter.at(),
    {
        let c = match iter.peek() {
            Some(c) => c,
            None => return Err(Error::InvalidBlock("No more charaters brefore end")),
        };
        if c != end {
            match load_statement(iter) {
                Ok(Some(statement)) => {
                    proof {
                        lemma_view_list_push(ast@, statement);
                    }
                    ast.push(statement);
                },
                Ok(None) => {
                    iter.next();
                },
                Err(e) => return Err(e),
            }
        } else {
            iter.next();
            return Ok(ast);
        }
    }
}

/// Reads all the nodes of the text from the cursor on; characters that start
/// no node are skipped.
pub fn load_ast(iter: &mut CharIter) -> (r: Result<Vec<Ast>, Error>)
    requires
        old(iter).wf(),
        !(sp_load_ast(old(iter).text(), old(iter).at(), Seq::empty()) is Panic),
    ensures
        final(iter).wf(),
        final(iter).text() == old(iter).text(),
        agrees_list(sp_load_ast(old(iter).text(), old(iter).at(), Seq::empty()), r, final(iter).at()),
{
    let ghost whole = sp_load_ast(old(iter).text(), old(iter).at(), Seq::empty());
    let mut ast: Vec<Ast> = Vec::new();
    proof {
        lemma_view_lists_empty();
    }
    loop
        invariant
            iter.wf(),
            iter.text() == old(iter).text(),
            whole == sp_load_ast(old(iter).text(), old(iter).at(), Seq::empty()),
            !(whole is Panic),
            sp_load_ast(iter.text(), iter.at(), view_list(ast@)) == whole,
        ensures
            iter.at() == iter.text().len(),
        decreases iter.text().len() - iter.at(),
    {
        if iter.peek().is_none() {
            break ;
        }
        match load_statement(iter) {
            Ok(Some(statement)) => {
                proof {
                    lemma_view_list_push(ast@, statement);
                }
                ast.push(statement);
            },
            Ok(None) => {
                iter.next();
            },
            Err(e) => return Err(e),
        }
    }
    Ok(ast)
}

} // verus!
