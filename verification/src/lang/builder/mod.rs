pub mod ast;
pub mod symbol;
pub mod builder;
pub mod command;
pub mod add_sub_builder;
pub mod assign_builder;
pub mod if_builder;
pub mod io_builder;
pub mod loop_builder;
pub mod modifier_builder;
pub mod mul_div_mod_builder;
pub mod run_builder;
pub mod single_command_builder;

use vstd::prelude::*;
use crate::lang::command::{Command, SCommand, view_commands, lemma_view_commands_add, lemma_view_commands_push};
use crate::lang::error::{ParserError, SParserError};
use crate::lang::text::CharIter;
use self::ast::{
    Ast, SAst, view_stmt, view_body, lemma_view_body_push, clone_stmt, load_ast_til_end, shunt_yard,
    sp_shunt, agrees_line,
};
use self::ast::grammar::{Parsed, sp_line};
use self::builder::{Outcome, sp_load, load_commands_from_ast};
use self::symbol::{SymbolTable, SymState};

verus! {

/// Compiling the program text from position `p` on, line by line, into the
/// commands of the entry function, which end with `Halt(0)`; `acc` holds
/// the commands of the lines before, `st` the symbols of the top level.
pub open spec fn sp_build(s: Seq<char>, p: int, st: SymState, acc: Seq<SCommand>) -> Outcome<
    (Seq<SCommand>, SymState),
>
    decreases s.len() - p,
{
    if !(0 <= p <= s.len()) {
        Outcome::Panic
    } else if p == s.len() {
        Outcome::Done((acc.push(SCommand::Halt(0)), st))
    } else {
        match sp_line(s, p, Seq::empty()) {
            Parsed::Fail(e, _) => Outcome::Fail(e@),
            Parsed::Panic => Outcome::Panic,
            Parsed::Done(line, q) => {
                if !(p < q <= s.len()) {
                    Outcome::Panic
                } else if line.len() == 0 {
                    sp_build(s, q, st, acc)
                } else {
                    match sp_shunt(line, 0, st, Seq::empty(), Seq::empty()) {
                        None => Outcome::Panic,
                        Some((shunt, st2)) => {
                            if shunt.len() == 0 {
                                sp_build(s, q, st2, acc)
                            } else {
                                match sp_load(shunt, 0, Seq::empty()) {
                                    Outcome::Done(c) => sp_build(s, q, st2, acc + c),
                                    Outcome::Fail(e) => Outcome::Fail(e),
                                    Outcome::Panic => Outcome::Panic,
                                }
                            }
                        },
                    }
                }
            },
        }
    }
}

/// What compiling the program text from position `p` on leaves behind:
/// the commands, the symbols and the position of the cursor. On success
/// they are those of [`sp_build`], with the cursor at the end of the text;
/// on an error, the commands of the lines before the failing one, with no
/// `Halt`, the symbols as the failing line left them, and the cursor where
/// reading that line stopped.
pub open spec fn sp_build_left(s: Seq<char>, p: int, st: SymState, acc: Seq<SCommand>) -> (
    Seq<SCommand>,
    SymState,
    int,
)
    decreases s.len() - p,
{
    if !(0 <= p <= s.len()) {
        (acc, st, p)
    } else if p == s.len() {
        (acc.push(SCommand::Halt(0)), st, p)
    } else {
        match sp_line(s, p, Seq::empty()) {
            Parsed::Done(line, q) => {
                if !(p < q <= s.len()) {
                    (acc, st, q)
                } else if line.len() == 0 {
                    sp_build_left(s, q, st, acc)
                } else {
                    match sp_shunt(line, 0, st, Seq::empty(), Seq::empty()) {
                        None => (acc, st, q),
                        Some((shunt, st2)) => {
                            if shunt.len() == 0 {
                                sp_build_left(s, q, st2, acc)
                            } else {
                                match sp_load(shunt, 0, Seq::empty()) {
                                    Outcome::Done(c) => sp_build_left(s, q, st2, acc + c),
                                    _ => (acc, st2, q),
                                }
                            }
                        },
                    }
                }
            },
            Parsed::Fail(_, q) => (acc, st, q),
            Parsed::Panic => (acc, st, p),
        }
    }
}

pub open spec fn agrees_build(
    o: Outcome<(Seq<SCommand>, SymState)>,
    r: Result<(), ParserError>,
    commands: Seq<Command>,
    symbols: SymState,
) -> bool {
    match o {
        Outcome::Done((c, st)) => r is Ok && view_commands(commands) == c && symbols == st,
        Outcome::Fail(e) => r matches Err(e2) && e2@ == e,
        Outcome::Panic => false,
    }
}

/// Compiles the rest of the program text into the commands of the entry
/// function: each line is read, reordered into postfix order and compiled,
/// and the commands are appended to `commands`, followed by `Halt(0)`.
pub fn build_commands(
    iter: &mut CharIter,
    root_symbols: &mut SymbolTable,
    commands: &mut Vec<Command>,
) -> (r: Result<(), ParserError>)
    requires
        old(iter).wf(),
        old(root_symbols).wf(),
        !(sp_build(
            old(iter).text(),
            old(iter).at(),
            old(root_symbols).state(),
            view_commands(old(commands)@),
        ) is Panic),
    ensures
        agrees_build(
            sp_build(
                old(iter).text(),
                old(iter).at(),
                old(root_symbols).state(),
                view_commands(old(commands)@),
            ),
            r,
            final(commands)@,
            final(root_symbols).state(),
        ),
        final(iter).text() == old(iter).text(),
        r is Ok ==> final(iter).at() == final(iter).text().len(),
        (view_commands(final(commands)@), final(root_symbols).state(), final(iter).at()) == sp_build_left(
            old(iter).text(),
            old(iter).at(),
            old(root_symbols).state(),
            view_commands(old(commands)@),
        ),
{
    build(iter, root_symbols, commands)
}

fn build(iter: &mut CharIter, root_symbols: &mut SymbolTable, commands: &mut Vec<Command>) -> (r:
    Result<(), ParserError>)
    requires
        old(iter).wf(),
        old(root_symbols).wf(),
        !(sp_build(
            old(iter).text(),
            old(iter).at(),
            old(root_symbols).state(),
            view_commands(old(commands)@),
        ) is Panic),
    ensures
        agrees_build(
            sp_build(
                old(iter).text(),
                old(iter).at(),
                old(root_symbols).state(),
                view_commands(old(commands)@),
            ),
            r,
            final(commands)@,
            final(root_symbols).state(),
        ),
        final(iter).text() == old(iter).text(),
        r is Ok ==> final(iter).at() == final(iter).text().len(),
        (view_commands(final(commands)@), final(root_symbols).state(), final(iter).at()) == sp_build_left(
            old(iter).text(),
            old(iter).at(),
            old(root_symbols).state(),
            view_commands(old(commands)@),
        ),
{
    let ghost whole = sp_build(
        old(iter).text(),
        old(iter).at(),
        old(root_symbols).state(),
        view_commands(old(commands)@),
    );
    let ghost whole_left = sp_build_left(
        old(iter).text(),
        old(iter).at(),
        old(root_symbols).state(),
        view_commands(old(commands)@),
    );
    while iter.peek().is_some()
        invariant
            iter.wf(),
            iter.text() == old(iter).text(),
            root_symbols.wf(),
            whole == sp_build(
                old(iter).text(),
                old(iter).at(),
                old(root_symbols).state(),
                view_commands(old(commands)@),
            ),
            !(whole is Panic),
            sp_build(iter.text(), iter.at(), root_symbols.state(), view_commands(commands@)) == whole,
            whole_left == sp_build_left(
                old(iter).text(),
                old(iter).at(),
                old(root_symbols).state(),
                view_commands(old(commands)@),
            ),
            sp_build_left(iter.text(), iter.at(), root_symbols.state(), view_commands(commands@))
                == whole_left,
        decreases iter.text().len() - iter.at(),
    {
        let mut ast = match load_ast_til_end(iter) {
            Ok(ast) => ast,
            Err(e) => return Err(e),
        };
        if ast.len() > 0 {
            let shunt = match shunt_yard(&mut ast, root_symbols) {
                Ok(shunt) => shunt,
                Err(e) => return Err(e),
            };
            if shunt.len() > 0 {
                let mut new_commands = match load_commands_from_ast(&shunt) {
                    Ok(new_commands) => new_commands,
                    Err(e) => return Err(e),
                };
                proof {
                    lemma_view_commands_add(commands@, new_commands@);
                }
                commands.append(&mut new_commands);
            }
        }
    }
    proof {
        lemma_view_commands_push(commands@, Command::Halt(0));
    }
    commands.push(Command::Halt(0));
    Ok(())
}

/// What a debugging run of the compiler collects from the program text at
/// position `p` on: each line as it was read (empty ones too), and each
/// non-empty line once reordered; `da` and `ds` hold what was collected
/// before. Collecting stops with the line that fails.
pub open spec fn sp_debug(
    s: Seq<char>,
    p: int,
    st: SymState,
    da: Seq<Seq<SAst>>,
    ds: Seq<Seq<SAst>>,
) -> (Seq<Seq<SAst>>, Seq<Seq<SAst>>)
    decreases s.len() - p,
{
    if !(0 <= p < s.len()) {
        (da, ds)
    } else {
        match sp_line(s, p, Seq::empty()) {
            Parsed::Done(line, q) => {
                let da2 = da.push(line);
                if !(p < q <= s.len()) {
                    (da2, ds)
                } else if line.len() == 0 {
                    sp_debug(s, q, st, da2, ds)
                } else {
                    match sp_shunt(line, 0, st, Seq::empty(), Seq::empty()) {
                        None => (da2, ds),
                        Some((shunt, st2)) => {
                            let ds2 = ds.push(shunt);
                            if shunt.len() == 0 {
                                sp_debug(s, q, st2, da2, ds2)
                            } else {
                                match sp_load(shunt, 0, Seq::empty()) {
                                    Outcome::Done(_) => sp_debug(s, q, st2, da2, ds2),
                                    _ => (da2, ds2),
                                }
                            }
                        },
                    }
                }
            },
            _ => (da, ds),
        }
    }
}

/// Compiles the rest of the program text as [`build_commands`] does, and
/// also collects, for a debugging report, each line as read into
/// `debug_ast` and each line once reordered into `debug_shunt_ast` (see
/// [`sp_debug`]), up to the line that fails if one does.
pub fn build_debug(
    iter: &mut CharIter,
    root_symbols: &mut SymbolTable,
    commands: &mut Vec<Command>,
    debug_ast: &mut Vec<Vec<Ast>>,
    debug_shunt_ast: &mut Vec<Vec<Ast>>,
) -> (r: Result<(), ParserError>)
    requires
        old(iter).wf(),
        old(root_symbols).wf(),
        !(sp_build(
            old(iter).text(),
            old(iter).at(),
            old(root_symbols).state(),
            view_commands(old(commands)@),
        ) is Panic),
    ensures
        agrees_build(
            sp_build(
                old(iter).text(),
                old(iter).at(),
                old(root_symbols).state(),
                view_commands(old(commands)@),
            ),
            r,
            final(commands)@,
            final(root_symbols).state(),
        ),
        final(iter).text() == old(iter).text(),
        r is Ok ==> final(iter).at() == final(iter).text().len(),
        (view_commands(final(commands)@), final(root_symbols).state(), final(iter).at()) == sp_build_left(
            old(iter).text(),
            old(iter).at(),
            old(root_symbols).state(),
            view_commands(old(commands)@),
        ),
        (view_body(final(debug_ast)@), view_body(final(debug_shunt_ast)@)) == sp_debug(
            old(iter).text(),
            old(iter).at(),
            old(root_symbols).state(),
            view_body(old(debug_ast)@),
            view_body(old(debug_shunt_ast)@),
        ),
{
    let ghost whole = sp_build(
        old(iter).text(),
        old(iter).at(),
        old(root_symbols).state(),
        view_commands(old(commands)@),
    );
    let ghost whole_left = sp_build_left(
        old(iter).text(),
        old(iter).at(),
        old(root_symbols).state(),
        view_commands(old(commands)@),
    );
    let ghost whole_debug = sp_debug(
        old(iter).text(),
        old(iter).at(),
        old(root_symbols).state(),
        view_body(old(debug_ast)@),
        view_body(old(debug_shunt_ast)@),
    );
    while iter.peek().is_some()
        invariant
            iter.wf(),
            iter.text() == old(iter).text(),
            root_symbols.wf(),
            whole == sp_build(
                old(iter).text(),
                old(iter).at(),
                old(root_symbols).state(),
                view_commands(old(commands)@),
            ),
            whole_debug == sp_debug(
                old(iter).text(),
                old(iter).at(),
                old(root_symbols).state(),
                view_body(old(debug_ast)@),
                view_body(old(debug_shunt_ast)@),
            ),
            !(whole is Panic),
            sp_build(iter.text(), iter.at(), root_symbols.state(), view_commands(commands@)) == whole,
            whole_left == sp_build_left(
                old(iter).text(),
                old(iter).at(),
                old(root_symbols).state(),
                view_commands(old(commands)@),
            ),
            sp_build_left(iter.text(), iter.at(), root_symbols.state(), view_commands(commands@))
                == whole_left,
            sp_debug(
                iter.text(),
                iter.at(),
                root_symbols.state(),
                view_body(debug_ast@),
                view_body(debug_shunt_ast@),
            ) == whole_debug,
        decreases iter.text().len() - iter.at(),
    {
        let mut ast = match load_ast_til_end(iter) {
            Ok(ast) => ast,
            Err(e) => return Err(e),
        };
        let read = clone_stmt(&ast);
        proof {
            lemma_view_body_push(debug_ast@, read);
        }
        debug_ast.push(read);
        if ast.len() > 0 {
            let shunt = match shunt_yard(&mut ast, root_symbols) {
                Ok(shunt) => shunt,
                Err(e) => return Err(e),
            };
            let reordered = clone_stmt(&shunt);
            proof {
                lemma_view_body_push(debug_shunt_ast@, reordered);
            }
            debug_shunt_ast.push(reordered);
            if shunt.len() > 0 {
                let mut new_commands = match load_commands_from_ast(&shunt) {
                    Ok(new_commands) => new_commands,
                    Err(e) => return Err(e),
                };
                proof {
                    lemma_view_commands_add(commands@, new_commands@);
                }
                commands.append(&mut new_commands);
            }
        }
    }
    proof {
        lemma_view_commands_push(commands@, Command::Halt(0));
    }
    commands.push(Command::Halt(0));
    Ok(())
}

/// A program that compiles gives the commands of the lines before it
/// unchanged, then its own, and always ends with `Halt(0)`.
pub proof fn law_build_ends_with_halt(s: Seq<char>, p: int, st: SymState, acc: Seq<SCommand>)
    ensures
        sp_build(s, p, st, acc) matches Outcome::Done((c, _)) ==> c.len() > acc.len() && c.last()
            == SCommand::Halt(0) && c.take(acc.len() as int) == acc,
    decreases s.len() - p,
{
    if p == s.len() {
        assert(acc.push(SCommand::Halt(0)).take(acc.len() as int) =~= acc);
    } else if 0 <= p < s.len() {
        if let Parsed::Done(line, q) = sp_line(s, p, Seq::empty()) {
            if p < q <= s.len() {
                if line.len() == 0 {
                    law_build_ends_with_halt(s, q, st, acc);
                } else if let Some((shunt, st2)) = sp_shunt(line, 0, st, Seq::empty(), Seq::empty()) {
                    if shunt.len() == 0 {
                        law_build_ends_with_halt(s, q, st2, acc);
                    } else if let Outcome::Done(cmds) = sp_load(shunt, 0, Seq::empty()) {
                        law_build_ends_with_halt(s, q, st2, acc + cmds);
                        if let Outcome::Done((c, _)) = sp_build(s, q, st2, acc + cmds) {
                            assert(c.take(acc.len() as int) =~= c.take((acc + cmds).len() as int).take(
                                acc.len() as int,
                            ));
                            assert((acc + cmds).take(acc.len() as int) =~= acc);
                        }
                    }
                }
            }
        }
    }
}

} // verus!
