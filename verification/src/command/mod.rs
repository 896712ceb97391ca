pub mod command;

use vstd::prelude::*;
use crate::ast::{Ast, SAst, Error};
use self::command::Command;

verus! {

/// What the compiler knows of the function it is compiling: how many
/// arguments it has, and whether room for its locals was made already.
pub struct CommandState {
    num_args: usize,
    added_locals: bool,
}

impl CommandState {
    pub closed spec fn num_args(&self) -> nat {
        self.num_args as nat
    }

    pub closed spec fn has_locals(&self) -> bool {
        self.added_locals
    }

    pub fn new(num_args: usize) -> (r: CommandState)
        ensures
            r.num_args() == num_args,
            !r.has_locals(),
    {
        CommandState { num_args: num_args, added_locals: false }
    }

    pub fn get_num_args(&self) -> (r: usize)
        ensures
            r == self.num_args(),
    {
        self.num_args
    }

    pub fn get_added_locals(&self) -> (r: bool)
        ensures
            r == self.has_locals(),
    {
        self.added_locals
    }

    /// Records that room for the locals was made.
    pub fn added_locals(&mut self)
        ensures
            final(self).num_args() == old(self).num_args(),
            final(self).has_locals(),
    {
        self.added_locals = true;
    }
}

/// Where a variable's value lives: the first `num_args` indices are the
/// function's arguments, on the stack; the ones after are its locals,
/// numbered from 0. The first time a local is used, room for the locals is
/// made (`AddLocals`). Returns whether the index is a local, and its index
/// among the arguments or the locals.
pub fn check_locals(index: usize, commands: &mut Vec<Command>, command_state: &mut CommandState) -> (r: (
    bool,
    usize,
))
    ensures
        final(command_state).num_args() == old(command_state).num_args(),
        final(command_state).has_locals() == (old(command_state).has_locals() || index
            >= old(command_state).num_args()),
        final(commands)@ == (if index >= old(command_state).num_args() && !old(
            command_state,
        ).has_locals() {
            old(commands)@.push(Command::AddLocals)
        } else {
            old(commands)@
        }),
        r == (if index < old(command_state).num_args() {
            (false, index)
        } else {
            (true, (index - old(command_state).num_args()) as usize)
        }),
{
    if index >= command_state.get_num_args() && !command_state.get_added_locals() {
        commands.push(Command::AddLocals);
        command_state.added_locals();
    }
    if index < command_state.get_num_args() {
        return (false, index);
    }
    (true, index - command_state.get_num_args())
}

/// The side of an operator on which to look for its operand.
pub enum MoveEndDirection {
    Left,
    Right,
}

impl MoveEndDirection {
    pub fn is_left(&self) -> (r: bool)
        ensures
            r == (*self is Left),
    {
        if let MoveEndDirection::Left = *self {
            return true;
        }
        false
    }

    pub fn is_right(&self) -> (r: bool)
        ensures
            r == (*self is Right),
    {
        if let MoveEndDirection::Right = *self {
            return true;
        }
        false
    }
}

/// Marks a node as turned into commands: a variable keeps its name.
pub fn set_used(ast: &mut Ast) -> (r: Result<(), Error>)
    ensures
        r is Ok,
        final(ast)@ == (match old(ast)@ {
            SAst::Var(n) => SAst::UsedVar(n),
            _ => SAst::Used,
        }),
{
    if ast.is_var() {
        let name = match ast.get_var_name() {
            Ok(name) => name.to_owned(),
            Err(e) => return Err(e),
        };
        *ast = Ast::UsedVar(name);
    } else {
        *ast = Ast::Used;
    }
    Ok(())
}

} // verus!
