use vstd::prelude::*;
use crate::lang::data_type::{DataType, SDataType};

verus! {

/// An instruction of the stack machine that programs compile to.
#[derive(Debug)]
pub enum Command {
    // Add values to the stack
    PushStack(DataType),
    // Locals
    SaveLocal(usize),
    LoadLocal(usize),
    // arguments at an offset from the current function's stack index
    SaveStackArg(usize),
    LoadStackArg(usize),
    // collections
    InitArray,
    ArrayPush,
    Access,
    AccessAssign,
    // comparison and arithmetic
    Equals,
    Add,
    Concat,
    Sub,
    Mul,
    Div,
    Rem,
    Exp,
    // output
    IoWrite,
    IoAppend,
    // skip the given number of commands when the top of the stack is false
    JumpIfFalse(usize),
    // run a function
    Call,
    CallSelf,
    // exit from function
    Return,
    // stop program with exit code
    Halt(i32),
}

/// The mathematical value of a [`Command`].
pub enum SCommand {
    PushStack(SDataType),
    SaveLocal(int),
    LoadLocal(int),
    SaveStackArg(int),
    LoadStackArg(int),
    InitArray,
    ArrayPush,
    Access,
    AccessAssign,
    Equals,
    Add,
    Concat,
    Sub,
    Mul,
    Div,
    Rem,
    Exp,
    IoWrite,
    IoAppend,
    JumpIfFalse(int),
    Call,
    CallSelf,
    Return,
    Halt(int),
}

pub open spec fn view_command(c: Command) -> SCommand
    decreases c,
{
    match c {
        Command::PushStack(d) => SCommand::PushStack(view_data(d)),
        Command::SaveLocal(i) => SCommand::SaveLocal(i as int),
        Command::LoadLocal(i) => SCommand::LoadLocal(i as int),
        Command::SaveStackArg(i) => SCommand::SaveStackArg(i as int),
        Command::LoadStackArg(i) => SCommand::LoadStackArg(i as int),
        Command::InitArray => SCommand::InitArray,
        Command::ArrayPush => SCommand::ArrayPush,
        Command::Access => SCommand::Access,
        Command::AccessAssign => SCommand::AccessAssign,
        Command::Equals => SCommand::Equals,
        Command::Add => SCommand::Add,
        Command::Concat => SCommand::Concat,
        Command::Sub => SCommand::Sub,
        Command::Mul => SCommand::Mul,
        Command::Div => SCommand::Div,
        Command::Rem => SCommand::Rem,
        Command::Exp => SCommand::Exp,
        Command::IoWrite => SCommand::IoWrite,
        Command::IoAppend => SCommand::IoAppend,
        Command::JumpIfFalse(n) => SCommand::JumpIfFalse(n as int),
        Command::Call => SCommand::Call,
        Command::CallSelf => SCommand::CallSelf,
        Command::Return => SCommand::Return,
        Command::Halt(code) => SCommand::Halt(code as int),
    }
}

pub open spec fn view_commands(v: Seq<Command>) -> Seq<SCommand>
    decreases v,
{
    Seq::new(v.len(), |i: int| if 0 <= i < v.len() { view_command(v[i]) } else { SCommand::Return })
}

pub open spec fn view_data(d: DataType) -> SDataType
    decreases d,
{
    match d {
        DataType::Bool(b) => SDataType::Bool(b),
        DataType::Integer(i) => SDataType::Integer(i as int),
        DataType::Float(s) => SDataType::Float(s@),
        DataType::Char(c) => SDataType::Char(c),
        DataType::String(s) => SDataType::String(s@),
        DataType::Array(items) => SDataType::Array(view_datas(items@)),
        DataType::Function(cmds, n) => SDataType::Function(view_commands(cmds@), n as int),
    }
}

pub open spec fn view_datas(v: Seq<DataType>) -> Seq<SDataType>
    decreases v,
{
    Seq::new(v.len(), |i: int| if 0 <= i < v.len() { view_data(v[i]) } else { SDataType::Bool(false) })
}

impl View for Command {
    type V = SCommand;

    open spec fn view(&self) -> SCommand {
        view_command(*self)
    }
}

pub proof fn lemma_view_commands_push(v: Seq<Command>, c: Command)
    ensures
        view_commands(v.push(c)) == view_commands(v).push(view_command(c)),
{
    assert(view_commands(v.push(c)) =~= view_commands(v).push(view_command(c)));
}

pub proof fn lemma_view_commands_add(v: Seq<Command>, w: Seq<Command>)
    ensures
        view_commands(v + w) == view_commands(v) + view_commands(w),
{
    assert(view_commands(v + w) =~= view_commands(v) + view_commands(w));
}

pub proof fn lemma_view_commands_empty()
    ensures
        view_commands(Seq::empty()) == Seq::<SCommand>::empty(),
{
    assert(view_commands(Seq::empty()) =~= Seq::<SCommand>::empty());
}

impl Command {
    pub fn is_return(&self) -> (r: bool)
        ensures
            r == (self@ is Return),
    {
        if let Command::Return = self {
            return true;
        }
        false
    }

    pub fn is_halt(&self) -> (r: bool)
        ensures
            r == (self@ is Halt),
    {
        if let Command::Halt(_) = self {
            return true;
        }
        false
    }
}

} // verus!
