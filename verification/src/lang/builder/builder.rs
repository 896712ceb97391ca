use vstd::prelude::*;
use crate::lang::command::{
    Command, SCommand, view_command, view_commands, lemma_view_commands_push,
    lemma_view_commands_add, lemma_view_commands_empty,
};
use crate::lang::data_type::{DataType, SDataType};
use crate::lang::error::{ParserError, SParserError};
use crate::lang::text::string_from_chars;
use super::ast::{Ast, AstArgs, AstBody, SAst, view_ast, view_stmt, view_body, view_args};

verus! {

/// The outcome of compiling: the commands, an error, or a panic (a jump
/// offset that does not fit in `usize`).
pub enum Outcome<T> {
    Done(T),
    Fail(SParserError),
    Panic,
}

/// Compiling the nodes `ast[i..]` of a statement in postfix order, after
/// `acc` was produced for `ast[..i]`.
pub open spec fn sp_load(ast: Seq<SAst>, i: int, acc: Seq<SCommand>) -> Outcome<Seq<SCommand>>
    decreases ast, ast.len() - i, 2int,
{
    if !(0 <= i <= ast.len()) {
        Outcome::Panic
    } else if i == ast.len() {
        Outcome::Done(acc)
    } else {
        let a = ast[i];
        match a {
            SAst::Assign(body) => {
                if i == 0 {
                    Outcome::Fail(SParserError::InvalidTotalArgs(0, 1))
                } else {
                    match sp_load_body(body, 0, Seq::empty()) {
                        Outcome::Done(c) => match ast[i - 1] {
                            SAst::VarLocal(_, id) => sp_load(ast, i + 1, acc + c + seq![SCommand::SaveLocal(id)]),
                            SAst::VarArg(_, id) => sp_load(ast, i + 1, acc + c + seq![SCommand::SaveStackArg(id)]),
                            _ => Outcome::Fail(SParserError::CannotSaveFromAst(ast[i - 1])),
                        },
                        Outcome::Fail(e) => Outcome::Fail(e),
                        Outcome::Panic => Outcome::Panic,
                    }
                }
            },
            SAst::Array(items) => match sp_array(items, 0, seq![SCommand::InitArray]) {
                Outcome::Done(c) => sp_load(ast, i + 1, acc + c),
                Outcome::Fail(e) => Outcome::Fail(e),
                Outcome::Panic => Outcome::Panic,
            },
            SAst::Access(body) => match sp_load_body(body, 0, Seq::empty()) {
                Outcome::Done(c) => sp_load(ast, i + 1, acc + c + seq![SCommand::Access]),
                Outcome::Fail(e) => Outcome::Fail(e),
                Outcome::Panic => Outcome::Panic,
            },
            SAst::AccessAssign(b1, b2) => match sp_load_body(b1, 0, Seq::empty()) {
                Outcome::Done(c1) => match sp_load_body(b2, 0, Seq::empty()) {
                    Outcome::Done(c2) => sp_load(ast, i + 1, acc + c1 + c2 + seq![SCommand::AccessAssign]),
                    Outcome::Fail(e) => Outcome::Fail(e),
                    Outcome::Panic => Outcome::Panic,
                },
                Outcome::Fail(e) => Outcome::Fail(e),
                Outcome::Panic => Outcome::Panic,
            },
            SAst::FunctionCall(args) => match sp_function_call(args, 0, Seq::empty()) {
                Outcome::Done(c) => {
                    if i > 0 && ast[i - 1].spec_can_call() {
                        match sp_to_command(ast[i - 1]) {
                            Outcome::Done(cmd) => sp_load(ast, i + 1, acc + c + seq![cmd, SCommand::Call]),
                            Outcome::Fail(e) => Outcome::Fail(e),
                            Outcome::Panic => Outcome::Panic,
                        }
                    } else {
                        sp_load(ast, i + 1, acc + c + seq![SCommand::CallSelf])
                    }
                },
                Outcome::Fail(e) => Outcome::Fail(e),
                Outcome::Panic => Outcome::Panic,
            },
            SAst::If(body) => match sp_load_body(body, 0, Seq::empty()) {
                Outcome::Done(c) => {
                    if c.len() + 1 > usize::MAX {
                        Outcome::Panic
                    } else {
                        sp_load(ast, i + 1, acc + seq![SCommand::JumpIfFalse(c.len() + 1int)] + c)
                    }
                },
                Outcome::Fail(e) => Outcome::Fail(e),
                Outcome::Panic => Outcome::Panic,
            },
            SAst::Group(body) => match sp_load_body(body, 0, Seq::empty()) {
                Outcome::Done(c) => sp_load(ast, i + 1, acc + c),
                Outcome::Fail(e) => Outcome::Fail(e),
                Outcome::Panic => Outcome::Panic,
            },
            _ => {
                if i + 1 < ast.len() && a.spec_is_var() && (ast[i + 1] is Assign || ast[i
                    + 1] is FunctionCall) {
                    // a name that the next node assigns to or calls
                    sp_load(ast, i + 1, acc)
                } else {
                    match sp_to_command(a) {
                        Outcome::Done(cmd) => sp_load(ast, i + 1, acc.push(cmd)),
                        Outcome::Fail(e) => Outcome::Fail(e),
                        Outcome::Panic => Outcome::Panic,
                    }
                }
            },
        }
    }
}

/// The statements of a block compiled one after the other.
pub open spec fn sp_load_body(body: Seq<Seq<SAst>>, k: int, acc: Seq<SCommand>) -> Outcome<
    Seq<SCommand>,
>
    decreases body, body.len() - k, 2int,
{
    if !(0 <= k <= body.len()) {
        Outcome::Panic
    } else if k == body.len() {
        Outcome::Done(acc)
    } else {
        match sp_load(body[k], 0, Seq::empty()) {
            Outcome::Done(c) => sp_load_body(body, k + 1, acc + c),
            Outcome::Fail(e) => Outcome::Fail(e),
            Outcome::Panic => Outcome::Panic,
        }
    }
}

/// The arguments of a call, compiled one after the other.
pub open spec fn sp_function_call(
    args: Seq<Seq<Seq<SAst>>>,
    j: int,
    acc: Seq<SCommand>,
) -> Outcome<Seq<SCommand>>
    decreases args, args.len() - j, 2int,
{
    if !(0 <= j <= args.len()) {
        Outcome::Panic
    } else if j == args.len() {
        Outcome::Done(acc)
    } else {
        match sp_load_body(args[j], 0, Seq::empty()) {
            Outcome::Done(c) => sp_function_call(args, j + 1, acc + c),
            Outcome::Fail(e) => Outcome::Fail(e),
            Outcome::Panic => Outcome::Panic,
        }
    }
}

/// The items of an array literal: each statement compiled and pushed.
pub open spec fn sp_array(args: Seq<Seq<Seq<SAst>>>, j: int, acc: Seq<SCommand>) -> Outcome<
    Seq<SCommand>,
>
    decreases args, args.len() - j, 2int,
{
    if !(0 <= j <= args.len()) {
        Outcome::Panic
    } else if j == args.len() {
        Outcome::Done(acc)
    } else {
        match sp_array_item(args[j], 0, Seq::empty()) {
            Outcome::Done(c) => sp_array(args, j + 1, acc + c),
            Outcome::Fail(e) => Outcome::Fail(e),
            Outcome::Panic => Outcome::Panic,
        }
    }
}

pub open spec fn sp_array_item(body: Seq<Seq<SAst>>, k: int, acc: Seq<SCommand>) -> Outcome<
    Seq<SCommand>,
>
    decreases body, body.len() - k, 2int,
{
    if !(0 <= k <= body.len()) {
        Outcome::Panic
    } else if k == body.len() {
        Outcome::Done(acc)
    } else {
        match sp_load(body[k], 0, Seq::empty()) {
            Outcome::Done(c) => sp_array_item(body, k + 1, acc + c + seq![SCommand::ArrayPush]),
            Outcome::Fail(e) => Outcome::Fail(e),
            Outcome::Panic => Outcome::Panic,
        }
    }
}

/// The single command a node stands for.
pub open spec fn sp_to_command(a: SAst) -> Outcome<SCommand>
    decreases a, 0int, 1int,
{
    if a.spec_is_data() {
        match sp_to_data(a) {
            Outcome::Done(d) => Outcome::Done(SCommand::PushStack(d)),
            Outcome::Fail(e) => Outcome::Fail(e),
            Outcome::Panic => Outcome::Panic,
        }
    } else {
        match a {
            SAst::VarArg(_, id) => Outcome::Done(SCommand::LoadStackArg(id)),
            SAst::VarLocal(_, id) => Outcome::Done(SCommand::LoadLocal(id)),
            SAst::Return => Outcome::Done(SCommand::Return),
            SAst::Equals => Outcome::Done(SCommand::Equals),
            SAst::Add => Outcome::Done(SCommand::Add),
            SAst::Concat => Outcome::Done(SCommand::Concat),
            SAst::Sub => Outcome::Done(SCommand::Sub),
            SAst::Mul => Outcome::Done(SCommand::Mul),
            SAst::Div => Outcome::Done(SCommand::Div),
            SAst::Rem => Outcome::Done(SCommand::Rem),
            SAst::Exp => Outcome::Done(SCommand::Exp),
            SAst::IoWrite => Outcome::Done(SCommand::IoWrite),
            SAst::IoAppend => Outcome::Done(SCommand::IoAppend),
            _ => Outcome::Fail(SParserError::CannotConvertAstToCommand(a)),
        }
    }
}

/// The operator nodes: comparison, arithmetic, joining and output.
pub open spec fn is_operator_node(a: SAst) -> bool {
    a is Equals || a is Add || a is Concat || a is Sub || a is Mul || a is Div || a is Rem || a is Exp
        || a is IoWrite || a is IoAppend
}

/// Each operator compiles to the one command of that same operator: `+` to
/// `Add`, `-` to `Sub`, `*` to `Mul`, `/` to `Div`, `%` to `Rem`, `**` to
/// `Exp`, `++` to `Concat`, `==` to `Equals`, `>` to `IoWrite`, `>>` to
/// `IoAppend`; so no two operators compile to the same command.
pub proof fn law_operator_commands(a: SAst, b: SAst)
    requires
        is_operator_node(a),
        is_operator_node(b),
    ensures
        sp_to_command(a) is Done,
        a != b ==> sp_to_command(a) != sp_to_command(b),
        a is Add <==> sp_to_command(a) == Outcome::<SCommand>::Done(SCommand::Add),
        a is Sub <==> sp_to_command(a) == Outcome::<SCommand>::Done(SCommand::Sub),
        a is Mul <==> sp_to_command(a) == Outcome::<SCommand>::Done(SCommand::Mul),
        a is Div <==> sp_to_command(a) == Outcome::<SCommand>::Done(SCommand::Div),
        a is Rem <==> sp_to_command(a) == Outcome::<SCommand>::Done(SCommand::Rem),
        a is Exp <==> sp_to_command(a) == Outcome::<SCommand>::Done(SCommand::Exp),
        a is Concat <==> sp_to_command(a) == Outcome::<SCommand>::Done(SCommand::Concat),
        a is Equals <==> sp_to_command(a) == Outcome::<SCommand>::Done(SCommand::Equals),
        a is IoWrite <==> sp_to_command(a) == Outcome::<SCommand>::Done(SCommand::IoWrite),
        a is IoAppend <==> sp_to_command(a) == Outcome::<SCommand>::Done(SCommand::IoAppend),
{
}

/// The commands of a function body end with a return.
pub open spec fn with_return(c: Seq<SCommand>) -> Seq<SCommand> {
    if c.len() > 0 && !(c.last() is Return) {
        c.push(SCommand::Return)
    } else {
        c
    }
}

/// The value a literal node stands for.
pub open spec fn sp_to_data(a: SAst) -> Outcome<SDataType>
    decreases a, 0int, 0int,
{
    match a {
        SAst::Bool(b) => Outcome::Done(SDataType::Bool(b)),
        SAst::Integer(i) => Outcome::Done(SDataType::Integer(i)),
        SAst::Float(f) => Outcome::Done(SDataType::Float(f)),
        SAst::Char(c) => Outcome::Done(SDataType::Char(c)),
        SAst::String(s) => Outcome::Done(SDataType::String(s)),
        SAst::Function(args, body) => match sp_load_body(body, 0, Seq::empty()) {
            Outcome::Done(c) => Outcome::Done(SDataType::Function(with_return(c), args.len() as int)),
            Outcome::Fail(e) => Outcome::Fail(e),
            Outcome::Panic => Outcome::Panic,
        },
        _ => Outcome::Fail(SParserError::CannotConvetAstToDataType(a)),
    }
}


pub open spec fn agrees_cmds(o: Outcome<Seq<SCommand>>, r: Result<Vec<Command>, ParserError>) -> bool {
    match o {
        Outcome::Done(c) => r matches Ok(v) && view_commands(v@) == c,
        Outcome::Fail(e) => r matches Err(e2) && e2@ == e,
        Outcome::Panic => false,
    }
}

pub open spec fn agrees_cmd(o: Outcome<SCommand>, r: Result<Command, ParserError>) -> bool {
    match o {
        Outcome::Done(c) => r matches Ok(v) && v@ == c,
        Outcome::Fail(e) => r matches Err(e2) && e2@ == e,
        Outcome::Panic => false,
    }
}

pub open spec fn agrees_data(o: Outcome<SDataType>, r: Result<DataType, ParserError>) -> bool {
    match o {
        Outcome::Done(d) => r matches Ok(v) && v@ == d,
        Outcome::Fail(e) => r matches Err(e2) && e2@ == e,
        Outcome::Panic => false,
    }
}

/// Checks that `total_look_back` nodes stand before position `current_index`.
pub fn can_look_back(index: usize, look_back: usize) -> (r: Result<(), ParserError>)
    ensures
        index >= look_back ==> r is Ok,
        index < look_back ==> (r matches Err(e) && e@ == SParserError::InvalidTotalArgs(
            0,
            look_back - index,
        )),
{
    let mut current_index = index;
    let mut total_look_back = look_back;
    while total_look_back > 0
        invariant
            current_index - total_look_back == index - look_back,
            current_index <= index,
        decreases total_look_back,
    {
        if current_index == 0 {
            return Err(ParserError::InvalidTotalArgs(current_index, total_look_back));
        }
        total_look_back -= 1;
        current_index -= 1;
    }
    Ok(())
}

/// Compiles the nodes of a statement, in postfix order, to commands.
pub fn load_commands_from_ast(ast: &Vec<Ast>) -> (r: Result<Vec<Command>, ParserError>)
    requires
        !(sp_load(view_stmt(ast@), 0, Seq::empty()) is Panic),
    ensures
        agrees_cmds(sp_load(view_stmt(ast@), 0, Seq::empty()), r),
    decreases view_stmt(ast@), 0int, 2int,
{
    let ghost items = view_stmt(ast@);
    let ghost whole = sp_load(items, 0, Seq::empty());
    let mut new_commands: Vec<Command> = Vec::new();
    let mut current_index: usize = 0;
    proof {
        lemma_view_commands_empty();
    }
    while current_index < ast.len()
        invariant
            current_index <= ast@.len(),
            items == view_stmt(ast@),
            whole == sp_load(items, 0, Seq::empty()),
            !(whole is Panic),
            sp_load(items, current_index as int, view_commands(new_commands@)) == whole,
        decreases ast.len() - current_index,
    {
        let ghost i = current_index as int;
        let ghost acc = view_commands(new_commands@);
        assert(items[i] == view_ast(ast@[i]));
        proof {
            assert(decreases_to!(items => items[i]));
        }
        if let Some(assign_body) = ast[current_index].is_assign() {
            proof {
                assert(decreases_to!(items[i] => items[i]->Assign_0));
            }
            let total_look_back = ast[current_index].num_look_back();
            match can_look_back(current_index, total_look_back) {
                Ok(()) => {},
                Err(e) => return Err(e),
            }
            let mut body_commands = match load_body(assign_body) {
                Ok(c) => c,
                Err(e) => return Err(e),
            };
            let ghost c = view_commands(body_commands@);
            proof {
                lemma_view_commands_add(new_commands@, body_commands@);
            }
            new_commands.append(&mut body_commands);
            assert(items[i - 1] == view_ast(ast@[i - 1]));
            let save_cmd = match &ast[current_index - 1] {
                Ast::VarLocal(_, id) => Command::SaveLocal(*id),
                Ast::VarArg(_, id) => Command::SaveStackArg(*id),
                other => return Err(ParserError::CannotSaveFromAst(other.deep_clone())),
            };
            proof {
                lemma_view_commands_push(new_commands@, save_cmd);
                assert(acc + c + seq![view_command(save_cmd)] =~= (acc + c).push(view_command(save_cmd)));
            }
            new_commands.push(save_cmd);
        } else if let Some(array_items) = ast[current_index].is_array() {
            proof {
                assert(decreases_to!(items[i] => items[i]->Array_0));
            }
            let mut array_commands = match build_array(array_items) {
                Ok(c) => c,
                Err(e) => return Err(e),
            };
            proof {
                lemma_view_commands_add(new_commands@, array_commands@);
            }
            new_commands.append(&mut array_commands);
        } else if let Some(access_body) = ast[current_index].is_access() {
            proof {
                assert(decreases_to!(items[i] => items[i]->Access_0));
            }
            let mut body_commands = match load_body(access_body) {
                Ok(c) => c,
                Err(e) => return Err(e),
            };
            let ghost c = view_commands(body_commands@);
            proof {
                lemma_view_commands_add(new_commands@, body_commands@);
            }
            new_commands.append(&mut body_commands);
            proof {
                lemma_view_commands_push(new_commands@, Command::Access);
                assert(acc + c + seq![SCommand::Access] =~= (acc + c).push(SCommand::Access));
            }
            new_commands.push(Command::Access);
        } else if let Some((access_body, assign_body)) = ast[current_index].is_access_assign() {
            proof {
                assert(decreases_to!(items[i] => items[i]->AccessAssign_0));
                assert(decreases_to!(items[i] => items[i]->AccessAssign_1));
            }
            let mut access_commands = match load_body(access_body) {
                Ok(c) => c,
                Err(e) => return Err(e),
            };
            let ghost c1 = view_commands(access_commands@);
            let mut assign_commands = match load_body(assign_body) {
                Ok(c) => c,
                Err(e) => return Err(e),
            };
            let ghost c2 = view_commands(assign_commands@);
            proof {
                lemma_view_commands_add(new_commands@, access_commands@);
            }
            new_commands.append(&mut access_commands);
            proof {
                lemma_view_commands_add(new_commands@, assign_commands@);
            }
            new_commands.append(&mut assign_commands);
            proof {
                lemma_view_commands_push(new_commands@, Command::AccessAssign);
                assert(acc + c1 + c2 + seq![SCommand::AccessAssign] =~= (acc + c1 + c2).push(
                    SCommand::AccessAssign,
                ));
            }
            new_commands.push(Command::AccessAssign);
        } else if let Some(args) = ast[current_index].is_function_call() {
            proof {
                assert(decreases_to!(items[i] => items[i]->FunctionCall_0));
            }
            let mut call_commands = match build_function_call(args) {
                Ok(c) => c,
                Err(e) => return Err(e),
            };
            let ghost c = view_commands(call_commands@);
            proof {
                lemma_view_commands_add(new_commands@, call_commands@);
            }
            new_commands.append(&mut call_commands);
            if current_index > 0 && ast[current_index - 1].can_call() {
                assert(items[i - 1] == view_ast(ast@[i - 1]));
                proof {
                    assert(decreases_to!(items => items[i - 1]));
                }
                let cmd = match ast_to_command(&ast[current_index - 1]) {
                    Ok(cmd) => cmd,
                    Err(e) => return Err(e),
                };
                proof {
                    lemma_view_commands_push(new_commands@, cmd);
                    lemma_view_commands_push(new_commands@.push(cmd), Command::Call);
                    assert(acc + c + seq![view_command(cmd), SCommand::Call] =~= (acc + c).push(
                        view_command(cmd),
                    ).push(SCommand::Call));
                }
                new_commands.push(cmd);
                new_commands.push(Command::Call);
            } else {
                proof {
                    lemma_view_commands_push(new_commands@, Command::CallSelf);
                    assert(acc + c + seq![SCommand::CallSelf] =~= (acc + c).push(SCommand::CallSelf));
                }
                new_commands.push(Command::CallSelf);
            }
        } else if let Some(if_body) = ast[current_index].is_if() {
            proof {
                assert(decreases_to!(items[i] => items[i]->If_0));
            }
            let mut total_if_commands = match load_body(if_body) {
                Ok(c) => c,
                Err(e) => return Err(e),
            };
            let ghost c = view_commands(total_if_commands@);
            // add jump command
            let jump = match total_if_commands.len().checked_add(1) {
                Some(n) => n,
                None => {
                    proof {
                        assert(false);
                    }
                    return Err(ParserError::InvalidPart);
                },
            };
            proof {
                lemma_view_commands_push(new_commands@, Command::JumpIfFalse(jump));
                lemma_view_commands_add(new_commands@.push(Command::JumpIfFalse(jump)), total_if_commands@);
            }
            assert(c.len() == total_if_commands@.len());
            assert(view_commands(new_commands@.push(Command::JumpIfFalse(jump))) + c =~= acc + seq![
                SCommand::JumpIfFalse(c.len() + 1int),
            ] + c);
            new_commands.push(Command::JumpIfFalse(jump));
            new_commands.append(&mut total_if_commands);
        } else if let Some(group_body) = ast[current_index].is_group() {
            proof {
                assert(decreases_to!(items[i] => items[i]->Group_0));
            }
            let mut group_commands = match load_body(group_body) {
                Ok(c) => c,
                Err(e) => return Err(e),
            };
            proof {
                lemma_view_commands_add(new_commands@, group_commands@);
            }
            new_commands.append(&mut group_commands);
        } else if !(current_index + 1 < ast.len() && ast[current_index].is_var() && (
        ast[current_index + 1].is_assign().is_some() || ast[current_index
            + 1].is_function_call().is_some())) {
            let cmd = match ast_to_command(&ast[current_index]) {
                Ok(cmd) => cmd,
                Err(e) => return Err(e),
            };
            proof {
                lemma_view_commands_push(new_commands@, cmd);
            }
            new_commands.push(cmd);
        } else {
            assert(items[i + 1] == view_ast(ast@[i + 1]));
        }
        current_index += 1;
    }
    Ok(new_commands)
}

/// Compiles the statements of a block one after the other.
fn load_body(body: &AstBody) -> (r: Result<Vec<Command>, ParserError>)
    requires
        !(sp_load_body(view_body(body@), 0, Seq::empty()) is Panic),
    ensures
        agrees_cmds(sp_load_body(view_body(body@), 0, Seq::empty()), r),
    decreases view_body(body@), 0int, 2int,
{
    let ghost parts = view_body(body@);
    let ghost whole = sp_load_body(parts, 0, Seq::empty());
    let mut commands: Vec<Command> = Vec::new();
    let mut k: usize = 0;
    proof {
        lemma_view_commands_empty();
    }
    while k < body.len()
        invariant
            k <= body@.len(),
            parts == view_body(body@),
            whole == sp_load_body(parts, 0, Seq::empty()),
            !(whole is Panic),
            sp_load_body(parts, k as int, view_commands(commands@)) == whole,
        decreases body.len() - k,
    {
        assert(parts[k as int] == view_stmt(body@[k as int]@));
        proof {
            assert(decreases_to!(parts => parts[k as int]));
        }
        let mut sub_commands = match load_commands_from_ast(&body[k]) {
            Ok(c) => c,
            Err(e) => return Err(e),
        };
        proof {
            lemma_view_commands_add(commands@, sub_commands@);
        }
        commands.append(&mut sub_commands);
        k += 1;
    }
    Ok(commands)
}

/// The single command a node stands for.
fn ast_to_command(ast: &Ast) -> (r: Result<Command, ParserError>)
    requires
        !(sp_to_command(ast@) is Panic),
    ensures
        agrees_cmd(sp_to_command(ast@), r),
    decreases view_ast(*ast), 0int, 1int,
{
    if ast.is_data() {
        return match ast_to_data_type(ast) {
            Ok(d) => Ok(Command::PushStack(d)),
            Err(e) => Err(e),
        };
    }
    let cmd = match ast {
        Ast::VarArg(_, id) => Command::LoadStackArg(*id),
        Ast::VarLocal(_, id) => Command::LoadLocal(*id),
        Ast::Return => Command::Return,
        Ast::Equals => Command::Equals,
        Ast::Add => Command::Add,
        Ast::Concat => Command::Concat,
        Ast::Sub => Command::Sub,
        Ast::Mul => Command::Mul,
        Ast::Div => Command::Div,
        Ast::Rem => Command::Rem,
        Ast::Exp => Command::Exp,
        Ast::IoWrite => Command::IoWrite,
        Ast::IoAppend => Command::IoAppend,
        _ => return Err(ParserError::CannotConvertAstToCommand(ast.deep_clone())),
    };
    Ok(cmd)
}

/// The value a literal node stands for.
fn ast_to_data_type(ast: &Ast) -> (r: Result<DataType, ParserError>)
    requires
        !(sp_to_data(ast@) is Panic),
    ensures
        agrees_data(sp_to_data(ast@), r),
    decreases view_ast(*ast), 0int, 0int,
{
    let dt = match ast {
        Ast::Bool(b) => DataType::Bool(*b),
        Ast::Integer(i) => DataType::Integer(*i),
        Ast::Float(float) => DataType::Float(float.clone()),
        Ast::Char(c) => DataType::Char(*c),
        Ast::String(string) => DataType::String(string.clone()),
        Ast::Function(args, body) => {
            assert(view_ast(*ast) == SAst::Function(view_args(args@), view_body(body@)));
            proof {
                assert(decreases_to!(view_ast(*ast) => view_ast(*ast)->Function_1));
            }
            let num_args = args.len();
            let mut function_commands = match load_body(body) {
                Ok(c) => c,
                Err(e) => return Err(e),
            };
            let mut add_return = false;
            if function_commands.len() > 0 {
                if !function_commands[function_commands.len() - 1].is_return() {
                    add_return = true;
                }
            }
            if add_return {
                proof {
                    lemma_view_commands_push(function_commands@, Command::Return);
                }
                function_commands.push(Command::Return);
            }
            DataType::Function(function_commands, num_args)
        },
        _ => return Err(ParserError::CannotConvetAstToDataType(ast.deep_clone())),
    };
    Ok(dt)
}

/// The commands that evaluate the arguments of a call, one after the other.
pub fn build_function_call(args: &AstArgs) -> (r: Result<Vec<Command>, ParserError>)
    requires
        !(sp_function_call(view_args(args@), 0, Seq::empty()) is Panic),
    ensures
        agrees_cmds(sp_function_call(view_args(args@), 0, Seq::empty()), r),
    decreases view_args(args@), 0int, 2int,
{
    let ghost parts = view_args(args@);
    let ghost whole = sp_function_call(parts, 0, Seq::empty());
    let mut call_commands: Vec<Command> = Vec::new();
    let mut j: usize = 0;
    proof {
        lemma_view_commands_empty();
    }
    while j < args.len()
        invariant
            j <= args@.len(),
            parts == view_args(args@),
            whole == sp_function_call(parts, 0, Seq::empty()),
            !(whole is Panic),
            sp_function_call(parts, j as int, view_commands(call_commands@)) == whole,
        decreases args.len() - j,
    {
        assert(parts[j as int] == view_body(args@[j as int]@));
        proof {
            assert(decreases_to!(parts => parts[j as int]));
        }
        let mut arg_commands = match load_body(&args[j]) {
            Ok(c) => c,
            Err(e) => return Err(e),
        };
        proof {
            lemma_view_commands_add(call_commands@, arg_commands@);
        }
        call_commands.append(&mut arg_commands);
        j += 1;
    }
    Ok(call_commands)
}

/// The commands that build an array: a new array, then each item
/// evaluated and pushed onto it.
pub fn build_array(items: &AstArgs) -> (r: Result<Vec<Command>, ParserError>)
    requires
        !(sp_array(view_args(items@), 0, seq![SCommand::InitArray]) is Panic),
    ensures
        agrees_cmds(sp_array(view_args(items@), 0, seq![SCommand::InitArray]), r),
    decreases view_args(items@), 0int, 2int,
{
    let ghost parts = view_args(items@);
    let ghost whole = sp_array(parts, 0, seq![SCommand::InitArray]);
    let mut array_commands: Vec<Command> = Vec::new();
    proof {
        lemma_view_commands_empty();
        lemma_view_commands_push(array_commands@, Command::InitArray);
        assert(view_commands(array_commands@).push(SCommand::InitArray) =~= seq![SCommand::InitArray]);
    }
    array_commands.push(Command::InitArray);
    let mut j: usize = 0;
    while j < items.len()
        invariant
            j <= items@.len(),
            parts == view_args(items@),
            whole == sp_array(parts, 0, seq![SCommand::InitArray]),
            !(whole is Panic),
            sp_array(parts, j as int, view_commands(array_commands@)) == whole,
        decreases items.len() - j,
    {
        assert(parts[j as int] == view_body(items@[j as int]@));
        proof {
            assert(decreases_to!(parts => parts[j as int]));
        }
        let mut item_commands = match build_array_item(&items[j]) {
            Ok(c) => c,
            Err(e) => return Err(e),
        };
        proof {
            lemma_view_commands_add(array_commands@, item_commands@);
        }
        array_commands.append(&mut item_commands);
        j += 1;
    }
    Ok(array_commands)
}


/// The statements of one array item, each evaluated and pushed.
fn build_array_item(item: &AstBody) -> (r: Result<Vec<Command>, ParserError>)
    requires
        !(sp_array_item(view_body(item@), 0, Seq::empty()) is Panic),
    ensures
        agrees_cmds(sp_array_item(view_body(item@), 0, Seq::empty()), r),
    decreases view_body(item@), 0int, 2int,
{
    let ghost groups = view_body(item@);
    let ghost whole = sp_array_item(groups, 0, Seq::empty());
    let mut item_commands: Vec<Command> = Vec::new();
    let mut k: usize = 0;
    proof {
        lemma_view_commands_empty();
    }
    while k < item.len()
        invariant
            k <= item@.len(),
            groups == view_body(item@),
            whole == sp_array_item(groups, 0, Seq::empty()),
            !(whole is Panic),
            sp_array_item(groups, k as int, view_commands(item_commands@)) == whole,
        decreases item.len() - k,
    {
        assert(groups[k as int] == view_stmt(item@[k as int]@));
        proof {
            assert(decreases_to!(groups => groups[k as int]));
        }
        let mut group_commands = match load_commands_from_ast(&item[k]) {
            Ok(c) => c,
            Err(e) => return Err(e),
        };
        let ghost before = view_commands(item_commands@);
        let ghost c = view_commands(group_commands@);
        proof {
            lemma_view_commands_add(item_commands@, group_commands@);
        }
        item_commands.append(&mut group_commands);
        proof {
            lemma_view_commands_push(item_commands@, Command::ArrayPush);
            assert(before + c + seq![SCommand::ArrayPush] =~= (before + c).push(SCommand::ArrayPush));
        }
        item_commands.push(Command::ArrayPush);
        k += 1;
    }
    Ok(item_commands)
}

} // verus!
