use vstd::prelude::*;
use crate::lang::error::ParserError;
use crate::lang::builder::symbol::{SymbolTable, SymbolType, SymState, sym_get};
use super::ast::{
    Ast, AstArgs, AstBody, SAst, view_ast, view_stmt, view_body, view_args, lemma_view_stmt_push,
    lemma_view_body_push, lemma_view_args_push, lemma_view_empty,
};

verus! {

/// The symbols a function definition starts with: none yet, new names
/// become arguments numbered from zero.
pub open spec fn fresh_arg_state() -> SymState {
    SymState { names: Map::empty(), counter: 0, arg_mode: true }
}

/// Reordering the nodes `items[i..]` of a statement into postfix order, with
/// `ops` the pending operators and `res` the output so far. Names are
/// resolved to arguments or locals through the symbol state `st`.
/// `None` when a new name would overflow the symbol counter.
pub open spec fn sp_shunt(
    items: Seq<SAst>,
    i: int,
    st: SymState,
    ops: Seq<SAst>,
    res: Seq<SAst>,
) -> Option<(Seq<SAst>, SymState)>
    decreases items, items.len() - i,
{
    if !(0 <= i <= items.len()) {
        None
    } else if i == items.len() {
        Some((res + ops.reverse(), st))
    } else {
        let op = items[i];
        let pres = op.spec_presedence();
        if pres == 0 {
            sp_shunt(items, i + 1, st, ops, res)
        } else {
            match sp_shunt_inner(op, st) {
                None => None,
                Some((op2, st2)) => {
                    if pres == 1 {
                        match op2 {
                            SAst::Var(name) => match sym_get(st2, name) {
                                None => None,
                                Some((t, st3)) => sp_shunt(
                                    items,
                                    i + 1,
                                    st3,
                                    ops,
                                    res.push(resolved(name, t)),
                                ),
                            },
                            _ => sp_shunt(items, i + 1, st2, ops, res.push(op2)),
                        }
                    } else {
                        let (res2, ops2) = pop_ops(res, ops, pres);
                        sp_shunt(items, i + 1, st2, ops2.push(op2), res2)
                    }
                },
            }
        }
    }
}

/// The number of nodes of `items[i..]` that have a precedence: those that
/// become commands.
pub open spec fn count_ops(items: Seq<SAst>, i: int) -> int
    decreases items.len() - i,
{
    if i < 0 || i >= items.len() {
        0
    } else {
        (if items[i].spec_presedence() > 0 {
            1int
        } else {
            0int
        }) + count_ops(items, i + 1)
    }
}

/// Reordering a statement keeps every node that has a precedence, each
/// once, and drops the others (comments and ends of lines).
pub proof fn law_shunt_keeps_operations(
    items: Seq<SAst>,
    i: int,
    st: SymState,
    ops: Seq<SAst>,
    res: Seq<SAst>,
)
    requires
        0 <= i <= items.len(),
    ensures
        sp_shunt(items, i, st, ops, res) matches Some((out, _)) ==> out.len() == res.len() + ops.len()
            + count_ops(items, i),
    decreases items.len() - i,
{
    if i < items.len() {
        let op = items[i];
        let pres = op.spec_presedence();
        if pres == 0 {
            law_shunt_keeps_operations(items, i + 1, st, ops, res);
        } else if let Some((op2, st2)) = sp_shunt_inner(op, st) {
            if pres == 1 {
                match op2 {
                    SAst::Var(name) => {
                        if let Some((t, st3)) = sym_get(st2, name) {
                            law_shunt_keeps_operations(items, i + 1, st3, ops, res.push(resolved(name, t)));
                        }
                    },
                    _ => {
                        law_shunt_keeps_operations(items, i + 1, st2, ops, res.push(op2));
                    },
                }
            } else {
                let (res2, ops2) = pop_ops(res, ops, pres);
                lemma_pop_ops_len(res, ops, pres);
                law_shunt_keeps_operations(items, i + 1, st2, ops2.push(op2), res2);
            }
        }
    }
}

/// Moves the pending operators that bind at least as strongly as `pres`
/// from the top of the stack to the output, last pushed first.
pub open spec fn pop_ops(res: Seq<SAst>, ops: Seq<SAst>, pres: int) -> (Seq<SAst>, Seq<SAst>)
    decreases ops.len(),
{
    if ops.len() > 0 && ops.last().spec_presedence() >= pres {
        pop_ops(res.push(ops.last()), ops.drop_last(), pres)
    } else {
        (res, ops)
    }
}

/// Popping pending operators moves them and loses none.
pub proof fn lemma_pop_ops_len(res: Seq<SAst>, ops: Seq<SAst>, pres: int)
    ensures
        pop_ops(res, ops, pres).0.len() + pop_ops(res, ops, pres).1.len() == res.len() + ops.len(),
    decreases ops.len(),
{
    if ops.len() > 0 && ops.last().spec_presedence() >= pres {
        lemma_pop_ops_len(res.push(ops.last()), ops.drop_last(), pres);
    }
}

/// A name resolved to the argument or local it denotes.
pub open spec fn resolved(name: Seq<char>, t: SymbolType) -> SAst {
    match t {
        SymbolType::Arg(id) => SAst::VarArg(name, id as int),
        SymbolType::Local(id) => SAst::VarLocal(name, id as int),
    }
}

/// A node with the statements inside it reordered in turn. A function
/// definition gets a symbol state of its own.
pub open spec fn sp_shunt_inner(op: SAst, st: SymState) -> Option<(SAst, SymState)>
    decreases op, 0int,
{
    match op {
        SAst::Function(args, body) => match sp_args(args, 0, fresh_arg_state(), Seq::empty()) {
            Some((a2, s1)) => match sp_body(
                body,
                0,
                SymState { names: s1.names, counter: s1.counter, arg_mode: false },
                Seq::empty(),
            ) {
                Some((b2, _)) => Some((SAst::Function(a2, b2), st)),
                None => None,
            },
            None => None,
        },
        SAst::FunctionCall(args) => match sp_args(args, 0, st, Seq::empty()) {
            Some((a2, s1)) => Some((SAst::FunctionCall(a2), s1)),
            None => None,
        },
        SAst::If(body) => match sp_body(body, 0, st, Seq::empty()) {
            Some((b2, s1)) => Some((SAst::If(b2), s1)),
            None => None,
        },
        SAst::Assign(body) => match sp_body(body, 0, st, Seq::empty()) {
            Some((b2, s1)) => Some((SAst::Assign(b2), s1)),
            None => None,
        },
        SAst::Group(body) => match sp_body(body, 0, st, Seq::empty()) {
            Some((b2, s1)) => Some((SAst::Group(b2), s1)),
            None => None,
        },
        _ => Some((op, st)),
    }
}

pub open spec fn sp_args(
    args: Seq<Seq<Seq<SAst>>>,
    j: int,
    st: SymState,
    acc: Seq<Seq<Seq<SAst>>>,
) -> Option<(Seq<Seq<Seq<SAst>>>, SymState)>
    decreases args, args.len() - j,
{
    if !(0 <= j <= args.len()) {
        None
    } else if j == args.len() {
        Some((acc, st))
    } else {
        match sp_body(args[j], 0, st, Seq::empty()) {
            Some((b, s1)) => sp_args(args, j + 1, s1, acc.push(b)),
            None => None,
        }
    }
}

pub open spec fn sp_body(
    body: Seq<Seq<SAst>>,
    k: int,
    st: SymState,
    acc: Seq<Seq<SAst>>,
) -> Option<(Seq<Seq<SAst>>, SymState)>
    decreases body, body.len() - k,
{
    if !(0 <= k <= body.len()) {
        None
    } else if k == body.len() {
        Some((acc, st))
    } else {
        match sp_shunt(body[k], 0, st, Seq::empty(), Seq::empty()) {
            Some((r, s1)) => sp_body(body, k + 1, s1, acc.push(r)),
            None => None,
        }
    }
}


/// Moves all the elements of `v` into a new vector, last first.
fn reversed<T>(v: &mut Vec<T>) -> (r: Vec<T>)
    ensures
        final(v)@.len() == 0,
        r@ == old(v)@.reverse(),
{
    let mut r: Vec<T> = Vec::new();
    while v.len() > 0
        invariant
            r@ == old(v)@.subrange(v@.len() as int, old(v)@.len() as int).reverse(),
            v@ == old(v)@.subrange(0, v@.len() as int),
            v@.len() <= old(v)@.len(),
        decreases v.len(),
    {
        let ghost n = v@.len();
        let x = v.pop().unwrap();
        proof {
            assert(old(v)@.subrange(n - 1, old(v)@.len() as int).reverse() =~= old(v)@.subrange(
                n as int,
                old(v)@.len() as int,
            ).reverse().push(x));
        }
        r.push(x);
        assert(v@ =~= old(v)@.subrange(0, v@.len() as int));
    }
    assert(old(v)@.subrange(0, old(v)@.len() as int) =~= old(v)@);
    r
}

/// Reorders the nodes of a statement from infix into postfix order by
/// precedence, resolving names through `symbols`. The statement is used up.
pub fn shunt_yard(ast: &mut Vec<Ast>, symbols: &mut SymbolTable) -> (r: Result<
    Vec<Ast>,
    ParserError,
>)
    requires
        old(symbols).wf(),
        sp_shunt(view_stmt(old(ast)@), 0, old(symbols).state(), Seq::empty(), Seq::empty()) is Some,
    ensures
        final(symbols).wf(),
        final(ast)@.len() == 0,
        r matches Ok(v) && sp_shunt(
            view_stmt(old(ast)@),
            0,
            old(symbols).state(),
            Seq::empty(),
            Seq::empty(),
        ) == Some((view_stmt(v@), final(symbols).state())),
    decreases view_stmt(old(ast)@), 1int,
{
    let ghost orig = view_stmt(old(ast)@);
    let ghost whole = sp_shunt(orig, 0, old(symbols).state(), Seq::empty(), Seq::empty());
    let mut rest = reversed(ast);
    let mut op_stack: Vec<Ast> = Vec::new();
    let mut result_stack: Vec<Ast> = Vec::new();
    proof {
        lemma_view_empty();
    }
    while rest.len() > 0
        invariant
            symbols.wf(),
            whole == sp_shunt(orig, 0, old(symbols).state(), Seq::empty(), Seq::empty()),
            whole is Some,
            orig == view_stmt(old(ast)@),
            rest@.len() <= orig.len(),
            forall|k: int|
                0 <= k < rest@.len() ==> view_ast(#[trigger] rest@[k]) == orig[orig.len() - 1 - k],
            sp_shunt(
                orig,
                orig.len() - rest@.len(),
                symbols.state(),
                view_stmt(op_stack@),
                view_stmt(result_stack@),
            ) == whole,
        decreases rest.len(),
    {
        let ghost i = orig.len() - rest@.len();
        let op = rest.pop().unwrap();
        assert(view_ast(op) == orig[i]);
        let presedence = op.presedence();
        if presedence == 0 {
            continue ;
        }
        proof {
            assert(decreases_to!(orig => orig[i]));
        }
        let op = shunt_inner(op, symbols);
        if presedence == 1 {
            if let Some(name) = op.has_var_name() {
                let symbol_type = symbols.get(name.as_str());
                let resolved_ast = match symbol_type {
                    SymbolType::Arg(id) => Ast::VarArg(name.clone(), id),
                    SymbolType::Local(id) => Ast::VarLocal(name.clone(), id),
                };
                proof {
                    lemma_view_stmt_push(result_stack@, resolved_ast);
                }
                result_stack.push(resolved_ast);
            } else {
                proof {
                    lemma_view_stmt_push(result_stack@, op);
                }
                result_stack.push(op);
            }
        } else {
            let ghost popped = pop_ops(view_stmt(result_stack@), view_stmt(op_stack@), presedence as int);
            while op_stack.len() > 0 && op_stack[op_stack.len() - 1].presedence() >= presedence
                invariant
                    pop_ops(view_stmt(result_stack@), view_stmt(op_stack@), presedence as int) == popped,
                decreases op_stack.len(),
            {
                let ghost before_ops = op_stack@;
                let last = op_stack.pop().unwrap();
                proof {
                    assert(before_ops =~= op_stack@.push(last));
                    lemma_view_stmt_push(op_stack@, last);
                    assert(view_stmt(op_stack@) =~= view_stmt(before_ops).drop_last());
                    lemma_view_stmt_push(result_stack@, last);
                }
                result_stack.push(last);
            }
            proof {
                lemma_view_stmt_push(op_stack@, op);
            }
            op_stack.push(op);
        }
    }
    let ghost ops_before = view_stmt(op_stack@);
    let ghost res_before = view_stmt(result_stack@);
    while op_stack.len() > 0
        invariant
            view_stmt(result_stack@) + view_stmt(op_stack@).reverse() == res_before
                + ops_before.reverse(),
        decreases op_stack.len(),
    {
        let ghost before_ops = op_stack@;
        let last = op_stack.pop().unwrap();
        proof {
            lemma_view_stmt_push(result_stack@, last);
            assert(before_ops =~= op_stack@.push(last));
            lemma_view_stmt_push(op_stack@, last);
            assert(view_stmt(before_ops).reverse() =~= seq![view_ast(last)] + view_stmt(
                op_stack@,
            ).reverse());
        }
        result_stack.push(last);
    }
    proof {
        assert(view_stmt(op_stack@) =~= Seq::<SAst>::empty());
        assert(view_stmt(op_stack@).reverse() =~= Seq::<SAst>::empty());
        assert(view_stmt(result_stack@) =~= view_stmt(result_stack@) + view_stmt(op_stack@).reverse());
    }
    Ok(result_stack)
}

fn shunt_inner(op: Ast, symbols: &mut SymbolTable) -> (r: Ast)
    requires
        old(symbols).wf(),
        sp_shunt_inner(view_ast(op), old(symbols).state()) is Some,
    ensures
        final(symbols).wf(),
        sp_shunt_inner(view_ast(op), old(symbols).state()) == Some((view_ast(r), final(symbols).state())),
        view_ast(r).spec_presedence() == view_ast(op).spec_presedence(),
    decreases view_ast(op), 0int,
{
    match op {
        Ast::Function(mut args, mut body) => {
            let mut new_symbols = SymbolTable::new();
            new_symbols.set_arg_mode();
            let new_args = match shunt_args(&mut args, &mut new_symbols) {
                Ok(a) => a,
                Err(e) => return Ast::Function(args, body),
            };
            new_symbols.set_local_mode();
            let new_body = match shunt_body(&mut body, &mut new_symbols) {
                Ok(b) => b,
                Err(e) => return Ast::Function(args, body),
            };
            Ast::Function(new_args, new_body)
        },
        Ast::FunctionCall(mut args) => {
            match shunt_args(&mut args, symbols) {
                Ok(a) => Ast::FunctionCall(a),
                Err(e) => Ast::FunctionCall(args),
            }
        },
        Ast::If(mut body) => {
            match shunt_body(&mut body, symbols) {
                Ok(b) => Ast::If(b),
                Err(e) => Ast::If(body),
            }
        },
        Ast::Assign(mut body) => {
            match shunt_body(&mut body, symbols) {
                Ok(b) => Ast::Assign(b),
                Err(e) => Ast::Assign(body),
            }
        },
        Ast::Group(mut body) => {
            match shunt_body(&mut body, symbols) {
                Ok(b) => Ast::Group(b),
                Err(e) => Ast::Group(body),
            }
        },
        _ => op,
    }
}

fn shunt_args(args: &mut AstArgs, symbols: &mut SymbolTable) -> (r: Result<AstArgs, ParserError>)
    requires
        old(symbols).wf(),
        sp_args(view_args(old(args)@), 0, old(symbols).state(), Seq::empty()) is Some,
    ensures
        final(symbols).wf(),
        r matches Ok(v) && sp_args(view_args(old(args)@), 0, old(symbols).state(), Seq::empty())
            == Some((view_args(v@), final(symbols).state())),
    decreases view_args(old(args)@), 0int,
{
    let ghost orig = view_args(old(args)@);
    let ghost whole = sp_args(orig, 0, old(symbols).state(), Seq::empty());
    let mut rest = reversed(args);
    let mut new_args: AstArgs = Vec::new();
    proof {
        lemma_view_empty();
    }
    while rest.len() > 0
        invariant
            symbols.wf(),
            whole == sp_args(orig, 0, old(symbols).state(), Seq::empty()),
            whole is Some,
            orig == view_args(old(args)@),
            rest@.len() <= orig.len(),
            forall|k: int|
                0 <= k < rest@.len() ==> view_body(#[trigger] rest@[k]@) == orig[orig.len() - 1
                    - k],
            sp_args(orig, orig.len() - rest@.len(), symbols.state(), view_args(new_args@)) == whole,
        decreases rest.len(),
    {
        let ghost j = orig.len() - rest@.len();
        let mut arg = rest.pop().unwrap();
        assert(view_body(arg@) == orig[j]);
        proof {
            assert(decreases_to!(orig => orig[j]));
        }
        let new_statements = match shunt_body(&mut arg, symbols) {
            Ok(b) => b,
            Err(e) => return Err(e),
        };
        proof {
            lemma_view_args_push(new_args@, new_statements);
        }
        new_args.push(new_statements);
    }
    Ok(new_args)
}

fn shunt_body(body: &mut AstBody, symbols: &mut SymbolTable) -> (r: Result<AstBody, ParserError>)
    requires
        old(symbols).wf(),
        sp_body(view_body(old(body)@), 0, old(symbols).state(), Seq::empty()) is Some,
    ensures
        final(symbols).wf(),
        r matches Ok(v) && sp_body(view_body(old(body)@), 0, old(symbols).state(), Seq::empty())
            == Some((view_body(v@), final(symbols).state())),
    decreases view_body(old(body)@), 0int,
{
    let ghost orig = view_body(old(body)@);
    let ghost whole = sp_body(orig, 0, old(symbols).state(), Seq::empty());
    let mut rest = reversed(body);
    let mut new_body: AstBody = Vec::new();
    proof {
        lemma_view_empty();
    }
    while rest.len() > 0
        invariant
            symbols.wf(),
            whole == sp_body(orig, 0, old(symbols).state(), Seq::empty()),
            whole is Some,
            orig == view_body(old(body)@),
            rest@.len() <= orig.len(),
            forall|k: int|
                0 <= k < rest@.len() ==> view_stmt(#[trigger] rest@[k]@) == orig[orig.len() - 1
                    - k],
            sp_body(orig, orig.len() - rest@.len(), symbols.state(), view_body(new_body@)) == whole,
        decreases rest.len(),
    {
        let ghost k = orig.len() - rest@.len();
        let mut statement = rest.pop().unwrap();
        assert(view_stmt(statement@) == orig[k]);
        proof {
            assert(decreases_to!(orig => orig[k]));
        }
        let shunted = match shunt_yard(&mut statement, symbols) {
            Ok(s) => s,
            Err(e) => return Err(e),
        };
        proof {
            lemma_view_body_push(new_body@, shunted);
        }
        new_body.push(shunted);
    }
    Ok(new_body)
}

} // verus!
