use lib::lang::builder::ast::{load_ast_til_end, shunt_yard, Ast};
use lib::lang::builder::{build_commands, build_debug};
use lib::lang::builder::builder::{can_look_back, load_commands_from_ast};
use lib::lang::builder::symbol::{SymbolTable, SymbolType};
use lib::lang::command::Command;
use lib::lang::data_type::DataType;
use lib::lang::error::ParserError;
use lib::lang::text::CharIter;

fn compile(text: &str) -> Result<Vec<Command>, ParserError> {
    let mut iter = CharIter::new(text);
    let mut symbols = SymbolTable::new();
    let mut commands = Vec::new();
    build_commands(&mut iter, &mut symbols, &mut commands)?;
    Ok(commands)
}

fn is_push_int(c: &Command, v: i64) -> bool {
    matches!(c, Command::PushStack(DataType::Integer(x)) if *x == v)
}

#[test]
fn an_assignment_saves_a_local() {
    let c = compile("a = 1\n").unwrap();
    assert_eq!(c.len(), 3);
    assert!(is_push_int(&c[0], 1));
    assert!(matches!(c[1], Command::SaveLocal(0)));
    assert!(matches!(c[2], Command::Halt(0)));
}

#[test]
fn multiplication_binds_before_addition() {
    // `1 + 2 * 3 >> 1` gives 7
    let c = compile("1 + 2 * 3 >> 1\n").unwrap();
    assert_eq!(c.len(), 8);
    assert!(is_push_int(&c[0], 1));
    assert!(is_push_int(&c[1], 2));
    assert!(is_push_int(&c[2], 3));
    assert!(matches!(c[3], Command::Mul));
    assert!(matches!(c[4], Command::Add));
    assert!(is_push_int(&c[5], 1));
    assert!(matches!(c[6], Command::IoAppend));
    assert!(matches!(c[7], Command::Halt(0)));
}

#[test]
fn a_group_is_computed_first() {
    // `(1 + 2) * 3 >> 1` gives 9
    let c = compile("(1 + 2) * 3 >> 1\n").unwrap();
    assert_eq!(c.len(), 8);
    assert!(is_push_int(&c[0], 1));
    assert!(is_push_int(&c[1], 2));
    assert!(matches!(c[2], Command::Add));
    assert!(is_push_int(&c[3], 3));
    assert!(matches!(c[4], Command::Mul));
    assert!(is_push_int(&c[5], 1));
    assert!(matches!(c[6], Command::IoAppend));
}

#[test]
fn names_keep_their_local() {
    let c = compile("a = 1\nb = a + 2\n").unwrap();
    assert_eq!(c.len(), 7);
    assert!(matches!(c[1], Command::SaveLocal(0)));
    assert!(matches!(c[2], Command::LoadLocal(0)));
    assert!(is_push_int(&c[3], 2));
    assert!(matches!(c[4], Command::Add));
    assert!(matches!(c[5], Command::SaveLocal(1)));
    assert!(matches!(c[6], Command::Halt(0)));
}

#[test]
fn an_empty_program_only_halts() {
    let c = compile("").unwrap();
    assert_eq!(c.len(), 1);
    assert!(matches!(c[0], Command::Halt(0)));
    let c = compile("# just a note\n\n").unwrap();
    assert_eq!(c.len(), 1);
    assert!(matches!(c[0], Command::Halt(0)));
}

#[test]
fn an_unfinished_comment_fails() {
    assert!(matches!(compile("# note"), Err(ParserError::InvalidComment)));
}

#[test]
fn division_and_remainder() {
    let c = compile("6 / 3\n6 // 4\n").unwrap();
    assert!(matches!(c[2], Command::Div));
    assert!(matches!(c[5], Command::Rem));
}

#[test]
fn a_line_is_read_up_to_its_end() {
    let mut iter = CharIter::new("a + 1\nb\n");
    let line = load_ast_til_end(&mut iter).unwrap();
    assert_eq!(line.len(), 3);
    assert!(matches!(&line[0], Ast::Var(n) if n == "a"));
    assert!(matches!(line[1], Ast::Add));
    assert!(matches!(line[2], Ast::Integer(1)));
    let next = load_ast_til_end(&mut iter).unwrap();
    assert!(matches!(&next[0], Ast::Var(n) if n == "b"));
}

#[test]
fn shunting_orders_by_precedence_and_resolves_names() {
    let mut line = vec![
        Ast::Var("x".to_string()),
        Ast::Sub,
        Ast::Integer(2),
        Ast::Exp,
        Ast::Integer(3),
        Ast::Comment("# c".to_string()),
    ];
    let mut symbols = SymbolTable::new();
    let out = shunt_yard(&mut line, &mut symbols).unwrap();
    assert!(line.is_empty());
    assert_eq!(out.len(), 5);
    assert!(matches!(&out[0], Ast::VarLocal(n, 0) if n == "x"));
    assert!(matches!(out[1], Ast::Integer(2)));
    assert!(matches!(out[2], Ast::Integer(3)));
    assert!(matches!(out[3], Ast::Exp));
    assert!(matches!(out[4], Ast::Sub));
    assert_eq!(symbols.get("x"), SymbolType::Local(0));
}

#[test]
fn operators_of_equal_precedence_go_left_to_right() {
    let mut line = vec![Ast::Integer(8), Ast::Sub, Ast::Integer(2), Ast::Sub, Ast::Integer(1)];
    let mut symbols = SymbolTable::new();
    let out = shunt_yard(&mut line, &mut symbols).unwrap();
    assert!(matches!(out[0], Ast::Integer(8)));
    assert!(matches!(out[1], Ast::Integer(2)));
    assert!(matches!(out[2], Ast::Sub));
    assert!(matches!(out[3], Ast::Integer(1)));
    assert!(matches!(out[4], Ast::Sub));
}

#[test]
fn looking_back_before_the_start_fails() {
    assert!(can_look_back(1, 1).is_ok());
    assert!(matches!(can_look_back(0, 1), Err(ParserError::InvalidTotalArgs(0, 1))));
    assert!(matches!(can_look_back(1, 3), Err(ParserError::InvalidTotalArgs(0, 2))));
}

#[test]
fn an_assignment_needs_a_name_before_it() {
    let ast = vec![Ast::Integer(1), Ast::Assign(vec![vec![Ast::Integer(2)]])];
    assert!(matches!(load_commands_from_ast(&ast), Err(ParserError::CannotSaveFromAst(Ast::Integer(1)))));
    let ast = vec![Ast::Assign(vec![vec![Ast::Integer(2)]])];
    assert!(matches!(load_commands_from_ast(&ast), Err(ParserError::InvalidTotalArgs(0, 1))));
}

#[test]
fn an_if_jumps_over_its_body() {
    let ast = vec![Ast::Bool(true), Ast::If(vec![vec![Ast::Integer(1), Ast::Integer(2)]])];
    let c = load_commands_from_ast(&ast).unwrap();
    assert_eq!(c.len(), 4);
    assert!(matches!(c[0], Command::PushStack(DataType::Bool(true))));
    assert!(matches!(c[1], Command::JumpIfFalse(3)));
}

#[test]
fn backslashes_divide_as_documented() {
    let c = compile("6 \\ 3\n6 \\\\ 4\n").unwrap();
    assert!(matches!(c[2], Command::Div));
    assert!(matches!(c[5], Command::Rem));
}

#[test]
fn nodes_with_bodies() {
    assert!(Ast::If(Vec::new()).has_body());
    assert!(Ast::Function(Vec::new(), Vec::new()).has_body());
    assert!(Ast::FunctionCall(Vec::new()).has_body());
    assert!(!Ast::Group(Vec::new()).has_body());
    assert!(!Ast::Integer(1).has_body());
}

#[test]
fn a_debug_build_collects_each_line() {
    let text = "a = 1\n1 + 2 * 3 >> a\n";
    let mut iter = CharIter::new(text);
    let mut symbols = SymbolTable::new();
    let mut commands = Vec::new();
    let mut read = Vec::new();
    let mut reordered = Vec::new();
    build_debug(&mut iter, &mut symbols, &mut commands, &mut read, &mut reordered).unwrap();
    let plain = compile(text).unwrap();
    assert_eq!(commands.len(), plain.len());
    assert!(matches!(commands.last(), Some(Command::Halt(0))));
    assert_eq!(read.len(), 2);
    assert_eq!(reordered.len(), 2);
    assert!(matches!(&read[0][0], Ast::Var(n) if n == "a"));
    assert!(matches!(read[1][1], Ast::Add));
    // postfix order: 1 2 3 * + a >>
    assert!(matches!(reordered[1][3], Ast::Mul));
    assert!(matches!(reordered[1][4], Ast::Add));
}

#[test]
fn a_debug_build_stops_at_the_failing_line() {
    let mut iter = CharIter::new("a = 1\n# note");
    let mut symbols = SymbolTable::new();
    let mut commands = Vec::new();
    let mut read = Vec::new();
    let mut reordered = Vec::new();
    let r = build_debug(&mut iter, &mut symbols, &mut commands, &mut read, &mut reordered);
    assert!(matches!(r, Err(ParserError::InvalidComment)));
    assert_eq!(read.len(), 1);
    assert_eq!(reordered.len(), 1);
}

#[test]
fn a_failing_compile_keeps_the_earlier_lines_without_a_halt() {
    let mut iter = CharIter::new("a = 1\n# note");
    let mut symbols = SymbolTable::new();
    let mut commands = Vec::new();
    let r = build_commands(&mut iter, &mut symbols, &mut commands);
    assert!(matches!(r, Err(ParserError::InvalidComment)));
    assert_eq!(commands.len(), 2);
    assert!(is_push_int(&commands[0], 1));
    assert!(matches!(commands[1], Command::SaveLocal(0)));
    assert_eq!(symbols.get("a"), SymbolType::Local(0));
}

#[test]
fn a_compile_reads_the_text_to_its_end() {
    let mut iter = CharIter::new("a = 1\nb = a\n");
    let mut symbols = SymbolTable::new();
    let mut commands = Vec::new();
    build_commands(&mut iter, &mut symbols, &mut commands).unwrap();
    assert_eq!(iter.peek(), None);
}

#[test]
fn both_compilers_stop_where_the_failing_line_stopped() {
    let text = "a = 1\nx = 1.2.3\nz = 4\n";
    let mut iter = CharIter::new(text);
    let mut symbols = SymbolTable::new();
    let mut commands = Vec::new();
    let r = build_commands(&mut iter, &mut symbols, &mut commands);
    assert!(matches!(r, Err(ParserError::InvalidFloat)));
    assert_eq!(iter.next(), Some('.'));
    assert_eq!(iter.next(), Some('3'));

    let mut iter = CharIter::new(text);
    let mut symbols = SymbolTable::new();
    let mut commands = Vec::new();
    let mut read = Vec::new();
    let mut reordered = Vec::new();
    let r = build_debug(&mut iter, &mut symbols, &mut commands, &mut read, &mut reordered);
    assert!(matches!(r, Err(ParserError::InvalidFloat)));
    assert_eq!(iter.next(), Some('.'));
    assert_eq!(iter.next(), Some('3'));
}
