use lib::ast::{load_ast, Ast, Error};
use lib::lang::text::CharIter;

fn parse(text: &str) -> Result<Vec<Ast>, Error> {
    let mut iter = CharIter::new(text);
    load_ast(&mut iter)
}

#[test]
fn parses_an_assignment() {
    let ast = parse("a = 1\n").unwrap();
    assert_eq!(ast.len(), 4);
    assert!(matches!(&ast[0], Ast::Var(name) if name == "a"));
    assert!(matches!(ast[1], Ast::Assign));
    assert!(matches!(ast[2], Ast::Integer(1)));
    assert!(matches!(ast[3], Ast::End));
}

#[test]
fn t_and_f_are_the_booleans() {
    let ast = parse("t f tf\n").unwrap();
    assert!(matches!(ast[0], Ast::Bool(true)));
    assert!(matches!(ast[1], Ast::Bool(false)));
    assert!(matches!(&ast[2], Ast::Var(name) if name == "tf"));
}

#[test]
fn doubled_operators() {
    let ast = parse("x ** 2 // 3 * 4 / 5 == 6\n").unwrap();
    assert!(matches!(ast[1], Ast::Exp));
    assert!(matches!(ast[3], Ast::Rem));
    assert!(matches!(ast[5], Ast::Mul));
    assert!(matches!(ast[7], Ast::Div));
    assert!(matches!(ast[9], Ast::Equals));
}

#[test]
fn writes_and_appends() {
    let ast = parse("> 1 >> 2\n").unwrap();
    assert!(matches!(ast[0], Ast::IoWrite));
    assert!(matches!(ast[2], Ast::IoAppend));
}

#[test]
fn groups_and_accesses() {
    let ast = parse("(1 + 2)[0]\n").unwrap();
    match &ast[0] {
        Ast::Group(body) => {
            assert_eq!(body.len(), 3);
            assert!(matches!(body[1], Ast::Add));
        }
        other => panic!("expected a group, got {:?}", other),
    }
    match &ast[1] {
        Ast::Access(body) => assert!(matches!(body[0], Ast::Integer(0))),
        other => panic!("expected an access, got {:?}", other),
    }
}

#[test]
fn escapes_in_strings() {
    let ast = parse("\"a\\\"b\\n\"\n").unwrap();
    assert!(matches!(&ast[0], Ast::String(text) if text == "a\"b\n"));
    assert!(matches!(parse("\"a\\tb\"\n"), Err(Error::InvalidString(m)) if m == "Invalid escape"));
    assert!(matches!(parse("\"abc"), Err(Error::InvalidString(m)) if m == "No more chraters"));
}

#[test]
fn a_function_definition() {
    let ast = parse(".g, a {a}\n").unwrap();
    assert_eq!(ast.len(), 2);
    match &ast[0] {
        Ast::Function(name, args, body) => {
            assert!(matches!(&**name, Ast::Var(n) if n == "g"));
            assert_eq!(args.len(), 1);
            assert!(matches!(&args[0][0], Ast::Var(n) if n == "a"));
            assert_eq!(body.len(), 1);
            assert!(matches!(&body[0], Ast::Var(n) if n == "a"));
        }
        other => panic!("expected a function, got {:?}", other),
    }
    assert!(matches!(ast[1], Ast::End));
}

#[test]
fn a_function_named_f_is_named_by_a_boolean() {
    let ast = parse(".f, a {a}\n").unwrap();
    assert!(matches!(&ast[0], Ast::Function(name, _, _) if matches!(**name, Ast::Bool(false))));
}

#[test]
fn a_function_without_a_comma() {
    assert!(matches!(parse(".f a"), Err(Error::InvalidArgs(m)) if m == "No more charaters"));
}

#[test]
fn arrays_and_pushes() {
    let ast = parse("@[1, 2]\n").unwrap();
    match &ast[0] {
        Ast::Array(items) => {
            assert_eq!(items.len(), 2);
            assert!(matches!(items[0][0], Ast::Integer(1)));
            assert!(matches!(items[1][0], Ast::Integer(2)));
        }
        other => panic!("expected an array, got {:?}", other),
    }
    let ast = parse("@<x\n").unwrap();
    assert_eq!(ast.len(), 2);
    assert!(matches!(ast[0], Ast::ArrayPush));
    assert!(matches!(ast[1], Ast::End));
    assert!(matches!(parse("@x"), Err(Error::InvalidArray(m)) if m == "Invalid array charater"));
    assert!(matches!(parse("@"), Err(Error::InvalidArray(m)) if m == "No more charaters"));
}

#[test]
fn number_errors() {
    assert!(matches!(parse("1.2.3\n"), Err(Error::InvalidNumber(m)) if m == "Came across another ."));
    assert!(matches!(parse("12"), Err(Error::InvalidNumber(m)) if m == "No more charaters"));
    let ast = parse("1.50\n").unwrap();
    assert!(matches!(&ast[0], Ast::Float(text) if text == "1.50"));
}

#[test]
fn comments_and_their_end() {
    let ast = parse("# hi\n").unwrap();
    assert!(matches!(&ast[0], Ast::Comment(text) if text == "# hi"));
    assert!(matches!(ast[1], Ast::End));
    assert!(matches!(parse("# hi"), Err(Error::InvalidComment(m)) if m == "No more charaters"));
    assert!(matches!(parse("abc"), Err(Error::InvalidVar(m)) if m == "No more charaters"));
}

#[test]
fn if_blocks_skip_to_their_brace() {
    let ast = parse("? x {y}\n").unwrap();
    match &ast[0] {
        Ast::If(body) => {
            assert_eq!(body.len(), 1);
            assert!(matches!(&body[0], Ast::Var(n) if n == "y"));
        }
        other => panic!("expected an if, got {:?}", other),
    }
    let ast = parse("? ;").unwrap();
    assert!(matches!(&ast[0], Ast::If(body) if body.is_empty()));
    assert!(matches!(parse("? {y "), Err(Error::InvalidBlock(m)) if m == "No more charaters brefore end"));
    assert!(matches!(parse("? {y"), Err(Error::InvalidVar(m)) if m == "No more charaters"));
    assert!(matches!(parse("?"), Err(Error::InvalidBlock(m)) if m == "No more charaters before start"));
}

#[test]
fn semicolons_end_statements() {
    let ast = parse("a;;b;").unwrap();
    assert!(matches!(ast[1], Ast::Return));
    assert!(matches!(ast[2], Ast::End));
    assert!(matches!(&ast[3], Ast::Var(n) if n == "b"));
    assert!(matches!(ast[4], Ast::End));
}

#[test]
fn equals_mismatch_is_reported_as_a_comment_error() {
    let ast = parse("= 1\n").unwrap();
    assert!(matches!(ast[0], Ast::Assign));
}

#[test]
fn backslash_division_and_modulo() {
    let ast = parse("8 \\ 2 \\\\ 3\n").unwrap();
    assert!(matches!(ast[1], Ast::Div));
    assert!(matches!(ast[3], Ast::Rem));
}
