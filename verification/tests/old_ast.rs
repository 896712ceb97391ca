use lib::ast::{Ast, Error, StopChars};
use lib::lang::data_type::DataType;
use lib::command::command::Command;
use lib::command::{check_locals, set_used, CommandState, MoveEndDirection};

#[test]
fn precedence_of_nodes() {
    assert_eq!(Ast::Var("a".to_string()).presedence(), 1);
    assert_eq!(Ast::Group(Vec::new()).presedence(), 1);
    assert_eq!(Ast::Return.presedence(), 2);
    assert_eq!(Ast::Assign.presedence(), 3);
    assert_eq!(Ast::If(Vec::new()).presedence(), 4);
    assert_eq!(Ast::Equals.presedence(), 5);
    assert_eq!(Ast::Sub.presedence(), 6);
    assert_eq!(Ast::Rem.presedence(), 7);
    assert_eq!(Ast::Exp.presedence(), 8);
    assert_eq!(Ast::Function(Box::new(Ast::End), Vec::new(), Vec::new()).presedence(), 9);
    assert_eq!(Ast::Access(Vec::new()).presedence(), 10);
    assert_eq!(Ast::End.presedence(), 0);
    assert_eq!(Ast::Comment(String::new()).presedence(), 0);
}

#[test]
fn kinds_of_nodes() {
    assert!(Ast::Float("1.5".to_string()).is_number());
    assert!(Ast::Integer(1).is_data());
    assert!(Ast::Bool(true).is_data());
    assert!(!Ast::Add.is_data());
    assert!(Ast::Used.is_used());
    assert!(Ast::UsedVar("x".to_string()).is_used());
    assert!(Ast::Add.is_dyadic());
    assert!(!Ast::Return.is_dyadic());
    assert!(Ast::Return.is_monadic_left());
    assert!(Ast::Access(Vec::new()).is_monadic_left());
    assert!(Ast::End.is_end());
    assert!(Ast::Assign.is_assign());
}

#[test]
fn names_of_variables_and_functions() {
    assert_eq!(Ast::Var("v".to_string()).get_var_name().unwrap(), "v");
    assert_eq!(Ast::UsedVar("w".to_string()).get_var_name().unwrap(), "w");
    assert!(matches!(Ast::End.get_var_name(), Err(Error::AstNotVar("Token not a var"))));
    let f = Ast::Function(Box::new(Ast::Var("f".to_string())), vec![vec![Ast::Var("a".to_string())]], vec![Ast::End]);
    assert_eq!(f.get_function_name().unwrap(), "f");
    assert_eq!(f.get_function_args().unwrap().len(), 1);
    assert!(!f.is_function_def());
    let g = Ast::Function(Box::new(Ast::Integer(1)), Vec::new(), vec![Ast::End, Ast::Add]);
    assert!(g.is_function_def());
    assert!(matches!(g.get_function_name(), Err(Error::AstIsNotAFunction("Function name is not a var"))));
    assert!(matches!(Ast::Add.get_function_name(), Err(Error::AstIsNotAFunction("Not a function cannot get name"))));
}

#[test]
fn bodies_change_in_place() {
    let mut g = Ast::Group(vec![Ast::Integer(1)]);
    g.get_group_body_mut().unwrap().push(Ast::Add);
    assert!(matches!(&g, Ast::Group(b) if b.len() == 2));
    let mut i = Ast::If(Vec::new());
    i.get_if_body_mut().unwrap().push(Ast::End);
    assert!(matches!(&i, Ast::If(b) if b.len() == 1));
    let mut f = Ast::Function(Box::new(Ast::Var("f".to_string())), Vec::new(), Vec::new());
    f.get_function_args_mut().unwrap().push(Vec::new());
    f.get_function_body_mut().unwrap().push(Ast::Return);
    assert!(matches!(&f, Ast::Function(_, a, b) if a.len() == 1 && b.len() == 1));
    let mut a = Ast::Array(Vec::new());
    a.get_array_body_mut().unwrap().push(vec![Ast::Integer(2)]);
    assert!(matches!(&a, Ast::Array(items) if items.len() == 1));
    let mut x = Ast::Access(Vec::new());
    x.get_access_body_mut().unwrap().push(Ast::Integer(0));
    assert!(matches!(&x, Ast::Access(b) if b.len() == 1));
    let mut other = Ast::Add;
    assert!(matches!(other.get_group_body_mut(), Err(Error::InvalidGroup("Not a group"))));
    assert!(matches!(other.get_array_body_mut(), Err(Error::InvalidArray("Ast is not an array"))));
    assert!(matches!(other.get_access_body_mut(), Err(Error::InvalidAccess("Ast is not an access"))));
    assert!(matches!(other.get_if_body_mut(), Err(Error::CannotGetIfBody("Not an if"))));
    assert!(matches!(other.get_function_body_mut(), Err(Error::AstIsNotAFunction(_))));
}

#[test]
fn used_nodes_keep_variable_names() {
    let mut v = Ast::Var("n".to_string());
    set_used(&mut v).unwrap();
    assert!(matches!(&v, Ast::UsedVar(n) if n == "n"));
    let mut a = Ast::Add;
    set_used(&mut a).unwrap();
    assert!(matches!(a, Ast::Used));
}

#[test]
fn stop_characters() {
    let stops = StopChars::new(vec!['{', '\n']);
    assert!(stops.is_stop('{'));
    assert!(!stops.is_stop('}'));
}

#[test]
fn command_state_counts_arguments() {
    let mut s = CommandState::new(2);
    assert_eq!(s.get_num_args(), 2);
    assert!(!s.get_added_locals());
    s.added_locals();
    assert!(s.get_added_locals());
    assert!(MoveEndDirection::Left.is_left());
    assert!(MoveEndDirection::Right.is_right());
    assert!(!MoveEndDirection::Left.is_right());
}

#[test]
fn literals_become_values() {
    assert!(matches!(Ast::Bool(true).to_data_type(), Ok(DataType::Bool(true))));
    assert!(matches!(Ast::Integer(-4).to_data_type(), Ok(DataType::Integer(-4))));
    match Ast::Float("2.5".to_string()).to_data_type() {
        Ok(DataType::Float(f)) => assert_eq!(f, "2.5"),
        _ => panic!("expected a float"),
    }
    match Ast::String("hey".to_string()).to_data_type() {
        Ok(DataType::String(s)) => assert_eq!(s, "hey"),
        _ => panic!("expected a string"),
    }
    match Ast::Group(vec![Ast::Var("x".to_string())]).to_data_type() {
        Err(Error::CannotConvertToDataType(Ast::Group(body), msg)) => {
            assert_eq!(msg, "Cannot convert to data type");
            assert!(matches!(&body[..], [Ast::Var(name)] if name == "x"));
        }
        _ => panic!("expected the node back in the error"),
    }
}

#[test]
fn used_names_are_told_apart() {
    assert!(Ast::UsedVar("a".to_string()).is_used_var());
    assert!(!Ast::Var("a".to_string()).is_used_var());
    assert!(!Ast::Used.is_used_var());
}

#[test]
fn arguments_stay_on_the_stack_and_locals_get_room_once() {
    let mut state = CommandState::new(2);
    let mut commands: Vec<Command> = Vec::new();
    assert_eq!(check_locals(1, &mut commands, &mut state), (false, 1));
    assert!(commands.is_empty());
    assert!(!state.get_added_locals());
    assert_eq!(check_locals(3, &mut commands, &mut state), (true, 1));
    assert_eq!(commands.len(), 1);
    assert!(matches!(commands[0], Command::AddLocals));
    assert!(state.get_added_locals());
    assert_eq!(check_locals(2, &mut commands, &mut state), (true, 0));
    assert_eq!(commands.len(), 1);
    assert!(Command::Halt(0).is_halt());
    assert!(Command::Return.is_return());
}
