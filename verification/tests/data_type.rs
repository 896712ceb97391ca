use lib::lang::command::Command;
use lib::lang::data_type::DataType;
use lib::lang::error::RuntimeError;

fn text(d: &DataType) -> String {
    match d {
        DataType::String(s) => s.clone(),
        _ => panic!("not a string"),
    }
}

#[test]
fn two_strings_join_into_a_new_string() {
    let r = DataType::String("a".to_string()).add(DataType::String("b".to_string()));
    assert_eq!(text(&r), "ab");
    let r = DataType::Char('x').add(DataType::String("yz".to_string()));
    assert_eq!(text(&r), "xyz");
    let r = DataType::Char('p').add(DataType::Char('q'));
    assert_eq!(text(&r), "pq");
}

#[test]
fn a_string_times_an_integer_repeats_it() {
    let r = DataType::String("a".to_string()).mul(DataType::Integer(5));
    assert_eq!(text(&r), "aaaaa");
    let r = DataType::String("ab".to_string()).mul(DataType::Integer(0));
    assert_eq!(text(&r), "");
    let r = DataType::String(String::new()).mul(DataType::Integer(-1));
    assert_eq!(text(&r), "");
}

#[test]
fn integer_arithmetic() {
    assert!(matches!(DataType::Integer(2).add(DataType::Integer(3)), DataType::Integer(5)));
    assert!(matches!(DataType::Integer(2).sub(DataType::Integer(3)), DataType::Integer(-1)));
    assert!(matches!(DataType::Integer(4).mul(DataType::Integer(-3)), DataType::Integer(-12)));
    assert!(matches!(DataType::Integer(7).div(DataType::Integer(2)), DataType::Integer(3)));
    assert!(matches!(DataType::Integer(-7).div(DataType::Integer(2)), DataType::Integer(-3)));
    assert!(matches!(DataType::Integer(7).div(DataType::Integer(-2)), DataType::Integer(-3)));
    assert!(matches!(DataType::Integer(-7).rem(DataType::Integer(2)), DataType::Integer(-1)));
    assert!(matches!(DataType::Integer(7).rem(DataType::Integer(-2)), DataType::Integer(1)));
    assert!(matches!(DataType::Integer(i64::MIN).div(DataType::Integer(1)), DataType::Integer(i64::MIN)));
    assert!(matches!(DataType::Integer(i64::MIN).rem(DataType::Integer(3)), DataType::Integer(-2)));
}

#[test]
fn conversions_of_values() {
    assert!(DataType::Integer(3).as_bool());
    assert!(!DataType::Integer(0).as_bool());
    assert!(!DataType::String("x".to_string()).as_bool());
    assert_eq!(DataType::Bool(true).as_int(), 1);
    assert_eq!(DataType::Char('a').as_int(), 0);
    assert_eq!(DataType::Bool(false).as_char(), 'f');
    assert_eq!(DataType::Integer(65 + 256).as_char(), 'A');
    assert_eq!(DataType::Array(Vec::new()).as_char(), '\0');
    assert_eq!(DataType::Char('z').as_string(), "z");
    assert_eq!(DataType::Integer(1).as_string(), "");
}

#[test]
fn lengths_and_kinds() {
    assert_eq!(DataType::String("héllo".to_string()).len(), 6);
    assert_eq!(DataType::Array(vec![DataType::Bool(true)]).len(), 1);
    assert_eq!(DataType::Integer(4).len(), 0);
    assert!(DataType::Char('c').is_char());
    assert!(DataType::String(String::new()).is_string());
    assert!(DataType::Bool(false).is_bool());
    assert!(DataType::Float("1.0".to_string()).is_float());
    assert_eq!(DataType::Integer(1).get_bool().unwrap_err(), RuntimeError::NotABool);
    assert_eq!(DataType::Bool(true).get_bool(), Ok(true));
    assert_eq!(DataType::Integer(1).get_string().unwrap_err(), RuntimeError::TargetNotAString);
    assert_eq!(DataType::Integer(1).get_array().unwrap_err(), RuntimeError::TargetNotAnArray);
    assert_eq!(DataType::Integer(1).get_function().unwrap_err(), RuntimeError::NotAFunction);
    let f = DataType::Function(vec![Command::Return], 2);
    let (commands, args) = f.get_function().unwrap();
    assert_eq!(commands.len(), 1);
    assert_eq!(args, 2);
}

#[test]
fn a_copy_is_equal_in_shape() {
    let d = DataType::Array(vec![
        DataType::String("s".to_string()),
        DataType::Function(vec![Command::PushStack(DataType::Integer(1)), Command::Return], 0),
    ]);
    let c = d.clone();
    assert_eq!(format!("{:?}", c), format!("{:?}", d));
}

#[test]
fn halts_and_returns_are_told_apart() {
    assert!(Command::Halt(0).is_halt());
    assert!(!Command::Return.is_halt());
    assert!(Command::Return.is_return());
    assert!(!Command::Halt(1).is_return());
}

#[test]
fn values_print_as_text() {
    assert_eq!(DataType::Bool(true).to_text(), "t");
    assert_eq!(DataType::Bool(false).to_text(), "f");
    assert_eq!(DataType::Integer(-12).to_text(), "-12");
    assert_eq!(DataType::Char('z').to_text(), "z");
    assert_eq!(DataType::String("hi".to_string()).to_text(), "hi");
    let a = DataType::Array(vec![DataType::Integer(1), DataType::Bool(false), DataType::String("x".to_string())]);
    assert_eq!(a.to_text(), "1fx");
    assert_eq!(DataType::Function(Vec::new(), 0).to_text(), "NYI");
    assert!(!a.holds_float());
    assert!(DataType::Float("1.5".to_string()).holds_float());
    assert!(DataType::Array(vec![DataType::Integer(1), DataType::Array(vec![DataType::Float("2.0".to_string())])]).holds_float());
}
