use lib::lang::builder::command::{coerce_numbers, DataType};
use lib::lang::error::Error;
use lib::lang::numeral::{int_to_string, parse_int};

fn integer(d: &DataType) -> i64 {
    match d {
        DataType::Integer(i) => *i,
        _ => panic!("not an integer"),
    }
}

fn text(d: &DataType) -> String {
    match d {
        DataType::String(s) => s.clone(),
        _ => panic!("not a string"),
    }
}

#[test]
fn integers_print_in_decimal() {
    assert_eq!(int_to_string(0), "0");
    assert_eq!(int_to_string(7), "7");
    assert_eq!(int_to_string(-120), "-120");
    assert_eq!(int_to_string(i64::MAX), "9223372036854775807");
    assert_eq!(int_to_string(i64::MIN), "-9223372036854775808");
}

#[test]
fn integer_texts_read_as_i64_does() {
    assert_eq!(parse_int("42"), Some(42));
    assert_eq!(parse_int("+7"), Some(7));
    assert_eq!(parse_int("-15"), Some(-15));
    assert_eq!(parse_int("007"), Some(7));
    assert_eq!(parse_int("9223372036854775807"), Some(i64::MAX));
    assert_eq!(parse_int("-9223372036854775808"), Some(i64::MIN));
    assert_eq!(parse_int("9223372036854775808"), None);
    assert_eq!(parse_int("-9223372036854775809"), None);
    assert_eq!(parse_int("123456789012345678901234567890"), None);
    assert_eq!(parse_int(""), None);
    assert_eq!(parse_int("-"), None);
    assert_eq!(parse_int("+"), None);
    assert_eq!(parse_int("12a"), None);
    assert_eq!(parse_int(" 12"), None);
    assert_eq!(parse_int("1_000"), None);
    for t in ["0", "1", "-1", "+0", "99999", "-2147483648", "x", "--1", "1-"] {
        assert_eq!(parse_int(t), t.parse::<i64>().ok(), "{}", t);
    }
}

#[test]
fn cast_int_of_each_kind() {
    assert_eq!(DataType::Null.cast_int(), Ok(0));
    assert_eq!(DataType::Integer(-3).cast_int(), Ok(-3));
    assert_eq!(DataType::String("31".to_string()).cast_int(), Ok(31));
    assert_eq!(DataType::String("3.5".to_string()).cast_int(), Err(Error::CastFail));
    assert_eq!(DataType::File("a.ks".to_string()).cast_int(), Err(Error::NYI));
    assert_eq!(DataType::Bool(true).cast_int(), Ok(1));
    assert_eq!(DataType::Bool(false).cast_int(), Ok(0));
}

#[test]
fn cast_string_prints_each_kind() {
    assert_eq!(DataType::Null.cast_string(), Ok("NULL".to_string()));
    assert_eq!(DataType::Integer(-45).cast_string(), Ok("-45".to_string()));
    assert_eq!(DataType::String("hi".to_string()).cast_string(), Ok("hi".to_string()));
    assert_eq!(DataType::File("out.txt".to_string()).cast_string(), Ok("'out.txt'".to_string()));
    assert_eq!(DataType::Bool(true).cast_string(), Ok("t".to_string()));
    assert_eq!(DataType::Bool(false).cast_string(), Ok("f".to_string()));
}

#[test]
fn cast_bool_of_each_kind() {
    assert_eq!(DataType::Null.cast_bool(), Ok(false));
    assert_eq!(DataType::Integer(2).cast_bool(), Ok(true));
    assert_eq!(DataType::Integer(0).cast_bool(), Ok(false));
    assert_eq!(DataType::Integer(-2).cast_bool(), Ok(false));
    assert_eq!(DataType::String(String::new()).cast_bool(), Ok(false));
    assert_eq!(DataType::String("é".to_string()).cast_bool(), Ok(true));
    assert_eq!(DataType::File("f".to_string()).cast_bool(), Err(Error::NYI));
    assert_eq!(DataType::Bool(true).cast_bool(), Ok(true));
    assert_eq!(DataType::Null.cast_file(), Err(Error::NYI));
}

#[test]
fn truth_and_integer_of_a_register() {
    assert!(DataType::Integer(-1).get_as_bool());
    assert!(!DataType::Integer(0).get_as_bool());
    assert!(DataType::Bool(true).get_as_bool());
    assert!(!DataType::String("t".to_string()).get_as_bool());
    assert_eq!(DataType::Integer(9).get_as_int(), 9);
    assert_eq!(DataType::Bool(true).get_as_int(), 0);
    assert!(DataType::Float("1.5".to_string()).is_float());
    assert!(DataType::Integer(1).is_int());
    assert!(!DataType::Null.is_int());
}

#[test]
fn strings_are_written_and_appended() {
    let mut d = DataType::Integer(4);
    assert_eq!(d.write_string("ab".to_string()), Ok(()));
    assert_eq!(text(&d), "ab");
    assert_eq!(d.append_string("cd".to_string()), Ok(()));
    assert_eq!(text(&d), "abcd");
    let mut n = DataType::Bool(true);
    assert_eq!(n.append_string("x".to_string()), Err(Error::UnableToAppendToWrongType));
    assert!(matches!(n, DataType::Bool(true)));
}

#[test]
fn numbers_are_coerced_to_integers() {
    let (a, b) = coerce_numbers(&DataType::Integer(3), &DataType::Integer(4));
    assert_eq!((integer(&a), integer(&b)), (3, 4));
    let (a, b) = coerce_numbers(&DataType::String("5".to_string()), &DataType::Integer(4));
    assert_eq!((integer(&a), integer(&b)), (0, 4));
    let (a, b) = coerce_numbers(&DataType::Bool(true), &DataType::Null);
    assert_eq!((integer(&a), integer(&b)), (0, 0));
}

#[test]
fn register_arithmetic() {
    assert_eq!(integer(&DataType::Integer(2).add(DataType::Integer(3))), 5);
    assert_eq!(integer(&DataType::Integer(2).sub(DataType::Integer(3))), -1);
    assert_eq!(integer(&DataType::Integer(6).mul(DataType::Integer(-7))), -42);
    assert_eq!(integer(&DataType::Integer(-7).div(DataType::Integer(2))), -3);
    assert_eq!(integer(&DataType::Integer(-7).rem(DataType::Integer(2))), -1);
    assert_eq!(integer(&DataType::Integer(7).rem(DataType::Integer(-2))), 1);
    assert_eq!(integer(&DataType::String("9".to_string()).add(DataType::Integer(1))), 1);
}

#[test]
fn an_integer_cast_to_a_string_casts_back() {
    for i in [0, 1, -1, 10, -99, 4096, i64::MAX, i64::MIN, i64::MIN + 1] {
        let text = DataType::Integer(i).cast_string().unwrap();
        assert_eq!(DataType::String(text).cast_int(), Ok(i));
        assert_eq!(parse_int(&int_to_string(i)), Some(i));
    }
}
