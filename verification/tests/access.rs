use lib::lang::access::{get_item_in_collection, update_elememnt_in_collection};
use lib::lang::data_type::DataType;
use lib::lang::error::RuntimeError;

fn text(d: &DataType) -> String {
    match d {
        DataType::String(s) => s.clone(),
        _ => panic!("not a string"),
    }
}

#[test]
fn reads_a_character_of_a_string() {
    let r = get_item_in_collection(DataType::Integer(1), DataType::String("abc".to_string()));
    assert!(matches!(r, Ok(DataType::Char('b'))));
    let r = get_item_in_collection(DataType::Integer(1), DataType::String("é!".to_string()));
    assert!(matches!(r, Ok(DataType::Char('!'))));
}

#[test]
fn reads_an_item_of_an_array() {
    let array = DataType::Array(vec![DataType::Integer(5), DataType::Bool(true)]);
    let r = get_item_in_collection(DataType::Integer(1), array);
    assert!(matches!(r, Ok(DataType::Bool(true))));
}

#[test]
fn reading_outside_fails() {
    let r = get_item_in_collection(DataType::Integer(3), DataType::String("abc".to_string()));
    assert_eq!(r.unwrap_err(), RuntimeError::CannotAccessWithAccessor);
    let r = get_item_in_collection(DataType::Integer(-1), DataType::Array(Vec::new()));
    assert_eq!(r.unwrap_err(), RuntimeError::CannotAccessWithAccessor);
    let r = get_item_in_collection(DataType::Integer(0), DataType::Bool(true));
    assert_eq!(r.unwrap_err(), RuntimeError::CannotAccessWithAccessor);
    let r = get_item_in_collection(DataType::Bool(true), DataType::String("abc".to_string()));
    assert_eq!(r.unwrap_err(), RuntimeError::InvalidAccessor);
}

#[test]
fn writes_a_character_at_a_byte_index() {
    let mut target = DataType::String("abc".to_string());
    update_elememnt_in_collection(DataType::Integer(1), &mut target, DataType::Char('x')).unwrap();
    assert_eq!(text(&target), "axc");
    let mut target = DataType::String("éb".to_string());
    update_elememnt_in_collection(DataType::Integer(2), &mut target, DataType::Char('z')).unwrap();
    assert_eq!(text(&target), "éz");
}

#[test]
fn a_string_takes_only_characters() {
    let mut target = DataType::String("abc".to_string());
    let r = update_elememnt_in_collection(DataType::Integer(1), &mut target, DataType::Integer(5));
    assert_eq!(r.unwrap_err(), RuntimeError::CannotInsertToString);
    assert_eq!(text(&target), "abc");
}

#[test]
fn writes_then_reads_an_array_item() {
    let mut target = DataType::Array(vec![DataType::Integer(1), DataType::Integer(2)]);
    update_elememnt_in_collection(DataType::Integer(0), &mut target, DataType::Integer(9)).unwrap();
    let r = get_item_in_collection(DataType::Integer(0), target.clone());
    assert!(matches!(r, Ok(DataType::Integer(9))));
    let r = update_elememnt_in_collection(DataType::Integer(2), &mut target, DataType::Integer(3));
    assert_eq!(r.unwrap_err(), RuntimeError::CannotAccessWithAccessor);
    let r = update_elememnt_in_collection(DataType::Char('a'), &mut target, DataType::Integer(3));
    assert_eq!(r.unwrap_err(), RuntimeError::InvalidAccessor);
}

#[test]
fn a_character_written_at_a_byte_index_reads_back_at_its_character_index() {
    let mut target = DataType::String("héllo".to_string());
    update_elememnt_in_collection(DataType::Integer(3), &mut target, DataType::Char('L')).unwrap();
    assert_eq!(text(&target), "héLlo");
    let r = get_item_in_collection(DataType::Integer(2), target.clone());
    assert!(matches!(r, Ok(DataType::Char('L'))));
}
