use lib::lang::builder::symbol::{SymbolTable, SymbolType};

#[test]
fn a_name_keeps_the_symbol_it_first_got() {
    let mut t = SymbolTable::new();
    assert_eq!(t.get("a"), SymbolType::Local(0));
    assert_eq!(t.get("b"), SymbolType::Local(1));
    assert_eq!(t.get("a"), SymbolType::Local(0));
    assert_eq!(t.get("a"), SymbolType::Local(0));
    assert_eq!(t.get("c"), SymbolType::Local(2));
}

#[test]
fn argument_mode_numbers_arguments() {
    let mut t = SymbolTable::new();
    t.set_arg_mode();
    assert_eq!(t.get("x"), SymbolType::Arg(0));
    assert_eq!(t.get("y"), SymbolType::Arg(1));
    t.set_local_mode();
    assert_eq!(t.get("z"), SymbolType::Local(2));
    assert_eq!(t.get("x"), SymbolType::Arg(0));
}

#[test]
fn the_counter_can_be_set() {
    let mut t = SymbolTable::new();
    t.set_counter(10);
    assert_eq!(t.get("n"), SymbolType::Local(10));
    assert_eq!(t.get("m"), SymbolType::Local(11));
}

#[test]
fn names_are_numbered_in_the_order_first_seen() {
    let mut table = SymbolTable::new();
    assert_eq!(table.get("a"), SymbolType::Local(0));
    table.set_arg_mode();
    assert_eq!(table.get("b"), SymbolType::Arg(1));
    assert_eq!(table.get("a"), SymbolType::Local(0));
    table.set_local_mode();
    assert_eq!(table.get("c"), SymbolType::Local(2));
}
