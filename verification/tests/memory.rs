use lib::lang::address::{MemoryAddress, MemoryItem};
use lib::lang::data::{Data, RefData};
use lib::lang::error::RuntimeError;
use lib::lang::function::FunctionPointer;
use lib::lang::memory::{Collection, Memory};

fn pointer(entry: usize) -> FunctionPointer {
    FunctionPointer { entry_index: entry, number_arguments: 1, number_locals: 0 }
}

#[test]
fn a_counted_value_reads_back() {
    let mut c: Collection<String> = Collection::new();
    let i = c.insert_counted("one".to_string());
    let j = c.insert_counted("two".to_string());
    assert_eq!(i, 0);
    assert_eq!(j, 1);
    assert_eq!(c.get_counted(i).unwrap(), "one");
    assert_eq!(c.get_counted(j).unwrap(), "two");
    assert_eq!(c.get_counted(2).unwrap_err(), RuntimeError::CannotLoadCountedMemory);
}

#[test]
fn a_fixed_value_reads_back() {
    let mut c: Collection<u8> = Collection::new();
    assert_eq!(c.insert_fixed(7), 0);
    assert_eq!(c.insert_fixed(9), 1);
    assert_eq!(*c.get_fixed(1).unwrap(), 9);
    assert_eq!(c.get_fixed(2).unwrap_err(), RuntimeError::CannotLoadFixedMemory);
    assert_eq!(c.get_counted(0).unwrap_err(), RuntimeError::CannotLoadCountedMemory);
}

#[test]
fn references_count_up_and_down() {
    let mut c: Collection<u8> = Collection::new();
    let i = c.insert_counted(1);
    assert_eq!(c.inc(i), Ok(2));
    assert_eq!(c.inc(i), Ok(3));
    assert_eq!(c.dec(i), Ok(2));
    assert_eq!(c.inc(5), Err(RuntimeError::CannotIncRefCount));
    assert_eq!(c.dec(5), Err(RuntimeError::CannotDecRefCount));
}

#[test]
fn freed_slots_are_reused_first_in_first_out() {
    let mut c: Collection<u8> = Collection::new();
    let a = c.insert_counted(10);
    let b = c.insert_counted(20);
    let _d = c.insert_counted(30);
    assert_eq!(c.dec(b), Ok(0));
    assert_eq!(c.dec(a), Ok(0));
    assert_eq!(c.insert_counted(40), b);
    assert_eq!(c.insert_counted(50), a);
    assert_eq!(c.insert_counted(60), 3);
    assert_eq!(*c.get_counted(b).unwrap(), 40);
    assert_eq!(*c.get_counted(a).unwrap(), 50);
}

#[test]
fn memory_keeps_small_values_in_the_address() {
    let mut m = Memory::new();
    let addr = m.insert_fixed(Data::Integer(15));
    assert_eq!(addr, MemoryAddress::Fixed(MemoryItem::Integer(15)));
    assert!(matches!(m.get(&addr), Ok(None)));
    let addr = m.insert_counted(Data::Bool(true));
    assert_eq!(addr, MemoryAddress::Counted(MemoryItem::Bool(true)));
    assert_eq!(m.inc(&addr), Ok(1));
}

#[test]
fn memory_reads_back_strings_and_functions() {
    let mut m = Memory::new();
    let s = m.insert_fixed(Data::String("Hello World".to_string()));
    assert_eq!(s, MemoryAddress::Fixed(MemoryItem::String(0)));
    assert!(matches!(m.get(&s), Ok(Some(RefData::String(text))) if text == "Hello World"));
    let f = m.insert_counted(Data::Function(pointer(7)));
    assert_eq!(f, MemoryAddress::Counted(MemoryItem::Function(0)));
    assert!(matches!(m.get(&f), Ok(Some(RefData::Function(p))) if p.entry_index == 7));
    assert_eq!(m.inc(&f), Ok(2));
    assert_eq!(m.dec(&f), Ok(1));
    assert_eq!(m.dec(&f), Ok(0));
    let g = m.insert_counted(Data::Function(pointer(9)));
    assert_eq!(g, MemoryAddress::Counted(MemoryItem::Function(0)));
    assert_eq!(
        m.get(&MemoryAddress::Counted(MemoryItem::String(3))).unwrap_err(),
        RuntimeError::CannotLoadCountedMemory
    );
}

#[test]
fn items_as_integers() {
    assert_eq!(MemoryItem::Bool(true).as_int(), 1);
    assert_eq!(MemoryItem::Bool(false).as_int(), 0);
    assert_eq!(MemoryItem::Integer(-8).as_int(), -8);
    assert_eq!(MemoryItem::String(3).as_int(), 0);
    assert_eq!(MemoryAddress::Fixed(MemoryItem::Integer(5)).as_int(), 5);
    assert_eq!(MemoryAddress::Counted(MemoryItem::Function(2)).as_int(), 0);
}

#[test]
fn addresses_add_and_subtract_their_items() {
    let a = MemoryAddress::Fixed(MemoryItem::Integer(7));
    let b = MemoryAddress::Counted(MemoryItem::Bool(true));
    assert!(matches!(a.add(&b), Data::Integer(8)));
    assert!(matches!(a.sub(&b), Data::Integer(6)));
    assert!(matches!(b.sub(&a), Data::Integer(-6)));
}
