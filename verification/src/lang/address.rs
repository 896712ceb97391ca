use vstd::prelude::*;
use crate::lang::error::RuntimeError;
use crate::lang::data::Data;

verus! {

/// A value as memory hands it out: small values by value, strings and
/// functions by their slot. A float is held as the bit pattern of its `f64`.
#[derive(Debug, Clone, Copy, PartialEq, Eq, Structural)]
pub enum MemoryItem {
    Bool(bool),
    Integer(i64),
    Float(u64),
    String(usize),
    Function(usize),
}

impl MemoryItem {
    pub fn get_bool(&self) -> (r: Result<bool, RuntimeError>)
        ensures
            r == (match *self {
                MemoryItem::Bool(b) => Ok::<bool, RuntimeError>(b),
                _ => Err(RuntimeError::TargetIsNotABool),
            }),
    {
        if let MemoryItem::Bool(b) = *self {
            return Ok(b);
        }
        Err(RuntimeError::TargetIsNotABool)
    }

    pub fn is_int(&self) -> (r: bool)
        ensures
            r == (*self is Integer),
    {
        if let MemoryItem::Integer(_) = *self {
            return true;
        }
        false
    }

    /// The integer of an item: 1 or 0 for a boolean, an integer itself, 0
    /// for a string or a function. (A float is truncated; that case is the
    /// caller's.)
    pub fn as_int(&self) -> (r: i64)
        requires
            !(*self is Float),
        ensures
            r == item_int(*self),
    {
        match *self {
            MemoryItem::Bool(b) => if b {
                1
            } else {
                0
            },
            MemoryItem::Integer(i) => i,
            _ => 0,
        }
    }

    pub fn is_float(&self) -> (r: bool)
        ensures
            r == (*self is Float),
    {
        if let MemoryItem::Float(_) = *self {
            return true;
        }
        false
    }

    pub fn is_function(&self) -> (r: bool)
        ensures
            r == (*self is Function),
    {
        if let MemoryItem::Function(_) = *self {
            return true;
        }
        false
    }
}

/// The integer an item counts as: 1 or 0 for a boolean, an integer itself,
/// 0 for anything else.
pub open spec fn item_int(item: MemoryItem) -> int {
    match item {
        MemoryItem::Bool(b) => if b {
            1
        } else {
            0
        },
        MemoryItem::Integer(i) => i as int,
        _ => 0,
    }
}

/// Where a value lives: in reference-counted or in fixed storage.
#[derive(Debug, Clone, Copy, PartialEq, Eq, Structural)]
pub enum MemoryAddress {
    Counted(MemoryItem),
    Fixed(MemoryItem),
}

impl MemoryAddress {
    pub open spec fn item(&self) -> MemoryItem {
        match *self {
            MemoryAddress::Counted(item) => item,
            MemoryAddress::Fixed(item) => item,
        }
    }

    pub fn get_item(&self) -> (r: &MemoryItem)
        ensures
            *r == self.item(),
    {
        match self {
            MemoryAddress::Counted(item) => item,
            MemoryAddress::Fixed(item) => item,
        }
    }

    pub fn get_bool(&self) -> (r: Result<bool, RuntimeError>)
        ensures
            r == (match self.item() {
                MemoryItem::Bool(b) => Ok::<bool, RuntimeError>(b),
                _ => Err(RuntimeError::TargetIsNotABool),
            }),
    {
        self.get_item().get_bool()
    }

    pub fn is_int(&self) -> (r: bool)
        ensures
            r == (self.item() is Integer),
    {
        self.get_item().is_int()
    }

    /// The integer of the item at the address (see [`MemoryItem::as_int`]).
    pub fn as_int(&self) -> (r: i64)
        requires
            !(self.item() is Float),
        ensures
            r == item_int(self.item()),
    {
        self.get_item().as_int()
    }

    pub fn is_float(&self) -> (r: bool)
        ensures
            r == (self.item() is Float),
    {
        self.get_item().is_float()
    }

    /// `+` of the items at two addresses, taken as integers. (Where either
    /// is a float the sum is a float; that case is the caller's.)
    pub fn add(&self, right: &MemoryAddress) -> (r: Data)
        requires
            !(self.item() is Float) && !(right.item() is Float),
            i64::MIN <= item_int(self.item()) + item_int(right.item()) <= i64::MAX,
        ensures
            r == Data::Integer((item_int(self.item()) + item_int(right.item())) as i64),
    {
        Data::Integer(self.as_int() + right.as_int())
    }

    /// `-` of the items at two addresses, taken as integers. (Where either
    /// is a float the difference is a float; that case is the caller's.)
    pub fn sub(&self, right: &MemoryAddress) -> (r: Data)
        requires
            !(self.item() is Float) && !(right.item() is Float),
            i64::MIN <= item_int(self.item()) - item_int(right.item()) <= i64::MAX,
        ensures
            r == Data::Integer((item_int(self.item()) - item_int(right.item())) as i64),
    {
        Data::Integer(self.as_int() - right.as_int())
    }

    pub fn is_function(&self) -> (r: bool)
        ensures
            r == (self.item() is Function),
    {
        self.get_item().is_function()
    }
}

} // verus!
