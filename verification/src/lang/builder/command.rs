use vstd::prelude::*;
use crate::lang::error::Error;
use crate::lang::text::{chars_of, push_char};
use crate::lang::numeral::{int_of_text, int_text, parse_int, int_to_string, law_int_text_round_trip};
use crate::lang::data_type::{concat, int_div, int_rem, fits_i64, trunc_div, trunc_rem};

verus! {

/// How two values are compared.
#[derive(Debug, PartialEq, Eq, Clone, Copy, Structural)]
pub enum Comparison {
    Equals,
    NotEquals,
    EqualOrGreater,
    EqualOrLess,
    Greater,
    Less,
    And,
    Or,
}

/// The type a value is cast to.
#[derive(Debug, PartialEq, Eq, Clone, Copy, Structural)]
pub enum CastTo {
    Integer,
    Float,
    String,
    File,
    Bool,
}

/// A command to the system running the program.
#[derive(Debug, PartialEq, Eq, Clone, Copy, Structural)]
pub enum SystemCommand {
    Exit(u32),
}

/// A value held in a register while a program is built. A float is kept
/// as the decimal text it was written with.
#[derive(Debug)]
pub enum DataType {
    Null,
    Integer(i64),
    Float(String),
    String(String),
    File(String),
    Bool(bool),
}

/// The mathematical value of a [`DataType`].
pub enum SDataType {
    Null,
    Integer(int),
    Float(Seq<char>),
    String(Seq<char>),
    File(Seq<char>),
    Bool(bool),
}

impl View for DataType {
    type V = SDataType;

    open spec fn view(&self) -> SDataType {
        match self {
            DataType::Null => SDataType::Null,
            DataType::Integer(i) => SDataType::Integer(*i as int),
            DataType::Float(f) => SDataType::Float(f@),
            DataType::String(s) => SDataType::String(s@),
            DataType::File(f) => SDataType::File(f@),
            DataType::Bool(b) => SDataType::Bool(*b),
        }
    }
}

/// The integer a value counts as: an integer itself, 0 for anything that
/// is not a number.
pub open spec fn int_value(d: SDataType) -> int {
    match d {
        SDataType::Integer(i) => i,
        _ => 0,
    }
}

/// How a value is printed: `NULL`, an integer in decimal, a string as it
/// is, a file name between single quotes, `t` or `f`. (Floats are printed
/// by the caller, from their value; they get no text here.)
pub open spec fn display_text(d: SDataType) -> Seq<char> {
    match d {
        SDataType::Null => seq!['N', 'U', 'L', 'L'],
        SDataType::Integer(i) => int_text(i),
        SDataType::Float(_) => Seq::empty(),
        SDataType::String(s) => s,
        SDataType::File(f) => seq!['\''] + f + seq!['\''],
        SDataType::Bool(b) => if b {
            seq!['t']
        } else {
            seq!['f']
        },
    }
}

impl DataType {
    /// A copy of the value.
    pub fn deep_clone(&self) -> (r: DataType)
        ensures
            r@ == self@,
    {
        match self {
            DataType::Null => DataType::Null,
            DataType::Integer(i) => DataType::Integer(*i),
            DataType::Float(f) => DataType::Float(f.clone()),
            DataType::String(s) => DataType::String(s.clone()),
            DataType::File(f) => DataType::File(f.clone()),
            DataType::Bool(b) => DataType::Bool(*b),
        }
    }

    /// The truth of a value: a boolean itself, an integer when it is not
    /// zero, anything else false. (A float is true when it is not zero;
    /// that case is the caller's.)
    pub fn get_as_bool(&self) -> (r: bool)
        requires
            !(self@ is Float),
        ensures
            r == (match self@ {
                SDataType::Bool(b) => b,
                SDataType::Integer(i) => i != 0,
                _ => false,
            }),
    {
        match self {
            DataType::Bool(b) => *b,
            DataType::Integer(i) => *i != 0,
            _ => false,
        }
    }

    pub fn is_float(&self) -> (r: bool)
        ensures
            r == self@ is Float,
    {
        if let DataType::Float(_) = self {
            return true;
        }
        false
    }

    /// The integer of a value: an integer itself, 0 for anything that is
    /// not a number. (A float is truncated; that case is the caller's.)
    pub fn get_as_int(&self) -> (r: i64)
        requires
            !(self@ is Float),
        ensures
            r == int_value(self@),
    {
        match self {
            DataType::Integer(i) => *i,
            _ => 0,
        }
    }

    pub fn is_int(&self) -> (r: bool)
        ensures
            r == self@ is Integer,
    {
        if let DataType::Integer(_) = self {
            return true;
        }
        false
    }

    /// Turns the value, whatever it was, into the given string.
    pub fn write_string(&mut self, to_write: String) -> (r: Result<(), Error>)
        ensures
            r is Ok,
            final(self)@ == SDataType::String(to_write@),
    {
        *self = DataType::String(to_write);
        Ok(())
    }

    /// Adds text to the end of a string; any other value is left as it is
    /// and refused.
    pub fn append_string(&mut self, to_append: String) -> (r: Result<(), Error>)
        ensures
            match old(self)@ {
                SDataType::String(s) => r is Ok && final(self)@ == SDataType::String(s + to_append@),
                _ => r == Err::<(), Error>(Error::UnableToAppendToWrongType) && final(self)@ == old(
                    self,
                )@,
            },
    {
        let appended = match self {
            DataType::String(self_string) => concat(self_string, &to_append),
            _ => return Err(Error::UnableToAppendToWrongType),
        };
        *self = DataType::String(appended);
        Ok(())
    }

    /// The value as an integer: 0 for null, 1 or 0 for a boolean, and a
    /// string read as an `i64`; a string that is no such number cannot be
    /// cast, and files are not cast yet. (A float is truncated; that case
    /// is the caller's.)
    pub fn cast_int(&self) -> (r: Result<i64, Error>)
        requires
            !(self@ is Float),
        ensures
            match self@ {
                SDataType::Null => r == Ok::<i64, Error>(0),
                SDataType::Integer(i) => r == Ok::<i64, Error>(i as i64),
                SDataType::String(s) => match int_of_text(s) {
                    Some(v) => r == Ok::<i64, Error>(v as i64),
                    None => r == Err::<i64, Error>(Error::CastFail),
                },
                SDataType::Bool(b) => r == Ok::<i64, Error>(
                    if b {
                        1
                    } else {
                        0
                    },
                ),
                _ => r == Err::<i64, Error>(Error::NYI),
            },
    {
        match self {
            DataType::Null => Ok(0),
            DataType::Integer(i) => Ok(*i),
            DataType::String(string) => {
                match parse_int(string.as_str()) {
                    Some(i) => Ok(i),
                    None => Err(Error::CastFail),
                }
            },
            DataType::Bool(value) => {
                match value {
                    true => Ok(1),
                    false => Ok(0),
                }
            },
            _ => Err(Error::NYI),
        }
    }

    /// The value as it is printed (see [`display_text`]). (A float prints
    /// as the shortest text of its value; that case is the caller's.)
    pub fn cast_string(&self) -> (r: Result<String, Error>)
        requires
            !(self@ is Float),
        ensures
            r matches Ok(t) && t@ == display_text(self@),
    {
        let text = match self {
            DataType::Null => {
                let mut t = String::new();
                push_char(&mut t, 'N');
                push_char(&mut t, 'U');
                push_char(&mut t, 'L');
                push_char(&mut t, 'L');
                assert(t@ =~= seq!['N', 'U', 'L', 'L']);
                t
            },
            DataType::Integer(i) => int_to_string(*i),
            DataType::String(string) => string.clone(),
            DataType::File(file) => {
                let mut t = String::new();
                push_char(&mut t, '\'');
                let mut t = concat(&t, file);
                push_char(&mut t, '\'');
                assert(t@ =~= seq!['\''] + file@ + seq!['\'']);
                t
            },
            DataType::Bool(boolean) => {
                let mut t = String::new();
                match boolean {
                    true => push_char(&mut t, 't'),
                    false => push_char(&mut t, 'f'),
                }
                assert(t@ =~= display_text(self@));
                t
            },
            DataType::Float(_) => {
                proof {
                    assert(false);
                }
                String::new()
            },
        };
        Ok(text)
    }

    /// Files are not cast yet.
    pub fn cast_file(&self) -> (r: Result<(), Error>)
        ensures
            r == Err::<(), Error>(Error::NYI),
    {
        Err(Error::NYI)
    }

    /// The value as a boolean: false for null, whether an integer is above
    /// zero, whether a string is not empty, a boolean itself; files are not
    /// cast yet. (A float is true when it is above zero; that case is the
    /// caller's.)
    pub fn cast_bool(&self) -> (r: Result<bool, Error>)
        requires
            !(self@ is Float),
        ensures
            r == (match self@ {
                SDataType::Null => Ok::<bool, Error>(false),
                SDataType::Integer(i) => Ok::<bool, Error>(i > 0),
                SDataType::String(s) => Ok::<bool, Error>(s.len() > 0),
                SDataType::Bool(b) => Ok::<bool, Error>(b),
                _ => Err::<bool, Error>(Error::NYI),
            }),
    {
        match self {
            DataType::Null => Ok(false),
            DataType::Integer(i) => {
                let mut b = false;
                if *i > 0 {
                    b = true;
                }
                Ok(b)
            },
            DataType::String(string) => {
                let mut b = false;
                if chars_of(string.as_str()).len() > 0 {
                    b = true;
                }
                Ok(b)
            },
            DataType::Bool(b) => Ok(*b),
            _ => Err(Error::NYI),
        }
    }

    /// `+` on registers: both sides are taken as integers.
    pub fn add(self, right: DataType) -> (r: DataType)
        requires
            !(self@ is Float) && !(right@ is Float),
            fits_i64(int_value(self@) + int_value(right@)),
        ensures
            r@ == SDataType::Integer(int_value(self@) + int_value(right@)),
    {
        let (left, right) = coerce_numbers(&self, &right);
        DataType::Integer(left.get_as_int() + right.get_as_int())
    }

    /// `-` on registers: both sides are taken as integers.
    pub fn sub(self, right: DataType) -> (r: DataType)
        requires
            !(self@ is Float) && !(right@ is Float),
            fits_i64(int_value(self@) - int_value(right@)),
        ensures
            r@ == SDataType::Integer(int_value(self@) - int_value(right@)),
    {
        let (left, right) = coerce_numbers(&self, &right);
        DataType::Integer(left.get_as_int() - right.get_as_int())
    }

    /// `*` on registers: both sides are taken as integers.
    pub fn mul(self, right: DataType) -> (r: DataType)
        requires
            !(self@ is Float) && !(right@ is Float),
            fits_i64(int_value(self@) * int_value(right@)),
        ensures
            r@ == SDataType::Integer(int_value(self@) * int_value(right@)),
    {
        let (left, right) = coerce_numbers(&self, &right);
        DataType::Integer(left.get_as_int() * right.get_as_int())
    }

    /// `/` on registers: both sides are taken as integers, and the quotient
    /// rounds toward zero.
    pub fn div(self, right: DataType) -> (r: DataType)
        requires
            !(self@ is Float) && !(right@ is Float),
            int_value(right@) != 0,
            fits_i64(trunc_div(int_value(self@), int_value(right@))),
        ensures
            r@ == SDataType::Integer(trunc_div(int_value(self@), int_value(right@))),
    {
        let (left, right) = coerce_numbers(&self, &right);
        DataType::Integer(int_div(left.get_as_int(), right.get_as_int()))
    }

    /// `%` on registers: both sides are taken as integers, and the
    /// remainder has the sign of the left one.
    pub fn rem(self, right: DataType) -> (r: DataType)
        requires
            !(self@ is Float) && !(right@ is Float),
            int_value(right@) != 0,
            !(int_value(self@) == i64::MIN && int_value(right@) == -1),
        ensures
            r@ == SDataType::Integer(trunc_rem(int_value(self@), int_value(right@))),
    {
        let (left, right) = coerce_numbers(&self, &right);
        DataType::Integer(int_rem(left.get_as_int(), right.get_as_int()))
    }
}

/// An integer register cast to a string, and that string cast back to an
/// integer, gives the integer again.
pub proof fn law_cast_string_then_int(i: i64)
    ensures
        int_of_text(display_text(SDataType::Integer(i as int))) == Some(i as int),
{
    law_int_text_round_trip(i);
}

/// Brings two values to one kind of number: two integers stay as they are,
/// and any other pair becomes the integers they count as. (A pair with a
/// float becomes floats; that case is the caller's.)
pub fn coerce_numbers(left: &DataType, right: &DataType) -> (r: (DataType, DataType))
    requires
        !(left@ is Float) && !(right@ is Float),
    ensures
        r.0@ == SDataType::Integer(int_value(left@)),
        r.1@ == SDataType::Integer(int_value(right@)),
{
    if left.is_int() && right.is_int() {
        return (left.deep_clone(), right.deep_clone());
    }
    (DataType::Integer(left.get_as_int()), DataType::Integer(right.get_as_int()))
}

} // verus!
