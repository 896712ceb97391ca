use vstd::prelude::*;
use crate::lang::command::{
    Command, SCommand, view_data, view_datas, view_command, view_commands, lemma_view_commands_push,
};
use crate::lang::error::RuntimeError;
use crate::lang::text::{push_char, chars_of};
use crate::lang::numeral::{int_text, int_to_string};
use vstd::utf8::encode_utf8;

verus! {

/// A value of the language. A float is kept as the decimal text it was
/// written with.
#[derive(Debug)]
pub enum DataType {
    Bool(bool),
    Integer(i64),
    Float(String),
    Char(char),
    String(String),
    Array(Vec<DataType>),
    // commands, num args
    Function(Vec<Command>, usize),
}

/// The mathematical value of a [`DataType`].
pub enum SDataType {
    Bool(bool),
    Integer(int),
    Float(Seq<char>),
    Char(char),
    String(Seq<char>),
    Array(Seq<SDataType>),
    Function(Seq<SCommand>, int),
}

impl View for DataType {
    type V = SDataType;

    open spec fn view(&self) -> SDataType {
        view_data(*self)
    }
}

impl DataType {
    /// The length of a string in bytes of its UTF-8 encoding, or of an
    /// array in items; 0 for any other value.
    pub fn len(&self) -> (r: usize)
        ensures
            r == (match self@ {
                SDataType::String(s) => encode_utf8(s).len() as usize,
                SDataType::Array(a) => a.len() as usize,
                _ => 0usize,
            }),
    {
        match self {
            DataType::String(string) => string.as_str().len(),
            DataType::Array(array) => array.len(),
            _ => 0,
        }
    }

    pub fn is_bool(&self) -> (r: bool)
        ensures
            r == self@ is Bool,
    {
        if let DataType::Bool(_) = self {
            return true;
        }
        false
    }

    pub fn get_bool(&self) -> (r: Result<bool, RuntimeError>)
        ensures
            r == (match self@ {
                SDataType::Bool(b) => Ok::<bool, RuntimeError>(b),
                _ => Err(RuntimeError::NotABool),
            }),
    {
        if let DataType::Bool(b) = self {
            return Ok(*b);
        }
        Err(RuntimeError::NotABool)
    }

    pub fn is_int(&self) -> (r: bool)
        ensures
            r == self@ is Integer,
    {
        if let DataType::Integer(_) = self {
            return true;
        }
        false
    }

    pub fn is_float(&self) -> (r: bool)
        ensures
            r == self@ is Float,
    {
        if let DataType::Float(_) = self {
            return true;
        }
        false
    }

    pub fn is_char(&self) -> (r: bool)
        ensures
            r == self@ is Char,
    {
        if let DataType::Char(_) = self {
            return true;
        }
        false
    }

    pub fn is_string(&self) -> (r: bool)
        ensures
            r == self@ is String,
    {
        if let DataType::String(_) = self {
            return true;
        }
        false
    }

    /// The text of a string, the one character of a char, and an empty
    /// text for any other value.
    pub fn as_string(&self) -> (r: String)
        ensures
            r@ == (match self@ {
                SDataType::String(s) => s,
                SDataType::Char(c) => seq![c],
                _ => Seq::<char>::empty(),
            }),
    {
        match self {
            DataType::String(string) => string.clone(),
            DataType::Char(c) => {
                let mut s = String::new();
                push_char(&mut s, *c);
                assert(s@ =~= seq![*c]);
                s
            },
            _ => String::new(),
        }
    }

    pub fn get_string(&self) -> (r: Result<&String, RuntimeError>)
        ensures
            match *self {
                DataType::String(s) => r == Ok::<&String, RuntimeError>(&s),
                _ => r == Err::<&String, RuntimeError>(RuntimeError::TargetNotAString),
            },
    {
        if let DataType::String(string) = self {
            return Ok(string);
        }
        Err(RuntimeError::TargetNotAString)
    }

    pub fn is_array(&self) -> (r: bool)
        ensures
            r == self@ is Array,
    {
        if let DataType::Array(_) = self {
            return true;
        }
        false
    }

    pub fn get_array(&self) -> (r: Result<&Vec<DataType>, RuntimeError>)
        ensures
            match *self {
                DataType::Array(a) => r == Ok::<&Vec<DataType>, RuntimeError>(&a),
                _ => r == Err::<&Vec<DataType>, RuntimeError>(RuntimeError::TargetNotAnArray),
            },
    {
        if let DataType::Array(items) = self {
            return Ok(items);
        }
        Err(RuntimeError::TargetNotAnArray)
    }

    /// The commands of a function and its number of arguments.
    pub fn get_function(&self) -> (r: Result<(&Vec<Command>, usize), RuntimeError>)
        ensures
            match *self {
                DataType::Function(c, n) => r == Ok::<(&Vec<Command>, usize), RuntimeError>((&c, n)),
                _ => r == Err::<(&Vec<Command>, usize), RuntimeError>(RuntimeError::NotAFunction),
            },
    {
        if let DataType::Function(commands, num_args) = self {
            return Ok((commands, *num_args));
        }
        Err(RuntimeError::NotAFunction)
    }
}

impl DataType {
    /// A copy of the value and of everything inside it.
    pub fn deep_clone(&self) -> (r: DataType)
        ensures
            r@ == self@,
        decreases view_data(*self),
    {
        match self {
            DataType::Bool(b) => DataType::Bool(*b),
            DataType::Integer(i) => DataType::Integer(*i),
            DataType::Float(f) => DataType::Float(f.clone()),
            DataType::Char(c) => DataType::Char(*c),
            DataType::String(s) => DataType::String(s.clone()),
            DataType::Array(items) => {
                assert(decreases_to!(view_data(*self) => view_data(*self)->Array_0));
                DataType::Array(clone_datas(items))
            },
            DataType::Function(commands, n) => {
                assert(decreases_to!(view_data(*self) => view_data(*self)->Function_0));
                DataType::Function(clone_commands(commands), *n)
            },
        }
    }
}

impl Clone for DataType {
    fn clone(&self) -> (r: DataType)
        ensures
            r@ == self@,
    {
        self.deep_clone()
    }
}

/// A copy of a list of values.
pub fn clone_datas(v: &Vec<DataType>) -> (r: Vec<DataType>)
    ensures
        view_datas(r@) == view_datas(v@),
    decreases view_datas(v@),
{
    let mut r: Vec<DataType> = Vec::new();
    let mut i: usize = 0;
    while i < v.len()
        invariant
            i <= v@.len(),
            view_datas(r@) == view_datas(v@).take(i as int),
        decreases v.len() - i,
    {
        proof {
            assert(decreases_to!(view_datas(v@) => view_datas(v@)[i as int]));
        }
        let a = v[i].deep_clone();
        proof {
            assert(view_datas(r@.push(a)) =~= view_datas(r@).push(view_data(a)));
            assert(view_datas(v@).take(i + 1) =~= view_datas(v@).take(i as int).push(
                view_data(v@[i as int]),
            ));
        }
        r.push(a);
        i = i + 1;
    }
    assert(view_datas(v@).take(v@.len() as int) =~= view_datas(v@));
    r
}

/// A copy of a command.
pub fn clone_command(c: &Command) -> (r: Command)
    ensures
        r@ == c@,
    decreases view_command(*c),
{
    match c {
        Command::PushStack(d) => {
            assert(decreases_to!(view_command(*c) => view_command(*c)->PushStack_0));
            Command::PushStack(d.deep_clone())
        },
        Command::SaveLocal(i) => Command::SaveLocal(*i),
        Command::LoadLocal(i) => Command::LoadLocal(*i),
        Command::SaveStackArg(i) => Command::SaveStackArg(*i),
        Command::LoadStackArg(i) => Command::LoadStackArg(*i),
        Command::InitArray => Command::InitArray,
        Command::ArrayPush => Command::ArrayPush,
        Command::Access => Command::Access,
        Command::AccessAssign => Command::AccessAssign,
        Command::Equals => Command::Equals,
        Command::Add => Command::Add,
        Command::Concat => Command::Concat,
        Command::Sub => Command::Sub,
        Command::Mul => Command::Mul,
        Command::Div => Command::Div,
        Command::Rem => Command::Rem,
        Command::Exp => Command::Exp,
        Command::IoWrite => Command::IoWrite,
        Command::IoAppend => Command::IoAppend,
        Command::JumpIfFalse(n) => Command::JumpIfFalse(*n),
        Command::Call => Command::Call,
        Command::CallSelf => Command::CallSelf,
        Command::Return => Command::Return,
        Command::Halt(code) => Command::Halt(*code),
    }
}

/// A copy of a list of commands.
pub fn clone_commands(v: &Vec<Command>) -> (r: Vec<Command>)
    ensures
        view_commands(r@) == view_commands(v@),
    decreases view_commands(v@),
{
    let mut r: Vec<Command> = Vec::new();
    let mut i: usize = 0;
    while i < v.len()
        invariant
            i <= v@.len(),
            view_commands(r@) == view_commands(v@).take(i as int),
        decreases v.len() - i,
    {
        proof {
            assert(decreases_to!(view_commands(v@) => view_commands(v@)[i as int]));
        }
        let a = clone_command(&v[i]);
        proof {
            lemma_view_commands_push(r@, a);
            assert(view_commands(v@).take(i + 1) =~= view_commands(v@).take(i as int).push(
                view_command(v@[i as int]),
            ));
        }
        r.push(a);
        i = i + 1;
    }
    assert(view_commands(v@).take(v@.len() as int) =~= view_commands(v@));
    r
}

/// A string or a character: the values that `+` joins.
pub open spec fn is_text(d: SDataType) -> bool {
    d is String || d is Char
}

/// The text of a string, or the one character of a char.
pub open spec fn text_of(d: SDataType) -> Seq<char> {
    match d {
        SDataType::String(s) => s,
        SDataType::Char(c) => seq![c],
        _ => Seq::empty(),
    }
}

pub open spec fn both_int(a: SDataType, b: SDataType) -> bool {
    a is Integer && b is Integer
}

pub open spec fn int_of(d: SDataType) -> int {
    match d {
        SDataType::Integer(i) => i,
        _ => 0,
    }
}

pub open spec fn fits_i64(x: int) -> bool {
    i64::MIN <= x <= i64::MAX
}

pub open spec fn abs(x: int) -> int {
    if x < 0 {
        -x
    } else {
        x
    }
}

/// Integer division rounding toward zero.
pub open spec fn trunc_div(a: int, b: int) -> int {
    if (a < 0) != (b < 0) {
        -(abs(a) / abs(b))
    } else {
        abs(a) / abs(b)
    }
}

/// The remainder of [`trunc_div`]: it has the sign of `a`.
pub open spec fn trunc_rem(a: int, b: int) -> int {
    if a < 0 {
        -(abs(a) % abs(b))
    } else {
        abs(a) % abs(b)
    }
}

/// `s` written `n` times.
pub open spec fn repeat(s: Seq<char>, n: nat) -> Seq<char>
    decreases n,
{
    if n == 0 {
        Seq::empty()
    } else {
        repeat(s, (n - 1) as nat) + s
    }
}

/// A numeric operation on two values that are not both integers is done
/// on floats, and `+` joins two texts; what is left for the float
/// arithmetic.
pub open spec fn add_on_floats(a: SDataType, b: SDataType) -> bool {
    !(is_text(a) && is_text(b)) && !both_int(a, b)
}

/// `*` repeats a string an integer number of times.
pub open spec fn is_repeat(a: SDataType, b: SDataType) -> bool {
    a is String && b is Integer
}

pub open spec fn mul_on_floats(a: SDataType, b: SDataType) -> bool {
    !is_repeat(a, b) && !both_int(a, b)
}

/// The text of `left` followed by that of `right`.
pub(crate) fn concat(left: &String, right: &String) -> (r: String)
    ensures
        r@ == left@ + right@,
{
    let mut out = left.clone();
    let chars = chars_of(right.as_str());
    let mut i: usize = 0;
    while i < chars.len()
        invariant
            i <= chars.len(),
            chars@ == right@,
            out@ == left@ + right@.take(i as int),
        decreases chars.len() - i,
    {
        push_char(&mut out, chars[i]);
        i = i + 1;
        assert(left@ + right@.take(i as int) =~= (left@ + right@.take(i - 1)).push(right@[i - 1]));
    }
    assert(right@.take(chars.len() as int) =~= right@);
    out
}

/// `s` written `n` times.
fn repeat_string(s: &String, n: usize) -> (r: String)
    ensures
        r@ == repeat(s@, n as nat),
{
    let mut out = String::new();
    let mut k: usize = 0;
    while k < n
        invariant
            k <= n,
            out@ == repeat(s@, k as nat),
        decreases n - k,
    {
        out = concat(&out, s);
        k = k + 1;
    }
    out
}

/// `a / b` of two `i64`, which rounds toward zero.
pub(crate) fn int_div(a: i64, b: i64) -> (r: i64)
    requires
        b != 0,
        fits_i64(trunc_div(a as int, b as int)),
    ensures
        r as int == trunc_div(a as int, b as int),
{
    let q = magnitude(a) / magnitude(b);
    if (a < 0) != (b < 0) {
        -(q as i128) as i64
    } else {
        q as i64
    }
}

/// `a % b` of two `i64`: the remainder has the sign of `a`.
pub(crate) fn int_rem(a: i64, b: i64) -> (r: i64)
    requires
        b != 0,
    ensures
        r as int == trunc_rem(a as int, b as int),
{
    let m = magnitude(a) % magnitude(b);
    if a < 0 {
        -(m as i128) as i64
    } else {
        m as i64
    }
}

/// `|x|` of an `i64`, as a `u64`.
fn magnitude(x: i64) -> (r: u64)
    ensures
        r as int == abs(x as int),
{
    if x < 0 {
        let y: i128 = -(x as i128);
        y as u64
    } else {
        x as u64
    }
}

impl DataType {
    /// The truth of a value: a boolean itself, an integer when it is not
    /// zero, anything else false. (A float is true when it is not zero;
    /// that case is the caller's.)
    pub fn as_bool(&self) -> (r: bool)
        requires
            !(self@ is Float),
        ensures
            r == (match self@ {
                SDataType::Bool(b) => b,
                SDataType::Integer(i) => i != 0,
                _ => false,
            }),
    {
        match self {
            DataType::Bool(b) => *b,
            DataType::Integer(num) => *num != 0,
            _ => false,
        }
    }

    /// The integer of a value: 1 or 0 for a boolean, an integer itself, 0
    /// for anything else. (A float is truncated; that case is the
    /// caller's.)
    pub fn as_int(&self) -> (r: i64)
        requires
            !(self@ is Float),
        ensures
            r == (match self@ {
                SDataType::Bool(b) => if b {
                    1int
                } else {
                    0int
                },
                SDataType::Integer(i) => i,
                _ => 0int,
            }),
    {
        match self {
            DataType::Bool(b) => if *b {
                1
            } else {
                0
            },
            DataType::Integer(num) => *num,
            _ => 0,
        }
    }

    /// The character of a value: `t` or `f` for a boolean, the character
    /// whose code is the low byte of an integer, a char itself, and the
    /// character 0 for anything else. (A float goes through its low byte as
    /// well; that case is the caller's.)
    pub fn as_char(&self) -> (r: char)
        requires
            !(self@ is Float),
        ensures
            match self@ {
                SDataType::Bool(b) => r == (if b {
                    't'
                } else {
                    'f'
                }),
                SDataType::Integer(i) => r as int == (i as u8) as int,
                SDataType::Char(c) => r == c,
                _ => r == '\0',
            },
    {
        match self {
            DataType::Bool(b) => if *b {
                't'
            } else {
                'f'
            },
            DataType::Integer(num) => (*num as u8) as char,
            DataType::Char(c) => *c,
            _ => '\0',
        }
    }

    /// `+`: two strings or chars join into a new string; two integers add.
    /// (Any other pair is added as floats, which is the caller's.)
    pub fn add(self, right: DataType) -> (r: DataType)
        requires
            !add_on_floats(self@, right@),
            !(is_text(self@) && is_text(right@)) ==> fits_i64(int_of(self@) + int_of(right@)),
        ensures
            r@ == (if is_text(self@) && is_text(right@) {
                SDataType::String(text_of(self@) + text_of(right@))
            } else {
                SDataType::Integer(int_of(self@) + int_of(right@))
            }),
    {
        if (self.is_string() || self.is_char()) && (right.is_string() || right.is_char()) {
            let left = self.as_string();
            let right = right.as_string();
            return DataType::String(concat(&left, &right));
        }
        match (self, right) {
            (DataType::Integer(a), DataType::Integer(b)) => DataType::Integer(a + b),
            _ => {
                proof {
                    assert(false);
                }
                DataType::Integer(0)
            },
        }
    }

    /// `-` of two integers. (Any other pair is subtracted as floats, which
    /// is the caller's.)
    pub fn sub(self, right: DataType) -> (r: DataType)
        requires
            both_int(self@, right@),
            fits_i64(int_of(self@) - int_of(right@)),
        ensures
            r@ == SDataType::Integer(int_of(self@) - int_of(right@)),
    {
        match (self, right) {
            (DataType::Integer(a), DataType::Integer(b)) => DataType::Integer(a - b),
            _ => {
                proof {
                    assert(false);
                }
                DataType::Integer(0)
            },
        }
    }

    /// `*`: a string times an integer repeats the string that many times
    /// (the integer taken as a `usize`); two integers multiply. (Any other
    /// pair is multiplied as floats, which is the caller's.)
    pub fn mul(self, right: DataType) -> (r: DataType)
        requires
            !mul_on_floats(self@, right@),
            both_int(self@, right@) ==> fits_i64(int_of(self@) * int_of(right@)),
            is_repeat(self@, right@) && text_of(self@).len() > 0 ==> encode_utf8(text_of(self@)).len()
                * ((int_of(right@) as usize) as int) <= isize::MAX,
        ensures
            r@ == (if is_repeat(self@, right@) {
                SDataType::String(repeat(text_of(self@), (int_of(right@) as usize) as nat))
            } else {
                SDataType::Integer(int_of(self@) * int_of(right@))
            }),
    {
        match (self, right) {
            (DataType::String(s), DataType::Integer(n)) => {
                let count = n as usize;
                if s.as_str().is_empty() {
                    proof {
                        lemma_repeat_empty(s@, count as nat);
                    }
                    return DataType::String(String::new());
                }
                DataType::String(repeat_string(&s, count))
            },
            (DataType::Integer(a), DataType::Integer(b)) => DataType::Integer(a * b),
            _ => {
                proof {
                    assert(false);
                }
                DataType::Integer(0)
            },
        }
    }

    /// `/` of two integers, rounding toward zero. (Any other pair is
    /// divided as floats, which is the caller's.)
    pub fn div(self, right: DataType) -> (r: DataType)
        requires
            both_int(self@, right@),
            int_of(right@) != 0,
            fits_i64(trunc_div(int_of(self@), int_of(right@))),
        ensures
            r@ == SDataType::Integer(trunc_div(int_of(self@), int_of(right@))),
    {
        match (self, right) {
            (DataType::Integer(a), DataType::Integer(b)) => DataType::Integer(int_div(a, b)),
            _ => {
                proof {
                    assert(false);
                }
                DataType::Integer(0)
            },
        }
    }

    /// `%` of two integers: the remainder has the sign of the left one.
    /// (Any other pair is taken as floats, which is the caller's.)
    pub fn rem(self, right: DataType) -> (r: DataType)
        requires
            both_int(self@, right@),
            int_of(right@) != 0,
            !(int_of(self@) == i64::MIN && int_of(right@) == -1),
        ensures
            r@ == SDataType::Integer(trunc_rem(int_of(self@), int_of(right@))),
    {
        match (self, right) {
            (DataType::Integer(a), DataType::Integer(b)) => DataType::Integer(int_rem(a, b)),
            _ => {
                proof {
                    assert(false);
                }
                DataType::Integer(0)
            },
        }
    }
}

/// Whether a value holds no float, inside its arrays too.
pub open spec fn no_float(d: SDataType) -> bool
    decreases d, 1int,
{
    match d {
        SDataType::Float(_) => false,
        SDataType::Array(a) => items_no_float(a, a.len() as int),
        _ => true,
    }
}

/// Whether the first `n` items of an array hold no float.
pub open spec fn items_no_float(a: Seq<SDataType>, n: int) -> bool
    decreases a, n,
{
    if n <= 0 || n > a.len() {
        true
    } else {
        items_no_float(a, n - 1) && no_float(a[n - 1])
    }
}

/// How a value is printed: `t` or `f`, an integer in decimal, a char or a
/// string as it is, an array as its items one after the other, and `NYI`
/// for a function. (A float prints from its value, which is the caller's.)
pub open spec fn display_text(d: SDataType) -> Seq<char>
    decreases d, 1int,
{
    match d {
        SDataType::Bool(b) => if b {
            seq!['t']
        } else {
            seq!['f']
        },
        SDataType::Integer(i) => int_text(i),
        SDataType::Float(_) => Seq::empty(),
        SDataType::Char(c) => seq![c],
        SDataType::String(s) => s,
        SDataType::Array(a) => display_items(a, a.len() as int),
        SDataType::Function(_, _) => seq!['N', 'Y', 'I'],
    }
}

/// The first `n` items of an array printed one after the other.
pub open spec fn display_items(a: Seq<SDataType>, n: int) -> Seq<char>
    decreases a, n,
{
    if n <= 0 || n > a.len() {
        Seq::empty()
    } else {
        display_items(a, n - 1) + display_text(a[n - 1])
    }
}

proof fn lemma_items_no_float(a: Seq<SDataType>, n: int, i: int)
    requires
        items_no_float(a, n),
        0 <= i < n <= a.len(),
    ensures
        no_float(a[i]),
    decreases n,
{
    if i < n - 1 {
        lemma_items_no_float(a, n - 1, i);
    }
}

impl DataType {
    /// Whether the value is or holds a float.
    pub fn holds_float(&self) -> (r: bool)
        ensures
            r == !no_float(self@),
        decreases view_data(*self),
    {
        match self {
            DataType::Float(_) => true,
            DataType::Array(items) => {
                assert(decreases_to!(view_data(*self) => view_data(*self)->Array_0));
                let mut i: usize = 0;
                while i < items.len()
                    invariant
                        i <= items@.len(),
                        self@ == SDataType::Array(view_datas(items@)),
                        view_datas(items@).len() == items@.len(),
                        decreases_to!(view_data(*self) => view_datas(items@)),
                        items_no_float(view_datas(items@), i as int),
                    decreases items.len() - i,
                {
                    proof {
                        assert(decreases_to!(view_datas(items@) => view_datas(items@)[i as int]));
                        assert(view_datas(items@)[i as int] == view_data(items@[i as int]));
                    }
                    if items[i].holds_float() {
                        proof {
                            if items_no_float(view_datas(items@), items@.len() as int) {
                                lemma_items_no_float(view_datas(items@), items@.len() as int, i as int);
                            }
                        }
                        return true;
                    }
                    i = i + 1;
                }
                false
            },
            _ => false,
        }
    }

    /// The text of a value that holds no float (see [`display_text`]).
    pub fn to_text(&self) -> (r: String)
        requires
            no_float(self@),
        ensures
            r@ == display_text(self@),
        decreases view_data(*self),
    {
        match self {
            DataType::Bool(b) => {
                let mut t = String::new();
                if *b {
                    push_char(&mut t, 't');
                } else {
                    push_char(&mut t, 'f');
                }
                assert(t@ =~= display_text(self@));
                t
            },
            DataType::Integer(i) => int_to_string(*i),
            DataType::Float(_) => String::new(),
            DataType::Char(c) => {
                let mut t = String::new();
                push_char(&mut t, *c);
                assert(t@ =~= seq![*c]);
                t
            },
            DataType::String(s) => s.clone(),
            DataType::Array(items) => {
                assert(decreases_to!(view_data(*self) => view_data(*self)->Array_0));
                let mut out = String::new();
                let mut i: usize = 0;
                while i < items.len()
                    invariant
                        i <= items@.len(),
                        self@ == SDataType::Array(view_datas(items@)),
                        view_datas(items@).len() == items@.len(),
                        decreases_to!(view_data(*self) => view_datas(items@)),
                        items_no_float(view_datas(items@), items@.len() as int),
                        out@ == display_items(view_datas(items@), i as int),
                    decreases items.len() - i,
                {
                    proof {
                        assert(decreases_to!(view_datas(items@) => view_datas(items@)[i as int]));
                        assert(view_datas(items@)[i as int] == view_data(items@[i as int]));
                        lemma_items_no_float(view_datas(items@), items@.len() as int, i as int);
                    }
                    let t = items[i].to_text();
                    out = concat(&out, &t);
                    i = i + 1;
                }
                out
            },
            DataType::Function(_, _) => {
                let mut t = String::new();
                push_char(&mut t, 'N');
                push_char(&mut t, 'Y');
                push_char(&mut t, 'I');
                assert(t@ =~= seq!['N', 'Y', 'I']);
                t
            },
        }
    }
}

/// Writing the empty text any number of times gives the empty text.
pub proof fn lemma_repeat_empty(s: Seq<char>, n: nat)
    requires
        s.len() == 0,
    ensures
        repeat(s, n) == Seq::<char>::empty(),
    decreases n,
{
    if n > 0 {
        lemma_repeat_empty(s, (n - 1) as nat);
        assert(repeat(s, n) =~= Seq::<char>::empty());
    }
}

} // verus!
