use vstd::prelude::*;
use super::error::Error;
use crate::lang::data_type::{DataType, SDataType};

verus! {

/// A node of the syntax tree. A float literal is kept as the text it was
/// written with. `Used` and `UsedVar` mark nodes that were already turned
/// into commands.
#[derive(Debug)]
pub enum Ast {
    Used,
    UsedVar(String),
    Comment(String),
    End,
    Var(String),
    Bool(bool),
    Integer(i64),
    Float(String),
    String(String),
    Array(Vec<Vec<Ast>>),
    Access(Vec<Ast>),
    ArrayPush,
    ArrayPop,
    Group(Vec<Ast>),
    // var, args, body
    Function(Box<Ast>, Vec<Vec<Ast>>, Vec<Ast>),
    If(Vec<Ast>),
    Assign,
    Equals,
    Add,
    Sub,
    Mul,
    Exp,
    Div,
    Rem,
    IoWrite,
    IoAppend,
    Return,
}

/// The mathematical value of an [`Ast`].
pub enum SAst {
    Used,
    UsedVar(Seq<char>),
    Comment(Seq<char>),
    End,
    Var(Seq<char>),
    Bool(bool),
    Integer(int),
    Float(Seq<char>),
    String(Seq<char>),
    Array(Seq<Seq<SAst>>),
    Access(Seq<SAst>),
    ArrayPush,
    ArrayPop,
    Group(Seq<SAst>),
    Function(Box<SAst>, Seq<Seq<SAst>>, Seq<SAst>),
    If(Seq<SAst>),
    Assign,
    Equals,
    Add,
    Sub,
    Mul,
    Exp,
    Div,
    Rem,
    IoWrite,
    IoAppend,
    Return,
}

pub open spec fn view_node(a: Ast) -> SAst
    decreases a,
{
    match a {
        Ast::Used => SAst::Used,
        Ast::UsedVar(s) => SAst::UsedVar(s@),
        Ast::Comment(s) => SAst::Comment(s@),
        Ast::End => SAst::End,
        Ast::Var(s) => SAst::Var(s@),
        Ast::Bool(b) => SAst::Bool(b),
        Ast::Integer(i) => SAst::Integer(i as int),
        Ast::Float(s) => SAst::Float(s@),
        Ast::String(s) => SAst::String(s@),
        Ast::Array(a) => SAst::Array(view_lists(a@)),
        Ast::Access(b) => SAst::Access(view_list(b@)),
        Ast::ArrayPush => SAst::ArrayPush,
        Ast::ArrayPop => SAst::ArrayPop,
        Ast::Group(b) => SAst::Group(view_list(b@)),
        Ast::Function(n, a, b) => SAst::Function(Box::new(view_node(*n)), view_lists(a@), view_list(b@)),
        Ast::If(b) => SAst::If(view_list(b@)),
        Ast::Assign => SAst::Assign,
        Ast::Equals => SAst::Equals,
        Ast::Add => SAst::Add,
        Ast::Sub => SAst::Sub,
        Ast::Mul => SAst::Mul,
        Ast::Exp => SAst::Exp,
        Ast::Div => SAst::Div,
        Ast::Rem => SAst::Rem,
        Ast::IoWrite => SAst::IoWrite,
        Ast::IoAppend => SAst::IoAppend,
        Ast::Return => SAst::Return,
    }
}

/// The view of a list of nodes.
pub open spec fn view_list(v: Seq<Ast>) -> Seq<SAst>
    decreases v,
{
    Seq::new(v.len(), |i: int| if 0 <= i < v.len() { view_node(v[i]) } else { SAst::End })
}

/// The view of a list of lists of nodes.
pub open spec fn view_lists(v: Seq<Vec<Ast>>) -> Seq<Seq<SAst>>
    decreases v,
{
    Seq::new(v.len(), |i: int| if 0 <= i < v.len() { view_list(v[i]@) } else { Seq::empty() })
}

impl View for Ast {
    type V = SAst;

    open spec fn view(&self) -> SAst {
        view_node(*self)
    }
}

pub proof fn lemma_view_list_push(v: Seq<Ast>, x: Ast)
    ensures
        view_list(v.push(x)) == view_list(v).push(view_node(x)),
{
    assert(view_list(v.push(x)) =~= view_list(v).push(view_node(x)));
}

pub proof fn lemma_view_lists_push(v: Seq<Vec<Ast>>, x: Vec<Ast>)
    ensures
        view_lists(v.push(x)) == view_lists(v).push(view_list(x@)),
{
    assert(view_lists(v.push(x)) =~= view_lists(v).push(view_list(x@)));
}

pub proof fn lemma_view_lists_empty()
    ensures
        view_list(Seq::empty()) == Seq::<SAst>::empty(),
        view_lists(Seq::empty()) == Seq::<Seq<SAst>>::empty(),
{
    assert(view_list(Seq::empty()) =~= Seq::<SAst>::empty());
    assert(view_lists(Seq::empty()) =~= Seq::<Seq<SAst>>::empty());
}

impl SAst {
    pub open spec fn spec_is_number(self) -> bool {
        self is Integer || self is Float
    }

    pub open spec fn spec_is_data(self) -> bool {
        self is Var || self.spec_is_number() || self is String || self is Bool
    }

    /// How strongly a node binds: the node of highest precedence in a
    /// statement is turned into commands first; 0 for nodes that are not
    /// operations.
    pub open spec fn spec_presedence(self) -> int {
        if self.spec_is_data() || self is Array || self is Group {
            1
        } else {
            match self {
                SAst::Return => 2,
                SAst::IoWrite | SAst::IoAppend | SAst::Assign | SAst::ArrayPush | SAst::ArrayPop => 3,
                SAst::If(_) => 4,
                SAst::Equals => 5,
                SAst::Add | SAst::Sub => 6,
                SAst::Mul | SAst::Div | SAst::Rem => 7,
                SAst::Exp => 8,
                SAst::Function(_, _, _) => 9,
                SAst::Access(_) => 10,
                _ => 0,
            }
        }
    }

    /// The operations that take an operand on each side.
    pub open spec fn spec_is_dyadic(self) -> bool {
        match self {
            SAst::ArrayPush | SAst::ArrayPop | SAst::Assign | SAst::Equals | SAst::Add | SAst::Sub
            | SAst::Mul | SAst::Exp | SAst::Div | SAst::Rem | SAst::IoWrite | SAst::IoAppend => true,
            _ => false,
        }
    }

    /// A function node whose body holds more than ends of lines: a
    /// definition, not a call.
    pub open spec fn spec_is_function_def(self) -> bool {
        match self {
            SAst::Function(_, _, body) => exists|i: int| 0 <= i < body.len() && !(body[i] is End),
            _ => false,
        }
    }
}

impl Ast {
    pub fn presedence(&self) -> (r: usize)
        ensures
            r == self@.spec_presedence(),
    {
        if self.is_data() || self.is_array() || self.is_group() {
            return 1;
        }
        match self {
            Ast::Return => 2,
            Ast::IoWrite | Ast::IoAppend | Ast::Assign | Ast::ArrayPush | Ast::ArrayPop => 3,
            Ast::If(_) => 4,
            Ast::Equals => 5,
            Ast::Add | Ast::Sub => 6,
            Ast::Mul | Ast::Div | Ast::Rem => 7,
            Ast::Exp => 8,
            Ast::Function(_, _, _) => 9,
            Ast::Access(_) => 10,
            _ => 0,
        }
    }

    pub fn is_end(&self) -> (r: bool)
        ensures
            r == self@ is End,
    {
        if let Ast::End = self {
            return true;
        }
        false
    }

    pub fn is_used(&self) -> (r: bool)
        ensures
            r == (self@ is Used || self@ is UsedVar),
    {
        match self {
            Ast::Used | Ast::UsedVar(_) => true,
            _ => false,
        }
    }

    pub fn is_bool(&self) -> (r: bool)
        ensures
            r == self@ is Bool,
    {
        if let Ast::Bool(_) = self {
            return true;
        }
        false
    }

    pub fn is_number(&self) -> (r: bool)
        ensures
            r == self@.spec_is_number(),
    {
        match self {
            Ast::Integer(_) | Ast::Float(_) => true,
            _ => false,
        }
    }

    pub fn is_string(&self) -> (r: bool)
        ensures
            r == self@ is String,
    {
        if let Ast::String(_) = self {
            return true;
        }
        false
    }

    pub fn is_data(&self) -> (r: bool)
        ensures
            r == self@.spec_is_data(),
    {
        self.is_var() || self.is_number() || self.is_string() || self.is_bool()
    }

    pub fn is_var(&self) -> (r: bool)
        ensures
            r == self@ is Var,
    {
        match self {
            Ast::Var(_) => true,
            _ => false,
        }
    }

    pub fn is_used_var(&self) -> (r: bool)
        ensures
            r == self@ is UsedVar,
    {
        match self {
            Ast::UsedVar(_) => true,
            _ => false,
        }
    }

    /// The name of a variable, used or not.
    pub fn get_var_name(&self) -> (r: Result<&str, Error>)
        ensures
            match self@ {
                SAst::Var(n) | SAst::UsedVar(n) => r matches Ok(x) && x@ == n,
                _ => r == Err::<&str, Error>(Error::AstNotVar("Token not a var")),
            },
    {
        match self {
            Ast::Var(name) | Ast::UsedVar(name) => Ok(name.as_str()),
            _ => Err(Error::AstNotVar("Token not a var")),
        }
    }

    pub fn is_group(&self) -> (r: bool)
        ensures
            r == self@ is Group,
    {
        if let Ast::Group(_) = self {
            return true;
        }
        false
    }

    /// The body of a group, to change in place.
    pub fn get_group_body_mut(&mut self) -> (r: Result<&mut Vec<Ast>, Error>)
        ensures
            match *old(self) {
                Ast::Group(body) => (r matches Ok(b) && *b == body && *final(self) == Ast::Group(
                    *final(b),
                )),
                _ => r == Err::<&mut Vec<Ast>, Error>(Error::InvalidGroup("Not a group"))
                    && *final(self) == *old(self),
            },
    {
        if let Ast::Group(body) = self {
            return Ok(body);
        }
        Err(Error::InvalidGroup("Not a group"))
    }

    pub fn is_array(&self) -> (r: bool)
        ensures
            r == self@ is Array,
    {
        if let Ast::Array(_) = self {
            return true;
        }
        false
    }

    /// The items of an array, to change in place.
    pub fn get_array_body_mut(&mut self) -> (r: Result<&mut Vec<Vec<Ast>>, Error>)
        ensures
            match *old(self) {
                Ast::Array(body) => (r matches Ok(b) && *b == body && *final(self) == Ast::Array(
                    *final(b),
                )),
                _ => r == Err::<&mut Vec<Vec<Ast>>, Error>(
                    Error::InvalidArray("Ast is not an array"),
                ) && *final(self) == *old(self),
            },
    {
        match self {
            Ast::Array(body) => Ok(body),
            _ => Err(Error::InvalidArray("Ast is not an array")),
        }
    }

    pub fn is_access(&self) -> (r: bool)
        ensures
            r == self@ is Access,
    {
        if let Ast::Access(_) = self {
            return true;
        }
        false
    }

    /// The body of an access, to change in place.
    pub fn get_access_body_mut(&mut self) -> (r: Result<&mut Vec<Ast>, Error>)
        ensures
            match *old(self) {
                Ast::Access(body) => (r matches Ok(b) && *b == body && *final(self) == Ast::Access(
                    *final(b),
                )),
                _ => r == Err::<&mut Vec<Ast>, Error>(Error::InvalidAccess("Ast is not an access"))
                    && *final(self) == *old(self),
            },
    {
        match self {
            Ast::Access(body) => Ok(body),
            _ => Err(Error::InvalidAccess("Ast is not an access")),
        }
    }

    pub fn is_function(&self) -> (r: bool)
        ensures
            r == self@ is Function,
    {
        match self {
            Ast::Function(_, _, _) => true,
            _ => false,
        }
    }

    pub fn is_function_def(&self) -> (r: bool)
        ensures
            r == self@.spec_is_function_def(),
    {
        match self {
            Ast::Function(_, _, body) => {
                let ghost vb = view_list(body@);
                let mut i: usize = 0;
                while i < body.len()
                    invariant
                        i <= body.len(),
                        vb == view_list(body@),
                        match self@ {
                            SAst::Function(_, _, b) => b == vb,
                            _ => false,
                        },
                        forall|j: int| 0 <= j < i ==> vb[j] is End,
                    decreases body.len() - i,
                {
                    assert(vb[i as int] == body@[i as int]@);
                    if !body[i].is_end() {
                        return true;
                    }
                    i = i + 1;
                }
                false
            },
            _ => false,
        }
    }

    /// The name of a function, when it is written as a variable.
    pub fn get_function_name(&self) -> (r: Result<&str, Error>)
        ensures
            match self@ {
                SAst::Function(n, _, _) => match *n {
                    SAst::Var(name) => r matches Ok(x) && x@ == name,
                    _ => r == Err::<&str, Error>(
                        Error::AstIsNotAFunction("Function name is not a var"),
                    ),
                },
                _ => r == Err::<&str, Error>(
                    Error::AstIsNotAFunction("Not a function cannot get name"),
                ),
            },
    {
        match self {
            Ast::Function(name_token, _, _) => {
                assert(self@->Function_0 == Box::new(view_node(**name_token)));
                match &**name_token {
                Ast::Var(name) => Ok(name.as_str()),
                    _ => Err(Error::AstIsNotAFunction("Function name is not a var")),
                }
            },
            _ => Err(Error::AstIsNotAFunction("Not a function cannot get name")),
        }
    }

    pub fn get_function_args(&self) -> (r: Result<&Vec<Vec<Ast>>, Error>)
        ensures
            match *self {
                Ast::Function(_, args, _) => r == Ok::<&Vec<Vec<Ast>>, Error>(&args),
                _ => r == Err::<&Vec<Vec<Ast>>, Error>(
                    Error::AstIsNotAFunction("Not a function cannot get function args"),
                ),
            },
    {
        match self {
            Ast::Function(_, args, _) => Ok(args),
            _ => Err(Error::AstIsNotAFunction("Not a function cannot get function args")),
        }
    }

    /// The arguments of a function, to change in place.
    pub fn get_function_args_mut(&mut self) -> (r: Result<&mut Vec<Vec<Ast>>, Error>)
        ensures
            match *old(self) {
                Ast::Function(n, args, body) => (r matches Ok(a) && *a == args && *final(self)
                    == Ast::Function(n, *final(a), body)),
                _ => r == Err::<&mut Vec<Vec<Ast>>, Error>(
                    Error::AstIsNotAFunction("Not a function cannot get function args mut"),
                ) && *final(self) == *old(self),
            },
    {
        match self {
            Ast::Function(_, args, _) => Ok(args),
            _ => Err(Error::AstIsNotAFunction("Not a function cannot get function args mut")),
        }
    }

    /// The body of a function, to change in place.
    pub fn get_function_body_mut(&mut self) -> (r: Result<&mut Vec<Ast>, Error>)
        ensures
            match *old(self) {
                Ast::Function(n, args, body) => (r matches Ok(b) && *b == body && *final(self)
                    == Ast::Function(n, args, *final(b))),
                _ => r == Err::<&mut Vec<Ast>, Error>(
                    Error::AstIsNotAFunction("Not a function cannot get function body"),
                ) && *final(self) == *old(self),
            },
    {
        match self {
            Ast::Function(_, _, body) => Ok(body),
            _ => Err(Error::AstIsNotAFunction("Not a function cannot get function body")),
        }
    }

    pub fn is_dyadic(&self) -> (r: bool)
        ensures
            r == self@.spec_is_dyadic(),
    {
        match self {
            Ast::ArrayPush
            | Ast::ArrayPop
            | Ast::Assign
            | Ast::Equals
            | Ast::Add
            | Ast::Sub
            | Ast::Mul
            | Ast::Exp
            | Ast::Div
            | Ast::Rem
            | Ast::IoWrite
            | Ast::IoAppend => true,
            _ => false,
        }
    }

    /// The operations that take one operand, on their left.
    pub fn is_monadic_left(&self) -> (r: bool)
        ensures
            r == (self@ is Return || self@ is Access),
    {
        match self {
            Ast::Return => true,
            Ast::Access(_) => true,
            _ => false,
        }
    }

    pub fn is_if(&self) -> (r: bool)
        ensures
            r == self@ is If,
    {
        if let Ast::If(_) = self {
            return true;
        }
        false
    }

    /// The body of an `if`, to change in place.
    pub fn get_if_body_mut(&mut self) -> (r: Result<&mut Vec<Ast>, Error>)
        ensures
            match *old(self) {
                Ast::If(body) => (r matches Ok(b) && *b == body && *final(self) == Ast::If(*final(b))),
                _ => r == Err::<&mut Vec<Ast>, Error>(Error::CannotGetIfBody("Not an if"))
                    && *final(self) == *old(self),
            },
    {
        if let Ast::If(body) = self {
            return Ok(body);
        }
        Err(Error::CannotGetIfBody("Not an if"))
    }

    pub fn is_assign(&self) -> (r: bool)
        ensures
            r == self@ is Assign,
    {
        if let Ast::Assign = self {
            return true;
        }
        false
    }

    /// The value that a literal node stands for; any other node is refused
    /// and handed back in the error.
    pub fn to_data_type(&self) -> (r: Result<DataType, Error>)
        ensures
            match ast_value(self@) {
                Some(d) => r matches Ok(v) && v@ == d,
                None => r matches Err(Error::CannotConvertToDataType(a, m)) && a@ == self@ && m
                    == "Cannot convert to data type",
            },
    {
        match self {
            Ast::Bool(b) => Ok(DataType::Bool(*b)),
            Ast::Integer(i) => Ok(DataType::Integer(*i)),
            Ast::Float(float) => Ok(DataType::Float(float.clone())),
            Ast::String(string) => Ok(DataType::String(string.clone())),
            _ => Err(Error::CannotConvertToDataType(self.deep_clone(), "Cannot convert to data type")),
        }
    }

    /// A copy of the node and of everything under it.
    pub fn deep_clone(&self) -> (r: Ast)
        ensures
            r@ == self@,
        decreases view_node(*self),
    {
        match self {
            Ast::Used => Ast::Used,
            Ast::UsedVar(s) => Ast::UsedVar(s.clone()),
            Ast::Comment(s) => Ast::Comment(s.clone()),
            Ast::End => Ast::End,
            Ast::Var(s) => Ast::Var(s.clone()),
            Ast::Bool(b) => Ast::Bool(*b),
            Ast::Integer(i) => Ast::Integer(*i),
            Ast::Float(s) => Ast::Float(s.clone()),
            Ast::String(s) => Ast::String(s.clone()),
            Ast::Array(a) => {
                assert(decreases_to!(view_node(*self) => view_node(*self)->Array_0));
                Ast::Array(clone_lists(a))
            },
            Ast::Access(b) => {
                assert(decreases_to!(view_node(*self) => view_node(*self)->Access_0));
                Ast::Access(clone_list(b))
            },
            Ast::ArrayPush => Ast::ArrayPush,
            Ast::ArrayPop => Ast::ArrayPop,
            Ast::Group(b) => {
                assert(decreases_to!(view_node(*self) => view_node(*self)->Group_0));
                Ast::Group(clone_list(b))
            },
            Ast::Function(n, a, b) => {
                assert(decreases_to!(view_node(*self) => view_node(*self)->Function_0));
                assert(decreases_to!(view_node(*self) => view_node(*self)->Function_1));
                assert(decreases_to!(view_node(*self) => view_node(*self)->Function_2));
                Ast::Function(Box::new((**n).deep_clone()), clone_lists(a), clone_list(b))
            },
            Ast::If(b) => {
                assert(decreases_to!(view_node(*self) => view_node(*self)->If_0));
                Ast::If(clone_list(b))
            },
            Ast::Assign => Ast::Assign,
            Ast::Equals => Ast::Equals,
            Ast::Add => Ast::Add,
            Ast::Sub => Ast::Sub,
            Ast::Mul => Ast::Mul,
            Ast::Exp => Ast::Exp,
            Ast::Div => Ast::Div,
            Ast::Rem => Ast::Rem,
            Ast::IoWrite => Ast::IoWrite,
            Ast::IoAppend => Ast::IoAppend,
            Ast::Return => Ast::Return,
        }
    }
}

/// The value that a literal node stands for.
pub open spec fn ast_value(a: SAst) -> Option<SDataType> {
    match a {
        SAst::Bool(b) => Some(SDataType::Bool(b)),
        SAst::Integer(i) => Some(SDataType::Integer(i)),
        SAst::Float(f) => Some(SDataType::Float(f)),
        SAst::String(s) => Some(SDataType::String(s)),
        _ => None,
    }
}

/// A copy of a list of nodes.
pub fn clone_list(v: &Vec<Ast>) -> (r: Vec<Ast>)
    ensures
        view_list(r@) == view_list(v@),
    decreases view_list(v@),
{
    let mut r: Vec<Ast> = Vec::new();
    let mut i: usize = 0;
    while i < v.len()
        invariant
            i <= v@.len(),
            view_list(r@) == view_list(v@).take(i as int),
        decreases v.len() - i,
    {
        proof {
            assert(decreases_to!(view_list(v@) => view_list(v@)[i as int]));
        }
        let a = v[i].deep_clone();
        proof {
            lemma_view_list_push(r@, a);
            assert(view_list(v@).take(i + 1) =~= view_list(v@).take(i as int).push(view_node(v@[i as int])));
        }
        r.push(a);
        i = i + 1;
    }
    assert(view_list(v@).take(v@.len() as int) =~= view_list(v@));
    r
}

/// A copy of a list of lists of nodes.
pub fn clone_lists(v: &Vec<Vec<Ast>>) -> (r: Vec<Vec<Ast>>)
    ensures
        view_lists(r@) == view_lists(v@),
    decreases view_lists(v@),
{
    let mut r: Vec<Vec<Ast>> = Vec::new();
    let mut i: usize = 0;
    while i < v.len()
        invariant
            i <= v@.len(),
            view_lists(r@) == view_lists(v@).take(i as int),
        decreases v.len() - i,
    {
        proof {
            assert(decreases_to!(view_lists(v@) => view_lists(v@)[i as int]));
        }
        let a = clone_list(&v[i]);
        proof {
            lemma_view_lists_push(r@, a);
            assert(view_lists(v@).take(i + 1) =~= view_lists(v@).take(i as int).push(view_list(v@[i as int]@)));
        }
        r.push(a);
        i = i + 1;
    }
    assert(view_lists(v@).take(v@.len() as int) =~= view_lists(v@));
    r
}

} // verus!
