use vstd::prelude::*;

verus! {

/// The arguments of a call, an array literal or a function definition:
/// each argument is a list of statements, each statement a list of nodes.
pub type AstArgs = Vec<Vec<Vec<Ast>>>;

/// A block: a list of statements, each a list of nodes.
pub type AstBody = Vec<Vec<Ast>>;

/// A node of the syntax tree as the parser produces it.
/// A float literal is kept as the text it was written with.
#[derive(Debug)]
pub enum Ast {
    End,
    Comment(String),
    Var(String),
    VarArg(String, usize),
    VarLocal(String, usize),
    Bool(bool),
    Integer(i64),
    Float(String),
    Char(char),
    String(String),
    Array(AstArgs),
    Access(AstBody),
    AccessAssign(AstBody, AstBody),
    Group(AstBody),
    // args, body
    Function(AstArgs, AstBody),
    // args
    FunctionCall(AstArgs),
    // body
    If(AstBody),
    Return,
    Assign(AstBody),
    Equals,
    Add,
    Concat,
    Sub,
    Mul,
    Div,
    Rem,
    Exp,
    IoWrite,
    IoAppend,
}

/// The mathematical value of an [`Ast`].
pub enum SAst {
    End,
    Comment(Seq<char>),
    Var(Seq<char>),
    VarArg(Seq<char>, int),
    VarLocal(Seq<char>, int),
    Bool(bool),
    Integer(int),
    Float(Seq<char>),
    Char(char),
    String(Seq<char>),
    Array(Seq<Seq<Seq<SAst>>>),
    Access(Seq<Seq<SAst>>),
    AccessAssign(Seq<Seq<SAst>>, Seq<Seq<SAst>>),
    Group(Seq<Seq<SAst>>),
    Function(Seq<Seq<Seq<SAst>>>, Seq<Seq<SAst>>),
    FunctionCall(Seq<Seq<Seq<SAst>>>),
    If(Seq<Seq<SAst>>),
    Return,
    Assign(Seq<Seq<SAst>>),
    Equals,
    Add,
    Concat,
    Sub,
    Mul,
    Div,
    Rem,
    Exp,
    IoWrite,
    IoAppend,
}

pub open spec fn view_ast(a: Ast) -> SAst
    decreases a,
{
    match a {
        Ast::End => SAst::End,
        Ast::Comment(s) => SAst::Comment(s@),
        Ast::Var(s) => SAst::Var(s@),
        Ast::VarArg(s, i) => SAst::VarArg(s@, i as int),
        Ast::VarLocal(s, i) => SAst::VarLocal(s@, i as int),
        Ast::Bool(b) => SAst::Bool(b),
        Ast::Integer(i) => SAst::Integer(i as int),
        Ast::Float(s) => SAst::Float(s@),
        Ast::Char(c) => SAst::Char(c),
        Ast::String(s) => SAst::String(s@),
        Ast::Array(a) => SAst::Array(view_args(a@)),
        Ast::Access(b) => SAst::Access(view_body(b@)),
        Ast::AccessAssign(b1, b2) => SAst::AccessAssign(view_body(b1@), view_body(b2@)),
        Ast::Group(b) => SAst::Group(view_body(b@)),
        Ast::Function(a, b) => SAst::Function(view_args(a@), view_body(b@)),
        Ast::FunctionCall(a) => SAst::FunctionCall(view_args(a@)),
        Ast::If(b) => SAst::If(view_body(b@)),
        Ast::Return => SAst::Return,
        Ast::Assign(b) => SAst::Assign(view_body(b@)),
        Ast::Equals => SAst::Equals,
        Ast::Add => SAst::Add,
        Ast::Concat => SAst::Concat,
        Ast::Sub => SAst::Sub,
        Ast::Mul => SAst::Mul,
        Ast::Div => SAst::Div,
        Ast::Rem => SAst::Rem,
        Ast::Exp => SAst::Exp,
        Ast::IoWrite => SAst::IoWrite,
        Ast::IoAppend => SAst::IoAppend,
    }
}

pub open spec fn view_stmt(v: Seq<Ast>) -> Seq<SAst>
    decreases v,
{
    Seq::new(v.len(), |i: int| if 0 <= i < v.len() { view_ast(v[i]) } else { SAst::End })
}

pub open spec fn view_body(v: Seq<Vec<Ast>>) -> Seq<Seq<SAst>>
    decreases v,
{
    Seq::new(v.len(), |i: int| if 0 <= i < v.len() { view_stmt(v[i]@) } else { Seq::empty() })
}

pub open spec fn view_args(v: Seq<Vec<Vec<Ast>>>) -> Seq<Seq<Seq<SAst>>>
    decreases v,
{
    Seq::new(v.len(), |i: int| if 0 <= i < v.len() { view_body(v[i]@) } else { Seq::empty() })
}

pub proof fn lemma_view_stmt_push(v: Seq<Ast>, x: Ast)
    ensures
        view_stmt(v.push(x)) == view_stmt(v).push(view_ast(x)),
{
    assert(view_stmt(v.push(x)) =~= view_stmt(v).push(view_ast(x)));
}

pub proof fn lemma_view_body_push(v: Seq<Vec<Ast>>, x: Vec<Ast>)
    ensures
        view_body(v.push(x)) == view_body(v).push(view_stmt(x@)),
{
    assert(view_body(v.push(x)) =~= view_body(v).push(view_stmt(x@)));
}

pub proof fn lemma_view_args_push(v: Seq<Vec<Vec<Ast>>>, x: Vec<Vec<Ast>>)
    ensures
        view_args(v.push(x)) == view_args(v).push(view_body(x@)),
{
    assert(view_args(v.push(x)) =~= view_args(v).push(view_body(x@)));
}

pub proof fn lemma_view_empty()
    ensures
        view_stmt(Seq::empty()) == Seq::<SAst>::empty(),
        view_body(Seq::empty()) == Seq::<Seq<SAst>>::empty(),
        view_args(Seq::empty()) == Seq::<Seq<Seq<SAst>>>::empty(),
{
    assert(view_stmt(Seq::empty()) =~= Seq::<SAst>::empty());
    assert(view_body(Seq::empty()) =~= Seq::<Seq<SAst>>::empty());
    assert(view_args(Seq::empty()) =~= Seq::<Seq<Seq<SAst>>>::empty());
}

impl View for Ast {
    type V = SAst;

    open spec fn view(&self) -> SAst {
        view_ast(*self)
    }
}

impl SAst {
    /// Whether reading this node ends the current line of the parser.
    pub open spec fn spec_add_end(self) -> bool {
        self is If
    }

    pub open spec fn spec_presedence(self) -> int {
        match self {
            SAst::End | SAst::Comment(_) => 0,
            SAst::Var(_) | SAst::VarLocal(_, _) | SAst::VarArg(_, _) | SAst::Bool(_)
            | SAst::Integer(_) | SAst::Float(_) | SAst::Char(_) | SAst::String(_)
            | SAst::Array(_) | SAst::Function(_, _) => 1,
            SAst::If(_) | SAst::Assign(_) | SAst::Return | SAst::IoWrite | SAst::IoAppend => 2,
            SAst::Equals | SAst::Concat => 3,
            SAst::Add | SAst::Sub => 4,
            SAst::Mul | SAst::Div | SAst::Rem => 5,
            SAst::Exp => 6,
            SAst::FunctionCall(_) => 7,
            SAst::Access(_) | SAst::AccessAssign(_, _) => 8,
            SAst::Group(_) => 9,
        }
    }

    pub open spec fn spec_is_var(self) -> bool {
        self is Var || self is VarArg || self is VarLocal
    }

    pub open spec fn spec_num_look_back(self) -> int {
        if self is Assign { 1 } else { 0 }
    }

    pub open spec fn spec_is_data(self) -> bool {
        self is Bool || self is Integer || self is Float || self is Char || self is String
            || self is Array || self is Function
    }

    pub open spec fn spec_can_call(self) -> bool {
        self is VarArg || self is VarLocal || self is Function
    }
}

impl Ast {
    pub fn add_end(&self) -> (r: bool)
        ensures
            r == self@.spec_add_end(),
    {
        match self {
            Ast::If(_) => true,
            _ => false,
        }
    }

    pub fn presedence(&self) -> (r: usize)
        ensures
            r as int == self@.spec_presedence(),
    {
        match self {
            Ast::End | Ast::Comment(_) => 0,
            Ast::Var(_) | Ast::VarLocal(_, _) | Ast::VarArg(_, _) | Ast::Bool(_) | Ast::Integer(_)
            | Ast::Float(_) | Ast::Char(_) | Ast::String(_) | Ast::Array(_) | Ast::Function(_, _) => 1,
            Ast::If(_) | Ast::Assign(_) | Ast::Return | Ast::IoWrite | Ast::IoAppend => 2,
            Ast::Equals | Ast::Concat => 3,
            Ast::Add | Ast::Sub => 4,
            Ast::Mul | Ast::Div | Ast::Rem => 5,
            Ast::Exp => 6,
            Ast::FunctionCall(_) => 7,
            Ast::Access(_) | Ast::AccessAssign(_, _) => 8,
            Ast::Group(_) => 9,
        }
    }

    pub fn has_var_name(&self) -> (r: Option<&String>)
        ensures
            self is Var <==> r is Some,
            r matches Some(name) ==> self@ == SAst::Var(name@),
    {
        if let Ast::Var(name) = self {
            return Some(name);
        }
        None
    }

    pub fn is_var(&self) -> (r: bool)
        ensures
            r == self@.spec_is_var(),
    {
        match self {
            Ast::Var(_) | Ast::VarArg(_, _) | Ast::VarLocal(_, _) => true,
            _ => false,
        }
    }

    pub fn is_array(&self) -> (r: Option<&AstArgs>)
        ensures
            self is Array <==> r is Some,
            r matches Some(items) ==> self@ == SAst::Array(view_args(items@)),
    {
        if let Ast::Array(items) = self {
            return Some(items);
        }
        None
    }

    pub fn is_access(&self) -> (r: Option<&AstBody>)
        ensures
            self is Access <==> r is Some,
            r matches Some(body) ==> self@ == SAst::Access(view_body(body@)),
    {
        if let Ast::Access(body) = self {
            return Some(body);
        }
        None
    }

    pub fn is_access_assign(&self) -> (r: Option<(&AstBody, &AstBody)>)
        ensures
            self is AccessAssign <==> r is Some,
            r matches Some((a, b)) ==> self@ == SAst::AccessAssign(view_body(a@), view_body(b@)),
    {
        if let Ast::AccessAssign(access_body, assign_body) = self {
            return Some((access_body, assign_body));
        }
        None
    }

    pub fn num_look_back(&self) -> (r: usize)
        ensures
            r as int == self@.spec_num_look_back(),
    {
        match self {
            Ast::Assign(_) => 1,
            _ => 0,
        }
    }

    pub fn is_group(&self) -> (r: Option<&AstBody>)
        ensures
            self is Group <==> r is Some,
            r matches Some(body) ==> self@ == SAst::Group(view_body(body@)),
    {
        if let Ast::Group(body) = self {
            return Some(body);
        }
        None
    }

    pub fn is_function_call(&self) -> (r: Option<&AstArgs>)
        ensures
            self is FunctionCall <==> r is Some,
            r matches Some(args) ==> self@ == SAst::FunctionCall(view_args(args@)),
    {
        if let Ast::FunctionCall(args) = self {
            return Some(args);
        }
        None
    }

    pub fn is_if(&self) -> (r: Option<&AstBody>)
        ensures
            self is If <==> r is Some,
            r matches Some(body) ==> self@ == SAst::If(view_body(body@)),
    {
        if let Ast::If(body) = self {
            return Some(body);
        }
        None
    }

    pub fn is_assign(&self) -> (r: Option<&AstBody>)
        ensures
            self is Assign <==> r is Some,
            r matches Some(body) ==> self@ == SAst::Assign(view_body(body@)),
    {
        if let Ast::Assign(body) = self {
            return Some(body);
        }
        None
    }

    pub fn is_data(&self) -> (r: bool)
        ensures
            r == self@.spec_is_data(),
    {
        match self {
            Ast::Bool(_) | Ast::Integer(_) | Ast::Float(_) | Ast::Char(_) | Ast::String(_)
            | Ast::Array(_) | Ast::Function(_, _) => true,
            _ => false,
        }
    }

    pub fn can_call(&self) -> (r: bool)
        ensures
            r == self@.spec_can_call(),
    {
        match self {
            Ast::VarArg(_, _) | Ast::VarLocal(_, _) | Ast::Function(_, _) => true,
            _ => false,
        }
    }

    /// Whether the node carries statements of its own: a condition, a
    /// function or a call.
    pub fn has_body(&self) -> (r: bool)
        ensures
            r == (self@ is If || self@ is Function || self@ is FunctionCall),
    {
        match self {
            Ast::If(_) | Ast::Function(_, _) | Ast::FunctionCall(_) => true,
            _ => false,
        }
    }
}


impl Ast {
    /// A copy of the node and everything under it.
    pub fn deep_clone(&self) -> (r: Ast)
        ensures
            r@ == self@,
        decreases view_ast(*self),
    {
        match self {
            Ast::End => Ast::End,
            Ast::Comment(s) => Ast::Comment(s.clone()),
            Ast::Var(s) => Ast::Var(s.clone()),
            Ast::VarArg(s, i) => Ast::VarArg(s.clone(), *i),
            Ast::VarLocal(s, i) => Ast::VarLocal(s.clone(), *i),
            Ast::Bool(b) => Ast::Bool(*b),
            Ast::Integer(i) => Ast::Integer(*i),
            Ast::Float(s) => Ast::Float(s.clone()),
            Ast::Char(c) => Ast::Char(*c),
            Ast::String(s) => Ast::String(s.clone()),
            Ast::Array(a) => {
                assert(self@ == SAst::Array(view_args(a@)));
                assert(decreases_to!(view_ast(*self) => view_ast(*self)->Array_0));
                Ast::Array(clone_args(a))
            },
            Ast::Access(b) => {
                assert(self@ == SAst::Access(view_body(b@)));
                assert(decreases_to!(view_ast(*self) => view_ast(*self)->Access_0));
                Ast::Access(clone_body(b))
            },
            Ast::AccessAssign(b1, b2) => {
                assert(self@ == SAst::AccessAssign(view_body(b1@), view_body(b2@)));
                assert(decreases_to!(view_ast(*self) => view_ast(*self)->AccessAssign_0));
                assert(decreases_to!(view_ast(*self) => view_ast(*self)->AccessAssign_1));
                Ast::AccessAssign(clone_body(b1), clone_body(b2))
            },
            Ast::Group(b) => {
                assert(self@ == SAst::Group(view_body(b@)));
                assert(decreases_to!(view_ast(*self) => view_ast(*self)->Group_0));
                Ast::Group(clone_body(b))
            },
            Ast::Function(a, b) => {
                assert(self@ == SAst::Function(view_args(a@), view_body(b@)));
                assert(decreases_to!(view_ast(*self) => view_ast(*self)->Function_0));
                assert(decreases_to!(view_ast(*self) => view_ast(*self)->Function_1));
                Ast::Function(clone_args(a), clone_body(b))
            },
            Ast::FunctionCall(a) => {
                assert(self@ == SAst::FunctionCall(view_args(a@)));
                assert(decreases_to!(view_ast(*self) => view_ast(*self)->FunctionCall_0));
                Ast::FunctionCall(clone_args(a))
            },
            Ast::If(b) => {
                assert(self@ == SAst::If(view_body(b@)));
                assert(decreases_to!(view_ast(*self) => view_ast(*self)->If_0));
                Ast::If(clone_body(b))
            },
            Ast::Return => Ast::Return,
            Ast::Assign(b) => {
                assert(self@ == SAst::Assign(view_body(b@)));
                assert(decreases_to!(view_ast(*self) => view_ast(*self)->Assign_0));
                Ast::Assign(clone_body(b))
            },
            Ast::Equals => Ast::Equals,
            Ast::Add => Ast::Add,
            Ast::Concat => Ast::Concat,
            Ast::Sub => Ast::Sub,
            Ast::Mul => Ast::Mul,
            Ast::Div => Ast::Div,
            Ast::Rem => Ast::Rem,
            Ast::Exp => Ast::Exp,
            Ast::IoWrite => Ast::IoWrite,
            Ast::IoAppend => Ast::IoAppend,
        }
    }
}

pub fn clone_stmt(v: &Vec<Ast>) -> (r: Vec<Ast>)
    ensures
        view_stmt(r@) == view_stmt(v@),
    decreases view_stmt(v@),
{
    let mut r: Vec<Ast> = Vec::new();
    let mut i: usize = 0;
    while i < v.len()
        invariant
            i <= v@.len(),
            view_stmt(r@) == view_stmt(v@).take(i as int),
        decreases v.len() - i,
    {
        proof {
            assert(decreases_to!(view_stmt(v@) => view_stmt(v@)[i as int]));
        }
        let a = v[i].deep_clone();
        proof {
            lemma_view_stmt_push(r@, a);
            assert(view_stmt(v@).take(i + 1) =~= view_stmt(v@).take(i as int).push(view_ast(v@[i as int])));
        }
        r.push(a);
        i = i + 1;
    }
    assert(view_stmt(v@).take(v@.len() as int) =~= view_stmt(v@));
    r
}

pub fn clone_body(v: &Vec<Vec<Ast>>) -> (r: Vec<Vec<Ast>>)
    ensures
        view_body(r@) == view_body(v@),
    decreases view_body(v@),
{
    let mut r: Vec<Vec<Ast>> = Vec::new();
    let mut i: usize = 0;
    while i < v.len()
        invariant
            i <= v@.len(),
            view_body(r@) == view_body(v@).take(i as int),
        decreases v.len() - i,
    {
        proof {
            assert(decreases_to!(view_body(v@) => view_body(v@)[i as int]));
        }
        let a = clone_stmt(&v[i]);
        proof {
            lemma_view_body_push(r@, a);
            assert(view_body(v@).take(i + 1) =~= view_body(v@).take(i as int).push(view_stmt(v@[i as int]@)));
        }
        r.push(a);
        i = i + 1;
    }
    assert(view_body(v@).take(v@.len() as int) =~= view_body(v@));
    r
}

pub fn clone_args(v: &Vec<Vec<Vec<Ast>>>) -> (r: Vec<Vec<Vec<Ast>>>)
    ensures
        view_args(r@) == view_args(v@),
    decreases view_args(v@),
{
    let mut r: Vec<Vec<Vec<Ast>>> = Vec::new();
    let mut i: usize = 0;
    while i < v.len()
        invariant
            i <= v@.len(),
            view_args(r@) == view_args(v@).take(i as int),
        decreases v.len() - i,
    {
        proof {
            assert(decreases_to!(view_args(v@) => view_args(v@)[i as int]));
        }
        let a = clone_body(&v[i]);
        proof {
            lemma_view_args_push(r@, a);
            assert(view_args(v@).take(i + 1) =~= view_args(v@).take(i as int).push(view_body(v@[i as int]@)));
        }
        r.push(a);
        i = i + 1;
    }
    assert(view_args(v@).take(v@.len() as int) =~= view_args(v@));
    r
}

/// The arithmetic operators.
pub open spec fn is_arith(a: SAst) -> bool {
    a is Add || a is Sub || a is Mul || a is Div || a is Rem || a is Exp
}

/// Operators bind in the usual order: output and assignment loosest, then
/// comparison, then `+` and `-`, then `*`, `/` and `%`, then `**`; operators
/// of one group bind equally. So `a + 1 == 2` is `(a + 1) == 2` and
/// `1 + 2 * 3` is `1 + (2 * 3)`.
pub proof fn law_precedence_order(a: SAst, b: SAst)
    ensures
        (a is IoWrite || a is IoAppend) && (b is Equals || is_arith(b)) ==> a.spec_presedence()
            < b.spec_presedence(),
        a is Equals && is_arith(b) ==> a.spec_presedence() < b.spec_presedence(),
        (a is Add || a is Sub) && (b is Mul || b is Div || b is Rem || b is Exp) ==> a.spec_presedence()
            < b.spec_presedence(),
        (a is Mul || a is Div || a is Rem) && b is Exp ==> a.spec_presedence() < b.spec_presedence(),
        (a is Add || a is Sub) && (b is Add || b is Sub) ==> a.spec_presedence() == b.spec_presedence(),
        (a is Mul || a is Div || a is Rem) && (b is Mul || b is Div || b is Rem) ==> a.spec_presedence()
            == b.spec_presedence(),
        is_arith(a) || a is Equals ==> a.spec_presedence() > 1,
{
}

} // verus!
