use vstd::prelude::*;

verus! {

/// The lines of a block: each line is a list of tokens.
pub type TokenBody = Vec<Vec<Token>>;

/// A token of the lexer. A float literal is kept as the text it was
/// written with.
#[derive(Debug)]
pub enum Token {
    Comment(String),
    Integer(i64),
    Float(String),
    String(String),
    Var(String),
    Group(TokenBody),
    Block(TokenBody),
    Add,
    Sub,
    Return,
    Assign,
    Equals,
    EqualsGreater,
    EqualsLess,
    Less,
    Greater,
    Not,
    NotEquals,
    IoWrite,
    IoAppend,
    CallSelf,
    If,
}

/// The mathematical value of a [`Token`].
pub enum SToken {
    Comment(Seq<char>),
    Integer(int),
    Float(Seq<char>),
    String(Seq<char>),
    Var(Seq<char>),
    Group(Seq<Seq<SToken>>),
    Block(Seq<Seq<SToken>>),
    Add,
    Sub,
    Return,
    Assign,
    Equals,
    EqualsGreater,
    EqualsLess,
    Less,
    Greater,
    Not,
    NotEquals,
    IoWrite,
    IoAppend,
    CallSelf,
    If,
}

pub open spec fn view_token(t: Token) -> SToken
    decreases t,
{
    match t {
        Token::Comment(s) => SToken::Comment(s@),
        Token::Integer(i) => SToken::Integer(i as int),
        Token::Float(s) => SToken::Float(s@),
        Token::String(s) => SToken::String(s@),
        Token::Var(s) => SToken::Var(s@),
        Token::Group(b) => SToken::Group(view_tbody(b@)),
        Token::Block(b) => SToken::Block(view_tbody(b@)),
        Token::Add => SToken::Add,
        Token::Sub => SToken::Sub,
        Token::Return => SToken::Return,
        Token::Assign => SToken::Assign,
        Token::Equals => SToken::Equals,
        Token::EqualsGreater => SToken::EqualsGreater,
        Token::EqualsLess => SToken::EqualsLess,
        Token::Less => SToken::Less,
        Token::Greater => SToken::Greater,
        Token::Not => SToken::Not,
        Token::NotEquals => SToken::NotEquals,
        Token::IoWrite => SToken::IoWrite,
        Token::IoAppend => SToken::IoAppend,
        Token::CallSelf => SToken::CallSelf,
        Token::If => SToken::If,
    }
}

/// The view of one line of tokens.
pub open spec fn view_line(v: Seq<Token>) -> Seq<SToken>
    decreases v,
{
    Seq::new(v.len(), |i: int| if 0 <= i < v.len() { view_token(v[i]) } else { SToken::Add })
}

/// The view of a block of lines.
pub open spec fn view_tbody(v: Seq<Vec<Token>>) -> Seq<Seq<SToken>>
    decreases v,
{
    Seq::new(v.len(), |i: int| if 0 <= i < v.len() { view_line(v[i]@) } else { Seq::empty() })
}

impl View for Token {
    type V = SToken;

    open spec fn view(&self) -> SToken {
        view_token(*self)
    }
}

pub proof fn lemma_view_line_push(v: Seq<Token>, x: Token)
    ensures
        view_line(v.push(x)) == view_line(v).push(view_token(x)),
{
    assert(view_line(v.push(x)) =~= view_line(v).push(view_token(x)));
}

pub proof fn lemma_view_tbody_push(v: Seq<Vec<Token>>, x: Vec<Token>)
    ensures
        view_tbody(v.push(x)) == view_tbody(v).push(view_line(x@)),
{
    assert(view_tbody(v.push(x)) =~= view_tbody(v).push(view_line(x@)));
}

pub proof fn lemma_view_tokens_empty()
    ensures
        view_line(Seq::empty()) == Seq::<SToken>::empty(),
        view_tbody(Seq::empty()) == Seq::<Seq<SToken>>::empty(),
{
    assert(view_line(Seq::empty()) =~= Seq::<SToken>::empty());
    assert(view_tbody(Seq::empty()) =~= Seq::<Seq<SToken>>::empty());
}

impl Token {
    /// A copy of the token and of every token inside it.
    pub fn deep_clone(&self) -> (r: Token)
        ensures
            r@ == self@,
        decreases view_token(*self),
    {
        match self {
            Token::Comment(s) => Token::Comment(s.clone()),
            Token::Integer(i) => Token::Integer(*i),
            Token::Float(s) => Token::Float(s.clone()),
            Token::String(s) => Token::String(s.clone()),
            Token::Var(s) => Token::Var(s.clone()),
            Token::Group(b) => {
                assert(self@ == SToken::Group(view_tbody(b@)));
                assert(decreases_to!(view_token(*self) => view_token(*self)->Group_0));
                Token::Group(clone_tbody(b))
            },
            Token::Block(b) => {
                assert(self@ == SToken::Block(view_tbody(b@)));
                assert(decreases_to!(view_token(*self) => view_token(*self)->Block_0));
                Token::Block(clone_tbody(b))
            },
            Token::Add => Token::Add,
            Token::Sub => Token::Sub,
            Token::Return => Token::Return,
            Token::Assign => Token::Assign,
            Token::Equals => Token::Equals,
            Token::EqualsGreater => Token::EqualsGreater,
            Token::EqualsLess => Token::EqualsLess,
            Token::Less => Token::Less,
            Token::Greater => Token::Greater,
            Token::Not => Token::Not,
            Token::NotEquals => Token::NotEquals,
            Token::IoWrite => Token::IoWrite,
            Token::IoAppend => Token::IoAppend,
            Token::CallSelf => Token::CallSelf,
            Token::If => Token::If,
        }
    }
}

/// A copy of a line of tokens.
pub fn clone_line(v: &Vec<Token>) -> (r: Vec<Token>)
    ensures
        view_line(r@) == view_line(v@),
    decreases view_line(v@),
{
    let mut r: Vec<Token> = Vec::new();
    let mut i: usize = 0;
    while i < v.len()
        invariant
            i <= v@.len(),
            view_line(r@) == view_line(v@).take(i as int),
        decreases v.len() - i,
    {
        proof {
            assert(decreases_to!(view_line(v@) => view_line(v@)[i as int]));
        }
        let a = v[i].deep_clone();
        proof {
            lemma_view_line_push(r@, a);
            assert(view_line(v@).take(i + 1) =~= view_line(v@).take(i as int).push(
                view_token(v@[i as int]),
            ));
        }
        r.push(a);
        i = i + 1;
    }
    assert(view_line(v@).take(v@.len() as int) =~= view_line(v@));
    r
}

/// A copy of a block of lines.
pub fn clone_tbody(v: &Vec<Vec<Token>>) -> (r: Vec<Vec<Token>>)
    ensures
        view_tbody(r@) == view_tbody(v@),
    decreases view_tbody(v@),
{
    let mut r: Vec<Vec<Token>> = Vec::new();
    let mut i: usize = 0;
    while i < v.len()
        invariant
            i <= v@.len(),
            view_tbody(r@) == view_tbody(v@).take(i as int),
        decreases v.len() - i,
    {
        proof {
            assert(decreases_to!(view_tbody(v@) => view_tbody(v@)[i as int]));
        }
        let a = clone_line(&v[i]);
        proof {
            lemma_view_tbody_push(r@, a);
            assert(view_tbody(v@).take(i + 1) =~= view_tbody(v@).take(i as int).push(
                view_line(v@[i as int]@),
            ));
        }
        r.push(a);
        i = i + 1;
    }
    assert(view_tbody(v@).take(v@.len() as int) =~= view_tbody(v@));
    r
}

} // verus!
