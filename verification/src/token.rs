//! Tokens, their literal payloads, and the values a running program handles.

use vstd::prelude::*;

verus! {

#[derive(Default, Debug, Clone, Copy, PartialEq, Eq, Structural, Hash)]
pub enum TokenType {
    // Single character tokens
    LeftParen,
    RightParen,
    LeftBrace,
    RightBrace,
    Comma,
    Dot,
    Minus,
    Plus,
    Semicolon,
    Slash,
    Star,
    // One or two character tokens
    Bang,
    BangEqual,
    Equal,
    EqualEqual,
    Greater,
    GreaterEqual,
    Less,
    LessEqual,
    // Literals
    Identifier,
    String,
    Number,
    // Keywords
    And,
    Class,
    Else,
    False,
    Fun,
    For,
    If,
    Nil,
    Or,
    Print,
    Return,
    Super,
    This,
    True,
    Var,
    While,
    #[default]
    Eof,
}

/// What a token or a literal expression carries besides its spelling.
/// A number is kept as the numeral that was written, digits and at most one
/// point: turning it into a double is floating-point work.
#[derive(Debug, PartialEq, Eq)]
pub enum Literal {
    Nil,
    Bool(bool),
    Number(String),
    String(String),
    Identifier(String),
}

pub enum LiteralView {
    Nil,
    Bool(bool),
    Number(Seq<char>),
    String(Seq<char>),
    Identifier(Seq<char>),
}

impl View for Literal {
    type V = LiteralView;

    open spec fn view(&self) -> LiteralView {
        match self {
            Literal::Nil => LiteralView::Nil,
            Literal::Bool(b) => LiteralView::Bool(*b),
            Literal::Number(s) => LiteralView::Number(s@),
            Literal::String(s) => LiteralView::String(s@),
            Literal::Identifier(s) => LiteralView::Identifier(s@),
        }
    }
}

impl LiteralView {
    /// How the payload reads when written out.
    pub open spec fn text(self) -> Seq<char> {
        match self {
            LiteralView::Nil => "nil"@,
            LiteralView::Bool(b) => if b {
                "true"@
            } else {
                "false"@
            },
            LiteralView::Number(s) => s,
            LiteralView::String(s) => s,
            LiteralView::Identifier(s) => s,
        }
    }
}

impl Clone for Literal {
    fn clone(&self) -> (r: Self)
        ensures
            r == *self,
    {
        match self {
            Literal::Nil => Literal::Nil,
            Literal::Bool(b) => Literal::Bool(*b),
            Literal::Number(s) => Literal::Number(s.clone()),
            Literal::String(s) => Literal::String(s.clone()),
            Literal::Identifier(s) => Literal::Identifier(s.clone()),
        }
    }
}

impl Literal {
    pub fn text(&self) -> (r: String)
        ensures
            r@ == self@.text(),
    {
        match self {
            Literal::Nil => "nil".to_owned(),
            Literal::Bool(b) => if *b {
                "true".to_owned()
            } else {
                "false".to_owned()
            },
            Literal::Number(s) => s.clone(),
            Literal::String(s) => s.clone(),
            Literal::Identifier(s) => s.clone(),
        }
    }
}

#[derive(Default, Debug, PartialEq, Eq)]
pub struct Token {
    pub kind: TokenType,
    pub lexeme: String,
    pub literal: Option<Literal>,
    /// The line the token is on, counted from 1. A string that runs over
    /// several lines is on the line where it ends.
    pub line: usize,
    /// The column the token starts at, counted from 1.
    pub column: usize,
}

pub struct TokenView {
    pub kind: TokenType,
    pub lexeme: Seq<char>,
    pub literal: Option<LiteralView>,
    pub line: usize,
    pub column: usize,
}

impl View for Token {
    type V = TokenView;

    open spec fn view(&self) -> TokenView {
        TokenView {
            kind: self.kind,
            lexeme: self.lexeme@,
            literal: match self.literal {
                Some(l) => Some(l@),
                None => None,
            },
            line: self.line,
            column: self.column,
        }
    }
}

/// The fixed spelling of a punctuation mark or keyword; `eof` for the end
/// marker, and nothing for the three kinds whose text is their payload.
pub open spec fn kind_text(kind: TokenType) -> Seq<char> {
    match kind {
        TokenType::LeftParen => "("@,
        TokenType::RightParen => ")"@,
        TokenType::LeftBrace => "{"@,
        TokenType::RightBrace => "}"@,
        TokenType::Comma => ","@,
        TokenType::Dot => "."@,
        TokenType::Minus => "-"@,
        TokenType::Plus => "+"@,
        TokenType::Semicolon => ";"@,
        TokenType::Slash => "/"@,
        TokenType::Star => "*"@,
        TokenType::Bang => "!"@,
        TokenType::BangEqual => "!="@,
        TokenType::Equal => "="@,
        TokenType::EqualEqual => "=="@,
        TokenType::Greater => ">"@,
        TokenType::GreaterEqual => ">="@,
        TokenType::Less => "<"@,
        TokenType::LessEqual => "<="@,
        TokenType::And => "and"@,
        TokenType::Class => "class"@,
        TokenType::Else => "else"@,
        TokenType::False => "false"@,
        TokenType::Fun => "fun"@,
        TokenType::For => "for"@,
        TokenType::If => "if"@,
        TokenType::Nil => "nil"@,
        TokenType::Or => "or"@,
        TokenType::Print => "print"@,
        TokenType::Return => "return"@,
        TokenType::Super => "super"@,
        TokenType::This => "this"@,
        TokenType::True => "true"@,
        TokenType::Var => "var"@,
        TokenType::While => "while"@,
        TokenType::Eof => "eof"@,
        TokenType::Identifier | TokenType::String | TokenType::Number => Seq::empty(),
    }
}

pub open spec fn carries_text(kind: TokenType) -> bool {
    kind == TokenType::Identifier || kind == TokenType::String || kind == TokenType::Number
}

impl TokenView {
    pub open spec fn text(self) -> Seq<char> {
        if carries_text(self.kind) {
            match self.literal {
                Some(l) => l.text(),
                None => Seq::empty(),
            }
        } else {
            kind_text(self.kind)
        }
    }
}

impl Clone for Token {
    fn clone(&self) -> (r: Self)
        ensures
            r == *self,
    {
        Token {
            kind: self.kind,
            lexeme: self.lexeme.clone(),
            literal: match &self.literal {
                Some(l) => Some(l.clone()),
                None => None,
            },
            line: self.line,
            column: self.column,
        }
    }
}

impl Token {
    /// The token as it is shown in messages: the spelling of a mark or
    /// keyword, the payload of an identifier, string or number, and
    /// nothing where such a token has no payload.
    pub fn text(&self) -> (r: String)
        ensures
            r@ == self@.text(),
    {
        match self.kind {
            TokenType::LeftParen => "(".to_owned(),
            TokenType::RightParen => ")".to_owned(),
            TokenType::LeftBrace => "{".to_owned(),
            TokenType::RightBrace => "}".to_owned(),
            TokenType::Comma => ",".to_owned(),
            TokenType::Dot => ".".to_owned(),
            TokenType::Minus => "-".to_owned(),
            TokenType::Plus => "+".to_owned(),
            TokenType::Semicolon => ";".to_owned(),
            TokenType::Slash => "/".to_owned(),
            TokenType::Star => "*".to_owned(),
            TokenType::Bang => "!".to_owned(),
            TokenType::BangEqual => "!=".to_owned(),
            TokenType::Equal => "=".to_owned(),
            TokenType::EqualEqual => "==".to_owned(),
            TokenType::Greater => ">".to_owned(),
            TokenType::GreaterEqual => ">=".to_owned(),
            TokenType::Less => "<".to_owned(),
            TokenType::LessEqual => "<=".to_owned(),
            TokenType::And => "and".to_owned(),
            TokenType::Class => "class".to_owned(),
            TokenType::Else => "else".to_owned(),
            TokenType::False => "false".to_owned(),
            TokenType::Fun => "fun".to_owned(),
            TokenType::For => "for".to_owned(),
            TokenType::If => "if".to_owned(),
            TokenType::Nil => "nil".to_owned(),
            TokenType::Or => "or".to_owned(),
            TokenType::Print => "print".to_owned(),
            TokenType::Return => "return".to_owned(),
            TokenType::Super => "super".to_owned(),
            TokenType::This => "this".to_owned(),
            TokenType::True => "true".to_owned(),
            TokenType::Var => "var".to_owned(),
            TokenType::While => "while".to_owned(),
            TokenType::Eof => "eof".to_owned(),
            TokenType::Identifier | TokenType::String | TokenType::Number => {
                match &self.literal {
                    Some(l) => l.text(),
                    None => String::new(),
                }
            },
        }
    }
}

/// A value of a running program. Text, functions, classes and instances
/// live in the interpreter's heap and are named here by their slot, so a
/// value is small, copies freely, and two copies of an instance are the
/// same instance.
#[non_exhaustive]
#[derive(Default, Debug, Clone, Copy, PartialEq, Eq, Structural)]
pub enum Object {
    String(usize),
    /// The bit pattern of a double.
    Number(u64),
    Bool(bool),
    Callable(usize),
    Class(usize),
    Instance(usize),
    #[default]
    Nil,
}

impl Object {
    pub open spec fn truthy(self) -> bool {
        !(self is Nil || self == Object::Bool(false))
    }

    /// Everything is truthy but `nil` and `false`.
    pub fn is_truthy(&self) -> (r: bool)
        ensures
            r == self.truthy(),
    {
        match self {
            Object::Nil => false,
            Object::Bool(b) => *b,
            _ => true,
        }
    }
}

} // verus!
