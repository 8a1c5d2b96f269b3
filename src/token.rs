use vstd::prelude::*;

verus! {

/// The syntactic category of a token, without any payload.
#[derive(Clone, Copy, Debug, PartialEq, Eq, Structural)]
pub enum TokenTag {
    LeftParen,
    RightParen,
    LeftBrace,
    RightBrace,
    Comma,
    Dot,
    Minus,
    Plus,
    Semicolon,
    Slash,
    Star,
    Bang,
    BangEqual,
    Equal,
    EqualEqual,
    Greater,
    GreaterEqual,
    Less,
    LessEqual,
    Identifier,
    StringLiteral,
    Number,
    And,
    Class,
    Else,
    False,
    Fun,
    For,
    If,
    Nil,
    Or,
    Print,
    Return,
    Super,
    This,
    True,
    Var,
    While,
    Eof,
}

/// The kind of a token. Three kinds carry a payload: the text of an identifier,
/// the contents of a string literal (without its quotes), and the numeral of a
/// number literal as written in the source.
#[derive(Debug)]
pub enum TokenType {
    LeftParen,
    RightParen,
    LeftBrace,
    RightBrace,
    Comma,
    Dot,
    Minus,
    Plus,
    Semicolon,
    Slash,
    Star,
    Bang,
    BangEqual,
    Equal,
    EqualEqual,
    Greater,
    GreaterEqual,
    Less,
    LessEqual,
    Identifier(String),
    StringLiteral(String),
    Number(String),
    And,
    Class,
    Else,
    False,
    Fun,
    For,
    If,
    Nil,
    Or,
    Print,
    Return,
    Super,
    This,
    True,
    Var,
    While,
    Eof,
}

impl TokenType {
    /// The tag of this kind: the kind with its payload forgotten.
    pub open spec fn tag(&self) -> TokenTag {
        match self {
            TokenType::LeftParen => TokenTag::LeftParen,
            TokenType::RightParen => TokenTag::RightParen,
            TokenType::LeftBrace => TokenTag::LeftBrace,
            TokenType::RightBrace => TokenTag::RightBrace,
            TokenType::Comma => TokenTag::Comma,
            TokenType::Dot => TokenTag::Dot,
            TokenType::Minus => TokenTag::Minus,
            TokenType::Plus => TokenTag::Plus,
            TokenType::Semicolon => TokenTag::Semicolon,
            TokenType::Slash => TokenTag::Slash,
            TokenType::Star => TokenTag::Star,
            TokenType::Bang => TokenTag::Bang,
            TokenType::BangEqual => TokenTag::BangEqual,
            TokenType::Equal => TokenTag::Equal,
            TokenType::EqualEqual => TokenTag::EqualEqual,
            TokenType::Greater => TokenTag::Greater,
            TokenType::GreaterEqual => TokenTag::GreaterEqual,
            TokenType::Less => TokenTag::Less,
            TokenType::LessEqual => TokenTag::LessEqual,
            TokenType::Identifier(_) => TokenTag::Identifier,
            TokenType::StringLiteral(_) => TokenTag::StringLiteral,
            TokenType::Number(_) => TokenTag::Number,
            TokenType::And => TokenTag::And,
            TokenType::Class => TokenTag::Class,
            TokenType::Else => TokenTag::Else,
            TokenType::False => TokenTag::False,
            TokenType::Fun => TokenTag::Fun,
            TokenType::For => TokenTag::For,
            TokenType::If => TokenTag::If,
            TokenType::Nil => TokenTag::Nil,
            TokenType::Or => TokenTag::Or,
            TokenType::Print => TokenTag::Print,
            TokenType::Return => TokenTag::Return,
            TokenType::Super => TokenTag::Super,
            TokenType::This => TokenTag::This,
            TokenType::True => TokenTag::True,
            TokenType::Var => TokenTag::Var,
            TokenType::While => TokenTag::While,
            TokenType::Eof => TokenTag::Eof,
        }
    }

    /// The payload of a data-carrying kind; empty for the other kinds.
    pub open spec fn payload(&self) -> Seq<char> {
        match self {
            TokenType::Identifier(s) => s@,
            TokenType::StringLiteral(s) => s@,
            TokenType::Number(s) => s@,
            _ => Seq::empty(),
        }
    }

    /// Kind equality: true exactly when the tags agree, whatever the payloads.
    pub open spec fn kinds_equal(&self, other: &TokenType) -> bool {
        self.tag() == other.tag()
    }

    /// The tag of this kind.
    pub fn kind_tag(&self) -> (t: TokenTag)
        ensures
            t == self.tag(),
    {
        match self {
            TokenType::LeftParen => TokenTag::LeftParen,
            TokenType::RightParen => TokenTag::RightParen,
            TokenType::LeftBrace => TokenTag::LeftBrace,
            TokenType::RightBrace => TokenTag::RightBrace,
            TokenType::Comma => TokenTag::Comma,
            TokenType::Dot => TokenTag::Dot,
            TokenType::Minus => TokenTag::Minus,
            TokenType::Plus => TokenTag::Plus,
            TokenType::Semicolon => TokenTag::Semicolon,
            TokenType::Slash => TokenTag::Slash,
            TokenType::Star => TokenTag::Star,
            TokenType::Bang => TokenTag::Bang,
            TokenType::BangEqual => TokenTag::BangEqual,
            TokenType::Equal => TokenTag::Equal,
            TokenType::EqualEqual => TokenTag::EqualEqual,
            TokenType::Greater => TokenTag::Greater,
            TokenType::GreaterEqual => TokenTag::GreaterEqual,
            TokenType::Less => TokenTag::Less,
            TokenType::LessEqual => TokenTag::LessEqual,
            TokenType::Identifier(_) => TokenTag::Identifier,
            TokenType::StringLiteral(_) => TokenTag::StringLiteral,
            TokenType::Number(_) => TokenTag::Number,
            TokenType::And => TokenTag::And,
            TokenType::Class => TokenTag::Class,
            TokenType::Else => TokenTag::Else,
            TokenType::False => TokenTag::False,
            TokenType::Fun => TokenTag::Fun,
            TokenType::For => TokenTag::For,
            TokenType::If => TokenTag::If,
            TokenType::Nil => TokenTag::Nil,
            TokenType::Or => TokenTag::Or,
            TokenType::Print => TokenTag::Print,
            TokenType::Return => TokenTag::Return,
            TokenType::Super => TokenTag::Super,
            TokenType::This => TokenTag::This,
            TokenType::True => TokenTag::True,
            TokenType::Var => TokenTag::Var,
            TokenType::While => TokenTag::While,
            TokenType::Eof => TokenTag::Eof,
        }
    }

    /// Compares two kinds by tag only, so that a lookahead can ask for
    /// "a number of any value" or "a string of any contents".
    pub fn same_kind(&self, other: &TokenType) -> (r: bool)
        ensures
            r == self.kinds_equal(other),
    {
        self.kind_tag() == other.kind_tag()
    }
}

impl Clone for TokenType {
    fn clone(&self) -> (r: Self)
        ensures
            r == *self,
    {
        match self {
            TokenType::Identifier(s) => TokenType::Identifier(s.clone()),
            TokenType::StringLiteral(s) => TokenType::StringLiteral(s.clone()),
            TokenType::Number(s) => TokenType::Number(s.clone()),
            TokenType::LeftParen => TokenType::LeftParen,
            TokenType::RightParen => TokenType::RightParen,
            TokenType::LeftBrace => TokenType::LeftBrace,
            TokenType::RightBrace => TokenType::RightBrace,
            TokenType::Comma => TokenType::Comma,
            TokenType::Dot => TokenType::Dot,
            TokenType::Minus => TokenType::Minus,
            TokenType::Plus => TokenType::Plus,
            TokenType::Semicolon => TokenType::Semicolon,
            TokenType::Slash => TokenType::Slash,
            TokenType::Star => TokenType::Star,
            TokenType::Bang => TokenType::Bang,
            TokenType::BangEqual => TokenType::BangEqual,
            TokenType::Equal => TokenType::Equal,
            TokenType::EqualEqual => TokenType::EqualEqual,
            TokenType::Greater => TokenType::Greater,
            TokenType::GreaterEqual => TokenType::GreaterEqual,
            TokenType::Less => TokenType::Less,
            TokenType::LessEqual => TokenType::LessEqual,
            TokenType::And => TokenType::And,
            TokenType::Class => TokenType::Class,
            TokenType::Else => TokenType::Else,
            TokenType::False => TokenType::False,
            TokenType::Fun => TokenType::Fun,
            TokenType::For => TokenType::For,
            TokenType::If => TokenType::If,
            TokenType::Nil => TokenType::Nil,
            TokenType::Or => TokenType::Or,
            TokenType::Print => TokenType::Print,
            TokenType::Return => TokenType::Return,
            TokenType::Super => TokenType::Super,
            TokenType::This => TokenType::This,
            TokenType::True => TokenType::True,
            TokenType::Var => TokenType::Var,
            TokenType::While => TokenType::While,
            TokenType::Eof => TokenType::Eof,
        }
    }
}

impl PartialEq for TokenType {
    fn eq(&self, other: &TokenType) -> (r: bool) {
        self.same_kind(other)
    }
}

impl vstd::std_specs::cmp::PartialEqSpecImpl for TokenType {
    open spec fn obeys_eq_spec() -> bool {
        true
    }

    open spec fn eq_spec(&self, other: &TokenType) -> bool {
        self.kinds_equal(other)
    }
}

/// Kind equality ignores payloads: a data-carrying kind equals the same kind
/// with any other payload, and differs from every kind of another tag.
pub proof fn lemma_kinds_equal_ignores_payload(x: String, y: String, other: TokenType)
    ensures
        TokenType::Identifier(x).kinds_equal(&TokenType::Identifier(y)),
        TokenType::StringLiteral(x).kinds_equal(&TokenType::StringLiteral(y)),
        TokenType::Number(x).kinds_equal(&TokenType::Number(y)),
        other.tag() != TokenTag::Identifier ==> !TokenType::Identifier(x).kinds_equal(&other),
        other.tag() != TokenTag::StringLiteral ==> !TokenType::StringLiteral(x).kinds_equal(
            &other,
        ),
        other.tag() != TokenTag::Number ==> !TokenType::Number(x).kinds_equal(&other),
{
}

/// A token: its kind, the exact source text that produced it, and its line.
#[derive(Debug)]
pub struct Token {
    pub token_type: TokenType,
    pub lexeme: String,
    pub line: usize,
}

impl Clone for Token {
    fn clone(&self) -> (r: Self)
        ensures
            r == *self,
    {
        Token { token_type: self.token_type.clone(), lexeme: self.lexeme.clone(), line: self.line }
    }
}

impl Token {
    pub fn new(token_type: TokenType, lexeme: String, line: usize) -> (r: Token)
        ensures
            r.token_type == token_type,
            r.lexeme == lexeme,
            r.line == line,
    {
        Token { token_type, lexeme, line }
    }

    pub fn token_type(&self) -> (r: TokenType)
        ensures
            r == self.token_type,
    {
        self.token_type.clone()
    }

    pub fn lexeme(&self) -> (r: &str)
        ensures
            r@ == self.lexeme@,
    {
        self.lexeme.as_str()
    }

    pub fn line(&self) -> (r: usize)
        ensures
            r == self.line,
    {
        self.line
    }
}

} // verus!
