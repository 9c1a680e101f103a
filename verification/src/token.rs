//! The token model: the closed set of lexical categories, and the physical
//! token record of category, lexeme and source line.
use vstd::prelude::*;

verus! {

/// A lexical category. `Str` carries the text strictly between the quotes of
/// a string literal; `Number` carries the IEEE-754 bit pattern of the parsed
/// numeric literal.
pub enum TokenType {
    LeftParen,
    RightParen,
    LeftBrace,
    RightBrace,
    Comma,
    Dot,
    Minus,
    Plus,
    Semicolon,
    Slash,
    Star,
    Bang,
    BangEqual,
    Equal,
    EqualEqual,
    Greater,
    GreaterEqual,
    Less,
    LessEqual,
    Identifier,
    Str(String),
    Number(u64),
    And,
    Class,
    Else,
    False,
    Fun,
    For,
    If,
    Nil,
    Mut,
    Or,
    PrintLn,
    Return,
    Super,
    This,
    True,
    Let,
    Const,
    While,
    Eof,
}

/// The model of a lexical category: string payloads as character sequences.
pub enum TokenTypeModel {
    LeftParen,
    RightParen,
    LeftBrace,
    RightBrace,
    Comma,
    Dot,
    Minus,
    Plus,
    Semicolon,
    Slash,
    Star,
    Bang,
    BangEqual,
    Equal,
    EqualEqual,
    Greater,
    GreaterEqual,
    Less,
    LessEqual,
    Identifier,
    Str(Seq<char>),
    Number(u64),
    And,
    Class,
    Else,
    False,
    Fun,
    For,
    If,
    Nil,
    Mut,
    Or,
    PrintLn,
    Return,
    Super,
    This,
    True,
    Let,
    Const,
    While,
    Eof,
}

/// The model of a token: its category, the characters of its lexeme, and its
/// line.
pub struct TokenModel {
    pub ttype: TokenTypeModel,
    pub lexeme: Seq<char>,
    pub line: nat,
}

/// A lexical category with its payload forgotten; used wherever two token
/// categories are compared.
#[derive(PartialEq, Eq, Structural, Clone, Copy, Debug)]
pub enum TokenKind {
    LeftParen,
    RightParen,
    LeftBrace,
    RightBrace,
    Comma,
    Dot,
    Minus,
    Plus,
    Semicolon,
    Slash,
    Star,
    Bang,
    BangEqual,
    Equal,
    EqualEqual,
    Greater,
    GreaterEqual,
    Less,
    LessEqual,
    Identifier,
    Str,
    Number,
    And,
    Class,
    Else,
    False,
    Fun,
    For,
    If,
    Nil,
    Mut,
    Or,
    PrintLn,
    Return,
    Super,
    This,
    True,
    Let,
    Const,
    While,
    Eof,
}

impl TokenTypeModel {
    /// The category with its payload forgotten.
    pub open spec fn kind(self) -> TokenKind {
        match self {
            TokenTypeModel::LeftParen => TokenKind::LeftParen,
            TokenTypeModel::RightParen => TokenKind::RightParen,
            TokenTypeModel::LeftBrace => TokenKind::LeftBrace,
            TokenTypeModel::RightBrace => TokenKind::RightBrace,
            TokenTypeModel::Comma => TokenKind::Comma,
            TokenTypeModel::Dot => TokenKind::Dot,
            TokenTypeModel::Minus => TokenKind::Minus,
            TokenTypeModel::Plus => TokenKind::Plus,
            TokenTypeModel::Semicolon => TokenKind::Semicolon,
            TokenTypeModel::Slash => TokenKind::Slash,
            TokenTypeModel::Star => TokenKind::Star,
            TokenTypeModel::Bang => TokenKind::Bang,
            TokenTypeModel::BangEqual => TokenKind::BangEqual,
            TokenTypeModel::Equal => TokenKind::Equal,
            TokenTypeModel::EqualEqual => TokenKind::EqualEqual,
            TokenTypeModel::Greater => TokenKind::Greater,
            TokenTypeModel::GreaterEqual => TokenKind::GreaterEqual,
            TokenTypeModel::Less => TokenKind::Less,
            TokenTypeModel::LessEqual => TokenKind::LessEqual,
            TokenTypeModel::Identifier => TokenKind::Identifier,
            TokenTypeModel::Str(_) => TokenKind::Str,
            TokenTypeModel::Number(_) => TokenKind::Number,
            TokenTypeModel::And => TokenKind::And,
            TokenTypeModel::Class => TokenKind::Class,
            TokenTypeModel::Else => TokenKind::Else,
            TokenTypeModel::False => TokenKind::False,
            TokenTypeModel::Fun => TokenKind::Fun,
            TokenTypeModel::For => TokenKind::For,
            TokenTypeModel::If => TokenKind::If,
            TokenTypeModel::Nil => TokenKind::Nil,
            TokenTypeModel::Mut => TokenKind::Mut,
            TokenTypeModel::Or => TokenKind::Or,
            TokenTypeModel::PrintLn => TokenKind::PrintLn,
            TokenTypeModel::Return => TokenKind::Return,
            TokenTypeModel::Super => TokenKind::Super,
            TokenTypeModel::This => TokenKind::This,
            TokenTypeModel::True => TokenKind::True,
            TokenTypeModel::Let => TokenKind::Let,
            TokenTypeModel::Const => TokenKind::Const,
            TokenTypeModel::While => TokenKind::While,
            TokenTypeModel::Eof => TokenKind::Eof,
        }
    }
}

impl View for TokenType {
    type V = TokenTypeModel;

    open spec fn view(&self) -> TokenTypeModel {
        match self {
            TokenType::LeftParen => TokenTypeModel::LeftParen,
            TokenType::RightParen => TokenTypeModel::RightParen,
            TokenType::LeftBrace => TokenTypeModel::LeftBrace,
            TokenType::RightBrace => TokenTypeModel::RightBrace,
            TokenType::Comma => TokenTypeModel::Comma,
            TokenType::Dot => TokenTypeModel::Dot,
            TokenType::Minus => TokenTypeModel::Minus,
            TokenType::Plus => TokenTypeModel::Plus,
            TokenType::Semicolon => TokenTypeModel::Semicolon,
            TokenType::Slash => TokenTypeModel::Slash,
            TokenType::Star => TokenTypeModel::Star,
            TokenType::Bang => TokenTypeModel::Bang,
            TokenType::BangEqual => TokenTypeModel::BangEqual,
            TokenType::Equal => TokenTypeModel::Equal,
            TokenType::EqualEqual => TokenTypeModel::EqualEqual,
            TokenType::Greater => TokenTypeModel::Greater,
            TokenType::GreaterEqual => TokenTypeModel::GreaterEqual,
            TokenType::Less => TokenTypeModel::Less,
            TokenType::LessEqual => TokenTypeModel::LessEqual,
            TokenType::Identifier => TokenTypeModel::Identifier,
            TokenType::Str(s) => TokenTypeModel::Str(s@),
            TokenType::Number(n) => TokenTypeModel::Number(*n),
            TokenType::And => TokenTypeModel::And,
            TokenType::Class => TokenTypeModel::Class,
            TokenType::Else => TokenTypeModel::Else,
            TokenType::False => TokenTypeModel::False,
            TokenType::Fun => TokenTypeModel::Fun,
            TokenType::For => TokenTypeModel::For,
            TokenType::If => TokenTypeModel::If,
            TokenType::Nil => TokenTypeModel::Nil,
            TokenType::Mut => TokenTypeModel::Mut,
            TokenType::Or => TokenTypeModel::Or,
            TokenType::PrintLn => TokenTypeModel::PrintLn,
            TokenType::Return => TokenTypeModel::Return,
            TokenType::Super => TokenTypeModel::Super,
            TokenType::This => TokenTypeModel::This,
            TokenType::True => TokenTypeModel::True,
            TokenType::Let => TokenTypeModel::Let,
            TokenType::Const => TokenTypeModel::Const,
            TokenType::While => TokenTypeModel::While,
            TokenType::Eof => TokenTypeModel::Eof,
        }
    }
}

impl View for Token {
    type V = TokenModel;

    open spec fn view(&self) -> TokenModel {
        TokenModel { ttype: self.ttype@, lexeme: self.lexeme@, line: self.line as nat }
    }
}

impl TokenType {
    /// The category of this token with its payload forgotten.
    pub open spec fn spec_kind(&self) -> TokenKind {
        self@.kind()
    }

    /// The category of this token with its payload forgotten.
    #[verifier::when_used_as_spec(spec_kind)]
    pub fn kind(&self) -> (k: TokenKind)
        ensures
            k == self.spec_kind(),
    {
        match self {
            TokenType::LeftParen => TokenKind::LeftParen,
            TokenType::RightParen => TokenKind::RightParen,
            TokenType::LeftBrace => TokenKind::LeftBrace,
            TokenType::RightBrace => TokenKind::RightBrace,
            TokenType::Comma => TokenKind::Comma,
            TokenType::Dot => TokenKind::Dot,
            TokenType::Minus => TokenKind::Minus,
            TokenType::Plus => TokenKind::Plus,
            TokenType::Semicolon => TokenKind::Semicolon,
            TokenType::Slash => TokenKind::Slash,
            TokenType::Star => TokenKind::Star,
            TokenType::Bang => TokenKind::Bang,
            TokenType::BangEqual => TokenKind::BangEqual,
            TokenType::Equal => TokenKind::Equal,
            TokenType::EqualEqual => TokenKind::EqualEqual,
            TokenType::Greater => TokenKind::Greater,
            TokenType::GreaterEqual => TokenKind::GreaterEqual,
            TokenType::Less => TokenKind::Less,
            TokenType::LessEqual => TokenKind::LessEqual,
            TokenType::Identifier => TokenKind::Identifier,
            TokenType::Str(_) => TokenKind::Str,
            TokenType::Number(_) => TokenKind::Number,
            TokenType::And => TokenKind::And,
            TokenType::Class => TokenKind::Class,
            TokenType::Else => TokenKind::Else,
            TokenType::False => TokenKind::False,
            TokenType::Fun => TokenKind::Fun,
            TokenType::For => TokenKind::For,
            TokenType::If => TokenKind::If,
            TokenType::Nil => TokenKind::Nil,
            TokenType::Mut => TokenKind::Mut,
            TokenType::Or => TokenKind::Or,
            TokenType::PrintLn => TokenKind::PrintLn,
            TokenType::Return => TokenKind::Return,
            TokenType::Super => TokenKind::Super,
            TokenType::This => TokenKind::This,
            TokenType::True => TokenKind::True,
            TokenType::Let => TokenKind::Let,
            TokenType::Const => TokenKind::Const,
            TokenType::While => TokenKind::While,
            TokenType::Eof => TokenKind::Eof,
        }
    }

    /// An exact copy of this category, payload included.
    pub fn dup(&self) -> (r: TokenType)
        ensures
            r == *self,
    {
        match self {
            TokenType::LeftParen => TokenType::LeftParen,
            TokenType::RightParen => TokenType::RightParen,
            TokenType::LeftBrace => TokenType::LeftBrace,
            TokenType::RightBrace => TokenType::RightBrace,
            TokenType::Comma => TokenType::Comma,
            TokenType::Dot => TokenType::Dot,
            TokenType::Minus => TokenType::Minus,
            TokenType::Plus => TokenType::Plus,
            TokenType::Semicolon => TokenType::Semicolon,
            TokenType::Slash => TokenType::Slash,
            TokenType::Star => TokenType::Star,
            TokenType::Bang => TokenType::Bang,
            TokenType::BangEqual => TokenType::BangEqual,
            TokenType::Equal => TokenType::Equal,
            TokenType::EqualEqual => TokenType::EqualEqual,
            TokenType::Greater => TokenType::Greater,
            TokenType::GreaterEqual => TokenType::GreaterEqual,
            TokenType::Less => TokenType::Less,
            TokenType::LessEqual => TokenType::LessEqual,
            TokenType::Identifier => TokenType::Identifier,
            TokenType::Str(s) => TokenType::Str(s.clone()),
            TokenType::Number(n) => TokenType::Number(*n),
            TokenType::And => TokenType::And,
            TokenType::Class => TokenType::Class,
            TokenType::Else => TokenType::Else,
            TokenType::False => TokenType::False,
            TokenType::Fun => TokenType::Fun,
            TokenType::For => TokenType::For,
            TokenType::If => TokenType::If,
            TokenType::Nil => TokenType::Nil,
            TokenType::Mut => TokenType::Mut,
            TokenType::Or => TokenType::Or,
            TokenType::PrintLn => TokenType::PrintLn,
            TokenType::Return => TokenType::Return,
            TokenType::Super => TokenType::Super,
            TokenType::This => TokenType::This,
            TokenType::True => TokenType::True,
            TokenType::Let => TokenType::Let,
            TokenType::Const => TokenType::Const,
            TokenType::While => TokenType::While,
            TokenType::Eof => TokenType::Eof,
        }
    }
}

/// One token: its category, the source text it covers, and the source line
/// (counted from zero) on which it ends.
pub struct Token {
    pub ttype: TokenType,
    pub lexeme: String,
    pub line: usize,
}

impl Token {
    pub fn new(ttype: TokenType, lexeme: String, line: usize) -> (t: Token)
        ensures
            t.ttype == ttype,
            t.lexeme == lexeme,
            t.line == line,
    {
        Token { ttype, lexeme, line }
    }

    /// An exact copy of this token.
    pub fn dup(&self) -> (r: Token)
        ensures
            r == *self,
    {
        Token { ttype: self.ttype.dup(), lexeme: self.lexeme.clone(), line: self.line }
    }
}

} // verus!
