use vstd::prelude::*;
use crate::object::Object;

verus! {

/// The kind tag of a lexical token.
#[derive(Clone, Copy, PartialEq, Eq, Structural, Debug)]
pub enum TokenType {
    // single-character tokens
    LeftParen,
    RightParen,
    LeftBrace,
    RightBrace,
    Comma,
    Dot,
    Minus,
    Plus,
    SemiColon,
    Slash,
    Star,
    // one- or two-character tokens
    Bang,
    BangEqual,
    Assign,
    Equal,
    Greater,
    GreaterEqual,
    Less,
    LessEqual,
    // literals
    Identifier,
    String,
    Number,
    // keywords
    And,
    Class,
    Else,
    False,
    Fun,
    For,
    If,
    Nil,
    Or,
    Print,
    Return,
    Super,
    This,
    True,
    Var,
    While,
    Break,
    Eof,
}

/// A lexical token: a kind tag, the source text it covers, the literal value
/// it denotes (for number and string literals), and its source line.
#[derive(Debug)]
pub struct Token {
    pub ttype: TokenType,
    pub lexeme: String,
    pub literal: Option<Object>,
    pub line: usize,
}

impl Token {
    pub fn new(ttype: TokenType, lexeme: String, literal: Option<Object>, line: usize) -> (t: Token)
        ensures
            t.ttype == ttype,
            t.lexeme == lexeme,
            t.literal == literal,
            t.line == line,
    {
        Token { ttype, lexeme, literal, line }
    }

    /// Whether this token has the given kind tag.
    pub fn is(&self, ttype: &TokenType) -> (r: bool)
        ensures
            r == (self.ttype == *ttype),
    {
        self.ttype == *ttype
    }

    pub fn token_type(&self) -> (r: TokenType)
        ensures
            r == self.ttype,
    {
        self.ttype
    }

    /// The source text of the token.
    pub fn as_string(&self) -> (r: String)
        ensures
            r@ == self.lexeme@,
    {
        self.lexeme.clone()
    }

    /// A copy of the token, equal to the original in every field.
    pub fn dup(&self) -> (t: Token)
        ensures
            t == *self,
    {
        Token {
            ttype: self.ttype,
            lexeme: self.lexeme.clone(),
            literal: match &self.literal {
                Some(o) => Some(o.dup()),
                None => None,
            },
            line: self.line,
        }
    }

    /// The end-of-input sentinel token for the given line.
    pub fn eof(line: usize) -> (t: Token)
        ensures
            t.ttype == TokenType::Eof,
            t.literal is None,
            t.line == line,
            t.lexeme@ == "EOF"@,
    {
        Token {
            ttype: TokenType::Eof,
            lexeme: String::from_str("EOF"),
            literal: None,
            line,
        }
    }
}

impl Clone for Token {
    fn clone(&self) -> (t: Self)
        ensures
            t == *self,
    {
        self.dup()
    }
}

} // verus!
