use vstd::prelude::*;

verus! {

/// The kinds of tokens.
#[derive(Debug, Clone, Copy, PartialEq, Eq, Structural)]
pub enum TokenKind {
    LeftParen,
    RightParen,
    LeftBrace,
    RightBrace,
    Comma,
    Dot,
    Minus,
    Plus,
    Semicolon,
    Slash,
    Star,
    // One or two character tokens.
    Bang,
    BangEqual,
    Equal,
    EqualEqual,
    Greater,
    GreaterEqual,
    Less,
    LessEqual,
    // Literals.
    Identifier,
    String,
    Number,
    // Keywords.
    And,
    Class,
    Else,
    False,
    Fun,
    For,
    If,
    Nil,
    Or,
    Print,
    Return,
    Super,
    This,
    True,
    Var,
    While,
    Eof,
}

/// The constant a token stands for. A number keeps no payload: its digits are
/// the token's lexeme, and the host that runs the program turns them into a
/// number.
#[derive(Debug)]
pub enum Literal {
    Nil,
    Bool(bool),
    Number,
    Str(String),
}

impl Clone for Literal {
    fn clone(&self) -> (copy: Self)
        ensures
            copy == *self,
    {
        match self {
            Literal::Nil => Literal::Nil,
            Literal::Bool(b) => Literal::Bool(*b),
            Literal::Number => Literal::Number,
            Literal::Str(text) => Literal::Str(text.clone()),
        }
    }
}

/// One lexeme of the source. `scanner_index` is the position of its first
/// character in the source and serves as the token's identity.
#[derive(Debug)]
pub struct Token {
    pub kind: TokenKind,
    pub lexeme: String,
    pub literal: Literal,
    pub line: usize,
    pub scanner_index: usize,
}

impl Clone for Token {
    fn clone(&self) -> (copy: Self)
        ensures
            copy == *self,
    {
        Token {
            kind: self.kind,
            lexeme: self.lexeme.clone(),
            literal: self.literal.clone(),
            line: self.line,
            scanner_index: self.scanner_index,
        }
    }
}

impl Token {
    /// Whether two tokens are the same token of one source text.
    pub open spec fn same(self, other: Token) -> bool {
        self.scanner_index == other.scanner_index
    }

    /// Whether two tokens are the same token of one source text.
    pub fn is_same(&self, other: &Token) -> (r: bool)
        ensures
            r == self.same(*other),
    {
        self.scanner_index == other.scanner_index
    }
}

/// What a token stands for, with a string's text as a sequence of characters.
pub ghost enum Constant {
    Nil,
    Bool(bool),
    Number,
    Str(Seq<char>),
}

/// A token as mathematics.
pub ghost struct Lexeme {
    pub kind: TokenKind,
    pub text: Seq<char>,
    pub literal: Constant,
    pub line: usize,
    pub scanner_index: usize,
}

/// What a token stands for, as mathematics.
pub open spec fn constant(literal: Literal) -> Constant {
    match literal {
        Literal::Nil => Constant::Nil,
        Literal::Bool(b) => Constant::Bool(b),
        Literal::Number => Constant::Number,
        Literal::Str(text) => Constant::Str(text@),
    }
}

impl View for Token {
    type V = Lexeme;

    open spec fn view(&self) -> Lexeme {
        Lexeme {
            kind: self.kind,
            text: self.lexeme@,
            literal: constant(self.literal),
            line: self.line,
            scanner_index: self.scanner_index,
        }
    }
}

/// A list of tokens as mathematics.
pub open spec fn lexemes(tokens: Seq<Token>) -> Seq<Lexeme> {
    Seq::new(tokens.len(), |i: int| tokens[i]@)
}

} // verus!
