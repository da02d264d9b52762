use vstd::prelude::*;

verus! {

/// Every kind of token the scanner can produce.
#[allow(non_camel_case_types)]
#[derive(Debug, Clone, Copy, PartialEq, Eq, Structural)]
pub enum TokenType {
    // Single-character tokens.
    LEFT_PAREN,
    RIGHT_PAREN,
    LEFT_BRACE,
    RIGHT_BRACE,
    COMMA,
    DOT,
    MINUS,
    PLUS,
    SEMICOLON,
    SLASH,
    STAR,
    // One or two character tokens.
    BANG,
    BANG_EQUAL,
    EQUAL,
    EQUAL_EQUAL,
    GREATER,
    GREATER_EQUAL,
    LESS,
    LESS_EQUAL,
    // Literals.
    IDENTIFIER,
    STRING,
    NUMBER,
    // Keywords.
    AND,
    CLASS,
    ELSE,
    FALSE,
    FOR,
    FUN,
    IF,
    NIL,
    OR,
    PRINT,
    RETURN,
    SUPER,
    THIS,
    TRUE,
    VAR,
    WHILE,
    EOF,
}

/// A decimal number, kept exactly as written but in canonical form:
/// `whole` holds the digits before the point without leading zeros
/// (a lone `0` when the whole part is zero), `fraction` the digits after
/// it without trailing zeros.
#[derive(Debug, Clone, PartialEq)]
pub struct Number {
    pub whole: String,
    pub fraction: String,
}

/// The value a literal token carries.
#[derive(Debug, Clone, PartialEq)]
pub enum Literal {
    String(String),
    Number(Number),
    Bool(bool),
}

/// One token: its kind, the exact source text it was read from, the value
/// it carries, and the 1-based line it starts on.
#[derive(Debug, Clone, PartialEq)]
pub struct Token {
    pub token_type: TokenType,
    pub lexeme: String,
    pub literal: Option<Literal>,
    pub line: usize,
}

/// The two kinds of scan error.
#[derive(Debug, Clone, Copy, PartialEq, Eq, Structural)]
pub enum ScanError {
    UnterminatedString,
    UnexpectedCharacter(char),
}

/// The mathematical value of a `Diagnostic`.
pub struct DiagnosticView {
    pub line: nat,
    pub error: ScanError,
}

/// A scan error and the 1-based line it was found on.
#[derive(Debug, Clone, Copy, PartialEq, Eq, Structural)]
pub struct Diagnostic {
    pub line: usize,
    pub error: ScanError,
}

/// The mathematical value of a `Literal`.
pub enum LiteralView {
    Str(Seq<char>),
    Num(Seq<char>, Seq<char>),
    Bool(bool),
}

/// The mathematical value of a `Token`.
pub struct TokenView {
    pub kind: TokenType,
    pub lexeme: Seq<char>,
    pub literal: Option<LiteralView>,
    pub line: nat,
}

impl View for Literal {
    type V = LiteralView;

    open spec fn view(&self) -> LiteralView {
        match self {
            Literal::String(s) => LiteralView::Str(s@),
            Literal::Number(n) => LiteralView::Num(n.whole@, n.fraction@),
            Literal::Bool(b) => LiteralView::Bool(*b),
        }
    }
}

pub open spec fn literal_opt_view(l: Option<Literal>) -> Option<LiteralView> {
    match l {
        Some(v) => Some(v@),
        None => None,
    }
}

impl View for Token {
    type V = TokenView;

    open spec fn view(&self) -> TokenView {
        TokenView {
            kind: self.token_type,
            lexeme: self.lexeme@,
            literal: literal_opt_view(self.literal),
            line: self.line as nat,
        }
    }
}

impl View for Diagnostic {
    type V = DiagnosticView;

    open spec fn view(&self) -> DiagnosticView {
        DiagnosticView { line: self.line as nat, error: self.error }
    }
}

impl Token {
    pub fn new(token_type: TokenType, lexeme: String, literal: Option<Literal>, line: usize) -> (r:
        Token)
        ensures
            r.token_type == token_type,
            r.lexeme == lexeme,
            r.literal == literal,
            r.line == line,
    {
        Token { token_type, lexeme, literal, line }
    }
}

} // verus!
