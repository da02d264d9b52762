use vstd::prelude::*;

use crate::scanner::Lox;
use crate::text::push_char;
use crate::token::{
    Diagnostic, DiagnosticView, Literal, LiteralView, ScanError, Token, TokenType, TokenView,
};

verus! {

/// The name a kind is printed with.
pub open spec fn kind_name(k: TokenType) -> Seq<char> {
    match k {
        TokenType::LEFT_PAREN => "LEFT_PAREN"@,
        TokenType::RIGHT_PAREN => "RIGHT_PAREN"@,
        TokenType::LEFT_BRACE => "LEFT_BRACE"@,
        TokenType::RIGHT_BRACE => "RIGHT_BRACE"@,
        TokenType::COMMA => "COMMA"@,
        TokenType::DOT => "DOT"@,
        TokenType::MINUS => "MINUS"@,
        TokenType::PLUS => "PLUS"@,
        TokenType::SEMICOLON => "SEMICOLON"@,
        TokenType::SLASH => "SLASH"@,
        TokenType::STAR => "STAR"@,
        TokenType::BANG => "BANG"@,
        TokenType::BANG_EQUAL => "BANG_EQUAL"@,
        TokenType::EQUAL => "EQUAL"@,
        TokenType::EQUAL_EQUAL => "EQUAL_EQUAL"@,
        TokenType::GREATER => "GREATER"@,
        TokenType::GREATER_EQUAL => "GREATER_EQUAL"@,
        TokenType::LESS => "LESS"@,
        TokenType::LESS_EQUAL => "LESS_EQUAL"@,
        TokenType::IDENTIFIER => "IDENTIFIER"@,
        TokenType::STRING => "STRING"@,
        TokenType::NUMBER => "NUMBER"@,
        TokenType::AND => "AND"@,
        TokenType::CLASS => "CLASS"@,
        TokenType::ELSE => "ELSE"@,
        TokenType::FALSE => "FALSE"@,
        TokenType::FOR => "FOR"@,
        TokenType::FUN => "FUN"@,
        TokenType::IF => "IF"@,
        TokenType::NIL => "NIL"@,
        TokenType::OR => "OR"@,
        TokenType::PRINT => "PRINT"@,
        TokenType::RETURN => "RETURN"@,
        TokenType::SUPER => "SUPER"@,
        TokenType::THIS => "THIS"@,
        TokenType::TRUE => "TRUE"@,
        TokenType::VAR => "VAR"@,
        TokenType::WHILE => "WHILE"@,
        TokenType::EOF => "EOF"@,
    }
}

/// How a number is printed: its whole digits, a point, and its fraction,
/// or `0` when the fraction is empty.
pub open spec fn number_text(whole: Seq<char>, fraction: Seq<char>) -> Seq<char> {
    whole + seq!['.'] + if fraction.len() == 0 {
        seq!['0']
    } else {
        fraction
    }
}

/// How the literal slot of a token is printed.
pub open spec fn literal_text(l: Option<LiteralView>) -> Seq<char> {
    match l {
        None => "null"@,
        Some(LiteralView::Str(s)) => s,
        Some(LiteralView::Num(whole, fraction)) => number_text(whole, fraction),
        Some(LiteralView::Bool(b)) => if b {
            "true"@
        } else {
            "false"@
        },
    }
}

/// The line a token is printed as.
pub open spec fn render_token(t: TokenView) -> Seq<char> {
    if t.kind == TokenType::EOF {
        "EOF  null"@
    } else {
        kind_name(t.kind) + seq![' '] + t.lexeme + seq![' '] + literal_text(t.literal)
    }
}

pub open spec fn digit_char(d: nat) -> char {
    if d == 0 {
        '0'
    } else if d == 1 {
        '1'
    } else if d == 2 {
        '2'
    } else if d == 3 {
        '3'
    } else if d == 4 {
        '4'
    } else if d == 5 {
        '5'
    } else if d == 6 {
        '6'
    } else if d == 7 {
        '7'
    } else if d == 8 {
        '8'
    } else {
        '9'
    }
}

/// The decimal digits of `n`.
pub open spec fn decimal(n: nat) -> Seq<char>
    decreases n,
{
    if n < 10 {
        seq![digit_char(n)]
    } else {
        decimal(n / 10).push(digit_char(n % 10))
    }
}

pub open spec fn error_text(e: ScanError) -> Seq<char> {
    match e {
        ScanError::UnterminatedString => "Unterminated string."@,
        ScanError::UnexpectedCharacter(c) => "Unexpected character: "@.push(c),
    }
}

/// The line a scan error is reported with.
pub open spec fn message_text(d: DiagnosticView) -> Seq<char> {
    "[line "@ + decimal(d.line) + "] Error: "@ + error_text(d.error)
}

impl TokenType {
    /// The name this kind is printed with.
    pub fn name(&self) -> (r: &'static str)
        ensures
            r@ == kind_name(*self),
    {
        match self {
            TokenType::LEFT_PAREN => "LEFT_PAREN",
            TokenType::RIGHT_PAREN => "RIGHT_PAREN",
            TokenType::LEFT_BRACE => "LEFT_BRACE",
            TokenType::RIGHT_BRACE => "RIGHT_BRACE",
            TokenType::COMMA => "COMMA",
            TokenType::DOT => "DOT",
            TokenType::MINUS => "MINUS",
            TokenType::PLUS => "PLUS",
            TokenType::SEMICOLON => "SEMICOLON",
            TokenType::SLASH => "SLASH",
            TokenType::STAR => "STAR",
            TokenType::BANG => "BANG",
            TokenType::BANG_EQUAL => "BANG_EQUAL",
            TokenType::EQUAL => "EQUAL",
            TokenType::EQUAL_EQUAL => "EQUAL_EQUAL",
            TokenType::GREATER => "GREATER",
            TokenType::GREATER_EQUAL => "GREATER_EQUAL",
            TokenType::LESS => "LESS",
            TokenType::LESS_EQUAL => "LESS_EQUAL",
            TokenType::IDENTIFIER => "IDENTIFIER",
            TokenType::STRING => "STRING",
            TokenType::NUMBER => "NUMBER",
            TokenType::AND => "AND",
            TokenType::CLASS => "CLASS",
            TokenType::ELSE => "ELSE",
            TokenType::FALSE => "FALSE",
            TokenType::FOR => "FOR",
            TokenType::FUN => "FUN",
            TokenType::IF => "IF",
            TokenType::NIL => "NIL",
            TokenType::OR => "OR",
            TokenType::PRINT => "PRINT",
            TokenType::RETURN => "RETURN",
            TokenType::SUPER => "SUPER",
            TokenType::THIS => "THIS",
            TokenType::TRUE => "TRUE",
            TokenType::VAR => "VAR",
            TokenType::WHILE => "WHILE",
            TokenType::EOF => "EOF",
        }
    }
}

/// Appends the decimal digits of `n` to `out`.
fn push_decimal(out: &mut String, n: usize)
    ensures
        final(out)@ == old(out)@ + decimal(n as nat),
    decreases n,
{
    if n >= 10 {
        push_decimal(out, n / 10);
    }
    let d = n % 10;
    let c = if d == 0 {
        '0'
    } else if d == 1 {
        '1'
    } else if d == 2 {
        '2'
    } else if d == 3 {
        '3'
    } else if d == 4 {
        '4'
    } else if d == 5 {
        '5'
    } else if d == 6 {
        '6'
    } else if d == 7 {
        '7'
    } else if d == 8 {
        '8'
    } else {
        '9'
    };
    push_char(out, c);
    assert(final(out)@ =~= old(out)@ + decimal(n as nat));
}

impl Token {
    /// The line this token is printed as: its kind, its lexeme and its
    /// literal (`null` when it has none); `EOF  null` for the end token.
    pub fn render(&self) -> (r: String)
        ensures
            r@ == render_token(self@),
    {
        if self.token_type == TokenType::EOF {
            return String::from_str("EOF  null");
        }
        let mut out = String::from_str(self.token_type.name());
        push_char(&mut out, ' ');
        out.append(self.lexeme.as_str());
        push_char(&mut out, ' ');
        match &self.literal {
            None => out.append("null"),
            Some(Literal::String(s)) => out.append(s.as_str()),
            Some(Literal::Number(n)) => {
                out.append(n.whole.as_str());
                push_char(&mut out, '.');
                if n.fraction.as_str().is_empty() {
                    push_char(&mut out, '0');
                } else {
                    out.append(n.fraction.as_str());
                }
            },
            Some(Literal::Bool(b)) => {
                if *b {
                    out.append("true");
                } else {
                    out.append("false");
                }
            },
        }
        assert(out@ =~= render_token(self@));
        out
    }
}

impl Diagnostic {
    /// The line this error is reported with:
    /// `[line <n>] Error: <description>`.
    pub fn message(&self) -> (r: String)
        ensures
            r@ == message_text(self@),
    {
        let mut out = String::from_str("[line ");
        push_decimal(&mut out, self.line);
        out.append("] Error: ");
        match self.error {
            ScanError::UnterminatedString => out.append("Unterminated string."),
            ScanError::UnexpectedCharacter(c) => {
                out.append("Unexpected character: ");
                push_char(&mut out, c);
            },
        }
        assert(out@ =~= message_text(self@));
        out
    }
}

impl Lox {
    /// The output of the scan: one printed line per token, in order.
    pub fn output_lines(&self) -> (r: Vec<String>)
        ensures
            r@.len() == self@.tokens.len(),
            forall|k: int| 0 <= k < r@.len() ==> #[trigger] r@[k]@ == render_token(self@.tokens[k]),
    {
        let tokens = self.tokens();
        let mut lines: Vec<String> = Vec::new();
        let mut k: usize = 0;
        while k < tokens.len()
            invariant
                tokens@.map_values(|t: Token| t@) == self@.tokens,
                k <= tokens@.len(),
                lines@.len() == k,
                forall|m: int| 0 <= m < k ==> #[trigger] lines@[m]@ == render_token(self@.tokens[m]),
            decreases tokens@.len() - k,
        {
            lines.push(tokens[k].render());
            k = k + 1;
        }
        lines
    }

    /// The error report of the scan: one message per error, in order.
    pub fn error_lines(&self) -> (r: Vec<String>)
        ensures
            r@.len() == self@.diagnostics.len(),
            forall|k: int|
                0 <= k < r@.len() ==> #[trigger] r@[k]@ == message_text(self@.diagnostics[k]),
    {
        let diagnostics = self.diagnostics();
        let mut lines: Vec<String> = Vec::new();
        let mut k: usize = 0;
        while k < diagnostics.len()
            invariant
                diagnostics@.map_values(|d: Diagnostic| d@) == self@.diagnostics,
                k <= diagnostics@.len(),
                lines@.len() == k,
                forall|m: int|
                    0 <= m < k ==> #[trigger] lines@[m]@ == message_text(self@.diagnostics[m]),
            decreases diagnostics@.len() - k,
        {
            lines.push(diagnostics[k].message());
            k = k + 1;
        }
        lines
    }
}

} // verus!
