use vstd::prelude::*;

use crate::token::{DiagnosticView, LiteralView, ScanError, TokenType, TokenView};

verus! {

/// An ASCII decimal digit.
pub open spec fn is_digit(c: char) -> bool {
    '0' <= c && c <= '9'
}

/// A character that may start an identifier: an ASCII letter or `_`.
pub open spec fn is_alpha(c: char) -> bool {
    ('a' <= c && c <= 'z') || ('A' <= c && c <= 'Z') || c == '_'
}

/// A character that may continue an identifier.
pub open spec fn is_alphanumeric(c: char) -> bool {
    is_alpha(c) || is_digit(c)
}

/// A character that may continue a number: a digit or `.`.
pub open spec fn is_number_char(c: char) -> bool {
    is_digit(c) || c == '.'
}

pub open spec fn is_whitespace(c: char) -> bool {
    c == ' ' || c == '\r' || c == '\t' || c == '\n'
}

/// The kind of a one-character punctuation token.
pub open spec fn punctuation_kind(c: char) -> Option<TokenType> {
    if c == '(' {
        Some(TokenType::LEFT_PAREN)
    } else if c == ')' {
        Some(TokenType::RIGHT_PAREN)
    } else if c == '{' {
        Some(TokenType::LEFT_BRACE)
    } else if c == '}' {
        Some(TokenType::RIGHT_BRACE)
    } else if c == ',' {
        Some(TokenType::COMMA)
    } else if c == '.' {
        Some(TokenType::DOT)
    } else if c == '-' {
        Some(TokenType::MINUS)
    } else if c == '+' {
        Some(TokenType::PLUS)
    } else if c == ';' {
        Some(TokenType::SEMICOLON)
    } else if c == '/' {
        Some(TokenType::SLASH)
    } else if c == '*' {
        Some(TokenType::STAR)
    } else {
        None
    }
}

/// The kind of an operator that an `=` right after it may extend.
pub open spec fn operator_kind(c: char) -> Option<TokenType> {
    if c == '!' {
        Some(TokenType::BANG)
    } else if c == '=' {
        Some(TokenType::EQUAL)
    } else if c == '<' {
        Some(TokenType::LESS)
    } else if c == '>' {
        Some(TokenType::GREATER)
    } else {
        None
    }
}

pub open spec fn is_operator(k: TokenType) -> bool {
    k == TokenType::BANG || k == TokenType::EQUAL || k == TokenType::LESS || k
        == TokenType::GREATER
}

/// The two-character kind an operator becomes when `=` follows it.
pub open spec fn combined_kind(k: TokenType) -> TokenType {
    match k {
        TokenType::BANG => TokenType::BANG_EQUAL,
        TokenType::EQUAL => TokenType::EQUAL_EQUAL,
        TokenType::LESS => TokenType::LESS_EQUAL,
        TokenType::GREATER => TokenType::GREATER_EQUAL,
        _ => k,
    }
}

/// The kind of a word: its keyword when it spells one exactly, else `IDENTIFIER`.
pub open spec fn keyword_kind(w: Seq<char>) -> TokenType {
    if w == "and"@ {
        TokenType::AND
    } else if w == "class"@ {
        TokenType::CLASS
    } else if w == "else"@ {
        TokenType::ELSE
    } else if w == "false"@ {
        TokenType::FALSE
    } else if w == "for"@ {
        TokenType::FOR
    } else if w == "fun"@ {
        TokenType::FUN
    } else if w == "if"@ {
        TokenType::IF
    } else if w == "nil"@ {
        TokenType::NIL
    } else if w == "or"@ {
        TokenType::OR
    } else if w == "print"@ {
        TokenType::PRINT
    } else if w == "return"@ {
        TokenType::RETURN
    } else if w == "super"@ {
        TokenType::SUPER
    } else if w == "this"@ {
        TokenType::THIS
    } else if w == "true"@ {
        TokenType::TRUE
    } else if w == "var"@ {
        TokenType::VAR
    } else if w == "while"@ {
        TokenType::WHILE
    } else {
        TokenType::IDENTIFIER
    }
}

/// The end of the run of identifier characters that starts at `j`.
pub open spec fn identifier_end(s: Seq<char>, j: int) -> int
    decreases s.len() - j,
{
    if 0 <= j < s.len() && is_alphanumeric(s[j]) {
        identifier_end(s, j + 1)
    } else {
        j
    }
}

/// The end of the run of digits and points that starts at `j`.
pub open spec fn number_end(s: Seq<char>, j: int) -> int
    decreases s.len() - j,
{
    if 0 <= j < s.len() && is_number_char(s[j]) {
        number_end(s, j + 1)
    } else {
        j
    }
}

/// The first position at or after `j` that holds `"` or a line break, or the
/// end of the text.
pub open spec fn string_end(s: Seq<char>, j: int) -> int
    decreases s.len() - j,
{
    if 0 <= j < s.len() && s[j] != '"' && s[j] != '\n' {
        string_end(s, j + 1)
    } else {
        j
    }
}

/// The first position at or after `j` that holds a line break, or the end of
/// the text.
pub open spec fn line_end(s: Seq<char>, j: int) -> int
    decreases s.len() - j,
{
    if 0 <= j < s.len() && s[j] != '\n' {
        line_end(s, j + 1)
    } else {
        j
    }
}

/// The number of line breaks among the first `i` characters.
pub open spec fn newlines_before(s: Seq<char>, i: int) -> nat
    decreases i,
{
    if i <= 0 {
        0
    } else {
        newlines_before(s, i - 1) + if s[i - 1] == '\n' {
            1nat
        } else {
            0nat
        }
    }
}

pub proof fn lemma_newlines_bound(s: Seq<char>, i: int)
    ensures
        newlines_before(s, i) <= if i < 0 {
            0
        } else {
            i
        },
    decreases i,
{
    if i > 0 {
        lemma_newlines_bound(s, i - 1);
    }
}

/// The 1-based line of position `i`.
pub open spec fn line_at(s: Seq<char>, i: int) -> nat {
    newlines_before(s, i) + 1
}

/// The position of the first `.` in `w`, or its length when there is none.
pub open spec fn point_index(w: Seq<char>, j: int) -> int
    decreases w.len() - j,
{
    if 0 <= j < w.len() && w[j] != '.' {
        point_index(w, j + 1)
    } else {
        j
    }
}

/// `w` without its leading zeros, keeping one digit when all are zeros.
pub open spec fn strip_leading_zeros(w: Seq<char>) -> Seq<char>
    decreases w.len(),
{
    if w.len() > 1 && w[0] == '0' {
        strip_leading_zeros(w.drop_first())
    } else {
        w
    }
}

/// `w` without its trailing zeros.
pub open spec fn strip_trailing_zeros(w: Seq<char>) -> Seq<char>
    decreases w.len(),
{
    if w.len() > 0 && w.last() == '0' {
        strip_trailing_zeros(w.drop_last())
    } else {
        w
    }
}

/// The digits after the first point of a number lexeme (none when it has
/// no point).
pub open spec fn fraction_part(w: Seq<char>) -> Seq<char> {
    let p = point_index(w, 0);
    if p < w.len() {
        w.subrange(p + 1, w.len() as int)
    } else {
        Seq::empty()
    }
}

/// The value of a number lexeme: its whole and fractional digits in
/// canonical form. A lexeme with a second point has no value.
pub open spec fn number_value(w: Seq<char>) -> Option<LiteralView> {
    let f = fraction_part(w);
    if exists|k: int| 0 <= k < f.len() && f[k] == '.' {
        None
    } else {
        Some(
            LiteralView::Num(
                strip_leading_zeros(w.subrange(0, point_index(w, 0))),
                strip_trailing_zeros(f),
            ),
        )
    }
}

/// What reading the text at one position gives: at most one token or one
/// error, and the position where reading goes on.
pub struct Step {
    pub token: Option<TokenView>,
    pub error: Option<ScanError>,
    pub next: int,
}

pub open spec fn token_at(s: Seq<char>, kind: TokenType, from: int, to: int, literal: Option<
    LiteralView,
>) -> TokenView {
    TokenView { kind, lexeme: s.subrange(from, to), literal, line: line_at(s, from) }
}

pub open spec fn emit(t: TokenView, next: int) -> Step {
    Step { token: Some(t), error: None, next }
}

pub open spec fn skip(next: int) -> Step {
    Step { token: None, error: None, next }
}

pub open spec fn fail(e: ScanError, next: int) -> Step {
    Step { token: None, error: Some(e), next }
}

/// Reading the text at position `i`, which holds a character.
pub open spec fn step(s: Seq<char>, i: int) -> Step {
    let c = s[i];
    if c == '/' && i + 1 < s.len() && s[i + 1] == '/' {
        skip(line_end(s, i))
    } else if punctuation_kind(c) is Some {
        emit(token_at(s, punctuation_kind(c)->0, i, i + 1, None), i + 1)
    } else if operator_kind(c) is Some {
        let k = operator_kind(c)->0;
        if i + 1 < s.len() && s[i + 1] == '=' {
            emit(token_at(s, combined_kind(k), i, i + 2, None), i + 2)
        } else {
            emit(token_at(s, k, i, i + 1, None), i + 1)
        }
    } else if c == '"' {
        let close = string_end(s, i + 1);
        if close < s.len() && s[close] == '"' {
            let text = s.subrange(i + 1, close);
            emit(token_at(s, TokenType::STRING, i, close + 1, Some(LiteralView::Str(text))), close + 1)
        } else {
            fail(ScanError::UnterminatedString, close)
        }
    } else if is_whitespace(c) {
        skip(i + 1)
    } else if is_alpha(c) {
        let e = identifier_end(s, i + 1);
        emit(token_at(s, keyword_kind(s.subrange(i, e)), i, e, None), e)
    } else if is_digit(c) {
        let e = number_end(s, i + 1);
        emit(token_at(s, TokenType::NUMBER, i, e, number_value(s.subrange(i, e))), e)
    } else {
        fail(ScanError::UnexpectedCharacter(c), i + 1)
    }
}

pub open spec fn prepend<A>(x: Option<A>, rest: Seq<A>) -> Seq<A> {
    match x {
        Some(v) => seq![v] + rest,
        None => rest,
    }
}

/// The value `x` holds, as a sequence of at most one item.
pub open spec fn option_seq<A>(x: Option<A>) -> Seq<A> {
    prepend(x, Seq::empty())
}

pub open spec fn diagnostic_of(s: Seq<char>, i: int, e: Option<ScanError>) -> Option<
    DiagnosticView,
> {
    match e {
        Some(error) => Some(DiagnosticView { line: line_at(s, i), error }),
        None => None,
    }
}

/// The tokens and errors read from position `i` to the end of the text.
pub open spec fn scan_from(s: Seq<char>, i: int) -> (Seq<TokenView>, Seq<DiagnosticView>)
    decreases s.len() - i,
{
    if i < 0 || i >= s.len() {
        (Seq::empty(), Seq::empty())
    } else {
        let st = step(s, i);
        if st.next <= i || st.next > s.len() {
            // never taken: every step moves forward (see `lemma_step_advances`)
            (Seq::empty(), Seq::empty())
        } else {
            let rest = scan_from(s, st.next);
            (prepend(st.token, rest.0), prepend(diagnostic_of(s, i, st.error), rest.1))
        }
    }
}

/// The line of the last character, or 1 for an empty text.
pub open spec fn eof_line(s: Seq<char>) -> nat {
    if s.len() == 0 {
        1
    } else {
        line_at(s, s.len() - 1)
    }
}

pub open spec fn eof_token(s: Seq<char>) -> TokenView {
    TokenView { kind: TokenType::EOF, lexeme: Seq::empty(), literal: None, line: eof_line(s) }
}

/// The tokens a scan of `s` yields, ending with `EOF`.
pub open spec fn scanned_tokens(s: Seq<char>) -> Seq<TokenView> {
    scan_from(s, 0).0.push(eof_token(s))
}

/// The errors a scan of `s` reports, in the order they occur.
pub open spec fn scan_errors(s: Seq<char>) -> Seq<DiagnosticView> {
    scan_from(s, 0).1
}

pub proof fn lemma_identifier_end(s: Seq<char>, j: int)
    requires
        0 <= j,
    ensures
        j <= identifier_end(s, j),
        j <= s.len() ==> identifier_end(s, j) <= s.len(),
        forall|k: int| j <= k < identifier_end(s, j) ==> is_alphanumeric(#[trigger] s[k]),
    decreases s.len() - j,
{
    if 0 <= j < s.len() && is_alphanumeric(s[j]) {
        lemma_identifier_end(s, j + 1);
    }
}

pub proof fn lemma_number_end(s: Seq<char>, j: int)
    requires
        0 <= j,
    ensures
        j <= number_end(s, j),
        j <= s.len() ==> number_end(s, j) <= s.len(),
        forall|k: int| j <= k < number_end(s, j) ==> is_number_char(#[trigger] s[k]),
    decreases s.len() - j,
{
    if 0 <= j < s.len() && is_number_char(s[j]) {
        lemma_number_end(s, j + 1);
    }
}

pub proof fn lemma_string_end(s: Seq<char>, j: int)
    requires
        0 <= j,
    ensures
        j <= string_end(s, j),
        j <= s.len() ==> string_end(s, j) <= s.len(),
        forall|k: int| j <= k < string_end(s, j) ==> #[trigger] s[k] != '"' && s[k] != '\n',
    decreases s.len() - j,
{
    if 0 <= j < s.len() && s[j] != '"' && s[j] != '\n' {
        lemma_string_end(s, j + 1);
    }
}

pub proof fn lemma_line_end(s: Seq<char>, j: int)
    requires
        0 <= j,
    ensures
        j <= line_end(s, j),
        j <= s.len() ==> line_end(s, j) <= s.len(),
        forall|k: int| j <= k < line_end(s, j) ==> #[trigger] s[k] != '\n',
    decreases s.len() - j,
{
    if 0 <= j < s.len() && s[j] != '\n' {
        lemma_line_end(s, j + 1);
    }
}

/// Every step reads at least one character and stays within the text.
pub proof fn lemma_step_advances(s: Seq<char>, i: int)
    requires
        0 <= i < s.len(),
    ensures
        i < step(s, i).next <= s.len(),
{
    lemma_identifier_end(s, i + 1);
    lemma_number_end(s, i + 1);
    lemma_string_end(s, i + 1);
    lemma_line_end(s, i + 1);
    if s[i] == '/' {
        assert(line_end(s, i) == line_end(s, i + 1));
    }
}

} // verus!
