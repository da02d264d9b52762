use vstd::prelude::*;

use crate::spec::{
    combined_kind, diagnostic_of, fraction_part, identifier_end, is_alpha, is_alphanumeric,
    is_digit, is_operator, keyword_kind, lemma_identifier_end, lemma_newlines_bound,
    lemma_number_end, lemma_step_advances, lemma_string_end, line_at, line_end, newlines_before,
    number_end, number_value, operator_kind, option_seq, point_index, prepend, punctuation_kind,
    scan_errors, scan_from, scanned_tokens, step, string_end, strip_leading_zeros,
    strip_trailing_zeros,
};
use crate::text::{push_char, range_equals, string_of_range};
use crate::token::{
    Diagnostic, DiagnosticView, Literal, Number, ScanError, Token, TokenType, TokenView,
    literal_opt_view,
};

verus! {

fn is_digit_char(c: char) -> (r: bool)
    ensures
        r == is_digit(c),
{
    '0' <= c && c <= '9'
}

fn is_alpha_char(c: char) -> (r: bool)
    ensures
        r == is_alpha(c),
{
    ('a' <= c && c <= 'z') || ('A' <= c && c <= 'Z') || c == '_'
}

fn is_alphanumeric_char(c: char) -> (r: bool)
    ensures
        r == is_alphanumeric(c),
{
    is_alpha_char(c) || is_digit_char(c)
}

/// The end of the run of identifier characters that starts at `j`.
fn find_identifier_end(chars: &Vec<char>, j: usize) -> (r: usize)
    requires
        j <= chars@.len(),
    ensures
        r == identifier_end(chars@, j as int),
{
    let mut k = j;
    while k < chars.len() && is_alphanumeric_char(chars[k])
        invariant
            j <= k <= chars@.len(),
            identifier_end(chars@, k as int) == identifier_end(chars@, j as int),
        decreases chars@.len() - k,
    {
        k = k + 1;
    }
    k
}

/// The end of the run of digits and points that starts at `j`.
fn find_number_end(chars: &Vec<char>, j: usize) -> (r: usize)
    requires
        j <= chars@.len(),
    ensures
        r == number_end(chars@, j as int),
{
    let mut k = j;
    while k < chars.len() && (is_digit_char(chars[k]) || chars[k] == '.')
        invariant
            j <= k <= chars@.len(),
            number_end(chars@, k as int) == number_end(chars@, j as int),
        decreases chars@.len() - k,
    {
        k = k + 1;
    }
    k
}

/// The first position at or after `j` holding `"` or a line break.
fn find_string_end(chars: &Vec<char>, j: usize) -> (r: usize)
    requires
        j <= chars@.len(),
    ensures
        r == string_end(chars@, j as int),
{
    let mut k = j;
    while k < chars.len() && chars[k] != '"' && chars[k] != '\n'
        invariant
            j <= k <= chars@.len(),
            string_end(chars@, k as int) == string_end(chars@, j as int),
        decreases chars@.len() - k,
    {
        k = k + 1;
    }
    k
}

/// The first position at or after `j` holding a line break.
fn find_line_end(chars: &Vec<char>, j: usize) -> (r: usize)
    requires
        j <= chars@.len(),
    ensures
        r == line_end(chars@, j as int),
{
    let mut k = j;
    while k < chars.len() && chars[k] != '\n'
        invariant
            j <= k <= chars@.len(),
            line_end(chars@, k as int) == line_end(chars@, j as int),
        decreases chars@.len() - k,
    {
        k = k + 1;
    }
    k
}


/// The kind of the word `chars[from..to]`: its keyword, or `IDENTIFIER`.
fn keyword_kind_of(chars: &Vec<char>, from: usize, to: usize) -> (k: TokenType)
    requires
        from <= to <= chars@.len(),
    ensures
        k == keyword_kind(chars@.subrange(from as int, to as int)),
{
    if range_equals(chars, from, to, "and") {
        TokenType::AND
    } else if range_equals(chars, from, to, "class") {
        TokenType::CLASS
    } else if range_equals(chars, from, to, "else") {
        TokenType::ELSE
    } else if range_equals(chars, from, to, "false") {
        TokenType::FALSE
    } else if range_equals(chars, from, to, "for") {
        TokenType::FOR
    } else if range_equals(chars, from, to, "fun") {
        TokenType::FUN
    } else if range_equals(chars, from, to, "if") {
        TokenType::IF
    } else if range_equals(chars, from, to, "nil") {
        TokenType::NIL
    } else if range_equals(chars, from, to, "or") {
        TokenType::OR
    } else if range_equals(chars, from, to, "print") {
        TokenType::PRINT
    } else if range_equals(chars, from, to, "return") {
        TokenType::RETURN
    } else if range_equals(chars, from, to, "super") {
        TokenType::SUPER
    } else if range_equals(chars, from, to, "this") {
        TokenType::THIS
    } else if range_equals(chars, from, to, "true") {
        TokenType::TRUE
    } else if range_equals(chars, from, to, "var") {
        TokenType::VAR
    } else if range_equals(chars, from, to, "while") {
        TokenType::WHILE
    } else {
        TokenType::IDENTIFIER
    }
}

/// The value of the number lexeme `chars[from..to]`, if it has one.
fn number_literal(chars: &Vec<char>, from: usize, to: usize) -> (r: Option<Literal>)
    requires
        from <= to <= chars@.len(),
    ensures
        literal_opt_view(r) == number_value(chars@.subrange(from as int, to as int)),
{
    let ghost w = chars@.subrange(from as int, to as int);
    // the first point
    let mut p = from;
    while p < to && chars[p] != '.'
        invariant
            from <= p <= to <= chars@.len(),
            w == chars@.subrange(from as int, to as int),
            point_index(w, (p - from) as int) == point_index(w, 0),
        decreases to - p,
    {
        p = p + 1;
    }
    assert(point_index(w, (p - from) as int) == (p - from) as int);
    let ghost f = fraction_part(w);
    let frac_start = if p < to {
        p + 1
    } else {
        to
    };
    assert(f =~= chars@.subrange(frac_start as int, to as int));
    // a second point leaves the lexeme without a value
    let mut q = frac_start;
    while q < to
        invariant
            frac_start <= q <= to <= chars@.len(),
            w == chars@.subrange(from as int, to as int),
            f == fraction_part(w),
            f == chars@.subrange(frac_start as int, to as int),
            forall|k: int| 0 <= k < q - frac_start ==> f[k] != '.',
        decreases to - q,
    {
        if chars[q] == '.' {
            let ghost k = (q - frac_start) as int;
            assert(0 <= k < f.len() && f[k] == '.');
            return None;
        }
        q = q + 1;
    }
    // leading zeros of the whole part
    let mut a = from;
    while p - a > 1 && chars[a] == '0'
        invariant
            from <= a <= p <= to <= chars@.len(),
            a < p || a == from,
            strip_leading_zeros(chars@.subrange(a as int, p as int)) == strip_leading_zeros(
                chars@.subrange(from as int, p as int),
            ),
        decreases p - a,
    {
        assert(chars@.subrange(a as int, p as int).drop_first() =~= chars@.subrange(
            a + 1,
            p as int,
        ));
        a = a + 1;
    }
    assert(w.subrange(0, point_index(w, 0)) =~= chars@.subrange(from as int, p as int));
    // trailing zeros of the fraction
    let mut b = to;
    while b > frac_start && chars[b - 1] == '0'
        invariant
            frac_start <= b <= to <= chars@.len(),
            strip_trailing_zeros(chars@.subrange(frac_start as int, b as int))
                == strip_trailing_zeros(f),
        decreases b - frac_start,
    {
        assert(chars@.subrange(frac_start as int, b as int).drop_last() =~= chars@.subrange(
            frac_start as int,
            b - 1,
        ));
        b = b - 1;
    }
    let whole = string_of_range(chars, a, p);
    let fraction = string_of_range(chars, frac_start, b);
    Some(Literal::Number(Number { whole, fraction }))
}


/// Reads an operator `current_char` of kind `current_token` that
/// `next_symbol` follows: when that is `=` the two make one token and the
/// result says so, else the operator stands alone.
pub fn make_next(current_token: TokenType, current_char: char, next_symbol: char, line: usize) -> (r:
    (bool, Token))
    requires
        next_symbol == '=' ==> is_operator(current_token),
    ensures
        r.0 == (next_symbol == '='),
        r.0 ==> r.1@ == (TokenView {
            kind: combined_kind(current_token),
            lexeme: seq![current_char, next_symbol],
            literal: None,
            line: line as nat,
        }),
        !r.0 ==> r.1@ == (TokenView {
            kind: current_token,
            lexeme: seq![current_char],
            literal: None,
            line: line as nat,
        }),
{
    let mut lexeme = String::new();
    push_char(&mut lexeme, current_char);
    if next_symbol == '=' {
        let kind = match current_token {
            TokenType::BANG => TokenType::BANG_EQUAL,
            TokenType::EQUAL => TokenType::EQUAL_EQUAL,
            TokenType::LESS => TokenType::LESS_EQUAL,
            _ => TokenType::GREATER_EQUAL,
        };
        push_char(&mut lexeme, next_symbol);
        assert(lexeme@ =~= seq![current_char, next_symbol]);
        (true, Token::new(kind, lexeme, None, line))
    } else {
        assert(lexeme@ =~= seq![current_char]);
        (false, Token::new(current_token, lexeme, None, line))
    }
}

/// What a scan has produced so far: the tokens in order, and the errors
/// found on the way.
pub struct Lox {
    output: Vec<Token>,
    diagnostics: Vec<Diagnostic>,
}

pub struct LoxView {
    pub tokens: Seq<TokenView>,
    pub diagnostics: Seq<DiagnosticView>,
}

impl View for Lox {
    type V = LoxView;

    closed spec fn view(&self) -> LoxView {
        LoxView {
            tokens: self.output@.map_values(|t: Token| t@),
            diagnostics: self.diagnostics@.map_values(|d: Diagnostic| d@),
        }
    }
}

/// The exit status of a scan: 65 when it found an error, 0 otherwise.
pub open spec fn exit_status(had_error: bool) -> i32 {
    if had_error {
        65
    } else {
        0
    }
}

impl Lox {
    pub fn new() -> (r: Lox)
        ensures
            r@.tokens == Seq::<TokenView>::empty(),
            r@.diagnostics == Seq::<DiagnosticView>::empty(),
    {
        let r = Lox { output: Vec::new(), diagnostics: Vec::new() };
        assert(r@.tokens =~= Seq::<TokenView>::empty());
        assert(r@.diagnostics =~= Seq::<DiagnosticView>::empty());
        r
    }

    /// Appends a token to the output.
    pub fn add(&mut self, token: Token)
        ensures
            final(self)@.tokens == old(self)@.tokens.push(token@),
            final(self)@.diagnostics == old(self)@.diagnostics,
    {
        self.output.push(token);
        assert(self@.tokens =~= old(self)@.tokens.push(token@));
    }

    /// Records a scan error.
    pub fn report(&mut self, diagnostic: Diagnostic)
        ensures
            final(self)@.tokens == old(self)@.tokens,
            final(self)@.diagnostics == old(self)@.diagnostics.push(diagnostic@),
    {
        self.diagnostics.push(diagnostic);
        assert(self@.diagnostics =~= old(self)@.diagnostics.push(diagnostic@));
    }

    /// Whether any error has been recorded.
    pub fn had_error(&self) -> (r: bool)
        ensures
            r == (self@.diagnostics.len() > 0),
    {
        self.diagnostics.len() > 0
    }

    /// The exit status the scan ends with: 65 after an error, 0 otherwise.
    pub fn exit_code(&self) -> (r: i32)
        ensures
            r == exit_status(self@.diagnostics.len() > 0),
    {
        if self.had_error() {
            65
        } else {
            0
        }
    }

    pub fn tokens(&self) -> (r: &Vec<Token>)
        ensures
            r@.map_values(|t: Token| t@) == self@.tokens,
    {
        &self.output
    }

    pub fn diagnostics(&self) -> (r: &Vec<Diagnostic>)
        ensures
            r@.map_values(|d: Diagnostic| d@) == self@.diagnostics,
    {
        &self.diagnostics
    }
}


/// The characters of `source`, in order.
fn collect_chars(source: &str) -> (r: Vec<char>)
    ensures
        r@ == source@,
{
    let mut out: Vec<char> = Vec::new();
    for c in it: source.chars()
        invariant
            out@ == it.seq().take(it.index() as int),
            it.seq() == source@,
    {
        out.push(c);
    }
    out
}

fn punctuation_kind_of(c: char) -> (r: Option<TokenType>)
    ensures
        r == punctuation_kind(c),
{
    match c {
        '(' => Some(TokenType::LEFT_PAREN),
        ')' => Some(TokenType::RIGHT_PAREN),
        '{' => Some(TokenType::LEFT_BRACE),
        '}' => Some(TokenType::RIGHT_BRACE),
        ',' => Some(TokenType::COMMA),
        '.' => Some(TokenType::DOT),
        '-' => Some(TokenType::MINUS),
        '+' => Some(TokenType::PLUS),
        ';' => Some(TokenType::SEMICOLON),
        '/' => Some(TokenType::SLASH),
        '*' => Some(TokenType::STAR),
        _ => None,
    }
}

fn operator_kind_of(c: char) -> (r: Option<TokenType>)
    ensures
        r == operator_kind(c),
{
    match c {
        '!' => Some(TokenType::BANG),
        '=' => Some(TokenType::EQUAL),
        '<' => Some(TokenType::LESS),
        '>' => Some(TokenType::GREATER),
        _ => None,
    }
}

/// Reads the text at position `i` into `lox`, and returns the position
/// where reading goes on.
fn scan_at(lox: &mut Lox, chars: &Vec<char>, i: usize, line: usize) -> (next: usize)
    requires
        i < chars@.len(),
        line == line_at(chars@, i as int),
    ensures
        next == step(chars@, i as int).next,
        final(lox)@.tokens == old(lox)@.tokens + option_seq(step(chars@, i as int).token),
        final(lox)@.diagnostics == old(lox)@.diagnostics + option_seq(
            diagnostic_of(chars@, i as int, step(chars@, i as int).error),
        ),
{
    let ghost s = chars@;
    proof {
        lemma_string_end(s, i + 1);
        lemma_identifier_end(s, i + 1);
        lemma_number_end(s, i + 1);
    }
    let n = chars.len();
    let c = chars[i];
    if c == '/' && i + 1 < n && chars[i + 1] == '/' {
        return find_line_end(chars, i);
    }
    if let Some(kind) = punctuation_kind_of(c) {
        lox.add(Token::new(kind, string_of_range(chars, i, i + 1), None, line));
        return i + 1;
    }
    if let Some(kind) = operator_kind_of(c) {
        if i + 1 < n {
            let (combined, token) = make_next(kind, c, chars[i + 1], line);
            assert(s.subrange(i as int, i + 1) =~= seq![c]);
            assert(s.subrange(i as int, i + 2) =~= seq![c, s[i + 1]]);
            lox.add(token);
            if combined {
                return i + 2;
            } else {
                return i + 1;
            }
        } else {
            lox.add(Token::new(kind, string_of_range(chars, i, i + 1), None, line));
            return i + 1;
        }
    }
    if c == '"' {
        let close = find_string_end(chars, i + 1);
        if close < n && chars[close] == '"' {
            let text = string_of_range(chars, i + 1, close);
            let lexeme = string_of_range(chars, i, close + 1);
            lox.add(Token::new(TokenType::STRING, lexeme, Some(Literal::String(text)), line));
            return close + 1;
        }
        lox.report(Diagnostic { line, error: ScanError::UnterminatedString });
        return close;
    }
    if c == ' ' || c == '\r' || c == '\t' || c == '\n' {
        return i + 1;
    }
    if is_alpha_char(c) {
        let e = find_identifier_end(chars, i + 1);
        let kind = keyword_kind_of(chars, i, e);
        lox.add(Token::new(kind, string_of_range(chars, i, e), None, line));
        return e;
    }
    if is_digit_char(c) {
        let e = find_number_end(chars, i + 1);
        let literal = number_literal(chars, i, e);
        lox.add(Token::new(TokenType::NUMBER, string_of_range(chars, i, e), literal, line));
        return e;
    }
    lox.report(Diagnostic { line, error: ScanError::UnexpectedCharacter(c) });
    i + 1
}


/// Scans `source` into its tokens, ending with `EOF`, and the errors found
/// on the way. An error never stops the scan: it goes on at the next
/// character.
///
/// Strings and comments end with their line. `!`, `=`, `<` and `>` at the
/// end of a line stand alone, as they do before any character but `=`.
/// A number keeps its exact decimal value; one with a second point has
/// none.
pub fn tokenize(source: &str) -> (lox: Lox)
    ensures
        lox@.tokens == scanned_tokens(source@),
        lox@.diagnostics == scan_errors(source@),
{
    let chars = collect_chars(source);
    let ghost s = chars@;
    let n = chars.len();
    let mut lox = Lox::new();
    let mut i: usize = 0;
    // line breaks before position `i`
    let mut breaks: usize = 0;
    assert(lox@.tokens + scan_from(s, 0).0 =~= scan_from(s, 0).0);
    assert(lox@.diagnostics + scan_from(s, 0).1 =~= scan_from(s, 0).1);
    while i < n
        invariant
            s == chars@,
            n == s.len(),
            i <= n,
            breaks == newlines_before(s, i as int),
            breaks <= i,
            lox@.tokens + scan_from(s, i as int).0 == scan_from(s, 0).0,
            lox@.diagnostics + scan_from(s, i as int).1 == scan_from(s, 0).1,
        decreases n - i,
    {
        let ghost before = lox@;
        proof {
            lemma_step_advances(s, i as int);
        }
        let next = scan_at(&mut lox, &chars, i, breaks + 1);
        proof {
            let st = step(s, i as int);
            let rest = scan_from(s, next as int);
            assert(option_seq(st.token) + rest.0 =~= prepend(st.token, rest.0));
            assert(before.tokens + option_seq(st.token) + rest.0 =~= before.tokens + (option_seq(
                st.token,
            ) + rest.0));
            let d = diagnostic_of(s, i as int, st.error);
            assert(option_seq(d) + rest.1 =~= prepend(d, rest.1));
            assert(before.diagnostics + option_seq(d) + rest.1 =~= before.diagnostics + (
            option_seq(d) + rest.1));
        }
        while i < next
            invariant
                s == chars@,
                n == s.len(),
                i <= next <= n,
                breaks == newlines_before(s, i as int),
                breaks <= i,
            decreases next - i,
        {
            if chars[i] == '\n' {
                breaks = breaks + 1;
            }
            i = i + 1;
        }
    }
    assert(lox@.tokens =~= scan_from(s, 0).0);
    assert(lox@.diagnostics =~= scan_from(s, 0).1);
    let eof_line = if n == 0 {
        1
    } else if chars[n - 1] == '\n' {
        breaks
    } else {
        proof {
            lemma_newlines_bound(s, n - 1);
        }
        breaks + 1
    };
    lox.add(Token::new(TokenType::EOF, String::new(), None, eof_line));
    lox
}

} // verus!
