use vstd::prelude::*;

use crate::render::{literal_text, render_token};
use crate::scanner::exit_status;
use crate::spec::{
    combined_kind, eof_token, fraction_part, identifier_end, is_alpha, is_alphanumeric, is_digit,
    is_number_char, is_whitespace, keyword_kind, line_at, line_end, newlines_before, number_end,
    number_value, operator_kind, point_index, punctuation_kind, scan_errors, scan_from,
    scanned_tokens, step, string_end, strip_leading_zeros, strip_trailing_zeros,
};
use crate::token::{DiagnosticView, LiteralView, ScanError, TokenType, TokenView};

verus! {

/// A token of kind `kind` on line 1 with no literal.
pub open spec fn plain_token(kind: TokenType, lexeme: Seq<char>) -> TokenView {
    TokenView { kind, lexeme, literal: None, line: 1 }
}

/// The `EOF` token of a text whose last character stands on line `line`.
pub open spec fn end_token(line: nat) -> TokenView {
    TokenView { kind: TokenType::EOF, lexeme: Seq::empty(), literal: None, line }
}

/// With no line break among the first `i` characters, they all stand on
/// line 1.
pub proof fn lemma_no_newlines(s: Seq<char>, i: int)
    requires
        0 <= i <= s.len(),
        forall|k: int| 0 <= k < i ==> s[k] != '\n',
    ensures
        newlines_before(s, i) == 0,
    decreases i,
{
    if i > 0 {
        lemma_no_newlines(s, i - 1);
    }
}

/// Scanning a text with nothing in it yields only `EOF` on line 1, which
/// prints as `EOF  null`, and no error: the exit status is 0.
pub proof fn lemma_empty_input()
    ensures
        scanned_tokens(Seq::empty()) == seq![end_token(1)],
        scan_errors(Seq::empty()) == Seq::<DiagnosticView>::empty(),
        render_token(end_token(1)) == "EOF  null"@,
        exit_status(scan_errors(Seq::empty()).len() > 0) == 0,
{
    assert(scanned_tokens(Seq::empty()) =~= seq![end_token(1)]);
}

/// A line of one punctuation character yields exactly that token, whose
/// lexeme is the character, then `EOF`.
pub proof fn lemma_single_punctuation(c: char)
    requires
        punctuation_kind(c) is Some,
    ensures
        scanned_tokens(seq![c]) == seq![
            plain_token(punctuation_kind(c)->0, seq![c]),
            end_token(1),
        ],
        scan_errors(seq![c]) == Seq::<DiagnosticView>::empty(),
{
    let s = seq![c];
    assert(s.subrange(0, 1) =~= s);
    assert(line_at(s, 0) == 1);
    assert(scan_from(s, 1) == (Seq::<TokenView>::empty(), Seq::<DiagnosticView>::empty()));
    assert(scanned_tokens(s) =~= seq![
        plain_token(punctuation_kind(c)->0, seq![c]),
        end_token(1),
    ]);
    assert(scan_errors(s) =~= Seq::<DiagnosticView>::empty());
}

/// An operator followed by `=` yields one combined token, not two.
pub proof fn lemma_operator_with_equal(c: char)
    requires
        operator_kind(c) is Some,
    ensures
        scanned_tokens(seq![c, '=']) == seq![
            plain_token(combined_kind(operator_kind(c)->0), seq![c, '=']),
            end_token(1),
        ],
        scan_errors(seq![c, '=']) == Seq::<DiagnosticView>::empty(),
{
    let s = seq![c, '='];
    assert(s.subrange(0, 2) =~= s);
    assert(line_at(s, 0) == 1);
    assert(line_at(s, 1) == 1);
    assert(scan_from(s, 2) == (Seq::<TokenView>::empty(), Seq::<DiagnosticView>::empty()));
    assert(scanned_tokens(s) =~= seq![
        plain_token(combined_kind(operator_kind(c)->0), seq![c, '=']),
        end_token(1),
    ]);
    assert(scan_errors(s) =~= Seq::<DiagnosticView>::empty());
}

/// An operator followed by any other character yields the one-character
/// operator token, then whatever that character yields on its own.
pub proof fn lemma_operator_without_equal(c: char, d: char)
    requires
        operator_kind(c) is Some,
        d != '=',
    ensures
        scanned_tokens(seq![c, d]) == seq![plain_token(operator_kind(c)->0, seq![c])]
            + scanned_tokens(seq![d]),
        scan_errors(seq![c, d]) == scan_errors(seq![d]),
{
    let s = seq![c, d];
    let t = seq![d];
    assert(s.subrange(0, 1) =~= seq![c]);
    assert(s.subrange(1, 2) =~= t);
    assert(t.subrange(0, 1) =~= t);
    assert(line_at(s, 0) == 1);
    assert(line_at(s, 1) == 1);
    assert(line_at(t, 0) == 1);
    assert(step(s, 1).token == step(t, 0).token);
    assert(step(s, 1).error == step(t, 0).error);
    assert(step(s, 1).next == 2);
    assert(step(t, 0).next == 1);
    assert(scan_from(s, 2) == (Seq::<TokenView>::empty(), Seq::<DiagnosticView>::empty()));
    assert(scan_from(t, 1) == (Seq::<TokenView>::empty(), Seq::<DiagnosticView>::empty()));
    assert(scan_from(s, 1) == scan_from(t, 0));
    assert(eof_token(s) == eof_token(t));
    assert(scanned_tokens(s) =~= seq![plain_token(operator_kind(c)->0, seq![c])]
        + scanned_tokens(t));
}

/// A character that starts no token yields no token but an
/// unexpected-character error on line 1; `EOF` still follows, and the exit
/// status is 65.
pub proof fn lemma_unexpected_character(c: char)
    requires
        punctuation_kind(c) is None,
        operator_kind(c) is None,
        c != '"',
        !is_whitespace(c),
        !is_alpha(c),
        !is_digit(c),
    ensures
        scanned_tokens(seq![c]) == seq![end_token(1)],
        scan_errors(seq![c]) == seq![
            DiagnosticView { line: 1, error: ScanError::UnexpectedCharacter(c) },
        ],
        exit_status(scan_errors(seq![c]).len() > 0) == 65,
{
    let s = seq![c];
    assert(line_at(s, 0) == 1);
    assert(scan_from(s, 1) == (Seq::<TokenView>::empty(), Seq::<DiagnosticView>::empty()));
    assert(scanned_tokens(s) =~= seq![end_token(1)]);
    assert(scan_errors(s) =~= seq![
        DiagnosticView { line: 1, error: ScanError::UnexpectedCharacter(c) },
    ]);
}

/// A run of identifier characters from `j` reaches the end of the text.
proof fn lemma_identifier_run(s: Seq<char>, j: int)
    requires
        0 <= j <= s.len(),
        forall|k: int| j <= k < s.len() ==> is_alphanumeric(#[trigger] s[k]),
    ensures
        identifier_end(s, j) == s.len(),
    decreases s.len() - j,
{
    if j < s.len() {
        lemma_identifier_run(s, j + 1);
    }
}

/// A run of digits and points from `j` reaches the end of the text.
proof fn lemma_number_run(s: Seq<char>, j: int)
    requires
        0 <= j <= s.len(),
        forall|k: int| j <= k < s.len() ==> is_number_char(#[trigger] s[k]),
    ensures
        number_end(s, j) == s.len(),
    decreases s.len() - j,
{
    if j < s.len() {
        lemma_number_run(s, j + 1);
    }
}

/// With no quote and no line break from `j` on, a string never closes.
proof fn lemma_open_string_run(s: Seq<char>, j: int)
    requires
        0 <= j <= s.len(),
        forall|k: int| j <= k < s.len() ==> #[trigger] s[k] != '"' && s[k] != '\n',
    ensures
        string_end(s, j) == s.len(),
    decreases s.len() - j,
{
    if j < s.len() {
        lemma_open_string_run(s, j + 1);
    }
}

/// The line from `j` ends at the first line break `p`.
proof fn lemma_line_run(s: Seq<char>, j: int, p: int)
    requires
        0 <= j <= p < s.len(),
        s[p] == '\n',
        forall|k: int| j <= k < p ==> #[trigger] s[k] != '\n',
    ensures
        line_end(s, j) == p,
    decreases p - j,
{
    if j < p {
        lemma_line_run(s, j + 1, p);
    }
}

/// The first point from `j` on stands at `p`, or there is none and `p` is
/// the end of the text.
proof fn lemma_point_run(w: Seq<char>, j: int, p: int)
    requires
        0 <= j <= p <= w.len(),
        p == w.len() || w[p] == '.',
        forall|k: int| j <= k < p ==> #[trigger] w[k] != '.',
    ensures
        point_index(w, j) == p,
    decreases p - j,
{
    if j < p {
        lemma_point_run(w, j + 1, p);
    }
}

/// A word of letters, digits and `_` that starts with a letter or `_`
/// yields one token: the keyword it spells, if it spells one of the
/// sixteen exactly, else `IDENTIFIER`.
pub proof fn lemma_word(w: Seq<char>)
    requires
        w.len() > 0,
        is_alpha(w[0]),
        forall|k: int| 0 <= k < w.len() ==> is_alphanumeric(#[trigger] w[k]),
    ensures
        scanned_tokens(w) == seq![plain_token(keyword_kind(w), w), end_token(1)],
        scan_errors(w) == Seq::<DiagnosticView>::empty(),
{
    lemma_identifier_run(w, 1);
    lemma_no_newlines(w, w.len() - 1);
    assert(w.subrange(0, w.len() as int) =~= w);
    assert(line_at(w, 0) == 1);
    assert(scan_from(w, w.len() as int) == (
    Seq::<TokenView>::empty(),
    Seq::<DiagnosticView>::empty(),
    ));
    assert(scanned_tokens(w) =~= seq![plain_token(keyword_kind(w), w), end_token(1)]);
    assert(scan_errors(w) =~= Seq::<DiagnosticView>::empty());
}

/// How a number is written in canonical form.
pub open spec fn canonical_number_text(whole: Seq<char>, fraction: Seq<char>) -> Seq<char> {
    if fraction.len() == 0 {
        whole
    } else {
        whole + seq!['.'] + fraction
    }
}

/// A number written in canonical form (no leading zero before its point,
/// no trailing zero after it) yields one `NUMBER` token whose literal
/// prints as the number itself, with `.0` added when it has no point.
pub proof fn lemma_number_round_trip(whole: Seq<char>, fraction: Seq<char>)
    requires
        whole.len() > 0,
        forall|k: int| 0 <= k < whole.len() ==> is_digit(#[trigger] whole[k]),
        whole.len() == 1 || whole[0] != '0',
        forall|k: int| 0 <= k < fraction.len() ==> is_digit(#[trigger] fraction[k]),
        fraction.len() == 0 || fraction.last() != '0',
    ensures
        scanned_tokens(canonical_number_text(whole, fraction)) == seq![
            TokenView {
                kind: TokenType::NUMBER,
                lexeme: canonical_number_text(whole, fraction),
                literal: Some(LiteralView::Num(whole, fraction)),
                line: 1,
            },
            end_token(1),
        ],
        scan_errors(canonical_number_text(whole, fraction)) == Seq::<DiagnosticView>::empty(),
        literal_text(Some(LiteralView::Num(whole, fraction))) == if fraction.len() == 0 {
            whole + seq!['.', '0']
        } else {
            canonical_number_text(whole, fraction)
        },
{
    let t = canonical_number_text(whole, fraction);
    let p = whole.len() as int;
    assert forall|k: int| 0 <= k < t.len() implies is_number_char(#[trigger] t[k]) by {
        if k < p {
            assert(t[k] == whole[k]);
        } else if k > p {
            assert(t[k] == fraction[k - p - 1]);
        }
    }
    assert forall|k: int| 0 <= k < t.len() implies #[trigger] t[k] != '\n' by {
        assert(is_number_char(t[k]));
    }
    lemma_number_run(t, 1);
    lemma_no_newlines(t, t.len() - 1);
    assert forall|k: int| 0 <= k < p implies #[trigger] t[k] != '.' by {
        assert(t[k] == whole[k]);
    }
    lemma_point_run(t, 0, p);
    assert(t.subrange(0, t.len() as int) =~= t);
    assert(t.subrange(0, p) =~= whole);
    if fraction.len() > 0 {
        assert(t.subrange(p + 1, t.len() as int) =~= fraction);
    }
    assert(fraction_part(t) =~= fraction);
    assert(!(exists|k: int| 0 <= k < fraction.len() && fraction[k] == '.'));
    assert(strip_leading_zeros(whole) == whole);
    assert(strip_trailing_zeros(fraction) == fraction);
    assert(number_value(t) == Some(LiteralView::Num(whole, fraction)));
    assert(line_at(t, 0) == 1);
    assert(scan_from(t, t.len() as int) == (
    Seq::<TokenView>::empty(),
    Seq::<DiagnosticView>::empty(),
    ));
    assert(scanned_tokens(t) =~= seq![
        TokenView {
            kind: TokenType::NUMBER,
            lexeme: t,
            literal: Some(LiteralView::Num(whole, fraction)),
            line: 1,
        },
        end_token(1),
    ]);
    assert(scan_errors(t) =~= Seq::<DiagnosticView>::empty());
    if fraction.len() == 0 {
        assert(literal_text(Some(LiteralView::Num(whole, fraction))) =~= whole + seq!['.', '0']);
    } else {
        assert(literal_text(Some(LiteralView::Num(whole, fraction))) =~= t);
    }
}

/// A quote whose line holds no second quote yields no token but an
/// unterminated-string error on line 1; `EOF` still follows, and the exit
/// status is 65.
pub proof fn lemma_unterminated_string(rest: Seq<char>)
    requires
        forall|k: int| 0 <= k < rest.len() ==> #[trigger] rest[k] != '"' && rest[k] != '\n',
    ensures
        scanned_tokens(seq!['"'] + rest) == seq![end_token(1)],
        scan_errors(seq!['"'] + rest) == seq![
            DiagnosticView { line: 1, error: ScanError::UnterminatedString },
        ],
        exit_status(scan_errors(seq!['"'] + rest).len() > 0) == 65,
{
    let s = seq!['"'] + rest;
    assert forall|k: int| 1 <= k < s.len() implies #[trigger] s[k] != '"' && s[k] != '\n' by {
        assert(s[k] == rest[k - 1]);
    }
    lemma_open_string_run(s, 1);
    lemma_no_newlines(s, s.len() - 1);
    assert(line_at(s, 0) == 1);
    assert(scan_from(s, s.len() as int) == (
    Seq::<TokenView>::empty(),
    Seq::<DiagnosticView>::empty(),
    ));
    assert(scanned_tokens(s) =~= seq![end_token(1)]);
    assert(scan_errors(s) =~= seq![
        DiagnosticView { line: 1, error: ScanError::UnterminatedString },
    ]);
}

/// A comment line contributes nothing: after it, a line of one punctuation
/// character yields just that token on line 2, then `EOF`.
pub proof fn lemma_comment_elided(comment: Seq<char>, c: char)
    requires
        forall|k: int| 0 <= k < comment.len() ==> #[trigger] comment[k] != '\n',
        punctuation_kind(c) is Some,
    ensures
        scanned_tokens(seq!['/', '/'] + comment + seq!['\n', c]) == seq![
            TokenView {
                kind: punctuation_kind(c)->0,
                lexeme: seq![c],
                literal: None,
                line: 2,
            },
            end_token(2),
        ],
        scan_errors(seq!['/', '/'] + comment + seq!['\n', c]) == Seq::<DiagnosticView>::empty(),
{
    let s = seq!['/', '/'] + comment + seq!['\n', c];
    let m = comment.len() + 2int;
    assert(s[m] == '\n');
    assert(s[m + 1] == c);
    assert forall|k: int| 0 <= k < m implies #[trigger] s[k] != '\n' by {
        if k >= 2 {
            assert(s[k] == comment[k - 2]);
        }
    }
    lemma_line_run(s, 0, m);
    lemma_no_newlines(s, m);
    assert(line_at(s, m + 1) == 2);
    assert(s.subrange(m + 1, m + 2) =~= seq![c]);
    assert(scan_from(s, m + 2) == (Seq::<TokenView>::empty(), Seq::<DiagnosticView>::empty()));
    assert(scan_from(s, m + 1).0 =~= seq![
        TokenView { kind: punctuation_kind(c)->0, lexeme: seq![c], literal: None, line: 2 },
    ]);
    assert(scan_from(s, m) == scan_from(s, m + 1));
    assert(scan_from(s, 0) == scan_from(s, m));
    assert(scanned_tokens(s) =~= seq![
        TokenView { kind: punctuation_kind(c)->0, lexeme: seq![c], literal: None, line: 2 },
        end_token(2),
    ]);
    assert(scan_errors(s) =~= Seq::<DiagnosticView>::empty());
}

} // verus!
