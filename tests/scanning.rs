use lox_scanner::{make_next, tokenize, Diagnostic, Literal, Lox, Number, ScanError, Token, TokenType};

fn output(source: &str) -> Vec<String> {
    tokenize(source).output_lines()
}

fn errors(source: &str) -> Vec<String> {
    tokenize(source).error_lines()
}

fn kinds(source: &str) -> Vec<TokenType> {
    tokenize(source).tokens().iter().map(|t| t.token_type).collect()
}

#[test]
fn single_punctuation_yields_one_token() {
    let cases = [
        ('(', TokenType::LEFT_PAREN, "LEFT_PAREN"),
        (')', TokenType::RIGHT_PAREN, "RIGHT_PAREN"),
        ('{', TokenType::LEFT_BRACE, "LEFT_BRACE"),
        ('}', TokenType::RIGHT_BRACE, "RIGHT_BRACE"),
        (',', TokenType::COMMA, "COMMA"),
        ('.', TokenType::DOT, "DOT"),
        ('-', TokenType::MINUS, "MINUS"),
        ('+', TokenType::PLUS, "PLUS"),
        (';', TokenType::SEMICOLON, "SEMICOLON"),
        ('/', TokenType::SLASH, "SLASH"),
        ('*', TokenType::STAR, "STAR"),
    ];
    for (c, kind, name) in cases {
        let source = c.to_string();
        let lox = tokenize(&source);
        let tokens = lox.tokens();
        assert_eq!(tokens.len(), 2);
        assert_eq!(tokens[0].token_type, kind);
        assert_eq!(tokens[0].lexeme, source);
        assert_eq!(tokens[0].literal, None);
        assert_eq!(tokens[0].line, 1);
        assert_eq!(tokens[1].token_type, TokenType::EOF);
        assert_eq!(lox.output_lines(), vec![format!("{} {} null", name, c), "EOF  null".to_string()]);
        assert!(!lox.had_error());
    }
}

#[test]
fn two_character_operators_combine() {
    assert_eq!(output("!="), vec!["BANG_EQUAL != null", "EOF  null"]);
    assert_eq!(output("=="), vec!["EQUAL_EQUAL == null", "EOF  null"]);
    assert_eq!(output("<="), vec!["LESS_EQUAL <= null", "EOF  null"]);
    assert_eq!(output(">="), vec!["GREATER_EQUAL >= null", "EOF  null"]);
}

#[test]
fn operator_before_other_character_stands_alone() {
    assert_eq!(output("!a"), vec!["BANG ! null", "IDENTIFIER a null", "EOF  null"]);
    assert_eq!(output("<+"), vec!["LESS < null", "PLUS + null", "EOF  null"]);
    assert_eq!(output("> "), vec!["GREATER > null", "EOF  null"]);
    assert_eq!(output("=!"), vec!["EQUAL = null", "BANG ! null", "EOF  null"]);
    assert_eq!(output("==="), vec!["EQUAL_EQUAL == null", "EQUAL = null", "EOF  null"]);
    let lox = tokenize("=\"");
    assert_eq!(lox.output_lines(), vec!["EQUAL = null", "EOF  null"]);
    assert_eq!(lox.error_lines(), vec!["[line 1] Error: Unterminated string."]);
}

#[test]
fn operator_at_end_of_line_stands_alone() {
    assert_eq!(output("!"), vec!["BANG ! null", "EOF  null"]);
    assert_eq!(output("<"), vec!["LESS < null", "EOF  null"]);
    assert_eq!(output("=\n="), vec!["EQUAL = null", "EQUAL = null", "EOF  null"]);
    assert_eq!(output("!\n="), vec!["BANG ! null", "EQUAL = null", "EOF  null"]);
}

#[test]
fn keyword_must_match_exactly() {
    assert_eq!(output("classy"), vec!["IDENTIFIER classy null", "EOF  null"]);
    assert_eq!(output("class"), vec!["CLASS class null", "EOF  null"]);
    assert_eq!(kinds("Class"), vec![TokenType::IDENTIFIER, TokenType::EOF]);
    assert_eq!(kinds("clas"), vec![TokenType::IDENTIFIER, TokenType::EOF]);
}

#[test]
fn every_keyword_is_recognised() {
    let table = [
        ("and", TokenType::AND),
        ("class", TokenType::CLASS),
        ("else", TokenType::ELSE),
        ("false", TokenType::FALSE),
        ("for", TokenType::FOR),
        ("fun", TokenType::FUN),
        ("if", TokenType::IF),
        ("nil", TokenType::NIL),
        ("or", TokenType::OR),
        ("print", TokenType::PRINT),
        ("return", TokenType::RETURN),
        ("super", TokenType::SUPER),
        ("this", TokenType::THIS),
        ("true", TokenType::TRUE),
        ("var", TokenType::VAR),
        ("while", TokenType::WHILE),
    ];
    for (word, kind) in table {
        assert_eq!(kinds(word), vec![kind, TokenType::EOF]);
        assert_eq!(output(word)[0], format!("{} {} null", word.to_uppercase(), word));
    }
}

#[test]
fn identifiers_take_letters_digits_and_underscores() {
    assert_eq!(
        output("_foo1 bar_2 x"),
        vec!["IDENTIFIER _foo1 null", "IDENTIFIER bar_2 null", "IDENTIFIER x null", "EOF  null"]
    );
    assert_eq!(output("orchid"), vec!["IDENTIFIER orchid null", "EOF  null"]);
}

#[test]
fn integer_renders_with_one_decimal() {
    assert_eq!(output("123"), vec!["NUMBER 123 123.0", "EOF  null"]);
    assert_eq!(output("5"), vec!["NUMBER 5 5.0", "EOF  null"]);
}

#[test]
fn fraction_renders_as_written() {
    assert_eq!(output("123.45"), vec!["NUMBER 123.45 123.45", "EOF  null"]);
    assert_eq!(output("5.75"), vec!["NUMBER 5.75 5.75", "EOF  null"]);
}

#[test]
fn number_value_is_canonical() {
    assert_eq!(output("007"), vec!["NUMBER 007 7.0", "EOF  null"]);
    assert_eq!(output("1.500"), vec!["NUMBER 1.500 1.5", "EOF  null"]);
    assert_eq!(output("1.0"), vec!["NUMBER 1.0 1.0", "EOF  null"]);
    assert_eq!(output("0.25"), vec!["NUMBER 0.25 0.25", "EOF  null"]);
    assert_eq!(output("00.00"), vec!["NUMBER 00.00 0.0", "EOF  null"]);
    assert_eq!(output("123."), vec!["NUMBER 123. 123.0", "EOF  null"]);
    let lox = tokenize("42.5");
    let expected = Number { whole: "42".to_string(), fraction: "5".to_string() };
    assert_eq!(lox.tokens()[0].literal, Some(Literal::Number(expected)));
}

#[test]
fn number_with_second_point_has_no_value() {
    assert_eq!(output("1.2.3"), vec!["NUMBER 1.2.3 null", "EOF  null"]);
    assert!(!tokenize("1.2.3").had_error());
}

#[test]
fn number_stops_at_other_characters() {
    assert_eq!(
        output("12+3"),
        vec!["NUMBER 12 12.0", "PLUS + null", "NUMBER 3 3.0", "EOF  null"]
    );
    assert_eq!(output("7a"), vec!["NUMBER 7 7.0", "IDENTIFIER a null", "EOF  null"]);
    assert_eq!(output(".5"), vec!["DOT . null", "NUMBER 5 5.0", "EOF  null"]);
}

#[test]
fn string_literal_keeps_quotes_in_lexeme_only() {
    assert_eq!(output("\"hello world\""), vec!["STRING \"hello world\" hello world", "EOF  null"]);
    assert_eq!(output("\"\""), vec!["STRING \"\" ", "EOF  null"]);
    let lox = tokenize("\"a+b\"");
    assert_eq!(lox.tokens()[0].literal, Some(Literal::String("a+b".to_string())));
    assert_eq!(lox.tokens()[0].lexeme, "\"a+b\"");
}

#[test]
fn unterminated_string_reports_error() {
    let lox = tokenize("\"abc");
    assert_eq!(lox.output_lines(), vec!["EOF  null"]);
    assert_eq!(lox.error_lines(), vec!["[line 1] Error: Unterminated string."]);
    assert!(lox.had_error());
    assert_eq!(lox.exit_code(), 65);
}

#[test]
fn string_does_not_cross_lines() {
    let lox = tokenize("\"ab\ncd\"");
    assert_eq!(lox.output_lines(), vec!["IDENTIFIER cd null", "EOF  null"]);
    assert_eq!(
        lox.error_lines(),
        vec!["[line 1] Error: Unterminated string.", "[line 2] Error: Unterminated string."]
    );
}

#[test]
fn unexpected_character_reports_error() {
    let lox = tokenize("@");
    assert_eq!(lox.output_lines(), vec!["EOF  null"]);
    assert_eq!(lox.error_lines(), vec!["[line 1] Error: Unexpected character: @"]);
    assert_eq!(lox.exit_code(), 65);
    assert_eq!(
        lox.diagnostics().clone(),
        vec![Diagnostic { line: 1, error: ScanError::UnexpectedCharacter('@') }]
    );
}

#[test]
fn errors_do_not_stop_the_scan() {
    let lox = tokenize("@+#\n$ -");
    assert_eq!(lox.output_lines(), vec!["PLUS + null", "MINUS - null", "EOF  null"]);
    assert_eq!(
        lox.error_lines(),
        vec![
            "[line 1] Error: Unexpected character: @",
            "[line 1] Error: Unexpected character: #",
            "[line 2] Error: Unexpected character: $",
        ]
    );
}

#[test]
fn non_ascii_letter_is_unexpected() {
    assert_eq!(errors("é"), vec!["[line 1] Error: Unexpected character: é"]);
}

#[test]
fn comment_is_elided() {
    let lox = tokenize("// comment\n+");
    assert_eq!(lox.output_lines(), vec!["PLUS + null", "EOF  null"]);
    assert_eq!(lox.tokens()[0].line, 2);
    assert_eq!(lox.exit_code(), 0);
    assert_eq!(output("1 // two\n3"), vec!["NUMBER 1 1.0", "NUMBER 3 3.0", "EOF  null"]);
    assert_eq!(output("//"), vec!["EOF  null"]);
}

#[test]
fn slash_without_second_slash_is_a_token() {
    assert_eq!(output("/ 2"), vec!["SLASH / null", "NUMBER 2 2.0", "EOF  null"]);
    assert_eq!(output("/x"), vec!["SLASH / null", "IDENTIFIER x null", "EOF  null"]);
    assert_eq!(output("/\n/"), vec!["SLASH / null", "SLASH / null", "EOF  null"]);
}

#[test]
fn empty_input_yields_only_eof() {
    let lox = tokenize("");
    assert_eq!(lox.output_lines(), vec!["EOF  null"]);
    assert!(lox.error_lines().is_empty());
    assert_eq!(lox.exit_code(), 0);
    assert_eq!(lox.tokens()[0].line, 1);
}

#[test]
fn whitespace_yields_nothing() {
    assert_eq!(output(" \t\r\n  "), vec!["EOF  null"]);
    assert!(!tokenize(" \t\r\n").had_error());
}

#[test]
fn tokens_carry_their_line() {
    let lox = tokenize("a\n\nb c\n  \"s\"");
    let lines: Vec<usize> = lox.tokens().iter().map(|t| t.line).collect();
    assert_eq!(lines, vec![1, 3, 3, 4, 4]);
    assert_eq!(errors("\n\n\n\n\n\n\n\n\n\n\n@"), vec!["[line 12] Error: Unexpected character: @"]);
}

#[test]
fn eof_stands_on_last_line() {
    assert_eq!(tokenize("a").tokens()[1].line, 1);
    assert_eq!(tokenize("a\n").tokens()[1].line, 1);
    assert_eq!(tokenize("a\nb").tokens()[2].line, 2);
    assert_eq!(tokenize("a\r\nb\r\n").tokens()[2].line, 2);
    assert_eq!(tokenize("\n\n").tokens()[0].line, 2);
}

#[test]
fn make_next_combines_with_equal() {
    let (matched, token) = make_next(TokenType::LESS, '<', '=', 3);
    assert!(matched);
    assert_eq!(token.token_type, TokenType::LESS_EQUAL);
    assert_eq!(token.lexeme, "<=");
    assert_eq!(token.line, 3);
    let (matched, token) = make_next(TokenType::BANG, '!', '=', 1);
    assert!(matched);
    assert_eq!(token.token_type, TokenType::BANG_EQUAL);
    let (matched, token) = make_next(TokenType::EQUAL, '=', '=', 1);
    assert!(matched);
    assert_eq!(token.token_type, TokenType::EQUAL_EQUAL);
    let (matched, token) = make_next(TokenType::GREATER, '>', '=', 1);
    assert!(matched);
    assert_eq!(token.token_type, TokenType::GREATER_EQUAL);
}

#[test]
fn make_next_leaves_other_followers() {
    let (matched, token) = make_next(TokenType::GREATER, '>', 'x', 7);
    assert!(!matched);
    assert_eq!(token.token_type, TokenType::GREATER);
    assert_eq!(token.lexeme, ">");
    assert_eq!(token.line, 7);
    assert_eq!(token.literal, None);
}

#[test]
fn render_formats_each_literal() {
    let t = Token::new(TokenType::NUMBER, "5".to_string(), Some(Literal::Number(Number {
        whole: "5".to_string(),
        fraction: String::new(),
    })), 1);
    assert_eq!(t.render(), "NUMBER 5 5.0");
    let t = Token::new(TokenType::TRUE, "true".to_string(), Some(Literal::Bool(true)), 1);
    assert_eq!(t.render(), "TRUE true true");
    let t = Token::new(TokenType::FALSE, "false".to_string(), Some(Literal::Bool(false)), 1);
    assert_eq!(t.render(), "FALSE false false");
    let t = Token::new(TokenType::EOF, "EOF".to_string(), None, 9);
    assert_eq!(t.render(), "EOF  null");
    let t = Token::new(TokenType::STRING, "\"hi\"".to_string(), Some(Literal::String("hi".to_string())), 1);
    assert_eq!(t.render(), "STRING \"hi\" hi");
    assert_eq!(TokenType::GREATER_EQUAL.name(), "GREATER_EQUAL");
}

#[test]
fn diagnostic_messages() {
    let d = Diagnostic { line: 120, error: ScanError::UnexpectedCharacter('#') };
    assert_eq!(d.message(), "[line 120] Error: Unexpected character: #");
    let d = Diagnostic { line: 7, error: ScanError::UnterminatedString };
    assert_eq!(d.message(), "[line 7] Error: Unterminated string.");
    let d = Diagnostic { line: 10, error: ScanError::UnterminatedString };
    assert_eq!(d.message(), "[line 10] Error: Unterminated string.");
}

#[test]
fn lox_accumulates_tokens_and_errors() {
    let mut lox = Lox::new();
    assert!(!lox.had_error());
    assert_eq!(lox.exit_code(), 0);
    lox.add(Token::new(TokenType::PLUS, "+".to_string(), None, 1));
    assert_eq!(lox.tokens().len(), 1);
    assert!(!lox.had_error());
    lox.report(Diagnostic { line: 2, error: ScanError::UnterminatedString });
    assert!(lox.had_error());
    assert_eq!(lox.exit_code(), 65);
    assert_eq!(lox.output_lines(), vec!["PLUS + null"]);
    assert_eq!(lox.error_lines(), vec!["[line 2] Error: Unterminated string."]);
}

#[test]
fn small_program() {
    let source = "var x = 10;\nif (x >= 5) { print \"big\"; } // done\n";
    assert_eq!(
        output(source),
        vec![
            "VAR var null",
            "IDENTIFIER x null",
            "EQUAL = null",
            "NUMBER 10 10.0",
            "SEMICOLON ; null",
            "IF if null",
            "LEFT_PAREN ( null",
            "IDENTIFIER x null",
            "GREATER_EQUAL >= null",
            "NUMBER 5 5.0",
            "RIGHT_PAREN ) null",
            "LEFT_BRACE { null",
            "PRINT print null",
            "STRING \"big\" big",
            "SEMICOLON ; null",
            "RIGHT_BRACE } null",
            "EOF  null",
        ]
    );
}
