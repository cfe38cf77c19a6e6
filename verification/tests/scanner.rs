use clox::scanner::{lines_fit, Error, Scanner, Token, TokenType};

fn scan(source: &str) -> Vec<Result<Token<'_>, Error>> {
    Scanner::new(source).tokens()
}

fn kinds(source: &str) -> Vec<TokenType> {
    scan(source).into_iter().map(|scanned| scanned.expect("a token").token_type).collect()
}

fn token(token_type: TokenType, string: &str, line: i32) -> Result<Token<'_>, Error> {
    Ok(Token { token_type, string, line })
}

fn error(message: &'static str, line: i32) -> Result<Token<'static>, Error> {
    Err(Error { message, line })
}

#[test]
fn empty_source_has_no_tokens() {
    assert_eq!(scan(""), vec![]);
    assert_eq!(scan(" \t\r\n  \n"), vec![]);
}

#[test]
fn end_of_input_is_returned_again_and_again() {
    let mut scanner = Scanner::new("x");
    assert_eq!(scanner.scan_token(), Some(token(TokenType::Identifier, "x", 1)));
    assert_eq!(scanner.scan_token(), None);
    assert_eq!(scanner.scan_token(), None);
    assert_eq!(scanner.scan_token(), None);
}

#[test]
fn bang_equal_is_one_token() {
    assert_eq!(scan("!="), vec![token(TokenType::BangEqual, "!=", 1)]);
}

#[test]
fn bang_before_identifier_is_two_tokens() {
    assert_eq!(
        scan("!x"),
        vec![token(TokenType::Bang, "!", 1), token(TokenType::Identifier, "x", 1)]
    );
}

#[test]
fn arithmetic_expression() {
    assert_eq!(
        scan("1 + 2"),
        vec![
            token(TokenType::Number, "1", 1),
            token(TokenType::Plus, "+", 1),
            token(TokenType::Number, "2", 1),
        ]
    );
}

#[test]
fn number_with_fraction_is_one_token() {
    assert_eq!(scan("3.14"), vec![token(TokenType::Number, "3.14", 1)]);
}

#[test]
fn trailing_dot_is_not_part_of_number() {
    assert_eq!(
        scan("3."),
        vec![token(TokenType::Number, "3", 1), token(TokenType::Dot, ".", 1)]
    );
}

#[test]
fn leading_dot_is_not_part_of_number() {
    assert_eq!(
        scan(".5"),
        vec![token(TokenType::Dot, ".", 1), token(TokenType::Number, "5", 1)]
    );
}

#[test]
fn number_takes_one_fraction_only() {
    assert_eq!(
        scan("1.2.3"),
        vec![
            token(TokenType::Number, "1.2", 1),
            token(TokenType::Dot, ".", 1),
            token(TokenType::Number, "3", 1),
        ]
    );
}

#[test]
fn number_followed_by_method_call() {
    assert_eq!(
        scan("12.abs"),
        vec![
            token(TokenType::Number, "12", 1),
            token(TokenType::Dot, ".", 1),
            token(TokenType::Identifier, "abs", 1),
        ]
    );
}

#[test]
fn unterminated_string_is_an_error_on_its_first_line() {
    assert_eq!(scan("\"abc"), vec![error("Unterminated string.", 1)]);
    assert_eq!(
        scan("x\n\n\"abc\ndef\n"),
        vec![token(TokenType::Identifier, "x", 1), error("Unterminated string.", 3)]
    );
}

#[test]
fn scanner_stays_at_the_end_after_unterminated_string() {
    let mut scanner = Scanner::new("\"abc\n");
    assert_eq!(scanner.scan_token(), Some(error("Unterminated string.", 1)));
    assert_eq!(scanner.scan_token(), None);
    assert_eq!(scanner.scan_token(), None);
}

#[test]
fn string_spans_its_quotes() {
    assert_eq!(scan("\"abc\""), vec![token(TokenType::String, "\"abc\"", 1)]);
    assert_eq!(scan("\"\""), vec![token(TokenType::String, "\"\"", 1)]);
}

#[test]
fn string_over_several_lines_reports_its_first_line() {
    assert_eq!(
        scan("\n\"a\nb\nc\" x"),
        vec![
            token(TokenType::String, "\"a\nb\nc\"", 2),
            token(TokenType::Identifier, "x", 4),
        ]
    );
}

#[test]
fn string_holds_anything_but_a_quote() {
    assert_eq!(
        scan("\"// no comment \\\" 1"),
        vec![
            token(TokenType::String, "\"// no comment \\\"", 1),
            token(TokenType::Number, "1", 1),
        ]
    );
}

#[test]
fn unexpected_character_is_an_error_and_scanning_goes_on() {
    assert_eq!(
        scan("a @ b"),
        vec![
            token(TokenType::Identifier, "a", 1),
            error("Unexpected character.", 1),
            token(TokenType::Identifier, "b", 1),
        ]
    );
}

#[test]
fn character_outside_ascii_is_one_error() {
    assert_eq!(
        scan("é\nλx 🦀+"),
        vec![
            error("Unexpected character.", 1),
            error("Unexpected character.", 2),
            token(TokenType::Identifier, "x", 2),
            error("Unexpected character.", 2),
            token(TokenType::Plus, "+", 2),
        ]
    );
}

#[test]
fn characters_outside_ascii_stand_in_strings_and_comments() {
    assert_eq!(
        scan("\"héllo 🦀 wörld\" // ¡olé!\nπ"),
        vec![
            token(TokenType::String, "\"héllo 🦀 wörld\"", 1),
            error("Unexpected character.", 2),
        ]
    );
}

#[test]
fn single_character_tokens() {
    assert_eq!(
        kinds("(){},.-+;/*"),
        vec![
            TokenType::LeftParen,
            TokenType::RightParen,
            TokenType::LeftBrace,
            TokenType::RightBrace,
            TokenType::Comma,
            TokenType::Dot,
            TokenType::Minus,
            TokenType::Plus,
            TokenType::Semicolon,
            TokenType::Slash,
            TokenType::Star,
        ]
    );
}

#[test]
fn one_or_two_character_tokens() {
    assert_eq!(
        kinds("! != = == < <= > >="),
        vec![
            TokenType::Bang,
            TokenType::BangEqual,
            TokenType::Equal,
            TokenType::EqualEqual,
            TokenType::Less,
            TokenType::LessEqual,
            TokenType::Greater,
            TokenType::GreaterEqual,
        ]
    );
}

#[test]
fn longest_match_wins() {
    assert_eq!(
        scan("===!==<=="),
        vec![
            token(TokenType::EqualEqual, "==", 1),
            token(TokenType::Equal, "=", 1),
            token(TokenType::BangEqual, "!=", 1),
            token(TokenType::Equal, "=", 1),
            token(TokenType::LessEqual, "<=", 1),
            token(TokenType::Equal, "=", 1),
        ]
    );
}

#[test]
fn keywords() {
    assert_eq!(
        kinds(
            "and class else false for fun if nil or print return super this true var while"
        ),
        vec![
            TokenType::And,
            TokenType::Class,
            TokenType::Else,
            TokenType::False,
            TokenType::For,
            TokenType::Fun,
            TokenType::If,
            TokenType::Nil,
            TokenType::Or,
            TokenType::Print,
            TokenType::Return,
            TokenType::Super,
            TokenType::This,
            TokenType::True,
            TokenType::Var,
            TokenType::While,
        ]
    );
}

#[test]
fn keywords_match_exactly() {
    assert_eq!(
        scan("And CLASS fo fort _if nil2 or_ whil whiles"),
        vec![
            token(TokenType::Identifier, "And", 1),
            token(TokenType::Identifier, "CLASS", 1),
            token(TokenType::Identifier, "fo", 1),
            token(TokenType::Identifier, "fort", 1),
            token(TokenType::Identifier, "_if", 1),
            token(TokenType::Identifier, "nil2", 1),
            token(TokenType::Identifier, "or_", 1),
            token(TokenType::Identifier, "whil", 1),
            token(TokenType::Identifier, "whiles", 1),
        ]
    );
}

#[test]
fn identifiers_hold_letters_digits_and_underscores() {
    assert_eq!(
        scan("_ a1_b2 Z9z 1abc"),
        vec![
            token(TokenType::Identifier, "_", 1),
            token(TokenType::Identifier, "a1_b2", 1),
            token(TokenType::Identifier, "Z9z", 1),
            token(TokenType::Number, "1", 1),
            token(TokenType::Identifier, "abc", 1),
        ]
    );
}

#[test]
fn identifier_ends_before_a_character_outside_ascii() {
    assert_eq!(
        scan("naïve"),
        vec![
            token(TokenType::Identifier, "na", 1),
            error("Unexpected character.", 1),
            token(TokenType::Identifier, "ve", 1),
        ]
    );
}

#[test]
fn comment_runs_to_the_end_of_its_line() {
    assert_eq!(
        scan("a // b c\nd // e"),
        vec![token(TokenType::Identifier, "a", 1), token(TokenType::Identifier, "d", 2)]
    );
    assert_eq!(scan("// only a comment"), vec![]);
    assert_eq!(scan("//"), vec![]);
    assert_eq!(scan("///\n/"), vec![token(TokenType::Slash, "/", 2)]);
}

#[test]
fn single_slash_is_a_token() {
    assert_eq!(scan("/"), vec![token(TokenType::Slash, "/", 1)]);
    assert_eq!(
        scan("1 / 2"),
        vec![
            token(TokenType::Number, "1", 1),
            token(TokenType::Slash, "/", 1),
            token(TokenType::Number, "2", 1),
        ]
    );
    assert_eq!(
        scan("/ /"),
        vec![token(TokenType::Slash, "/", 1), token(TokenType::Slash, "/", 1)]
    );
}

#[test]
fn lines_are_counted_by_line_feeds() {
    assert_eq!(
        scan("a\nb\r\nc\n\n\nd\re"),
        vec![
            token(TokenType::Identifier, "a", 1),
            token(TokenType::Identifier, "b", 2),
            token(TokenType::Identifier, "c", 3),
            token(TokenType::Identifier, "d", 6),
            token(TokenType::Identifier, "e", 6),
        ]
    );
}

#[test]
fn lines_never_fall_and_tokens_follow_each_other() {
    let source = "var a = \"x\ny\";\n// c\nprint a + 1.5; @\n\"open\n\n";
    let all = scan(source);
    assert_eq!(all.len(), 12);
    let mut line = 1;
    let mut end = 0;
    for scanned in &all {
        let at = match scanned {
            Ok(token) => {
                let start = token.string.as_ptr() as usize - source.as_ptr() as usize;
                assert!(start >= end);
                end = start + token.string.len();
                assert_eq!(&source[start..end], token.string);
                token.line
            }
            Err(error) => error.line,
        };
        assert!(at >= line);
        line = at;
    }
    assert_eq!(line, 5);
}

#[test]
fn tokens_starts_where_the_scanner_stands() {
    let mut scanner = Scanner::new("a b c");
    assert_eq!(scanner.scan_token(), Some(token(TokenType::Identifier, "a", 1)));
    assert_eq!(
        scanner.tokens(),
        vec![token(TokenType::Identifier, "b", 1), token(TokenType::Identifier, "c", 1)]
    );
    assert_eq!(scanner.tokens(), vec![]);
    assert_eq!(scanner.scan_token(), None);
}

#[test]
fn small_program() {
    let source = "fun add(a, b) {\n  return a + b; // sum\n}\nprint add(1, 2.5) >= 3;";
    assert_eq!(
        scan(source),
        vec![
            token(TokenType::Fun, "fun", 1),
            token(TokenType::Identifier, "add", 1),
            token(TokenType::LeftParen, "(", 1),
            token(TokenType::Identifier, "a", 1),
            token(TokenType::Comma, ",", 1),
            token(TokenType::Identifier, "b", 1),
            token(TokenType::RightParen, ")", 1),
            token(TokenType::LeftBrace, "{", 1),
            token(TokenType::Return, "return", 2),
            token(TokenType::Identifier, "a", 2),
            token(TokenType::Plus, "+", 2),
            token(TokenType::Identifier, "b", 2),
            token(TokenType::Semicolon, ";", 2),
            token(TokenType::RightBrace, "}", 3),
            token(TokenType::Print, "print", 4),
            token(TokenType::Identifier, "add", 4),
            token(TokenType::LeftParen, "(", 4),
            token(TokenType::Number, "1", 4),
            token(TokenType::Comma, ",", 4),
            token(TokenType::Number, "2.5", 4),
            token(TokenType::RightParen, ")", 4),
            token(TokenType::GreaterEqual, ">=", 4),
            token(TokenType::Number, "3", 4),
            token(TokenType::Semicolon, ";", 4),
        ]
    );
}

#[test]
fn dots_between_numbers() {
    assert_eq!(
        scan("1..2"),
        vec![
            token(TokenType::Number, "1", 1),
            token(TokenType::Dot, ".", 1),
            token(TokenType::Dot, ".", 1),
            token(TokenType::Number, "2", 1),
        ]
    );
    assert_eq!(
        scan("007.250."),
        vec![token(TokenType::Number, "007.250", 1), token(TokenType::Dot, ".", 1)]
    );
}

#[test]
fn tokens_need_no_blanks_between_them() {
    assert_eq!(
        scan("a.b(c)-1\"s\"x"),
        vec![
            token(TokenType::Identifier, "a", 1),
            token(TokenType::Dot, ".", 1),
            token(TokenType::Identifier, "b", 1),
            token(TokenType::LeftParen, "(", 1),
            token(TokenType::Identifier, "c", 1),
            token(TokenType::RightParen, ")", 1),
            token(TokenType::Minus, "-", 1),
            token(TokenType::Number, "1", 1),
            token(TokenType::String, "\"s\"", 1),
            token(TokenType::Identifier, "x", 1),
        ]
    );
}

#[test]
fn token_behind_characters_of_every_width() {
    // One, two, three and four bytes in UTF-8.
    assert_eq!(
        scan("\"a\u{e9}\u{20ac}\u{1f980}\" + \u{e9}\u{20ac}\u{1f980}x"),
        vec![
            token(TokenType::String, "\"a\u{e9}\u{20ac}\u{1f980}\"", 1),
            token(TokenType::Plus, "+", 1),
            error("Unexpected character.", 1),
            error("Unexpected character.", 1),
            error("Unexpected character.", 1),
            token(TokenType::Identifier, "x", 1),
        ]
    );
}

#[test]
fn control_characters_are_unexpected() {
    assert_eq!(
        scan("\u{0}\u{b}\u{7f}"),
        vec![
            error("Unexpected character.", 1),
            error("Unexpected character.", 1),
            error("Unexpected character.", 1),
        ]
    );
}

#[test]
fn comment_inside_a_line_of_slashes() {
    assert_eq!(
        scan("1 / 2 // 3 / 4\n/ 5"),
        vec![
            token(TokenType::Number, "1", 1),
            token(TokenType::Slash, "/", 1),
            token(TokenType::Number, "2", 1),
            token(TokenType::Slash, "/", 2),
            token(TokenType::Number, "5", 2),
        ]
    );
}

#[test]
fn lines_of_ordinary_sources_fit() {
    assert!(lines_fit(""));
    assert!(lines_fit("print 1;"));
    assert!(lines_fit("a\nb\n\n\"c\nd\"\n// e\n"));
    assert!(lines_fit(&"\n".repeat(100_000)));
    let source = "x\n".repeat(100_000);
    let all = scan(&source);
    assert_eq!(all.len(), 100_000);
    assert_eq!(all[99_999], token(TokenType::Identifier, "x", 100_000));
}
