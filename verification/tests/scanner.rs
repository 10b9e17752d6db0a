use rinlox::lox::{Lox, Report};
use rinlox::scanner::Scanner;
use rinlox::token::{Decimal, Token, TokenType};

fn scan(source: &str) -> (Vec<Token>, Vec<Report>) {
    let mut lox = Lox::new();
    let mut scanner = Scanner::new(source.to_string());
    let tokens = scanner.scan_tokens(&mut lox).to_vec();
    assert_eq!(tokens, scanner.tokens);
    (tokens, lox.reports().clone())
}

fn kinds(source: &str) -> Vec<TokenType> {
    scan(source).0.iter().map(|token| token.typ().clone()).collect()
}

fn number(digits: &[u8], scale: usize) -> TokenType {
    TokenType::Number(Decimal::new(digits.to_vec(), scale))
}

fn value(typ: &TokenType) -> f64 {
    match typ {
        TokenType::Number(decimal) => {
            let mut mantissa = 0.0;
            for digit in decimal.digits() {
                mantissa = mantissa * 10.0 + f64::from(*digit);
            }
            mantissa / 10f64.powi(decimal.scale() as i32)
        }
        other => panic!("not a number: {:?}", other),
    }
}

#[test]
fn empty_source_yields_only_the_closing_token() {
    let (tokens, reports) = scan("");
    assert_eq!(tokens, vec![Token::new(TokenType::Eof, String::new(), 1)]);
    assert!(reports.is_empty());
}

#[test]
fn last_token_is_the_only_closing_token() {
    for source in ["", "var x = 1;", "@", "\"open", "// note", "a\nb\n", "1.5.", "\n\n\n"] {
        let (tokens, _) = scan(source);
        assert!(!tokens.is_empty());
        let (last, rest) = tokens.split_last().unwrap();
        assert_eq!(last.typ(), &TokenType::Eof);
        assert_eq!(last.lexeme(), "");
        assert!(rest.iter().all(|token| token.typ() != &TokenType::Eof));
    }
}

#[test]
fn single_character_tokens() {
    assert_eq!(
        kinds("(){},.-+;*/"),
        vec![
            TokenType::LeftParen,
            TokenType::RightParen,
            TokenType::LeftBrace,
            TokenType::RightBrace,
            TokenType::Comma,
            TokenType::Dot,
            TokenType::Minus,
            TokenType::Plus,
            TokenType::SemiColon,
            TokenType::Star,
            TokenType::Slash,
            TokenType::Eof,
        ]
    );
}

#[test]
fn one_or_two_character_operators() {
    assert_eq!(
        kinds("! != = == < <= > >="),
        vec![
            TokenType::Bang,
            TokenType::BangEqual,
            TokenType::Equal,
            TokenType::EqualEqual,
            TokenType::Less,
            TokenType::LessEqual,
            TokenType::Greater,
            TokenType::GreaterEqual,
            TokenType::Eof,
        ]
    );
}

#[test]
fn less_equal_is_one_token() {
    let (tokens, reports) = scan("<=");
    assert_eq!(
        tokens,
        vec![
            Token::new(TokenType::LessEqual, "<=".to_string(), 1),
            Token::new(TokenType::Eof, String::new(), 1),
        ]
    );
    assert!(reports.is_empty());
    assert_eq!(kinds("<=="), vec![TokenType::LessEqual, TokenType::Equal, TokenType::Eof]);
    assert_eq!(kinds("< ="), vec![TokenType::Less, TokenType::Equal, TokenType::Eof]);
    assert_eq!(kinds("==="), vec![TokenType::EqualEqual, TokenType::Equal, TokenType::Eof]);
}

#[test]
fn double_slash_starts_a_comment() {
    assert_eq!(kinds("//"), vec![TokenType::Eof]);
    assert_eq!(kinds("// a / b"), vec![TokenType::Eof]);
    assert_eq!(kinds("/ /"), vec![TokenType::Slash, TokenType::Slash, TokenType::Eof]);
    assert_eq!(kinds("1 // one\n/ 2"), vec![
        number(&[1], 0),
        TokenType::Slash,
        number(&[2], 0),
        TokenType::Eof,
    ]);
}

#[test]
fn comment_ends_before_the_newline() {
    let (tokens, reports) = scan("// first\n// second\nx");
    assert_eq!(
        tokens,
        vec![
            Token::new(TokenType::Identifier, "x".to_string(), 3),
            Token::new(TokenType::Eof, String::new(), 3),
        ]
    );
    assert!(reports.is_empty());
}

#[test]
fn print_is_a_keyword_and_printer_is_not() {
    assert_eq!(
        scan("print").0,
        vec![
            Token::new(TokenType::Print, "print".to_string(), 1),
            Token::new(TokenType::Eof, String::new(), 1),
        ]
    );
    assert_eq!(
        scan("printer").0,
        vec![
            Token::new(TokenType::Identifier, "printer".to_string(), 1),
            Token::new(TokenType::Eof, String::new(), 1),
        ]
    );
    assert_eq!(kinds("prin"), vec![TokenType::Identifier, TokenType::Eof]);
    assert_eq!(kinds("Print"), vec![TokenType::Identifier, TokenType::Eof]);
    assert_eq!(kinds("print_"), vec![TokenType::Identifier, TokenType::Eof]);
    assert_eq!(kinds("print1"), vec![TokenType::Identifier, TokenType::Eof]);
}

#[test]
fn every_keyword_has_its_token() {
    assert_eq!(
        kinds("and class else false for fun if nil or print return super this true var while"),
        vec![
            TokenType::And,
            TokenType::Class,
            TokenType::Else,
            TokenType::False,
            TokenType::For,
            TokenType::Fun,
            TokenType::If,
            TokenType::Nil,
            TokenType::Or,
            TokenType::Print,
            TokenType::Return,
            TokenType::Super,
            TokenType::This,
            TokenType::True,
            TokenType::Var,
            TokenType::While,
            TokenType::Eof,
        ]
    );
}

#[test]
fn names_may_hold_underscores_and_digits() {
    let (tokens, reports) = scan("_a1 b_2 __");
    assert!(reports.is_empty());
    let lexemes: Vec<&str> = tokens.iter().map(|token| token.lexeme()).collect();
    assert_eq!(lexemes, vec!["_a1", "b_2", "__", ""]);
    assert!(tokens[..3].iter().all(|token| token.typ() == &TokenType::Identifier));
}

#[test]
fn arithmetic_and_string_scenario() {
    let (tokens, reports) = scan("1 + 2.5 == \"a\nb\"");
    assert!(reports.is_empty());
    assert_eq!(
        tokens,
        vec![
            Token::new(number(&[1], 0), "1".to_string(), 1),
            Token::new(TokenType::Plus, "+".to_string(), 1),
            Token::new(number(&[2, 5], 1), "2.5".to_string(), 1),
            Token::new(TokenType::EqualEqual, "==".to_string(), 1),
            Token::new(TokenType::String("a\nb".to_string()), "\"a\nb\"".to_string(), 1),
            Token::new(TokenType::Eof, String::new(), 2),
        ]
    );
    assert_eq!(value(tokens[0].typ()), 1.0);
    assert_eq!(value(tokens[2].typ()), 2.5);
}

#[test]
fn comment_then_declaration_scenario() {
    let (tokens, reports) = scan("// comment\nvar x = 1;");
    assert!(reports.is_empty());
    assert_eq!(
        tokens,
        vec![
            Token::new(TokenType::Var, "var".to_string(), 2),
            Token::new(TokenType::Identifier, "x".to_string(), 2),
            Token::new(TokenType::Equal, "=".to_string(), 2),
            Token::new(number(&[1], 0), "1".to_string(), 2),
            Token::new(TokenType::SemiColon, ";".to_string(), 2),
            Token::new(TokenType::Eof, String::new(), 2),
        ]
    );
    assert_eq!(tokens[1].line(), 2);
}

#[test]
fn unterminated_string_scenario() {
    let (tokens, reports) = scan("\"unterminated");
    assert_eq!(tokens, vec![Token::new(TokenType::Eof, String::new(), 1)]);
    assert_eq!(
        reports,
        vec![Report::new(1, String::new(), "Unterminated string".to_string())]
    );
}

#[test]
fn unexpected_character_scenario() {
    let (tokens, reports) = scan("@");
    assert_eq!(tokens, vec![Token::new(TokenType::Eof, String::new(), 1)]);
    assert_eq!(
        reports,
        vec![Report::new(1, String::new(), "Unexpected character '@'".to_string())]
    );
}

#[test]
fn each_unexpected_character_is_reported_on_its_line() {
    let (tokens, reports) = scan("@#\n$ x\n\u{e9}");
    assert_eq!(
        tokens,
        vec![
            Token::new(TokenType::Identifier, "x".to_string(), 2),
            Token::new(TokenType::Eof, String::new(), 3),
        ]
    );
    assert_eq!(
        reports,
        vec![
            Report::new(1, String::new(), "Unexpected character '@'".to_string()),
            Report::new(1, String::new(), "Unexpected character '#'".to_string()),
            Report::new(2, String::new(), "Unexpected character '$'".to_string()),
            Report::new(3, String::new(), "Unexpected character '\u{e9}'".to_string()),
        ]
    );
}

#[test]
fn scanning_goes_on_after_an_error() {
    let (tokens, reports) = scan("a ? b");
    assert_eq!(
        tokens,
        vec![
            Token::new(TokenType::Identifier, "a".to_string(), 1),
            Token::new(TokenType::Identifier, "b".to_string(), 1),
            Token::new(TokenType::Eof, String::new(), 1),
        ]
    );
    assert_eq!(reports.len(), 1);
    assert_eq!(reports[0].message(), "Unexpected character '?'");
}

#[test]
fn unterminated_string_is_reported_on_the_line_reached() {
    let (tokens, reports) = scan("x\n\"one\ntwo\n");
    assert_eq!(
        tokens,
        vec![
            Token::new(TokenType::Identifier, "x".to_string(), 1),
            Token::new(TokenType::Eof, String::new(), 4),
        ]
    );
    assert_eq!(
        reports,
        vec![Report::new(4, String::new(), "Unterminated string".to_string())]
    );
}

#[test]
fn string_literal_keeps_its_body_as_written() {
    let (tokens, reports) = scan("\"\" \"a b\" \"// no comment\" \"\\n\"");
    assert!(reports.is_empty());
    assert_eq!(
        tokens,
        vec![
            Token::new(TokenType::String(String::new()), "\"\"".to_string(), 1),
            Token::new(TokenType::String("a b".to_string()), "\"a b\"".to_string(), 1),
            Token::new(
                TokenType::String("// no comment".to_string()),
                "\"// no comment\"".to_string(),
                1
            ),
            Token::new(TokenType::String("\\n".to_string()), "\"\\n\"".to_string(), 1),
            Token::new(TokenType::Eof, String::new(), 1),
        ]
    );
}

#[test]
fn string_literal_may_hold_any_character() {
    let (tokens, reports) = scan("\"h\u{e9}llo \u{1f600}\" x");
    assert!(reports.is_empty());
    assert_eq!(
        tokens,
        vec![
            Token::new(
                TokenType::String("h\u{e9}llo \u{1f600}".to_string()),
                "\"h\u{e9}llo \u{1f600}\"".to_string(),
                1
            ),
            Token::new(TokenType::Identifier, "x".to_string(), 1),
            Token::new(TokenType::Eof, String::new(), 1),
        ]
    );
}

#[test]
fn multi_line_string_is_on_the_line_where_it_begins() {
    let (tokens, reports) = scan("a\n\"b\n\nc\" d");
    assert!(reports.is_empty());
    assert_eq!(
        tokens,
        vec![
            Token::new(TokenType::Identifier, "a".to_string(), 1),
            Token::new(TokenType::String("b\n\nc".to_string()), "\"b\n\nc\"".to_string(), 2),
            Token::new(TokenType::Identifier, "d".to_string(), 4),
            Token::new(TokenType::Eof, String::new(), 4),
        ]
    );
}

#[test]
fn number_literals() {
    let (tokens, reports) = scan("0 42 3.14 007 10.50");
    assert!(reports.is_empty());
    assert_eq!(
        tokens,
        vec![
            Token::new(number(&[0], 0), "0".to_string(), 1),
            Token::new(number(&[4, 2], 0), "42".to_string(), 1),
            Token::new(number(&[3, 1, 4], 2), "3.14".to_string(), 1),
            Token::new(number(&[0, 0, 7], 0), "007".to_string(), 1),
            Token::new(number(&[1, 0, 5, 0], 2), "10.50".to_string(), 1),
            Token::new(TokenType::Eof, String::new(), 1),
        ]
    );
    assert_eq!(value(tokens[1].typ()), 42.0);
    assert_eq!(value(tokens[2].typ()), 3.14);
    assert_eq!(value(tokens[3].typ()), 7.0);
    assert_eq!(value(tokens[4].typ()), 10.5);
}

#[test]
fn trailing_point_is_left_for_the_next_token() {
    assert_eq!(kinds("1."), vec![number(&[1], 0), TokenType::Dot, TokenType::Eof]);
    assert_eq!(
        kinds("1.x"),
        vec![number(&[1], 0), TokenType::Dot, TokenType::Identifier, TokenType::Eof]
    );
    assert_eq!(kinds(".5"), vec![TokenType::Dot, number(&[5], 0), TokenType::Eof]);
}

#[test]
fn number_has_at_most_one_point() {
    let (tokens, reports) = scan("1.2.3");
    assert!(reports.is_empty());
    assert_eq!(
        tokens,
        vec![
            Token::new(number(&[1, 2], 1), "1.2".to_string(), 1),
            Token::new(TokenType::Dot, ".".to_string(), 1),
            Token::new(number(&[3], 0), "3".to_string(), 1),
            Token::new(TokenType::Eof, String::new(), 1),
        ]
    );
}

#[test]
fn fraction_ends_at_the_first_other_character() {
    assert_eq!(
        kinds("1.5 + 2.25;"),
        vec![
            number(&[1, 5], 1),
            TokenType::Plus,
            number(&[2, 2, 5], 2),
            TokenType::SemiColon,
            TokenType::Eof,
        ]
    );
    assert_eq!(kinds("12abc"), vec![number(&[1, 2], 0), TokenType::Identifier, TokenType::Eof]);
}

#[test]
fn long_number_keeps_every_digit() {
    let source = "123456789012345678901234567890.5";
    let (tokens, reports) = scan(source);
    assert!(reports.is_empty());
    assert_eq!(tokens.len(), 2);
    assert_eq!(tokens[0].lexeme(), source);
    match tokens[0].typ() {
        TokenType::Number(decimal) => {
            assert_eq!(decimal.digits().len(), 31);
            assert_eq!(decimal.scale(), 1);
            assert_eq!(decimal.digits()[30], 5);
        }
        other => panic!("not a number: {:?}", other),
    }
}

#[test]
fn only_ascii_digits_and_letters_count() {
    let (tokens, reports) = scan("\u{663}\u{e9}");
    assert_eq!(tokens, vec![Token::new(TokenType::Eof, String::new(), 1)]);
    assert_eq!(reports.len(), 2);
}

#[test]
fn whitespace_yields_no_token() {
    let (tokens, reports) = scan(" \t\r\n \n");
    assert_eq!(tokens, vec![Token::new(TokenType::Eof, String::new(), 3)]);
    assert!(reports.is_empty());
}

#[test]
fn lines_count_the_newlines_before_a_token() {
    let source = "a\nb c\n\n\nd // e\nf\n";
    let (tokens, reports) = scan(source);
    assert!(reports.is_empty());
    let lines: Vec<usize> = tokens.iter().map(|token| token.line()).collect();
    assert_eq!(lines, vec![1, 2, 2, 5, 6, 7]);
    assert!(lines.windows(2).all(|pair| pair[0] <= pair[1]));
}

#[test]
fn lexemes_in_order_are_the_source_without_blanks_and_comments() {
    let source = "var  answer = (40+2) ; // the answer\nprint \"it is\" ;\n";
    let (tokens, reports) = scan(source);
    assert!(reports.is_empty());
    let joined: String = tokens.iter().map(|token| token.lexeme()).collect();
    assert_eq!(joined, "varanswer=(40+2);print\"it is\";");
    let trivia = |gap: &str| {
        gap.split("\n").all(|line| {
            let line = line.trim_matches(|c| c == ' ' || c == '\t' || c == '\r');
            line.is_empty() || line.starts_with("//")
        })
    };
    let mut rest = source;
    for token in &tokens[..tokens.len() - 1] {
        let at = rest.find(token.lexeme()).unwrap();
        assert!(trivia(&rest[..at]));
        rest = &rest[at + token.lexeme().len()..];
    }
    assert!(trivia(rest));
}

#[test]
fn scanning_twice_gives_the_same_result() {
    let source = "fun f(a) { return a >= 1.5 or @ \"x\ny\"; } \"open";
    let first = scan(source);
    let second = scan(source);
    assert_eq!(first, second);
    assert_eq!(first.1.len(), 2);
}

#[test]
fn scanning_again_appends_only_a_closing_token() {
    let mut lox = Lox::new();
    let mut scanner = Scanner::new("a".to_string());
    assert_eq!(scanner.scan_tokens(&mut lox).len(), 2);
    assert_eq!(scanner.scan_tokens(&mut lox).len(), 3);
    assert_eq!(scanner.tokens[2], Token::new(TokenType::Eof, String::new(), 1));
    assert!(!lox.had_error());
}

#[test]
fn reports_are_appended_to_those_already_made() {
    let mut lox = Lox::new();
    lox.error(7, "earlier");
    let mut scanner = Scanner::new("#".to_string());
    scanner.scan_tokens(&mut lox);
    assert!(lox.had_error());
    assert_eq!(
        lox.reports(),
        &vec![
            Report::new(7, String::new(), "earlier".to_string()),
            Report::new(1, String::new(), "Unexpected character '#'".to_string()),
        ]
    );
}
