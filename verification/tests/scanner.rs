use lox::diagnostic::{Diagnostic, SyntaxError};
use lox::number::Number;
use lox::scanner::{is_alpha, is_alphanumeric, is_digit, Scanner};
use lox::text::Glyph;
use lox::token::{Token, TokenType};

fn num(x: f32) -> Number {
    Number::from_bits(x.to_bits())
}

fn spell(glyphs: &[Glyph]) -> String {
    let mut out = String::new();
    for g in glyphs {
        match g {
            Glyph::Char(c) => out.push(*c),
            Glyph::Number(n) => out.push_str(&f32::from_bits(n.to_bits()).to_string()),
        }
    }
    out
}

fn scanned(source: &str) -> Scanner {
    let mut scanner = Scanner::new(source.to_string());
    while let Some(spelling) = scanner.scan_tokens() {
        if let Ok(value) = spelling.parse::<f32>() {
            scanner.add_token(TokenType::Number(num(value)));
        }
    }
    scanner
}

fn tags(source: &str) -> Vec<TokenType> {
    scanned(source).into_tokens().into_iter().map(|t| t.tag).collect()
}

fn lines(source: &str) -> Vec<usize> {
    scanned(source).into_tokens().into_iter().map(|t| t.line).collect()
}

fn reports(source: &str) -> Vec<String> {
    scanned(source).diagnostics().iter().map(|d: &Diagnostic| spell(&d.text())).collect()
}

fn ident(name: &str) -> TokenType {
    TokenType::Identifer(name.to_string())
}

#[test]
fn empty_source_is_only_the_end() {
    assert_eq!(scanned("").into_tokens(), vec![Token::new(TokenType::EOF, 0)]);
}

#[test]
fn single_character_tokens() {
    assert_eq!(
        tags("(){},.-+;*?:"),
        vec![
            TokenType::LeftParen,
            TokenType::RightParen,
            TokenType::LeftBrace,
            TokenType::RightBrace,
            TokenType::Comma,
            TokenType::Dot,
            TokenType::Minus,
            TokenType::Plus,
            TokenType::Semicolon,
            TokenType::Star,
            TokenType::QuestionMark,
            TokenType::Colon,
            TokenType::EOF,
        ]
    );
}

#[test]
fn one_lookahead_decides_two_character_operators() {
    assert_eq!(
        tags("! != = == < <= > >="),
        vec![
            TokenType::Bang,
            TokenType::BangEqual,
            TokenType::Equal,
            TokenType::EqualEqual,
            TokenType::Less,
            TokenType::LessEqual,
            TokenType::Greater,
            TokenType::GreaterEqual,
            TokenType::EOF,
        ]
    );
    assert_eq!(
        tags("!==>=="),
        vec![
            TokenType::BangEqual,
            TokenType::Equal,
            TokenType::GreaterEqual,
            TokenType::Equal,
            TokenType::EOF
        ]
    );
    assert_eq!(tags("="), vec![TokenType::Equal, TokenType::EOF]);
}

#[test]
fn slash_alone_is_a_token() {
    assert_eq!(
        tags("1 / 2"),
        vec![
            TokenType::Number(num(1.0)),
            TokenType::Slash,
            TokenType::Number(num(2.0)),
            TokenType::EOF
        ]
    );
    assert_eq!(tags("/"), vec![TokenType::Slash, TokenType::EOF]);
}

#[test]
fn line_comment_runs_to_the_end_of_the_line() {
    assert_eq!(tags("a // b c\nd"), vec![ident("a"), ident("d"), TokenType::EOF]);
    assert_eq!(lines("a // b c\nd"), vec![0, 1, 1]);
    assert_eq!(tags("// only"), vec![TokenType::EOF]);
}

#[test]
fn block_comments_nest() {
    assert_eq!(
        tags("a /* b /* c */ d */ e"),
        vec![ident("a"), ident("e"), TokenType::EOF]
    );
    assert_eq!(tags("a /* b /* c */ d"), vec![ident("a"), TokenType::EOF]);
    assert_eq!(tags("/**/a"), vec![ident("a"), TokenType::EOF]);
    assert_eq!(tags("/*/ */a"), vec![ident("a"), TokenType::EOF]);
    assert_eq!(tags("/* */ */"), vec![TokenType::Star, TokenType::Slash, TokenType::EOF]);
    assert!(reports("a /* never closed").is_empty());
}

#[test]
fn newlines_in_comments_count() {
    assert_eq!(lines("/* 1\n2\n/* 3\n */ */ a\n// x\nb"), vec![3, 5, 5]);
}

#[test]
fn strings_keep_their_content() {
    assert_eq!(
        tags("\"hello world\""),
        vec![TokenType::STRING("hello world".to_string()), TokenType::EOF]
    );
    assert_eq!(tags("\"\""), vec![TokenType::STRING(String::new()), TokenType::EOF]);
    assert_eq!(
        tags("\"a\"+\"b\""),
        vec![
            TokenType::STRING("a".to_string()),
            TokenType::Plus,
            TokenType::STRING("b".to_string()),
            TokenType::EOF
        ]
    );
    assert_eq!(
        tags("\"caf\u{e9} \u{4e16}\" x"),
        vec![TokenType::STRING("caf\u{e9} \u{4e16}".to_string()), ident("x"), TokenType::EOF]
    );
}

#[test]
fn a_string_over_several_lines_is_on_its_last_line() {
    let tokens = scanned("\"a\nb\nc\" d").into_tokens();
    assert_eq!(
        tokens,
        vec![
            Token::new(TokenType::STRING("a\nb\nc".to_string()), 2),
            Token::new(ident("d"), 2),
            Token::new(TokenType::EOF, 2),
        ]
    );
}

#[test]
fn unterminated_string_is_reported_and_ends_the_scan() {
    let scanner = scanned("a \"b c\nd");
    let said: Vec<String> = scanner.diagnostics().iter().map(|d| spell(&d.text())).collect();
    assert_eq!(said, vec!["1: Unterminated string".to_string()]);
    assert_eq!(
        scanner.diagnostics()[0],
        Diagnostic { line: Some(1), error: SyntaxError::UnterminatedString }
    );
    assert_eq!(
        scanner.into_tokens(),
        vec![Token::new(ident("a"), 0), Token::new(TokenType::EOF, 1)]
    );
}

#[test]
fn numbers_with_and_without_fraction() {
    assert_eq!(tags("123"), vec![TokenType::Number(num(123.0)), TokenType::EOF]);
    assert_eq!(tags("45.67"), vec![TokenType::Number(num(45.67)), TokenType::EOF]);
    assert_eq!(tags("0.5"), vec![TokenType::Number(num(0.5)), TokenType::EOF]);
    assert_eq!(
        tags("1.2.3"),
        vec![
            TokenType::Number(num(1.2)),
            TokenType::Dot,
            TokenType::Number(num(3.0)),
            TokenType::EOF
        ]
    );
}

#[test]
fn a_dot_without_a_digit_behind_it_is_not_part_of_the_number() {
    assert_eq!(tags("7."), vec![TokenType::Number(num(7.0)), TokenType::Dot, TokenType::EOF]);
    assert_eq!(
        tags("7.x"),
        vec![TokenType::Number(num(7.0)), TokenType::Dot, ident("x"), TokenType::EOF]
    );
    assert_eq!(tags(".5"), vec![TokenType::Dot, TokenType::Number(num(5.0)), TokenType::EOF]);
}

#[test]
fn the_spelling_of_a_number_is_handed_out() {
    let mut scanner = Scanner::new("a 12.50 b 7".to_string());
    assert_eq!(scanner.scan_tokens(), Some("12.50".to_string()));
    assert_eq!(scanner.tokens(), &vec![Token::new(ident("a"), 0)]);
    scanner.add_token(TokenType::Number(num(12.5)));
    assert_eq!(scanner.scan_tokens(), Some("7".to_string()));
    assert_eq!(scanner.scan_tokens(), None);
    assert_eq!(
        scanner.into_tokens(),
        vec![
            Token::new(ident("a"), 0),
            Token::new(TokenType::Number(num(12.5)), 0),
            Token::new(ident("b"), 0),
            Token::new(TokenType::EOF, 0),
        ]
    );
}

#[test]
fn a_number_without_a_value_leaves_no_token() {
    let mut scanner = Scanner::new("1 + 2".to_string());
    assert_eq!(scanner.scan_tokens(), Some("1".to_string()));
    assert_eq!(scanner.scan_tokens(), Some("2".to_string()));
    assert_eq!(scanner.scan_tokens(), None);
    assert_eq!(
        scanner.into_tokens(),
        vec![Token::new(TokenType::Plus, 0), Token::new(TokenType::EOF, 0)]
    );
}

#[test]
fn identifiers_and_keywords() {
    assert_eq!(
        tags("and class else false fun for if nil or print return super this true var while"),
        vec![
            TokenType::And,
            TokenType::Class,
            TokenType::Else,
            TokenType::False,
            TokenType::Fun,
            TokenType::For,
            TokenType::If,
            TokenType::Nil,
            TokenType::Or,
            TokenType::Print,
            TokenType::Return,
            TokenType::Super,
            TokenType::This,
            TokenType::True,
            TokenType::Var,
            TokenType::While,
            TokenType::EOF,
        ]
    );
    assert_eq!(
        tags("_a1 Var vars nil_ x9_ EOF"),
        vec![
            ident("_a1"),
            ident("Var"),
            ident("vars"),
            ident("nil_"),
            ident("x9_"),
            ident("EOF"),
            TokenType::EOF
        ]
    );
    assert_eq!(tags("1a"), vec![TokenType::Number(num(1.0)), ident("a"), TokenType::EOF]);
}

#[test]
fn whitespace_is_dropped_and_newlines_count() {
    assert_eq!(tags(" \t\r\n a \n\n b "), vec![ident("a"), ident("b"), TokenType::EOF]);
    assert_eq!(lines(" \t\r\n a \n\n b \n"), vec![1, 3, 4]);
}

#[test]
fn unexpected_character_is_reported_and_passed_over() {
    let scanner = scanned("a @ b\n# c");
    let said: Vec<String> = scanner.diagnostics().iter().map(|d| spell(&d.text())).collect();
    assert_eq!(
        said,
        vec!["0: Unexpected character: @".to_string(), "1: Unexpected character: #".to_string()]
    );
    assert_eq!(
        scanner.diagnostics()[0],
        Diagnostic { line: Some(0), error: SyntaxError::UnexpectedCharacter('@') }
    );
    let found: Vec<TokenType> = scanner.into_tokens().into_iter().map(|t| t.tag).collect();
    assert_eq!(found, vec![ident("a"), ident("b"), ident("c"), TokenType::EOF]);
}

#[test]
fn a_statement_scans_to_its_tokens() {
    assert_eq!(
        scanned("var answer = 6 * 7;\nprint answer >= 42 ? \"yes\" : \"no\";").into_tokens(),
        vec![
            Token::new(TokenType::Var, 0),
            Token::new(ident("answer"), 0),
            Token::new(TokenType::Equal, 0),
            Token::new(TokenType::Number(num(6.0)), 0),
            Token::new(TokenType::Star, 0),
            Token::new(TokenType::Number(num(7.0)), 0),
            Token::new(TokenType::Semicolon, 0),
            Token::new(TokenType::Print, 1),
            Token::new(ident("answer"), 1),
            Token::new(TokenType::GreaterEqual, 1),
            Token::new(TokenType::Number(num(42.0)), 1),
            Token::new(TokenType::QuestionMark, 1),
            Token::new(TokenType::STRING("yes".to_string()), 1),
            Token::new(TokenType::Colon, 1),
            Token::new(TokenType::STRING("no".to_string()), 1),
            Token::new(TokenType::Semicolon, 1),
            Token::new(TokenType::EOF, 1),
        ]
    );
}

#[test]
fn scanning_by_hand() {
    let mut scanner = Scanner::new("a=\n1".to_string());
    assert!(!scanner.is_at_end());
    assert_eq!(scanner.peek(), Some('a'));
    assert_eq!(scanner.peek_next(), Some('='));
    assert_eq!(scanner.scan_token(), None);
    assert_eq!(scanner.tokens(), &vec![Token::new(ident("a"), 0)]);
    assert!(!scanner.match_char('x'));
    assert!(scanner.match_char('='));
    assert_eq!(scanner.advance(), '\n');
    scanner.add_token(TokenType::Equal);
    assert_eq!(scanner.peek(), Some('1'));
    assert_eq!(scanner.peek_next(), None);
    assert_eq!(scanner.scan_token(), Some("1".to_string()));
    assert!(scanner.is_at_end());
    assert_eq!(scanner.peek(), None);
    assert!(!scanner.match_char('1'));
    assert_eq!(
        scanner.into_tokens(),
        vec![Token::new(ident("a"), 0), Token::new(TokenType::Equal, 0)]
    );
}

#[test]
fn classes_of_characters() {
    for c in ['a', 'z', 'A', 'Z', '_', 'm'] {
        assert!(is_alpha(c));
        assert!(is_alphanumeric(c));
        assert!(!is_digit(c));
    }
    for c in ['0', '5', '9'] {
        assert!(!is_alpha(c));
        assert!(is_alphanumeric(c));
        assert!(is_digit(c));
    }
    for c in [' ', '-', '@', '[', '`', '{', '/', ':', '\u{e9}', '\u{663}'] {
        assert!(!is_alpha(c));
        assert!(!is_alphanumeric(c));
        assert!(!is_digit(c));
    }
}

#[test]
fn token_text_is_kind_and_line() {
    assert_eq!(spell(&Token::new(TokenType::BangEqual, 12).text()), "(!=, 12)");
    assert_eq!(spell(&Token::new(ident("abc"), 0).text()), "(abc, 0)");
    assert_eq!(spell(&Token::new(TokenType::Number(num(1.5)), 1234567890).text()), "(1.5, 1234567890)");
    assert_eq!(spell(&Token::new(TokenType::STRING("s t".to_string()), 9).text()), "(s t, 9)");
    assert_eq!(spell(&Token::new(TokenType::EOF, 100).text()), "(EOF, 100)");
}

#[test]
fn every_fixed_kind_has_its_spelling() {
    let expected = [
        (TokenType::LeftParen, "("),
        (TokenType::RightParen, ")"),
        (TokenType::LeftBrace, "{"),
        (TokenType::RightBrace, "}"),
        (TokenType::Comma, ","),
        (TokenType::Dot, "."),
        (TokenType::Minus, "-"),
        (TokenType::Plus, "+"),
        (TokenType::Colon, ":"),
        (TokenType::Semicolon, ";"),
        (TokenType::Slash, "/"),
        (TokenType::Star, "*"),
        (TokenType::Bang, "!"),
        (TokenType::BangEqual, "!="),
        (TokenType::Equal, "="),
        (TokenType::EqualEqual, "=="),
        (TokenType::Greater, ">"),
        (TokenType::GreaterEqual, ">="),
        (TokenType::Less, "<"),
        (TokenType::LessEqual, "<="),
        (TokenType::And, "and"),
        (TokenType::Class, "class"),
        (TokenType::Else, "else"),
        (TokenType::False, "false"),
        (TokenType::Fun, "fun"),
        (TokenType::For, "for"),
        (TokenType::If, "if"),
        (TokenType::Nil, "nil"),
        (TokenType::Or, "or"),
        (TokenType::Print, "print"),
        (TokenType::Return, "return"),
        (TokenType::Super, "super"),
        (TokenType::This, "this"),
        (TokenType::True, "true"),
        (TokenType::Var, "var"),
        (TokenType::While, "while"),
        (TokenType::EOF, "EOF"),
        (TokenType::QuestionMark, "?"),
    ];
    for (tag, text) in expected {
        assert_eq!(tag.symbol(), Some(text));
        assert_eq!(spell(&tag.text()), text);
        assert!(tag.is(&tag.clone()));
        assert_eq!(tag.get_identifier_value(), None);
    }
    assert_eq!(ident("x").symbol(), None);
    assert_eq!(ident("x").get_identifier_value(), Some("x".to_string()));
    assert!(!ident("x").is(&ident("y")));
    assert!(!ident("x").is(&TokenType::STRING("x".to_string())));
    assert!(TokenType::Number(num(2.0)).is(&TokenType::Number(num(2.0))));
    assert!(!TokenType::Number(num(2.0)).is(&TokenType::Number(num(3.0))));
    assert!(!TokenType::Plus.is(&TokenType::Minus));
}
