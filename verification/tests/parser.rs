use lox::diagnostic::{Diagnostic, SyntaxError, Tier};
use lox::expr::{print_ast, Expr, LiteralValue};
use lox::number::Number;
use lox::parser::Parser;
use lox::scanner::Scanner;
use lox::statement::Stmt;
use lox::text::Glyph;
use lox::token::{Token, TokenType};

fn num(x: f32) -> Number {
    Number::from_bits(x.to_bits())
}

fn spell(glyphs: &[Glyph]) -> String {
    let mut out = String::new();
    for g in glyphs {
        match g {
            Glyph::Char(c) => out.push(*c),
            Glyph::Number(n) => out.push_str(&f32::from_bits(n.to_bits()).to_string()),
        }
    }
    out
}

fn scan(source: &str) -> Vec<Token> {
    let mut scanner = Scanner::new(source.to_string());
    while let Some(spelling) = scanner.scan_tokens() {
        if let Ok(value) = spelling.parse::<f32>() {
            scanner.add_token(TokenType::Number(num(value)));
        }
    }
    scanner.into_tokens()
}

fn parse(source: &str) -> (Result<Vec<Stmt>, SyntaxError>, Vec<String>) {
    let mut parser = Parser::new(scan(source));
    let result = parser.parse();
    let reports = parser.diagnostics().iter().map(|d: &Diagnostic| spell(&d.text())).collect();
    (result, reports)
}

fn number(x: f32) -> Expr {
    Expr::Literal(LiteralValue::Number(num(x)))
}

fn binary(left: Expr, tag: TokenType, right: Expr) -> Expr {
    Expr::Binary { left: Box::new(left), operator: Token::new(tag, 0), right: Box::new(right) }
}

fn variable(name: &str) -> Expr {
    Expr::Variable(Token::new(TokenType::Identifer(name.to_string()), 0))
}

#[test]
fn test_unary_minus() {
    let tokens = vec![
        Token::new(TokenType::Minus, 0),
        Token::new(TokenType::Number(num(9.0)), 0),
        Token::new(TokenType::Semicolon, 0),
    ];
    let mut parser = Parser::new(tokens);
    let result = parser.parse();

    assert!(result.is_ok());
    assert_eq!(
        result,
        Ok(vec![Stmt::Expr(Expr::Unary {
            operator: Token { tag: TokenType::Minus, line: 0 },
            operand: Box::new(Expr::Literal(LiteralValue::Number(num(9.0)))),
        })],)
    )
}

#[test]
fn test_unary_bang() {
    let tokens = vec![
        Token::new(TokenType::Bang, 0),
        Token::new(TokenType::Number(num(10.0)), 0),
        Token::new(TokenType::Semicolon, 0),
    ];
    let mut parser = Parser::new(tokens);
    let result = parser.parse();

    assert!(result.is_ok());
    assert_eq!(
        result,
        Ok(vec![Stmt::Expr(Expr::Unary {
            operator: Token { tag: TokenType::Bang, line: 0 },
            operand: Box::new(Expr::Literal(LiteralValue::Number(num(10.0)))),
        })],)
    )
}

#[test]
fn test_chained_binary_operations() {
    let tokens = vec![
        Token::new(TokenType::Number(num(10.0)), 0),
        Token::new(TokenType::Plus, 0),
        Token::new(TokenType::Number(num(2.0)), 0),
        Token::new(TokenType::Star, 0),
        Token::new(TokenType::Number(num(6.0)), 0),
        Token::new(TokenType::Semicolon, 0),
    ];

    let tokens_2 = vec![
        Token::new(TokenType::Number(num(4.0)), 0),
        Token::new(TokenType::Star, 0),
        Token::new(TokenType::Number(num(24.0)), 0),
        Token::new(TokenType::Plus, 0),
        Token::new(TokenType::Number(num(11.0)), 0),
        Token::new(TokenType::Semicolon, 0),
    ];
    let mut parser = Parser::new(tokens);
    let mut parser_2 = Parser::new(tokens_2);
    let result = parser.parse();
    let result_2 = parser_2.parse();

    assert!(result.is_ok());
    assert!(result_2.is_ok());
    assert_eq!(
        result,
        Ok(vec![Stmt::Expr(Expr::Binary {
            left: Box::new(Expr::Literal(LiteralValue::Number(num(10.0)))),
            operator: Token { tag: TokenType::Plus, line: 0 },
            right: Box::new(Expr::Binary {
                left: Box::new(Expr::Literal(LiteralValue::Number(num(2.0)))),
                operator: Token { tag: TokenType::Star, line: 0 },
                right: Box::new(Expr::Literal(LiteralValue::Number(num(6.0)))),
            }),
        })],)
    );

    assert_eq!(
        result_2,
        Ok(vec![Stmt::Expr(Expr::Binary {
            right: Box::new(Expr::Literal(LiteralValue::Number(num(11.0)))),
            operator: Token { tag: TokenType::Plus, line: 0 },
            left: Box::new(Expr::Binary {
                left: Box::new(Expr::Literal(LiteralValue::Number(num(4.0)))),
                operator: Token { tag: TokenType::Star, line: 0 },
                right: Box::new(Expr::Literal(LiteralValue::Number(num(24.0)))),
            }),
        })],)
    );
}

#[test]
fn binary_tiers_group_to_the_left() {
    let (result, reports) = parse("1 - 2 - 3;");
    assert!(reports.is_empty());
    assert_eq!(
        result,
        Ok(vec![Stmt::Expr(binary(
            binary(number(1.0), TokenType::Minus, number(2.0)),
            TokenType::Minus,
            number(3.0)
        ))])
    );
}

#[test]
fn comparison_binds_tighter_than_equality() {
    let (result, _) = parse("1 < 2 == true;");
    assert_eq!(
        result,
        Ok(vec![Stmt::Expr(binary(
            binary(number(1.0), TokenType::Less, number(2.0)),
            TokenType::EqualEqual,
            Expr::Literal(LiteralValue::True)
        ))])
    );
}

#[test]
fn assignment_groups_to_the_right() {
    let (result, reports) = parse("a = b = 1;");
    assert!(reports.is_empty());
    assert_eq!(
        result,
        Ok(vec![Stmt::Expr(Expr::Assign {
            name: Token::new(TokenType::Identifer("a".to_string()), 0),
            value: Box::new(Expr::Assign {
                name: Token::new(TokenType::Identifer("b".to_string()), 0),
                value: Box::new(number(1.0)),
            }),
        })])
    );
}

#[test]
fn invalid_assignment_target_is_only_remarked_upon() {
    let (result, reports) = parse("1 = 2;");
    assert_eq!(result, Ok(vec![Stmt::Expr(number(1.0))]));
    assert_eq!(reports, vec!["invalid assignment target".to_string()]);
}

#[test]
fn ternary_takes_three_equalities() {
    let (result, reports) = parse("true ? 1 : 2;");
    assert!(reports.is_empty());
    assert_eq!(
        result,
        Ok(vec![Stmt::Expr(Expr::Ternary {
            condition: Box::new(Expr::Literal(LiteralValue::True)),
            true_expr: Box::new(number(1.0)),
            false_expr: Box::new(number(2.0)),
        })])
    );
}

#[test]
fn ternary_without_colon_is_reported_on_the_line_of_the_question_mark() {
    let (result, reports) = parse("\ntrue ? 1 ;");
    assert_eq!(result, Err(SyntaxError::ParsingErrors));
    assert_eq!(
        reports,
        vec![
            "1: uh oh expected ':' in ternary expression, line: 1".to_string(),
            "uh oh expected ':' in ternary expression, line: 1".to_string(),
        ]
    );
}

#[test]
fn grouping_needs_its_closing_parenthesis() {
    let (result, reports) = parse("(1 + 2;");
    assert_eq!(result, Err(SyntaxError::ParsingErrors));
    assert_eq!(
        reports,
        vec![
            "0: expected ')' after expression".to_string(),
            "expected ')' after expression".to_string(),
        ]
    );
    let (result, reports) = parse("(1 + 2);");
    assert!(reports.is_empty());
    assert_eq!(
        result,
        Ok(vec![Stmt::Expr(Expr::Grouping {
            expr: Box::new(binary(number(1.0), TokenType::Plus, number(2.0))),
        })])
    );
}

#[test]
fn statements_of_each_kind() {
    let (result, reports) = parse("var a = 1; var b; print a; a;");
    assert!(reports.is_empty());
    assert_eq!(
        result,
        Ok(vec![
            Stmt::VarDec { name: "a".to_string(), initializer: Some(number(1.0)) },
            Stmt::VarDec { name: "b".to_string(), initializer: None },
            Stmt::Print(variable("a")),
            Stmt::Expr(variable("a")),
        ])
    );
}

#[test]
fn missing_semicolon_fails_the_statement() {
    let (result, reports) = parse("print 1");
    assert_eq!(result, Err(SyntaxError::ParsingErrors));
    assert_eq!(reports, vec!["expected a semicolon following statement".to_string()]);
}

#[test]
fn var_needs_a_name() {
    let (result, reports) = parse("var 1 = 2;");
    assert_eq!(result, Err(SyntaxError::ParsingErrors));
    assert_eq!(reports, vec!["expected an identifer after 'var' keyword".to_string()]);
}

#[test]
fn unexpected_token_is_reported_with_its_line() {
    let (result, reports) = parse("\n\n);");
    assert_eq!(result, Err(SyntaxError::ParsingErrors));
    assert_eq!(reports, vec!["2: unexpected ')'".to_string(), "unexpected ')'".to_string()]);
}

#[test]
fn end_of_input_inside_an_expression() {
    let (result, reports) = parse("1 +");
    assert_eq!(result, Err(SyntaxError::ParsingErrors));
    assert_eq!(reports, vec!["0: unexpected 'EOF'".to_string(), "unexpected 'EOF'".to_string()]);

    let mut parser = Parser::new(vec![Token::new(TokenType::Minus, 3)]);
    assert_eq!(parser.parse(), Err(SyntaxError::ParsingErrors));
    let reports: Vec<String> = parser.diagnostics().iter().map(|d| spell(&d.text())).collect();
    assert_eq!(
        reports,
        vec!["0: unexpected end of input".to_string(), "unexpected end of input".to_string()]
    );
}

#[test]
fn leading_operator_reports_the_missing_operand_of_its_tier() {
    for (source, tier) in [
        ("== 1 2;", "equality"),
        ("!= 1 2;", "equality"),
        ("< 1 2;", "comparison"),
        (">= 1 2;", "comparison"),
        ("+ 1 2;", "addition"),
        ("* 1 2;", "multiplication"),
        ("/ 1 2;", "multiplication"),
    ] {
        let (result, reports) = parse(source);
        assert_eq!(result, Ok(vec![Stmt::Expr(number(2.0))]), "{}", source);
        assert_eq!(
            reports,
            vec![format!("0: missing left-hand-side operand for {} expression", tier)],
            "{}",
            source
        );
    }
    assert_eq!(
        SyntaxError::MissingLeftOperand(Tier::Addition),
        SyntaxError::MissingLeftOperand(Tier::Addition)
    );
}

#[test]
fn leading_minus_is_a_negation() {
    let (result, reports) = parse("- 1;");
    assert!(reports.is_empty());
    assert_eq!(
        result,
        Ok(vec![Stmt::Expr(Expr::Unary {
            operator: Token::new(TokenType::Minus, 0),
            operand: Box::new(number(1.0)),
        })])
    );
}

#[test]
fn a_rejected_statement_does_not_hide_the_next_one() {
    let (result, reports) = parse("print ); print 1 +; var x = 1;");
    assert_eq!(result, Err(SyntaxError::ParsingErrors));
    assert_eq!(
        reports,
        vec![
            "0: unexpected ')'".to_string(),
            "unexpected ')'".to_string(),
            "0: unexpected ';'".to_string(),
            "unexpected ';'".to_string(),
        ]
    );
}

#[test]
fn recovery_stops_before_a_token_that_begins_a_statement() {
    let mut parser = Parser::new(scan("1 2 print 3;"));
    assert_eq!(parser.parse(), Err(SyntaxError::ParsingErrors));
    let reports: Vec<String> = parser.diagnostics().iter().map(|d| spell(&d.text())).collect();
    assert_eq!(reports, vec!["expected a semicolon following statement".to_string()]);
}

#[test]
fn a_keyword_that_begins_nothing_is_passed_over() {
    let (result, reports) = parse("if; print 1;");
    assert_eq!(result, Err(SyntaxError::ParsingErrors));
    assert_eq!(
        reports,
        vec![
            "0: unexpected 'if'".to_string(),
            "unexpected 'if'".to_string(),
            "0: unexpected ';'".to_string(),
            "unexpected ';'".to_string(),
        ]
    );
}

#[test]
fn empty_program_has_no_statements() {
    let (result, reports) = parse("");
    assert_eq!(result, Ok(vec![]));
    assert!(reports.is_empty());
    let mut parser = Parser::new(vec![]);
    assert_eq!(parser.parse(), Ok(vec![]));
}

#[test]
fn parsed_statements_are_well_formed() {
    let (result, _) = parse("var a = 1; a = a + 2 * (3 - 1); print a > 1 ? \"x\" : !a;");
    for statement in result.unwrap() {
        assert!(statement.is_well_formed());
    }
    let odd = Expr::Variable(Token::new(TokenType::Minus, 0));
    assert!(!odd.is_well_formed());
    let odd = binary(number(1.0), TokenType::Comma, Expr::Variable(Token::new(TokenType::Nil, 0)));
    assert!(!odd.is_well_formed());
    assert!(binary(number(1.0), TokenType::Comma, number(2.0)).is_well_formed());
}

#[test]
fn literals_read_back_from_their_prefix_form() {
    for value in [
        LiteralValue::True,
        LiteralValue::False,
        LiteralValue::Nil,
        LiteralValue::Number(num(45.67)),
        LiteralValue::Number(num(123.0)),
    ] {
        let tree = Expr::Literal(value);
        let written = spell(&print_ast(&tree));
        let (result, reports) = parse(&format!("{};", written));
        assert!(reports.is_empty());
        assert_eq!(result, Ok(vec![Stmt::Expr(tree)]));
    }
    assert_eq!(spell(&print_ast(&Expr::Literal(LiteralValue::True))), "true");
}

#[test]
fn prefix_form_of_an_operation_does_not_read_back() {
    let negation =
        Expr::Unary { operator: Token::new(TokenType::Minus, 0), operand: Box::new(number(123.0)) };
    let written = spell(&print_ast(&negation));
    assert_eq!(written, "(- 123)");
    let (result, _) = parse(&format!("{};", written));
    assert_eq!(result, Ok(vec![Stmt::Expr(Expr::Grouping { expr: Box::new(negation) })]));

    let product = binary(number(2.0), TokenType::Star, number(3.0));
    let written = spell(&print_ast(&product));
    assert_eq!(written, "(* 2 3)");
    let (result, reports) = parse(&format!("{};", written));
    assert_eq!(result, Ok(vec![Stmt::Expr(Expr::Grouping { expr: Box::new(number(3.0)) })]));
    assert_eq!(
        reports,
        vec!["0: missing left-hand-side operand for multiplication expression".to_string()]
    );
}
