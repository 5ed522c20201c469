use lox::expr::{print_ast, Expr, LiteralValue};
use lox::number::Number;
use lox::text::{push_decimal, push_glyphs, push_text, Glyph};
use lox::token::{Token, TokenType};

fn num(x: f32) -> Number {
    Number::from_bits(x.to_bits())
}

fn spell(glyphs: &[Glyph]) -> String {
    let mut out = String::new();
    for g in glyphs {
        match g {
            Glyph::Char(c) => out.push(*c),
            Glyph::Number(n) => out.push_str(&f32::from_bits(n.to_bits()).to_string()),
        }
    }
    out
}

fn rpn(e: &Expr) -> String {
    match e {
        Expr::Binary { left, operator, right } => {
            format!("{} {} {}", rpn(left), rpn(right), spell(&operator.tag.text()))
        }
        Expr::Literal(val) => spell(&val.text()),
        Expr::Grouping { expr } => rpn(expr),
        Expr::Unary { operator, operand } => {
            format!("{}{}", spell(&operator.tag.text()), rpn(operand))
        }
        _ => unreachable!(),
    }
}

#[test]
fn test_print_ast() {
    let minus_operator = Token::new(TokenType::Minus, 1);
    let mul_operator = Token::new(TokenType::Star, 1);
    let lit_123 = LiteralValue::Number(num(123.0));
    let lit_4567 = LiteralValue::Number(num(45.67));
    let expr = Expr::Binary {
        left: Box::new(Expr::Unary {
            operator: minus_operator,
            operand: Box::new(Expr::Literal(lit_123)),
        }),
        operator: mul_operator,
        right: Box::new(Expr::Grouping { expr: Box::new(Expr::Literal(lit_4567)) }),
    };

    assert_eq!(spell(&print_ast(&expr)), "(* (- 123) (grouping 45.67))")
}

#[test]
fn test_rpn() {
    let minus_operator = Token::new(TokenType::Minus, 1);
    let mul_operator = Token::new(TokenType::Star, 1);
    let plus_operator = Token::new(TokenType::Plus, 1);
    let expr = Expr::Binary {
        left: Box::new(Expr::Binary {
            left: Box::new(Expr::Literal(LiteralValue::Number(num(1.0)))),
            operator: plus_operator,
            right: Box::new(Expr::Literal(LiteralValue::Number(num(2.0)))),
        }),
        operator: mul_operator,
        right: Box::new(Expr::Binary {
            left: Box::new(Expr::Literal(LiteralValue::Number(num(4.0)))),
            operator: minus_operator,
            right: Box::new(Expr::Literal(LiteralValue::Number(num(3.0)))),
        }),
    };

    assert_eq!(rpn(&expr), "1 2 + 4 3 - *")
}

#[test]
fn prefix_form_of_every_kind_of_node() {
    let a = Token::new(TokenType::Identifer("a".to_string()), 0);
    let ternary = Expr::Ternary {
        condition: Box::new(Expr::Variable(a.clone())),
        true_expr: Box::new(Expr::Literal(LiteralValue::True)),
        false_expr: Box::new(Expr::Literal(LiteralValue::Nil)),
    };
    assert_eq!(spell(&print_ast(&ternary)), "(? a true nil)");
    let assign = Expr::Assign {
        name: a,
        value: Box::new(Expr::Literal(LiteralValue::STRING("s".to_string()))),
    };
    assert_eq!(spell(&print_ast(&assign)), "(= a s)");
    assert_eq!(spell(&print_ast(&Expr::Literal(LiteralValue::False))), "false");
    assert_eq!(
        print_ast(&Expr::Literal(LiteralValue::Number(num(2.5)))),
        vec![Glyph::Number(num(2.5))]
    );
}

#[test]
fn values_are_written_canonically() {
    assert_eq!(spell(&LiteralValue::True.text()), "true");
    assert_eq!(spell(&LiteralValue::False.text()), "false");
    assert_eq!(spell(&LiteralValue::Nil.text()), "nil");
    assert_eq!(spell(&LiteralValue::STRING("a \"b\"".to_string()).text()), "a \"b\"");
    assert_eq!(spell(&LiteralValue::Number(num(45.67)).text()), "45.67");
    assert_eq!(LiteralValue::Number(num(1.0)).text(), vec![Glyph::Number(num(1.0))]);
}

#[test]
fn truth_and_kind_of_values() {
    assert!(LiteralValue::True.is_truthy());
    assert!(!LiteralValue::False.is_truthy());
    assert!(!LiteralValue::Nil.is_truthy());
    assert!(LiteralValue::STRING(String::new()).is_truthy());
    assert!(LiteralValue::Number(num(0.0)).is_truthy());
    assert!(LiteralValue::Number(num(0.0)).is_number());
    assert!(!LiteralValue::STRING("1".to_string()).is_number());
    assert!(!LiteralValue::True.is_number());
    assert!(!LiteralValue::Nil.is_number());
    assert_eq!(LiteralValue::from(true), LiteralValue::True);
    assert_eq!(LiteralValue::from(false), LiteralValue::False);
}

#[test]
fn equality_of_values() {
    let one = LiteralValue::Number(num(1.0));
    assert!(one.equals(&LiteralValue::Number(num(1.0))));
    assert!(!one.equals(&LiteralValue::Number(num(2.0))));
    assert!(!one.equals(&LiteralValue::STRING("1".to_string())));
    assert!(LiteralValue::Number(num(0.0)).equals(&LiteralValue::Number(num(-0.0))));
    assert!(!LiteralValue::Number(num(f32::NAN)).equals(&LiteralValue::Number(num(f32::NAN))));
    assert!(LiteralValue::STRING("a".to_string()).equals(&LiteralValue::STRING("a".to_string())));
    assert!(!LiteralValue::STRING("a".to_string()).equals(&LiteralValue::STRING("b".to_string())));
    assert!(LiteralValue::Nil.equals(&LiteralValue::Nil));
    assert!(!LiteralValue::Nil.equals(&LiteralValue::False));
    assert!(LiteralValue::True.equals(&LiteralValue::True));
    assert!(!LiteralValue::True.equals(&LiteralValue::False));
}

#[test]
fn text_is_built_from_pieces() {
    let mut out = Vec::new();
    push_text(&mut out, "n=");
    push_decimal(&mut out, 0);
    push_text(&mut out, ",");
    push_decimal(&mut out, 7);
    push_text(&mut out, ",");
    push_decimal(&mut out, 10);
    push_text(&mut out, ",");
    push_decimal(&mut out, 4096);
    push_text(&mut out, ",");
    push_decimal(&mut out, usize::MAX);
    let more = vec![Glyph::Char('!'), Glyph::Number(num(0.5))];
    push_glyphs(&mut out, &more);
    assert_eq!(spell(&out), format!("n=0,7,10,4096,{}!0.5", usize::MAX));
}
