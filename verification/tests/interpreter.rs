use lox::expr::{Expr, LiteralValue};
use lox::interpreter::environment::Environment;
use lox::interpreter::error::RuntimeError;
use lox::interpreter::{
    apply_unary, combine_values, Combined, Evaluation, Execution, Interpretation, Interpreter,
};
use lox::number::{Arithmetic, Number, Operation};
use lox::parser::Parser;
use lox::scanner::Scanner;
use lox::statement::Stmt;
use lox::text::Glyph;
use lox::token::{Token, TokenType};

fn num(x: f32) -> Number {
    Number::from_bits(x.to_bits())
}

fn float(n: Number) -> f32 {
    f32::from_bits(n.to_bits())
}

fn spell(glyphs: &[Glyph]) -> String {
    let mut out = String::new();
    for g in glyphs {
        match g {
            Glyph::Char(c) => out.push(*c),
            Glyph::Number(n) => out.push_str(&float(*n).to_string()),
        }
    }
    out
}

fn compute(request: Arithmetic) -> Number {
    let (l, r) = (float(request.left), float(request.right));
    num(match request.operation {
        Operation::Add => l + r,
        Operation::Subtract => l - r,
        Operation::Multiply => l * r,
        Operation::Divide => l / r,
    })
}

fn parse(source: &str) -> Vec<Stmt> {
    let mut scanner = Scanner::new(source.to_string());
    while let Some(spelling) = scanner.scan_tokens() {
        if let Ok(value) = spelling.parse::<f32>() {
            scanner.add_token(TokenType::Number(num(value)));
        }
    }
    Parser::new(scanner.into_tokens()).parse().expect("the source is a program")
}

fn evaluate(interpreter: &mut Interpreter, e: Expr) -> Result<LiteralValue, RuntimeError> {
    let mut left = e;
    let mut answer = None;
    loop {
        match interpreter.evaluate(left, answer) {
            Evaluation::Value(value) => return Ok(value),
            Evaluation::Failed(error) => return Err(error),
            Evaluation::Pending { request, residual } => {
                answer = Some(compute(request));
                left = residual;
            }
        }
    }
}

fn interpret(interpreter: &mut Interpreter, statements: Vec<Stmt>) -> Result<(), RuntimeError> {
    let mut left = statements;
    let mut answer = None;
    loop {
        match interpreter.interpret(&left, answer) {
            Interpretation::Finished => return Ok(()),
            Interpretation::Failed(error) => return Err(error),
            Interpretation::Pending { request, residual } => {
                answer = Some(compute(request));
                left = residual;
            }
        }
    }
}

fn run(source: &str) -> (Result<(), String>, String) {
    let mut interpreter = Interpreter::new();
    let result = interpret(&mut interpreter, parse(source)).map_err(|e| spell(&e.message()));
    (result, spell(interpreter.output()))
}

fn number(x: f32) -> Expr {
    Expr::Literal(LiteralValue::Number(num(x)))
}

fn string(s: &str) -> Expr {
    Expr::Literal(LiteralValue::STRING(s.to_string()))
}

fn binary(left: Expr, tag: TokenType, right: Expr) -> Expr {
    Expr::Binary { left: Box::new(left), operator: Token::new(tag, 0), right: Box::new(right) }
}

fn name(text: &str, line: usize) -> Token {
    Token::new(TokenType::Identifer(text.to_string()), line)
}

#[test]
fn test_addition() {
    let mut interpreter = Interpreter::default();
    let expr_1 = Expr::Binary {
        left: Box::new(Expr::Literal(LiteralValue::Number(num(10.0)))),
        right: Box::new(Expr::Literal(LiteralValue::Number(num(2.0)))),
        operator: Token::new(TokenType::Plus, 0),
    };

    let expr_2 = Expr::Binary {
        left: Box::new(expr_1.clone()),
        right: Box::new(Expr::Literal(LiteralValue::Number(num(-5.0)))),
        operator: Token::new(TokenType::Plus, 0),
    };

    assert_eq!(evaluate(&mut interpreter, expr_1), Ok(LiteralValue::Number(num(12.0))));
    assert_eq!(evaluate(&mut interpreter, expr_2), Ok(LiteralValue::Number(num(7.0))));
}

#[test]
fn evaluation_stops_at_each_operation() {
    let mut interpreter = Interpreter::new();
    let e = binary(
        binary(number(1.0), TokenType::Plus, number(2.0)),
        TokenType::Star,
        binary(number(4.0), TokenType::Minus, number(3.0)),
    );
    let first = interpreter.evaluate(e, None);
    let inner = binary(number(1.0), TokenType::Plus, number(2.0));
    assert_eq!(
        first,
        Evaluation::Pending {
            request: Arithmetic { operation: Operation::Add, left: num(1.0), right: num(2.0) },
            residual: binary(
                inner,
                TokenType::Star,
                binary(number(4.0), TokenType::Minus, number(3.0))
            ),
        }
    );
    let Evaluation::Pending { residual, .. } = first else { unreachable!() };
    let second = interpreter.evaluate(residual, Some(num(3.0)));
    assert_eq!(
        second,
        Evaluation::Pending {
            request: Arithmetic {
                operation: Operation::Subtract,
                left: num(4.0),
                right: num(3.0)
            },
            residual: binary(
                number(3.0),
                TokenType::Star,
                binary(number(4.0), TokenType::Minus, number(3.0))
            ),
        }
    );
    let Evaluation::Pending { residual, .. } = second else { unreachable!() };
    let third = interpreter.evaluate(residual, Some(num(1.0)));
    assert_eq!(
        third,
        Evaluation::Pending {
            request: Arithmetic {
                operation: Operation::Multiply,
                left: num(3.0),
                right: num(1.0)
            },
            residual: binary(number(3.0), TokenType::Star, number(1.0)),
        }
    );
    let Evaluation::Pending { residual, .. } = third else { unreachable!() };
    assert_eq!(
        interpreter.evaluate(residual, Some(num(3.0))),
        Evaluation::Value(LiteralValue::Number(num(3.0)))
    );
}

#[test]
fn the_answer_is_what_the_operation_comes_to() {
    let mut interpreter = Interpreter::new();
    let e = binary(number(1.0), TokenType::Plus, number(2.0));
    assert_eq!(
        interpreter.evaluate(e, Some(num(99.0))),
        Evaluation::Value(LiteralValue::Number(num(99.0)))
    );
    assert_eq!(
        interpreter.evaluate(string("s"), Some(num(99.0))),
        Evaluation::Value(LiteralValue::STRING("s".to_string()))
    );
}

#[test]
fn arithmetic_on_numbers() {
    let mut i = Interpreter::new();
    for (tag, expected) in [
        (TokenType::Plus, 8.0),
        (TokenType::Minus, 4.0),
        (TokenType::Star, 12.0),
        (TokenType::Slash, 3.0),
    ] {
        assert_eq!(
            evaluate(&mut i, binary(number(6.0), tag, number(2.0))),
            Ok(LiteralValue::Number(num(expected)))
        );
    }
    assert_eq!(
        evaluate(&mut i, binary(number(0.1), TokenType::Plus, number(0.2))),
        Ok(LiteralValue::Number(num(0.1 + 0.2)))
    );
}

#[test]
fn division_by_zero_is_an_error_of_its_own() {
    let mut i = Interpreter::new();
    for zero in [0.0, -0.0] {
        let e = binary(number(1.0), TokenType::Slash, number(zero));
        assert_eq!(i.evaluate(e, None), Evaluation::Failed(RuntimeError::DivideByZero));
    }
    assert_eq!(spell(&RuntimeError::DivideByZero.message()), "Divide by zero error");
    assert_eq!(run("print 1 / 0;"), (Err("Divide by zero error".to_string()), String::new()));
    assert_eq!(run("print 0 / 1;"), (Ok(()), "0\n".to_string()));
    assert_eq!(
        run("print 4 * 2 / (1 - 1);"),
        (Err("Divide by zero error".to_string()), String::new())
    );
}

#[test]
fn comparisons_need_numbers() {
    let mut i = Interpreter::new();
    for (tag, expected) in [
        (TokenType::Greater, LiteralValue::False),
        (TokenType::GreaterEqual, LiteralValue::False),
        (TokenType::Less, LiteralValue::True),
        (TokenType::LessEqual, LiteralValue::True),
    ] {
        assert_eq!(
            evaluate(&mut i, binary(number(1.0), tag.clone(), number(2.0))),
            Ok(expected)
        );
        assert_eq!(
            evaluate(&mut i, binary(string("1"), tag.clone(), number(2.0))),
            Err(RuntimeError::OperandsMustBeNumbers(tag))
        );
    }
    assert_eq!(
        evaluate(&mut i, binary(number(2.0), TokenType::GreaterEqual, number(2.0))),
        Ok(LiteralValue::True)
    );
    assert_eq!(
        evaluate(&mut i, binary(number(2.0), TokenType::LessEqual, number(2.0))),
        Ok(LiteralValue::True)
    );
    assert_eq!(
        spell(&RuntimeError::OperandsMustBeNumbers(TokenType::LessEqual).message()),
        "Expected operands to be numbers in <= expression"
    );
}

#[test]
fn equality_never_fails() {
    let mut i = Interpreter::new();
    let cases = [
        (number(1.0), number(1.0), true),
        (number(1.0), number(2.0), false),
        (number(0.0), number(-0.0), true),
        (number(f32::NAN), number(f32::NAN), false),
        (string("a"), string("a"), true),
        (string("a"), string("b"), false),
        (string("1"), number(1.0), false),
        (Expr::Literal(LiteralValue::Nil), Expr::Literal(LiteralValue::Nil), true),
        (Expr::Literal(LiteralValue::Nil), Expr::Literal(LiteralValue::False), false),
        (Expr::Literal(LiteralValue::True), Expr::Literal(LiteralValue::True), true),
        (Expr::Literal(LiteralValue::True), number(1.0), false),
    ];
    for (l, r, same) in cases {
        assert_eq!(
            evaluate(&mut i, binary(l.clone(), TokenType::EqualEqual, r.clone())),
            Ok(LiteralValue::from(same))
        );
        assert_eq!(
            evaluate(&mut i, binary(l, TokenType::BangEqual, r)),
            Ok(LiteralValue::from(!same))
        );
    }
}

#[test]
fn plus_joins_strings() {
    assert_eq!(run("print \"foo\" + \"bar\";"), (Ok(()), "foobar\n".to_string()));
    assert_eq!(run("print \"\" + \"\";"), (Ok(()), "\n".to_string()));
}

#[test]
fn string_plus_number_has_its_own_message() {
    let mismatch = "Can not add a 'String' and a 'Number' in addition operation".to_string();
    assert_eq!(run("\"5\" + 5;"), (Err(mismatch.clone()), String::new()));
    assert_eq!(run("5 + \"5\";"), (Err(mismatch.clone()), String::new()));
    assert_eq!(run("nil + 5;"), (Err(mismatch.clone()), String::new()));
    assert_eq!(
        run("\"5\" > 5;"),
        (Err("Expected operands to be numbers in > expression".to_string()), String::new())
    );
    assert_eq!(
        run("nil + true;"),
        (Err("Expected operands to be numbers in + expression".to_string()), String::new())
    );
    assert_eq!(
        run("\"a\" - \"b\";"),
        (Err("Expected operands to be numbers in - expression".to_string()), String::new())
    );
    assert_eq!(
        run("true * 2;"),
        (Err("Expected operands to be numbers in * expression".to_string()), String::new())
    );
}

#[test]
fn values_combine_as_the_operator_says() {
    assert_eq!(
        combine_values(
            TokenType::Star,
            LiteralValue::Number(num(2.0)),
            LiteralValue::Number(num(3.0))
        ),
        Combined::Arithmetic(Arithmetic {
            operation: Operation::Multiply,
            left: num(2.0),
            right: num(3.0)
        })
    );
    assert_eq!(
        combine_values(
            TokenType::Plus,
            LiteralValue::STRING("a".to_string()),
            LiteralValue::STRING("b".to_string())
        ),
        Combined::Value(LiteralValue::STRING("ab".to_string()))
    );
    assert_eq!(
        combine_values(
            TokenType::Slash,
            LiteralValue::Number(num(2.0)),
            LiteralValue::Number(num(0.0))
        ),
        Combined::Failed(RuntimeError::DivideByZero)
    );
    assert_eq!(
        combine_values(
            TokenType::Slash,
            LiteralValue::Number(num(0.0)),
            LiteralValue::Number(num(2.0))
        ),
        Combined::Arithmetic(Arithmetic {
            operation: Operation::Divide,
            left: num(0.0),
            right: num(2.0)
        })
    );
    assert_eq!(
        combine_values(TokenType::Less, LiteralValue::Nil, LiteralValue::Number(num(0.0))),
        Combined::Failed(RuntimeError::OperandsMustBeNumbers(TokenType::Less))
    );
}

#[test]
fn an_operator_of_no_tier_fails_for_want_of_numbers() {
    let mut i = Interpreter::new();
    for (l, r) in [(number(1.0), number(2.0)), (string("a"), number(2.0))] {
        assert_eq!(
            i.evaluate(binary(l, TokenType::Comma, r), None),
            Evaluation::Failed(RuntimeError::OperandsMustBeNumbers(TokenType::Comma))
        );
    }
    assert_eq!(
        spell(&RuntimeError::OperandsMustBeNumbers(TokenType::Comma).message()),
        "Expected operands to be numbers in , expression"
    );
}

#[test]
fn unary_operators() {
    assert_eq!(
        apply_unary(TokenType::Minus, LiteralValue::Number(num(9.0))),
        Ok(LiteralValue::Number(num(-9.0)))
    );
    assert_eq!(
        apply_unary(TokenType::Minus, LiteralValue::STRING("9".to_string())),
        Err(RuntimeError::NegationOfNonNumber)
    );
    assert_eq!(apply_unary(TokenType::Bang, LiteralValue::Nil), Ok(LiteralValue::True));
    assert_eq!(apply_unary(TokenType::Bang, LiteralValue::False), Ok(LiteralValue::True));
    assert_eq!(apply_unary(TokenType::Bang, LiteralValue::True), Ok(LiteralValue::False));
    assert_eq!(
        apply_unary(TokenType::Bang, LiteralValue::Number(num(0.0))),
        Ok(LiteralValue::False)
    );
    assert_eq!(
        apply_unary(TokenType::Bang, LiteralValue::STRING(String::new())),
        Ok(LiteralValue::False)
    );
    assert_eq!(
        apply_unary(TokenType::Plus, LiteralValue::Number(num(1.0))),
        Err(RuntimeError::UnexpectedUnaryOperator(TokenType::Plus))
    );
    assert_eq!(
        spell(&RuntimeError::NegationOfNonNumber.message()),
        "expected a number in negation expression"
    );
    assert_eq!(
        spell(&RuntimeError::UnexpectedUnaryOperator(TokenType::Plus).message()),
        "Did not expected + in unary expression"
    );
    assert_eq!(run("print -(1 + 2);"), (Ok(()), "-3\n".to_string()));
    assert_eq!(run("print !!nil;"), (Ok(()), "false\n".to_string()));
    assert_eq!(
        run("print -\"a\";"),
        (Err("expected a number in negation expression".to_string()), String::new())
    );
}

#[test]
fn ternary_chooses_one_branch_and_leaves_the_other() {
    assert_eq!(run("print true ? \"x\" : \"y\";"), (Ok(()), "x\n".to_string()));
    assert_eq!(run("print false ? \"x\" : \"y\";"), (Ok(()), "y\n".to_string()));
    assert_eq!(run("print 1 < 2 ? 1 + 1 : 1 / 0;"), (Ok(()), "2\n".to_string()));
    assert_eq!(run("print 1 > 2 ? missing : \"kept\";"), (Ok(()), "kept\n".to_string()));
    for (condition, first, second) in
        [(true, "abc", "XYZ"), (false, "abc", "XYZ"), (true, "0", "9z"), (false, "q7", "Q")]
    {
        let source = format!("print {} ? \"{}\" : \"{}\";", condition, first, second);
        let chosen = if condition { first } else { second };
        assert_eq!(run(&source), (Ok(()), format!("{}\n", chosen)));
    }
}

#[test]
fn ternary_condition_must_be_a_boolean() {
    let message = "expected a boolean expression as condition in ternary statement".to_string();
    assert_eq!(run("print 1 ? 2 : 3;"), (Err(message.clone()), String::new()));
    assert_eq!(run("print nil ? 2 : 3;"), (Err(message.clone()), String::new()));
    assert_eq!(run("print \"true\" ? 2 : 3;"), (Err(message), String::new()));
}

#[test]
fn precedence_of_the_operators() {
    for (a, b, c) in [(1.0f32, 2.0f32, 3.0f32), (0.1, 0.2, 0.3), (-7.5, 1.0e10, 3.0), (2.0, 8.0, 0.0)] {
        assert_eq!(
            run(&format!("print {} + {} * {};", a, b, c)),
            (Ok(()), format!("{}\n", a + b * c))
        );
        assert_eq!(
            run(&format!("print {} * {} + {};", a, b, c)),
            (Ok(()), format!("{}\n", a * b + c))
        );
        let quotient = run(&format!("print {} * {} / {};", a, b, c));
        if c != 0.0 {
            assert_eq!(quotient, (Ok(()), format!("{}\n", a * b / c)));
        } else {
            assert_eq!(quotient, (Err("Divide by zero error".to_string()), String::new()));
        }
    }
    assert_eq!(run("print 10 + 2 * 6;"), (Ok(()), "22\n".to_string()));
    assert_eq!(run("print (10 + 2) * 6;"), (Ok(()), "72\n".to_string()));
    assert_eq!(run("print 10 - 2 - 6;"), (Ok(()), "2\n".to_string()));
}

#[test]
fn declared_variables_are_added_and_printed() {
    for (x, y) in [(1.0f32, 2.0f32), (0.1, 0.2), (-3.5, 3.5), (1.0e20, 1.0)] {
        let source = format!("var a = {}; var b = {}; print a + b;", x, y);
        assert_eq!(run(&source), (Ok(()), format!("{}\n", x + y)));
    }
    assert_eq!(run("var a = 1; var b = 2; print a + b;"), (Ok(()), "3\n".to_string()));
}

#[test]
fn declaring_again_overwrites() {
    assert_eq!(run("var a = 1; var a = 2; print a;"), (Ok(()), "2\n".to_string()));
    assert_eq!(run("var a = 1; var a; print a;"), (Ok(()), "nil\n".to_string()));
    assert_eq!(run("var a; var a = \"s\"; print a;"), (Ok(()), "s\n".to_string()));
}

#[test]
fn undeclared_variables_fail_alike() {
    let message = "[line 0] Error: variable 'a' is not defined".to_string();
    assert_eq!(run("a = 1;"), (Err(message.clone()), String::new()));
    assert_eq!(run("a;"), (Err(message), String::new()));
    assert_eq!(
        run("var b = 1;\n\nprint b + c;"),
        (Err("[line 2] Error: variable 'c' is not defined".to_string()), String::new())
    );
    let mut interpreter = Interpreter::new();
    assert_eq!(
        interpreter.evaluate(Expr::Variable(name("a", 7)), None),
        Evaluation::Failed(RuntimeError::UndefinedVariable { name: "a".to_string(), line: 7 })
    );
    assert_eq!(
        interpreter.evaluate(
            Expr::Assign { name: name("a", 7), value: Box::new(number(1.0)) },
            None
        ),
        Evaluation::Failed(RuntimeError::UndefinedVariable { name: "a".to_string(), line: 7 })
    );
}

#[test]
fn assignment_is_an_expression() {
    assert_eq!(
        run("var a; var b; a = b = 1 + 1; print a; print b; print a = 3;"),
        (Ok(()), "2\n2\n3\n".to_string())
    );
    assert_eq!(run("var a = 1; print a + (a = 5) + a;"), (Ok(()), "11\n".to_string()));
}

#[test]
fn the_first_error_ends_the_run_and_keeps_what_was_written() {
    assert_eq!(
        run("print 1; print 2; print 1 / 0; print 3;"),
        (Err("Divide by zero error".to_string()), "1\n2\n".to_string())
    );
    let mut interpreter = Interpreter::new();
    assert!(interpret(&mut interpreter, parse("var a = 1; print a; print b;")).is_err());
    assert_eq!(spell(interpreter.output()), "1\n");
    assert_eq!(interpret(&mut interpreter, parse("print a + 1;")), Ok(()));
    assert_eq!(spell(&interpreter.take_output()), "1\n2\n");
    assert_eq!(spell(interpreter.output()), "");
}

#[test]
fn values_print_as_they_are_written() {
    assert_eq!(
        run("print true; print false; print nil; print \"a b\"; print 45.67; print 3;"),
        (Ok(()), "true\nfalse\nnil\na b\n45.67\n3\n".to_string())
    );
    assert_eq!(run("print 1 == 1;"), (Ok(()), "true\n".to_string()));
}

#[test]
fn statements_step_by_step() {
    let mut interpreter = Interpreter::new();
    assert_eq!(
        interpreter.execute(Stmt::VarDec { name: "a".to_string(), initializer: None }, None),
        Execution::Done
    );
    let print_sum = Stmt::Print(binary(number(1.0), TokenType::Plus, number(2.0)));
    let pending = interpreter.execute(print_sum.clone(), None);
    assert_eq!(
        pending,
        Execution::Pending {
            request: Arithmetic { operation: Operation::Add, left: num(1.0), right: num(2.0) },
            residual: print_sum,
        }
    );
    assert_eq!(spell(interpreter.output()), "");
    let Execution::Pending { residual, .. } = pending else { unreachable!() };
    assert_eq!(interpreter.execute(residual, Some(num(3.0))), Execution::Done);
    assert_eq!(spell(interpreter.output()), "3\n");
    assert_eq!(
        interpreter.execute(Stmt::Expr(Expr::Variable(name("zz", 4))), None),
        Execution::Failed(RuntimeError::UndefinedVariable { name: "zz".to_string(), line: 4 })
    );
    let declare = Stmt::VarDec {
        name: "c".to_string(),
        initializer: Some(binary(number(2.0), TokenType::Star, number(2.0))),
    };
    assert_eq!(interpreter.execute(declare, Some(num(4.0))), Execution::Done);
    assert_eq!(
        interpreter.evaluate(Expr::Variable(name("c", 0)), None),
        Evaluation::Value(LiteralValue::Number(num(4.0)))
    );
}

#[test]
fn a_pending_run_hands_back_what_is_left() {
    let mut interpreter = Interpreter::new();
    let program = parse("print 1; print 2 + 3; print 4;");
    let paused = interpreter.interpret(&program, None);
    assert_eq!(spell(interpreter.output()), "1\n");
    assert_eq!(
        paused,
        Interpretation::Pending {
            request: Arithmetic { operation: Operation::Add, left: num(2.0), right: num(3.0) },
            residual: parse("print 2 + 3; print 4;"),
        }
    );
    let Interpretation::Pending { residual, .. } = paused else { unreachable!() };
    assert_eq!(interpreter.interpret(&residual, Some(num(5.0))), Interpretation::Finished);
    assert_eq!(spell(interpreter.output()), "1\n5\n4\n");
    assert_eq!(interpreter.interpret(&[], None), Interpretation::Finished);
}

#[test]
fn environment_binds_reads_and_assigns() {
    let mut environment = Environment::new();
    let a = name("a", 3);
    assert_eq!(
        environment.get(&a),
        Err(RuntimeError::UndefinedVariable { name: "a".to_string(), line: 3 })
    );
    assert_eq!(
        environment.assign(&a, LiteralValue::True),
        Err(RuntimeError::UndefinedVariable { name: "a".to_string(), line: 3 })
    );
    assert_eq!(environment.get(&a).is_err(), true);
    environment.define("a".to_string(), None);
    assert_eq!(environment.get(&a), Ok(LiteralValue::Nil));
    environment.define("b".to_string(), Some(LiteralValue::Number(num(1.0))));
    environment.define("a".to_string(), Some(LiteralValue::STRING("s".to_string())));
    assert_eq!(environment.get(&a), Ok(LiteralValue::STRING("s".to_string())));
    assert_eq!(environment.get(&name("b", 0)), Ok(LiteralValue::Number(num(1.0))));
    assert_eq!(environment.assign(&a, LiteralValue::True), Ok(LiteralValue::True));
    assert_eq!(environment.get(&a), Ok(LiteralValue::True));
    assert_eq!(environment.get(&name("b", 0)), Ok(LiteralValue::Number(num(1.0))));
    assert_eq!(
        spell(&environment.get(&name("zz", 12)).unwrap_err().message()),
        "[line 12] Error: variable 'zz' is not defined"
    );
}
