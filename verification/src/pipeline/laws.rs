//! Laws of whole programs, from their text to what they write.
//!
//! The text of a number stands for the number that a function `value_of`
//! makes of it, and a rounded operation comes to what a function
//! `arithmetic` makes of it. The laws hold whatever the two functions are.

use super::parsing::{
    choose_between, grouped, lemma_one_choice, lemma_one_operand, lemma_one_sum,
    lemma_print_statement, lemma_program_ends, lemma_program_goes_on, lemma_two_operations,
    lemma_var_statement, number, string, two_operators,
};
use super::scanning::{
    finished, keyword_of, lemma_a_and_b_are_identifiers, lemma_end_is_reached,
    lemma_equal_is_read, lemma_number_is_read, lemma_print_is_a_keyword, lemma_sign_is_read, lemma_space_is_passed,
    lemma_string_is_read, lemma_values_are_keywords, lemma_var_is_a_keyword, lemma_word_is_read,
    plain, spells_number, standing, word,
};
use crate::diagnostic::DiagnosticView;
use crate::expr::{truth, ExprView, LiteralView};
use crate::interpreter::environment::undefined;
use crate::interpreter::error::RuntimeErrorView;
use crate::interpreter::meaning::{
    complete, effect, effects, law_completing_is_effects, meaning, operations,
    program_operations,
};
use crate::interpreter::{
    combine, printed, reduce, step, CombinedView, EvaluationView, ExecutionView,
    InterpretationView, InterpreterView, Ran, Reduced,
};
use crate::number::{Arithmetic, Number, Operation};
use crate::parser::{binary, expression, program, Parsed, Program};
use crate::scanner::ScannerView;
use crate::statement::StmtView;
use crate::text::{chars, glyph, Glyph};
use crate::token::{number_glyph, TokenTypeView, TokenView};
use vstd::prelude::*;

verus! {

/// A token on line 0.
pub open spec fn token(tag: TokenTypeView) -> TokenView {
    TokenView { tag, line: 0 }
}

/// The variable named `name`, read on line 0.
pub open spec fn variable(name: Seq<char>) -> ExprView {
    ExprView::Variable(token(TokenTypeView::Identifer(name)))
}

/// The request for a rounded operation on two numbers.
pub open spec fn request(operation: Operation, left: Number, right: Number) -> Arithmetic {
    Arithmetic { operation, left, right }
}

/// A ternary chooses by its condition: with `true` it is its first branch,
/// with `false` its second, whatever the variables hold.
pub proof fn law_ternary_chooses(
    variables: Map<Seq<char>, LiteralView>,
    condition: bool,
    first: Seq<char>,
    second: Seq<char>,
    answer: Option<Number>,
)
    ensures
        reduce(
            variables,
            choose_between(ExprView::Literal(truth(condition)), string(first), string(second)),
            answer,
        ) == (Reduced {
            outcome: EvaluationView::Value(
                LiteralView::STRING(
                    if condition {
                        first
                    } else {
                        second
                    },
                ),
            ),
            variables,
            answer,
        }),
{
    reveal_with_fuel(reduce, 2);
}

/// Reading a variable that is not bound and assigning to one fail alike:
/// with the error that names the variable and its line. Nothing is bound by
/// the failed assignment.
pub proof fn law_unbound_variable_fails(
    variables: Map<Seq<char>, LiteralView>,
    name: TokenView,
    value: LiteralView,
    answer: Option<Number>,
)
    requires
        name.tag is Identifer,
        !variables.contains_key(name.tag->Identifer_0),
    ensures
        reduce(variables, ExprView::Variable(name), answer).outcome == EvaluationView::Failed(
            undefined(name),
        ),
        reduce(
            variables,
            ExprView::Assign { name, value: Box::new(ExprView::Literal(value)) },
            answer,
        ).outcome == EvaluationView::Failed(undefined(name)),
        reduce(
            variables,
            ExprView::Assign { name, value: Box::new(ExprView::Literal(value)) },
            answer,
        ).variables == variables,
{
    reveal_with_fuel(reduce, 2);
}

/// Declaring a variable binds it whether or not it was bound before, and
/// never fails.
pub proof fn law_declaration_overwrites(
    state: InterpreterView,
    name: Seq<char>,
    value: LiteralView,
    answer: Option<Number>,
)
    ensures
        step(
            state,
            StmtView::VarDec { name, initializer: Some(ExprView::Literal(value)) },
            answer,
        ).outcome == ExecutionView::Done,
        step(
            state,
            StmtView::VarDec { name, initializer: Some(ExprView::Literal(value)) },
            answer,
        ).state.variables == state.variables.insert(name, value),
        step(state, StmtView::VarDec { name, initializer: None }, answer).outcome
            == ExecutionView::Done,
        step(state, StmtView::VarDec { name, initializer: None }, answer).state.variables
            == state.variables.insert(name, LiteralView::Nil),
{
}

/// `+` between a string and a number fails in its own way, and not as `>`
/// between the two does.
pub proof fn law_string_plus_number(text: Seq<char>, n: Number)
    ensures
        combine(TokenTypeView::Plus, LiteralView::STRING(text), LiteralView::Number(n))
            == CombinedView::Failed(RuntimeErrorView::StringNumberMismatch),
        combine(TokenTypeView::Plus, LiteralView::Number(n), LiteralView::STRING(text))
            == CombinedView::Failed(RuntimeErrorView::StringNumberMismatch),
        combine(TokenTypeView::Greater, LiteralView::STRING(text), LiteralView::Number(n))
            == CombinedView::Failed(
            RuntimeErrorView::OperandsMustBeNumbers(TokenTypeView::Greater),
        ),
        RuntimeErrorView::StringNumberMismatch.message()
            != RuntimeErrorView::OperandsMustBeNumbers(TokenTypeView::Greater).message(),
{
    let a = RuntimeErrorView::StringNumberMismatch.message();
    let b = RuntimeErrorView::OperandsMustBeNumbers(TokenTypeView::Greater).message();
    reveal_strlit("Can not add a 'String' and a 'Number' in addition operation");
    reveal_strlit("Expected operands to be numbers in ");
    assert(a[0] == glyph('C'));
    assert(b[0] == glyph('E'));
}

/// What a program of the one statement `print e;` does, where `e` means
/// `meant`: it writes the line of the value and ends, or fails as `e`
/// fails.
pub proof fn lemma_print_alone(
    state: InterpreterView,
    e: ExprView,
    arithmetic: spec_fn(Arithmetic) -> Number,
    limit: nat,
)
    requires
        limit >= operations(e),
    ensures
        meaning(state.variables, e, None, arithmetic).outcome matches EvaluationView::Value(
            value,
        ) ==> complete(state, seq![StmtView::Print(e)], None, arithmetic, limit) == (Ran {
            outcome: InterpretationView::Finished,
            state: InterpreterView {
                output: state.output + printed(value),
                variables: meaning(state.variables, e, None, arithmetic).variables,
            },
        }),
        meaning(state.variables, e, None, arithmetic).outcome matches EvaluationView::Failed(
            error,
        ) ==> complete(state, seq![StmtView::Print(e)], None, arithmetic, limit) == (Ran {
            outcome: InterpretationView::Failed(error),
            state: InterpreterView {
                output: state.output,
                variables: meaning(state.variables, e, None, arithmetic).variables,
            },
        }),
{
    let statements = seq![StmtView::Print(e)];
    assert(statements.drop_first() =~= Seq::empty());
    assert(program_operations(statements) == operations(e)) by {
        reveal_with_fuel(program_operations, 2);
    }
    law_completing_is_effects(state, statements, None, arithmetic, limit);
    reveal_with_fuel(effects, 2);
}

/// The character of one of the operators `+`, `*` and `/`.
pub open spec fn sign(operator: TokenTypeView) -> char {
    match operator {
        TokenTypeView::Plus => '+',
        TokenTypeView::Star => '*',
        _ => '/',
    }
}

/// The source text `print a first b second c;`, the three numbers as they
/// are spelled.
pub open spec fn operations_text(
    a: Seq<char>,
    first: TokenTypeView,
    b: Seq<char>,
    second: TokenTypeView,
    c: Seq<char>,
) -> Seq<char> {
    "print "@ + a + seq![' ', sign(first), ' '] + b + seq![' ', sign(second), ' '] + c + ";"@
}

/// The tokens of `print a first b second c;`.
pub open spec fn operations_tokens(
    a: Number,
    first: TokenTypeView,
    b: Number,
    second: TokenTypeView,
    c: Number,
) -> Seq<TokenView> {
    seq![
        token(TokenTypeView::Print),
        token(TokenTypeView::Number(a)),
        token(first),
        token(TokenTypeView::Number(b)),
        token(second),
        token(TokenTypeView::Number(c)),
        token(TokenTypeView::Semicolon),
        token(TokenTypeView::EOF),
    ]
}

/// The text of two operations scans, without a report, to its tokens.
proof fn lemma_operations_scan(
    a: Seq<char>,
    first: TokenTypeView,
    b: Seq<char>,
    second: TokenTypeView,
    c: Seq<char>,
    value_of: spec_fn(Seq<char>) -> Option<Number>,
)
    requires
        spells_number(a),
        spells_number(b),
        spells_number(c),
        value_of(a) is Some,
        value_of(b) is Some,
        value_of(c) is Some,
        two_operators(first, second),
    ensures
        finished(ScannerView::fresh(operations_text(a, first, b, second, c)), value_of)
            == standing(
            operations_text(a, first, b, second, c),
            operations_text(a, first, b, second, c).len() as int,
            operations_tokens(value_of(a)->0, first, value_of(b)->0, second, value_of(c)->0),
        ),
{
    let text = operations_text(a, first, b, second, c);
    let (x, y, z) = (value_of(a)->0, value_of(b)->0, value_of(c)->0);
    reveal_strlit("print ");
    reveal_strlit("print");
    reveal_strlit(";");
    lemma_print_is_a_keyword();
    let a0 = 6int;
    let a1 = a0 + a.len();
    let b0 = a1 + 3;
    let b1 = b0 + b.len();
    let c0 = b1 + 3;
    let c1 = c0 + c.len();
    assert(text.len() == c1 + 1);
    assert(text.subrange(0, 5) =~= "print"@);
    assert(text[5] == ' ');
    assert(text.subrange(a0, a1) =~= a);
    assert(text[a1] == ' ' && text[a1 + 1] == sign(first) && text[a1 + 2] == ' ');
    assert(text.subrange(b0, b1) =~= b);
    assert(text[b1] == ' ' && text[b1 + 1] == sign(second) && text[b1 + 2] == ' ');
    assert(text.subrange(c0, c1) =~= c);
    assert(text[c1] == ';');
    let none = Seq::<TokenView>::empty();
    let t1 = none.push(token(TokenTypeView::Print));
    let t2 = t1.push(token(TokenTypeView::Number(x)));
    let t3 = t2.push(token(first));
    let t4 = t3.push(token(TokenTypeView::Number(y)));
    let t5 = t4.push(token(second));
    let t6 = t5.push(token(TokenTypeView::Number(z)));
    let t7 = t6.push(token(TokenTypeView::Semicolon));
    assert(ScannerView::fresh(text) == standing(text, 0, none));
    lemma_word_is_read(standing(text, 0, none), "print"@, value_of);
    lemma_space_is_passed(standing(text, 5, t1), value_of);
    lemma_number_is_read(standing(text, a0, t1), a, x, value_of);
    lemma_space_is_passed(standing(text, a1, t2), value_of);
    lemma_sign_is_read(standing(text, a1 + 1, t2), first, value_of);
    lemma_space_is_passed(standing(text, a1 + 2, t3), value_of);
    lemma_number_is_read(standing(text, b0, t3), b, y, value_of);
    lemma_space_is_passed(standing(text, b1, t4), value_of);
    lemma_sign_is_read(standing(text, b1 + 1, t4), second, value_of);
    lemma_space_is_passed(standing(text, b1 + 2, t5), value_of);
    lemma_number_is_read(standing(text, c0, t5), c, z, value_of);
    lemma_sign_is_read(standing(text, c1, t6), TokenTypeView::Semicolon, value_of);
    lemma_end_is_reached(standing(text, c1 + 1, t7), value_of);
    assert(t7.push(token(TokenTypeView::EOF)) =~= operations_tokens(x, first, y, second, z));
}

/// The tokens of two operations parse, without a report, to the one
/// statement that prints them grouped as precedence has it.
proof fn lemma_operations_parse(
    a: Number,
    first: TokenTypeView,
    b: Number,
    second: TokenTypeView,
    c: Number,
)
    requires
        two_operators(first, second),
    ensures
        program(operations_tokens(a, first, b, second, c), 0) == (Program {
            used: 7,
            reports: Seq::empty(),
            statements: seq![
                StmtView::Print(
                    grouped(number(a), token(first), number(b), token(second), number(c)),
                ),
            ],
            failed: false,
        }),
{
    let tokens = operations_tokens(a, first, b, second, c);
    let tree = grouped(number(a), token(first), number(b), token(second), number(c));
    lemma_two_operations(tokens, 1);
    lemma_print_statement(tokens, 0, tree, 5);
    lemma_program_goes_on(tokens, 0, StmtView::Print(tree), 7);
    lemma_program_ends(tokens, 7);
    let nothing = Seq::<DiagnosticView>::empty();
    assert(nothing + nothing =~= nothing);
    assert(seq![StmtView::Print(tree)] + Seq::<StmtView>::empty() =~= seq![
        StmtView::Print(tree),
    ]);
}

/// What the three groupings of two operations mean.
proof fn lemma_operations_mean(
    variables: Map<Seq<char>, LiteralView>,
    a: Number,
    first: TokenTypeView,
    b: Number,
    second: TokenTypeView,
    c: Number,
    arithmetic: spec_fn(Arithmetic) -> Number,
)
    requires
        two_operators(first, second),
    ensures
        meaning(
            variables,
            grouped(number(a), token(first), number(b), token(second), number(c)),
            None,
            arithmetic,
        ).outcome == two_operations_come_to(a, first, b, second, c, arithmetic),
        meaning(
            variables,
            grouped(number(a), token(first), number(b), token(second), number(c)),
            None,
            arithmetic,
        ).variables == variables,
        operations(grouped(number(a), token(first), number(b), token(second), number(c))) == 2,
{
    reveal_with_fuel(meaning, 3);
    reveal_with_fuel(operations, 3);
}

/// What `a first b second c` comes to: with `+` before `*`, the sum of `a`
/// and the product of `b` and `c`; with `*` before `+`, the sum of the
/// product of `a` and `b`, and `c`; with `*` before `/`, the quotient of
/// that product and `c`, or the error for a division by zero where `c` is
/// a zero.
pub open spec fn two_operations_come_to(
    a: Number,
    first: TokenTypeView,
    b: Number,
    second: TokenTypeView,
    c: Number,
    arithmetic: spec_fn(Arithmetic) -> Number,
) -> EvaluationView {
    if first is Plus {
        EvaluationView::Value(
            LiteralView::Number(
                arithmetic(
                    request(
                        Operation::Add,
                        a,
                        arithmetic(request(Operation::Multiply, b, c)),
                    ),
                ),
            ),
        )
    } else if second is Plus {
        EvaluationView::Value(
            LiteralView::Number(
                arithmetic(
                    request(
                        Operation::Add,
                        arithmetic(request(Operation::Multiply, a, b)),
                        c,
                    ),
                ),
            ),
        )
    } else if c.is_zero() {
        EvaluationView::Failed(RuntimeErrorView::DivideByZero)
    } else {
        EvaluationView::Value(
            LiteralView::Number(
                arithmetic(
                    request(
                        Operation::Divide,
                        arithmetic(request(Operation::Multiply, a, b)),
                        c,
                    ),
                ),
            ),
        )
    }
}

/// What a run that came to `outcome` has written behind `output`: the line
/// of the value, or nothing where it failed.
pub open spec fn written(output: Seq<Glyph>, outcome: EvaluationView) -> Seq<Glyph> {
    match outcome {
        EvaluationView::Value(value) => output + printed(value),
        _ => output,
    }
}

/// How a run ends whose one expression came to `outcome`.
pub open spec fn ended(outcome: EvaluationView) -> InterpretationView {
    match outcome {
        EvaluationView::Failed(error) => InterpretationView::Failed(error),
        _ => InterpretationView::Finished,
    }
}

/// Multiplication and division bind tighter than addition, and operators
/// of one tier group to the left.
///
/// Whatever numbers the spellings `a`, `b` and `c` stand for, and whatever
/// the rounded operations come to: the text `print a + b * c;` scans
/// without a report, parses to one statement, and writes the line of the
/// sum of `a` and the product of `b` and `c`. `print a * b + c;` writes the
/// sum of the product of `a` and `b`, and `c`. `print a * b / c;` writes
/// the quotient of that product and `c`, and where `c` is a zero it writes
/// nothing and fails with the error for a division by zero.
pub proof fn law_precedence(
    state: InterpreterView,
    a: Seq<char>,
    first: TokenTypeView,
    b: Seq<char>,
    second: TokenTypeView,
    c: Seq<char>,
    value_of: spec_fn(Seq<char>) -> Option<Number>,
    arithmetic: spec_fn(Arithmetic) -> Number,
)
    requires
        spells_number(a),
        spells_number(b),
        spells_number(c),
        value_of(a) is Some,
        value_of(b) is Some,
        value_of(c) is Some,
        two_operators(first, second),
    ensures
        ({
            let scanned = ScannerView::fresh(operations_text(a, first, b, second, c)).finish(
                value_of,
            );
            let parsed = program(scanned.tokens, 0);
            let ran = complete(state, parsed.statements, None, arithmetic, 2);
            let result = two_operations_come_to(
                value_of(a)->0,
                first,
                value_of(b)->0,
                second,
                value_of(c)->0,
                arithmetic,
            );
            &&& scanned.diagnostics == Seq::<DiagnosticView>::empty()
            &&& scanned.tokens == operations_tokens(
                value_of(a)->0,
                first,
                value_of(b)->0,
                second,
                value_of(c)->0,
            )
            &&& !parsed.failed
            &&& parsed.reports == Seq::<DiagnosticView>::empty()
            &&& parsed.statements == seq![
                StmtView::Print(
                    grouped(
                        number(value_of(a)->0),
                        token(first),
                        number(value_of(b)->0),
                        token(second),
                        number(value_of(c)->0),
                    ),
                ),
            ]
            &&& ran.outcome == ended(result)
            &&& ran.state.output == written(state.output, result)
            &&& ran.state.variables == state.variables
        }),
{
    let (x, y, z) = (value_of(a)->0, value_of(b)->0, value_of(c)->0);
    lemma_operations_scan(a, first, b, second, c, value_of);
    reveal(finished);
    lemma_operations_parse(x, first, y, second, z);
    let tree = grouped(number(x), token(first), number(y), token(second), number(z));
    lemma_operations_mean(state.variables, x, first, y, second, z, arithmetic);
    lemma_print_alone(state, tree, arithmetic, 2);
}

/// The source text `print condition ? "first" : "second";`.
pub open spec fn choice_text(condition: bool, first: Seq<char>, second: Seq<char>) -> Seq<char> {
    "print "@ + word(truth(condition)) + " ? \""@ + first + "\" : \""@ + second + "\";"@
}

/// The tokens of `print condition ? "first" : "second";`.
pub open spec fn choice_tokens(condition: bool, first: Seq<char>, second: Seq<char>) -> Seq<
    TokenView,
> {
    seq![
        token(TokenTypeView::Print),
        token(keyword_of(truth(condition))),
        token(TokenTypeView::QuestionMark),
        token(TokenTypeView::STRING(first)),
        token(TokenTypeView::Colon),
        token(TokenTypeView::STRING(second)),
        token(TokenTypeView::Semicolon),
        token(TokenTypeView::EOF),
    ]
}

/// The text of a choice between two strings scans, without a report, to
/// its tokens.
proof fn lemma_choice_scans(
    condition: bool,
    first: Seq<char>,
    second: Seq<char>,
    value_of: spec_fn(Seq<char>) -> Option<Number>,
)
    requires
        plain(first),
        plain(second),
    ensures
        finished(ScannerView::fresh(choice_text(condition, first, second)), value_of)
            == standing(
            choice_text(condition, first, second),
            choice_text(condition, first, second).len() as int,
            choice_tokens(condition, first, second),
        ),
{
    let asked = truth(condition);
    let text = choice_text(condition, first, second);
    reveal_strlit("print ");
    reveal_strlit("print");
    reveal_strlit(" ? \"");
    reveal_strlit("\" : \"");
    reveal_strlit("\";");
    lemma_print_is_a_keyword();
    lemma_values_are_keywords(asked);
    let w0 = 6int;
    let w1 = w0 + word(asked).len();
    let x0 = w1 + 4;
    let x1 = x0 + first.len();
    let y0 = x1 + 5;
    let y1 = y0 + second.len();
    assert(text.len() == y1 + 2);
    assert(text.subrange(0, 5) =~= "print"@);
    assert(text[5] == ' ');
    assert(text.subrange(w0, w1) =~= word(asked));
    assert(text[w1] == ' ' && text[w1 + 1] == '?' && text[w1 + 2] == ' ' && text[w1 + 3]
        == '"');
    assert(text.subrange(x0, x1) =~= first);
    assert(text[x1] == '"' && text[x1 + 1] == ' ' && text[x1 + 2] == ':' && text[x1 + 3] == ' '
        && text[x1 + 4] == '"');
    assert(text.subrange(y0, y1) =~= second);
    assert(text[y1] == '"' && text[y1 + 1] == ';');
    let none = Seq::<TokenView>::empty();
    let t1 = none.push(token(TokenTypeView::Print));
    let t2 = t1.push(token(keyword_of(asked)));
    let t3 = t2.push(token(TokenTypeView::QuestionMark));
    let t4 = t3.push(token(TokenTypeView::STRING(first)));
    let t5 = t4.push(token(TokenTypeView::Colon));
    let t6 = t5.push(token(TokenTypeView::STRING(second)));
    let t7 = t6.push(token(TokenTypeView::Semicolon));
    assert(ScannerView::fresh(text) == standing(text, 0, none));
    lemma_word_is_read(standing(text, 0, none), "print"@, value_of);
    lemma_space_is_passed(standing(text, 5, t1), value_of);
    lemma_word_is_read(standing(text, w0, t1), word(asked), value_of);
    lemma_space_is_passed(standing(text, w1, t2), value_of);
    lemma_sign_is_read(standing(text, w1 + 1, t2), TokenTypeView::QuestionMark, value_of);
    lemma_space_is_passed(standing(text, w1 + 2, t3), value_of);
    lemma_string_is_read(standing(text, w1 + 3, t3), first, value_of);
    lemma_space_is_passed(standing(text, x1 + 1, t4), value_of);
    lemma_sign_is_read(standing(text, x1 + 2, t4), TokenTypeView::Colon, value_of);
    lemma_space_is_passed(standing(text, x1 + 3, t5), value_of);
    lemma_string_is_read(standing(text, x1 + 4, t5), second, value_of);
    lemma_sign_is_read(standing(text, y1 + 1, t6), TokenTypeView::Semicolon, value_of);
    lemma_end_is_reached(standing(text, y1 + 2, t7), value_of);
    assert(t7.push(token(TokenTypeView::EOF)) =~= choice_tokens(condition, first, second));
}

/// A ternary chooses by its condition, in a whole program too.
///
/// Whatever strings of letters and digits `first` and `second` are: the
/// text `print true ? "first" : "second";` scans without a report, parses
/// to one statement, and writes the line of `first`; with `false` for
/// `true` it writes the line of `second`.
pub proof fn law_choice(
    state: InterpreterView,
    condition: bool,
    first: Seq<char>,
    second: Seq<char>,
    value_of: spec_fn(Seq<char>) -> Option<Number>,
    arithmetic: spec_fn(Arithmetic) -> Number,
)
    requires
        plain(first),
        plain(second),
    ensures
        ({
            let scanned = ScannerView::fresh(choice_text(condition, first, second)).finish(
                value_of,
            );
            let parsed = program(scanned.tokens, 0);
            let ran = complete(state, parsed.statements, None, arithmetic, 0);
            &&& scanned.diagnostics == Seq::<DiagnosticView>::empty()
            &&& scanned.tokens == choice_tokens(condition, first, second)
            &&& !parsed.failed
            &&& parsed.reports == Seq::<DiagnosticView>::empty()
            &&& parsed.statements == seq![
                StmtView::Print(
                    choose_between(
                        ExprView::Literal(truth(condition)),
                        string(first),
                        string(second),
                    ),
                ),
            ]
            &&& ran.outcome == InterpretationView::Finished
            &&& ran.state.output == state.output + chars(
                if condition {
                    first
                } else {
                    second
                },
            ).push(glyph('\n'))
            &&& ran.state.variables == state.variables
        }),
{
    lemma_choice_scans(condition, first, second, value_of);
    reveal(finished);
    let tokens = choice_tokens(condition, first, second);
    let tree = choose_between(ExprView::Literal(truth(condition)), string(first), string(second));
    lemma_one_choice(tokens, 1);
    lemma_print_statement(tokens, 0, tree, 5);
    lemma_program_goes_on(tokens, 0, StmtView::Print(tree), 7);
    lemma_program_ends(tokens, 7);
    let nothing = Seq::<DiagnosticView>::empty();
    assert(nothing + nothing =~= nothing);
    assert(seq![StmtView::Print(tree)] + Seq::<StmtView>::empty() =~= seq![
        StmtView::Print(tree),
    ]);
    assert(meaning(state.variables, tree, None, arithmetic) == (Reduced {
        outcome: EvaluationView::Value(
            LiteralView::STRING(
                if condition {
                    first
                } else {
                    second
                },
            ),
        ),
        variables: state.variables,
        answer: None,
    })) by {
        reveal_with_fuel(meaning, 2);
    }
    assert(operations(tree) == 0) by {
        reveal_with_fuel(operations, 2);
    }
    lemma_print_alone(state, tree, arithmetic, 0);
}

/// The source text `var a = x; var b = y; print a + b;`, the two numbers
/// as they are spelled.
pub open spec fn declared_sum_text(x: Seq<char>, y: Seq<char>) -> Seq<char> {
    "var a = "@ + x + "; var b = "@ + y + "; print a + b;"@
}

/// The tokens of `var a = x; var b = y; print a + b;`.
pub open spec fn declared_sum_tokens(x: Number, y: Number) -> Seq<TokenView> {
    seq![
        token(TokenTypeView::Var),
        token(TokenTypeView::Identifer("a"@)),
        token(TokenTypeView::Equal),
        token(TokenTypeView::Number(x)),
        token(TokenTypeView::Semicolon),
        token(TokenTypeView::Var),
        token(TokenTypeView::Identifer("b"@)),
        token(TokenTypeView::Equal),
        token(TokenTypeView::Number(y)),
        token(TokenTypeView::Semicolon),
        token(TokenTypeView::Print),
        token(TokenTypeView::Identifer("a"@)),
        token(TokenTypeView::Plus),
        token(TokenTypeView::Identifer("b"@)),
        token(TokenTypeView::Semicolon),
        token(TokenTypeView::EOF),
    ]
}

/// The statements of `var a = x; var b = y; print a + b;`.
pub open spec fn declared_sum(x: Number, y: Number) -> Seq<StmtView> {
    seq![
        StmtView::VarDec { name: "a"@, initializer: Some(number(x)) },
        StmtView::VarDec { name: "b"@, initializer: Some(number(y)) },
        StmtView::Print(binary(variable("a"@), token(TokenTypeView::Plus), variable("b"@))),
    ]
}

/// The first half of the text of a declared sum, up to the second `var`,
/// scans to its tokens.
proof fn lemma_declared_sum_scans_first(
    x: Seq<char>,
    y: Seq<char>,
    value_of: spec_fn(Seq<char>) -> Option<Number>,
)
    requires
        spells_number(x),
        spells_number(y),
        value_of(x) is Some,
        value_of(y) is Some,
    ensures
        finished(ScannerView::fresh(declared_sum_text(x, y)), value_of) == finished(
            standing(
                declared_sum_text(x, y),
                10 + x.len() as int,
                declared_sum_tokens(value_of(x)->0, value_of(y)->0).take(5),
            ),
            value_of,
        ),
{
    let text = declared_sum_text(x, y);
    let n = value_of(x)->0;
    reveal_strlit("var a = ");
    reveal_strlit("; var b = ");
    reveal_strlit("; print a + b;");
    reveal_strlit("var");
    reveal_strlit("a");
    lemma_var_is_a_keyword();
    lemma_a_and_b_are_identifiers();
    let x0 = 8int;
    let x1 = x0 + x.len();
    assert(text.subrange(0, 3) =~= "var"@);
    assert(text[3] == ' ');
    assert(text.subrange(4, 5) =~= "a"@);
    assert(text[5] == ' ' && text[6] == '=' && text[7] == ' ');
    assert(text.subrange(x0, x1) =~= x);
    assert(text[x1] == ';' && text[x1 + 1] == ' ');
    let none = Seq::<TokenView>::empty();
    let t1 = none.push(token(TokenTypeView::Var));
    let t2 = t1.push(token(TokenTypeView::Identifer("a"@)));
    let t3 = t2.push(token(TokenTypeView::Equal));
    let t4 = t3.push(token(TokenTypeView::Number(n)));
    let t5 = t4.push(token(TokenTypeView::Semicolon));
    assert(ScannerView::fresh(text) == standing(text, 0, none));
    lemma_word_is_read(standing(text, 0, none), "var"@, value_of);
    lemma_space_is_passed(standing(text, 3, t1), value_of);
    lemma_word_is_read(standing(text, 4, t1), "a"@, value_of);
    lemma_space_is_passed(standing(text, 5, t2), value_of);
    lemma_equal_is_read(standing(text, 6, t2), value_of);
    lemma_space_is_passed(standing(text, 7, t3), value_of);
    lemma_number_is_read(standing(text, x0, t3), x, n, value_of);
    lemma_sign_is_read(standing(text, x1, t4), TokenTypeView::Semicolon, value_of);
    lemma_space_is_passed(standing(text, x1 + 1, t5), value_of);
    assert(t5 =~= declared_sum_tokens(n, value_of(y)->0).take(5));
}

/// The second half of the text of a declared sum, from the second `var`
/// up to `print`, scans to its tokens.
proof fn lemma_declared_sum_scans_second(
    x: Seq<char>,
    y: Seq<char>,
    value_of: spec_fn(Seq<char>) -> Option<Number>,
)
    requires
        spells_number(x),
        spells_number(y),
        value_of(x) is Some,
        value_of(y) is Some,
    ensures
        finished(
            standing(
                declared_sum_text(x, y),
                10 + x.len() as int,
                declared_sum_tokens(value_of(x)->0, value_of(y)->0).take(5),
            ),
            value_of,
        ) == finished(
            standing(
                declared_sum_text(x, y),
                20 + x.len() as int + y.len() as int,
                declared_sum_tokens(value_of(x)->0, value_of(y)->0).take(10),
            ),
            value_of,
        ),
{
    let text = declared_sum_text(x, y);
    let n = value_of(y)->0;
    let all = declared_sum_tokens(value_of(x)->0, n);
    reveal_strlit("var a = ");
    reveal_strlit("; var b = ");
    reveal_strlit("; print a + b;");
    reveal_strlit("var");
    reveal_strlit("b");
    lemma_var_is_a_keyword();
    lemma_a_and_b_are_identifiers();
    let v0 = 10 + x.len() as int;
    let y0 = v0 + 8;
    let y1 = y0 + y.len();
    assert(text.subrange(v0, v0 + 3) =~= "var"@);
    assert(text[v0 + 3] == ' ');
    assert(text.subrange(v0 + 4, v0 + 5) =~= "b"@);
    assert(text[v0 + 5] == ' ' && text[v0 + 6] == '=' && text[v0 + 7] == ' ');
    assert(text.subrange(y0, y1) =~= y);
    assert(text[y1] == ';' && text[y1 + 1] == ' ');
    let t5 = all.take(5);
    let t6 = t5.push(token(TokenTypeView::Var));
    let t7 = t6.push(token(TokenTypeView::Identifer("b"@)));
    let t8 = t7.push(token(TokenTypeView::Equal));
    let t9 = t8.push(token(TokenTypeView::Number(n)));
    let t10 = t9.push(token(TokenTypeView::Semicolon));
    lemma_word_is_read(standing(text, v0, t5), "var"@, value_of);
    lemma_space_is_passed(standing(text, v0 + 3, t6), value_of);
    lemma_word_is_read(standing(text, v0 + 4, t6), "b"@, value_of);
    lemma_space_is_passed(standing(text, v0 + 5, t7), value_of);
    lemma_equal_is_read(standing(text, v0 + 6, t7), value_of);
    lemma_space_is_passed(standing(text, v0 + 7, t8), value_of);
    lemma_number_is_read(standing(text, y0, t8), y, n, value_of);
    lemma_sign_is_read(standing(text, y1, t9), TokenTypeView::Semicolon, value_of);
    lemma_space_is_passed(standing(text, y1 + 1, t10), value_of);
    assert(t10 =~= all.take(10));
}

/// The rest of the text of a declared sum, from `print` on, scans to its
/// tokens.
proof fn lemma_declared_sum_scans_last(
    x: Seq<char>,
    y: Seq<char>,
    value_of: spec_fn(Seq<char>) -> Option<Number>,
)
    requires
        value_of(x) is Some,
        value_of(y) is Some,
    ensures
        finished(
            standing(
                declared_sum_text(x, y),
                20 + x.len() as int + y.len() as int,
                declared_sum_tokens(value_of(x)->0, value_of(y)->0).take(10),
            ),
            value_of,
        ) == standing(
            declared_sum_text(x, y),
            declared_sum_text(x, y).len() as int,
            declared_sum_tokens(value_of(x)->0, value_of(y)->0),
        ),
{
    let text = declared_sum_text(x, y);
    let all = declared_sum_tokens(value_of(x)->0, value_of(y)->0);
    reveal_strlit("var a = ");
    reveal_strlit("; var b = ");
    reveal_strlit("; print a + b;");
    reveal_strlit("print");
    reveal_strlit("a");
    reveal_strlit("b");
    lemma_print_is_a_keyword();
    lemma_a_and_b_are_identifiers();
    let p0 = 20 + x.len() as int + y.len() as int;
    assert(text.len() == p0 + 12);
    assert(text.subrange(p0, p0 + 5) =~= "print"@);
    assert(text[p0 + 5] == ' ');
    assert(text.subrange(p0 + 6, p0 + 7) =~= "a"@);
    assert(text[p0 + 7] == ' ' && text[p0 + 8] == '+' && text[p0 + 9] == ' ');
    assert(text.subrange(p0 + 10, p0 + 11) =~= "b"@);
    assert(text[p0 + 11] == ';');
    let t10 = all.take(10);
    let t11 = t10.push(token(TokenTypeView::Print));
    let t12 = t11.push(token(TokenTypeView::Identifer("a"@)));
    let t13 = t12.push(token(TokenTypeView::Plus));
    let t14 = t13.push(token(TokenTypeView::Identifer("b"@)));
    let t15 = t14.push(token(TokenTypeView::Semicolon));
    lemma_word_is_read(standing(text, p0, t10), "print"@, value_of);
    lemma_space_is_passed(standing(text, p0 + 5, t11), value_of);
    lemma_word_is_read(standing(text, p0 + 6, t11), "a"@, value_of);
    lemma_space_is_passed(standing(text, p0 + 7, t12), value_of);
    lemma_sign_is_read(standing(text, p0 + 8, t12), TokenTypeView::Plus, value_of);
    lemma_space_is_passed(standing(text, p0 + 9, t13), value_of);
    lemma_word_is_read(standing(text, p0 + 10, t13), "b"@, value_of);
    lemma_sign_is_read(standing(text, p0 + 11, t14), TokenTypeView::Semicolon, value_of);
    lemma_end_is_reached(standing(text, p0 + 12, t15), value_of);
    assert(t15.push(token(TokenTypeView::EOF)) =~= all);
}

/// The tokens of a declared sum parse, without a report, to its three
/// statements.
proof fn lemma_declared_sum_parses(x: Number, y: Number)
    ensures
        program(declared_sum_tokens(x, y), 0) == (Program {
            used: 15,
            reports: Seq::empty(),
            statements: declared_sum(x, y),
            failed: false,
        }),
{
    let tokens = declared_sum_tokens(x, y);
    let statements = declared_sum(x, y);
    lemma_one_operand(tokens, 3);
    lemma_var_statement(tokens, 0, "a"@, number(x), 1);
    lemma_one_operand(tokens, 8);
    lemma_var_statement(tokens, 5, "b"@, number(y), 1);
    lemma_one_sum(tokens, 11);
    lemma_print_statement(tokens, 10, statements[2]->Print_0, 3);
    lemma_program_goes_on(tokens, 0, statements[0], 5);
    lemma_program_goes_on(tokens, 5, statements[1], 5);
    lemma_program_goes_on(tokens, 10, statements[2], 5);
    lemma_program_ends(tokens, 15);
    let nothing = Seq::<DiagnosticView>::empty();
    assert(nothing + nothing =~= nothing);
    assert(seq![statements[0]] + (seq![statements[1]] + (seq![statements[2]] + Seq::<
        StmtView,
    >::empty())) =~= statements);
}

/// What the statements of a declared sum do.
proof fn lemma_declared_sum_runs(
    state: InterpreterView,
    x: Number,
    y: Number,
    arithmetic: spec_fn(Arithmetic) -> Number,
)
    ensures
        complete(state, declared_sum(x, y), None, arithmetic, 1) == (Ran {
            outcome: InterpretationView::Finished,
            state: InterpreterView {
                output: state.output + seq![
                    number_glyph(arithmetic(request(Operation::Add, x, y))),
                    glyph('\n'),
                ],
                variables: state.variables.insert("a"@, LiteralView::Number(x)).insert(
                    "b"@,
                    LiteralView::Number(y),
                ),
            },
        }),
{
    lemma_a_and_b_are_identifiers();
    let statements = declared_sum(x, y);
    let sum = binary(variable("a"@), token(TokenTypeView::Plus), variable("b"@));
    let last = statements.drop_first().drop_first();
    assert(last[0] == statements[2]);
    assert(statements.drop_first()[0] == statements[1]);
    assert(last.drop_first() =~= Seq::empty());
    assert(program_operations(statements) == 1) by {
        reveal_with_fuel(program_operations, 4);
        reveal_with_fuel(operations, 3);
    }
    law_completing_is_effects(state, statements, None, arithmetic, 1);
    let bound = state.variables.insert("a"@, LiteralView::Number(x)).insert(
        "b"@,
        LiteralView::Number(y),
    );
    let first = effect(state, statements[0], None, arithmetic);
    assert(first.outcome is Done && first.answer is None && first.state.output == state.output);
    let second = effect(first.state, statements[1], None, arithmetic);
    assert(second.outcome is Done && second.answer is None);
    assert(second.state == (InterpreterView { output: state.output, variables: bound }));
    let added = meaning(bound, sum, None, arithmetic);
    assert(added.outcome == EvaluationView::Value(
        LiteralView::Number(arithmetic(request(Operation::Add, x, y))),
    )) by {
        reveal_with_fuel(meaning, 2);
    }
    assert(added.variables == bound) by {
        reveal_with_fuel(meaning, 2);
    }
    let third = effect(second.state, statements[2], None, arithmetic);
    assert(third.outcome is Done);
    assert(third.state.output =~= state.output + seq![
        number_glyph(arithmetic(request(Operation::Add, x, y))),
        glyph('\n'),
    ]);
    assert(third.state.variables == bound);
    assert(effects(state, statements, None, arithmetic).state == third.state
        && effects(state, statements, None, arithmetic).outcome is Finished) by {
        reveal_with_fuel(effects, 4);
    }
}

/// Two variables declared with numbers, and the sum of the two printed.
///
/// Whatever numbers the spellings `x` and `y` stand for, and whatever the
/// sum of the two comes to: the text `var a = x; var b = y; print a + b;`
/// scans without a report, parses to three statements, and writes one line,
/// the sum; both variables stay bound to their numbers.
pub proof fn law_declared_sum(
    state: InterpreterView,
    x: Seq<char>,
    y: Seq<char>,
    value_of: spec_fn(Seq<char>) -> Option<Number>,
    arithmetic: spec_fn(Arithmetic) -> Number,
)
    requires
        spells_number(x),
        spells_number(y),
        value_of(x) is Some,
        value_of(y) is Some,
    ensures
        ({
            let scanned = ScannerView::fresh(declared_sum_text(x, y)).finish(value_of);
            let parsed = program(scanned.tokens, 0);
            let ran = complete(state, parsed.statements, None, arithmetic, 1);
            &&& scanned.diagnostics == Seq::<DiagnosticView>::empty()
            &&& scanned.tokens == declared_sum_tokens(value_of(x)->0, value_of(y)->0)
            &&& !parsed.failed
            &&& parsed.reports == Seq::<DiagnosticView>::empty()
            &&& parsed.statements == declared_sum(value_of(x)->0, value_of(y)->0)
            &&& ran.outcome == InterpretationView::Finished
            &&& ran.state.output == state.output + seq![
                number_glyph(
                    arithmetic(request(Operation::Add, value_of(x)->0, value_of(y)->0)),
                ),
                glyph('\n'),
            ]
            &&& ran.state.variables == state.variables.insert(
                "a"@,
                LiteralView::Number(value_of(x)->0),
            ).insert("b"@, LiteralView::Number(value_of(y)->0))
        }),
{
    lemma_declared_sum_scans_first(x, y, value_of);
    lemma_declared_sum_scans_second(x, y, value_of);
    lemma_declared_sum_scans_last(x, y, value_of);
    reveal(finished);
    lemma_declared_sum_parses(value_of(x)->0, value_of(y)->0);
    lemma_declared_sum_runs(state, value_of(x)->0, value_of(y)->0, arithmetic);
}

/// A literal is read back as it is written, where its text is.
///
/// The prefix form of `true`, `false` or `nil` is its keyword, and that of
/// a number is the number's spelling. The keyword scans to the keyword's
/// token, and the spelling of a number, where `value_of` makes that number
/// of it, to the number's token; either parses to the literal again.
pub proof fn law_literal_reads_back(
    value: LiteralView,
    text: Seq<char>,
    value_of: spec_fn(Seq<char>) -> Option<Number>,
)
    requires
        match value {
            LiteralView::Number(n) => spells_number(text) && value_of(text) == Some(n),
            LiteralView::STRING(_) => false,
            _ => text == word(value),
        },
    ensures
        ExprView::Literal(value).prefix_form() == match value {
            LiteralView::Number(n) => seq![number_glyph(n)],
            _ => chars(text),
        },
        ScannerView::fresh(text).finish(value_of).diagnostics == Seq::<DiagnosticView>::empty(),
        ScannerView::fresh(text).finish(value_of).tokens.len() == 2,
        expression(ScannerView::fresh(text).finish(value_of).tokens, 0) == Parsed::built(
            1,
            ExprView::Literal(value),
        ),
{
    reveal_strlit("true");
    reveal_strlit("false");
    reveal_strlit("nil");
    let none = Seq::<TokenView>::empty();
    let tag = match value {
        LiteralView::Number(n) => TokenTypeView::Number(n),
        _ => keyword_of(value),
    };
    let read = none.push(token(tag));
    assert(ScannerView::fresh(text) == standing(text, 0, none));
    assert(text.subrange(0, text.len() as int) =~= text);
    if value is Number {
        lemma_number_is_read(standing(text, 0, none), text, value->Number_0, value_of);
    } else {
        lemma_values_are_keywords(value);
        lemma_word_is_read(standing(text, 0, none), text, value_of);
    }
    lemma_end_is_reached(standing(text, text.len() as int, read), value_of);
    reveal(finished);
    let tokens = ScannerView::fresh(text).finish(value_of).tokens;
    assert(tokens =~= seq![token(tag), token(TokenTypeView::EOF)]);
    lemma_one_operand(tokens, 0);
}

} // verus!
