//! What parsing makes of tokens of particular shapes.

use crate::diagnostic::{DiagnosticView, Tier};
use crate::expr::{ExprView, LiteralView};
use crate::number::Number;
use crate::parser::{
    assignment, at_end, binary, declaration, expression, operand, primary, program, statement,
    tag_at, terminated, ternary, tier_expr, tier_rest, token_at, unary, var_declaration, Parsed,
    Program,
};
use crate::statement::StmtView;
use crate::token::{TokenTypeView, TokenView};
use vstd::prelude::*;

verus! {

/// The tree of a number.
pub open spec fn number(n: Number) -> ExprView {
    ExprView::Literal(LiteralView::Number(n))
}

/// The tree of a string.
pub open spec fn string(text: Seq<char>) -> ExprView {
    ExprView::Literal(LiteralView::STRING(text))
}

/// The literal that a token is by itself, if it is one.
pub open spec fn literal_of(tag: TokenTypeView) -> Option<LiteralView> {
    match tag {
        TokenTypeView::True => Some(LiteralView::True),
        TokenTypeView::False => Some(LiteralView::False),
        TokenTypeView::Nil => Some(LiteralView::Nil),
        TokenTypeView::Number(n) => Some(LiteralView::Number(n)),
        TokenTypeView::STRING(s) => Some(LiteralView::STRING(s)),
        _ => None,
    }
}

/// The operand that a token is by itself, if it is one: a literal or a
/// variable.
pub open spec fn operand_of(token: TokenView) -> Option<ExprView> {
    match literal_of(token.tag) {
        Some(value) => Some(ExprView::Literal(value)),
        None => if token.tag is Identifer {
            Some(ExprView::Variable(token))
        } else {
            None
        },
    }
}

/// Whether the tokens go on at `pos` with something that carries an
/// expression on: an operator between two operands, `?`, or `=`.
pub open spec fn carried_on(tokens: Seq<TokenView>, pos: int) -> bool {
    0 <= pos < tokens.len() && (tokens[pos].tag.is_binary_operator()
        || tokens[pos].tag is QuestionMark || tokens[pos].tag is Equal)
}

/// A token that is an operand by itself is a primary and a unary
/// expression of one token.
pub proof fn lemma_operand_token(tokens: Seq<TokenView>, pos: int)
    requires
        0 <= pos < tokens.len(),
        operand_of(tokens[pos]) is Some,
    ensures
        primary(tokens, pos) == Parsed::built(1, operand_of(tokens[pos])->0),
        unary(tokens, pos) == Parsed::built(1, operand_of(tokens[pos])->0),
        operand(tokens, pos, Tier::Multiplication) == Parsed::built(
            1,
            operand_of(tokens[pos])->0,
        ),
{
    reveal_with_fuel(unary, 1);
    reveal_with_fuel(primary, 1);
    reveal_with_fuel(operand, 1);
    assert(token_at(tokens, pos) == Some(tokens[pos]));
    assert(primary(tokens, pos) == Parsed::built(1, operand_of(tokens[pos])->0));
    assert(!tag_at(tokens, pos, TokenTypeView::Bang));
    assert(!tag_at(tokens, pos, TokenTypeView::Minus));
    assert(unary(tokens, pos) == primary(tokens, pos));
}

/// An operand of one token that no operator follows is an equality, as it
/// stands.
pub proof fn lemma_lone_operand(tokens: Seq<TokenView>, pos: int)
    requires
        0 <= pos < tokens.len(),
        operand_of(tokens[pos]) is Some,
        pos + 1 < tokens.len() ==> !tokens[pos + 1].tag.is_binary_operator(),
    ensures
        tier_expr(tokens, pos, Tier::Equality) == Parsed::built(1, operand_of(tokens[pos])->0),
{
    let e = operand_of(tokens[pos])->0;
    lemma_operand_token(tokens, pos);
    reveal_with_fuel(operand, 1);
    reveal_with_fuel(tier_rest, 1);
    reveal_with_fuel(tier_expr, 1);
    let lone = Parsed::built(1, e);
    let nothing = Parsed::built(0, e);
    assert(lone.reports + nothing.reports =~= lone.reports);
    assert(tier_rest(tokens, pos + 1, Tier::Multiplication, e) == nothing);
    assert(tier_expr(tokens, pos, Tier::Multiplication) == lone);
    assert(operand(tokens, pos, Tier::Addition) == lone);
    assert(tier_rest(tokens, pos + 1, Tier::Addition, e) == nothing);
    assert(tier_expr(tokens, pos, Tier::Addition) == lone);
    assert(operand(tokens, pos, Tier::Comparison) == lone);
    assert(tier_rest(tokens, pos + 1, Tier::Comparison, e) == nothing);
    assert(tier_expr(tokens, pos, Tier::Comparison) == lone);
    assert(operand(tokens, pos, Tier::Equality) == lone);
    assert(tier_rest(tokens, pos + 1, Tier::Equality, e) == nothing);
}

/// An addition without a report that nothing carries on is an expression,
/// as it stands.
pub proof fn lemma_lone_addition(tokens: Seq<TokenView>, pos: int, e: ExprView, used: nat)
    requires
        0 <= pos < tokens.len(),
        tier_expr(tokens, pos, Tier::Addition) == Parsed::built(used, e),
        !tokens[pos].tag.is_binary_operator(),
        !carried_on(tokens, pos + used),
    ensures
        expression(tokens, pos) == Parsed::built(used, e),
{
    reveal_with_fuel(tier_rest, 1);
    reveal_with_fuel(tier_expr, 1);
    reveal_with_fuel(operand, 1);
    reveal_with_fuel(ternary, 1);
    reveal_with_fuel(assignment, 1);
    reveal_with_fuel(expression, 1);
    let whole = Parsed::built(used, e);
    let nothing = Parsed::built(0, e);
    assert(whole.reports + nothing.reports =~= whole.reports);
    assert(operand(tokens, pos, Tier::Comparison) == whole);
    assert(tier_rest(tokens, pos + used, Tier::Comparison, e) == nothing);
    assert(tier_expr(tokens, pos, Tier::Comparison) == whole);
    assert(operand(tokens, pos, Tier::Equality) == whole);
    assert(tier_rest(tokens, pos + used, Tier::Equality, e) == nothing);
    assert(tier_expr(tokens, pos, Tier::Equality) == whole);
    assert(ternary(tokens, pos) == whole);
    assert(assignment(tokens, pos) == whole);
}

/// Whether `first` and `second` are two operators of which the laws of
/// precedence speak: `+` before `*`, `*` before `+`, or `*` before `/`.
pub open spec fn two_operators(first: TokenTypeView, second: TokenTypeView) -> bool {
    ||| first is Plus && second is Star
    ||| first is Star && second is Plus
    ||| first is Star && second is Slash
}

/// How `x first y second z` is grouped: the product first where `*`
/// follows `+`, and from the left otherwise.
pub open spec fn grouped(
    x: ExprView,
    first: TokenView,
    y: ExprView,
    second: TokenView,
    z: ExprView,
) -> ExprView {
    if first.tag is Plus && second.tag is Star {
        binary(x, first, binary(y, second, z))
    } else {
        binary(binary(x, first, y), second, z)
    }
}

/// Three operands of one token each, joined by two operators of which the
/// laws of precedence speak, with nothing behind them that carries the
/// expression on, are an expression of five tokens, grouped as precedence
/// has it.
pub proof fn lemma_two_operations(tokens: Seq<TokenView>, pos: int)
    requires
        0 <= pos,
        pos + 5 <= tokens.len(),
        operand_of(tokens[pos]) is Some,
        operand_of(tokens[pos + 2]) is Some,
        operand_of(tokens[pos + 4]) is Some,
        two_operators(tokens[pos + 1].tag, tokens[pos + 3].tag),
        !carried_on(tokens, pos + 5),
    ensures
        expression(tokens, pos) == Parsed::built(
            5,
            grouped(
                operand_of(tokens[pos])->0,
                tokens[pos + 1],
                operand_of(tokens[pos + 2])->0,
                tokens[pos + 3],
                operand_of(tokens[pos + 4])->0,
            ),
        ),
{
    let x = operand_of(tokens[pos])->0;
    let y = operand_of(tokens[pos + 2])->0;
    let z = operand_of(tokens[pos + 4])->0;
    let first = tokens[pos + 1];
    let second = tokens[pos + 3];
    lemma_operand_token(tokens, pos);
    lemma_operand_token(tokens, pos + 2);
    lemma_operand_token(tokens, pos + 4);
    reveal_with_fuel(tier_rest, 3);
    reveal_with_fuel(tier_expr, 1);
    reveal_with_fuel(operand, 1);
    let nothing = Seq::<DiagnosticView>::empty();
    assert(nothing + nothing =~= nothing);
    assert(operand(tokens, pos, Tier::Addition) == tier_expr(
        tokens,
        pos,
        Tier::Multiplication,
    ));
    assert(operand(tokens, pos + 2, Tier::Addition) == tier_expr(
        tokens,
        pos + 2,
        Tier::Multiplication,
    ));
    assert(operand(tokens, pos + 4, Tier::Addition) == tier_expr(
        tokens,
        pos + 4,
        Tier::Multiplication,
    ));
    assert(!Tier::Multiplication.cannot_begin(tokens[pos].tag));
    assert(!Tier::Multiplication.cannot_begin(tokens[pos + 2].tag));
    assert(!Tier::Multiplication.cannot_begin(tokens[pos + 4].tag));
    assert(!Tier::Addition.cannot_begin(tokens[pos].tag));
    let whole = grouped(x, first, y, second, z);
    if first.tag is Plus {
        let product = binary(y, second, z);
        assert(tier_rest(tokens, pos + 1, Tier::Multiplication, x) == Parsed::built(0, x));
        assert(tier_expr(tokens, pos, Tier::Multiplication) == Parsed::built(1, x));
        assert(tier_rest(tokens, pos + 5, Tier::Multiplication, product) == Parsed::built(
            0,
            product,
        ));
        assert(tier_rest(tokens, pos + 3, Tier::Multiplication, y) == Parsed::built(
            2,
            product,
        ));
        assert(tier_expr(tokens, pos + 2, Tier::Multiplication) == Parsed::built(3, product));
        assert(tier_rest(tokens, pos + 5, Tier::Addition, whole) == Parsed::built(0, whole));
        assert(tier_rest(tokens, pos + 1, Tier::Addition, x) == Parsed::built(4, whole));
    } else if second.tag is Plus {
        let product = binary(x, first, y);
        assert(tier_rest(tokens, pos + 3, Tier::Multiplication, product) == Parsed::built(
            0,
            product,
        ));
        assert(tier_rest(tokens, pos + 1, Tier::Multiplication, x) == Parsed::built(
            2,
            product,
        ));
        assert(tier_expr(tokens, pos, Tier::Multiplication) == Parsed::built(3, product));
        assert(tier_rest(tokens, pos + 5, Tier::Multiplication, z) == Parsed::built(0, z));
        assert(tier_expr(tokens, pos + 4, Tier::Multiplication) == Parsed::built(1, z));
        assert(tier_rest(tokens, pos + 5, Tier::Addition, whole) == Parsed::built(0, whole));
        assert(tier_rest(tokens, pos + 3, Tier::Addition, product) == Parsed::built(2, whole));
    } else {
        let product = binary(x, first, y);
        assert(tier_rest(tokens, pos + 5, Tier::Multiplication, whole) == Parsed::built(
            0,
            whole,
        ));
        assert(tier_rest(tokens, pos + 3, Tier::Multiplication, product) == Parsed::built(
            2,
            whole,
        ));
        assert(tier_rest(tokens, pos + 1, Tier::Multiplication, x) == Parsed::built(4, whole));
        assert(tier_expr(tokens, pos, Tier::Multiplication) == Parsed::built(5, whole));
        assert(tier_rest(tokens, pos + 5, Tier::Addition, whole) == Parsed::built(0, whole));
    }
    assert(tier_expr(tokens, pos, Tier::Addition) == Parsed::built(5, whole));
    lemma_lone_addition(tokens, pos, whole, 5);
}

/// Two operands of one token each with `+` between them, and nothing
/// behind them that carries the expression on, are an expression of three
/// tokens: their sum.
pub proof fn lemma_one_sum(tokens: Seq<TokenView>, pos: int)
    requires
        0 <= pos,
        pos + 3 <= tokens.len(),
        operand_of(tokens[pos]) is Some,
        tokens[pos + 1].tag is Plus,
        operand_of(tokens[pos + 2]) is Some,
        !carried_on(tokens, pos + 3),
    ensures
        expression(tokens, pos) == Parsed::built(
            3,
            binary(operand_of(tokens[pos])->0, tokens[pos + 1], operand_of(tokens[pos + 2])->0),
        ),
{
    let x = operand_of(tokens[pos])->0;
    let y = operand_of(tokens[pos + 2])->0;
    let sum = binary(x, tokens[pos + 1], y);
    lemma_operand_token(tokens, pos);
    lemma_operand_token(tokens, pos + 2);
    reveal_with_fuel(tier_rest, 2);
    reveal_with_fuel(tier_expr, 1);
    reveal_with_fuel(operand, 1);
    let nothing = Seq::<DiagnosticView>::empty();
    assert(nothing + nothing =~= nothing);
    assert(operand(tokens, pos, Tier::Addition) == tier_expr(
        tokens,
        pos,
        Tier::Multiplication,
    ));
    assert(operand(tokens, pos + 2, Tier::Addition) == tier_expr(
        tokens,
        pos + 2,
        Tier::Multiplication,
    ));
    assert(!Tier::Multiplication.cannot_begin(tokens[pos].tag));
    assert(!Tier::Multiplication.cannot_begin(tokens[pos + 2].tag));
    assert(!Tier::Addition.cannot_begin(tokens[pos].tag));
    assert(tier_rest(tokens, pos + 1, Tier::Multiplication, x) == Parsed::built(0, x));
    assert(tier_expr(tokens, pos, Tier::Multiplication) == Parsed::built(1, x));
    assert(tier_rest(tokens, pos + 3, Tier::Multiplication, y) == Parsed::built(0, y));
    assert(tier_expr(tokens, pos + 2, Tier::Multiplication) == Parsed::built(1, y));
    assert(tier_rest(tokens, pos + 3, Tier::Addition, sum) == Parsed::built(0, sum));
    assert(tier_rest(tokens, pos + 1, Tier::Addition, x) == Parsed::built(2, sum));
    assert(tier_expr(tokens, pos, Tier::Addition) == Parsed::built(3, sum));
    lemma_lone_addition(tokens, pos, sum, 3);
}

/// An operand of one token with nothing behind it that carries the
/// expression on is an expression, as it stands.
pub proof fn lemma_one_operand(tokens: Seq<TokenView>, pos: int)
    requires
        0 <= pos < tokens.len(),
        operand_of(tokens[pos]) is Some,
        !carried_on(tokens, pos + 1),
    ensures
        expression(tokens, pos) == Parsed::built(1, operand_of(tokens[pos])->0),
{
    lemma_lone_operand(tokens, pos);
    reveal_with_fuel(tier_expr, 1);
    reveal_with_fuel(ternary, 1);
    reveal_with_fuel(assignment, 1);
    reveal_with_fuel(expression, 1);
    assert(ternary(tokens, pos) == tier_expr(tokens, pos, Tier::Equality));
    assert(assignment(tokens, pos) == ternary(tokens, pos));
}

/// The ternary of three trees.
pub open spec fn choose_between(condition: ExprView, first: ExprView, second: ExprView) -> ExprView {
    ExprView::Ternary {
        condition: Box::new(condition),
        true_expr: Box::new(first),
        false_expr: Box::new(second),
    }
}

/// Three operands of one token each, joined by `?` and `:`, with no `=`
/// behind them, are an expression of five tokens: the ternary of the three.
pub proof fn lemma_one_choice(tokens: Seq<TokenView>, pos: int)
    requires
        0 <= pos,
        pos + 5 <= tokens.len(),
        operand_of(tokens[pos]) is Some,
        tokens[pos + 1].tag is QuestionMark,
        operand_of(tokens[pos + 2]) is Some,
        tokens[pos + 3].tag is Colon,
        operand_of(tokens[pos + 4]) is Some,
        pos + 5 < tokens.len() ==> !tokens[pos + 5].tag.is_binary_operator() && !(tokens[pos
            + 5].tag is Equal),
    ensures
        expression(tokens, pos) == Parsed::built(
            5,
            choose_between(
                operand_of(tokens[pos])->0,
                operand_of(tokens[pos + 2])->0,
                operand_of(tokens[pos + 4])->0,
            ),
        ),
{
    lemma_lone_operand(tokens, pos);
    lemma_lone_operand(tokens, pos + 2);
    lemma_lone_operand(tokens, pos + 4);
    reveal_with_fuel(tier_expr, 1);
    reveal_with_fuel(ternary, 1);
    reveal_with_fuel(assignment, 1);
    reveal_with_fuel(expression, 1);
    assert(tag_at(tokens, pos + 1, TokenTypeView::QuestionMark));
    assert(tag_at(tokens, pos + 3, TokenTypeView::Colon));
    let tree = choose_between(
        operand_of(tokens[pos])->0,
        operand_of(tokens[pos + 2])->0,
        operand_of(tokens[pos + 4])->0,
    );
    let nothing = Seq::<DiagnosticView>::empty();
    assert(nothing + nothing =~= nothing);
    assert(ternary(tokens, pos) == Parsed::built(5, tree));
    assert(!tag_at(tokens, pos + 5, TokenTypeView::Equal));
    assert(assignment(tokens, pos) == ternary(tokens, pos));
}

/// `print`, an expression without a report and `;` are a statement.
pub proof fn lemma_print_statement(tokens: Seq<TokenView>, pos: int, e: ExprView, used: nat)
    requires
        tag_at(tokens, pos, TokenTypeView::Print),
        expression(tokens, pos + 1) == Parsed::built(used, e),
        tag_at(tokens, pos + 1 + used, TokenTypeView::Semicolon),
    ensures
        declaration(tokens, pos) == Parsed::built(used + 2, StmtView::Print(e)),
{
    let inner = terminated(tokens, pos + 1);
    assert(inner == Parsed::built(used + 1, e));
    assert(!tag_at(tokens, pos, TokenTypeView::Var));
    assert(statement(tokens, pos) == Parsed::built(used + 2, StmtView::Print(e)));
}

/// `var`, a name, `=`, an expression without a report and `;` are a
/// statement.
pub proof fn lemma_var_statement(
    tokens: Seq<TokenView>,
    pos: int,
    name: Seq<char>,
    e: ExprView,
    used: nat,
)
    requires
        tag_at(tokens, pos, TokenTypeView::Var),
        tag_at(tokens, pos + 1, TokenTypeView::Identifer(name)),
        tag_at(tokens, pos + 2, TokenTypeView::Equal),
        expression(tokens, pos + 3) == Parsed::built(used, e),
        tag_at(tokens, pos + 3 + used, TokenTypeView::Semicolon),
    ensures
        declaration(tokens, pos) == Parsed::built(
            used + 4,
            StmtView::VarDec { name, initializer: Some(e) },
        ),
{
    let inner = terminated(tokens, pos + 3);
    assert(inner == Parsed::built(used + 1, e));
    assert(token_at(tokens, pos + 1) == Some(tokens[pos + 1]));
    let declared = var_declaration(tokens, pos + 1);
    assert(declared == Parsed::built(
        used + 3,
        StmtView::VarDec { name, initializer: Some(e) },
    ));
    let nothing = Seq::<DiagnosticView>::empty();
    assert(nothing + nothing =~= nothing);
}

/// A program that begins with a statement without a report is that
/// statement and the program behind it.
pub proof fn lemma_program_goes_on(tokens: Seq<TokenView>, pos: int, s: StmtView, used: nat)
    requires
        !at_end(tokens, pos),
        declaration(tokens, pos) == Parsed::built(used, s),
        used > 0,
    ensures
        program(tokens, pos) == program(tokens, pos + used).behind(
            used,
            Seq::empty(),
            seq![s],
            false,
        ),
{
    let rest = program(tokens, pos + used);
    assert(Seq::<DiagnosticView>::empty() + rest.reports =~= rest.reports);
}

/// A program of no statement.
pub open spec fn no_program() -> Program {
    Program { used: 0, reports: Seq::empty(), statements: Seq::empty(), failed: false }
}

/// At the end of the tokens stands the program of no statement.
pub proof fn lemma_program_ends(tokens: Seq<TokenView>, pos: int)
    requires
        at_end(tokens, pos),
    ensures
        program(tokens, pos) == no_program(),
{
}

} // verus!
