//! What an expression means, and that evaluating it request by request
//! comes to just that.

use super::environment::undefined;
use super::error::RuntimeErrorView;
use super::{
    combine, conclude, declare_nil, literal, reduce, run, step, unary_value, CombinedView,
    EvaluationView, ExecutionView, InterpretationView, InterpreterView, Ran, Reduced, Stepped,
};
use crate::expr::{ExprView, LiteralView};
use crate::number::{Arithmetic, Number};
use crate::statement::StmtView;
use vstd::prelude::*;

verus! {

/// What `e` evaluates to where `arithmetic` says what every rounded
/// operation comes to: a value or an error, with the variables as the
/// evaluation leaves them. Where `answer` is given, it stands for the
/// result of the first operation.
pub open spec fn meaning(
    variables: Map<Seq<char>, LiteralView>,
    e: ExprView,
    answer: Option<Number>,
    arithmetic: spec_fn(Arithmetic) -> Number,
) -> Reduced
    decreases e,
{
    match e {
        ExprView::Literal(value) => Reduced {
            outcome: EvaluationView::Value(value),
            variables,
            answer,
        },
        ExprView::Variable(token) => Reduced {
            outcome: if variables.contains_key(token.tag->Identifer_0) {
                EvaluationView::Value(variables[token.tag->Identifer_0])
            } else {
                EvaluationView::Failed(undefined(token))
            },
            variables,
            answer,
        },
        ExprView::Grouping { expr } => meaning(variables, *expr, answer, arithmetic),
        ExprView::Assign { name, value } => {
            let assigned = meaning(variables, *value, answer, arithmetic);
            match assigned.outcome {
                EvaluationView::Value(v) => if assigned.variables.contains_key(
                    name.tag->Identifer_0,
                ) {
                    Reduced {
                        variables: assigned.variables.insert(name.tag->Identifer_0, v),
                        ..assigned
                    }
                } else {
                    Reduced { outcome: EvaluationView::Failed(undefined(name)), ..assigned }
                },
                _ => assigned,
            }
        },
        ExprView::Unary { operator, operand } => {
            let inner = meaning(variables, *operand, answer, arithmetic);
            match inner.outcome {
                EvaluationView::Value(v) => Reduced {
                    outcome: match unary_value(operator.tag, v) {
                        Ok(value) => EvaluationView::Value(value),
                        Err(error) => EvaluationView::Failed(error),
                    },
                    ..inner
                },
                _ => inner,
            }
        },
        ExprView::Binary { left, operator, right } => {
            let first = meaning(variables, *left, answer, arithmetic);
            match first.outcome {
                EvaluationView::Value(l) => {
                    let second = meaning(first.variables, *right, first.answer, arithmetic);
                    match second.outcome {
                        EvaluationView::Value(r) => match combine(operator.tag, l, r) {
                            CombinedView::Value(value) => Reduced {
                                outcome: EvaluationView::Value(value),
                                ..second
                            },
                            CombinedView::Failed(error) => Reduced {
                                outcome: EvaluationView::Failed(error),
                                ..second
                            },
                            CombinedView::Arithmetic(request) => Reduced {
                                outcome: EvaluationView::Value(
                                    LiteralView::Number(
                                        match second.answer {
                                            Some(result) => result,
                                            None => arithmetic(request),
                                        },
                                    ),
                                ),
                                variables: second.variables,
                                answer: None,
                            },
                        },
                        _ => second,
                    }
                },
                _ => first,
            }
        },
        ExprView::Ternary { condition, true_expr, false_expr } => {
            let chosen = meaning(variables, *condition, answer, arithmetic);
            match chosen.outcome {
                EvaluationView::Value(LiteralView::True) => meaning(
                    chosen.variables,
                    *true_expr,
                    chosen.answer,
                    arithmetic,
                ),
                EvaluationView::Value(LiteralView::False) => meaning(
                    chosen.variables,
                    *false_expr,
                    chosen.answer,
                    arithmetic,
                ),
                EvaluationView::Value(_) => Reduced {
                    outcome: EvaluationView::Failed(RuntimeErrorView::ConditionNotBoolean),
                    ..chosen
                },
                _ => chosen,
            }
        },
    }
}

/// How many binary operations stand in a tree: no evaluation of it asks for
/// more rounded operations than that.
pub open spec fn operations(e: ExprView) -> nat
    decreases e,
{
    match e {
        ExprView::Literal(_) => 0,
        ExprView::Variable(_) => 0,
        ExprView::Grouping { expr } => operations(*expr),
        ExprView::Assign { name, value } => operations(*value),
        ExprView::Unary { operator, operand } => operations(*operand),
        ExprView::Binary { left, operator, right } => 1 + operations(*left) + operations(*right),
        ExprView::Ternary { condition, true_expr, false_expr } => operations(*condition)
            + operations(*true_expr) + operations(*false_expr),
    }
}

/// One if an answer is at hand, zero if not.
pub open spec fn at_hand(answer: Option<Number>) -> nat {
    if answer is Some {
        1
    } else {
        0
    }
}

/// That evaluating `e` as far as it goes agrees with what `e` means.
///
/// Where the evaluation comes to the end, it comes to the meaning. Where it
/// is pending, what is left means, with the answer to the request, what the
/// whole means; what is left holds an operation, and one operation fewer
/// than the whole where an answer was given. An answer is used once or not
/// at all, and only by an operation.
pub open spec fn agrees(
    variables: Map<Seq<char>, LiteralView>,
    e: ExprView,
    answer: Option<Number>,
    arithmetic: spec_fn(Arithmetic) -> Number,
) -> bool {
    let reduced = reduce(variables, e, answer);
    let meant = meaning(variables, e, answer, arithmetic);
    &&& reduced.answer is Some ==> reduced.answer == answer
    &&& answer is Some && reduced.answer is None ==> operations(e) >= 1
    &&& match reduced.outcome {
        EvaluationView::Pending { request, residual } => {
            &&& reduced.answer is None
            &&& meant == meaning(
                reduced.variables,
                residual,
                Some(arithmetic(request)),
                arithmetic,
            )
            &&& 1 <= operations(residual)
            &&& operations(residual) + at_hand(answer) <= operations(e)
        },
        _ => meant == reduced,
    }
}

proof fn lemma_grouping_agrees(
    variables: Map<Seq<char>, LiteralView>,
    e: ExprView,
    answer: Option<Number>,
    arithmetic: spec_fn(Arithmetic) -> Number,
)
    requires
        e is Grouping,
        agrees(variables, *e->expr, answer, arithmetic),
    ensures
        agrees(variables, e, answer, arithmetic),
{
    let inner = reduce(variables, *e->expr, answer);
    if inner.outcome is Pending {
        let given = Some(arithmetic(inner.outcome->request));
        let left_over = ExprView::Grouping { expr: Box::new(inner.outcome->residual) };
        assert(reduce(variables, e, answer).outcome->residual == left_over);
        assert(meaning(inner.variables, left_over, given, arithmetic) == meaning(
            inner.variables,
            inner.outcome->residual,
            given,
            arithmetic,
        ));
    }
}

proof fn lemma_assign_agrees(
    variables: Map<Seq<char>, LiteralView>,
    e: ExprView,
    answer: Option<Number>,
    arithmetic: spec_fn(Arithmetic) -> Number,
)
    requires
        e is Assign,
        agrees(variables, *e->value, answer, arithmetic),
    ensures
        agrees(variables, e, answer, arithmetic),
{
    let inner = reduce(variables, *e->value, answer);
    if inner.outcome is Pending {
        let given = Some(arithmetic(inner.outcome->request));
        let left_over = ExprView::Assign {
            name: e->name,
            value: Box::new(inner.outcome->residual),
        };
        assert(reduce(variables, e, answer).outcome->residual == left_over);
        assert(meaning(inner.variables, left_over, given, arithmetic) == meaning(
            variables,
            e,
            answer,
            arithmetic,
        ));
    }
}

proof fn lemma_unary_agrees(
    variables: Map<Seq<char>, LiteralView>,
    e: ExprView,
    answer: Option<Number>,
    arithmetic: spec_fn(Arithmetic) -> Number,
)
    requires
        e is Unary,
        agrees(variables, *e->operand, answer, arithmetic),
    ensures
        agrees(variables, e, answer, arithmetic),
{
    let inner = reduce(variables, *e->operand, answer);
    if inner.outcome is Pending {
        let given = Some(arithmetic(inner.outcome->request));
        let left_over = ExprView::Unary {
            operator: e->Unary_operator,
            operand: Box::new(inner.outcome->residual),
        };
        assert(reduce(variables, e, answer).outcome->residual == left_over);
        assert(meaning(inner.variables, left_over, given, arithmetic) == meaning(
            variables,
            e,
            answer,
            arithmetic,
        ));
    }
}

proof fn lemma_binary_agrees(
    variables: Map<Seq<char>, LiteralView>,
    e: ExprView,
    answer: Option<Number>,
    arithmetic: spec_fn(Arithmetic) -> Number,
)
    requires
        e is Binary,
        agrees(variables, *e->left, answer, arithmetic),
        reduce(variables, *e->left, answer).outcome is Value ==> agrees(
            reduce(variables, *e->left, answer).variables,
            *e->right,
            reduce(variables, *e->left, answer).answer,
            arithmetic,
        ),
    ensures
        agrees(variables, e, answer, arithmetic),
{
    let operator = e->Binary_operator;
    let first = reduce(variables, *e->left, answer);
    if first.outcome is Pending {
        let given = Some(arithmetic(first.outcome->request));
        let left_over = ExprView::Binary {
            left: Box::new(first.outcome->residual),
            operator,
            right: e->right,
        };
        assert(reduce(variables, e, answer).outcome->residual == left_over);
        assert(meaning(first.variables, left_over, given, arithmetic) == meaning(
            variables,
            e,
            answer,
            arithmetic,
        ));
    } else if first.outcome is Value {
        let l = first.outcome->Value_0;
        let second = reduce(first.variables, *e->right, first.answer);
        if second.outcome is Pending {
            let given = Some(arithmetic(second.outcome->request));
            let left_over = ExprView::Binary {
                left: Box::new(literal(l)),
                operator,
                right: Box::new(second.outcome->residual),
            };
            assert(reduce(variables, e, answer).outcome->residual == left_over);
            assert(meaning(second.variables, literal(l), given, arithmetic) == (Reduced {
                outcome: EvaluationView::Value(l),
                variables: second.variables,
                answer: given,
            }));
            assert(meaning(second.variables, left_over, given, arithmetic) == meaning(
                variables,
                e,
                answer,
                arithmetic,
            ));
        } else if second.outcome is Value {
            let r = second.outcome->Value_0;
            if combine(operator.tag, l, r) is Arithmetic && second.answer is None {
                let asked = combine(operator.tag, l, r)->Arithmetic_0;
                let given = Some(arithmetic(asked));
                let left_over = ExprView::Binary {
                    left: Box::new(literal(l)),
                    operator,
                    right: Box::new(literal(r)),
                };
                assert(reduce(variables, e, answer).outcome == EvaluationView::Pending {
                    request: asked,
                    residual: left_over,
                });
                assert(meaning(second.variables, literal(l), given, arithmetic) == (Reduced {
                    outcome: EvaluationView::Value(l),
                    variables: second.variables,
                    answer: given,
                }));
                assert(meaning(second.variables, literal(r), given, arithmetic) == (Reduced {
                    outcome: EvaluationView::Value(r),
                    variables: second.variables,
                    answer: given,
                }));
                assert(meaning(second.variables, left_over, given, arithmetic) == meaning(
                    variables,
                    e,
                    answer,
                    arithmetic,
                ));
                assert(operations(literal(l)) == 0 && operations(literal(r)) == 0);
                assert(operations(left_over) == 1);
            }
        }
    }
}

proof fn lemma_ternary_agrees(
    variables: Map<Seq<char>, LiteralView>,
    e: ExprView,
    answer: Option<Number>,
    arithmetic: spec_fn(Arithmetic) -> Number,
)
    requires
        e is Ternary,
        agrees(variables, *e->condition, answer, arithmetic),
        reduce(variables, *e->condition, answer).outcome == EvaluationView::Value(
            LiteralView::True,
        ) ==> agrees(
            reduce(variables, *e->condition, answer).variables,
            *e->true_expr,
            reduce(variables, *e->condition, answer).answer,
            arithmetic,
        ),
        reduce(variables, *e->condition, answer).outcome == EvaluationView::Value(
            LiteralView::False,
        ) ==> agrees(
            reduce(variables, *e->condition, answer).variables,
            *e->false_expr,
            reduce(variables, *e->condition, answer).answer,
            arithmetic,
        ),
    ensures
        agrees(variables, e, answer, arithmetic),
{
    let chosen = reduce(variables, *e->condition, answer);
    if chosen.outcome is Pending {
        let given = Some(arithmetic(chosen.outcome->request));
        let left_over = ExprView::Ternary {
            condition: Box::new(chosen.outcome->residual),
            true_expr: e->true_expr,
            false_expr: e->false_expr,
        };
        assert(reduce(variables, e, answer).outcome->residual == left_over);
        assert(meaning(chosen.variables, left_over, given, arithmetic) == meaning(
            variables,
            e,
            answer,
            arithmetic,
        ));
    }
}

/// Evaluating as far as it goes and the meaning agree, for every
/// expression, whatever the variables hold and whatever answer is given.
pub proof fn lemma_reduce_keeps_meaning(
    variables: Map<Seq<char>, LiteralView>,
    e: ExprView,
    answer: Option<Number>,
    arithmetic: spec_fn(Arithmetic) -> Number,
)
    ensures
        agrees(variables, e, answer, arithmetic),
    decreases e,
{
    match e {
        ExprView::Literal(_) => {},
        ExprView::Variable(_) => {},
        ExprView::Grouping { expr } => {
            lemma_reduce_keeps_meaning(variables, *expr, answer, arithmetic);
            lemma_grouping_agrees(variables, e, answer, arithmetic);
        },
        ExprView::Assign { name, value } => {
            lemma_reduce_keeps_meaning(variables, *value, answer, arithmetic);
            lemma_assign_agrees(variables, e, answer, arithmetic);
        },
        ExprView::Unary { operator, operand } => {
            lemma_reduce_keeps_meaning(variables, *operand, answer, arithmetic);
            lemma_unary_agrees(variables, e, answer, arithmetic);
        },
        ExprView::Binary { left, operator, right } => {
            lemma_reduce_keeps_meaning(variables, *left, answer, arithmetic);
            let first = reduce(variables, *left, answer);
            if first.outcome is Value {
                lemma_reduce_keeps_meaning(first.variables, *right, first.answer, arithmetic);
            }
            lemma_binary_agrees(variables, e, answer, arithmetic);
        },
        ExprView::Ternary { condition, true_expr, false_expr } => {
            lemma_reduce_keeps_meaning(variables, *condition, answer, arithmetic);
            let chosen = reduce(variables, *condition, answer);
            if chosen.outcome == EvaluationView::Value(LiteralView::True) {
                lemma_reduce_keeps_meaning(
                    chosen.variables,
                    *true_expr,
                    chosen.answer,
                    arithmetic,
                );
            } else if chosen.outcome == EvaluationView::Value(LiteralView::False) {
                lemma_reduce_keeps_meaning(
                    chosen.variables,
                    *false_expr,
                    chosen.answer,
                    arithmetic,
                );
            }
            lemma_ternary_agrees(variables, e, answer, arithmetic);
        },
    }
}

/// Evaluates `e` to the end, where `arithmetic` answers each request, for
/// up to `limit` requests.
pub open spec fn settle(
    variables: Map<Seq<char>, LiteralView>,
    e: ExprView,
    answer: Option<Number>,
    arithmetic: spec_fn(Arithmetic) -> Number,
    limit: nat,
) -> Reduced
    decreases limit,
{
    let reduced = reduce(variables, e, answer);
    match reduced.outcome {
        EvaluationView::Pending { request, residual } => if limit > 0 {
            settle(
                reduced.variables,
                residual,
                Some(arithmetic(request)),
                arithmetic,
                (limit - 1) as nat,
            )
        } else {
            reduced
        },
        _ => reduced,
    }
}

/// Runs `statements` to the end, where `arithmetic` answers each request,
/// for up to `limit` requests.
pub open spec fn complete(
    state: InterpreterView,
    statements: Seq<StmtView>,
    answer: Option<Number>,
    arithmetic: spec_fn(Arithmetic) -> Number,
    limit: nat,
) -> Ran
    decreases limit,
{
    let ran = run(state, statements, answer);
    match ran.outcome {
        InterpretationView::Pending { request, residual } => if limit > 0 {
            complete(
                ran.state,
                residual,
                Some(arithmetic(request)),
                arithmetic,
                (limit - 1) as nat,
            )
        } else {
            ran
        },
        _ => ran,
    }
}

/// Evaluating request by request comes to the meaning: with a limit of as
/// many requests as the tree holds operations, or one fewer where an answer
/// is given, the evaluation comes to the end, and to what the expression
/// means.
pub proof fn law_settling_is_meaning(
    variables: Map<Seq<char>, LiteralView>,
    e: ExprView,
    answer: Option<Number>,
    arithmetic: spec_fn(Arithmetic) -> Number,
    limit: nat,
)
    requires
        limit + at_hand(answer) >= operations(e),
    ensures
        settle(variables, e, answer, arithmetic, limit) == meaning(
            variables,
            e,
            answer,
            arithmetic,
        ),
        !(meaning(variables, e, answer, arithmetic).outcome is Pending),
    decreases limit,
{
    lemma_reduce_keeps_meaning(variables, e, answer, arithmetic);
    lemma_meaning_is_final(variables, e, answer, arithmetic);
    let reduced = reduce(variables, e, answer);
    if reduced.outcome is Pending {
        law_settling_is_meaning(
            reduced.variables,
            reduced.outcome->residual,
            Some(arithmetic(reduced.outcome->request)),
            arithmetic,
            (limit - 1) as nat,
        );
    }
}

/// What an expression means is a value or an error, never a request.
pub proof fn lemma_meaning_is_final(
    variables: Map<Seq<char>, LiteralView>,
    e: ExprView,
    answer: Option<Number>,
    arithmetic: spec_fn(Arithmetic) -> Number,
)
    ensures
        !(meaning(variables, e, answer, arithmetic).outcome is Pending),
    decreases e,
{
    match e {
        ExprView::Literal(_) => {},
        ExprView::Variable(_) => {},
        ExprView::Grouping { expr } => {
            lemma_meaning_is_final(variables, *expr, answer, arithmetic);
        },
        ExprView::Assign { name, value } => {
            lemma_meaning_is_final(variables, *value, answer, arithmetic);
        },
        ExprView::Unary { operator, operand } => {
            lemma_meaning_is_final(variables, *operand, answer, arithmetic);
        },
        ExprView::Binary { left, operator, right } => {
            lemma_meaning_is_final(variables, *left, answer, arithmetic);
            let first = meaning(variables, *left, answer, arithmetic);
            lemma_meaning_is_final(first.variables, *right, first.answer, arithmetic);
        },
        ExprView::Ternary { condition, true_expr, false_expr } => {
            lemma_meaning_is_final(variables, *condition, answer, arithmetic);
            let chosen = meaning(variables, *condition, answer, arithmetic);
            lemma_meaning_is_final(chosen.variables, *true_expr, chosen.answer, arithmetic);
            lemma_meaning_is_final(chosen.variables, *false_expr, chosen.answer, arithmetic);
        },
    }
}

/// What `s` does where `arithmetic` says what every rounded operation
/// comes to.
pub open spec fn effect(
    state: InterpreterView,
    s: StmtView,
    answer: Option<Number>,
    arithmetic: spec_fn(Arithmetic) -> Number,
) -> Stepped {
    match s.expression() {
        None => declare_nil(state, s, answer),
        Some(e) => conclude(state, s, meaning(state.variables, e, answer, arithmetic)),
    }
}

/// What `statements` do, run in order, where `arithmetic` says what every
/// rounded operation comes to: they come to the end or to the first error.
pub open spec fn effects(
    state: InterpreterView,
    statements: Seq<StmtView>,
    answer: Option<Number>,
    arithmetic: spec_fn(Arithmetic) -> Number,
) -> Ran
    decreases statements.len(),
{
    if statements.len() == 0 {
        Ran { outcome: InterpretationView::Finished, state }
    } else {
        let one = effect(state, statements[0], answer, arithmetic);
        match one.outcome {
            ExecutionView::Done => effects(
                one.state,
                statements.drop_first(),
                one.answer,
                arithmetic,
            ),
            ExecutionView::Failed(error) => Ran {
                outcome: InterpretationView::Failed(error),
                state: one.state,
            },
            ExecutionView::Pending { request, residual } => Ran {
                outcome: InterpretationView::Pending {
                    request,
                    residual: seq![residual] + statements.drop_first(),
                },
                state: one.state,
            },
        }
    }
}

/// How many binary operations stand in a statement.
pub open spec fn statement_operations(s: StmtView) -> nat {
    match s.expression() {
        Some(e) => operations(e),
        None => 0,
    }
}

/// How many binary operations stand in a program.
pub open spec fn program_operations(statements: Seq<StmtView>) -> nat
    decreases statements.len(),
{
    if statements.len() == 0 {
        0
    } else {
        statement_operations(statements[0]) + program_operations(statements.drop_first())
    }
}

/// That running `statements` as far as they go agrees with what they do.
pub open spec fn program_agrees(
    state: InterpreterView,
    statements: Seq<StmtView>,
    answer: Option<Number>,
    arithmetic: spec_fn(Arithmetic) -> Number,
) -> bool {
    let ran = run(state, statements, answer);
    let done = effects(state, statements, answer, arithmetic);
    match ran.outcome {
        InterpretationView::Pending { request, residual } => {
            &&& done == effects(ran.state, residual, Some(arithmetic(request)), arithmetic)
            &&& 1 <= program_operations(residual)
            &&& program_operations(residual) + at_hand(answer) <= program_operations(statements)
        },
        _ => done == ran,
    }
}

/// Running as far as it goes and what the statements do agree, for every
/// program.
pub proof fn lemma_run_keeps_effects(
    state: InterpreterView,
    statements: Seq<StmtView>,
    answer: Option<Number>,
    arithmetic: spec_fn(Arithmetic) -> Number,
)
    ensures
        program_agrees(state, statements, answer, arithmetic),
    decreases statements.len(),
{
    if statements.len() > 0 {
        let s = statements[0];
        let rest = statements.drop_first();
        match s.expression() {
            None => {
                lemma_run_keeps_effects(
                    declare_nil(state, s, answer).state,
                    rest,
                    answer,
                    arithmetic,
                );
            },
            Some(e) => {
                lemma_reduce_keeps_meaning(state.variables, e, answer, arithmetic);
                let reduced = reduce(state.variables, e, answer);
                let one = step(state, s, answer);
                match reduced.outcome {
                    EvaluationView::Value(_) => {
                        lemma_run_keeps_effects(one.state, rest, one.answer, arithmetic);
                    },
                    EvaluationView::Failed(_) => {},
                    EvaluationView::Pending { request, residual } => {
                        let left_over = one.outcome->residual;
                        let after = seq![left_over] + rest;
                        let given = Some(arithmetic(request));
                        assert(after[0] == left_over);
                        assert(after.drop_first() =~= rest);
                        assert(left_over.expression() == Some(residual));
                        assert(effect(one.state, left_over, given, arithmetic) == effect(
                            state,
                            s,
                            answer,
                            arithmetic,
                        ));
                    },
                }
            },
        }
    }
}

/// Running request by request comes to what the statements do: with a
/// limit of as many requests as the program holds operations, or one fewer
/// where an answer is given, the run comes to the end or to the first
/// error, just as the statements say.
pub proof fn law_completing_is_effects(
    state: InterpreterView,
    statements: Seq<StmtView>,
    answer: Option<Number>,
    arithmetic: spec_fn(Arithmetic) -> Number,
    limit: nat,
)
    requires
        limit + at_hand(answer) >= program_operations(statements),
    ensures
        complete(state, statements, answer, arithmetic, limit) == effects(
            state,
            statements,
            answer,
            arithmetic,
        ),
    decreases limit,
{
    lemma_run_keeps_effects(state, statements, answer, arithmetic);
    let ran = run(state, statements, answer);
    if ran.outcome is Pending {
        law_completing_is_effects(
            ran.state,
            ran.outcome->residual,
            Some(arithmetic(ran.outcome->request)),
            arithmetic,
            (limit - 1) as nat,
        );
    }
}

} // verus!
