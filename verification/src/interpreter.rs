//! The evaluator: statements run against a store of variables.
//!
//! Everything about a program is decided here but the result of a rounded
//! arithmetic operation. Where evaluation comes to one, it stops and hands
//! out the operation as a request, together with what is left to do: the
//! same program, with every part that has been evaluated replaced by its
//! value. Evaluating what is left with the answer to the request goes on
//! from there.

pub mod environment;
pub mod error;
pub mod meaning;

use crate::expr::{truth, Expr, ExprView, LiteralValue, LiteralView};
use crate::number::{Arithmetic, Number, Operation};
use crate::parser::binary;
use crate::statement::{stmt_views, Stmt, StmtView};
use crate::text::{glyph, push_glyphs, Glyph};
use crate::token::{Token, TokenType, TokenTypeView};
use environment::{undefined, Environment};
use error::{RuntimeError, RuntimeErrorView};
use vstd::prelude::*;

verus! {

/// How far the evaluation of an expression got.
#[derive(Debug, PartialEq)]
pub enum Evaluation {
    /// To the end: this is the value.
    Value(LiteralValue),
    /// To an error.
    Failed(RuntimeError),
    /// To an arithmetic operation. `residual` evaluates to what the
    /// expression evaluates to, once the answer to `request` is supplied.
    Pending { request: Arithmetic, residual: Expr },
}

/// The mathematical content of an [`Evaluation`].
pub enum EvaluationView {
    Value(LiteralView),
    Failed(RuntimeErrorView),
    Pending { request: Arithmetic, residual: ExprView },
}

impl View for Evaluation {
    type V = EvaluationView;

    open spec fn view(&self) -> EvaluationView {
        match self {
            Evaluation::Value(value) => EvaluationView::Value(value@),
            Evaluation::Failed(error) => EvaluationView::Failed(error@),
            Evaluation::Pending { request, residual } => EvaluationView::Pending {
                request: *request,
                residual: residual@,
            },
        }
    }
}

/// What two values and the operator between them come to, as far as that
/// can be said without rounding.
#[derive(Debug, PartialEq)]
pub enum Combined {
    Value(LiteralValue),
    Failed(RuntimeError),
    /// The result of this operation.
    Arithmetic(Arithmetic),
}

/// The mathematical content of a [`Combined`].
pub enum CombinedView {
    Value(LiteralView),
    Failed(RuntimeErrorView),
    /// The result of this operation.
    Arithmetic(Arithmetic),
}

impl View for Combined {
    type V = CombinedView;

    open spec fn view(&self) -> CombinedView {
        match self {
            Combined::Value(value) => CombinedView::Value(value@),
            Combined::Failed(error) => CombinedView::Failed(error@),
            Combined::Arithmetic(request) => CombinedView::Arithmetic(*request),
        }
    }
}

/// The rounded operation that an operator stands for.
pub open spec fn operation_of(operator: TokenTypeView) -> Option<Operation> {
    match operator {
        TokenTypeView::Plus => Some(Operation::Add),
        TokenTypeView::Minus => Some(Operation::Subtract),
        TokenTypeView::Star => Some(Operation::Multiply),
        TokenTypeView::Slash => Some(Operation::Divide),
        _ => None,
    }
}

/// What an operator of comparison says of two numbers.
pub open spec fn comparison_of(operator: TokenTypeView, left: Number, right: Number) -> Option<
    bool,
> {
    match operator {
        TokenTypeView::Greater => Some(right.below(left)),
        TokenTypeView::GreaterEqual => Some(right.below(left) || right.equal_to(left)),
        TokenTypeView::Less => Some(left.below(right)),
        TokenTypeView::LessEqual => Some(left.below(right) || left.equal_to(right)),
        _ => None,
    }
}

/// What an operator makes of the one value behind it: `-` negates a number
/// and refuses anything else, `!` gives the opposite of the value's truth,
/// and no other operator is accepted.
pub open spec fn unary_value(operator: TokenTypeView, operand: LiteralView) -> Result<
    LiteralView,
    RuntimeErrorView,
> {
    match (operator, operand) {
        (TokenTypeView::Minus, LiteralView::Number(n)) => Ok(LiteralView::Number(n.negation())),
        (TokenTypeView::Minus, _) => Err(RuntimeErrorView::NegationOfNonNumber),
        (TokenTypeView::Bang, value) => Ok(truth(!value.is_truthy())),
        (other, _) => Err(RuntimeErrorView::UnexpectedUnaryOperator(other)),
    }
}

/// What an operator makes of the two values around it.
///
/// `==` and `!=` compare any two values and never fail. Between two numbers,
/// `+ - * /` ask for the rounded operation, but for a division by zero, which
/// fails; `> >= < <=` compare. `+` joins two strings, and fails in a way of
/// its own where exactly one side is a number. Everything else fails for
/// want of numbers, and so does an operator that is none of these.
pub open spec fn combine(operator: TokenTypeView, left: LiteralView, right: LiteralView) -> CombinedView {
    if operator is EqualEqual {
        CombinedView::Value(truth(left.same_as(right)))
    } else if operator is BangEqual {
        CombinedView::Value(truth(!left.same_as(right)))
    } else {
        match (left, right) {
            (LiteralView::Number(l), LiteralView::Number(r)) => match operation_of(operator) {
                Some(operation) => if operation is Divide && r.is_zero() {
                    CombinedView::Failed(RuntimeErrorView::DivideByZero)
                } else {
                    CombinedView::Arithmetic(Arithmetic { operation, left: l, right: r })
                },
                None => match comparison_of(operator, l, r) {
                    Some(holds) => CombinedView::Value(truth(holds)),
                    None => CombinedView::Failed(RuntimeErrorView::OperandsMustBeNumbers(operator)),
                },
            },
            (LiteralView::STRING(a), LiteralView::STRING(b)) => if operator is Plus {
                CombinedView::Value(LiteralView::STRING(a + b))
            } else {
                CombinedView::Failed(RuntimeErrorView::OperandsMustBeNumbers(operator))
            },
            _ => if operator is Plus && left.is_number() != right.is_number() {
                CombinedView::Failed(RuntimeErrorView::StringNumberMismatch)
            } else {
                CombinedView::Failed(RuntimeErrorView::OperandsMustBeNumbers(operator))
            },
        }
    }
}

/// The tree of a value.
pub open spec fn literal(value: LiteralView) -> ExprView {
    ExprView::Literal(value)
}

/// Where an evaluation stands: how far it got, what the variables hold
/// then, and the answer that is still unused.
pub struct Reduced {
    pub outcome: EvaluationView,
    pub variables: Map<Seq<char>, LiteralView>,
    pub answer: Option<Number>,
}

impl Reduced {
    /// This evaluation of a part, seen from the whole: where the part is
    /// pending, the whole is, with `around` the part's residual in the
    /// place of the part.
    pub open spec fn within(self, around: spec_fn(ExprView) -> ExprView) -> Reduced {
        match self.outcome {
            EvaluationView::Pending { request, residual } => Reduced {
                outcome: EvaluationView::Pending { request, residual: around(residual) },
                ..self
            },
            _ => self,
        }
    }
}

/// Evaluates `e` as far as it goes, from left to right.
///
/// `answer` is the result of the first rounded operation that the
/// evaluation comes to. With it that operation leaves its result and the
/// evaluation goes on; without it, or at a second operation, the evaluation
/// is pending.
///
/// A literal is its value. A variable is what it is bound to, and fails
/// where it is not bound. An assignment evaluates its right side, rebinds
/// the variable, which must be bound, and is the value assigned. A ternary
/// evaluates its condition, which must come to `true` or `false`, and then
/// the one branch that the condition chooses.
pub open spec fn reduce(
    variables: Map<Seq<char>, LiteralView>,
    e: ExprView,
    answer: Option<Number>,
) -> Reduced
    decreases e,
{
    match e {
        ExprView::Literal(value) => Reduced {
            outcome: EvaluationView::Value(value),
            variables,
            answer,
        },
        ExprView::Variable(token) => Reduced {
            outcome: if variables.contains_key(token.tag->Identifer_0) {
                EvaluationView::Value(variables[token.tag->Identifer_0])
            } else {
                EvaluationView::Failed(undefined(token))
            },
            variables,
            answer,
        },
        ExprView::Grouping { expr } => reduce(variables, *expr, answer).within(
            |residual: ExprView| ExprView::Grouping { expr: Box::new(residual) },
        ),
        ExprView::Assign { name, value } => {
            let assigned = reduce(variables, *value, answer);
            match assigned.outcome {
                EvaluationView::Value(v) => if assigned.variables.contains_key(
                    name.tag->Identifer_0,
                ) {
                    Reduced {
                        variables: assigned.variables.insert(name.tag->Identifer_0, v),
                        ..assigned
                    }
                } else {
                    Reduced { outcome: EvaluationView::Failed(undefined(name)), ..assigned }
                },
                _ => assigned.within(
                    |residual: ExprView| ExprView::Assign { name, value: Box::new(residual) },
                ),
            }
        },
        ExprView::Unary { operator, operand } => {
            let inner = reduce(variables, *operand, answer);
            match inner.outcome {
                EvaluationView::Value(v) => Reduced {
                    outcome: match unary_value(operator.tag, v) {
                        Ok(value) => EvaluationView::Value(value),
                        Err(error) => EvaluationView::Failed(error),
                    },
                    ..inner
                },
                _ => inner.within(
                    |residual: ExprView| ExprView::Unary { operator, operand: Box::new(residual) },
                ),
            }
        },
        ExprView::Binary { left, operator, right } => {
            let first = reduce(variables, *left, answer);
            match first.outcome {
                EvaluationView::Value(l) => {
                    let second = reduce(first.variables, *right, first.answer);
                    match second.outcome {
                        EvaluationView::Value(r) => match combine(operator.tag, l, r) {
                            CombinedView::Value(value) => Reduced {
                                outcome: EvaluationView::Value(value),
                                ..second
                            },
                            CombinedView::Failed(error) => Reduced {
                                outcome: EvaluationView::Failed(error),
                                ..second
                            },
                            CombinedView::Arithmetic(request) => match second.answer {
                                Some(result) => Reduced {
                                    outcome: EvaluationView::Value(LiteralView::Number(result)),
                                    variables: second.variables,
                                    answer: None,
                                },
                                None => Reduced {
                                    outcome: EvaluationView::Pending {
                                        request,
                                        residual: ExprView::Binary {
                                            left: Box::new(literal(l)),
                                            operator,
                                            right: Box::new(literal(r)),
                                        },
                                    },
                                    ..second
                                },
                            },
                        },
                        _ => second.within(
                            |residual: ExprView|
                                ExprView::Binary {
                                    left: Box::new(literal(l)),
                                    operator,
                                    right: Box::new(residual),
                                },
                        ),
                    }
                },
                _ => first.within(
                    |residual: ExprView|
                        ExprView::Binary { left: Box::new(residual), operator, right },
                ),
            }
        },
        ExprView::Ternary { condition, true_expr, false_expr } => {
            let chosen = reduce(variables, *condition, answer);
            match chosen.outcome {
                EvaluationView::Value(LiteralView::True) => reduce(
                    chosen.variables,
                    *true_expr,
                    chosen.answer,
                ),
                EvaluationView::Value(LiteralView::False) => reduce(
                    chosen.variables,
                    *false_expr,
                    chosen.answer,
                ),
                EvaluationView::Value(_) => Reduced {
                    outcome: EvaluationView::Failed(RuntimeErrorView::ConditionNotBoolean),
                    ..chosen
                },
                _ => chosen.within(
                    |residual: ExprView|
                        ExprView::Ternary {
                            condition: Box::new(residual),
                            true_expr,
                            false_expr,
                        },
                ),
            }
        },
    }
}

/// How far the execution of a statement got.
#[derive(Debug, PartialEq)]
pub enum Execution {
    /// To the end.
    Done,
    /// To an error.
    Failed(RuntimeError),
    /// To an arithmetic operation. `residual` does what is left of the
    /// statement, once the answer to `request` is supplied.
    Pending { request: Arithmetic, residual: Stmt },
}

/// The mathematical content of an [`Execution`].
pub enum ExecutionView {
    Done,
    Failed(RuntimeErrorView),
    Pending { request: Arithmetic, residual: StmtView },
}

/// How far the run of a program got.
#[derive(Debug, PartialEq)]
pub enum Interpretation {
    /// To the end.
    Finished,
    /// To an error; the statements behind the failing one were not run.
    Failed(RuntimeError),
    /// To an arithmetic operation. `residual` does what is left of the
    /// program, once the answer to `request` is supplied.
    Pending { request: Arithmetic, residual: Vec<Stmt> },
}

/// The mathematical content of an [`Interpretation`].
pub enum InterpretationView {
    Finished,
    Failed(RuntimeErrorView),
    Pending { request: Arithmetic, residual: Seq<StmtView> },
}

impl View for Execution {
    type V = ExecutionView;

    open spec fn view(&self) -> ExecutionView {
        match self {
            Execution::Done => ExecutionView::Done,
            Execution::Failed(error) => ExecutionView::Failed(error@),
            Execution::Pending { request, residual } => ExecutionView::Pending {
                request: *request,
                residual: residual@,
            },
        }
    }
}

impl View for Interpretation {
    type V = InterpretationView;

    open spec fn view(&self) -> InterpretationView {
        match self {
            Interpretation::Finished => InterpretationView::Finished,
            Interpretation::Failed(error) => InterpretationView::Failed(error@),
            Interpretation::Pending { request, residual } => InterpretationView::Pending {
                request: *request,
                residual: stmt_views(residual@),
            },
        }
    }
}

/// What an interpreter holds: what it has written, and its variables.
pub struct InterpreterView {
    /// The text written by `print`, oldest first.
    pub output: Seq<Glyph>,
    pub variables: Map<Seq<char>, LiteralView>,
}

/// Where the execution of a statement stands: how far it got, what the
/// interpreter holds then, and the answer that is still unused.
pub struct Stepped {
    pub outcome: ExecutionView,
    pub state: InterpreterView,
    pub answer: Option<Number>,
}

/// Where the run of a program stands: how far it got, and what the
/// interpreter holds then.
pub struct Ran {
    pub outcome: InterpretationView,
    pub state: InterpreterView,
}

/// The line that `print` writes for a value: the value as it is written,
/// and a newline.
pub open spec fn printed(value: LiteralView) -> Seq<Glyph> {
    value.text().push(glyph('\n'))
}

/// What a statement does once its expression has been evaluated as far as
/// `reduced` says.
///
/// An expression statement drops the value. `print` writes the value's
/// line. A declaration binds its name to the value, whether or not the name
/// was bound before. An error in the expression is the statement's error,
/// and nothing is written or bound then. Where the expression is pending,
/// so is the statement, with what is left of the expression in its place.
pub open spec fn conclude(state: InterpreterView, s: StmtView, reduced: Reduced) -> Stepped {
    let evaluated = InterpreterView { variables: reduced.variables, ..state };
    match reduced.outcome {
        EvaluationView::Failed(error) => Stepped {
            outcome: ExecutionView::Failed(error),
            state: evaluated,
            answer: reduced.answer,
        },
        EvaluationView::Pending { request, residual } => Stepped {
            outcome: ExecutionView::Pending {
                request,
                residual: match s {
                    StmtView::Expr(_) => StmtView::Expr(residual),
                    StmtView::Print(_) => StmtView::Print(residual),
                    StmtView::VarDec { name, .. } => StmtView::VarDec {
                        name,
                        initializer: Some(residual),
                    },
                },
            },
            state: evaluated,
            answer: reduced.answer,
        },
        EvaluationView::Value(value) => Stepped {
            outcome: ExecutionView::Done,
            state: match s {
                StmtView::Expr(_) => evaluated,
                StmtView::Print(_) => InterpreterView {
                    output: state.output + printed(value),
                    ..evaluated
                },
                StmtView::VarDec { name, .. } => InterpreterView {
                    variables: reduced.variables.insert(name, value),
                    ..evaluated
                },
            },
            answer: reduced.answer,
        },
    }
}

/// What a declaration without a first value does: it binds its name to
/// `nil`.
pub open spec fn declare_nil(state: InterpreterView, s: StmtView, answer: Option<Number>) -> Stepped {
    Stepped {
        outcome: ExecutionView::Done,
        state: InterpreterView {
            variables: state.variables.insert(s->name, LiteralView::Nil),
            ..state
        },
        answer,
    }
}

/// Executes `s` as far as it goes: its expression is evaluated as far as it
/// goes, and the statement concluded from there.
pub open spec fn step(state: InterpreterView, s: StmtView, answer: Option<Number>) -> Stepped {
    match s.expression() {
        None => declare_nil(state, s, answer),
        Some(e) => conclude(state, s, reduce(state.variables, e, answer)),
    }
}

/// Runs `statements` in order, as far as they go: to the end, to the first
/// error, or to the first arithmetic operation for which there is no
/// answer. What was written and bound on the way stays so.
pub open spec fn run(state: InterpreterView, statements: Seq<StmtView>, answer: Option<Number>) -> Ran
    decreases statements.len(),
{
    if statements.len() == 0 {
        Ran { outcome: InterpretationView::Finished, state }
    } else {
        let one = step(state, statements[0], answer);
        match one.outcome {
            ExecutionView::Done => run(one.state, statements.drop_first(), one.answer),
            ExecutionView::Failed(error) => Ran {
                outcome: InterpretationView::Failed(error),
                state: one.state,
            },
            ExecutionView::Pending { request, residual } => Ran {
                outcome: InterpretationView::Pending {
                    request,
                    residual: seq![residual] + statements.drop_first(),
                },
                state: one.state,
            },
        }
    }
}

impl ExprView {
    /// The number of nodes of the tree.
    pub open spec fn size(self) -> nat
        decreases self,
    {
        match self {
            ExprView::Assign { name, value } => 1 + value.size(),
            ExprView::Binary { left, operator, right } => 1 + left.size() + right.size(),
            ExprView::Grouping { expr } => 1 + expr.size(),
            ExprView::Literal(_) => 1,
            ExprView::Unary { operator, operand } => 1 + operand.size(),
            ExprView::Ternary { condition, true_expr, false_expr } => 1 + condition.size()
                + true_expr.size() + false_expr.size(),
            ExprView::Variable(_) => 1,
        }
    }
}

/// An interpreter: the variables of one session, and what it has written.
pub struct Interpreter {
    output: Vec<Glyph>,
    environment: Environment,
}

impl View for Interpreter {
    type V = InterpreterView;

    closed spec fn view(&self) -> InterpreterView {
        InterpreterView { output: self.output@, variables: self.environment@ }
    }
}

fn operation(operator: &TokenType) -> (r: Option<Operation>)
    ensures
        r == operation_of(operator@),
{
    match operator {
        TokenType::Plus => Some(Operation::Add),
        TokenType::Minus => Some(Operation::Subtract),
        TokenType::Star => Some(Operation::Multiply),
        TokenType::Slash => Some(Operation::Divide),
        _ => None,
    }
}

fn comparison(operator: &TokenType, left: Number, right: Number) -> (r: Option<bool>)
    ensures
        r == comparison_of(operator@, left, right),
{
    match operator {
        TokenType::Greater => Some(left.greater_than(right)),
        TokenType::GreaterEqual => Some(left.greater_or_equal(right)),
        TokenType::Less => Some(left.less_than(right)),
        TokenType::LessEqual => Some(left.less_or_equal(right)),
        _ => None,
    }
}

/// What `operator` makes of the one value behind it.
pub fn apply_unary(operator: TokenType, operand: LiteralValue) -> (r: Result<
    LiteralValue,
    RuntimeError,
>)
    ensures
        r matches Ok(value) ==> unary_value(operator@, operand@) == Ok::<
            LiteralView,
            RuntimeErrorView,
        >(value@),
        r matches Err(error) ==> unary_value(operator@, operand@) == Err::<
            LiteralView,
            RuntimeErrorView,
        >(error@),
{
    match operator {
        TokenType::Minus => match operand {
            LiteralValue::Number(n) => Ok(LiteralValue::Number(n.negated())),
            _ => Err(RuntimeError::NegationOfNonNumber),
        },
        TokenType::Bang => Ok(LiteralValue::from(!operand.is_truthy())),
        other => Err(RuntimeError::UnexpectedUnaryOperator(other)),
    }
}

/// What `operator` makes of the two values around it.
pub fn combine_values(operator: TokenType, left: LiteralValue, right: LiteralValue) -> (r: Combined)
    ensures
        r@ == combine(operator@, left@, right@),
{
    match operator {
        TokenType::EqualEqual => {
            return Combined::Value(LiteralValue::from(left.equals(&right)));
        },
        TokenType::BangEqual => {
            return Combined::Value(LiteralValue::from(!left.equals(&right)));
        },
        _ => {},
    }
    match (left, right) {
        (LiteralValue::Number(l), LiteralValue::Number(r)) => {
            match operation(&operator) {
                Some(operation) => {
                    let by_zero = match operation {
                        Operation::Divide => r.is_zero_value(),
                        _ => false,
                    };
                    if by_zero {
                        Combined::Failed(RuntimeError::DivideByZero)
                    } else {
                        Combined::Arithmetic(Arithmetic { operation, left: l, right: r })
                    }
                },
                None => match comparison(&operator, l, r) {
                    Some(holds) => Combined::Value(LiteralValue::from(holds)),
                    None => Combined::Failed(RuntimeError::OperandsMustBeNumbers(operator)),
                },
            }
        },
        (LiteralValue::STRING(a), LiteralValue::STRING(b)) => {
            match operator {
                TokenType::Plus => Combined::Value(LiteralValue::STRING(a.concat(b.as_str()))),
                _ => Combined::Failed(RuntimeError::OperandsMustBeNumbers(operator)),
            }
        },
        (left, right) => {
            let mismatch = match operator {
                TokenType::Plus => left.is_number() != right.is_number(),
                _ => false,
            };
            if mismatch {
                Combined::Failed(RuntimeError::StringNumberMismatch)
            } else {
                Combined::Failed(RuntimeError::OperandsMustBeNumbers(operator))
            }
        },
    }
}

impl Interpreter {
    /// An interpreter that has written nothing and knows no variable.
    pub fn new() -> (r: Self)
        ensures
            r@.output == Seq::<Glyph>::empty(),
            r@.variables == Map::<Seq<char>, LiteralView>::empty(),
    {
        Self { output: Vec::new(), environment: Environment::new() }
    }

    /// What has been written so far.
    pub fn output(&self) -> (r: &Vec<Glyph>)
        ensures
            r@ == self@.output,
    {
        &self.output
    }

    /// Hands out what has been written so far, and forgets it.
    pub fn take_output(&mut self) -> (r: Vec<Glyph>)
        ensures
            r@ == old(self)@.output,
            final(self)@.output == Seq::<Glyph>::empty(),
            final(self)@.variables == old(self)@.variables,
    {
        let mut taken: Vec<Glyph> = Vec::new();
        core::mem::swap(&mut taken, &mut self.output);
        taken
    }

    /// Evaluates `e` as far as it goes, and hands back the answer if it was
    /// not used.
    fn reduce(&mut self, e: Expr, answer: Option<Number>) -> (r: (Evaluation, Option<Number>))
        requires
            e@.well_formed(),
        ensures
            r.0@ == reduce(old(self)@.variables, e@, answer).outcome,
            r.1 == reduce(old(self)@.variables, e@, answer).answer,
            final(self)@.variables == reduce(old(self)@.variables, e@, answer).variables,
            final(self)@.output == old(self)@.output,
            r.0 matches Evaluation::Pending { residual, .. } ==> residual@.well_formed(),
        decreases e@.size(), 1nat,
    {
        let ghost before = self@.variables;
        match e {
            Expr::Literal(value) => (Evaluation::Value(value), answer),
            Expr::Variable(token) => {
                assert(e@ == ExprView::Variable(token@));
                match self.environment.get(&token) {
                    Ok(value) => (Evaluation::Value(value), answer),
                    Err(error) => (Evaluation::Failed(error), answer),
                }
            },
            Expr::Grouping { expr } => {
                assert(e@ == ExprView::Grouping { expr: Box::new(expr@) });
                let ghost inner = reduce(before, expr@, answer);
                let (evaluation, answer) = self.reduce(*expr, answer);
                match evaluation {
                    Evaluation::Pending { request, residual } => {
                        assert(inner.outcome is Pending);
                        (
                            Evaluation::Pending {
                                request,
                                residual: Expr::Grouping { expr: Box::new(residual) },
                            },
                            answer,
                        )
                    },
                    other => {
                        assert(!(inner.outcome is Pending));
                        (other, answer)
                    },
                }
            },
            Expr::Assign { name, value } => {
                assert(e@ == ExprView::Assign { name: name@, value: Box::new(value@) });
                let ghost assigned = reduce(before, value@, answer);
                let (evaluation, answer) = self.reduce(*value, answer);
                match evaluation {
                    Evaluation::Value(v) => {
                        assert(assigned.outcome == EvaluationView::Value(v@));
                        match self.environment.assign(&name, v) {
                            Ok(v) => (Evaluation::Value(v), answer),
                            Err(error) => (Evaluation::Failed(error), answer),
                        }
                    },
                    Evaluation::Failed(error) => {
                        assert(assigned.outcome == EvaluationView::Failed(error@));
                        (Evaluation::Failed(error), answer)
                    },
                    Evaluation::Pending { request, residual } => {
                        assert(assigned.outcome == EvaluationView::Pending {
                            request,
                            residual: residual@,
                        });
                        (
                            Evaluation::Pending {
                                request,
                                residual: Expr::Assign { name, value: Box::new(residual) },
                            },
                            answer,
                        )
                    },
                }
            },
            Expr::Unary { operator, operand } => {
                assert(e@ == ExprView::Unary { operator: operator@, operand: Box::new(operand@) });
                let ghost inner = reduce(before, operand@, answer);
                let (evaluation, answer) = self.reduce(*operand, answer);
                match evaluation {
                    Evaluation::Value(v) => {
                        assert(inner.outcome == EvaluationView::Value(v@));
                        match apply_unary(operator.tag, v) {
                            Ok(value) => (Evaluation::Value(value), answer),
                            Err(error) => (Evaluation::Failed(error), answer),
                        }
                    },
                    Evaluation::Failed(error) => {
                        assert(inner.outcome == EvaluationView::Failed(error@));
                        (Evaluation::Failed(error), answer)
                    },
                    Evaluation::Pending { request, residual } => {
                        assert(inner.outcome == EvaluationView::Pending {
                            request,
                            residual: residual@,
                        });
                        (
                            Evaluation::Pending {
                                request,
                                residual: Expr::Unary { operator, operand: Box::new(residual) },
                            },
                            answer,
                        )
                    },
                }
            },
            Expr::Binary { left, operator, right } => {
                assert(e@ == ExprView::Binary {
                    left: Box::new(left@),
                    operator: operator@,
                    right: Box::new(right@),
                });
                self.handle_binary_expression(*left, operator, *right, answer)
            },
            Expr::Ternary { condition, true_expr, false_expr } => {
                assert(e@ == ExprView::Ternary {
                    condition: Box::new(condition@),
                    true_expr: Box::new(true_expr@),
                    false_expr: Box::new(false_expr@),
                });
                let ghost chosen = reduce(before, condition@, answer);
                let (evaluation, answer) = self.reduce(*condition, answer);
                match evaluation {
                    Evaluation::Value(LiteralValue::True) => {
                        assert(chosen.outcome == EvaluationView::Value(LiteralView::True));
                        self.reduce(*true_expr, answer)
                    },
                    Evaluation::Value(LiteralValue::False) => {
                        assert(chosen.outcome == EvaluationView::Value(LiteralView::False));
                        self.reduce(*false_expr, answer)
                    },
                    Evaluation::Value(other) => {
                        assert(chosen.outcome == EvaluationView::Value(other@));
                        assert(!(other@ is True) && !(other@ is False));
                        (Evaluation::Failed(RuntimeError::ConditionNotBoolean), answer)
                    },
                    Evaluation::Failed(error) => {
                        assert(chosen.outcome == EvaluationView::Failed(error@));
                        (Evaluation::Failed(error), answer)
                    },
                    Evaluation::Pending { request, residual } => {
                        assert(chosen.outcome == EvaluationView::Pending {
                            request,
                            residual: residual@,
                        });
                        (
                            Evaluation::Pending {
                                request,
                                residual: Expr::Ternary {
                                    condition: Box::new(residual),
                                    true_expr,
                                    false_expr,
                                },
                            },
                            answer,
                        )
                    },
                }
            },
        }
    }

    /// Evaluates a binary operation: the left operand, then the right one,
    /// then what the operator makes of the two.
    fn handle_binary_expression(
        &mut self,
        left: Expr,
        operator: Token,
        right: Expr,
        answer: Option<Number>,
    ) -> (r: (Evaluation, Option<Number>))
        requires
            left@.well_formed(),
            right@.well_formed(),
        ensures
            r.0@ == reduce(
                old(self)@.variables,
                binary(left@, operator@, right@),
                answer,
            ).outcome,
            r.1 == reduce(
                old(self)@.variables,
                binary(left@, operator@, right@),
                answer,
            ).answer,
            final(self)@.variables == reduce(
                old(self)@.variables,
                binary(left@, operator@, right@),
                answer,
            ).variables,
            final(self)@.output == old(self)@.output,
            r.0 matches Evaluation::Pending { residual, .. } ==> residual@.well_formed(),
        decreases 1 + left@.size() + right@.size(), 0nat,
    {
        let ghost before = self@.variables;
        let ghost first = reduce(before, left@, answer);
        let (evaluation, answer) = self.reduce(left, answer);
        let l = match evaluation {
            Evaluation::Value(l) => l,
            Evaluation::Failed(error) => {
                assert(first.outcome == EvaluationView::Failed(error@));
                return (Evaluation::Failed(error), answer);
            },
            Evaluation::Pending { request, residual } => {
                assert(first.outcome == EvaluationView::Pending { request, residual: residual@ });
                return (
                    Evaluation::Pending {
                        request,
                        residual: Expr::Binary {
                            left: Box::new(residual),
                            operator,
                            right: Box::new(right),
                        },
                    },
                    answer,
                );
            },
        };
        assert(first.outcome == EvaluationView::Value(l@));
        let ghost second = reduce(first.variables, right@, first.answer);
        let (evaluation, answer) = self.reduce(right, answer);
        let r = match evaluation {
            Evaluation::Value(r) => r,
            Evaluation::Failed(error) => {
                assert(second.outcome == EvaluationView::Failed(error@));
                return (Evaluation::Failed(error), answer);
            },
            Evaluation::Pending { request, residual } => {
                assert(second.outcome == EvaluationView::Pending { request, residual: residual@ });
                assert(Expr::Literal(l)@ == literal(l@) && literal(l@).well_formed());
                return (
                    Evaluation::Pending {
                        request,
                        residual: Expr::Binary {
                            left: Box::new(Expr::Literal(l)),
                            operator,
                            right: Box::new(residual),
                        },
                    },
                    answer,
                );
            },
        };
        assert(second.outcome == EvaluationView::Value(r@));
        let ghost both = combine(operator@.tag, l@, r@);
        match combine_values(operator.tag.clone(), l.clone(), r.clone()) {
            Combined::Value(value) => {
                assert(both == CombinedView::Value(value@));
                (Evaluation::Value(value), answer)
            },
            Combined::Failed(error) => {
                assert(both == CombinedView::Failed(error@));
                (Evaluation::Failed(error), answer)
            },
            Combined::Arithmetic(request) => {
                assert(both == CombinedView::Arithmetic(request));
                assert(Expr::Literal(l)@ == literal(l@) && literal(l@).well_formed());
                assert(Expr::Literal(r)@ == literal(r@) && literal(r@).well_formed());
                match answer {
                    Some(result) => (Evaluation::Value(LiteralValue::Number(result)), None),
                    None => (
                        Evaluation::Pending {
                            request,
                            residual: Expr::Binary {
                                left: Box::new(Expr::Literal(l)),
                                operator,
                                right: Box::new(Expr::Literal(r)),
                            },
                        },
                        None,
                    ),
                }
            },
        }
    }

    /// Evaluates `e` as far as it goes. `answer` is the result of the
    /// operation that an earlier evaluation asked for, where `e` is what
    /// that evaluation left to do.
    pub fn evaluate(&mut self, e: Expr, answer: Option<Number>) -> (r: Evaluation)
        requires
            e@.well_formed(),
        ensures
            r@ == reduce(old(self)@.variables, e@, answer).outcome,
            final(self)@.variables == reduce(old(self)@.variables, e@, answer).variables,
            final(self)@.output == old(self)@.output,
            r matches Evaluation::Pending { residual, .. } ==> residual@.well_formed(),
    {
        self.reduce(e, answer).0
    }
    /// Executes `s` as far as it goes, and hands back the answer if it was
    /// not used.
    fn step(&mut self, s: Stmt, answer: Option<Number>) -> (r: (Execution, Option<Number>))
        requires
            s@.well_formed(),
        ensures
            r.0@ == step(old(self)@, s@, answer).outcome,
            r.1 == step(old(self)@, s@, answer).answer,
            final(self)@ == step(old(self)@, s@, answer).state,
            r.0 matches Execution::Pending { residual, .. } ==> residual@.well_formed(),
    {
        let ghost before = self@;
        match s {
            Stmt::Expr(e) => {
                let ghost reduced = reduce(before.variables, e@, answer);
                let (evaluation, answer) = self.reduce(e, answer);
                match evaluation {
                    Evaluation::Value(_) => {
                        assert(reduced.outcome is Value);
                        (Execution::Done, answer)
                    },
                    Evaluation::Failed(error) => {
                        assert(reduced.outcome == EvaluationView::Failed(error@));
                        (Execution::Failed(error), answer)
                    },
                    Evaluation::Pending { request, residual } => {
                        assert(reduced.outcome == EvaluationView::Pending {
                            request,
                            residual: residual@,
                        });
                        (Execution::Pending { request, residual: Stmt::Expr(residual) }, answer)
                    },
                }
            },
            Stmt::Print(e) => {
                let ghost reduced = reduce(before.variables, e@, answer);
                let (evaluation, answer) = self.reduce(e, answer);
                match evaluation {
                    Evaluation::Value(value) => {
                        assert(reduced.outcome == EvaluationView::Value(value@));
                        let line = value.text();
                        push_glyphs(&mut self.output, &line);
                        self.output.push(Glyph::Char('\n'));
                        assert(self@.output =~= before.output + printed(value@));
                        (Execution::Done, answer)
                    },
                    Evaluation::Failed(error) => {
                        assert(reduced.outcome == EvaluationView::Failed(error@));
                        (Execution::Failed(error), answer)
                    },
                    Evaluation::Pending { request, residual } => {
                        assert(reduced.outcome == EvaluationView::Pending {
                            request,
                            residual: residual@,
                        });
                        (Execution::Pending { request, residual: Stmt::Print(residual) }, answer)
                    },
                }
            },
            Stmt::VarDec { name, initializer: None } => {
                assert(s@.expression() is None);
                self.environment.define(name, None);
                (Execution::Done, answer)
            },
            Stmt::VarDec { name, initializer: Some(e) } => {
                assert(s@.expression() == Some(e@));
                let ghost reduced = reduce(before.variables, e@, answer);
                let (evaluation, answer) = self.reduce(e, answer);
                match evaluation {
                    Evaluation::Value(value) => {
                        assert(reduced.outcome == EvaluationView::Value(value@));
                        self.environment.define(name, Some(value));
                        (Execution::Done, answer)
                    },
                    Evaluation::Failed(error) => {
                        assert(reduced.outcome == EvaluationView::Failed(error@));
                        (Execution::Failed(error), answer)
                    },
                    Evaluation::Pending { request, residual } => {
                        assert(reduced.outcome == EvaluationView::Pending {
                            request,
                            residual: residual@,
                        });
                        (
                            Execution::Pending {
                                request,
                                residual: Stmt::VarDec { name, initializer: Some(residual) },
                            },
                            answer,
                        )
                    },
                }
            },
        }
    }

    /// Executes `s` as far as it goes. `answer` is the result of the
    /// operation that an earlier execution asked for, where `s` is what
    /// that execution left to do.
    pub fn execute(&mut self, s: Stmt, answer: Option<Number>) -> (r: Execution)
        requires
            s@.well_formed(),
        ensures
            r@ == step(old(self)@, s@, answer).outcome,
            final(self)@ == step(old(self)@, s@, answer).state,
            r matches Execution::Pending { residual, .. } ==> residual@.well_formed(),
    {
        self.step(s, answer).0
    }

    /// Runs `statements` in order, as far as they go. `answer` is the
    /// result of the operation that an earlier run asked for, where
    /// `statements` are what that run left to do.
    pub fn interpret(&mut self, statements: &[Stmt], answer: Option<Number>) -> (r: Interpretation)
        requires
            forall|i: int| 0 <= i < statements.len() ==> (#[trigger] statements[i])@.well_formed(),
        ensures
            r@ == run(old(self)@, stmt_views(statements@), answer).outcome,
            final(self)@ == run(old(self)@, stmt_views(statements@), answer).state,
            r matches Interpretation::Pending { residual, .. } ==> forall|i: int|
                0 <= i < residual.len() ==> (#[trigger] residual[i])@.well_formed(),
    {
        let ghost all = stmt_views(statements@);
        let ghost whole = run(self@, all, answer);
        let mut unused = answer;
        let mut i: usize = 0;
        assert(all.skip(0) =~= all);
        while i < statements.len()
            invariant
                i <= statements.len(),
                all == stmt_views(statements@),
                whole == run(old(self)@, all, answer),
                whole == run(self@, all.skip(i as int), unused),
                forall|j: int|
                    0 <= j < statements.len() ==> (#[trigger] statements[j])@.well_formed(),
            decreases statements.len() - i,
        {
            let ghost rest = all.skip(i as int);
            let ghost one = step(self@, rest[0], unused);
            assert(rest[0] == statements[i as int]@);
            assert(rest.drop_first() =~= all.skip(i + 1));
            let (execution, still_unused) = self.step(statements[i].clone(), unused);
            match execution {
                Execution::Done => {
                    assert(one.outcome is Done);
                    unused = still_unused;
                    i += 1;
                },
                Execution::Failed(error) => {
                    assert(one.outcome == ExecutionView::Failed(error@));
                    return Interpretation::Failed(error);
                },
                Execution::Pending { request, residual } => {
                    assert(one.outcome == ExecutionView::Pending { request, residual: residual@ });
                    let mut left: Vec<Stmt> = Vec::new();
                    left.push(residual);
                    let mut j: usize = i + 1;
                    while j < statements.len()
                        invariant
                            i < j <= statements.len(),
                            all == stmt_views(statements@),
                            stmt_views(left@) == seq![residual@] + all.subrange(i + 1, j as int),
                            forall|k: int|
                                0 <= k < statements.len() ==> (#[trigger] statements[k])@.well_formed(),
                            forall|k: int| 0 <= k < left.len() ==> (#[trigger] left[k])@.well_formed(),
                        decreases statements.len() - j,
                    {
                        let ghost so_far = stmt_views(left@);
                        left.push(statements[j].clone());
                        j += 1;
                        assert(stmt_views(left@) =~= so_far.push(statements[j - 1]@));
                        assert(seq![residual@] + all.subrange(i + 1, j as int) =~= (seq![
                            residual@,
                        ] + all.subrange(i + 1, j - 1)).push(statements[j - 1]@));
                    }
                    assert(all.subrange(i + 1, j as int) =~= all.skip(i + 1));
                    return Interpretation::Pending { request, residual: left };
                },
            }
        }
        assert(all.skip(i as int).len() == 0);
        Interpretation::Finished
    }
}

impl Default for Interpreter {
    fn default() -> (r: Self)
        ensures
            r@.output == Seq::<Glyph>::empty(),
            r@.variables == Map::<Seq<char>, LiteralView>::empty(),
    {
        Self::new()
    }
}

} // verus!
