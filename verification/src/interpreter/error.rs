//! What can go wrong while a program runs.

use crate::text::{chars, decimal, push_decimal, push_glyphs, push_text, Glyph};
use crate::token::{TokenType, TokenTypeView};
use vstd::prelude::*;

verus! {

/// A reason for which a running program stops.
#[derive(Debug, PartialEq)]
pub enum RuntimeError {
    /// A variable was read or assigned that has not been declared.
    UndefinedVariable { name: String, line: usize },
    /// `-` before something that is not a number.
    NegationOfNonNumber,
    /// An operator before one operand that is neither `-` nor `!`.
    UnexpectedUnaryOperator(TokenType),
    /// A division by zero.
    DivideByZero,
    /// `+` between a number and something that is not one.
    StringNumberMismatch,
    /// An operator for numbers with an operand that is not one.
    OperandsMustBeNumbers(TokenType),
    /// A ternary whose condition is neither `true` nor `false`.
    ConditionNotBoolean,
}

/// The mathematical content of a [`RuntimeError`].
pub enum RuntimeErrorView {
    UndefinedVariable { name: Seq<char>, line: nat },
    NegationOfNonNumber,
    UnexpectedUnaryOperator(TokenTypeView),
    DivideByZero,
    StringNumberMismatch,
    OperandsMustBeNumbers(TokenTypeView),
    ConditionNotBoolean,
}

impl View for RuntimeError {
    type V = RuntimeErrorView;

    open spec fn view(&self) -> RuntimeErrorView {
        match self {
            RuntimeError::UndefinedVariable { name, line } => RuntimeErrorView::UndefinedVariable {
                name: name@,
                line: *line as nat,
            },
            RuntimeError::NegationOfNonNumber => RuntimeErrorView::NegationOfNonNumber,
            RuntimeError::UnexpectedUnaryOperator(tag) => RuntimeErrorView::UnexpectedUnaryOperator(
                tag@,
            ),
            RuntimeError::DivideByZero => RuntimeErrorView::DivideByZero,
            RuntimeError::StringNumberMismatch => RuntimeErrorView::StringNumberMismatch,
            RuntimeError::OperandsMustBeNumbers(tag) => RuntimeErrorView::OperandsMustBeNumbers(
                tag@,
            ),
            RuntimeError::ConditionNotBoolean => RuntimeErrorView::ConditionNotBoolean,
        }
    }
}

impl RuntimeErrorView {
    /// The message that states the reason.
    pub open spec fn message(self) -> Seq<Glyph> {
        match self {
            RuntimeErrorView::UndefinedVariable { name, line } => chars("[line "@) + chars(
                decimal(line),
            ) + chars("] Error: variable '"@) + chars(name) + chars("' is not defined"@),
            RuntimeErrorView::NegationOfNonNumber => chars(
                "expected a number in negation expression"@,
            ),
            RuntimeErrorView::UnexpectedUnaryOperator(tag) => chars("Did not expected "@)
                + tag.text() + chars(" in unary expression"@),
            RuntimeErrorView::DivideByZero => chars("Divide by zero error"@),
            RuntimeErrorView::StringNumberMismatch => chars(
                "Can not add a 'String' and a 'Number' in addition operation"@,
            ),
            RuntimeErrorView::OperandsMustBeNumbers(tag) => chars(
                "Expected operands to be numbers in "@,
            ) + tag.text() + chars(" expression"@),
            RuntimeErrorView::ConditionNotBoolean => chars(
                "expected a boolean expression as condition in ternary statement"@,
            ),
        }
    }
}

impl Clone for RuntimeError {
    fn clone(&self) -> (r: Self)
        ensures
            r == *self,
    {
        match self {
            RuntimeError::UndefinedVariable { name, line } => RuntimeError::UndefinedVariable {
                name: name.clone(),
                line: *line,
            },
            RuntimeError::NegationOfNonNumber => RuntimeError::NegationOfNonNumber,
            RuntimeError::UnexpectedUnaryOperator(tag) => RuntimeError::UnexpectedUnaryOperator(
                tag.clone(),
            ),
            RuntimeError::DivideByZero => RuntimeError::DivideByZero,
            RuntimeError::StringNumberMismatch => RuntimeError::StringNumberMismatch,
            RuntimeError::OperandsMustBeNumbers(tag) => RuntimeError::OperandsMustBeNumbers(
                tag.clone(),
            ),
            RuntimeError::ConditionNotBoolean => RuntimeError::ConditionNotBoolean,
        }
    }
}

impl RuntimeError {
    /// The message that states the reason.
    pub fn message(&self) -> (r: Vec<Glyph>)
        ensures
            r@ == self@.message(),
    {
        let mut out: Vec<Glyph> = Vec::new();
        match self {
            RuntimeError::UndefinedVariable { name, line } => {
                push_text(&mut out, "[line ");
                push_decimal(&mut out, *line);
                push_text(&mut out, "] Error: variable '");
                push_text(&mut out, name.as_str());
                push_text(&mut out, "' is not defined");
            },
            RuntimeError::NegationOfNonNumber => push_text(
                &mut out,
                "expected a number in negation expression",
            ),
            RuntimeError::UnexpectedUnaryOperator(tag) => {
                push_text(&mut out, "Did not expected ");
                let spelled = tag.text();
                push_glyphs(&mut out, &spelled);
                push_text(&mut out, " in unary expression");
            },
            RuntimeError::DivideByZero => push_text(&mut out, "Divide by zero error"),
            RuntimeError::StringNumberMismatch => push_text(
                &mut out,
                "Can not add a 'String' and a 'Number' in addition operation",
            ),
            RuntimeError::OperandsMustBeNumbers(tag) => {
                push_text(&mut out, "Expected operands to be numbers in ");
                let spelled = tag.text();
                push_glyphs(&mut out, &spelled);
                push_text(&mut out, " expression");
            },
            RuntimeError::ConditionNotBoolean => push_text(
                &mut out,
                "expected a boolean expression as condition in ternary statement",
            ),
        }
        out
    }
}

} // verus!
