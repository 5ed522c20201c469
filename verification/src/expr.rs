//! Values and expression trees.

use crate::number::Number;
use crate::text::{chars, push_glyphs, push_text, Glyph};
use crate::token::{number_glyph, Token, TokenView};
use vstd::prelude::*;

verus! {

/// A value of the language.
#[derive(Debug, PartialEq)]
pub enum LiteralValue {
    True,
    False,
    Nil,
    STRING(String),
    Number(Number),
}

/// The mathematical content of a [`LiteralValue`].
pub enum LiteralView {
    True,
    False,
    Nil,
    STRING(Seq<char>),
    Number(Number),
}

/// An expression: a tree that owns its parts.
#[derive(Debug, PartialEq)]
pub enum Expr {
    Assign { name: Token, value: Box<Expr> },
    Binary { left: Box<Expr>, operator: Token, right: Box<Expr> },
    Grouping { expr: Box<Expr> },
    Literal(LiteralValue),
    Unary { operator: Token, operand: Box<Expr> },
    Ternary { condition: Box<Expr>, true_expr: Box<Expr>, false_expr: Box<Expr> },
    Variable(Token),
}

/// The mathematical content of an [`Expr`].
pub enum ExprView {
    Assign { name: TokenView, value: Box<ExprView> },
    Binary { left: Box<ExprView>, operator: TokenView, right: Box<ExprView> },
    Grouping { expr: Box<ExprView> },
    Literal(LiteralView),
    Unary { operator: TokenView, operand: Box<ExprView> },
    Ternary { condition: Box<ExprView>, true_expr: Box<ExprView>, false_expr: Box<ExprView> },
    Variable(TokenView),
}

impl View for LiteralValue {
    type V = LiteralView;

    open spec fn view(&self) -> LiteralView {
        match self {
            LiteralValue::True => LiteralView::True,
            LiteralValue::False => LiteralView::False,
            LiteralValue::Nil => LiteralView::Nil,
            LiteralValue::STRING(s) => LiteralView::STRING(s@),
            LiteralValue::Number(n) => LiteralView::Number(*n),
        }
    }
}

impl Expr {
    /// The mathematical content of the tree.
    pub open spec fn content(&self) -> ExprView
        decreases self,
    {
        match self {
            Expr::Assign { name, value } => ExprView::Assign {
                name: name@,
                value: Box::new(value.content()),
            },
            Expr::Binary { left, operator, right } => ExprView::Binary {
                left: Box::new(left.content()),
                operator: operator@,
                right: Box::new(right.content()),
            },
            Expr::Grouping { expr } => ExprView::Grouping { expr: Box::new(expr.content()) },
            Expr::Literal(value) => ExprView::Literal(value@),
            Expr::Unary { operator, operand } => ExprView::Unary {
                operator: operator@,
                operand: Box::new(operand.content()),
            },
            Expr::Ternary { condition, true_expr, false_expr } => ExprView::Ternary {
                condition: Box::new(condition.content()),
                true_expr: Box::new(true_expr.content()),
                false_expr: Box::new(false_expr.content()),
            },
            Expr::Variable(name) => ExprView::Variable(name@),
        }
    }
}

impl View for Expr {
    type V = ExprView;

    open spec fn view(&self) -> ExprView {
        self.content()
    }
}

/// The value that stands for a truth value.
pub open spec fn truth(b: bool) -> LiteralView {
    if b {
        LiteralView::True
    } else {
        LiteralView::False
    }
}

impl LiteralView {
    /// Everything counts as true but `false` and `nil`.
    pub open spec fn is_truthy(self) -> bool {
        !(self is False || self is Nil)
    }

    pub open spec fn is_number(self) -> bool {
        self is Number
    }

    /// Equality of values: of the same kind and with equal content, where
    /// numbers are equal as binary32 has it.
    pub open spec fn same_as(self, other: LiteralView) -> bool {
        match (self, other) {
            (LiteralView::True, LiteralView::True) => true,
            (LiteralView::False, LiteralView::False) => true,
            (LiteralView::Nil, LiteralView::Nil) => true,
            (LiteralView::STRING(a), LiteralView::STRING(b)) => a == b,
            (LiteralView::Number(a), LiteralView::Number(b)) => a.equal_to(b),
            _ => false,
        }
    }

    /// How a value is written.
    pub open spec fn text(self) -> Seq<Glyph> {
        match self {
            LiteralView::True => chars("true"@),
            LiteralView::False => chars("false"@),
            LiteralView::Nil => chars("nil"@),
            LiteralView::STRING(s) => chars(s),
            LiteralView::Number(n) => seq![number_glyph(n)],
        }
    }
}

impl ExprView {
    /// A tree that can be evaluated: what is read or assigned is named by an
    /// identifier.
    pub open spec fn well_formed(self) -> bool
        decreases self,
    {
        match self {
            ExprView::Assign { name, value } => name.tag is Identifer && value.well_formed(),
            ExprView::Binary { left, operator, right } => left.well_formed()
                && right.well_formed(),
            ExprView::Grouping { expr } => expr.well_formed(),
            ExprView::Literal(_) => true,
            ExprView::Unary { operator, operand } => operand.well_formed(),
            ExprView::Ternary { condition, true_expr, false_expr } => condition.well_formed()
                && true_expr.well_formed() && false_expr.well_formed(),
            ExprView::Variable(name) => name.tag is Identifer,
        }
    }

    /// The tree written out with each operator before its operands, every
    /// node but a leaf in parentheses.
    pub open spec fn prefix_form(self) -> Seq<Glyph>
        decreases self,
    {
        match self {
            ExprView::Assign { name, value } => chars("(= "@) + name.tag.text() + chars(" "@)
                + value.prefix_form() + chars(")"@),
            ExprView::Binary { left, operator, right } => chars("("@) + operator.tag.text()
                + chars(" "@) + left.prefix_form() + chars(" "@) + right.prefix_form() + chars(
                ")"@,
            ),
            ExprView::Grouping { expr } => chars("(grouping "@) + expr.prefix_form() + chars(
                ")"@,
            ),
            ExprView::Literal(value) => value.text(),
            ExprView::Unary { operator, operand } => chars("("@) + operator.tag.text() + chars(
                " "@,
            ) + operand.prefix_form() + chars(")"@),
            ExprView::Ternary { condition, true_expr, false_expr } => chars("(? "@)
                + condition.prefix_form() + chars(" "@) + true_expr.prefix_form() + chars(" "@)
                + false_expr.prefix_form() + chars(")"@),
            ExprView::Variable(name) => name.tag.text(),
        }
    }
}

impl Clone for LiteralValue {
    fn clone(&self) -> (r: Self)
        ensures
            r == *self,
    {
        match self {
            LiteralValue::True => LiteralValue::True,
            LiteralValue::False => LiteralValue::False,
            LiteralValue::Nil => LiteralValue::Nil,
            LiteralValue::STRING(s) => LiteralValue::STRING(s.clone()),
            LiteralValue::Number(n) => LiteralValue::Number(*n),
        }
    }
}

impl Clone for Expr {
    fn clone(&self) -> (r: Self)
        ensures
            r == *self,
        decreases self,
    {
        match self {
            Expr::Assign { name, value } => Expr::Assign {
                name: name.clone(),
                value: Box::new((&**value).clone()),
            },
            Expr::Binary { left, operator, right } => Expr::Binary {
                left: Box::new((&**left).clone()),
                operator: operator.clone(),
                right: Box::new((&**right).clone()),
            },
            Expr::Grouping { expr } => Expr::Grouping { expr: Box::new((&**expr).clone()) },
            Expr::Literal(value) => Expr::Literal(value.clone()),
            Expr::Unary { operator, operand } => Expr::Unary {
                operator: operator.clone(),
                operand: Box::new((&**operand).clone()),
            },
            Expr::Ternary { condition, true_expr, false_expr } => Expr::Ternary {
                condition: Box::new((&**condition).clone()),
                true_expr: Box::new((&**true_expr).clone()),
                false_expr: Box::new((&**false_expr).clone()),
            },
            Expr::Variable(name) => Expr::Variable(name.clone()),
        }
    }
}

impl From<bool> for LiteralValue {
    fn from(b: bool) -> (r: Self) {
        if b {
            LiteralValue::True
        } else {
            LiteralValue::False
        }
    }
}

impl vstd::std_specs::convert::FromSpecImpl<bool> for LiteralValue {
    open spec fn obeys_from_spec() -> bool {
        true
    }

    open spec fn from_spec(b: bool) -> Self {
        if b {
            LiteralValue::True
        } else {
            LiteralValue::False
        }
    }
}

impl LiteralValue {
    pub fn is_truthy(&self) -> (r: bool)
        ensures
            r == self@.is_truthy(),
    {
        match self {
            LiteralValue::False | LiteralValue::Nil => false,
            _ => true,
        }
    }

    pub fn is_number(&self) -> (r: bool)
        ensures
            r == self@.is_number(),
    {
        match self {
            LiteralValue::Number(_) => true,
            _ => false,
        }
    }

    /// Equality of values, as `==` of the language has it.
    pub fn equals(&self, other: &LiteralValue) -> (r: bool)
        ensures
            r == self@.same_as(other@),
    {
        match (self, other) {
            (LiteralValue::True, LiteralValue::True) => true,
            (LiteralValue::False, LiteralValue::False) => true,
            (LiteralValue::Nil, LiteralValue::Nil) => true,
            (LiteralValue::STRING(a), LiteralValue::STRING(b)) => *a == *b,
            (LiteralValue::Number(a), LiteralValue::Number(b)) => a.equals(*b),
            _ => false,
        }
    }

    /// How the value is written.
    pub fn text(&self) -> (r: Vec<Glyph>)
        ensures
            r@ == self@.text(),
    {
        let mut out: Vec<Glyph> = Vec::new();
        match self {
            LiteralValue::True => push_text(&mut out, "true"),
            LiteralValue::False => push_text(&mut out, "false"),
            LiteralValue::Nil => push_text(&mut out, "nil"),
            LiteralValue::STRING(s) => push_text(&mut out, s.as_str()),
            LiteralValue::Number(n) => out.push(Glyph::Number(*n)),
        }
        out
    }
}

impl Expr {
    /// Whether the tree can be evaluated.
    pub fn is_well_formed(&self) -> (r: bool)
        ensures
            r == self@.well_formed(),
        decreases self,
    {
        match self {
            Expr::Assign { name, value } => name.tag.get_identifier_value().is_some()
                && value.is_well_formed(),
            Expr::Binary { left, operator, right } => left.is_well_formed()
                && right.is_well_formed(),
            Expr::Grouping { expr } => expr.is_well_formed(),
            Expr::Literal(_) => true,
            Expr::Unary { operator, operand } => operand.is_well_formed(),
            Expr::Ternary { condition, true_expr, false_expr } => condition.is_well_formed()
                && true_expr.is_well_formed() && false_expr.is_well_formed(),
            Expr::Variable(name) => name.tag.get_identifier_value().is_some(),
        }
    }
}

/// Writes `e` into `out` in prefix form.
fn write_prefix_form(e: &Expr, out: &mut Vec<Glyph>)
    ensures
        final(out)@ == old(out)@ + e@.prefix_form(),
    decreases e,
{
    match e {
        Expr::Assign { name, value } => {
            push_text(out, "(= ");
            let spelled = name.tag.text();
            push_glyphs(out, &spelled);
            push_text(out, " ");
            write_prefix_form(value, out);
            push_text(out, ")");
        },
        Expr::Binary { left, operator, right } => {
            push_text(out, "(");
            let spelled = operator.tag.text();
            push_glyphs(out, &spelled);
            push_text(out, " ");
            write_prefix_form(left, out);
            push_text(out, " ");
            write_prefix_form(right, out);
            push_text(out, ")");
        },
        Expr::Grouping { expr } => {
            push_text(out, "(grouping ");
            write_prefix_form(expr, out);
            push_text(out, ")");
        },
        Expr::Literal(value) => {
            let spelled = value.text();
            push_glyphs(out, &spelled);
        },
        Expr::Unary { operator, operand } => {
            push_text(out, "(");
            let spelled = operator.tag.text();
            push_glyphs(out, &spelled);
            push_text(out, " ");
            write_prefix_form(operand, out);
            push_text(out, ")");
        },
        Expr::Ternary { condition, true_expr, false_expr } => {
            push_text(out, "(? ");
            write_prefix_form(condition, out);
            push_text(out, " ");
            write_prefix_form(true_expr, out);
            push_text(out, " ");
            write_prefix_form(false_expr, out);
            push_text(out, ")");
        },
        Expr::Variable(name) => {
            let spelled = name.tag.text();
            push_glyphs(out, &spelled);
        },
    }
}

/// The tree written out in prefix form.
pub fn print_ast(e: &Expr) -> (r: Vec<Glyph>)
    ensures
        r@ == e@.prefix_form(),
{
    let mut out: Vec<Glyph> = Vec::new();
    write_prefix_form(e, &mut out);
    out
}

} // verus!
