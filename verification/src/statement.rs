//! Statements.

use crate::expr::{Expr, ExprView};
use vstd::prelude::*;

verus! {

/// A statement of a program.
#[derive(Debug, PartialEq)]
pub enum Stmt {
    /// An expression whose value is dropped.
    Expr(Expr),
    /// An expression whose value is written out.
    Print(Expr),
    /// The declaration of a variable, with or without a first value.
    VarDec { name: String, initializer: Option<Expr> },
}

/// The mathematical content of a [`Stmt`].
pub enum StmtView {
    Expr(ExprView),
    Print(ExprView),
    VarDec { name: Seq<char>, initializer: Option<ExprView> },
}

impl View for Stmt {
    type V = StmtView;

    open spec fn view(&self) -> StmtView {
        match self {
            Stmt::Expr(e) => StmtView::Expr(e@),
            Stmt::Print(e) => StmtView::Print(e@),
            Stmt::VarDec { name, initializer } => StmtView::VarDec {
                name: name@,
                initializer: match initializer {
                    Some(e) => Some(e@),
                    None => None,
                },
            },
        }
    }
}

/// The mathematical content of each statement of a sequence.
pub open spec fn stmt_views(statements: Seq<Stmt>) -> Seq<StmtView> {
    statements.map_values(|s: Stmt| s@)
}

impl StmtView {
    /// The expression of the statement, where it has one.
    pub open spec fn expression(self) -> Option<ExprView> {
        match self {
            StmtView::Expr(e) => Some(e),
            StmtView::Print(e) => Some(e),
            StmtView::VarDec { initializer, .. } => initializer,
        }
    }

    /// A statement that can be run: its expression can be evaluated.
    pub open spec fn well_formed(self) -> bool {
        match self.expression() {
            Some(e) => e.well_formed(),
            None => true,
        }
    }
}

impl Clone for Stmt {
    fn clone(&self) -> (r: Self)
        ensures
            r == *self,
    {
        match self {
            Stmt::Expr(e) => Stmt::Expr(e.clone()),
            Stmt::Print(e) => Stmt::Print(e.clone()),
            Stmt::VarDec { name, initializer } => Stmt::VarDec {
                name: name.clone(),
                initializer: match initializer {
                    Some(e) => Some(e.clone()),
                    None => None,
                },
            },
        }
    }
}

impl Stmt {
    /// Whether the statement can be run.
    pub fn is_well_formed(&self) -> (r: bool)
        ensures
            r == self@.well_formed(),
    {
        match self {
            Stmt::Expr(e) => e.is_well_formed(),
            Stmt::Print(e) => e.is_well_formed(),
            Stmt::VarDec { initializer: Some(e), .. } => e.is_well_formed(),
            Stmt::VarDec { initializer: None, .. } => true,
        }
    }
}

} // verus!
