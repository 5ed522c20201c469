//! What the scanner and the parser report about source text they reject.

use crate::text::{chars, decimal, glyph, push_decimal, push_glyphs, push_text, Glyph};
use crate::token::{TokenType, TokenTypeView};
use vstd::prelude::*;

verus! {

/// A level of the grammar's binary operators.
#[derive(Clone, Copy, Debug, PartialEq, Eq)]
pub enum Tier {
    Equality,
    Comparison,
    Addition,
    Multiplication,
}

/// A reason for which source text is rejected.
#[derive(Debug, PartialEq)]
pub enum SyntaxError {
    UnexpectedCharacter(char),
    UnterminatedString,
    ExpectedIdentifier,
    ExpectedSemicolon,
    InvalidAssignmentTarget,
    MissingLeftOperand(Tier),
    ExpectedRightParen,
    Unexpected(TokenType),
    UnexpectedEndOfInput,
    /// No `:` after the first branch of a ternary whose `?` is on `line`.
    ExpectedColon { line: usize },
    /// At least one statement of the program was rejected.
    ParsingErrors,
}

/// The mathematical content of a [`SyntaxError`].
pub enum SyntaxErrorView {
    UnexpectedCharacter(char),
    UnterminatedString,
    ExpectedIdentifier,
    ExpectedSemicolon,
    InvalidAssignmentTarget,
    MissingLeftOperand(Tier),
    ExpectedRightParen,
    Unexpected(TokenTypeView),
    UnexpectedEndOfInput,
    ExpectedColon { line: nat },
    ParsingErrors,
}

/// A report: a reason and, where one is known, the line it is about.
#[derive(Debug, PartialEq)]
pub struct Diagnostic {
    pub line: Option<usize>,
    pub error: SyntaxError,
}

/// The mathematical content of each report of a sequence.
pub open spec fn diagnostic_views(reports: Seq<Diagnostic>) -> Seq<DiagnosticView> {
    reports.map_values(|d: Diagnostic| d@)
}

/// The mathematical content of a [`Diagnostic`].
pub struct DiagnosticView {
    pub line: Option<nat>,
    pub error: SyntaxErrorView,
}

impl View for SyntaxError {
    type V = SyntaxErrorView;

    open spec fn view(&self) -> SyntaxErrorView {
        match self {
            SyntaxError::UnexpectedCharacter(c) => SyntaxErrorView::UnexpectedCharacter(*c),
            SyntaxError::UnterminatedString => SyntaxErrorView::UnterminatedString,
            SyntaxError::ExpectedIdentifier => SyntaxErrorView::ExpectedIdentifier,
            SyntaxError::ExpectedSemicolon => SyntaxErrorView::ExpectedSemicolon,
            SyntaxError::InvalidAssignmentTarget => SyntaxErrorView::InvalidAssignmentTarget,
            SyntaxError::MissingLeftOperand(tier) => SyntaxErrorView::MissingLeftOperand(*tier),
            SyntaxError::ExpectedRightParen => SyntaxErrorView::ExpectedRightParen,
            SyntaxError::Unexpected(tag) => SyntaxErrorView::Unexpected(tag@),
            SyntaxError::UnexpectedEndOfInput => SyntaxErrorView::UnexpectedEndOfInput,
            SyntaxError::ExpectedColon { line } => SyntaxErrorView::ExpectedColon { line: *line as nat },
            SyntaxError::ParsingErrors => SyntaxErrorView::ParsingErrors,
        }
    }
}

impl View for Diagnostic {
    type V = DiagnosticView;

    open spec fn view(&self) -> DiagnosticView {
        DiagnosticView {
            line: match self.line {
                Some(line) => Some(line as nat),
                None => None,
            },
            error: self.error@,
        }
    }
}

impl Tier {
    /// The tier's name as it appears in a message.
    pub open spec fn name(self) -> Seq<char> {
        match self {
            Tier::Equality => "equality"@,
            Tier::Comparison => "comparison"@,
            Tier::Addition => "addition"@,
            Tier::Multiplication => "multiplication"@,
        }
    }

    fn word(self) -> (r: &'static str)
        ensures
            r@ == self.name(),
    {
        match self {
            Tier::Equality => "equality",
            Tier::Comparison => "comparison",
            Tier::Addition => "addition",
            Tier::Multiplication => "multiplication",
        }
    }
}

impl SyntaxErrorView {
    /// The message that states the reason.
    pub open spec fn message(self) -> Seq<Glyph> {
        match self {
            SyntaxErrorView::UnexpectedCharacter(c) => chars("Unexpected character: "@).push(
                glyph(c),
            ),
            SyntaxErrorView::UnterminatedString => chars("Unterminated string"@),
            SyntaxErrorView::ExpectedIdentifier => chars(
                "expected an identifer after 'var' keyword"@,
            ),
            SyntaxErrorView::ExpectedSemicolon => chars(
                "expected a semicolon following statement"@,
            ),
            SyntaxErrorView::InvalidAssignmentTarget => chars("invalid assignment target"@),
            SyntaxErrorView::MissingLeftOperand(tier) => chars(
                "missing left-hand-side operand for "@,
            ) + chars(tier.name()) + chars(" expression"@),
            SyntaxErrorView::ExpectedRightParen => chars("expected ')' after expression"@),
            SyntaxErrorView::Unexpected(tag) => chars("unexpected '"@) + tag.text() + chars("'"@),
            SyntaxErrorView::UnexpectedEndOfInput => chars("unexpected end of input"@),
            SyntaxErrorView::ExpectedColon { line } => chars(
                "uh oh expected ':' in ternary expression, line: "@,
            ) + chars(decimal(line)),
            SyntaxErrorView::ParsingErrors => chars("Parsing error(s) found"@),
        }
    }
}

impl DiagnosticView {
    /// The report as one line of text: the line number and a colon before
    /// the message where the line is known, the bare message where not.
    pub open spec fn text(self) -> Seq<Glyph> {
        match self.line {
            Some(line) => chars(decimal(line)) + chars(": "@) + self.error.message(),
            None => self.error.message(),
        }
    }
}

impl SyntaxError {
    /// The message that states the reason.
    pub fn message(&self) -> (r: Vec<Glyph>)
        ensures
            r@ == self@.message(),
    {
        let mut out: Vec<Glyph> = Vec::new();
        match self {
            SyntaxError::UnexpectedCharacter(c) => {
                push_text(&mut out, "Unexpected character: ");
                out.push(Glyph::Char(*c));
            },
            SyntaxError::UnterminatedString => push_text(&mut out, "Unterminated string"),
            SyntaxError::ExpectedIdentifier => push_text(
                &mut out,
                "expected an identifer after 'var' keyword",
            ),
            SyntaxError::ExpectedSemicolon => push_text(
                &mut out,
                "expected a semicolon following statement",
            ),
            SyntaxError::InvalidAssignmentTarget => push_text(
                &mut out,
                "invalid assignment target",
            ),
            SyntaxError::MissingLeftOperand(tier) => {
                push_text(&mut out, "missing left-hand-side operand for ");
                push_text(&mut out, tier.word());
                push_text(&mut out, " expression");
            },
            SyntaxError::ExpectedRightParen => push_text(
                &mut out,
                "expected ')' after expression",
            ),
            SyntaxError::Unexpected(tag) => {
                push_text(&mut out, "unexpected '");
                let spelled = tag.text();
                push_glyphs(&mut out, &spelled);
                push_text(&mut out, "'");
            },
            SyntaxError::UnexpectedEndOfInput => push_text(&mut out, "unexpected end of input"),
            SyntaxError::ExpectedColon { line } => {
                push_text(&mut out, "uh oh expected ':' in ternary expression, line: ");
                push_decimal(&mut out, *line);
            },
            SyntaxError::ParsingErrors => push_text(&mut out, "Parsing error(s) found"),
        }
        out
    }
}

impl Diagnostic {
    pub fn new(line: Option<usize>, error: SyntaxError) -> (r: Self)
        ensures
            r.line == line,
            r.error == error,
    {
        Diagnostic { line, error }
    }

    /// The report as one line of text.
    pub fn text(&self) -> (r: Vec<Glyph>)
        ensures
            r@ == self@.text(),
    {
        let mut out: Vec<Glyph> = Vec::new();
        match self.line {
            Some(line) => {
                push_decimal(&mut out, line);
                push_text(&mut out, ": ");
            },
            None => {},
        }
        let message = self.error.message();
        push_glyphs(&mut out, &message);
        out
    }
}

} // verus!
