//! The parser: tokens to statements, by recursive descent.
//!
//! ```text
//! program        := declaration* EOF
//! declaration    := "var" IDENTIFIER ("=" expression)? ";"
//!                 | "print" expression ";"
//!                 | expression ";"
//! expression     := assignment
//! assignment     := ternary ( "=" assignment )?
//! ternary        := equality ( "?" equality ":" equality )?
//! equality       := comparison ( ("!=" | "==") comparison )*
//! comparison     := addition ( (">" | ">=" | "<" | "<=") addition )*
//! addition       := multiplication ( ("+" | "-") multiplication )*
//! multiplication := unary ( ("/" | "*") unary )*
//! unary          := ("!" | "-") unary | primary
//! primary        := "true" | "false" | "nil" | NUMBER | STRING | IDENTIFIER
//!                 | "(" expression ")"
//! ```
//!
//! What each rule yields is stated as a function of the tokens and the place
//! where the rule begins: how many tokens it uses, what it reports, and the
//! tree it builds or the error it fails with.

use crate::diagnostic::{diagnostic_views, Diagnostic, DiagnosticView, SyntaxError, SyntaxErrorView, Tier};
use crate::expr::{Expr, ExprView, LiteralValue, LiteralView};
use crate::statement::{stmt_views, Stmt, StmtView};
use crate::token::{token_views, Token, TokenType, TokenTypeView, TokenView};
use vstd::prelude::*;

verus! {

/// What a rule of the grammar yields.
pub struct Parsed<T> {
    /// How many tokens the rule used.
    pub used: nat,
    /// What it reported, oldest first.
    pub reports: Seq<DiagnosticView>,
    /// What it built, or why it failed.
    pub result: Result<T, SyntaxErrorView>,
}

/// What a whole program yields.
pub struct Program {
    /// How many tokens were used.
    pub used: nat,
    /// What was reported, oldest first.
    pub reports: Seq<DiagnosticView>,
    /// The statements that were accepted, in order.
    pub statements: Seq<StmtView>,
    /// Whether a statement was rejected.
    pub failed: bool,
}

/// The token at `pos`, if there is one.
pub open spec fn token_at(tokens: Seq<TokenView>, pos: int) -> Option<TokenView> {
    if 0 <= pos < tokens.len() {
        Some(tokens[pos])
    } else {
        None
    }
}

/// Whether the token at `pos` is of kind `tag`.
pub open spec fn tag_at(tokens: Seq<TokenView>, pos: int, tag: TokenTypeView) -> bool {
    0 <= pos < tokens.len() && tokens[pos].tag == tag
}

/// How many tokens stand at `pos` and behind it.
pub open spec fn left(tokens: Seq<TokenView>, pos: int) -> nat {
    if pos < tokens.len() {
        (tokens.len() - pos) as nat
    } else {
        0
    }
}

/// Whether the program ends at `pos`: with the end-of-input token, or with
/// the tokens themselves.
pub open spec fn at_end(tokens: Seq<TokenView>, pos: int) -> bool {
    match token_at(tokens, pos) {
        Some(token) => token.tag is EOF,
        None => true,
    }
}

/// A report about `line`.
pub open spec fn report(line: nat, error: SyntaxErrorView) -> DiagnosticView {
    DiagnosticView { line: Some(line), error }
}

/// A report about no line in particular.
pub open spec fn remark(error: SyntaxErrorView) -> DiagnosticView {
    DiagnosticView { line: None, error }
}

impl<T> Parsed<T> {
    /// A rule that built `value` from `used` tokens and reported nothing.
    pub open spec fn built(used: nat, value: T) -> Parsed<T> {
        Parsed { used, reports: Seq::empty(), result: Ok(value) }
    }

    /// A rule that failed with `error` after `used` tokens, having reported
    /// nothing.
    pub open spec fn failed(used: nat, error: SyntaxErrorView) -> Parsed<T> {
        Parsed { used, reports: Seq::empty(), result: Err(error) }
    }

    /// This rule, behind `used` tokens and `reports` of an earlier part.
    pub open spec fn behind(self, used: nat, reports: Seq<DiagnosticView>) -> Parsed<T> {
        Parsed { used: used + self.used, reports: reports + self.reports, result: self.result }
    }

    /// This rule, with one more report at its end.
    pub open spec fn reporting(self, report: DiagnosticView) -> Parsed<T> {
        Parsed { reports: self.reports.push(report), ..self }
    }
}

impl Tier {
    /// The operators of the tier.
    pub open spec fn has(self, tag: TokenTypeView) -> bool {
        match self {
            Tier::Equality => tag is BangEqual || tag is EqualEqual,
            Tier::Comparison => tag is Greater || tag is GreaterEqual || tag is Less
                || tag is LessEqual,
            Tier::Addition => tag is Plus || tag is Minus,
            Tier::Multiplication => tag is Slash || tag is Star,
        }
    }

    /// The operators of the tier that cannot begin an expression: all of
    /// them, but for `-`, which begins a negation.
    pub open spec fn cannot_begin(self, tag: TokenTypeView) -> bool {
        self.has(tag) && !(tag is Minus)
    }

    /// The tiers from the tightest binding upwards.
    pub open spec fn height(self) -> nat {
        match self {
            Tier::Multiplication => 2,
            Tier::Addition => 3,
            Tier::Comparison => 4,
            Tier::Equality => 5,
        }
    }
}

impl TokenTypeView {
    /// One of the ten operators that stand between two operands.
    pub open spec fn is_binary_operator(self) -> bool {
        Tier::Equality.has(self) || Tier::Comparison.has(self) || Tier::Addition.has(self)
            || Tier::Multiplication.has(self)
    }
}

/// The tree of a binary operation.
pub open spec fn binary(left: ExprView, operator: TokenView, right: ExprView) -> ExprView {
    ExprView::Binary { left: Box::new(left), operator, right: Box::new(right) }
}

/// What follows a `(` on `line`: an expression and `)`. A missing `)` is
/// reported on the line of the `(`.
#[verifier::opaque]
pub open spec fn grouping(tokens: Seq<TokenView>, pos: int, line: nat) -> Parsed<ExprView>
    decreases left(tokens, pos), 21nat,
{
    let inner = expression(tokens, pos);
    match inner.result {
        Err(error) => inner,
        Ok(e) => if tag_at(tokens, pos + inner.used, TokenTypeView::RightParen) {
            Parsed {
                used: inner.used + 1,
                reports: inner.reports,
                result: Ok(ExprView::Grouping { expr: Box::new(e) }),
            }
        } else {
            Parsed {
                used: inner.used,
                reports: inner.reports.push(report(line, SyntaxErrorView::ExpectedRightParen)),
                result: Err(SyntaxErrorView::ExpectedRightParen),
            }
        },
    }
}

/// `primary`: a literal, a variable, or an expression in parentheses. Any
/// other token is reported on its line as unexpected, and the end of the
/// tokens on line 0; neither is used up.
#[verifier::opaque]
pub open spec fn primary(tokens: Seq<TokenView>, pos: int) -> Parsed<ExprView>
    decreases left(tokens, pos), 4nat,
{
    match token_at(tokens, pos) {
        None => Parsed::failed(0, SyntaxErrorView::UnexpectedEndOfInput).reporting(
            report(0, SyntaxErrorView::UnexpectedEndOfInput),
        ),
        Some(token) => match token.tag {
            TokenTypeView::True => Parsed::built(1, ExprView::Literal(LiteralView::True)),
            TokenTypeView::False => Parsed::built(1, ExprView::Literal(LiteralView::False)),
            TokenTypeView::Nil => Parsed::built(1, ExprView::Literal(LiteralView::Nil)),
            TokenTypeView::Number(n) => Parsed::built(1, ExprView::Literal(LiteralView::Number(n))),
            TokenTypeView::STRING(s) => Parsed::built(1, ExprView::Literal(LiteralView::STRING(s))),
            TokenTypeView::Identifer(_) => Parsed::built(1, ExprView::Variable(token)),
            TokenTypeView::LeftParen => grouping(tokens, pos + 1, token.line).behind(
                1,
                Seq::empty(),
            ),
            other => Parsed::failed(0, SyntaxErrorView::Unexpected(other)).reporting(
                report(token.line, SyntaxErrorView::Unexpected(other)),
            ),
        },
    }
}

/// `unary`: any number of `!` and `-` before a primary.
#[verifier::opaque]
pub open spec fn unary(tokens: Seq<TokenView>, pos: int) -> Parsed<ExprView>
    decreases left(tokens, pos), 5nat,
{
    if tag_at(tokens, pos, TokenTypeView::Bang) || tag_at(tokens, pos, TokenTypeView::Minus) {
        let operand = unary(tokens, pos + 1);
        Parsed {
            used: 1 + operand.used,
            reports: operand.reports,
            result: match operand.result {
                Ok(e) => Ok(ExprView::Unary { operator: tokens[pos], operand: Box::new(e) }),
                Err(error) => Err(error),
            },
        }
    } else {
        primary(tokens, pos)
    }
}

/// An operand of `tier`: an expression of the next tier down.
#[verifier::opaque]
pub open spec fn operand(tokens: Seq<TokenView>, pos: int, tier: Tier) -> Parsed<ExprView>
    decreases left(tokens, pos), 3 * tier.height(),
{
    match tier {
        Tier::Equality => tier_expr(tokens, pos, Tier::Comparison),
        Tier::Comparison => tier_expr(tokens, pos, Tier::Addition),
        Tier::Addition => tier_expr(tokens, pos, Tier::Multiplication),
        Tier::Multiplication => unary(tokens, pos),
    }
}

/// What follows the first operand `so_far` of `tier`: operators of the tier,
/// each with an operand, taken from left to right.
#[verifier::opaque]
pub open spec fn tier_rest(tokens: Seq<TokenView>, pos: int, tier: Tier, so_far: ExprView) -> Parsed<
    ExprView,
>
    decreases left(tokens, pos), 3 * tier.height() + 1,
{
    if 0 <= pos < tokens.len() && tier.has(tokens[pos].tag) {
        let right = operand(tokens, pos + 1, tier);
        match right.result {
            Err(error) => right.behind(1, Seq::empty()),
            Ok(e) => tier_rest(
                tokens,
                pos + 1 + right.used,
                tier,
                binary(so_far, tokens[pos], e),
            ).behind(1 + right.used, right.reports),
        }
    } else {
        Parsed::built(0, so_far)
    }
}

/// An expression of `tier`: operands joined by operators of the tier,
/// grouped to the left.
///
/// Where an operator of the tier that cannot begin an expression stands
/// first, the missing operand is reported on the operator's line. After
/// the operator a comparison is then read and dropped, and the expression
/// that follows it is what the rule yields.
#[verifier::opaque]
pub open spec fn tier_expr(tokens: Seq<TokenView>, pos: int, tier: Tier) -> Parsed<ExprView>
    decreases left(tokens, pos), 3 * tier.height() + 2,
{
    if 0 <= pos < tokens.len() && tier.cannot_begin(tokens[pos].tag) {
        let missing = seq![report(tokens[pos].line, SyntaxErrorView::MissingLeftOperand(tier))];
        let dropped = tier_expr(tokens, pos + 1, Tier::Comparison);
        match dropped.result {
            Err(error) => dropped.behind(1, missing),
            Ok(_) => expression(tokens, pos + 1 + dropped.used).behind(
                1 + dropped.used,
                missing + dropped.reports,
            ),
        }
    } else {
        let first = operand(tokens, pos, tier);
        match first.result {
            Err(error) => first,
            Ok(e) => tier_rest(tokens, pos + first.used, tier, e).behind(
                first.used,
                first.reports,
            ),
        }
    }
}

/// `ternary`: an equality, or three of them joined by `?` and `:`. A missing
/// `:` is reported on the line of the `?`.
#[verifier::opaque]
pub open spec fn ternary(tokens: Seq<TokenView>, pos: int) -> Parsed<ExprView>
    decreases left(tokens, pos), 18nat,
{
    let condition = tier_expr(tokens, pos, Tier::Equality);
    let asked = pos + condition.used;
    if condition.result is Ok && tag_at(tokens, asked, TokenTypeView::QuestionMark) {
        let line = tokens[asked].line;
        let first = tier_expr(tokens, asked + 1, Tier::Equality);
        let told = asked + 1 + first.used;
        if first.result is Err {
            first.behind(condition.used + 1, condition.reports)
        } else if !tag_at(tokens, told, TokenTypeView::Colon) {
            Parsed {
                used: condition.used + 1 + first.used,
                reports: (condition.reports + first.reports).push(
                    report(line, SyntaxErrorView::ExpectedColon { line }),
                ),
                result: Err(SyntaxErrorView::ExpectedColon { line }),
            }
        } else {
            let second = tier_expr(tokens, told + 1, Tier::Equality);
            Parsed {
                used: condition.used + 1 + first.used + 1 + second.used,
                reports: condition.reports + first.reports + second.reports,
                result: match second.result {
                    Err(error) => Err(error),
                    Ok(e) => Ok(
                        ExprView::Ternary {
                            condition: Box::new(condition.result->Ok_0),
                            true_expr: Box::new(first.result->Ok_0),
                            false_expr: Box::new(e),
                        },
                    ),
                },
            }
        }
    } else {
        condition
    }
}

/// `assignment`: a ternary, or a variable, `=` and the assigned expression,
/// grouped to the right. Where what stands before the `=` is not a
/// variable, that is remarked upon and the left side alone is yielded.
#[verifier::opaque]
pub open spec fn assignment(tokens: Seq<TokenView>, pos: int) -> Parsed<ExprView>
    decreases left(tokens, pos), 19nat,
{
    let target = ternary(tokens, pos);
    let assigned = pos + target.used;
    if target.result is Ok && tag_at(tokens, assigned, TokenTypeView::Equal) {
        let value = assignment(tokens, assigned + 1);
        let both = Parsed {
            used: target.used + 1 + value.used,
            reports: target.reports + value.reports,
            result: target.result,
        };
        match (value.result, target.result->Ok_0) {
            (Err(error), _) => Parsed { result: Err(error), ..both },
            (Ok(e), ExprView::Variable(name)) => Parsed {
                result: Ok(ExprView::Assign { name, value: Box::new(e) }),
                ..both
            },
            (Ok(_), _) => both.reporting(remark(SyntaxErrorView::InvalidAssignmentTarget)),
        }
    } else {
        target
    }
}

/// `expression`.
#[verifier::opaque]
pub open spec fn expression(tokens: Seq<TokenView>, pos: int) -> Parsed<ExprView>
    decreases left(tokens, pos), 20nat,
{
    assignment(tokens, pos)
}

/// An expression and the `;` that ends its statement.
pub open spec fn terminated(tokens: Seq<TokenView>, pos: int) -> Parsed<ExprView> {
    let e = expression(tokens, pos);
    if e.result is Ok && !tag_at(tokens, pos + e.used, TokenTypeView::Semicolon) {
        Parsed { result: Err(SyntaxErrorView::ExpectedSemicolon), ..e }
    } else if e.result is Ok {
        Parsed { used: e.used + 1, ..e }
    } else {
        e
    }
}

/// What follows `var`: a name, a first value if `=` follows the name, and
/// `;`.
pub open spec fn var_declaration(tokens: Seq<TokenView>, pos: int) -> Parsed<StmtView> {
    match token_at(tokens, pos) {
        Some(TokenView { tag: TokenTypeView::Identifer(name), .. }) => {
            if tag_at(tokens, pos + 1, TokenTypeView::Equal) {
                let value = terminated(tokens, pos + 2);
                Parsed {
                    used: 2 + value.used,
                    reports: value.reports,
                    result: match value.result {
                        Ok(e) => Ok(StmtView::VarDec { name, initializer: Some(e) }),
                        Err(error) => Err(error),
                    },
                }
            } else if tag_at(tokens, pos + 1, TokenTypeView::Semicolon) {
                Parsed::built(2, StmtView::VarDec { name, initializer: None })
            } else {
                Parsed::failed(1, SyntaxErrorView::ExpectedSemicolon)
            }
        },
        _ => Parsed::failed(0, SyntaxErrorView::ExpectedIdentifier),
    }
}

/// A statement that is no declaration: `print` and an expression, or an
/// expression alone, and `;`.
pub open spec fn statement(tokens: Seq<TokenView>, pos: int) -> Parsed<StmtView> {
    if tag_at(tokens, pos, TokenTypeView::Print) {
        let e = terminated(tokens, pos + 1);
        Parsed {
            used: 1 + e.used,
            reports: e.reports,
            result: match e.result {
                Ok(e) => Ok(StmtView::Print(e)),
                Err(error) => Err(error),
            },
        }
    } else {
        let e = terminated(tokens, pos);
        Parsed {
            used: e.used,
            reports: e.reports,
            result: match e.result {
                Ok(e) => Ok(StmtView::Expr(e)),
                Err(error) => Err(error),
            },
        }
    }
}

/// Whether a statement can begin with a token of kind `tag`, to judge by
/// the kind alone.
pub open spec fn begins_statement(tag: TokenTypeView) -> bool {
    tag is Class || tag is Fun || tag is Var || tag is For || tag is If || tag is While
        || tag is Print || tag is Return
}

/// How many tokens are passed over from `pos` to find where the next
/// statement may begin: up to and with the next `;`, or up to a token that
/// begins a statement or ends the program.
pub open spec fn skipped(tokens: Seq<TokenView>, pos: int) -> nat
    decreases left(tokens, pos),
{
    match token_at(tokens, pos) {
        None => 0,
        Some(token) => if token.tag is EOF || begins_statement(token.tag) {
            0
        } else if token.tag is Semicolon {
            1
        } else {
            1 + skipped(tokens, pos + 1)
        },
    }
}

/// `declaration`: one statement. Where it is rejected, the tokens up to the
/// place where the next statement may begin are used up with it.
pub open spec fn declaration(tokens: Seq<TokenView>, pos: int) -> Parsed<StmtView> {
    let parsed = if tag_at(tokens, pos, TokenTypeView::Var) {
        var_declaration(tokens, pos + 1).behind(1, Seq::empty())
    } else {
        statement(tokens, pos)
    };
    if parsed.result is Err {
        Parsed { used: parsed.used + skipped(tokens, pos + parsed.used), ..parsed }
    } else {
        parsed
    }
}

impl Program {
    /// This program, behind an earlier part that used `used` tokens, made
    /// `reports`, accepted `statements`, and rejected one if `failed`.
    pub open spec fn behind(
        self,
        used: nat,
        reports: Seq<DiagnosticView>,
        statements: Seq<StmtView>,
        failed: bool,
    ) -> Program {
        Program {
            used: used + self.used,
            reports: reports + self.reports,
            statements: statements + self.statements,
            failed: failed || self.failed,
        }
    }
}

/// `program`: statements up to the end. The error of each rejected
/// statement is remarked upon after what the statement itself reported. A
/// rejected statement that used no token has the token at which it stands
/// passed over.
pub open spec fn program(tokens: Seq<TokenView>, pos: int) -> Program
    decreases left(tokens, pos),
{
    if at_end(tokens, pos) {
        Program { used: 0, reports: Seq::empty(), statements: Seq::empty(), failed: false }
    } else {
        let one = declaration(tokens, pos);
        let used = if one.used == 0 {
            1nat
        } else {
            one.used
        };
        let rest = program(tokens, pos + used);
        match one.result {
            Ok(s) => Program {
                used: used + rest.used,
                reports: one.reports + rest.reports,
                statements: seq![s] + rest.statements,
                failed: rest.failed,
            },
            Err(error) => Program {
                used: used + rest.used,
                reports: one.reports.push(remark(error)) + rest.reports,
                statements: rest.statements,
                failed: true,
            },
        }
    }
}

/// A program is read to its end: behind the tokens that it uses stands the
/// end-of-input token, or nothing.
pub proof fn lemma_program_reaches_the_end(tokens: Seq<TokenView>, pos: int)
    requires
        0 <= pos,
    ensures
        at_end(tokens, pos + program(tokens, pos).used),
    decreases left(tokens, pos),
{
    if !at_end(tokens, pos) {
        let one = declaration(tokens, pos);
        let used = if one.used == 0 {
            1nat
        } else {
            one.used
        };
        lemma_program_reaches_the_end(tokens, pos + used);
    }
}

/// What a parser holds: the tokens, how many of them it has used, and what
/// it has reported.
pub struct ParserView {
    pub tokens: Seq<TokenView>,
    pub current: int,
    pub diagnostics: Seq<DiagnosticView>,
}

impl ParserView {
    /// A parser that has used none of `tokens` and reported nothing.
    pub open spec fn fresh(tokens: Seq<TokenView>) -> ParserView {
        ParserView { tokens, current: 0, diagnostics: Seq::empty() }
    }

    /// With `used` more tokens used and `reports` added.
    pub open spec fn moved(self, used: nat, reports: Seq<DiagnosticView>) -> ParserView {
        ParserView {
            current: self.current + used,
            diagnostics: self.diagnostics + reports,
            ..self
        }
    }

    /// After a rule of the grammar that yielded `parsed`.
    pub open spec fn after<T>(self, parsed: Parsed<T>) -> ParserView {
        self.moved(parsed.used, parsed.reports)
    }
}

/// The mathematical content of what a rule for expressions hands back.
pub open spec fn expr_result(r: Result<Expr, SyntaxError>) -> Result<ExprView, SyntaxErrorView> {
    match r {
        Ok(e) => Ok(e@),
        Err(error) => Err(error@),
    }
}

/// The mathematical content of what a rule for statements hands back.
pub open spec fn stmt_result(r: Result<Stmt, SyntaxError>) -> Result<StmtView, SyntaxErrorView> {
    match r {
        Ok(s) => Ok(s@),
        Err(error) => Err(error@),
    }
}

/// Moving twice is moving once by both.
pub proof fn lemma_moved_twice(
    state: ParserView,
    used: nat,
    reports: Seq<DiagnosticView>,
    more_used: nat,
    more_reports: Seq<DiagnosticView>,
)
    ensures
        state.moved(used, reports).moved(more_used, more_reports) == state.moved(
            used + more_used,
            reports + more_reports,
        ),
{
    assert((state.diagnostics + reports) + more_reports =~= state.diagnostics + (reports
        + more_reports));
}

/// Standing behind two earlier parts is standing behind both together.
pub proof fn lemma_behind_twice<T>(
    parsed: Parsed<T>,
    used: nat,
    reports: Seq<DiagnosticView>,
    first_used: nat,
    first_reports: Seq<DiagnosticView>,
)
    ensures
        parsed.behind(used, reports).behind(first_used, first_reports) == parsed.behind(
            first_used + used,
            first_reports + reports,
        ),
{
    assert(first_reports + (reports + parsed.reports) =~= (first_reports + reports)
        + parsed.reports);
}

/// A parser over one sequence of tokens.
pub struct Parser {
    tokens: Vec<Token>,
    current: usize,
    diagnostics: Vec<Diagnostic>,
}

impl View for Parser {
    type V = ParserView;

    closed spec fn view(&self) -> ParserView {
        ParserView {
            tokens: token_views(self.tokens@),
            current: self.current as int,
            diagnostics: diagnostic_views(self.diagnostics@),
        }
    }
}

impl Tier {
    /// Whether `tag` is an operator of the tier.
    fn holds(self, tag: &TokenType) -> (r: bool)
        ensures
            r == self.has(tag@),
    {
        match self {
            Tier::Equality => match tag {
                TokenType::BangEqual | TokenType::EqualEqual => true,
                _ => false,
            },
            Tier::Comparison => match tag {
                TokenType::Greater
                | TokenType::GreaterEqual
                | TokenType::Less
                | TokenType::LessEqual => true,
                _ => false,
            },
            Tier::Addition => match tag {
                TokenType::Plus | TokenType::Minus => true,
                _ => false,
            },
            Tier::Multiplication => match tag {
                TokenType::Slash | TokenType::Star => true,
                _ => false,
            },
        }
    }
}

fn begins_a_statement(tag: &TokenType) -> (r: bool)
    ensures
        r == begins_statement(tag@),
{
    match tag {
        TokenType::Class
        | TokenType::Fun
        | TokenType::Var
        | TokenType::For
        | TokenType::If
        | TokenType::While
        | TokenType::Print
        | TokenType::Return => true,
        _ => false,
    }
}

impl Parser {
    /// A parser that has used none of `tokens`.
    pub fn new(tokens: Vec<Token>) -> (r: Self)
        ensures
            r@ == ParserView::fresh(token_views(tokens@)),
    {
        let r = Self { tokens, current: 0, diagnostics: Vec::new() };
        assert(r@.diagnostics =~= Seq::empty());
        r
    }

    /// What has been reported so far.
    pub fn diagnostics(&self) -> (r: &Vec<Diagnostic>)
        ensures
            diagnostic_views(r@) == self@.diagnostics,
    {
        &self.diagnostics
    }

    fn peek(&self) -> (r: Option<&Token>)
        ensures
            r is Some == token_at(self@.tokens, self@.current) is Some,
            r matches Some(token) ==> token_at(self@.tokens, self@.current) == Some(token@),
    {
        if self.current < self.tokens.len() {
            Some(&self.tokens[self.current])
        } else {
            None
        }
    }

    fn is_at_end(&self) -> (r: bool)
        ensures
            r == at_end(self@.tokens, self@.current),
    {
        match self.peek() {
            Some(token) => token.tag.is(&TokenType::EOF),
            None => true,
        }
    }

    /// Uses up one token, unless the program ends here.
    fn advance(&mut self)
        ensures
            final(self)@ == if at_end(old(self)@.tokens, old(self)@.current) {
                old(self)@
            } else {
                old(self)@.moved(1, Seq::empty())
            },
    {
        assert(self@.diagnostics =~= old(self)@.diagnostics + Seq::empty());
        if self.current < self.tokens.len() && !self.is_at_end() {
            self.current += 1;
        }
    }

    fn report(&mut self, line: Option<usize>, error: SyntaxError)
        ensures
            final(self)@ == old(self)@.moved(
                0,
                seq![
                    DiagnosticView {
                        line: match line {
                            Some(line) => Some(line as nat),
                            None => None,
                        },
                        error: error@,
                    },
                ],
            ),
    {
        self.diagnostics.push(Diagnostic::new(line, error));
        assert(self@.diagnostics =~= old(self)@.diagnostics + seq![
            DiagnosticView {
                line: match line {
                    Some(line) => Some(line as nat),
                    None => None,
                },
                error: error@,
            },
        ]);
    }

    /// Uses up the next token if it is of kind `kind`.
    fn match_token(&mut self, kind: &TokenType) -> (r: Option<Token>)
        ensures
            r is Some == tag_at(old(self)@.tokens, old(self)@.current, kind@),
            r matches Some(token) ==> token@ == old(self)@.tokens[old(self)@.current],
            final(self)@ == if r is Some {
                old(self)@.moved(1, Seq::empty())
            } else {
                old(self)@
            },
    {
        assert(self@.diagnostics =~= old(self)@.diagnostics + Seq::empty());
        if self.current < self.tokens.len() && self.tokens[self.current].tag.is(kind) {
            let token = self.tokens[self.current].clone();
            self.current += 1;
            Some(token)
        } else {
            None
        }
    }

    /// Uses up the next token if it is an operator of `tier`, or, where
    /// `first` is set, one that cannot begin an expression.
    fn match_operator(&mut self, tier: Tier, first: bool) -> (r: Option<Token>)
        ensures
            r is Some == (token_at(old(self)@.tokens, old(self)@.current) matches Some(token)
                && if first {
                tier.cannot_begin(token.tag)
            } else {
                tier.has(token.tag)
            }),
            r matches Some(token) ==> token@ == old(self)@.tokens[old(self)@.current],
            final(self)@ == if r is Some {
                old(self)@.moved(1, Seq::empty())
            } else {
                old(self)@
            },
    {
        assert(self@.diagnostics =~= old(self)@.diagnostics + Seq::empty());
        if self.current < self.tokens.len() && tier.holds(&self.tokens[self.current].tag) && !(
        first && self.tokens[self.current].tag.is(&TokenType::Minus)) {
            let token = self.tokens[self.current].clone();
            self.current += 1;
            Some(token)
        } else {
            None
        }
    }

    /// Uses up the next token if it is of kind `kind`, and fails with
    /// `error` otherwise.
    fn consume(&mut self, kind: &TokenType, error: SyntaxError) -> (r: Result<(), SyntaxError>)
        ensures
            r is Ok == tag_at(old(self)@.tokens, old(self)@.current, kind@),
            r matches Err(e) ==> e == error,
            final(self)@ == if r is Ok {
                old(self)@.moved(1, Seq::empty())
            } else {
                old(self)@
            },
    {
        match self.match_token(kind) {
            Some(_) => Ok(()),
            None => Err(error),
        }
    }

    /// Uses up the next token if it is an identifier, and gives its name.
    fn consume_identifier(&mut self, error: SyntaxError) -> (r: Result<String, SyntaxError>)
        ensures
            r is Ok == (token_at(old(self)@.tokens, old(self)@.current) matches Some(token)
                && token.tag is Identifer),
            r matches Ok(name) ==> old(self)@.tokens[old(self)@.current].tag
                == TokenTypeView::Identifer(name@),
            r matches Err(e) ==> e == error,
            final(self)@ == if r is Ok {
                old(self)@.moved(1, Seq::empty())
            } else {
                old(self)@
            },
    {
        assert(self@.diagnostics =~= old(self)@.diagnostics + Seq::empty());
        if self.current < self.tokens.len() {
            match self.tokens[self.current].tag.get_identifier_value() {
                Some(name) => {
                    self.current += 1;
                    Ok(name)
                },
                None => Err(error),
            }
        } else {
            Err(error)
        }
    }


    /// Uses up the token that stands next.
    fn take(&mut self)
        requires
            token_at(old(self)@.tokens, old(self)@.current) is Some,
        ensures
            final(self)@ == old(self)@.moved(1, Seq::empty()),
    {
        assert(self@.diagnostics =~= old(self)@.diagnostics + Seq::empty());
        assert(self.tokens.len() == token_views(self.tokens@).len());
        self.current += 1;
    }

    fn grouping(&mut self, line: usize) -> (r: Result<Expr, SyntaxError>)
        ensures
            final(self)@ == old(self)@.after(
                grouping(old(self)@.tokens, old(self)@.current, line as nat),
            ),
            expr_result(r) == grouping(old(self)@.tokens, old(self)@.current, line as nat).result,
            r matches Ok(e) ==> e@.well_formed(),
        decreases left(old(self)@.tokens, old(self)@.current), 28nat,
    {
        reveal_with_fuel(grouping, 1);
        reveal_with_fuel(expression, 1);
        let ghost start = self@;
        let ghost inner = expression(start.tokens, start.current);
        let ghost complaint = report(line as nat, SyntaxErrorView::ExpectedRightParen);
        let expr = match self.expression() {
            Ok(expr) => expr,
            Err(error) => {
                return Err(error);
            },
        };
        assert(self@ == start.moved(inner.used, inner.reports));
        assert(inner.result is Ok);
        match self.consume(&TokenType::RightParen, SyntaxError::ExpectedRightParen) {
            Ok(_) => {
                assert(tag_at(start.tokens, start.current + inner.used, TokenTypeView::RightParen));
                proof {
                    lemma_moved_twice(start, inner.used, inner.reports, 1, Seq::empty());
                    assert(inner.reports + Seq::<DiagnosticView>::empty() =~= inner.reports);
                }
                Ok(Expr::Grouping { expr: Box::new(expr) })
            },
            Err(error) => {
                assert(!tag_at(
                    start.tokens,
                    start.current + inner.used,
                    TokenTypeView::RightParen,
                ));
                assert(error@ == SyntaxErrorView::ExpectedRightParen);
                self.report(Some(line), SyntaxError::ExpectedRightParen);
                proof {
                    lemma_moved_twice(start, inner.used, inner.reports, 0, seq![complaint]);
                    assert(inner.reports + seq![complaint] =~= inner.reports.push(complaint));
                }
                Err(error)
            },
        }
    }

    fn primary(&mut self) -> (r: Result<Expr, SyntaxError>)
        ensures
            final(self)@ == old(self)@.after(primary(old(self)@.tokens, old(self)@.current)),
            expr_result(r) == primary(old(self)@.tokens, old(self)@.current).result,
            r matches Ok(e) ==> e@.well_formed(),
        decreases left(old(self)@.tokens, old(self)@.current), 4nat,
    {
        reveal_with_fuel(primary, 1);
        reveal_with_fuel(grouping, 1);
        let ghost start = self@;
        if self.current >= self.tokens.len() {
            self.report(Some(0), SyntaxError::UnexpectedEndOfInput);
            assert(Seq::<DiagnosticView>::empty().push(
                report(0, SyntaxErrorView::UnexpectedEndOfInput),
            ) =~= seq![report(0, SyntaxErrorView::UnexpectedEndOfInput)]);
            return Err(SyntaxError::UnexpectedEndOfInput);
        }
        let token = self.tokens[self.current].clone();
        let ghost tag = start.tokens[start.current].tag;
        assert(token_at(start.tokens, start.current) == Some(token@));
        assert(token@.tag == tag);
        match token.tag {
            TokenType::True => {
                assert(tag is True);
                self.take();
                Ok(Expr::Literal(LiteralValue::True))
            },
            TokenType::False => {
                assert(tag is False);
                self.take();
                Ok(Expr::Literal(LiteralValue::False))
            },
            TokenType::Nil => {
                assert(tag is Nil);
                self.take();
                Ok(Expr::Literal(LiteralValue::Nil))
            },
            TokenType::Number(n) => {
                assert(tag == TokenTypeView::Number(n));
                self.take();
                Ok(Expr::Literal(LiteralValue::Number(n)))
            },
            TokenType::STRING(s) => {
                assert(tag == TokenTypeView::STRING(s@));
                self.take();
                Ok(Expr::Literal(LiteralValue::STRING(s)))
            },
            TokenType::Identifer(name) => {
                assert(tag == TokenTypeView::Identifer(name@));
                self.take();
                Ok(Expr::Variable(Token { tag: TokenType::Identifer(name), line: token.line }))
            },
            TokenType::LeftParen => {
                assert(tag is LeftParen);
                self.take();
                let ghost inner = grouping(start.tokens, start.current + 1, token.line as nat);
                let r = self.grouping(token.line);
                proof {
                    lemma_moved_twice(start, 1, Seq::empty(), inner.used, inner.reports);
                }
                r
            },
            other => {
                assert(tag == other@);
                assert(!(tag is True || tag is False || tag is Nil || tag is Number
                    || tag is STRING || tag is Identifer || tag is LeftParen));
                let ghost complaint = report(
                    token.line as nat,
                    SyntaxErrorView::Unexpected(other@),
                );
                self.report(Some(token.line), SyntaxError::Unexpected(other.clone()));
                assert(Seq::<DiagnosticView>::empty().push(complaint) =~= seq![complaint]);
                Err(SyntaxError::Unexpected(other))
            },
        }
    }

    fn unary(&mut self) -> (r: Result<Expr, SyntaxError>)
        ensures
            final(self)@ == old(self)@.after(unary(old(self)@.tokens, old(self)@.current)),
            expr_result(r) == unary(old(self)@.tokens, old(self)@.current).result,
            r matches Ok(e) ==> e@.well_formed(),
        decreases left(old(self)@.tokens, old(self)@.current), 5nat,
    {
        reveal_with_fuel(unary, 1);
        reveal_with_fuel(primary, 1);
        let ghost start = self@;
        let operator = match self.match_token(&TokenType::Bang) {
            Some(operator) => Some(operator),
            None => self.match_token(&TokenType::Minus),
        };
        match operator {
            Some(operator) => {
                let ghost inner = unary(start.tokens, start.current + 1);
                let operand = self.unary();
                proof {
                    lemma_moved_twice(start, 1, Seq::empty(), inner.used, inner.reports);
                    assert(Seq::<DiagnosticView>::empty() + inner.reports =~= inner.reports);
                }
                match operand {
                    Ok(operand) => Ok(Expr::Unary { operator, operand: Box::new(operand) }),
                    Err(error) => Err(error),
                }
            },
            None => self.primary(),
        }
    }

    /// An operand of `tier`.
    fn operand(&mut self, tier: Tier) -> (r: Result<Expr, SyntaxError>)
        ensures
            final(self)@ == old(self)@.after(operand(old(self)@.tokens, old(self)@.current, tier)),
            expr_result(r) == operand(old(self)@.tokens, old(self)@.current, tier).result,
            r matches Ok(e) ==> e@.well_formed(),
        decreases left(old(self)@.tokens, old(self)@.current), 4 * tier.height() + 1,
    {
        reveal_with_fuel(operand, 1);
        reveal_with_fuel(tier_expr, 1);
        reveal_with_fuel(unary, 1);
        match tier {
            Tier::Equality => self.comparison(),
            Tier::Comparison => self.addition(),
            Tier::Addition => self.multiplication(),
            Tier::Multiplication => self.unary(),
        }
    }

    /// What follows the first operand `so_far` of `tier`.
    fn tier_rest(&mut self, tier: Tier, so_far: Expr) -> (r: Result<Expr, SyntaxError>)
        requires
            so_far@.well_formed(),
        ensures
            final(self)@ == old(self)@.after(
                tier_rest(old(self)@.tokens, old(self)@.current, tier, so_far@),
            ),
            expr_result(r) == tier_rest(
                old(self)@.tokens,
                old(self)@.current,
                tier,
                so_far@,
            ).result,
            r matches Ok(e) ==> e@.well_formed(),
        decreases left(old(self)@.tokens, old(self)@.current), 4 * tier.height() + 2,
    {
        reveal_with_fuel(tier_rest, 1);
        reveal_with_fuel(operand, 1);
        let ghost start = self@;
        let ghost first = so_far@;
        let ghost mut used: nat = 0;
        let ghost mut reports: Seq<DiagnosticView> = Seq::empty();
        let mut expr = so_far;
        assert(start.diagnostics + Seq::<DiagnosticView>::empty() =~= start.diagnostics);
        assert(tier_rest(start.tokens, start.current, tier, first).reports =~= Seq::empty()
            + tier_rest(start.tokens, start.current, tier, first).reports);
        loop
            invariant
                start == old(self)@,
                first == so_far@,
                self@ == start.moved(used, reports),
                tier_rest(start.tokens, start.current, tier, first) == tier_rest(
                    start.tokens,
                    start.current + used,
                    tier,
                    expr@,
                ).behind(used, reports),
                expr@.well_formed(),
                left(start.tokens, start.current + used) <= left(start.tokens, start.current),
            decreases left(start.tokens, start.current + used),
        {
            reveal_with_fuel(tier_rest, 1);
            reveal_with_fuel(operand, 1);
            let ghost here = start.current + used;
            let operator = match self.match_operator(tier, false) {
                Some(operator) => operator,
                None => {
                    assert(reports + Seq::<DiagnosticView>::empty() =~= reports);
                    return Ok(expr);
                },
            };
            let ghost right = operand(start.tokens, here + 1, tier);
            let ghost further = tier_rest(
                start.tokens,
                here + 1 + right.used,
                tier,
                binary(expr@, operator@, right.result->Ok_0),
            );
            proof {
                lemma_moved_twice(start, used, reports, 1, Seq::empty());
                lemma_moved_twice(
                    start,
                    used + 1,
                    reports + Seq::empty(),
                    right.used,
                    right.reports,
                );
                assert((reports + Seq::<DiagnosticView>::empty()) + right.reports =~= reports
                    + right.reports);
                lemma_behind_twice(right, 1, Seq::empty(), used, reports);
                assert(reports + Seq::<DiagnosticView>::empty() =~= reports);
                lemma_behind_twice(further, 1 + right.used, right.reports, used, reports);
            }
            let operand = match self.operand(tier) {
                Ok(operand) => operand,
                Err(error) => {
                    return Err(error);
                },
            };
            expr =
            Expr::Binary { left: Box::new(expr), operator, right: Box::new(operand) };
            proof {
                used = used + 1 + right.used;
                reports = reports + right.reports;
            }
        }
    }

    /// An expression of `tier`.
    fn tier_expr(&mut self, tier: Tier) -> (r: Result<Expr, SyntaxError>)
        ensures
            final(self)@ == old(self)@.after(
                tier_expr(old(self)@.tokens, old(self)@.current, tier),
            ),
            expr_result(r) == tier_expr(old(self)@.tokens, old(self)@.current, tier).result,
            r matches Ok(e) ==> e@.well_formed(),
        decreases left(old(self)@.tokens, old(self)@.current), 4 * tier.height() + 3,
    {
        reveal_with_fuel(tier_expr, 1);
        reveal_with_fuel(operand, 1);
        reveal_with_fuel(tier_rest, 1);
        reveal_with_fuel(expression, 1);
        let ghost start = self@;
        match self.match_operator(tier, true) {
            Some(operator) => {
                let ghost missing = seq![
                    report(operator.line as nat, SyntaxErrorView::MissingLeftOperand(tier)),
                ];
                let ghost dropped = tier_expr(start.tokens, start.current + 1, Tier::Comparison);
                let ghost kept = expression(start.tokens, start.current + 1 + dropped.used);
                self.report(Some(operator.line), SyntaxError::MissingLeftOperand(tier));
                proof {
                    lemma_moved_twice(start, 1, Seq::empty(), 0, missing);
                    assert(Seq::<DiagnosticView>::empty() + missing =~= missing);
                    lemma_moved_twice(start, 1, missing, dropped.used, dropped.reports);
                    lemma_moved_twice(
                        start,
                        1 + dropped.used,
                        missing + dropped.reports,
                        kept.used,
                        kept.reports,
                    );
                }
                match self.tier_expr(Tier::Comparison) {
                    Err(error) => Err(error),
                    Ok(_) => self.expression(),
                }
            },
            None => {
                let ghost first = operand(start.tokens, start.current, tier);
                let e = self.operand(tier)?;
                let ghost rest = tier_rest(start.tokens, start.current + first.used, tier, e@);
                proof {
                    lemma_moved_twice(start, first.used, first.reports, rest.used, rest.reports);
                }
                self.tier_rest(tier, e)
            },
        }
    }

    fn equality(&mut self) -> (r: Result<Expr, SyntaxError>)
        ensures
            final(self)@ == old(self)@.after(
                tier_expr(old(self)@.tokens, old(self)@.current, Tier::Equality),
            ),
            expr_result(r) == tier_expr(
                old(self)@.tokens,
                old(self)@.current,
                Tier::Equality,
            ).result,
            r matches Ok(e) ==> e@.well_formed(),
        decreases left(old(self)@.tokens, old(self)@.current), 24nat,
    {
        self.tier_expr(Tier::Equality)
    }

    fn comparison(&mut self) -> (r: Result<Expr, SyntaxError>)
        ensures
            final(self)@ == old(self)@.after(
                tier_expr(old(self)@.tokens, old(self)@.current, Tier::Comparison),
            ),
            expr_result(r) == tier_expr(
                old(self)@.tokens,
                old(self)@.current,
                Tier::Comparison,
            ).result,
            r matches Ok(e) ==> e@.well_formed(),
        decreases left(old(self)@.tokens, old(self)@.current), 20nat,
    {
        self.tier_expr(Tier::Comparison)
    }

    fn addition(&mut self) -> (r: Result<Expr, SyntaxError>)
        ensures
            final(self)@ == old(self)@.after(
                tier_expr(old(self)@.tokens, old(self)@.current, Tier::Addition),
            ),
            expr_result(r) == tier_expr(
                old(self)@.tokens,
                old(self)@.current,
                Tier::Addition,
            ).result,
            r matches Ok(e) ==> e@.well_formed(),
        decreases left(old(self)@.tokens, old(self)@.current), 16nat,
    {
        self.tier_expr(Tier::Addition)
    }

    fn multiplication(&mut self) -> (r: Result<Expr, SyntaxError>)
        ensures
            final(self)@ == old(self)@.after(
                tier_expr(old(self)@.tokens, old(self)@.current, Tier::Multiplication),
            ),
            expr_result(r) == tier_expr(
                old(self)@.tokens,
                old(self)@.current,
                Tier::Multiplication,
            ).result,
            r matches Ok(e) ==> e@.well_formed(),
        decreases left(old(self)@.tokens, old(self)@.current), 12nat,
    {
        self.tier_expr(Tier::Multiplication)
    }

    fn ternary(&mut self) -> (r: Result<Expr, SyntaxError>)
        ensures
            final(self)@ == old(self)@.after(ternary(old(self)@.tokens, old(self)@.current)),
            expr_result(r) == ternary(old(self)@.tokens, old(self)@.current).result,
            r matches Ok(e) ==> e@.well_formed(),
        decreases left(old(self)@.tokens, old(self)@.current), 25nat,
    {
        reveal_with_fuel(ternary, 1);
        reveal_with_fuel(tier_expr, 1);
        let ghost start = self@;
        let ghost condition = tier_expr(start.tokens, start.current, Tier::Equality);
        let ghost first = tier_expr(
            start.tokens,
            start.current + condition.used + 1,
            Tier::Equality,
        );
        let ghost second = tier_expr(
            start.tokens,
            start.current + condition.used + 1 + first.used + 1,
            Tier::Equality,
        );
        let condition_expr = self.equality()?;
        let question = match self.match_token(&TokenType::QuestionMark) {
            Some(question) => question,
            None => {
                return Ok(condition_expr);
            },
        };
        let line = question.line;
        let ghost complaint = report(
            line as nat,
            SyntaxErrorView::ExpectedColon { line: line as nat },
        );
        proof {
            lemma_moved_twice(start, condition.used, condition.reports, 1, Seq::empty());
            assert(condition.reports + Seq::<DiagnosticView>::empty() =~= condition.reports);
            lemma_moved_twice(
                start,
                condition.used + 1,
                condition.reports,
                first.used,
                first.reports,
            );
        }
        let true_expr = self.equality()?;
        match self.consume(&TokenType::Colon, SyntaxError::ExpectedColon { line }) {
            Ok(_) => {
                proof {
                    lemma_moved_twice(
                        start,
                        condition.used + 1 + first.used,
                        condition.reports + first.reports,
                        1,
                        Seq::empty(),
                    );
                    assert((condition.reports + first.reports) + Seq::<DiagnosticView>::empty()
                        =~= condition.reports + first.reports);
                    lemma_moved_twice(
                        start,
                        condition.used + 1 + first.used + 1,
                        condition.reports + first.reports,
                        second.used,
                        second.reports,
                    );
                }
                let false_expr = self.equality()?;
                Ok(
                    Expr::Ternary {
                        condition: Box::new(condition_expr),
                        true_expr: Box::new(true_expr),
                        false_expr: Box::new(false_expr),
                    },
                )
            },
            Err(error) => {
                self.report(Some(line), SyntaxError::ExpectedColon { line });
                proof {
                    lemma_moved_twice(
                        start,
                        condition.used + 1 + first.used,
                        condition.reports + first.reports,
                        0,
                        seq![complaint],
                    );
                    assert((condition.reports + first.reports) + seq![complaint] =~= (
                    condition.reports + first.reports).push(complaint));
                }
                Err(error)
            },
        }
    }

    fn assignment(&mut self) -> (r: Result<Expr, SyntaxError>)
        ensures
            final(self)@ == old(self)@.after(assignment(old(self)@.tokens, old(self)@.current)),
            expr_result(r) == assignment(old(self)@.tokens, old(self)@.current).result,
            r matches Ok(e) ==> e@.well_formed(),
        decreases left(old(self)@.tokens, old(self)@.current), 26nat,
    {
        reveal_with_fuel(assignment, 1);
        reveal_with_fuel(ternary, 1);
        let ghost start = self@;
        let ghost target = ternary(start.tokens, start.current);
        let ghost value = assignment(start.tokens, start.current + target.used + 1);
        let ghost complaint = remark(SyntaxErrorView::InvalidAssignmentTarget);
        let expr = self.ternary()?;
        if self.match_token(&TokenType::Equal).is_none() {
            return Ok(expr);
        }
        proof {
            lemma_moved_twice(start, target.used, target.reports, 1, Seq::empty());
            assert(target.reports + Seq::<DiagnosticView>::empty() =~= target.reports);
            lemma_moved_twice(start, target.used + 1, target.reports, value.used, value.reports);
        }
        let assigned = self.assignment()?;
        match expr {
            Expr::Variable(name) => Ok(Expr::Assign { name, value: Box::new(assigned) }),
            other => {
                self.report(None, SyntaxError::InvalidAssignmentTarget);
                proof {
                    lemma_moved_twice(
                        start,
                        target.used + 1 + value.used,
                        target.reports + value.reports,
                        0,
                        seq![complaint],
                    );
                    assert((target.reports + value.reports) + seq![complaint] =~= (target.reports
                        + value.reports).push(complaint));
                }
                Ok(other)
            },
        }
    }

    fn expression(&mut self) -> (r: Result<Expr, SyntaxError>)
        ensures
            final(self)@ == old(self)@.after(expression(old(self)@.tokens, old(self)@.current)),
            expr_result(r) == expression(old(self)@.tokens, old(self)@.current).result,
            r matches Ok(e) ==> e@.well_formed(),
        decreases left(old(self)@.tokens, old(self)@.current), 27nat,
    {
        reveal_with_fuel(expression, 1);
        reveal_with_fuel(assignment, 1);
        self.assignment()
    }

    /// An expression and the `;` that ends its statement.
    fn terminated(&mut self) -> (r: Result<Expr, SyntaxError>)
        ensures
            final(self)@ == old(self)@.after(terminated(old(self)@.tokens, old(self)@.current)),
            expr_result(r) == terminated(old(self)@.tokens, old(self)@.current).result,
            r matches Ok(e) ==> e@.well_formed(),
    {
        let ghost start = self@;
        let ghost e = expression(start.tokens, start.current);
        let expr = match self.expression() {
            Ok(expr) => expr,
            Err(error) => {
                return Err(error);
            },
        };
        assert(e.result is Ok);
        match self.consume(&TokenType::Semicolon, SyntaxError::ExpectedSemicolon) {
            Ok(_) => {
                assert(tag_at(start.tokens, start.current + e.used, TokenTypeView::Semicolon));
                proof {
                    lemma_moved_twice(start, e.used, e.reports, 1, Seq::empty());
                    assert(e.reports + Seq::<DiagnosticView>::empty() =~= e.reports);
                }
                Ok(expr)
            },
            Err(error) => {
                assert(!tag_at(start.tokens, start.current + e.used, TokenTypeView::Semicolon));
                assert(error@ == SyntaxErrorView::ExpectedSemicolon);
                Err(error)
            },
        }
    }

    fn finish_var_declaration(&mut self) -> (r: Result<Stmt, SyntaxError>)
        ensures
            final(self)@ == old(self)@.after(
                var_declaration(old(self)@.tokens, old(self)@.current),
            ),
            stmt_result(r) == var_declaration(old(self)@.tokens, old(self)@.current).result,
            r matches Ok(s) ==> s@.well_formed(),
    {
        let ghost start = self@;
        let name = match self.consume_identifier(SyntaxError::ExpectedIdentifier) {
            Ok(name) => name,
            Err(error) => {
                assert(error@ == SyntaxErrorView::ExpectedIdentifier);
                return Err(error);
            },
        };
        assert(token_at(start.tokens, start.current) matches Some(token) && token.tag
            == TokenTypeView::Identifer(name@));
        if self.match_token(&TokenType::Equal).is_some() {
            assert(tag_at(start.tokens, start.current + 1, TokenTypeView::Equal));
            let ghost value = terminated(start.tokens, start.current + 2);
            proof {
                lemma_moved_twice(start, 1, Seq::empty(), 1, Seq::empty());
                assert(Seq::<DiagnosticView>::empty() + Seq::<DiagnosticView>::empty()
                    =~= Seq::<DiagnosticView>::empty());
                lemma_moved_twice(start, 2, Seq::empty(), value.used, value.reports);
                assert(Seq::<DiagnosticView>::empty() + value.reports =~= value.reports);
            }
            match self.terminated() {
                Ok(e) => Ok(Stmt::VarDec { name, initializer: Some(e) }),
                Err(error) => Err(error),
            }
        } else {
            assert(!tag_at(start.tokens, start.current + 1, TokenTypeView::Equal));
            match self.consume(&TokenType::Semicolon, SyntaxError::ExpectedSemicolon) {
                Ok(_) => {
                    assert(tag_at(start.tokens, start.current + 1, TokenTypeView::Semicolon));
                    proof {
                        lemma_moved_twice(start, 1, Seq::empty(), 1, Seq::empty());
                        assert(Seq::<DiagnosticView>::empty() + Seq::<DiagnosticView>::empty()
                            =~= Seq::<DiagnosticView>::empty());
                    }
                    Ok(Stmt::VarDec { name, initializer: None })
                },
                Err(error) => {
                    assert(!tag_at(start.tokens, start.current + 1, TokenTypeView::Semicolon));
                    assert(error@ == SyntaxErrorView::ExpectedSemicolon);
                    Err(error)
                },
            }
        }
    }

    fn finish_print_statement(&mut self) -> (r: Result<Stmt, SyntaxError>)
        ensures
            final(self)@ == old(self)@.after(terminated(old(self)@.tokens, old(self)@.current)),
            r matches Ok(s) ==> terminated(old(self)@.tokens, old(self)@.current).result == Ok::<
                ExprView,
                SyntaxErrorView,
            >(s@->Print_0) && s@ is Print && s@.well_formed(),
            r matches Err(error) ==> terminated(old(self)@.tokens, old(self)@.current).result
                == Err::<ExprView, SyntaxErrorView>(error@),
    {
        match self.terminated() {
            Ok(e) => Ok(Stmt::Print(e)),
            Err(error) => Err(error),
        }
    }

    fn expression_statement(&mut self) -> (r: Result<Stmt, SyntaxError>)
        ensures
            final(self)@ == old(self)@.after(terminated(old(self)@.tokens, old(self)@.current)),
            r matches Ok(s) ==> terminated(old(self)@.tokens, old(self)@.current).result == Ok::<
                ExprView,
                SyntaxErrorView,
            >(s@->Expr_0) && s@ is Expr && s@.well_formed(),
            r matches Err(error) ==> terminated(old(self)@.tokens, old(self)@.current).result
                == Err::<ExprView, SyntaxErrorView>(error@),
    {
        match self.terminated() {
            Ok(e) => Ok(Stmt::Expr(e)),
            Err(error) => Err(error),
        }
    }

    fn statement(&mut self) -> (r: Result<Stmt, SyntaxError>)
        ensures
            final(self)@ == old(self)@.after(statement(old(self)@.tokens, old(self)@.current)),
            stmt_result(r) == statement(old(self)@.tokens, old(self)@.current).result,
            r matches Ok(s) ==> s@.well_formed(),
    {
        let ghost start = self@;
        if self.match_token(&TokenType::Print).is_some() {
            assert(tag_at(start.tokens, start.current, TokenTypeView::Print));
            let ghost e = terminated(start.tokens, start.current + 1);
            proof {
                lemma_moved_twice(start, 1, Seq::empty(), e.used, e.reports);
                assert(Seq::<DiagnosticView>::empty() + e.reports =~= e.reports);
            }
            self.finish_print_statement()
        } else {
            assert(!tag_at(start.tokens, start.current, TokenTypeView::Print));
            self.expression_statement()
        }
    }

    /// Passes over tokens to where the next statement may begin.
    fn synchronize(&mut self)
        ensures
            final(self)@ == old(self)@.moved(
                skipped(old(self)@.tokens, old(self)@.current),
                Seq::empty(),
            ),
    {
        let ghost start = self@;
        let ghost mut used: nat = 0;
        assert(start.diagnostics + Seq::<DiagnosticView>::empty() =~= start.diagnostics);
        loop
            invariant
                start == old(self)@,
                self@ == start.moved(used, Seq::empty()),
                skipped(start.tokens, start.current) == used + skipped(
                    start.tokens,
                    start.current + used,
                ),
            decreases left(start.tokens, start.current + used),
        {
            if self.current >= self.tokens.len() {
                assert(token_at(start.tokens, start.current + used) is None);
                return ;
            }
            let ghost tag = start.tokens[start.current + used].tag;
            assert(token_at(start.tokens, start.current + used) is Some);
            if self.tokens[self.current].tag.is(&TokenType::EOF) || begins_a_statement(
                &self.tokens[self.current].tag,
            ) {
                assert(tag is EOF || begins_statement(tag));
                return ;
            }
            let last = self.tokens[self.current].tag.is(&TokenType::Semicolon);
            self.take();
            proof {
                lemma_moved_twice(start, used, Seq::empty(), 1, Seq::empty());
                assert(Seq::<DiagnosticView>::empty() + Seq::<DiagnosticView>::empty()
                    =~= Seq::<DiagnosticView>::empty());
                used = used + 1;
            }
            if last {
                assert(tag is Semicolon);
                return ;
            }
        }
    }

    /// One statement. Where it is rejected, the tokens up to the place where
    /// the next statement may begin are passed over.
    fn declaration(&mut self) -> (r: Result<Stmt, SyntaxError>)
        ensures
            final(self)@ == old(self)@.after(declaration(old(self)@.tokens, old(self)@.current)),
            stmt_result(r) == declaration(old(self)@.tokens, old(self)@.current).result,
            r matches Ok(s) ==> s@.well_formed(),
    {
        let ghost start = self@;
        let ghost parsed = if tag_at(start.tokens, start.current, TokenTypeView::Var) {
            var_declaration(start.tokens, start.current + 1).behind(1, Seq::empty())
        } else {
            statement(start.tokens, start.current)
        };
        let stmt = if self.match_token(&TokenType::Var).is_some() {
            let ghost v = var_declaration(start.tokens, start.current + 1);
            proof {
                lemma_moved_twice(start, 1, Seq::empty(), v.used, v.reports);
            }
            self.finish_var_declaration()
        } else {
            self.statement()
        };
        assert(self@ == start.moved(parsed.used, parsed.reports));
        assert(stmt_result(stmt) == parsed.result);
        if stmt.is_err() {
            self.synchronize();
            proof {
                lemma_moved_twice(
                    start,
                    parsed.used,
                    parsed.reports,
                    skipped(start.tokens, start.current + parsed.used),
                    Seq::empty(),
                );
                assert(parsed.reports + Seq::<DiagnosticView>::empty() =~= parsed.reports);
            }
        }
        stmt
    }

    /// Parses the whole program. All of it is read, whatever is rejected on
    /// the way; the statements are handed back only if none was rejected.
    pub fn parse(&mut self) -> (r: Result<Vec<Stmt>, SyntaxError>)
        ensures
            final(self)@ == old(self)@.moved(
                program(old(self)@.tokens, old(self)@.current).used,
                program(old(self)@.tokens, old(self)@.current).reports,
            ),
            r is Err == program(old(self)@.tokens, old(self)@.current).failed,
            r matches Err(error) ==> error == SyntaxError::ParsingErrors,
            r matches Ok(statements) ==> stmt_views(statements@) == program(
                old(self)@.tokens,
                old(self)@.current,
            ).statements,
            r matches Ok(statements) ==> forall|i: int|
                0 <= i < statements.len() ==> (#[trigger] statements[i])@.well_formed(),
            at_end(final(self)@.tokens, final(self)@.current),
    {
        let ghost start = self@;
        let ghost whole = program(start.tokens, start.current);
        let ghost mut used: nat = 0;
        let ghost mut reports: Seq<DiagnosticView> = Seq::empty();
        let mut stmts: Vec<Stmt> = Vec::new();
        let mut has_parse_error = false;
        proof {
            assert(start.diagnostics + Seq::<DiagnosticView>::empty() =~= start.diagnostics);
            assert(stmt_views(stmts@) =~= Seq::empty());
            assert(whole.reports =~= Seq::empty() + whole.reports);
            assert(whole.statements =~= Seq::empty() + whole.statements);
        }
        while !self.is_at_end()
            invariant
                start == old(self)@,
                whole == program(start.tokens, start.current),
                self@ == start.moved(used, reports),
                whole == program(start.tokens, start.current + used).behind(
                    used,
                    reports,
                    stmt_views(stmts@),
                    has_parse_error,
                ),
                forall|i: int| 0 <= i < stmts.len() ==> (#[trigger] stmts[i])@.well_formed(),
            decreases left(start.tokens, start.current + used),
        {
            let ghost here = start.current + used;
            let ghost one = declaration(start.tokens, here);
            let ghost step = if one.used == 0 {
                1nat
            } else {
                one.used
            };
            let ghost rest = program(start.tokens, here + step);
            let ghost accepted = stmt_views(stmts@);
            let before = self.current;
            let result = self.declaration();
            proof {
                lemma_moved_twice(start, used, reports, one.used, one.reports);
            }
            if self.current == before {
                assert(one.used == 0);
                self.take();
                proof {
                    lemma_moved_twice(
                        start,
                        used + one.used,
                        reports + one.reports,
                        1,
                        Seq::empty(),
                    );
                    assert((reports + one.reports) + Seq::<DiagnosticView>::empty() =~= reports
                        + one.reports);
                }
            }
            assert(self@ == start.moved(used + step, reports + one.reports));
            match result {
                Ok(stmt) => {
                    assert(one.result == Ok::<StmtView, SyntaxErrorView>(stmt@));
                    stmts.push(stmt);
                    proof {
                        assert(stmt_views(stmts@) =~= accepted + seq![stmt@]);
                        assert((accepted + seq![stmt@]) + rest.statements =~= accepted + (
                        seq![stmt@] + rest.statements));
                        assert((reports + one.reports) + rest.reports =~= reports + (one.reports
                            + rest.reports));
                        used = used + step;
                        reports = reports + one.reports;
                    }
                },
                Err(error) => {
                    assert(one.result == Err::<StmtView, SyntaxErrorView>(error@));
                    has_parse_error = true;
                    let ghost said = remark(error@);
                    self.report(None, error);
                    proof {
                        lemma_moved_twice(
                            start,
                            used + step,
                            reports + one.reports,
                            0,
                            seq![said],
                        );
                        assert((reports + one.reports) + seq![said] =~= reports
                            + one.reports.push(said));
                        assert((reports + one.reports.push(said)) + rest.reports =~= reports + (
                        one.reports.push(said) + rest.reports));
                        used = used + step;
                        reports = reports + one.reports.push(said);
                    }
                },
            }
        }
        proof {
            assert(reports + Seq::<DiagnosticView>::empty() =~= reports);
            assert(stmt_views(stmts@) + Seq::<StmtView>::empty() =~= stmt_views(stmts@));
        }
        if has_parse_error {
            Err(SyntaxError::ParsingErrors)
        } else {
            Ok(stmts)
        }
    }
}

} // verus!
