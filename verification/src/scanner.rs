//! The scanner: source text to tokens.
//!
//! Scanning never fails. What it cannot read it reports and passes over. The
//! one thing it does not do is give a number's spelling its value: it stops
//! after each such spelling, hands it out, and scans on when asked.

use crate::diagnostic::{diagnostic_views, Diagnostic, DiagnosticView, SyntaxError, SyntaxErrorView};
use crate::number::Number;
use crate::text::{chars_of, spells, text_of};
use crate::token::{token_views, Token, TokenType, TokenTypeView, TokenView};
use vstd::prelude::*;

verus! {

/// A letter of the ASCII alphabet or an underscore.
pub open spec fn alpha(c: char) -> bool {
    ('a' <= c && c <= 'z') || ('A' <= c && c <= 'Z') || c == '_'
}

/// A decimal digit.
pub open spec fn digit(c: char) -> bool {
    '0' <= c && c <= '9'
}

/// A kind of stretch of source text that runs on for as long as possible.
#[derive(Clone, Copy, Debug, PartialEq, Eq)]
pub enum Run {
    /// Decimal digits.
    Digits,
    /// Letters, digits and underscores.
    Word,
    /// Everything up to the end of the line.
    Line,
    /// Everything up to a double quote.
    Quoted,
}

impl Run {
    /// Whether `c` belongs to a stretch of this kind.
    pub open spec fn takes(self, c: char) -> bool {
        match self {
            Run::Digits => digit(c),
            Run::Word => alpha(c) || digit(c),
            Run::Line => c != '\n',
            Run::Quoted => c != '"',
        }
    }
}

/// Where the longest stretch of kind `run` that begins at `pos` ends.
pub open spec fn run_end(text: Seq<char>, pos: int, run: Run) -> int
    decreases text.len() - pos,
{
    if 0 <= pos < text.len() && run.takes(text[pos]) {
        run_end(text, pos + 1, run)
    } else {
        pos
    }
}

/// Where a block comment ends whose body begins at `pos`, with `depth`
/// further comments open around it: after the `*/` that closes it, or at the
/// end of the text where nothing closes it. A `/*` inside opens a comment of
/// its own, which takes its own `*/`.
pub open spec fn comment_end(text: Seq<char>, pos: int, depth: nat) -> int
    decreases text.len() - pos,
{
    if pos < 0 || pos >= text.len() {
        pos
    } else if text[pos] == '*' && pos + 1 < text.len() && text[pos + 1] == '/' {
        if depth == 0 {
            pos + 2
        } else {
            comment_end(text, pos + 2, (depth - 1) as nat)
        }
    } else if text[pos] == '/' && pos + 1 < text.len() && text[pos + 1] == '*' {
        comment_end(text, pos + 2, depth + 1)
    } else {
        comment_end(text, pos + 1, depth)
    }
}

/// How many newlines stand in `text[from..to]`.
pub open spec fn newlines(text: Seq<char>, from: int, to: int) -> nat
    decreases to - from,
{
    if from >= to {
        0
    } else {
        newlines(text, from, to - 1) + if text[to - 1] == '\n' {
            1nat
        } else {
            0nat
        }
    }
}

/// Where a number's spelling ends that begins with the digit at `pos`: after
/// the digits, and after a fraction if a dot and a digit follow them.
pub open spec fn number_end(text: Seq<char>, pos: int) -> int {
    let whole = run_end(text, pos + 1, Run::Digits);
    if whole + 1 < text.len() && text[whole] == '.' && digit(text[whole + 1]) {
        run_end(text, whole + 1, Run::Digits)
    } else {
        whole
    }
}

/// The token that a single character stands for by itself.
pub open spec fn single(c: char) -> Option<TokenTypeView> {
    if c == '(' {
        Some(TokenTypeView::LeftParen)
    } else if c == ')' {
        Some(TokenTypeView::RightParen)
    } else if c == '{' {
        Some(TokenTypeView::LeftBrace)
    } else if c == '}' {
        Some(TokenTypeView::RightBrace)
    } else if c == ',' {
        Some(TokenTypeView::Comma)
    } else if c == '.' {
        Some(TokenTypeView::Dot)
    } else if c == '-' {
        Some(TokenTypeView::Minus)
    } else if c == '+' {
        Some(TokenTypeView::Plus)
    } else if c == ';' {
        Some(TokenTypeView::Semicolon)
    } else if c == '*' {
        Some(TokenTypeView::Star)
    } else if c == '?' {
        Some(TokenTypeView::QuestionMark)
    } else if c == ':' {
        Some(TokenTypeView::Colon)
    } else {
        None
    }
}

/// The token for one of `!`, `=`, `<`, `>`, alone or with `=` behind it.
pub open spec fn paired(c: char, with_equal: bool) -> Option<TokenTypeView> {
    if c == '!' {
        Some(
            if with_equal {
                TokenTypeView::BangEqual
            } else {
                TokenTypeView::Bang
            },
        )
    } else if c == '=' {
        Some(
            if with_equal {
                TokenTypeView::EqualEqual
            } else {
                TokenTypeView::Equal
            },
        )
    } else if c == '<' {
        Some(
            if with_equal {
                TokenTypeView::LessEqual
            } else {
                TokenTypeView::Less
            },
        )
    } else if c == '>' {
        Some(
            if with_equal {
                TokenTypeView::GreaterEqual
            } else {
                TokenTypeView::Greater
            },
        )
    } else {
        None
    }
}

/// The keyword that a word is, if it is one.
pub open spec fn keyword(word: Seq<char>) -> Option<TokenTypeView> {
    if word == "and"@ {
        Some(TokenTypeView::And)
    } else if word == "class"@ {
        Some(TokenTypeView::Class)
    } else if word == "else"@ {
        Some(TokenTypeView::Else)
    } else if word == "false"@ {
        Some(TokenTypeView::False)
    } else if word == "fun"@ {
        Some(TokenTypeView::Fun)
    } else if word == "for"@ {
        Some(TokenTypeView::For)
    } else if word == "if"@ {
        Some(TokenTypeView::If)
    } else if word == "nil"@ {
        Some(TokenTypeView::Nil)
    } else if word == "or"@ {
        Some(TokenTypeView::Or)
    } else if word == "print"@ {
        Some(TokenTypeView::Print)
    } else if word == "return"@ {
        Some(TokenTypeView::Return)
    } else if word == "super"@ {
        Some(TokenTypeView::Super)
    } else if word == "this"@ {
        Some(TokenTypeView::This)
    } else if word == "true"@ {
        Some(TokenTypeView::True)
    } else if word == "var"@ {
        Some(TokenTypeView::Var)
    } else if word == "while"@ {
        Some(TokenTypeView::While)
    } else {
        None
    }
}

/// The token for a word: its keyword, or an identifier of that name.
pub open spec fn word_token(word: Seq<char>) -> TokenTypeView {
    match keyword(word) {
        Some(tag) => tag,
        None => TokenTypeView::Identifer(word),
    }
}

/// What a stretch of source text turns out to be.
pub enum Found {
    /// White space or a comment.
    Nothing,
    /// A token.
    Token(TokenTypeView),
    /// The spelling of a number, whose value is still to be had.
    Number(Seq<char>),
    /// Something to report.
    Complaint(SyntaxErrorView),
}

/// A stretch of source text read as one unit.
pub struct Lexeme {
    /// Where it ends.
    pub end: int,
    pub found: Found,
}

/// The complaint about a character that begins nothing.
pub open spec fn unexpected(c: char) -> Found {
    Found::Complaint(SyntaxErrorView::UnexpectedCharacter(c))
}

/// The unit of source text that begins at `pos`.
pub open spec fn lexeme_at(text: Seq<char>, pos: int) -> Lexeme
    recommends
        0 <= pos < text.len(),
{
    let c = text[pos];
    let equal_follows = pos + 1 < text.len() && text[pos + 1] == '=';
    if single(c) is Some {
        Lexeme { end: pos + 1, found: Found::Token(single(c).unwrap()) }
    } else if paired(c, equal_follows) is Some {
        Lexeme {
            end: if equal_follows {
                pos + 2
            } else {
                pos + 1
            },
            found: Found::Token(paired(c, equal_follows).unwrap()),
        }
    } else if c == '/' {
        if pos + 1 < text.len() && text[pos + 1] == '/' {
            Lexeme { end: run_end(text, pos + 2, Run::Line), found: Found::Nothing }
        } else if pos + 1 < text.len() && text[pos + 1] == '*' {
            Lexeme { end: comment_end(text, pos + 2, 0), found: Found::Nothing }
        } else {
            Lexeme { end: pos + 1, found: Found::Token(TokenTypeView::Slash) }
        }
    } else if c == '\n' || c == '\t' || c == '\r' || c == ' ' {
        Lexeme { end: pos + 1, found: Found::Nothing }
    } else if c == '"' {
        let close = run_end(text, pos + 1, Run::Quoted);
        if close >= text.len() {
            Lexeme { end: close, found: Found::Complaint(SyntaxErrorView::UnterminatedString) }
        } else {
            Lexeme {
                end: close + 1,
                found: Found::Token(TokenTypeView::STRING(text.subrange(pos + 1, close))),
            }
        }
    } else if digit(c) {
        let end = number_end(text, pos);
        Lexeme { end, found: Found::Number(text.subrange(pos, end)) }
    } else if alpha(c) {
        let end = run_end(text, pos + 1, Run::Word);
        Lexeme { end, found: Found::Token(word_token(text.subrange(pos, end))) }
    } else {
        Lexeme { end: pos + 1, found: unexpected(c) }
    }
}

/// A stretch ends no earlier than it begins and no later than the text, and
/// where it ends before the text does, the next character is not of its kind.
pub proof fn lemma_run_end_bounds(text: Seq<char>, pos: int, run: Run)
    requires
        0 <= pos <= text.len(),
    ensures
        pos <= run_end(text, pos, run) <= text.len(),
        run_end(text, pos, run) < text.len() ==> !run.takes(text[run_end(text, pos, run)]),
    decreases text.len() - pos,
{
    if pos < text.len() && run.takes(text[pos]) {
        lemma_run_end_bounds(text, pos + 1, run);
    }
}

/// A comment ends no earlier than its body begins and no later than the text.
pub proof fn lemma_comment_end_bounds(text: Seq<char>, pos: int, depth: nat)
    requires
        0 <= pos <= text.len(),
    ensures
        pos <= comment_end(text, pos, depth) <= text.len(),
    decreases text.len() - pos,
{
    if pos < text.len() {
        if text[pos] == '*' && pos + 1 < text.len() && text[pos + 1] == '/' {
            if depth > 0 {
                lemma_comment_end_bounds(text, pos + 2, (depth - 1) as nat);
            }
        } else if text[pos] == '/' && pos + 1 < text.len() && text[pos + 1] == '*' {
            lemma_comment_end_bounds(text, pos + 2, depth + 1);
        } else {
            lemma_comment_end_bounds(text, pos + 1, depth);
        }
    }
}

/// Every unit takes at least one character and stays inside the text.
pub proof fn lemma_lexeme_advances(text: Seq<char>, pos: int)
    requires
        0 <= pos < text.len(),
    ensures
        pos < lexeme_at(text, pos).end <= text.len(),
{
    lemma_run_end_bounds(text, pos + 1, Run::Digits);
    lemma_run_end_bounds(text, pos + 1, Run::Word);
    lemma_run_end_bounds(text, pos + 1, Run::Quoted);
    let whole = run_end(text, pos + 1, Run::Digits);
    if whole + 1 < text.len() {
        lemma_run_end_bounds(text, whole + 1, Run::Digits);
    }
    if pos + 1 < text.len() {
        lemma_run_end_bounds(text, pos + 2, Run::Line);
        lemma_comment_end_bounds(text, pos + 2, 0);
    }
}

/// The newlines of two adjoining stretches add up.
pub proof fn lemma_newlines_add(text: Seq<char>, from: int, mid: int, to: int)
    requires
        from <= mid <= to,
    ensures
        newlines(text, from, to) == newlines(text, from, mid) + newlines(text, mid, to),
    decreases to - mid,
{
    if mid < to {
        lemma_newlines_add(text, from, mid, to - 1);
    }
}

/// What a scanner has read and produced so far.
pub struct ScannerView {
    /// The source text.
    pub text: Seq<char>,
    /// The tokens produced, oldest first.
    pub tokens: Seq<TokenView>,
    /// The reports made, oldest first.
    pub diagnostics: Seq<DiagnosticView>,
    /// How many characters have been read.
    pub current: int,
    /// How many newlines have been counted.
    pub line: nat,
}

/// A scanner that has stopped, and the spelling of the number it stopped
/// after, if it did not stop at the end of the text.
pub struct Paused {
    pub state: ScannerView,
    pub number: Option<Seq<char>>,
}

impl ScannerView {
    /// A scanner that has read nothing of `text` yet.
    pub open spec fn fresh(text: Seq<char>) -> ScannerView {
        ScannerView { text, tokens: Seq::empty(), diagnostics: Seq::empty(), current: 0, line: 0 }
    }

    pub open spec fn at_end(self) -> bool {
        self.current >= self.text.len()
    }

    /// With one more token, on the line reached.
    pub open spec fn with_token(self, tag: TokenTypeView) -> ScannerView {
        ScannerView { tokens: self.tokens.push(TokenView { tag, line: self.line }), ..self }
    }

    /// With one more report, about the line reached.
    pub open spec fn with_complaint(self, error: SyntaxErrorView) -> ScannerView {
        ScannerView {
            diagnostics: self.diagnostics.push(DiagnosticView { line: Some(self.line), error }),
            ..self
        }
    }

    /// Moved on to `end`, counting the newlines passed.
    pub open spec fn moved_to(self, end: int) -> ScannerView {
        ScannerView {
            current: end,
            line: self.line + newlines(self.text, self.current, end),
            ..self
        }
    }

    /// The spelling of a number that begins where the scanner stands.
    pub open spec fn number_ahead(self) -> Option<Seq<char>> {
        match lexeme_at(self.text, self.current).found {
            Found::Number(spelling) => Some(spelling),
            _ => None,
        }
    }

    /// After the unit that begins where the scanner stands: moved past it,
    /// with its token or its report if it gives one. A token or a report
    /// carries the line on which the unit ends.
    pub open spec fn after_lexeme(self) -> ScannerView {
        let lexeme = lexeme_at(self.text, self.current);
        let moved = self.moved_to(lexeme.end);
        match lexeme.found {
            Found::Token(tag) => moved.with_token(tag),
            Found::Complaint(error) => moved.with_complaint(error),
            _ => moved,
        }
    }

    /// Scanning on from here: unit after unit, until a number's spelling has
    /// been passed or the text is used up, where the end-of-input token is
    /// added.
    pub open spec fn run(self) -> Paused
        decreases self.text.len() - self.current,
    {
        if self.current < 0 || self.at_end() {
            Paused { state: self.with_token(TokenTypeView::EOF), number: None }
        } else if self.number_ahead() is Some {
            Paused { state: self.after_lexeme(), number: self.number_ahead() }
        } else {
            proof {
                lemma_lexeme_advances(self.text, self.current);
            }
            self.after_lexeme().run()
        }
    }
}

/// A stretch of characters of one kind, with none of the kind behind it, is
/// the longest such stretch.
pub proof fn lemma_run_over(text: Seq<char>, from: int, to: int, run: Run)
    requires
        0 <= from <= to <= text.len(),
        forall|i: int| from <= i < to ==> run.takes(#[trigger] text[i]),
        to < text.len() ==> !run.takes(text[to]),
    ensures
        run_end(text, from, run) == to,
    decreases to - from,
{
    if from < to {
        lemma_run_over(text, from + 1, to, run);
    }
}

/// A stretch without a newline counts none.
pub proof fn lemma_no_newlines(text: Seq<char>, from: int, to: int)
    requires
        forall|i: int| from <= i < to ==> #[trigger] text[i] != '\n',
    ensures
        newlines(text, from, to) == 0,
    decreases to - from,
{
    if from < to {
        lemma_no_newlines(text, from, to - 1);
    }
}

/// A scanner that stops after a number's spelling has read at least the
/// spelling's first digit, and reads on in the same text.
pub proof fn lemma_run_reads_on(state: ScannerView)
    requires
        0 <= state.current,
    ensures
        state.run().state.text == state.text,
        state.run().state.current >= state.current,
        state.run().number is Some ==> state.current < state.run().state.current
            <= state.text.len(),
    decreases state.text.len() - state.current,
{
    if !state.at_end() {
        lemma_lexeme_advances(state.text, state.current);
        if state.number_ahead() is None {
            lemma_run_reads_on(state.after_lexeme());
        }
    }
}

impl ScannerView {
    /// Scanning to the end of the text, where `value_of` says what number
    /// each spelling stands for: a spelling with a value leaves the token
    /// of that number, one without leaves nothing.
    pub open spec fn finish(self, value_of: spec_fn(Seq<char>) -> Option<Number>) -> ScannerView
        decreases self.text.len() - self.current,
    {
        let paused = self.run();
        match paused.number {
            None => paused.state,
            Some(spelling) => {
                let resumed = match value_of(spelling) {
                    Some(n) => paused.state.with_token(TokenTypeView::Number(n)),
                    None => paused.state,
                };
                if self.current < 0 {
                    resumed
                } else {
                    proof {
                        lemma_run_reads_on(self);
                    }
                    resumed.finish(value_of)
                }
            },
        }
    }
}

/// A place in a source text: how far it has been read, and how many
/// newlines have been counted on the way.
struct Cursor {
    text: Vec<char>,
    current: usize,
    line: usize,
}

impl Cursor {
    #[verifier::type_invariant]
    spec fn in_bounds(self) -> bool {
        self.current <= self.text.len() && self.line <= self.current
    }
}

/// A scanner over one source text.
pub struct Scanner {
    cursor: Cursor,
    tokens: Vec<Token>,
    diagnostics: Vec<Diagnostic>,
}

impl View for Scanner {
    type V = ScannerView;

    closed spec fn view(&self) -> ScannerView {
        ScannerView {
            text: self.cursor.text@,
            tokens: token_views(self.tokens@),
            diagnostics: diagnostic_views(self.diagnostics@),
            current: self.cursor.current as int,
            line: self.cursor.line as nat,
        }
    }
}

/// Whether `c` can begin a word.
pub fn is_alpha(c: char) -> (r: bool)
    ensures
        r == alpha(c),
{
    (c >= 'a' && c <= 'z') || (c >= 'A' && c <= 'Z') || c == '_'
}

/// Whether `c` is a decimal digit.
pub fn is_digit(c: char) -> (r: bool)
    ensures
        r == digit(c),
{
    c >= '0' && c <= '9'
}

/// Whether `c` can stand in a word.
pub fn is_alphanumeric(c: char) -> (r: bool)
    ensures
        r == (alpha(c) || digit(c)),
{
    is_alpha(c) || is_digit(c)
}

impl Run {
    fn accepts(self, c: char) -> (r: bool)
        ensures
            r == self.takes(c),
    {
        match self {
            Run::Digits => is_digit(c),
            Run::Word => is_alphanumeric(c),
            Run::Line => c != '\n',
            Run::Quoted => c != '"',
        }
    }
}

fn single_token(c: char) -> (r: Option<TokenType>)
    ensures
        r is Some == single(c) is Some,
        r matches Some(tag) ==> single(c) == Some(tag@),
{
    if c == '(' {
        Some(TokenType::LeftParen)
    } else if c == ')' {
        Some(TokenType::RightParen)
    } else if c == '{' {
        Some(TokenType::LeftBrace)
    } else if c == '}' {
        Some(TokenType::RightBrace)
    } else if c == ',' {
        Some(TokenType::Comma)
    } else if c == '.' {
        Some(TokenType::Dot)
    } else if c == '-' {
        Some(TokenType::Minus)
    } else if c == '+' {
        Some(TokenType::Plus)
    } else if c == ';' {
        Some(TokenType::Semicolon)
    } else if c == '*' {
        Some(TokenType::Star)
    } else if c == '?' {
        Some(TokenType::QuestionMark)
    } else if c == ':' {
        Some(TokenType::Colon)
    } else {
        None
    }
}

fn paired_token(c: char, with_equal: bool) -> (r: Option<TokenType>)
    ensures
        r is Some == paired(c, with_equal) is Some,
        r matches Some(tag) ==> paired(c, with_equal) == Some(tag@),
{
    if c == '!' {
        Some(
            if with_equal {
                TokenType::BangEqual
            } else {
                TokenType::Bang
            },
        )
    } else if c == '=' {
        Some(
            if with_equal {
                TokenType::EqualEqual
            } else {
                TokenType::Equal
            },
        )
    } else if c == '<' {
        Some(
            if with_equal {
                TokenType::LessEqual
            } else {
                TokenType::Less
            },
        )
    } else if c == '>' {
        Some(
            if with_equal {
                TokenType::GreaterEqual
            } else {
                TokenType::Greater
            },
        )
    } else {
        None
    }
}

/// The token for the word `text[from..to]`.
fn word_of(text: &Vec<char>, from: usize, to: usize) -> (r: TokenType)
    requires
        from <= to <= text.len(),
    ensures
        r@ == word_token(text@.subrange(from as int, to as int)),
{
    if spells(text, from, to, "and") {
        TokenType::And
    } else if spells(text, from, to, "class") {
        TokenType::Class
    } else if spells(text, from, to, "else") {
        TokenType::Else
    } else if spells(text, from, to, "false") {
        TokenType::False
    } else if spells(text, from, to, "fun") {
        TokenType::Fun
    } else if spells(text, from, to, "for") {
        TokenType::For
    } else if spells(text, from, to, "if") {
        TokenType::If
    } else if spells(text, from, to, "nil") {
        TokenType::Nil
    } else if spells(text, from, to, "or") {
        TokenType::Or
    } else if spells(text, from, to, "print") {
        TokenType::Print
    } else if spells(text, from, to, "return") {
        TokenType::Return
    } else if spells(text, from, to, "super") {
        TokenType::Super
    } else if spells(text, from, to, "this") {
        TokenType::This
    } else if spells(text, from, to, "true") {
        TokenType::True
    } else if spells(text, from, to, "var") {
        TokenType::Var
    } else if spells(text, from, to, "while") {
        TokenType::While
    } else {
        TokenType::Identifer(text_of(text, from, to))
    }
}

impl Scanner {
    /// A scanner that has read nothing of `source` yet.
    pub fn new(source: String) -> (r: Self)
        ensures
            r@ == ScannerView::fresh(source@),
    {
        let text = chars_of(source.as_str());
        let r = Self {
            cursor: Cursor { text, current: 0, line: 0 },
            tokens: Vec::new(),
            diagnostics: Vec::new(),
        };
        assert(r@.tokens =~= Seq::empty());
        assert(r@.diagnostics =~= Seq::empty());
        r
    }

    /// Whether all of the text has been read.
    pub fn is_at_end(&self) -> (r: bool)
        ensures
            r == self@.at_end(),
    {
        self.cursor.current >= self.cursor.text.len()
    }

    /// Reads one character, whatever it is, without counting a newline.
    pub fn advance(&mut self) -> (c: char)
        requires
            !old(self)@.at_end(),
        ensures
            c == old(self)@.text[old(self)@.current],
            final(self)@ == (ScannerView { current: old(self)@.current + 1, ..old(self)@ }),
    {
        proof {
            use_type_invariant(&self.cursor);
        }
        self.cursor.current += 1;
        self.cursor.text[self.cursor.current - 1]
    }

    /// Reads the next character if it is `expected`.
    pub fn match_char(&mut self, expected: char) -> (r: bool)
        ensures
            r == (!old(self)@.at_end() && old(self)@.text[old(self)@.current] == expected),
            final(self)@ == if r {
                ScannerView { current: old(self)@.current + 1, ..old(self)@ }
            } else {
                old(self)@
            },
    {
        proof {
            use_type_invariant(&self.cursor);
        }
        if self.is_at_end() {
            return false;
        }
        if self.cursor.text[self.cursor.current] != expected {
            return false;
        }
        self.cursor.current += 1;
        true
    }

    /// The next character, unread.
    pub fn peek(&self) -> (r: Option<char>)
        ensures
            r is Some == !self@.at_end(),
            r matches Some(c) ==> c == self@.text[self@.current],
    {
        proof {
            use_type_invariant(&self.cursor);
        }
        if self.cursor.current < self.cursor.text.len() {
            Some(self.cursor.text[self.cursor.current])
        } else {
            None
        }
    }

    /// The character after the next, unread.
    pub fn peek_next(&self) -> (r: Option<char>)
        ensures
            r is Some == (self@.current + 1 < self@.text.len()),
            r matches Some(c) ==> c == self@.text[self@.current + 1],
    {
        proof {
            use_type_invariant(&self.cursor);
        }
        if self.cursor.current < self.cursor.text.len() && self.cursor.current + 1 < self.cursor.text.len() {
            Some(self.cursor.text[self.cursor.current + 1])
        } else {
            None
        }
    }

    /// The tokens produced so far.
    pub fn tokens(&self) -> (r: &Vec<Token>)
        ensures
            token_views(r@) == self@.tokens,
    {
        &self.tokens
    }

    /// The reports made so far.
    pub fn diagnostics(&self) -> (r: &Vec<Diagnostic>)
        ensures
            diagnostic_views(r@) == self@.diagnostics,
    {
        &self.diagnostics
    }

    /// Gives up the scanner for its tokens.
    pub fn into_tokens(self) -> (r: Vec<Token>)
        ensures
            token_views(r@) == self@.tokens,
    {
        self.tokens
    }

    /// Adds a token on the line reached.
    pub fn add_token(&mut self, t: TokenType)
        ensures
            final(self)@ == old(self)@.with_token(t@),
    {
        proof {
            use_type_invariant(&self.cursor);
        }
        self.tokens.push(Token::new(t, self.cursor.line));
        assert(self@.tokens =~= old(self)@.with_token(t@).tokens);
    }

    fn complain(&mut self, error: SyntaxError)
        ensures
            final(self)@ == old(self)@.with_complaint(error@),
    {
        proof {
            use_type_invariant(&self.cursor);
        }
        self.diagnostics.push(Diagnostic::new(Some(self.cursor.line), error));
        assert(self@.diagnostics =~= old(self)@.with_complaint(error@).diagnostics);
    }

    /// Reads on to the end of the stretch of kind `run` that begins here.
    fn take_run(&mut self, run: Run)
        ensures
            final(self)@ == old(self)@.moved_to(run_end(old(self)@.text, old(self)@.current, run)),
    {
        proof {
            use_type_invariant(&self.cursor);
        }
        let ghost before = self@;
        while self.cursor.current < self.cursor.text.len() && run.accepts(self.cursor.text[self.cursor.current])
            invariant
                self.cursor.current <= self.cursor.text.len(),
                self.cursor.line <= self.cursor.current,
                before.current <= self.cursor.current,
                run_end(before.text, self.cursor.current as int, run) == run_end(
                    before.text,
                    before.current,
                    run,
                ),
                self@ == before.moved_to(self.cursor.current as int),
            decreases self.cursor.text.len() - self.cursor.current,
        {
            let newline = self.cursor.text[self.cursor.current] == '\n';
            self.cursor.current += 1;
            if newline {
                self.cursor.line += 1;
            }
        }
    }

    /// Reads on to the end of the block comment whose body begins here.
    fn handle_block_comment(&mut self)
        ensures
            final(self)@ == old(self)@.moved_to(
                comment_end(old(self)@.text, old(self)@.current, 0),
            ),
    {
        proof {
            use_type_invariant(&self.cursor);
        }
        let ghost before = self@;
        let mut depth: usize = 0;
        let mut open = true;
        while open && self.cursor.current < self.cursor.text.len()
            invariant
                self.cursor.current <= self.cursor.text.len(),
                self.cursor.line <= self.cursor.current,
                before.current <= self.cursor.current,
                depth <= self.cursor.current,
                open ==> comment_end(before.text, self.cursor.current as int, depth as nat)
                    == comment_end(before.text, before.current, 0),
                !open ==> self.cursor.current == comment_end(before.text, before.current, 0),
                self@ == before.moved_to(self.cursor.current as int),
            decreases self.cursor.text.len() - self.cursor.current,
        {
            let c = self.cursor.text[self.cursor.current];
            let paired = self.cursor.current + 1 < self.cursor.text.len();
            if c == '*' && paired && self.cursor.text[self.cursor.current + 1] == '/' {
                proof {
                    lemma_newlines_add(
                        before.text,
                        before.current,
                        self.cursor.current as int,
                        self.cursor.current + 2,
                    );
                    reveal_with_fuel(newlines, 3);
                }
                self.cursor.current += 2;
                if depth == 0 {
                    open = false;
                } else {
                    depth -= 1;
                }
            } else if c == '/' && paired && self.cursor.text[self.cursor.current + 1] == '*' {
                proof {
                    lemma_newlines_add(
                        before.text,
                        before.current,
                        self.cursor.current as int,
                        self.cursor.current + 2,
                    );
                    reveal_with_fuel(newlines, 3);
                }
                self.cursor.current += 2;
                depth += 1;
            } else {
                self.cursor.current += 1;
                if c == '\n' {
                    self.cursor.line += 1;
                }
            }
        }
    }

    /// Reads the rest of a string whose opening quote stands at `start`.
    fn handle_string(&mut self, start: usize)
        requires
            old(self)@.current == start + 1,
            old(self)@.text[start as int] == '"',
        ensures
            final(self)@ == (ScannerView { current: start as int, ..old(self)@ }).after_lexeme(),
    {
        proof {
            use_type_invariant(&self.cursor);
            lemma_run_end_bounds(self@.text, self@.current, Run::Quoted);
            lemma_newlines_add(
                self@.text,
                start as int,
                start + 1,
                run_end(self@.text, self@.current, Run::Quoted),
            );
            lemma_newlines_add(
                self@.text,
                start as int,
                run_end(self@.text, self@.current, Run::Quoted),
                run_end(self@.text, self@.current, Run::Quoted) + 1,
            );
            reveal_with_fuel(newlines, 2);
        }
        self.take_run(Run::Quoted);
        if self.is_at_end() {
            self.complain(SyntaxError::UnterminatedString);
        } else {
            proof {
                use_type_invariant(&self.cursor);
            }
            let _ = self.advance();
            let value = text_of(&self.cursor.text, start + 1, self.cursor.current - 1);
            self.add_token(TokenType::STRING(value));
        }
    }

    /// Reads the rest of a number's spelling whose first digit stands at
    /// `start`, and gives the spelling.
    fn handle_number(&mut self, start: usize) -> (spelling: String)
        requires
            old(self)@.current == start + 1,
            digit(old(self)@.text[start as int]),
        ensures
            final(self)@ == (ScannerView { current: start as int, ..old(self)@ }).after_lexeme(),
            Some(spelling@) == (ScannerView { current: start as int, ..old(self)@ }).number_ahead(),
    {
        proof {
            use_type_invariant(&self.cursor);
            let whole = run_end(self@.text, self@.current, Run::Digits);
            lemma_run_end_bounds(self@.text, self@.current, Run::Digits);
            lemma_newlines_add(self@.text, start as int, start + 1, whole);
            if whole + 1 < self@.text.len() {
                lemma_run_end_bounds(self@.text, whole + 1, Run::Digits);
                lemma_newlines_add(self@.text, start as int, whole, whole + 1);
                lemma_newlines_add(
                    self@.text,
                    start as int,
                    whole + 1,
                    run_end(self@.text, whole + 1, Run::Digits),
                );
            }
            reveal_with_fuel(newlines, 2);
        }
        self.take_numbers();
        let fraction = match (self.peek(), self.peek_next()) {
            (Some(dot), Some(next)) => dot == '.' && is_digit(next),
            _ => false,
        };
        if fraction {
            let _ = self.advance();
            self.take_numbers();
        }
        proof {
            use_type_invariant(&self.cursor);
        }
        text_of(&self.cursor.text, start, self.cursor.current)
    }

    /// Reads the rest of a word whose first character stands at `start`.
    fn handle_identifier(&mut self, start: usize)
        requires
            old(self)@.current == start + 1,
            alpha(old(self)@.text[start as int]),
            !digit(old(self)@.text[start as int]),
            single(old(self)@.text[start as int]) is None,
        ensures
            final(self)@ == (ScannerView { current: start as int, ..old(self)@ }).after_lexeme(),
    {
        proof {
            use_type_invariant(&self.cursor);
            lemma_run_end_bounds(self@.text, self@.current, Run::Word);
            lemma_newlines_add(
                self@.text,
                start as int,
                start + 1,
                run_end(self@.text, self@.current, Run::Word),
            );
            reveal_with_fuel(newlines, 2);
        }
        self.take_run(Run::Word);
        proof {
            use_type_invariant(&self.cursor);
        }
        let tag = word_of(&self.cursor.text, start, self.cursor.current);
        self.add_token(tag);
    }

    /// Reads on over decimal digits.
    fn take_numbers(&mut self)
        ensures
            final(self)@ == old(self)@.moved_to(
                run_end(old(self)@.text, old(self)@.current, Run::Digits),
            ),
    {
        self.take_run(Run::Digits)
    }

    /// Reads the unit of text that begins here. Where it is the spelling of
    /// a number, no token is added: the spelling is handed out, for the
    /// caller to add the token of its value with [`Scanner::add_token`].
    pub fn scan_token(&mut self) -> (number: Option<String>)
        requires
            !old(self)@.at_end(),
        ensures
            final(self)@ == old(self)@.after_lexeme(),
            number is Some == old(self)@.number_ahead() is Some,
            number matches Some(spelling) ==> old(self)@.number_ahead() == Some(spelling@),
    {
        proof {
            use_type_invariant(&self.cursor);
            reveal_with_fuel(newlines, 3);
        }
        let start = self.cursor.current;
        let c = self.advance();
        if let Some(tag) = single_token(c) {
            self.add_token(tag);
            return None;
        }
        if c == '!' || c == '=' || c == '<' || c == '>' {
            let with_equal = self.match_char('=');
            if let Some(tag) = paired_token(c, with_equal) {
                self.add_token(tag);
            }
            return None;
        }
        if c == '/' {
            if self.match_char('/') {
                proof {
                    lemma_run_end_bounds(self@.text, self@.current, Run::Line);
                    lemma_newlines_add(
                        self@.text,
                        start as int,
                        start + 2,
                        run_end(self@.text, self@.current, Run::Line),
                    );
                }
                self.take_run(Run::Line);
            } else if self.match_char('*') {
                proof {
                    lemma_comment_end_bounds(self@.text, self@.current, 0);
                    lemma_newlines_add(
                        self@.text,
                        start as int,
                        start + 2,
                        comment_end(self@.text, self@.current, 0),
                    );
                }
                self.handle_block_comment();
            } else {
                self.add_token(TokenType::Slash);
            }
            return None;
        }
        if c == '\n' {
            proof {
                use_type_invariant(&self.cursor);
            }
            self.cursor.line += 1;
            return None;
        }
        if c == '\t' || c == '\r' || c == ' ' {
            return None;
        }
        if c == '"' {
            self.handle_string(start);
            return None;
        }
        if is_digit(c) {
            return Some(self.handle_number(start));
        }
        if is_alpha(c) {
            self.handle_identifier(start);
            return None;
        }
        self.complain(SyntaxError::UnexpectedCharacter(c));
        None
    }

    /// Scans on until a number's spelling has been read, which is handed
    /// out, or until the text is used up, where the end-of-input token is
    /// added and nothing is handed out.
    pub fn scan_tokens(&mut self) -> (number: Option<String>)
        ensures
            final(self)@ == old(self)@.run().state,
            number is Some == old(self)@.run().number is Some,
            number matches Some(spelling) ==> old(self)@.run().number == Some(spelling@),
    {
        proof {
            use_type_invariant(&self.cursor);
        }
        while !self.is_at_end()
            invariant
                self@.run() == old(self)@.run(),
                0 <= self@.current,
            decreases self@.text.len() - self@.current,
        {
            proof {
                lemma_lexeme_advances(self@.text, self@.current);
            }
            let found = self.scan_token();
            if found.is_some() {
                return found;
            }
        }
        self.add_token(TokenType::EOF);
        None
    }
}

} // verus!
