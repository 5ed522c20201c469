//! Tokens: what the scanner hands to the parser.

use crate::number::Number;
use crate::text::{chars, decimal, push_decimal, push_glyphs, push_text, Glyph};
use vstd::prelude::*;

verus! {

/// The kind of a token, with the text or number it carries.
#[derive(Debug, PartialEq)]
pub enum TokenType {
    LeftParen,
    RightParen,
    LeftBrace,
    RightBrace,
    Comma,
    Dot,
    Minus,
    Plus,
    Colon,
    Semicolon,
    Slash,
    Star,
    Bang,
    BangEqual,
    Equal,
    EqualEqual,
    Greater,
    GreaterEqual,
    Less,
    LessEqual,
    Identifer(String),
    STRING(String),
    Number(Number),
    And,
    Class,
    Else,
    False,
    Fun,
    For,
    If,
    Nil,
    Or,
    Print,
    Return,
    Super,
    This,
    True,
    Var,
    While,
    EOF,
    QuestionMark,
}

/// The mathematical content of a [`TokenType`]: text as a sequence of
/// characters.
pub enum TokenTypeView {
    LeftParen,
    RightParen,
    LeftBrace,
    RightBrace,
    Comma,
    Dot,
    Minus,
    Plus,
    Colon,
    Semicolon,
    Slash,
    Star,
    Bang,
    BangEqual,
    Equal,
    EqualEqual,
    Greater,
    GreaterEqual,
    Less,
    LessEqual,
    Identifer(Seq<char>),
    STRING(Seq<char>),
    Number(Number),
    And,
    Class,
    Else,
    False,
    Fun,
    For,
    If,
    Nil,
    Or,
    Print,
    Return,
    Super,
    This,
    True,
    Var,
    While,
    EOF,
    QuestionMark,
}

/// A token kind together with the line on which the token ended.
#[derive(Debug, PartialEq)]
pub struct Token {
    pub tag: TokenType,
    pub line: usize,
}

/// The mathematical content of a [`Token`].
pub struct TokenView {
    pub tag: TokenTypeView,
    pub line: nat,
}

impl View for TokenType {
    type V = TokenTypeView;

    open spec fn view(&self) -> TokenTypeView {
        match self {
            TokenType::LeftParen => TokenTypeView::LeftParen,
            TokenType::RightParen => TokenTypeView::RightParen,
            TokenType::LeftBrace => TokenTypeView::LeftBrace,
            TokenType::RightBrace => TokenTypeView::RightBrace,
            TokenType::Comma => TokenTypeView::Comma,
            TokenType::Dot => TokenTypeView::Dot,
            TokenType::Minus => TokenTypeView::Minus,
            TokenType::Plus => TokenTypeView::Plus,
            TokenType::Colon => TokenTypeView::Colon,
            TokenType::Semicolon => TokenTypeView::Semicolon,
            TokenType::Slash => TokenTypeView::Slash,
            TokenType::Star => TokenTypeView::Star,
            TokenType::Bang => TokenTypeView::Bang,
            TokenType::BangEqual => TokenTypeView::BangEqual,
            TokenType::Equal => TokenTypeView::Equal,
            TokenType::EqualEqual => TokenTypeView::EqualEqual,
            TokenType::Greater => TokenTypeView::Greater,
            TokenType::GreaterEqual => TokenTypeView::GreaterEqual,
            TokenType::Less => TokenTypeView::Less,
            TokenType::LessEqual => TokenTypeView::LessEqual,
            TokenType::Identifer(s) => TokenTypeView::Identifer(s@),
            TokenType::STRING(s) => TokenTypeView::STRING(s@),
            TokenType::Number(n) => TokenTypeView::Number(*n),
            TokenType::And => TokenTypeView::And,
            TokenType::Class => TokenTypeView::Class,
            TokenType::Else => TokenTypeView::Else,
            TokenType::False => TokenTypeView::False,
            TokenType::Fun => TokenTypeView::Fun,
            TokenType::For => TokenTypeView::For,
            TokenType::If => TokenTypeView::If,
            TokenType::Nil => TokenTypeView::Nil,
            TokenType::Or => TokenTypeView::Or,
            TokenType::Print => TokenTypeView::Print,
            TokenType::Return => TokenTypeView::Return,
            TokenType::Super => TokenTypeView::Super,
            TokenType::This => TokenTypeView::This,
            TokenType::True => TokenTypeView::True,
            TokenType::Var => TokenTypeView::Var,
            TokenType::While => TokenTypeView::While,
            TokenType::EOF => TokenTypeView::EOF,
            TokenType::QuestionMark => TokenTypeView::QuestionMark,
        }
    }
}

impl View for Token {
    type V = TokenView;

    open spec fn view(&self) -> TokenView {
        TokenView { tag: self.tag@, line: self.line as nat }
    }
}

/// The mathematical content of each token of a sequence.
pub open spec fn token_views(tokens: Seq<Token>) -> Seq<TokenView> {
    tokens.map_values(|t: Token| t@)
}

/// The glyph that stands for a number.
pub open spec fn number_glyph(n: Number) -> Glyph {
    Glyph::Number(n)
}

impl TokenTypeView {
    /// The fixed spelling of a kind that carries nothing.
    pub open spec fn symbol(self) -> Option<Seq<char>> {
        match self {
            TokenTypeView::LeftParen => Some("("@),
            TokenTypeView::RightParen => Some(")"@),
            TokenTypeView::LeftBrace => Some("{"@),
            TokenTypeView::RightBrace => Some("}"@),
            TokenTypeView::Comma => Some(","@),
            TokenTypeView::Dot => Some("."@),
            TokenTypeView::Minus => Some("-"@),
            TokenTypeView::Plus => Some("+"@),
            TokenTypeView::Colon => Some(":"@),
            TokenTypeView::Semicolon => Some(";"@),
            TokenTypeView::Slash => Some("/"@),
            TokenTypeView::Star => Some("*"@),
            TokenTypeView::Bang => Some("!"@),
            TokenTypeView::BangEqual => Some("!="@),
            TokenTypeView::Equal => Some("="@),
            TokenTypeView::EqualEqual => Some("=="@),
            TokenTypeView::Greater => Some(">"@),
            TokenTypeView::GreaterEqual => Some(">="@),
            TokenTypeView::Less => Some("<"@),
            TokenTypeView::LessEqual => Some("<="@),
            TokenTypeView::And => Some("and"@),
            TokenTypeView::Class => Some("class"@),
            TokenTypeView::Else => Some("else"@),
            TokenTypeView::False => Some("false"@),
            TokenTypeView::Fun => Some("fun"@),
            TokenTypeView::For => Some("for"@),
            TokenTypeView::If => Some("if"@),
            TokenTypeView::Nil => Some("nil"@),
            TokenTypeView::Or => Some("or"@),
            TokenTypeView::Print => Some("print"@),
            TokenTypeView::Return => Some("return"@),
            TokenTypeView::Super => Some("super"@),
            TokenTypeView::This => Some("this"@),
            TokenTypeView::True => Some("true"@),
            TokenTypeView::Var => Some("var"@),
            TokenTypeView::While => Some("while"@),
            TokenTypeView::EOF => Some("EOF"@),
            TokenTypeView::QuestionMark => Some("?"@),
            TokenTypeView::Identifer(_) => None,
            TokenTypeView::STRING(_) => None,
            TokenTypeView::Number(_) => None,
        }
    }

    /// How a kind is written: its fixed spelling, the text it carries, or
    /// the number it carries.
    pub open spec fn text(self) -> Seq<Glyph> {
        match self {
            TokenTypeView::Identifer(s) => chars(s),
            TokenTypeView::STRING(s) => chars(s),
            TokenTypeView::Number(n) => seq![number_glyph(n)],
            _ => chars(self.symbol().unwrap()),
        }
    }

    /// The name carried by an identifier.
    pub open spec fn identifier(self) -> Option<Seq<char>> {
        match self {
            TokenTypeView::Identifer(s) => Some(s),
            _ => None,
        }
    }
}

impl TokenView {
    /// A token is written as its kind and its line, in parentheses.
    pub open spec fn text(self) -> Seq<Glyph> {
        chars("("@) + self.tag.text() + chars(", "@) + chars(decimal(self.line)) + chars(
            ")"@,
        )
    }
}

impl Clone for TokenType {
    fn clone(&self) -> (r: Self)
        ensures
            r == *self,
    {
        match self {
            TokenType::LeftParen => TokenType::LeftParen,
            TokenType::RightParen => TokenType::RightParen,
            TokenType::LeftBrace => TokenType::LeftBrace,
            TokenType::RightBrace => TokenType::RightBrace,
            TokenType::Comma => TokenType::Comma,
            TokenType::Dot => TokenType::Dot,
            TokenType::Minus => TokenType::Minus,
            TokenType::Plus => TokenType::Plus,
            TokenType::Colon => TokenType::Colon,
            TokenType::Semicolon => TokenType::Semicolon,
            TokenType::Slash => TokenType::Slash,
            TokenType::Star => TokenType::Star,
            TokenType::Bang => TokenType::Bang,
            TokenType::BangEqual => TokenType::BangEqual,
            TokenType::Equal => TokenType::Equal,
            TokenType::EqualEqual => TokenType::EqualEqual,
            TokenType::Greater => TokenType::Greater,
            TokenType::GreaterEqual => TokenType::GreaterEqual,
            TokenType::Less => TokenType::Less,
            TokenType::LessEqual => TokenType::LessEqual,
            TokenType::Identifer(s) => TokenType::Identifer(s.clone()),
            TokenType::STRING(s) => TokenType::STRING(s.clone()),
            TokenType::Number(n) => TokenType::Number(*n),
            TokenType::And => TokenType::And,
            TokenType::Class => TokenType::Class,
            TokenType::Else => TokenType::Else,
            TokenType::False => TokenType::False,
            TokenType::Fun => TokenType::Fun,
            TokenType::For => TokenType::For,
            TokenType::If => TokenType::If,
            TokenType::Nil => TokenType::Nil,
            TokenType::Or => TokenType::Or,
            TokenType::Print => TokenType::Print,
            TokenType::Return => TokenType::Return,
            TokenType::Super => TokenType::Super,
            TokenType::This => TokenType::This,
            TokenType::True => TokenType::True,
            TokenType::Var => TokenType::Var,
            TokenType::While => TokenType::While,
            TokenType::EOF => TokenType::EOF,
            TokenType::QuestionMark => TokenType::QuestionMark,
        }
    }
}

impl Clone for Token {
    fn clone(&self) -> (r: Self)
        ensures
            r == *self,
    {
        Token { tag: self.tag.clone(), line: self.line }
    }
}

impl TokenType {
    /// The fixed spelling of a kind that carries nothing.
    pub fn symbol(&self) -> (r: Option<&'static str>)
        ensures
            r is Some == self@.symbol() is Some,
            r matches Some(s) ==> self@.symbol() == Some(s@),
    {
        match self {
            TokenType::LeftParen => Some("("),
            TokenType::RightParen => Some(")"),
            TokenType::LeftBrace => Some("{"),
            TokenType::RightBrace => Some("}"),
            TokenType::Comma => Some(","),
            TokenType::Dot => Some("."),
            TokenType::Minus => Some("-"),
            TokenType::Plus => Some("+"),
            TokenType::Colon => Some(":"),
            TokenType::Semicolon => Some(";"),
            TokenType::Slash => Some("/"),
            TokenType::Star => Some("*"),
            TokenType::Bang => Some("!"),
            TokenType::BangEqual => Some("!="),
            TokenType::Equal => Some("="),
            TokenType::EqualEqual => Some("=="),
            TokenType::Greater => Some(">"),
            TokenType::GreaterEqual => Some(">="),
            TokenType::Less => Some("<"),
            TokenType::LessEqual => Some("<="),
            TokenType::And => Some("and"),
            TokenType::Class => Some("class"),
            TokenType::Else => Some("else"),
            TokenType::False => Some("false"),
            TokenType::Fun => Some("fun"),
            TokenType::For => Some("for"),
            TokenType::If => Some("if"),
            TokenType::Nil => Some("nil"),
            TokenType::Or => Some("or"),
            TokenType::Print => Some("print"),
            TokenType::Return => Some("return"),
            TokenType::Super => Some("super"),
            TokenType::This => Some("this"),
            TokenType::True => Some("true"),
            TokenType::Var => Some("var"),
            TokenType::While => Some("while"),
            TokenType::EOF => Some("EOF"),
            TokenType::QuestionMark => Some("?"),
            TokenType::Identifer(_) => None,
            TokenType::STRING(_) => None,
            TokenType::Number(_) => None,
        }
    }

    /// How the kind is written.
    pub fn text(&self) -> (r: Vec<Glyph>)
        ensures
            r@ == self@.text(),
    {
        let mut out: Vec<Glyph> = Vec::new();
        match self {
            TokenType::Identifer(s) => push_text(&mut out, s.as_str()),
            TokenType::STRING(s) => push_text(&mut out, s.as_str()),
            TokenType::Number(n) => out.push(Glyph::Number(*n)),
            _ => {
                match self.symbol() {
                    Some(s) => push_text(&mut out, s),
                    None => {},
                }
            },
        }
        out
    }

    /// Whether two kinds are the same kind and carry the same content.
    pub fn is(&self, other: &TokenType) -> (r: bool)
        ensures
            r == (self@ == other@),
    {
        match (self, other) {
            (TokenType::LeftParen, TokenType::LeftParen) => true,
            (TokenType::RightParen, TokenType::RightParen) => true,
            (TokenType::LeftBrace, TokenType::LeftBrace) => true,
            (TokenType::RightBrace, TokenType::RightBrace) => true,
            (TokenType::Comma, TokenType::Comma) => true,
            (TokenType::Dot, TokenType::Dot) => true,
            (TokenType::Minus, TokenType::Minus) => true,
            (TokenType::Plus, TokenType::Plus) => true,
            (TokenType::Colon, TokenType::Colon) => true,
            (TokenType::Semicolon, TokenType::Semicolon) => true,
            (TokenType::Slash, TokenType::Slash) => true,
            (TokenType::Star, TokenType::Star) => true,
            (TokenType::Bang, TokenType::Bang) => true,
            (TokenType::BangEqual, TokenType::BangEqual) => true,
            (TokenType::Equal, TokenType::Equal) => true,
            (TokenType::EqualEqual, TokenType::EqualEqual) => true,
            (TokenType::Greater, TokenType::Greater) => true,
            (TokenType::GreaterEqual, TokenType::GreaterEqual) => true,
            (TokenType::Less, TokenType::Less) => true,
            (TokenType::LessEqual, TokenType::LessEqual) => true,
            (TokenType::And, TokenType::And) => true,
            (TokenType::Class, TokenType::Class) => true,
            (TokenType::Else, TokenType::Else) => true,
            (TokenType::False, TokenType::False) => true,
            (TokenType::Fun, TokenType::Fun) => true,
            (TokenType::For, TokenType::For) => true,
            (TokenType::If, TokenType::If) => true,
            (TokenType::Nil, TokenType::Nil) => true,
            (TokenType::Or, TokenType::Or) => true,
            (TokenType::Print, TokenType::Print) => true,
            (TokenType::Return, TokenType::Return) => true,
            (TokenType::Super, TokenType::Super) => true,
            (TokenType::This, TokenType::This) => true,
            (TokenType::True, TokenType::True) => true,
            (TokenType::Var, TokenType::Var) => true,
            (TokenType::While, TokenType::While) => true,
            (TokenType::EOF, TokenType::EOF) => true,
            (TokenType::QuestionMark, TokenType::QuestionMark) => true,
            (TokenType::Identifer(a), TokenType::Identifer(b)) => *a == *b,
            (TokenType::STRING(a), TokenType::STRING(b)) => *a == *b,
            (TokenType::Number(a), TokenType::Number(b)) => a.bits == b.bits,
            _ => false,
        }
    }

    /// The name carried by an identifier, and nothing for any other kind.
    pub fn get_identifier_value(&self) -> (r: Option<String>)
        ensures
            r is Some == self@.identifier() is Some,
            r matches Some(s) ==> self@.identifier() == Some(s@),
    {
        match self {
            TokenType::Identifer(s) => Some(s.clone()),
            _ => None,
        }
    }
}

impl Token {
    pub fn new(tag: TokenType, line: usize) -> (r: Self)
        ensures
            r.tag == tag,
            r.line == line,
    {
        Self { tag, line }
    }

    /// How the token is written: `(kind, line)`.
    pub fn text(&self) -> (r: Vec<Glyph>)
        ensures
            r@ == self@.text(),
    {
        let mut out: Vec<Glyph> = Vec::new();
        push_text(&mut out, "(");
        let tag = self.tag.text();
        push_glyphs(&mut out, &tag);
        push_text(&mut out, ", ");
        push_decimal(&mut out, self.line);
        push_text(&mut out, ")");
        out
    }
}

} // verus!
