//! What scanning makes of text of particular shapes.

use crate::expr::LiteralView;
use crate::number::Number;
use crate::scanner::{
    alpha, digit, keyword, lemma_lexeme_advances, lemma_no_newlines, lemma_run_over,
    lemma_run_reads_on, lexeme_at, newlines, number_end, paired, single, word_token,
    Found, Lexeme, Run, ScannerView,
};
use crate::token::{TokenTypeView, TokenView};
use vstd::prelude::*;

verus! {

/// Text of letters, digits and underscores alone.
pub open spec fn plain(text: Seq<char>) -> bool {
    forall|i: int| 0 <= i < text.len() ==> Run::Word.takes(#[trigger] text[i])
}

/// Digits alone, and at least one.
pub open spec fn digits(text: Seq<char>) -> bool {
    text.len() > 0 && forall|i: int| 0 <= i < text.len() ==> digit(#[trigger] text[i])
}

/// The spelling of a number with the whole part `whole` and, where
/// `fraction` is not empty, the fraction `fraction`.
pub open spec fn spelling(whole: Seq<char>, fraction: Seq<char>) -> Seq<char> {
    if fraction.len() == 0 {
        whole
    } else {
        whole + "."@ + fraction
    }
}

/// Whether `text` is the spelling of a number: digits, with or without a
/// dot and more digits behind them.
pub open spec fn spells_number(text: Seq<char>) -> bool {
    exists|whole: Seq<char>, fraction: Seq<char>|
        digits(whole) && (fraction.len() == 0 || digits(fraction)) && #[trigger] spelling(
            whole,
            fraction,
        ) == text
}

/// The word for a value that is written as a keyword.
pub open spec fn word(value: LiteralView) -> Seq<char> {
    match value {
        LiteralView::True => "true"@,
        LiteralView::False => "false"@,
        _ => "nil"@,
    }
}

/// The keyword that stands for a value that is written as one.
pub open spec fn keyword_of(value: LiteralView) -> TokenTypeView {
    match value {
        LiteralView::True => TokenTypeView::True,
        LiteralView::False => TokenTypeView::False,
        _ => TokenTypeView::Nil,
    }
}

/// A scanner in `text`, on line 0 and with nothing reported, that has read
/// `current` characters into `tokens`.
pub open spec fn standing(text: Seq<char>, current: int, tokens: Seq<TokenView>) -> ScannerView {
    ScannerView { text, tokens, diagnostics: Seq::empty(), current, line: 0 }
}

/// Whether `text` holds `part` from `at` on.
pub open spec fn holds(text: Seq<char>, at: int, part: Seq<char>) -> bool {
    0 <= at && at + part.len() <= text.len() && text.subrange(at, at + part.len()) == part
}

/// Whether `text` ends at `at` or goes on there with a character that
/// satisfies `admits`.
pub open spec fn goes_on(text: Seq<char>, at: int, admits: spec_fn(char) -> bool) -> bool {
    at >= text.len() || (0 <= at && admits(text[at]))
}

/// Scanning to the end from `state`, the recursion kept out of sight.
#[verifier::opaque]
pub open spec fn finished(
    state: ScannerView,
    value_of: spec_fn(Seq<char>) -> Option<Number>,
) -> ScannerView {
    state.finish(value_of)
}

/// `print` is a keyword.
pub proof fn lemma_print_is_a_keyword()
    ensures
        word_token("print"@) == TokenTypeView::Print,
        plain("print"@) && alpha("print"@[0]) && "print"@.len() == 5,
{
    reveal_strlit("and");
    reveal_strlit("class");
    reveal_strlit("else");
    reveal_strlit("false");
    reveal_strlit("fun");
    reveal_strlit("for");
    reveal_strlit("if");
    reveal_strlit("nil");
    reveal_strlit("or");
    reveal_strlit("print");
    reveal_strlit("return");
    reveal_strlit("super");
    reveal_strlit("this");
    reveal_strlit("true");
    reveal_strlit("var");
    reveal_strlit("while");
    assert("print"@ != "and"@) by {
        assert("print"@.len() != "and"@.len());
    }
    assert("print"@ != "class"@) by {
        assert("print"@[0] != "class"@[0]);
    }
    assert("print"@ != "else"@) by {
        assert("print"@.len() != "else"@.len());
    }
    assert("print"@ != "false"@) by {
        assert("print"@[0] != "false"@[0]);
    }
    assert("print"@ != "fun"@) by {
        assert("print"@.len() != "fun"@.len());
    }
    assert("print"@ != "for"@) by {
        assert("print"@.len() != "for"@.len());
    }
    assert("print"@ != "if"@) by {
        assert("print"@.len() != "if"@.len());
    }
    assert("print"@ != "nil"@) by {
        assert("print"@.len() != "nil"@.len());
    }
    assert("print"@ != "or"@) by {
        assert("print"@.len() != "or"@.len());
    }
    assert(Run::Word.takes("print"@[0]));
    assert(Run::Word.takes("print"@[1]));
    assert(Run::Word.takes("print"@[2]));
    assert(Run::Word.takes("print"@[3]));
    assert(Run::Word.takes("print"@[4]));
}

/// `var` is a keyword.
pub proof fn lemma_var_is_a_keyword()
    ensures
        word_token("var"@) == TokenTypeView::Var,
        plain("var"@) && alpha("var"@[0]) && "var"@.len() == 3,
{
    reveal_strlit("and");
    reveal_strlit("class");
    reveal_strlit("else");
    reveal_strlit("false");
    reveal_strlit("fun");
    reveal_strlit("for");
    reveal_strlit("if");
    reveal_strlit("nil");
    reveal_strlit("or");
    reveal_strlit("print");
    reveal_strlit("return");
    reveal_strlit("super");
    reveal_strlit("this");
    reveal_strlit("true");
    reveal_strlit("var");
    reveal_strlit("while");
    assert("var"@ != "and"@) by {
        assert("var"@[0] != "and"@[0]);
    }
    assert("var"@ != "class"@) by {
        assert("var"@.len() != "class"@.len());
    }
    assert("var"@ != "else"@) by {
        assert("var"@.len() != "else"@.len());
    }
    assert("var"@ != "false"@) by {
        assert("var"@.len() != "false"@.len());
    }
    assert("var"@ != "fun"@) by {
        assert("var"@[0] != "fun"@[0]);
    }
    assert("var"@ != "for"@) by {
        assert("var"@[0] != "for"@[0]);
    }
    assert("var"@ != "if"@) by {
        assert("var"@.len() != "if"@.len());
    }
    assert("var"@ != "nil"@) by {
        assert("var"@[0] != "nil"@[0]);
    }
    assert("var"@ != "or"@) by {
        assert("var"@.len() != "or"@.len());
    }
    assert("var"@ != "print"@) by {
        assert("var"@.len() != "print"@.len());
    }
    assert("var"@ != "return"@) by {
        assert("var"@.len() != "return"@.len());
    }
    assert("var"@ != "super"@) by {
        assert("var"@.len() != "super"@.len());
    }
    assert("var"@ != "this"@) by {
        assert("var"@.len() != "this"@.len());
    }
    assert("var"@ != "true"@) by {
        assert("var"@.len() != "true"@.len());
    }
    assert(Run::Word.takes("var"@[0]));
    assert(Run::Word.takes("var"@[1]));
    assert(Run::Word.takes("var"@[2]));
}

/// `true`, `false` and `nil` are keywords.
pub proof fn lemma_values_are_keywords(value: LiteralView)
    requires
        value is True || value is False || value is Nil,
    ensures
        word_token(word(value)) == keyword_of(value),
        plain(word(value)) && alpha(word(value)[0]) && word(value).len() >= 3,
{
    reveal_strlit("and");
    reveal_strlit("class");
    reveal_strlit("else");
    reveal_strlit("false");
    reveal_strlit("fun");
    reveal_strlit("for");
    reveal_strlit("if");
    reveal_strlit("nil");
    reveal_strlit("or");
    reveal_strlit("print");
    reveal_strlit("return");
    reveal_strlit("super");
    reveal_strlit("this");
    reveal_strlit("true");
    reveal_strlit("var");
    reveal_strlit("while");
    if value is True {
        assert("true"@ != "and"@) by {
            assert("true"@.len() != "and"@.len());
        }
        assert("true"@ != "class"@) by {
            assert("true"@.len() != "class"@.len());
        }
        assert("true"@ != "else"@) by {
            assert("true"@[0] != "else"@[0]);
        }
        assert("true"@ != "false"@) by {
            assert("true"@.len() != "false"@.len());
        }
        assert("true"@ != "fun"@) by {
            assert("true"@.len() != "fun"@.len());
        }
        assert("true"@ != "for"@) by {
            assert("true"@.len() != "for"@.len());
        }
        assert("true"@ != "if"@) by {
            assert("true"@.len() != "if"@.len());
        }
        assert("true"@ != "nil"@) by {
            assert("true"@.len() != "nil"@.len());
        }
        assert("true"@ != "or"@) by {
            assert("true"@.len() != "or"@.len());
        }
        assert("true"@ != "print"@) by {
            assert("true"@.len() != "print"@.len());
        }
        assert("true"@ != "return"@) by {
            assert("true"@.len() != "return"@.len());
        }
        assert("true"@ != "super"@) by {
            assert("true"@.len() != "super"@.len());
        }
        assert("true"@ != "this"@) by {
            assert("true"@[1] != "this"@[1]);
        }
        assert(Run::Word.takes("true"@[0]));
        assert(Run::Word.takes("true"@[1]));
        assert(Run::Word.takes("true"@[2]));
        assert(Run::Word.takes("true"@[3]));
    } else if value is False {
        assert("false"@ != "and"@) by {
            assert("false"@.len() != "and"@.len());
        }
        assert("false"@ != "class"@) by {
            assert("false"@[0] != "class"@[0]);
        }
        assert("false"@ != "else"@) by {
            assert("false"@.len() != "else"@.len());
        }
        assert(Run::Word.takes("false"@[0]));
        assert(Run::Word.takes("false"@[1]));
        assert(Run::Word.takes("false"@[2]));
        assert(Run::Word.takes("false"@[3]));
        assert(Run::Word.takes("false"@[4]));
    } else {
        assert("nil"@ != "and"@) by {
            assert("nil"@[0] != "and"@[0]);
        }
        assert("nil"@ != "class"@) by {
            assert("nil"@.len() != "class"@.len());
        }
        assert("nil"@ != "else"@) by {
            assert("nil"@.len() != "else"@.len());
        }
        assert("nil"@ != "false"@) by {
            assert("nil"@.len() != "false"@.len());
        }
        assert("nil"@ != "fun"@) by {
            assert("nil"@[0] != "fun"@[0]);
        }
        assert("nil"@ != "for"@) by {
            assert("nil"@[0] != "for"@[0]);
        }
        assert("nil"@ != "if"@) by {
            assert("nil"@.len() != "if"@.len());
        }
        assert(Run::Word.takes("nil"@[0]));
        assert(Run::Word.takes("nil"@[1]));
        assert(Run::Word.takes("nil"@[2]));
    }
}

/// `a` and `b` are identifiers, and not the same.
pub proof fn lemma_a_and_b_are_identifiers()
    ensures
        word_token("a"@) == TokenTypeView::Identifer("a"@),
        word_token("b"@) == TokenTypeView::Identifer("b"@),
        plain("a"@) && alpha("a"@[0]) && "a"@.len() == 1,
        plain("b"@) && alpha("b"@[0]) && "b"@.len() == 1,
        "a"@ != "b"@,
{
    reveal_strlit("and");
    reveal_strlit("class");
    reveal_strlit("else");
    reveal_strlit("false");
    reveal_strlit("fun");
    reveal_strlit("for");
    reveal_strlit("if");
    reveal_strlit("nil");
    reveal_strlit("or");
    reveal_strlit("print");
    reveal_strlit("return");
    reveal_strlit("super");
    reveal_strlit("this");
    reveal_strlit("true");
    reveal_strlit("var");
    reveal_strlit("while");
    reveal_strlit("a");
    reveal_strlit("b");
    assert("a"@ != "and"@) by {
        assert("a"@.len() != "and"@.len());
    }
    assert("a"@ != "class"@) by {
        assert("a"@.len() != "class"@.len());
    }
    assert("a"@ != "else"@) by {
        assert("a"@.len() != "else"@.len());
    }
    assert("a"@ != "false"@) by {
        assert("a"@.len() != "false"@.len());
    }
    assert("a"@ != "fun"@) by {
        assert("a"@.len() != "fun"@.len());
    }
    assert("a"@ != "for"@) by {
        assert("a"@.len() != "for"@.len());
    }
    assert("a"@ != "if"@) by {
        assert("a"@.len() != "if"@.len());
    }
    assert("a"@ != "nil"@) by {
        assert("a"@.len() != "nil"@.len());
    }
    assert("a"@ != "or"@) by {
        assert("a"@.len() != "or"@.len());
    }
    assert("a"@ != "print"@) by {
        assert("a"@.len() != "print"@.len());
    }
    assert("a"@ != "return"@) by {
        assert("a"@.len() != "return"@.len());
    }
    assert("a"@ != "super"@) by {
        assert("a"@.len() != "super"@.len());
    }
    assert("a"@ != "this"@) by {
        assert("a"@.len() != "this"@.len());
    }
    assert("a"@ != "true"@) by {
        assert("a"@.len() != "true"@.len());
    }
    assert("a"@ != "var"@) by {
        assert("a"@.len() != "var"@.len());
    }
    assert("a"@ != "while"@) by {
        assert("a"@.len() != "while"@.len());
    }
    assert("b"@ != "and"@) by {
        assert("b"@.len() != "and"@.len());
    }
    assert("b"@ != "class"@) by {
        assert("b"@.len() != "class"@.len());
    }
    assert("b"@ != "else"@) by {
        assert("b"@.len() != "else"@.len());
    }
    assert("b"@ != "false"@) by {
        assert("b"@.len() != "false"@.len());
    }
    assert("b"@ != "fun"@) by {
        assert("b"@.len() != "fun"@.len());
    }
    assert("b"@ != "for"@) by {
        assert("b"@.len() != "for"@.len());
    }
    assert("b"@ != "if"@) by {
        assert("b"@.len() != "if"@.len());
    }
    assert("b"@ != "nil"@) by {
        assert("b"@.len() != "nil"@.len());
    }
    assert("b"@ != "or"@) by {
        assert("b"@.len() != "or"@.len());
    }
    assert("b"@ != "print"@) by {
        assert("b"@.len() != "print"@.len());
    }
    assert("b"@ != "return"@) by {
        assert("b"@.len() != "return"@.len());
    }
    assert("b"@ != "super"@) by {
        assert("b"@.len() != "super"@.len());
    }
    assert("b"@ != "this"@) by {
        assert("b"@.len() != "this"@.len());
    }
    assert("b"@ != "true"@) by {
        assert("b"@.len() != "true"@.len());
    }
    assert("b"@ != "var"@) by {
        assert("b"@.len() != "var"@.len());
    }
    assert("b"@ != "while"@) by {
        assert("b"@.len() != "while"@.len());
    }
    assert("a"@[0] == 'a' && "b"@[0] == 'b');
}

/// Scanning to the end from a unit that is no number's spelling is
/// scanning to the end from behind it.
proof fn lemma_finish_passes(state: ScannerView, value_of: spec_fn(Seq<char>) -> Option<Number>)
    requires
        0 <= state.current < state.text.len(),
        state.number_ahead() is None,
    ensures
        finished(state, value_of) == finished(state.after_lexeme(), value_of),
{
    reveal(finished);
    lemma_lexeme_advances(state.text, state.current);
    let next = state.after_lexeme();
    assert(state.run() == next.run());
    reveal_with_fuel(ScannerView::finish, 2);
    lemma_run_reads_on(next);
}

/// A scanner that stands at the end of its text adds the end-of-input token
/// and is done.
pub proof fn lemma_end_is_reached(
    state: ScannerView,
    value_of: spec_fn(Seq<char>) -> Option<Number>,
)
    requires
        state.at_end(),
    ensures
        finished(state, value_of) == state.with_token(TokenTypeView::EOF),
{
    reveal(finished);
    reveal_with_fuel(ScannerView::finish, 1);
}

/// A scanner that stands on a space passes over it.
pub proof fn lemma_space_is_passed(
    state: ScannerView,
    value_of: spec_fn(Seq<char>) -> Option<Number>,
)
    requires
        0 <= state.current < state.text.len(),
        state.text[state.current] == ' ',
    ensures
        finished(state, value_of) == finished(
            ScannerView { current: state.current + 1, ..state },
            value_of,
        ),
{
    reveal_with_fuel(newlines, 2);
    lemma_finish_passes(state, value_of);
}

/// A scanner that stands on a character which is a token by itself, or on a
/// `/` that begins no comment, reads that token.
pub proof fn lemma_sign_is_read(
    state: ScannerView,
    tag: TokenTypeView,
    value_of: spec_fn(Seq<char>) -> Option<Number>,
)
    requires
        0 <= state.current < state.text.len(),
        single(state.text[state.current]) == Some(tag) || (tag is Slash
            && state.text[state.current] == '/' && goes_on(
            state.text,
            state.current + 1,
            |c: char| c != '/' && c != '*',
        )),
    ensures
        finished(state, value_of) == finished(
            ScannerView {
                current: state.current + 1,
                tokens: state.tokens.push(TokenView { tag, line: state.line }),
                ..state
            },
            value_of,
        ),
{
    reveal_with_fuel(newlines, 2);
    lemma_finish_passes(state, value_of);
}

/// A scanner that stands on a `=` that no other `=` follows reads the token
/// of assignment.
pub proof fn lemma_equal_is_read(
    state: ScannerView,
    value_of: spec_fn(Seq<char>) -> Option<Number>,
)
    requires
        0 <= state.current < state.text.len(),
        state.text[state.current] == '=',
        goes_on(state.text, state.current + 1, |c: char| c != '='),
    ensures
        finished(state, value_of) == finished(
            ScannerView {
                current: state.current + 1,
                tokens: state.tokens.push(
                    TokenView { tag: TokenTypeView::Equal, line: state.line },
                ),
                ..state
            },
            value_of,
        ),
{
    reveal_with_fuel(newlines, 2);
    lemma_finish_passes(state, value_of);
}

/// A scanner that stands on the opening quote of a string without a quote
/// or a newline inside reads the string.
pub proof fn lemma_string_is_read(
    state: ScannerView,
    content: Seq<char>,
    value_of: spec_fn(Seq<char>) -> Option<Number>,
)
    requires
        0 <= state.current < state.text.len(),
        state.text[state.current] == '"',
        holds(state.text, state.current + 1, content),
        state.current + 1 + content.len() < state.text.len(),
        state.text[state.current + 1 + content.len()] == '"',
        plain(content),
    ensures
        finished(state, value_of) == finished(
            ScannerView {
                current: state.current + content.len() + 2,
                tokens: state.tokens.push(
                    TokenView { tag: TokenTypeView::STRING(content), line: state.line },
                ),
                ..state
            },
            value_of,
        ),
{
    let text = state.text;
    let open = state.current;
    let close = open + 1 + content.len();
    assert forall|i: int| open + 1 <= i < close implies Run::Quoted.takes(#[trigger] text[i])
        && text[i] != '\n' by {
        assert(text[i] == content[i - (open + 1)]);
        assert(Run::Word.takes(content[i - (open + 1)]));
    }
    lemma_run_over(text, open + 1, close, Run::Quoted);
    assert forall|i: int| open <= i < close + 1 implies #[trigger] text[i] != '\n' by {
        if open + 1 <= i < close {
            assert(Run::Quoted.takes(text[i]) && text[i] != '\n');
        }
    }
    lemma_no_newlines(text, open, close + 1);
    lemma_finish_passes(state, value_of);
}

/// A scanner that stands on a word reads the word: as its keyword, or as an
/// identifier.
pub proof fn lemma_word_is_read(
    state: ScannerView,
    word: Seq<char>,
    value_of: spec_fn(Seq<char>) -> Option<Number>,
)
    requires
        holds(state.text, state.current, word),
        word.len() > 0,
        alpha(word[0]),
        plain(word),
        goes_on(state.text, state.current + word.len(), |c: char| !Run::Word.takes(c)),
    ensures
        finished(state, value_of) == finished(
            ScannerView {
                current: state.current + word.len(),
                tokens: state.tokens.push(TokenView { tag: word_token(word), line: state.line }),
                ..state
            },
            value_of,
        ),
{
    let text = state.text;
    let from = state.current;
    let to = from + word.len();
    assert forall|i: int| from <= i < to implies Run::Word.takes(#[trigger] text[i]) && text[i]
        != '\n' by {
        assert(text[i] == word[i - from]);
        assert(Run::Word.takes(word[i - from]));
    }
    assert(text[from] == word[0]);
    lemma_run_over(text, from + 1, to, Run::Word);
    lemma_no_newlines(text, from, to);
    assert(single(text[from]) is None);
    assert(paired(text[from], true) is None);
    assert(paired(text[from], false) is None);
    lemma_finish_passes(state, value_of);
}

/// The spelling of a number, standing in a text where neither a digit nor a
/// dot follows it, is one unit of that text.
proof fn lemma_spelling_is_one_lexeme(
    text: Seq<char>,
    from: int,
    whole: Seq<char>,
    fraction: Seq<char>,
)
    requires
        digits(whole),
        fraction.len() == 0 || digits(fraction),
        holds(text, from, spelling(whole, fraction)),
        goes_on(text, from + spelling(whole, fraction).len(), |c: char| !digit(c) && c != '.'),
    ensures
        lexeme_at(text, from) == (Lexeme {
            end: from + spelling(whole, fraction).len(),
            found: Found::Number(spelling(whole, fraction)),
        }),
        newlines(text, from, from + spelling(whole, fraction).len()) == 0,
        spelling(whole, fraction).len() > 0,
{
    let spelled = spelling(whole, fraction);
    let n = whole.len() as int;
    let to = from + spelled.len();
    reveal_strlit(".");
    assert forall|i: int| from <= i < to implies text[i] == #[trigger] spelled[i - from] by {
        assert(text.subrange(from, to)[i - from] == text[i]);
    }
    assert(text[from] == spelled[0 as int]);
    assert(spelled[0] == whole[0]);
    assert forall|i: int| from <= i < from + n implies Run::Digits.takes(#[trigger] text[i]) by {
        assert(text[i] == spelled[i - from]);
        assert(spelled[i - from] == whole[i - from]);
    }
    if fraction.len() > 0 {
        assert(text[from + n] == spelled[n]);
        assert(spelled[n] == '.');
        lemma_run_over(text, from + 1, from + n, Run::Digits);
        assert forall|i: int| from + n + 1 <= i < to implies Run::Digits.takes(
            #[trigger] text[i],
        ) by {
            assert(text[i] == spelled[i - from]);
            assert(spelled[i - from] == fraction[i - from - n - 1]);
        }
        assert(text[from + n + 1] == spelled[n + 1]);
        assert(spelled[n + 1] == fraction[0]);
        lemma_run_over(text, from + n + 1, to, Run::Digits);
    } else {
        lemma_run_over(text, from + 1, to, Run::Digits);
    }
    assert(number_end(text, from) == to);
    assert forall|i: int| from <= i < to implies #[trigger] text[i] != '\n' by {
        assert(text[i] == spelled[i - from]);
        if i - from < n {
            assert(spelled[i - from] == whole[i - from]);
        } else if i - from > n {
            assert(spelled[i - from] == fraction[i - from - n - 1]);
        }
    }
    lemma_no_newlines(text, from, to);
    assert(single(text[from]) is None);
    assert(paired(text[from], true) is None);
    assert(paired(text[from], false) is None);
}

/// A scanner that stands on the spelling of a number reads the number that
/// `value_of` makes of the spelling.
pub proof fn lemma_number_is_read(
    state: ScannerView,
    spelled: Seq<char>,
    n: Number,
    value_of: spec_fn(Seq<char>) -> Option<Number>,
)
    requires
        spells_number(spelled),
        value_of(spelled) == Some(n),
        holds(state.text, state.current, spelled),
        goes_on(state.text, state.current + spelled.len(), |c: char| !digit(c) && c != '.'),
    ensures
        finished(state, value_of) == finished(
            ScannerView {
                current: state.current + spelled.len(),
                tokens: state.tokens.push(
                    TokenView { tag: TokenTypeView::Number(n), line: state.line },
                ),
                ..state
            },
            value_of,
        ),
{
    let (whole, fraction) = choose|whole: Seq<char>, fraction: Seq<char>|
        digits(whole) && (fraction.len() == 0 || digits(fraction)) && #[trigger] spelling(
            whole,
            fraction,
        ) == spelled;
    lemma_spelling_is_one_lexeme(state.text, state.current, whole, fraction);
    reveal(finished);
    let read = state.after_lexeme();
    assert(read == (ScannerView { current: state.current + spelled.len(), ..state }));
    assert(state.text.subrange(state.current, state.current + spelled.len()) == spelled);
    let paused = state.run();
    assert(paused.number == Some(spelled) && paused.state == read);
    reveal_with_fuel(ScannerView::finish, 1);
}

} // verus!
