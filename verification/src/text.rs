//! Text in which numbers are not yet spelled out.
//!
//! A number's spelling is not derived here, so text that may mention a number
//! is a sequence of glyphs: characters, and numbers standing where their
//! spelling belongs. Whoever shows the text spells the numbers.

use crate::number::Number;
use vstd::prelude::*;
use vstd::std_specs::iter::IteratorSpec;

verus! {

/// One element of text: a character, or a number to be spelled in its place.
#[derive(Clone, Copy, Debug, PartialEq, Eq)]
pub enum Glyph {
    Char(char),
    Number(Number),
}

/// The glyph of one character.
pub open spec fn glyph(c: char) -> Glyph {
    Glyph::Char(c)
}

/// The glyphs of plain characters.
pub open spec fn chars(s: Seq<char>) -> Seq<Glyph> {
    Seq::new(s.len(), |i: int| glyph(s[i]))
}

/// The decimal digit for a value below ten.
pub open spec fn digit(d: nat) -> char {
    if d == 0 {
        '0'
    } else if d == 1 {
        '1'
    } else if d == 2 {
        '2'
    } else if d == 3 {
        '3'
    } else if d == 4 {
        '4'
    } else if d == 5 {
        '5'
    } else if d == 6 {
        '6'
    } else if d == 7 {
        '7'
    } else if d == 8 {
        '8'
    } else {
        '9'
    }
}

/// The decimal spelling of a natural number, without leading zeros.
pub open spec fn decimal(n: nat) -> Seq<char>
    decreases n,
{
    if n < 10 {
        seq![digit(n)]
    } else {
        decimal(n / 10).push(digit(n % 10))
    }
}

fn digit_char(d: usize) -> (c: char)
    requires
        d < 10,
    ensures
        c == digit(d as nat),
{
    if d == 0 {
        '0'
    } else if d == 1 {
        '1'
    } else if d == 2 {
        '2'
    } else if d == 3 {
        '3'
    } else if d == 4 {
        '4'
    } else if d == 5 {
        '5'
    } else if d == 6 {
        '6'
    } else if d == 7 {
        '7'
    } else if d == 8 {
        '8'
    } else {
        '9'
    }
}

/// Appends the characters of `s`.
pub fn push_text(out: &mut Vec<Glyph>, s: &str)
    ensures
        final(out)@ == old(out)@ + chars(s@),
{
    broadcast use vstd::string::group_string_axioms;

    let ghost before = out@;
    let ghost mut done: int = 0;
    let mut rest = s.chars();
    loop
        invariant
            0 <= done <= s@.len(),
            rest.remaining() == s@.skip(done),
            out@ == before + chars(s@.take(done)),
        ensures
            out@ == before + chars(s@),
        decreases s@.len() - done,
    {
        match rest.next() {
            Some(c) => {
                out.push(Glyph::Char(c));
                proof {
                    assert(s@.skip(done).drop_first() == s@.skip(done + 1));
                    assert(s@.take(done + 1) == s@.take(done).push(c));
                    assert(chars(s@.take(done + 1)) == chars(s@.take(done)).push(glyph(c)));
                    done = done + 1;
                }
            },
            None => {
                assert(s@.take(done) == s@);
                break ;
            },
        }
    }
}

/// Appends the decimal spelling of `n`.
pub fn push_decimal(out: &mut Vec<Glyph>, n: usize)
    ensures
        final(out)@ == old(out)@ + chars(decimal(n as nat)),
    decreases n,
{
    if n >= 10 {
        push_decimal(out, n / 10);
    }
    out.push(Glyph::Char(digit_char(n % 10)));
    assert(out@ =~= old(out)@ + chars(decimal(n as nat)));
}

/// Appends all of `more`.
pub fn push_glyphs(out: &mut Vec<Glyph>, more: &Vec<Glyph>)
    ensures
        final(out)@ == old(out)@ + more@,
{
    let ghost before = out@;
    let mut i: usize = 0;
    while i < more.len()
        invariant
            i <= more.len(),
            out@ == before + more@.take(i as int),
        decreases more.len() - i,
    {
        out.push(more[i]);
        i += 1;
        assert(more@.take(i as int) == more@.take(i - 1).push(more@[i - 1]));
    }
    assert(more@.take(i as int) == more@);
}

/// Trusted, of std's `String::push`, about which vstd says nothing: the
/// string afterwards is the string before with `c` added at its end.
pub assume_specification[ String::push ](s: &mut String, c: char)
    ensures
        final(s)@ == old(s)@.push(c),
;

/// The text of `all[from..to]`.
pub(crate) fn text_of(all: &Vec<char>, from: usize, to: usize) -> (r: String)
    requires
        from <= to <= all.len(),
    ensures
        r@ == all@.subrange(from as int, to as int),
{
    let mut out = String::new();
    let mut i: usize = from;
    while i < to
        invariant
            from <= i <= to <= all.len(),
            out@ == all@.subrange(from as int, i as int),
        decreases to - i,
    {
        out.push(all[i]);
        i += 1;
        assert(all@.subrange(from as int, i as int) == all@.subrange(from as int, i - 1).push(
            all@[i - 1],
        ));
    }
    out
}

/// The characters of `s`, one by one.
pub(crate) fn chars_of(s: &str) -> (r: Vec<char>)
    ensures
        r@ == s@,
{
    broadcast use vstd::string::group_string_axioms;

    let mut out: Vec<char> = Vec::new();
    let ghost mut done: int = 0;
    let mut rest = s.chars();
    loop
        invariant
            0 <= done <= s@.len(),
            rest.remaining() == s@.skip(done),
            out@ == s@.take(done),
        ensures
            out@ == s@,
        decreases s@.len() - done,
    {
        match rest.next() {
            Some(c) => {
                out.push(c);
                proof {
                    assert(s@.skip(done).drop_first() == s@.skip(done + 1));
                    assert(s@.take(done + 1) == s@.take(done).push(c));
                    done = done + 1;
                }
            },
            None => {
                assert(s@.take(done) == s@);
                break ;
            },
        }
    }
    out
}

/// Whether `all[from..to]` spells `word`.
pub(crate) fn spells(all: &Vec<char>, from: usize, to: usize, word: &str) -> (r: bool)
    requires
        from <= to <= all.len(),
    ensures
        r == (all@.subrange(from as int, to as int) == word@),
{
    let letters = chars_of(word);
    if letters.len() != to - from {
        return false;
    }
    let mut i: usize = 0;
    while i < letters.len()
        invariant
            from <= to <= all.len(),
            letters.len() == to - from,
            letters@ == word@,
            i <= letters.len(),
            forall|k: int| 0 <= k < i ==> all@[from + k] == letters@[k],
        decreases letters.len() - i,
    {
        if all[from + i] != letters[i] {
            assert(all@.subrange(from as int, to as int)[i as int] == all@[from + i]);
            return false;
        }
        i += 1;
    }
    assert(all@.subrange(from as int, to as int) =~= letters@);
    true
}

} // verus!
