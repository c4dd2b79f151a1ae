use core::marker::PhantomData;
use core::num::ParseIntError;
use vstd::prelude::*;

use crate::location::{Located, SourceRange};
use crate::parser::Parser;
use crate::text_state::{location_after, max_text_len, TextState};

verus! {

/// Declares `core::num::ParseIntError`, the error that reading an integer may
/// give; it is handed on to the integer constructor of `Number` unexamined.
#[verifier::external_type_specification]
#[verifier::external_body]
pub struct ExParseIntError(ParseIntError);

/// The characters that Unicode gives the White_Space property.
pub open spec fn is_white_space(c: char) -> bool {
    ||| '\t' <= c <= '\r'
    ||| c == ' '
    ||| c == '\u{85}'
    ||| c == '\u{a0}'
    ||| c == '\u{1680}'
    ||| '\u{2000}' <= c <= '\u{200a}'
    ||| c == '\u{2028}'
    ||| c == '\u{2029}'
    ||| c == '\u{202f}'
    ||| c == '\u{205f}'
    ||| c == '\u{3000}'
}

/// Relies on `char::is_whitespace`: true exactly of the White_Space characters.
#[verifier::external_body]
fn white_space(c: char) -> (r: bool)
    ensures
        r == is_white_space(c),
{
    c.is_whitespace()
}

/// Relies on `String::from_iter`: the characters, in order, make the string.
#[verifier::external_body]
pub(crate) fn string_of(chars: &Vec<char>) -> (r: String)
    ensures
        r@ == chars@,
{
    String::from_iter(chars.iter())
}

pub open spec fn is_digit(c: char) -> bool {
    '0' <= c <= '9'
}

pub open spec fn all_digits(s: Seq<char>) -> bool {
    forall|k: int| 0 <= k < s.len() ==> is_digit(#[trigger] s[k])
}

/// The number that a string of decimal digits writes.
pub open spec fn decimal_value(s: Seq<char>) -> int
    decreases s.len(),
{
    if s.len() == 0 {
        0
    } else {
        decimal_value(s.drop_last()) * 10 + ((s.last() as u32) - ('0' as u32))
    }
}

/// Relies on `<i64 as FromStr>::from_str`: a non-empty string of decimal digits
/// is read as the number it writes, and is refused when that does not fit.
#[verifier::external_body]
pub(crate) fn parse_i64(text: &str) -> (r: Result<i64, ParseIntError>)
    ensures
        text@.len() > 0 && all_digits(text@) ==> (r is Ok <==> decimal_value(text@) <= i64::MAX),
        text@.len() > 0 && all_digits(text@) && r is Ok ==> r->Ok_0 == decimal_value(text@),
{
    <i64 as core::str::FromStr>::from_str(text)
}

/// The value of a parse, without the state it left.
pub open spec fn without_state<S, V, E>(out: Result<(S, V), E>) -> Result<V, E> {
    match out {
        Ok((_, v)) => Ok(v),
        Err(e) => Err(e),
    }
}

/// A parser over text: it runs on a `TextState` and its errors carry the
/// source range they come from.
pub trait TextParser<E>: Parser<State = TextState, Error = Located<E>> {
    /// Parses `input` from its start and returns the value or the error.
    fn pars(&self, input: &str) -> (r: Result<Self::Value, Located<E>>)
        requires
            self.ready(),
            input@.len() <= max_text_len(),
        ensures
            exists|s: TextState, out: Result<(TextState, Self::Value), Located<E>>|
                s.text() == input@ && s.pos() == 0 && #[trigger] self.yields(s, out) && r
                    == without_state(out),
    ;
}

impl<P: Parser<State = TextState, Error = Located<E>>, E> TextParser<E> for P {
    fn pars(&self, input: &str) -> (r: Result<Self::Value, Located<E>>) {
        let state = TextState::new(input);
        let ghost s0 = state;
        let out = self.do_pars(state);
        let ghost g = out;
        let r = match out {
            Ok((_, value)) => Ok(value),
            Err(e) => Err(e),
        };
        assert(self.yields(s0, g) && r == without_state(g));
        r
    }
}

/// The first `n` characters of `token` stand in `text` from `pos` on.
pub open spec fn matches_at(text: Seq<char>, pos: nat, token: Seq<char>, n: nat) -> bool {
    forall|j: int| #![trigger token[j]] 0 <= j < n ==> pos + j < text.len() && text[pos + j] == token[j]
}

/// Reads exactly the characters of `token`, or fails with `error`.
pub struct Token<E: Clone> {
    pub token: String,
    pub error: E,
}

impl<E: Clone> Token<E> {
    /// The first `i` characters of the token match from the cursor of `s` on,
    /// the next one does not (or the text ends), and `l` is the error located
    /// over the matched part, up to the point of divergence.
    pub open spec fn fails_at(&self, s: TextState, i: nat, l: Located<E>) -> bool {
        let text = s.text();
        let tok = self.token@;
        &&& i < tok.len()
        &&& matches_at(text, s.pos(), tok, i)
        &&& !matches_at(text, s.pos(), tok, i + 1)
        &&& l.source_range == (SourceRange {
            start: s.spec_location(),
            end: location_after(text, s.pos() + i),
        })
        &&& cloned(self.error, l.target)
    }

    /// Matching fails somewhere, and `l` is the error for it.
    pub open spec fn fails(&self, s: TextState, l: Located<E>) -> bool {
        exists|i: nat| #[trigger] self.fails_at(s, i, l)
    }

    pub fn new(token: String, error: E) -> (r: Self)
        ensures
            r.token == token,
            r.error == error,
    {
        Token { token, error }
    }
}

impl<E: Clone> Parser for Token<E> {
    type Value = String;

    type State = TextState;

    type Error = Located<E>;

    open spec fn ready(&self) -> bool {
        true
    }

    /// On a match, the token is the value and the cursor stands after it.
    /// Otherwise the error covers the matched part, from where matching
    /// started to the first character that differs (or the end of the text);
    /// that character is not read.
    open spec fn yields(&self, s: TextState, r: Result<(TextState, String), Located<E>>) -> bool {
        let text = s.text();
        let tok = self.token@;
        match r {
            Ok((s2, v)) => {
                &&& matches_at(text, s.pos(), tok, tok.len())
                &&& s2.text() == text
                &&& s2.pos() == s.pos() + tok.len()
                &&& v@ == tok
            },
            Err(l) => self.fails(s, l),
        }
    }

    fn do_pars(&self, start: TextState) -> (r: Result<(TextState, String), Located<E>>) {
        let ghost s0 = start;
        let mut state = start;
        let ghost text = state.text();
        let ghost p0 = state.pos();
        let ghost tok = self.token@;
        let start_location = *state.location();
        let n = self.token.as_str().unicode_len();
        let mut i: usize = 0;
        while i < n
            invariant
                n == tok.len(),
                tok == self.token@,
                s0 == start,
                s0.text() == text,
                s0.pos() == p0,
                i <= n,
                state.text() == text,
                state.pos() == p0 + i,
                state.pos() <= text.len(),
                matches_at(text, p0, tok, i as nat),
                start_location == location_after(text, p0),
            decreases n - i,
        {
            let expected_char = self.token.as_str().get_char(i);
            match state.peek() {
                Some(found_char) if found_char == expected_char => {
                    state.advance();
                },
                _ => {
                    assert(!matches_at(text, p0, tok, (i + 1) as nat));
                    let e = self.error.clone();
                    let r = state.locate(start_location, e);
                    assert(self.fails_at(s0, i as nat, r));
                    return Err(r);
                },
            }
            assert(matches_at(text, p0, tok, (i + 1) as nat));
            i = i + 1;
        }
        Ok((state, self.token.clone()))
    }
}

/// Reads the longest run of characters that `f` accepts; never fails.
#[derive(Debug)]
pub struct Chop<F, E> {
    pub f: F,
    pub error_type: PhantomData<E>,
}

impl<F, E> Chop<F, E> where F: Fn(char) -> bool {
    pub fn while_con(predicate: F) -> (r: Self)
        ensures
            r.f == predicate,
    {
        Chop { f: predicate, error_type: PhantomData }
    }
}

impl<F: Clone, E> Clone for Chop<F, E> {
    fn clone(&self) -> (r: Self)
        ensures
            cloned(self.f, r.f),
    {
        Chop { f: self.f.clone(), error_type: PhantomData }
    }
}

/// Reads the longest run of white space.
pub fn whitespace<E>() -> (r: Chop<impl Fn(char) -> bool, E>)
    ensures
        forall|c: char| r.f.requires((c,)),
        forall|c: char, b: bool| r.f.ensures((c,), b) ==> b == is_white_space(c),
{
    Chop::while_con(|c: char| -> (b: bool) ensures b == is_white_space(c) { white_space(c) })
}

impl<F, E> Parser for Chop<F, E> where F: Fn(char) -> bool {
    type Value = String;

    type State = TextState;

    type Error = E;

    open spec fn ready(&self) -> bool {
        forall|c: char| self.f.requires((c,))
    }

    /// The value is the run read; `f` accepted each of its characters and
    /// refused the one after it, if there is one.
    open spec fn yields(&self, s: TextState, r: Result<(TextState, String), E>) -> bool {
        match r {
            Ok((s2, v)) => {
                &&& s2.text() == s.text()
                &&& s.pos() <= s2.pos() <= s.text().len()
                &&& v@ == s.text().subrange(s.pos() as int, s2.pos() as int)
                &&& forall|j: int|
                    s.pos() <= j < s2.pos() ==> self.f.ensures((#[trigger] s.text()[j],), true)
                &&& s2.pos() < s.text().len() ==> self.f.ensures((s.text()[s2.pos() as int],), false)
            },
            Err(_) => false,
        }
    }

    fn do_pars(&self, state: TextState) -> (r: Result<(TextState, String), E>) {
        let mut state = state;
        let ghost text = state.text();
        let ghost p0 = state.pos();
        let mut chopped_chars: Vec<char> = Vec::new();
        let mut next = state.peek();
        let mut done = false;
        while !done
            invariant
                forall|c: char| self.f.requires((c,)),
                state.text() == text,
                p0 <= state.pos() <= text.len(),
                next == state.spec_peek(),
                chopped_chars@ == text.subrange(p0 as int, state.pos() as int),
                forall|j: int| p0 <= j < state.pos() ==> self.f.ensures((#[trigger] text[j],), true),
                done ==> (state.pos() < text.len() ==> self.f.ensures((text[state.pos() as int],), false)),
            decreases text.len() - state.pos() + (if done { 0int } else { 1int }),
        {
            match next {
                Some(c) => {
                    if (self.f)(c) {
                        chopped_chars.push(c);
                        state.advance();
                        next = state.peek();
                        assert(chopped_chars@ =~= text.subrange(p0 as int, state.pos() as int));
                    } else {
                        done = true;
                    }
                },
                None => {
                    done = true;
                },
            }
        }
        let value = string_of(&chopped_chars);
        Ok((state, value))
    }
}

} // verus!
