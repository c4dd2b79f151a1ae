use core::marker::PhantomData;
use core::num::ParseIntError;
use vstd::prelude::*;

use crate::location::{Located, SourceRange};
use crate::parser::Parser;
use crate::text_parser::{all_digits, decimal_value, is_digit, parse_i64, string_of};
use crate::text_state::{location_after, TextState};

verus! {

/// Scans a number from index `i` of `text`, given whether a dot was already
/// taken: digits are taken, and one dot; a second dot or any other character
/// ends the scan unread; an `F` ends it and is read. The result is the
/// characters taken, whether a dot was taken, and whether an `F` ended the scan.
pub open spec fn scan_number(text: Seq<char>, i: nat, dot: bool) -> (Seq<char>, bool, bool)
    decreases text.len() - i,
{
    if i >= text.len() {
        (Seq::empty(), dot, false)
    } else if text[i as int] == 'F' {
        (Seq::empty(), dot, true)
    } else if text[i as int] == '.' && !dot {
        let rest = scan_number(text, i + 1, true);
        (seq!['.'] + rest.0, rest.1, rest.2)
    } else if is_digit(text[i as int]) {
        let rest = scan_number(text, i + 1, dot);
        (seq![text[i as int]] + rest.0, rest.1, rest.2)
    } else {
        (Seq::empty(), dot, false)
    }
}

/// The text of the number that starts at `i`: what the scan took, without a
/// trailing dot (which belongs to what follows, such as a member access).
pub open spec fn number_literal(text: Seq<char>, i: nat) -> Seq<char> {
    let taken = scan_number(text, i, false).0;
    if taken.len() > 0 && taken.last() == '.' {
        taken.drop_last()
    } else {
        taken
    }
}

/// The number that starts at `i` is a float: it has a dot or ends with `F`.
pub open spec fn number_is_float(text: Seq<char>, i: nat) -> bool {
    scan_number(text, i, false).1 || scan_number(text, i, false).2
}

/// How many characters a number that starts at `i` reads: its literal, and
/// one more for a closing `F`.
pub open spec fn number_width(text: Seq<char>, i: nat) -> nat {
    number_literal(text, i).len() + if scan_number(text, i, false).2 {
        1nat
    } else {
        0nat
    }
}

/// `arg` is what reading the digits `lit` as an `i64` gives.
pub open spec fn reads_as_i64(lit: Seq<char>, arg: Result<i64, ParseIntError>) -> bool {
    &&& (arg is Ok <==> decimal_value(lit) <= i64::MAX)
    &&& (arg is Ok ==> arg->Ok_0 == decimal_value(lit))
}

proof fn lemma_scan_width(text: Seq<char>, i: nat, dot: bool)
    requires
        i <= text.len(),
    ensures
        i + scan_number(text, i, dot).0.len() + (if scan_number(text, i, dot).2 {
            1int
        } else {
            0int
        }) <= text.len(),
        dot ==> scan_number(text, i, dot).1,
        !scan_number(text, i, dot).1 ==> all_digits(scan_number(text, i, dot).0),
    decreases text.len() - i,
{
    if i < text.len() {
        if text[i as int] == '.' && !dot {
            lemma_scan_width(text, i + 1, true);
        } else if is_digit(text[i as int]) && text[i as int] != 'F' {
            lemma_scan_width(text, i + 1, dot);
            let rest = scan_number(text, i + 1, dot).0;
            assert(scan_number(text, i, dot).0 =~= seq![text[i as int]] + rest);
        }
    }
}

/// Reads a number literal. `float` builds the result from the text of a
/// literal with a dot or a closing `F`; `integer` builds it from the reading
/// of any other literal as an `i64`; either may refuse. Where no digit stands,
/// the parse fails with `error`.
#[derive(Debug)]
pub struct Number<F, I, R, E: Clone> {
    pub float: F,
    pub integer: I,
    pub error: E,
    pub result_type: PhantomData<R>,
}

impl<F, I, R, E: Clone> Number<F, I, R, E> where
    F: Fn(String) -> Result<R, E>,
    I: Fn(Result<i64, ParseIntError>) -> Result<R, E>,
 {
    pub fn new(float: F, integer: I, error: E) -> (r: Self)
        ensures
            r.float == float,
            r.integer == integer,
            r.error == error,
    {
        Number { float, integer, error, result_type: PhantomData }
    }

    /// What a constructor's answer `out` makes of the parse from `s`.
    pub open spec fn finish(&self, s: TextState, out: Result<R, E>, r: Result<(TextState, R), Located<E>>) -> bool {
        let text = s.text();
        let end_pos = s.pos() + number_width(text, s.pos());
        match out {
            Ok(v) => match r {
                Ok((s2, w)) => s2.text() == text && s2.pos() == end_pos && w == v,
                Err(_) => false,
            },
            Err(e) => r == Err::<(TextState, R), Located<E>>(
                Located {
                    source_range: SourceRange {
                        start: s.spec_location(),
                        end: location_after(text, end_pos),
                    },
                    target: e,
                },
            ),
        }
    }

    /// The literal is a float, and `r` follows from what `float` answers for its text.
    pub open spec fn float_outcome(&self, s: TextState, r: Result<(TextState, R), Located<E>>) -> bool {
        exists|arg: String, out: Result<R, E>|
            arg@ == number_literal(s.text(), s.pos()) && #[trigger] self.float.ensures((arg,), out)
                && self.finish(s, out, r)
    }

    /// The literal is an integer, and `r` follows from what `integer` answers
    /// for its reading as an `i64`.
    pub open spec fn integer_outcome(&self, s: TextState, r: Result<(TextState, R), Located<E>>) -> bool {
        exists|arg: Result<i64, ParseIntError>, out: Result<R, E>|
            reads_as_i64(number_literal(s.text(), s.pos()), arg) && #[trigger] self.integer.ensures(
                (arg,),
                out,
            ) && self.finish(s, out, r)
    }

    /// No digit stands at the cursor: the error is `error`, over the empty
    /// range at the cursor.
    pub open spec fn no_number(&self, s: TextState, r: Result<(TextState, R), Located<E>>) -> bool {
        match r {
            Ok(_) => false,
            Err(l) => l.source_range == (SourceRange {
                start: s.spec_location(),
                end: s.spec_location(),
            }) && cloned(self.error, l.target),
        }
    }
}

impl<F: Clone, I: Clone, R, E: Clone> Clone for Number<F, I, R, E> {
    fn clone(&self) -> (r: Self)
        ensures
            cloned(self.float, r.float),
            cloned(self.integer, r.integer),
            cloned(self.error, r.error),
    {
        Number {
            float: self.float.clone(),
            integer: self.integer.clone(),
            error: self.error.clone(),
            result_type: PhantomData,
        }
    }
}

impl<F, I, R, E: Clone> Parser for Number<F, I, R, E> where
    F: Fn(String) -> Result<R, E>,
    I: Fn(Result<i64, ParseIntError>) -> Result<R, E>,
 {
    type Value = R;

    type State = TextState;

    type Error = Located<E>;

    open spec fn ready(&self) -> bool {
        &&& forall|arg: String| self.float.requires((arg,))
        &&& forall|arg: Result<i64, ParseIntError>| self.integer.requires((arg,))
    }

    open spec fn yields(&self, s: TextState, r: Result<(TextState, R), Located<E>>) -> bool {
        if number_literal(s.text(), s.pos()).len() == 0 {
            self.no_number(s, r)
        } else if number_is_float(s.text(), s.pos()) {
            self.float_outcome(s, r)
        } else {
            self.integer_outcome(s, r)
        }
    }

    fn do_pars(&self, start: TextState) -> (r: Result<(TextState, R), Located<E>>) {
        let mut state = start;
        let ghost text = state.text();
        let ghost p0 = state.pos();
        let ghost full = scan_number(text, p0, false);
        let start_location = *state.location();
        let mut probe = state.clone();
        let mut consumed_chars: Vec<char> = Vec::new();
        let mut dot_found = false;
        let mut is_float = false;
        let mut f_found = false;
        let mut done = false;
        while !done
            invariant
                probe.text() == text,
                p0 <= probe.pos() <= text.len(),
                full == scan_number(text, p0, false),
                is_float == (dot_found || f_found),
                !done ==> !f_found,
                !done ==> full.0 == consumed_chars@ + scan_number(text, probe.pos(), dot_found).0,
                !done ==> full.1 == scan_number(text, probe.pos(), dot_found).1,
                !done ==> full.2 == scan_number(text, probe.pos(), dot_found).2,
                done ==> full.0 == consumed_chars@ && full.1 == dot_found && full.2 == f_found,
            decreases text.len() - probe.pos() + (if done { 0int } else { 1int }),
        {
            let ghost before = probe.pos();
            let ghost rest = scan_number(text, before, dot_found);
            match probe.next() {
                Some(c) => {
                    if c == 'F' {
                        is_float = true;
                        f_found = true;
                        done = true;
                        assert(consumed_chars@ + rest.0 =~= consumed_chars@);
                    } else if c == '.' && !dot_found {
                        let ghost old_chars = consumed_chars@;
                        consumed_chars.push('.');
                        dot_found = true;
                        is_float = true;
                        assert(old_chars + rest.0 =~= consumed_chars@ + scan_number(
                            text,
                            probe.pos(),
                            dot_found,
                        ).0);
                    } else if '0' <= c && c <= '9' {
                        let ghost old_chars = consumed_chars@;
                        consumed_chars.push(c);
                        assert(old_chars + rest.0 =~= consumed_chars@ + scan_number(
                            text,
                            probe.pos(),
                            dot_found,
                        ).0);
                    } else {
                        done = true;
                        assert(consumed_chars@ + rest.0 =~= consumed_chars@);
                    }
                },
                None => {
                    done = true;
                    assert(consumed_chars@ + rest.0 =~= consumed_chars@);
                },
            }
        }
        // a trailing dot is not part of the number (it may start a member access)

        let n = consumed_chars.len();
        if n > 0 && consumed_chars[n - 1] == '.' {
            consumed_chars.pop();
        }
        assert(consumed_chars@ =~= number_literal(text, p0));
        if consumed_chars.len() == 0 {
            let e = self.error.clone();
            return Err(start_location.locate(start_location, e));
        }
        proof {
            lemma_scan_width(text, p0, false);
        }
        let count = consumed_chars.len() + if f_found {
            1
        } else {
            0
        };
        let mut k: usize = 0;
        while k < count
            invariant
                state.text() == text,
                state.pos() == p0 + k,
                k <= count,
                p0 + count <= text.len(),
            decreases count - k,
        {
            state.advance();
            k = k + 1;
        }
        let number_str = string_of(&consumed_chars);
        if is_float {
            let out = (self.float)(number_str);
            let ghost g = out;
            let r = match out {
                Ok(value) => Ok((state, value)),
                Err(e) => Err(state.locate(start_location, e)),
            };
            assert(self.finish(start, g, r));
            assert(self.float_outcome(start, r));
            r
        } else {
            let number = parse_i64(number_str.as_str());
            let out = (self.integer)(number);
            let ghost g = out;
            let r = match out {
                Ok(value) => Ok((state, value)),
                Err(e) => Err(state.locate(start_location, e)),
            };
            assert(self.finish(start, g, r));
            assert(self.integer_outcome(start, r));
            r
        }
    }
}

} // verus!
