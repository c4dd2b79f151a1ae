use std::rc::Rc;
use vstd::prelude::*;
use vstd::std_specs::iter::IteratorSpec;

use crate::location::{Located, Location, SourceRange};

verus! {

/// The location reached after reading the first `n` characters of `text`.
pub open spec fn location_after(text: Seq<char>, n: nat) -> Location
    decreases n,
{
    if n == 0 {
        Location::spec_start()
    } else {
        location_after(text, (n - 1) as nat).after(text[n - 1])
    }
}

/// The longest text, in characters, whose locations are sure to be representable.
pub open spec fn max_text_len() -> nat {
    (usize::MAX / 8) as nat
}

/// Each character takes one to four bytes, starts at most one row and one column.
pub proof fn lemma_location_bounds(text: Seq<char>, n: nat)
    requires
        n <= max_text_len(),
    ensures
        n <= location_after(text, n).byte_offset <= 4 * n,
        1 <= location_after(text, n).row <= n + 1,
        1 <= location_after(text, n).column <= n + 1,
    decreases n,
{
    if n > 0 {
        lemma_location_bounds(text, (n - 1) as nat);
    }
}

/// Reading characters moves the byte offset strictly forward: the locations
/// met while a text is read, one character at a time, have strictly
/// increasing byte offsets.
pub proof fn lemma_location_monotonic(text: Seq<char>, i: nat, j: nat)
    requires
        i < j <= max_text_len(),
    ensures
        location_after(text, i).byte_offset < location_after(text, j).byte_offset,
    decreases j,
{
    lemma_location_bounds(text, (j - 1) as nat);
    if i < j - 1 {
        lemma_location_monotonic(text, i, (j - 1) as nat);
    }
}

/// Relies on `Rc::clone`: the new handle points to the same value.
#[verifier::external_body]
fn share(input: &Rc<Vec<char>>) -> (r: Rc<Vec<char>>)
    ensures
        r == *input,
{
    Rc::clone(input)
}

/// A cursor over a shared, immutable text: the text, how many characters of
/// it have been read, and the location reached.
#[derive(Debug)]
pub struct TextState {
    input: Rc<Vec<char>>,
    position: usize,
    location: Location,
}

impl TextState {
    #[verifier::type_invariant]
    spec fn inv(&self) -> bool {
        &&& self.input@.len() <= max_text_len()
        &&& self.position <= self.input@.len()
        &&& self.location == location_after(self.input@, self.position as nat)
    }

    /// The whole text.
    pub closed spec fn text(&self) -> Seq<char> {
        self.input@
    }

    /// How many characters have been read.
    pub closed spec fn pos(&self) -> nat {
        self.position as nat
    }

    /// The character that would be read next, if any.
    pub open spec fn spec_peek(&self) -> Option<char> {
        if self.pos() < self.text().len() {
            Some(self.text()[self.pos() as int])
        } else {
            None
        }
    }

    /// The location reached.
    pub open spec fn spec_location(&self) -> Location {
        location_after(self.text(), self.pos())
    }

    /// Where the cursor stands after one more step.
    pub open spec fn pos_after_step(&self) -> nat {
        if self.pos() < self.text().len() {
            self.pos() + 1
        } else {
            self.pos()
        }
    }

    /// A cursor at the start of `text`.
    pub fn new(text: &str) -> (r: TextState)
        requires
            text@.len() <= max_text_len(),
        ensures
            r.text() == text@,
            r.pos() == 0,
    {
        broadcast use vstd::string::axiom_spec_iter, vstd::string::next_postcondition;

        let mut it = text.chars();
        let mut chars: Vec<char> = Vec::new();
        loop
            invariant
                it.obeys_prophetic_iter_laws(),
                chars.len() <= text@.len(),
                chars@ == text@.subrange(0, chars.len() as int),
                it.remaining() == text@.subrange(chars.len() as int, text@.len() as int),
            ensures
                chars@ == text@,
            decreases text@.len() - chars.len(),
        {
            match it.next() {
                Some(c) => {
                    chars.push(c);
                },
                None => {
                    break ;
                },
            }
        }
        TextState { input: Rc::new(chars), position: 0, location: Location::start() }
    }

    /// Reads one character: the one that `peek` shows, if any.
    pub fn next(&mut self) -> (r: Option<char>)
        ensures
            r == old(self).spec_peek(),
            final(self).text() == old(self).text(),
            final(self).pos() == old(self).pos_after_step(),
            final(self).pos() <= final(self).text().len() <= max_text_len(),
    {
        let next = self.peek();
        self.advance_internal(next);
        next
    }

    /// The next character, without reading it.
    pub fn peek(&self) -> (r: Option<char>)
        ensures
            r == self.spec_peek(),
            self.pos() <= self.text().len() <= max_text_len(),
    {
        proof {
            use_type_invariant(self);
        }
        if self.position < self.input.len() {
            Some(self.input[self.position])
        } else {
            None
        }
    }

    /// Steps over one character. A line break starts a new row; at the end of
    /// the text nothing changes.
    pub fn advance(&mut self)
        ensures
            final(self).text() == old(self).text(),
            final(self).pos() == old(self).pos_after_step(),
            final(self).pos() <= final(self).text().len() <= max_text_len(),
            old(self).pos() < old(self).text().len() ==> final(self).spec_location()
                == old(self).spec_location().after(old(self).text()[old(self).pos() as int]),
            old(self).pos() == old(self).text().len() ==> final(self).spec_location()
                == old(self).spec_location(),
    {
        let next = self.peek();
        self.advance_internal(next);
    }

    fn advance_internal(&mut self, next: Option<char>)
        requires
            next == old(self).spec_peek(),
        ensures
            final(self).text() == old(self).text(),
            final(self).pos() == old(self).pos_after_step(),
            final(self).pos() <= final(self).text().len() <= max_text_len(),
    {
        proof {
            use_type_invariant(&*self);
            lemma_location_bounds(self.input@, self.position as nat);
        }
        match next {
            None => {},
            Some(c) => {
                let location = self.location.advance_over(c);
                let input = share(&self.input);
                *self = TextState { input, position: self.position + 1, location };
            },
        }
    }

    /// `target`, located over the empty range at the current location.
    pub fn locate_at_exactly<T>(&self, target: T) -> (r: Located<T>)
        ensures
            r.source_range == (SourceRange { start: self.spec_location(), end: self.spec_location() }),
            r.target == target,
    {
        proof {
            use_type_invariant(self);
        }
        self.locate(self.location, target)
    }

    /// `target`, located over the range from `start_location` to the current location.
    pub fn locate<T>(&self, start_location: Location, target: T) -> (r: Located<T>)
        ensures
            r.source_range == (SourceRange { start: start_location, end: self.spec_location() }),
            r.target == target,
    {
        proof {
            use_type_invariant(self);
        }
        start_location.locate(self.location, target)
    }

    pub fn location(&self) -> (r: &Location)
        ensures
            *r == self.spec_location(),
            self.pos() <= self.text().len() <= max_text_len(),
    {
        proof {
            use_type_invariant(self);
        }
        &self.location
    }
}

impl Clone for TextState {
    /// A second cursor at the same place of the same text; the text is shared.
    fn clone(&self) -> (r: TextState)
        ensures
            r.text() == self.text(),
            r.pos() == self.pos(),
    {
        proof {
            use_type_invariant(self);
        }
        TextState { input: share(&self.input), position: self.position, location: self.location }
    }
}

} // verus!
