use vstd::prelude::*;

verus! {

/// Number of bytes that the UTF-8 encoding of `c` takes.
pub open spec fn utf8_len(c: char) -> nat {
    if (c as u32) < 0x80 {
        1
    } else if (c as u32) < 0x800 {
        2
    } else if (c as u32) < 0x10000 {
        3
    } else {
        4
    }
}

/// Executable counterpart of `utf8_len` (the width that `char::len_utf8` reports).
pub fn char_width(c: char) -> (r: usize)
    ensures
        r == utf8_len(c),
        1 <= r <= 4,
{
    let code = c as u32;
    if code < 0x80 {
        1
    } else if code < 0x800 {
        2
    } else if code < 0x10000 {
        3
    } else {
        4
    }
}

/// A position in a text: the byte offset from the start, and the row and
/// column (both counted from one) that a reader sees.
#[derive(Debug, Clone, Copy, PartialEq, Eq, Structural)]
pub struct Location {
    pub byte_offset: usize,
    pub column: usize,
    pub row: usize,
}

impl Location {
    /// The location that follows `self` once the character `c` has been read.
    pub open spec fn after(self, c: char) -> Location {
        if c == '\n' {
            Location {
                byte_offset: (self.byte_offset + utf8_len(c)) as usize,
                column: 1,
                row: (self.row + 1) as usize,
            }
        } else {
            Location {
                byte_offset: (self.byte_offset + utf8_len(c)) as usize,
                column: (self.column + 1) as usize,
                row: self.row,
            }
        }
    }

    /// The location that reading `c` leads to can be represented.
    pub open spec fn can_follow(self, c: char) -> bool {
        &&& self.byte_offset + utf8_len(c) <= usize::MAX
        &&& self.column + 1 <= usize::MAX
        &&& self.row + 1 <= usize::MAX
    }

    pub open spec fn spec_start() -> Location {
        Location { byte_offset: 0, column: 1, row: 1 }
    }

    pub fn new(byte_offset: usize, column: usize, row: usize) -> (r: Location)
        ensures
            r == (Location { byte_offset, column, row }),
    {
        Location { byte_offset, column, row }
    }

    /// The location after a line break that takes `offset_increment` bytes.
    pub fn new_line(&self, offset_increment: usize) -> (r: Location)
        requires
            self.byte_offset + offset_increment <= usize::MAX,
            self.row + 1 <= usize::MAX,
    ensures
            r == (Location {
                byte_offset: (self.byte_offset + offset_increment) as usize,
                column: 1,
                row: (self.row + 1) as usize,
            }),
    {
        Location { byte_offset: self.byte_offset + offset_increment, column: 1, row: self.row + 1 }
    }

    /// The location after a character, other than a line break, that takes
    /// `offset_increment` bytes.
    pub fn increment(&self, offset_increment: usize) -> (r: Location)
        requires
            self.byte_offset + offset_increment <= usize::MAX,
            self.column + 1 <= usize::MAX,
        ensures
            r == (Location {
                byte_offset: (self.byte_offset + offset_increment) as usize,
                column: (self.column + 1) as usize,
                row: self.row,
            }),
    {
        Location {
            byte_offset: self.byte_offset + offset_increment,
            column: self.column + 1,
            row: self.row,
        }
    }

    /// The location after the character `c`: a line break starts a new row.
    pub fn advance_over(&self, c: char) -> (r: Location)
        requires
            self.can_follow(c),
        ensures
            r == self.after(c),
    {
        let width = char_width(c);
        if c == '\n' {
            self.new_line(width)
        } else {
            self.increment(width)
        }
    }

    pub fn byte_offset(&self) -> (r: usize)
        ensures
            r == self.byte_offset,
    {
        self.byte_offset
    }

    pub fn column(&self) -> (r: usize)
        ensures
            r == self.column,
    {
        self.column
    }

    pub fn row(&self) -> (r: usize)
        ensures
            r == self.row,
    {
        self.row
    }

    /// Attaches `target` to the range that starts here and ends at `end`.
    pub fn locate<T>(self, end: Location, target: T) -> (r: Located<T>)
        ensures
            r.source_range.start == self,
            r.source_range.end == end,
            r.target == target,
    {
        Located { source_range: SourceRange { start: self, end }, target }
    }

    /// The first position of a text: offset 0, row 1, column 1.
    pub fn start() -> (r: Location)
        ensures
            r == Location::spec_start(),
    {
        Location { byte_offset: 0, column: 1, row: 1 }
    }
}

/// How two byte offsets compare.
pub open spec fn offset_order(a: usize, b: usize) -> core::cmp::Ordering {
    if a < b {
        core::cmp::Ordering::Less
    } else if a == b {
        core::cmp::Ordering::Equal
    } else {
        core::cmp::Ordering::Greater
    }
}

impl PartialOrd for Location {
    /// Locations are ordered by their byte offset alone.
    fn partial_cmp(&self, other: &Location) -> (r: Option<core::cmp::Ordering>)
        ensures
            r == Some(offset_order(self.byte_offset, other.byte_offset)),
    {
        if self.byte_offset < other.byte_offset {
            Some(core::cmp::Ordering::Less)
        } else if self.byte_offset == other.byte_offset {
            Some(core::cmp::Ordering::Equal)
        } else {
            Some(core::cmp::Ordering::Greater)
        }
    }
}

impl vstd::std_specs::cmp::PartialOrdSpecImpl for Location {
    open spec fn obeys_partial_cmp_spec() -> bool {
        true
    }

    open spec fn partial_cmp_spec(&self, other: &Location) -> Option<core::cmp::Ordering> {
        Some(offset_order(self.byte_offset, other.byte_offset))
    }
}

impl Default for Location {
    fn default() -> (r: Location)
        ensures
            r == Location::spec_start(),
    {
        Location::start()
    }
}

/// The half-open range `[start, end)` of a text.
#[derive(Debug, Clone, Copy, PartialEq, Eq, Structural)]
pub struct SourceRange {
    pub start: Location,
    pub end: Location,
}

/// A value together with the half-open range of source it was produced from.
#[derive(Debug, Clone, PartialEq, Eq)]
pub struct Located<T> {
    pub source_range: SourceRange,
    pub target: T,
}

impl<T> Located<T> {
    pub fn source_range(&self) -> (r: &SourceRange)
        ensures
            *r == self.source_range,
    {
        &self.source_range
    }

    pub fn target(&self) -> (r: &T)
        ensures
            *r == self.target,
    {
        &self.target
    }
}

} // verus!
