//! Code relating to the raw source code string.

use vstd::prelude::*;

verus! {

/// Represents the location of a character within a source code string.
#[derive(Clone, Copy, Debug, PartialEq, Eq, Structural)]
pub struct Location {
    /// The zero-indexed position of the character.
    pub index: usize,
    /// The line (`>= 1`) which the character appears on.
    pub line: usize,
    /// The column (`>= 1`) which the character appears in.
    pub column: usize,
}

impl Location {
    /// Returns a location representing the first character in a source code string, with index
    /// `0`, line `1`, column `1`.
    pub fn start() -> (location: Self)
        ensures
            location == (Location { index: 0, line: 1, column: 1 }),
    {
        Self { index: 0, line: 1, column: 1 }
    }
}

/// Can represent either a concrete location, or the end of a source code string.
#[derive(Clone, Copy, Debug, PartialEq, Eq, Structural)]
pub enum GeneralLocation {
    /// A concrete location in the source code.
    Location(Location),
    /// The end of the source code string.
    EndOfFile,
}

/// The line on which the character after the first `count` characters of `text` stands.
pub open spec fn line_after(text: Seq<char>, count: int) -> int
    decreases count,
{
    if count <= 0 || count > text.len() {
        1
    } else if text[count - 1] == '\n' {
        line_after(text, count - 1) + 1
    } else {
        line_after(text, count - 1)
    }
}

/// The column in which the character after the first `count` characters of `text` stands.
pub open spec fn column_after(text: Seq<char>, count: int) -> int
    decreases count,
{
    if count <= 0 || count > text.len() {
        1
    } else if text[count - 1] == '\n' {
        1
    } else {
        column_after(text, count - 1) + 1
    }
}

/// A line or column number as it is kept: the number itself, or the largest that fits.
pub open spec fn kept(number: int) -> usize {
    if number <= usize::MAX {
        number as usize
    } else {
        usize::MAX
    }
}

/// Lines and columns are counted from one.
pub proof fn location_bounds(text: Seq<char>, count: int)
    ensures
        1 <= line_after(text, count),
        1 <= column_after(text, count),
    decreases count,
{
    if 0 < count <= text.len() {
        location_bounds(text, count - 1);
    }
}

/// The location of the character after the first `count` characters of `text`.
pub open spec fn location_after(text: Seq<char>, count: int) -> Location {
    Location {
        index: count as usize,
        line: kept(line_after(text, count)),
        column: kept(column_after(text, count)),
    }
}

/// A wrapper around the source code string.
pub struct Source {
    /// The source code string.
    text: Vec<char>,
    /// The location of the next character.
    location: Location,
}

impl Source {
    /// The characters of the source code.
    pub closed spec fn text(&self) -> Seq<char> {
        self.text@
    }

    /// The number of characters that have been consumed.
    pub closed spec fn consumed(&self) -> int {
        self.location.index as int
    }

    /// The location is that of the next character, by index, line and column.
    pub closed spec fn well_formed(&self) -> bool {
        &&& self.location.index <= self.text@.len()
        &&& self.location.line == kept(line_after(self.text@, self.location.index as int))
        &&& self.location.column == kept(column_after(self.text@, self.location.index as int))
    }

    /// No more characters are consumed than there are.
    pub proof fn consumed_is_bounded(&self)
        requires
            self.well_formed(),
        ensures
            0 <= self.consumed() <= self.text().len(),
    {
    }

    /// Creates a new [Source] from a string input.
    pub fn new(text: &str) -> (source: Self)
        ensures
            source.well_formed(),
            source.text() == text@,
            source.consumed() == 0,
    {
        let mut characters: Vec<char> = Vec::new();
        for character in letters: text.chars()
            invariant
                letters.seq() == text@,
                characters@ == letters.seq().take(letters.index() as int),
        {
            characters.push(character);
            assert(characters@ =~= letters.seq().take(letters.index() + 1));
        }
        assert(characters@ =~= text@);
        Self { text: characters, location: Location::start() }
    }

    /// Returns the next character in the string, without advancing the position.
    pub fn peek(&self) -> (next: Option<char>)
        requires
            self.well_formed(),
        ensures
            next == if self.consumed() < self.text().len() {
                Some(self.text()[self.consumed()])
            } else {
                None
            },
    {
        if self.location.index < self.text.len() {
            Some(self.text[self.location.index])
        } else {
            None
        }
    }

    /// Returns the (next + 1)th character in the string, without advancing the position.
    pub fn peek_after(&self) -> (next: Option<char>)
        requires
            self.well_formed(),
        ensures
            next == if self.consumed() + 1 < self.text().len() {
                Some(self.text()[self.consumed() + 1])
            } else {
                None
            },
    {
        if self.location.index < self.text.len() && self.location.index + 1 < self.text.len() {
            Some(self.text[self.location.index + 1])
        } else {
            None
        }
    }

    /// Returns the next character in the string, and advances the position.
    pub fn advance(&mut self) -> (next: Option<char>)
        requires
            old(self).well_formed(),
        ensures
            final(self).well_formed(),
            final(self).text() == old(self).text(),
            next == old(self).peek_spec(),
            final(self).consumed() == if next is Some {
                old(self).consumed() + 1
            } else {
                old(self).consumed()
            },
    {
        let next = self.peek();
        if let Some(character) = next {
            proof {
                location_bounds(self.text@, self.location.index as int);
            }
            let total = self.text.len();
            self.location.index += 1;
            if character == '\n' {
                self.location.line = self.location.line.saturating_add(1);
                self.location.column = 1;
            } else {
                self.location.column = self.location.column.saturating_add(1);
            }
        }
        next
    }

    /// The next character, if any is left.
    pub open spec fn peek_spec(&self) -> Option<char> {
        if self.consumed() < self.text().len() {
            Some(self.text()[self.consumed()])
        } else {
            None
        }
    }

    /// Conditionally advances the position if the next character matches a target.
    ///
    /// If the next character is equal to `target`, then the position is advanced, and `true` is
    /// returned. Otherwise, the position is not advanced, and `false` is returned.
    pub fn matches(&mut self, target: char) -> (matched: bool)
        requires
            old(self).well_formed(),
        ensures
            final(self).well_formed(),
            final(self).text() == old(self).text(),
            matched == (old(self).peek_spec() == Some(target)),
            final(self).consumed() == if matched {
                old(self).consumed() + 1
            } else {
                old(self).consumed()
            },
    {
        if let Some(character) = self.peek() {
            if character == target {
                self.advance();
            }
            return character == target;
        }
        false
    }

    /// Returns whether the source code string has been consumed fully.
    pub fn at_end(&self) -> (done: bool)
        requires
            self.well_formed(),
        ensures
            done == (self.consumed() >= self.text().len()),
    {
        self.location.index >= self.text.len()
    }

    /// Returns the location of the next character.
    pub fn location(&self) -> (location: Location)
        requires
            self.well_formed(),
        ensures
            location == location_after(self.text(), self.consumed()),
    {
        self.location
    }
}

} // verus!
