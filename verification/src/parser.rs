//! What the parsers have in common: the error with its place in the text.

use vstd::prelude::*;
use crate::dbus_type::DBusType;

verus! {

/// A parser of signatures.
pub trait Parser {
    fn parse(input: &str) -> Result<DBusType, ParserError>;
}

/// Why a text was refused: one entry for each fault found.
#[derive(Debug)]
pub struct ParserError<'l> {
    pub errors: Vec<Error<'l>>,
}

/// One fault in a text: the line and the column at which the text leaves
/// the grammar, both counted from one, and what is wrong there.
#[derive(Debug)]
pub struct Error<'l> {
    pub line: i32,
    pub column: i32,
    pub error: &'l str,
}

/// The number of line feeds before position `offset`.
pub open spec fn line_feeds_before(s: Seq<char>, offset: int) -> int
    decreases offset,
{
    if offset <= 0 || offset > s.len() {
        0
    } else {
        line_feeds_before(s, offset - 1) + if s[offset - 1] == '\n' {
            1int
        } else {
            0int
        }
    }
}

/// The position at which the line of `offset` begins: behind the last line
/// feed before `offset`, or at the start of the text.
pub open spec fn line_start(s: Seq<char>, offset: int) -> int
    decreases offset,
{
    if offset <= 0 || offset > s.len() {
        0
    } else if s[offset - 1] == '\n' {
        offset
    } else {
        line_start(s, offset - 1)
    }
}

/// A count as a 32-bit number: itself where it fits, else the largest.
pub open spec fn clipped(n: int) -> i32 {
    if n > i32::MAX {
        i32::MAX
    } else if n < 0 {
        0i32
    } else {
        n as i32
    }
}

/// The line of position `offset`, counted from one.
pub open spec fn line_of(s: Seq<char>, offset: int) -> i32 {
    clipped(line_feeds_before(s, offset) + 1)
}

/// The column of position `offset` in its line, counted from one.
pub open spec fn column_of(s: Seq<char>, offset: int) -> i32 {
    clipped(offset - line_start(s, offset) + 1)
}

fn clip(n: usize) -> (res: i32)
    ensures
        res == clipped(n as int + 1),
{
    if n >= 0x7fff_ffff {
        0x7fff_ffff
    } else {
        (n + 1) as i32
    }
}

impl<'l> Error<'l> {
    /// The fault `error` at position `offset` of the text `s`.
    pub fn at(s: &Vec<char>, offset: usize, error: &'l str) -> (res: Error<'l>)
        requires
            offset <= s.len(),
        ensures
            res.line == line_of(s@, offset as int),
            res.column == column_of(s@, offset as int),
            res.error == error,
    {
        let mut feeds: usize = 0;
        let mut start: usize = 0;
        let mut i: usize = 0;
        while i < offset
            invariant
                i <= offset <= s.len(),
                feeds <= i,
                start <= i,
                feeds == line_feeds_before(s@, i as int),
                start == line_start(s@, i as int),
            decreases offset - i,
        {
            if s[i] == '\n' {
                feeds += 1;
                start = i + 1;
            }
            i += 1;
        }
        Error { line: clip(feeds), column: clip(offset - start), error }
    }
}

impl<'l> ParserError<'l> {
    /// The error that holds the one fault `error` at position `offset` of the
    /// text `s`.
    pub fn single(s: &Vec<char>, offset: usize, error: &'l str) -> (res: ParserError<'l>)
        requires
            offset <= s.len(),
        ensures
            res.errors@.len() == 1,
            res.errors@[0].line == line_of(s@, offset as int),
            res.errors@[0].column == column_of(s@, offset as int),
            res.errors@[0].error == error,
    {
        let mut errors: Vec<Error<'l>> = Vec::new();
        errors.push(Error::at(s, offset, error));
        ParserError { errors }
    }
}

} // verus!
