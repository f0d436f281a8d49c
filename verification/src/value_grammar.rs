//! The grammar of value literals.
//!
//! A value is a list in square brackets, a struct in round brackets, a
//! dictionary in braces, a string in double quotes, or a word. Items are
//! parted by commas, a key from its value by a colon; blanks may stand
//! before every value and before every separator. A word runs up to the next
//! blank or separator and is read as a boolean, as a number with or without
//! a tag for its kind, or else as a string.

use vstd::prelude::*;
use crate::dbus_value::ValueModel;

verus! {

/// Why a text is no value literal.
#[derive(Debug, PartialEq, Eq, Clone, Copy, Structural)]
pub enum Fault {
    /// The text ends where a value, a separator or a closing bracket is due.
    UnexpectedEnd,
    /// A character stands where a value, a separator or the end is due.
    UnexpectedCharacter,
    /// A string in quotes is not closed.
    UnterminatedString,
    /// A backslash in a string stands before a character that it cannot
    /// escape.
    InvalidEscape,
    /// A number does not fit the kind that its tag names.
    NumberOutOfRange,
}

impl Fault {
    /// The words for the fault.
    pub open spec fn text(self) -> Seq<char> {
        match self {
            Fault::UnexpectedEnd => "unexpected end of input"@,
            Fault::UnexpectedCharacter => "unexpected character"@,
            Fault::UnterminatedString => "unterminated string"@,
            Fault::InvalidEscape => "invalid escape sequence"@,
            Fault::NumberOutOfRange => "number out of range"@,
        }
    }

    /// The words for the fault.
    pub fn message(&self) -> (words: &'static str)
        ensures
            words@ == self.text(),
    {
        match self {
            Fault::UnexpectedEnd => "unexpected end of input",
            Fault::UnexpectedCharacter => "unexpected character",
            Fault::UnterminatedString => "unterminated string",
            Fault::InvalidEscape => "invalid escape sequence",
            Fault::NumberOutOfRange => "number out of range",
        }
    }
}

/// A blank: space, tab, carriage return or line feed.
pub open spec fn is_blank(c: char) -> bool {
    c == ' ' || c == '\t' || c == '\r' || c == '\n'
}

/// A character that ends a word: a bracket, a comma, a colon or a quote.
pub open spec fn is_separator(c: char) -> bool {
    c == '[' || c == ']' || c == '(' || c == ')' || c == '{' || c == '}' || c == ',' || c == ':'
        || c == '"'
}

/// The value of a digit: of a decimal digit, or with `hex` of a hexadecimal
/// digit in either case.
pub open spec fn digit_of(c: char, hex: bool) -> Option<nat> {
    if c == '0' {
        Some(0)
    } else if c == '1' {
        Some(1)
    } else if c == '2' {
        Some(2)
    } else if c == '3' {
        Some(3)
    } else if c == '4' {
        Some(4)
    } else if c == '5' {
        Some(5)
    } else if c == '6' {
        Some(6)
    } else if c == '7' {
        Some(7)
    } else if c == '8' {
        Some(8)
    } else if c == '9' {
        Some(9)
    } else if hex && (c == 'a' || c == 'A') {
        Some(10)
    } else if hex && (c == 'b' || c == 'B') {
        Some(11)
    } else if hex && (c == 'c' || c == 'C') {
        Some(12)
    } else if hex && (c == 'd' || c == 'D') {
        Some(13)
    } else if hex && (c == 'e' || c == 'E') {
        Some(14)
    } else if hex && (c == 'f' || c == 'F') {
        Some(15)
    } else {
        None
    }
}

/// The first position at or after `from` that holds no blank.
pub open spec fn skip_blanks(s: Seq<char>, from: int) -> int
    decreases s.len() - from,
{
    if 0 <= from < s.len() && is_blank(s[from]) {
        skip_blanks(s, from + 1)
    } else {
        from
    }
}

/// The end of the word that begins at `from`: the first position at or
/// after it that holds a blank or a separator, or the end of the text.
pub open spec fn word_end(s: Seq<char>, from: int) -> int
    decreases s.len() - from,
{
    if 0 <= from < s.len() && !is_blank(s[from]) && !is_separator(s[from]) {
        word_end(s, from + 1)
    } else {
        from
    }
}

/// The end of the run of digits that begins at `from`.
pub open spec fn digits_end(t: Seq<char>, from: int, hex: bool) -> int
    decreases t.len() - from,
{
    if 0 <= from < t.len() && digit_of(t[from], hex) is Some {
        digits_end(t, from + 1, hex)
    } else {
        from
    }
}

/// The number that the digits from `from` up to `to` spell.
pub open spec fn number_of(t: Seq<char>, from: int, to: int, hex: bool) -> nat
    decreases to - from,
{
    if to <= from || to > t.len() || from < 0 {
        0
    } else {
        let digit = match digit_of(t[to - 1], hex) {
            Some(d) => d,
            None => 0,
        };
        if hex {
            number_of(t, from, to - 1, hex) * 16 + digit
        } else {
            number_of(t, from, to - 1, hex) * 10 + digit
        }
    }
}

/// The length of the sign of a number: one where the text begins with a
/// minus sign.
pub open spec fn sign_len(t: Seq<char>) -> int {
    if t.len() > 0 && t[0] == '-' {
        1
    } else {
        0
    }
}

/// The text up to `to` is a whole number: an optional minus sign and one or
/// more decimal digits.
pub open spec fn is_integer(t: Seq<char>, to: int) -> bool {
    0 <= to <= t.len() && sign_len(t) < to && digits_end(t.subrange(0, to), sign_len(t), false)
        == to
}

/// The whole number that the text up to `to` spells.
pub open spec fn integer_of(t: Seq<char>, to: int) -> int {
    if sign_len(t) == 1 {
        -(number_of(t, 1, to, false) as int)
    } else {
        number_of(t, 0, to, false) as int
    }
}

/// The text up to `to` is a number in hexadecimal: one or more digits.
pub open spec fn is_hex(t: Seq<char>, to: int) -> bool {
    0 < to <= t.len() && digits_end(t.subrange(0, to), 0, true) == to
}

/// The text up to `to` is a decimal fraction: an optional minus sign, one or
/// more digits and, if a point follows, one or more digits behind it.
pub open spec fn is_decimal(t: Seq<char>, to: int) -> bool {
    let body = t.subrange(0, to);
    let point = digits_end(body, sign_len(t), false);
    0 <= to <= t.len() && sign_len(t) < point && (point == to || (body[point] == '.' && point + 1
        < to && digits_end(body, point + 1, false) == to))
}

/// The tag at the end of a word, if the word has more than one character.
pub open spec fn tag_of(t: Seq<char>) -> Option<char> {
    if t.len() >= 2 {
        Some(t.last())
    } else {
        None
    }
}

/// A whole number `n` as a value of the kind that `tag` names, where it
/// fits; no tag and `i` name the signed 32-bit kind.
pub open spec fn tagged_integer(tag: char, n: int) -> Option<ValueModel> {
    if tag == 'i' {
        if i32::MIN <= n <= i32::MAX {
            Some(ValueModel::Int32(n as i32))
        } else {
            None
        }
    } else if tag == 'n' {
        if i16::MIN <= n <= i16::MAX {
            Some(ValueModel::Int16(n as i16))
        } else {
            None
        }
    } else if tag == 'x' {
        if i64::MIN <= n <= i64::MAX {
            Some(ValueModel::Int64(n as i64))
        } else {
            None
        }
    } else if tag == 'q' {
        if 0 <= n <= u16::MAX {
            Some(ValueModel::UInt16(n as u16))
        } else {
            None
        }
    } else if tag == 'u' {
        if 0 <= n <= u32::MAX {
            Some(ValueModel::UInt32(n as u32))
        } else {
            None
        }
    } else if tag == 't' {
        if 0 <= n <= u64::MAX {
            Some(ValueModel::UInt64(n as u64))
        } else {
            None
        }
    } else {
        None
    }
}

/// A tag of a whole number.
pub open spec fn is_integer_tag(tag: char) -> bool {
    tag == 'i' || tag == 'n' || tag == 'x' || tag == 'q' || tag == 'u' || tag == 't'
}

/// What a word is read as.
///
/// `true` and `false` are the booleans. A whole number without a tag is a
/// signed 32-bit number; with one of the tags `i n x q u t` behind it, a
/// number of the kind that the tag names. Hexadecimal digits before `y` are
/// a byte. A decimal fraction before `d` is a double, kept as its text. A
/// number that does not fit its kind is a fault. Every other word is a
/// string.
pub open spec fn word_value(t: Seq<char>) -> Result<ValueModel, Fault> {
    let body = t.len() - 1;
    if t == "true"@ {
        Ok(ValueModel::Boolean(true))
    } else if t == "false"@ {
        Ok(ValueModel::Boolean(false))
    } else if is_integer(t, t.len() as int) {
        match tagged_integer('i', integer_of(t, t.len() as int)) {
            Some(v) => Ok(v),
            None => Err(Fault::NumberOutOfRange),
        }
    } else if tag_of(t) is Some && is_integer_tag(t.last()) && is_integer(t, body) {
        match tagged_integer(t.last(), integer_of(t, body)) {
            Some(v) => Ok(v),
            None => Err(Fault::NumberOutOfRange),
        }
    } else if tag_of(t) == Some('y') && is_hex(t, body) {
        if number_of(t, 0, body, true) <= u8::MAX {
            Ok(ValueModel::Byte(number_of(t, 0, body, true) as u8))
        } else {
            Err(Fault::NumberOutOfRange)
        }
    } else if tag_of(t) == Some('d') && is_decimal(t, body) {
        Ok(ValueModel::Double(t.subrange(0, body)))
    } else {
        Ok(ValueModel::String(t))
    }
}

/// The character that a backslash before `c` stands for.
pub open spec fn unescaped(c: char) -> Option<char> {
    if c == '"' {
        Some('"')
    } else if c == '\\' {
        Some('\\')
    } else if c == 'n' {
        Some('\n')
    } else if c == 't' {
        Some('\t')
    } else if c == 'r' {
        Some('\r')
    } else {
        None
    }
}

/// What reading has found: a result and the position behind it, or the
/// position of a fault and the fault.
pub type Parsed<T> = Result<(T, int), (int, Fault)>;

/// The result `rest` with `first` put before what it holds.
pub open spec fn after<T>(first: Seq<T>, rest: Parsed<Seq<T>>) -> Parsed<Seq<T>> {
    match rest {
        Ok((items, end)) => Ok((first + items, end)),
        Err(fault) => Err(fault),
    }
}

/// The content of a string in quotes, read from behind the opening quote up
/// to and including the closing one: every character stands for itself but
/// the backslash, which stands with the character behind it for a quote, a
/// backslash, a line feed, a tab or a carriage return.
pub open spec fn parse_quoted_at(s: Seq<char>, pos: int) -> Parsed<Seq<char>>
    decreases s.len() - pos,
{
    if pos < 0 || pos >= s.len() {
        Err((s.len() as int, Fault::UnterminatedString))
    } else if s[pos] == '"' {
        Ok((Seq::empty(), pos + 1))
    } else if s[pos] == '\\' {
        if pos + 1 >= s.len() {
            Err((s.len() as int, Fault::UnterminatedString))
        } else {
            match unescaped(s[pos + 1]) {
                Some(c) => after(seq![c], parse_quoted_at(s, pos + 2)),
                None => Err((pos + 1, Fault::InvalidEscape)),
            }
        }
    } else {
        after(seq![s[pos]], parse_quoted_at(s, pos + 1))
    }
}

/// What reading one value at `pos` gives, blanks before it passed over.
pub open spec fn parse_value_at(s: Seq<char>, pos: int) -> Parsed<ValueModel>
    decreases s.len() - pos, 0nat,
{
    if pos < 0 || pos >= s.len() {
        Err((s.len() as int, Fault::UnexpectedEnd))
    } else if is_blank(s[pos]) {
        parse_value_at(s, pos + 1)
    } else if s[pos] == '[' {
        as_list(parse_items_at(s, pos + 1, ']', false, 0))
    } else if s[pos] == '(' {
        as_list(parse_items_at(s, pos + 1, ')', false, 0))
    } else if s[pos] == '{' {
        as_list(parse_items_at(s, pos + 1, '}', true, 0))
    } else if s[pos] == '"' {
        match parse_quoted_at(s, pos + 1) {
            Ok((text, next)) => Ok((ValueModel::String(text), next)),
            Err(fault) => Err(fault),
        }
    } else if is_separator(s[pos]) {
        Err((pos, Fault::UnexpectedCharacter))
    } else {
        match word_value(s.subrange(pos, word_end(s, pos))) {
            Ok(v) => Ok((v, word_end(s, pos))),
            Err(fault) => Err((pos, fault)),
        }
    }
}

/// The items read, as a list value.
pub open spec fn as_list(items: Parsed<Seq<ValueModel>>) -> Parsed<ValueModel> {
    match items {
        Ok((items, next)) => Ok((ValueModel::List(items), next)),
        Err(fault) => Err(fault),
    }
}

/// What reading the items of a list from `pos` up to and including the
/// closing bracket `close` gives, where `count` items have been read before.
///
/// The closing bracket may stand at once only where no item has been read.
/// Behind an item stands a comma and the next item, or the closing bracket.
/// Where the items are `paired`, as in a dictionary, a colon and a value
/// stand behind every key instead.
pub open spec fn parse_items_at(s: Seq<char>, pos: int, close: char, paired: bool, count: nat)
    -> Parsed<Seq<ValueModel>>
    decreases s.len() - pos, 1nat,
{
    let start = skip_blanks(s, pos);
    if pos < 0 || start < pos || start >= s.len() {
        Err((s.len() as int, Fault::UnexpectedEnd))
    } else if count == 0 && s[start] == close {
        Ok((Seq::empty(), start + 1))
    } else {
        match parse_value_at(s, start) {
            Ok((item, next)) => {
                let mark = skip_blanks(s, next);
                if next <= start || mark < next || mark >= s.len() {
                    Err((s.len() as int, Fault::UnexpectedEnd))
                } else if paired && count % 2 == 0 {
                    if s[mark] == ':' {
                        after(seq![item], parse_items_at(s, mark + 1, close, paired, count + 1))
                    } else {
                        Err((mark, Fault::UnexpectedCharacter))
                    }
                } else if s[mark] == ',' {
                    after(seq![item], parse_items_at(s, mark + 1, close, paired, count + 1))
                } else if s[mark] == close {
                    Ok((seq![item], mark + 1))
                } else {
                    Err((mark, Fault::UnexpectedCharacter))
                }
            },
            Err(fault) => Err(fault),
        }
    }
}

/// What reading a whole text gives: the unit value for the empty text, else
/// the one value that the text spells, with nothing but blanks behind it.
pub open spec fn parse_literal(s: Seq<char>) -> Result<ValueModel, (int, Fault)> {
    if s.len() == 0 {
        Ok(ValueModel::Unit)
    } else {
        match parse_value_at(s, 0) {
            Ok((v, next)) => if skip_blanks(s, next) >= s.len() {
                Ok(v)
            } else {
                Err((skip_blanks(s, next), Fault::UnexpectedCharacter))
            },
            Err(fault) => Err(fault),
        }
    }
}

} // verus!
