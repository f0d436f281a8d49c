//! Reading value literals.

use vstd::prelude::*;
use crate::dbus_value::{DBusValue, ValueModel};
use crate::parser::{column_of, line_of, ParserError};
use crate::text::{chars_of, push_char};
use crate::value_laws::{doubles_are_decimal, lemma_literal_doubles};
use crate::value_grammar::{
    after,
    digit_of,
    digits_end,
    integer_of,
    is_blank,
    is_integer_tag,
    is_separator,
    number_of,
    parse_items_at,
    parse_literal,
    parse_quoted_at,
    parse_value_at,
    skip_blanks,
    tagged_integer,
    unescaped,
    word_end,
    word_value,
    Fault,
};

verus! {

/// The models of a vector of values.
pub open spec fn values_of(items: Seq<DBusValue>) -> Seq<ValueModel> {
    Seq::new(items.len(), |i: int| items[i]@)
}

/// Above every number that any kind takes.
pub const NUMBER_CAP: u128 = 0x1_0000_0000_0000_0000;

/// A number, or the cap where it is above it.
pub open spec fn capped(n: nat) -> nat {
    if n >= NUMBER_CAP {
        NUMBER_CAP as nat
    } else {
        n
    }
}

fn is_blank_char(c: char) -> (res: bool)
    ensures
        res == is_blank(c),
{
    c == ' ' || c == '\t' || c == '\r' || c == '\n'
}

fn is_separator_char(c: char) -> (res: bool)
    ensures
        res == is_separator(c),
{
    c == '[' || c == ']' || c == '(' || c == ')' || c == '{' || c == '}' || c == ',' || c == ':'
        || c == '"'
}

fn digit_value(c: char, hex: bool) -> (res: Option<u8>)
    ensures
        match res {
            Some(d) => digit_of(c, hex) == Some(d as nat) && d < 16 && (!hex ==> d < 10),
            None => digit_of(c, hex) is None,
        },
{
    if c == '0' {
        Some(0)
    } else if c == '1' {
        Some(1)
    } else if c == '2' {
        Some(2)
    } else if c == '3' {
        Some(3)
    } else if c == '4' {
        Some(4)
    } else if c == '5' {
        Some(5)
    } else if c == '6' {
        Some(6)
    } else if c == '7' {
        Some(7)
    } else if c == '8' {
        Some(8)
    } else if c == '9' {
        Some(9)
    } else if hex && (c == 'a' || c == 'A') {
        Some(10)
    } else if hex && (c == 'b' || c == 'B') {
        Some(11)
    } else if hex && (c == 'c' || c == 'C') {
        Some(12)
    } else if hex && (c == 'd' || c == 'D') {
        Some(13)
    } else if hex && (c == 'e' || c == 'E') {
        Some(14)
    } else if hex && (c == 'f' || c == 'F') {
        Some(15)
    } else {
        None
    }
}

fn unescape(c: char) -> (res: Option<char>)
    ensures
        res == unescaped(c),
{
    if c == '"' {
        Some('"')
    } else if c == '\\' {
        Some('\\')
    } else if c == 'n' {
        Some('\n')
    } else if c == 't' {
        Some('\t')
    } else if c == 'r' {
        Some('\r')
    } else {
        None
    }
}

/// The characters from `from` up to `to`, as a string.
pub fn string_of(chars: &Vec<char>, from: usize, to: usize) -> (text: String)
    requires
        from <= to <= chars.len(),
    ensures
        text@ == chars@.subrange(from as int, to as int),
{
    let mut text = String::new();
    let mut i: usize = from;
    while i < to
        invariant
            from <= i <= to <= chars.len(),
            text@ == chars@.subrange(from as int, i as int),
        decreases to - i,
    {
        push_char(&mut text, chars[i]);
        i += 1;
    }
    text
}

fn word_of(chars: &Vec<char>, from: usize, to: usize) -> (word: Vec<char>)
    requires
        from <= to <= chars.len(),
    ensures
        word@ == chars@.subrange(from as int, to as int),
{
    let mut word: Vec<char> = Vec::new();
    let mut i: usize = from;
    while i < to
        invariant
            from <= i <= to <= chars.len(),
            word@ == chars@.subrange(from as int, i as int),
        decreases to - i,
    {
        word.push(chars[i]);
        i += 1;
    }
    word
}

fn spells(word: &Vec<char>, text: &str) -> (res: bool)
    ensures
        res == (word@ == text@),
{
    let other = chars_of(text);
    if other.len() != word.len() {
        return false;
    }
    let mut i: usize = 0;
    while i < word.len()
        invariant
            i <= word.len(),
            other.len() == word.len(),
            other@ == text@,
            forall|j: int| 0 <= j < i ==> word@[j] == other@[j],
        decreases word.len() - i,
    {
        if word[i] != other[i] {
            return false;
        }
        i += 1;
    }
    proof {
        assert(word@ =~= other@);
    }
    true
}

fn skip_blank_chars(s: &Vec<char>, from: usize) -> (res: usize)
    requires
        from <= s.len(),
    ensures
        res == skip_blanks(s@, from as int),
        from <= res <= s.len(),
        res < s.len() ==> !is_blank(s@[res as int]),
{
    let mut i: usize = from;
    while i < s.len() && is_blank_char(s[i])
        invariant
            from <= i <= s.len(),
            skip_blanks(s@, from as int) == skip_blanks(s@, i as int),
        decreases s.len() - i,
    {
        i += 1;
    }
    i
}

fn find_word_end(s: &Vec<char>, from: usize) -> (res: usize)
    requires
        from <= s.len(),
    ensures
        res == word_end(s@, from as int),
        from <= res <= s.len(),
{
    let mut i: usize = from;
    while i < s.len() && !is_blank_char(s[i]) && !is_separator_char(s[i])
        invariant
            from <= i <= s.len(),
            word_end(s@, from as int) == word_end(s@, i as int),
        decreases s.len() - i,
    {
        i += 1;
    }
    i
}

fn digits_run(t: &Vec<char>, from: usize, to: usize, hex: bool) -> (res: usize)
    requires
        from <= to <= t.len(),
    ensures
        res == digits_end(t@.subrange(0, to as int), from as int, hex),
        from <= res <= to,
{
    let mut i: usize = from;
    while i < to && digit_value(t[i], hex).is_some()
        invariant
            from <= i <= to <= t.len(),
            digits_end(t@.subrange(0, to as int), from as int, hex) == digits_end(
                t@.subrange(0, to as int),
                i as int,
                hex,
            ),
        decreases to - i,
    {
        i += 1;
    }
    i
}

fn read_number(t: &Vec<char>, from: usize, to: usize, hex: bool) -> (res: u128)
    requires
        from <= to <= t.len(),
    ensures
        res == capped(number_of(t@, from as int, to as int, hex)),
{
    let mut number: u128 = 0;
    let mut i: usize = from;
    while i < to
        invariant
            from <= i <= to <= t.len(),
            number == capped(number_of(t@, from as int, i as int, hex)),
        decreases to - i,
    {
        let digit: u128 = match digit_value(t[i], hex) {
            Some(d) => d as u128,
            None => 0,
        };
        let next: u128 = if hex {
            number * 16 + digit
        } else {
            number * 10 + digit
        };
        number = if next >= NUMBER_CAP {
            NUMBER_CAP
        } else {
            next
        };
        i += 1;
    }
    number
}

fn make_integer(tag: char, negative: bool, magnitude: u128, Ghost(n): Ghost<int>) -> (res: Result<
    DBusValue,
    Fault,
>)
    requires
        is_integer_tag(tag),
        magnitude <= NUMBER_CAP,
        magnitude == capped(
            (if negative {
                -n
            } else {
                n
            }) as nat,
        ),
        negative ==> n <= 0,
        !negative ==> n >= 0,
    ensures
        match res {
            Ok(v) => tagged_integer(tag, n) == Some(v@),
            Err(fault) => tagged_integer(tag, n) is None && fault == Fault::NumberOutOfRange,
        },
{
    if magnitude >= NUMBER_CAP {
        return Err(Fault::NumberOutOfRange);
    }
    let value: i128 = if negative {
        -(magnitude as i128)
    } else {
        magnitude as i128
    };
    if tag == 'i' {
        if -0x8000_0000 <= value && value <= 0x7fff_ffff {
            Ok(DBusValue::Int32(value as i32))
        } else {
            Err(Fault::NumberOutOfRange)
        }
    } else if tag == 'n' {
        if -0x8000 <= value && value <= 0x7fff {
            Ok(DBusValue::Int16(value as i16))
        } else {
            Err(Fault::NumberOutOfRange)
        }
    } else if tag == 'x' {
        if -0x8000_0000_0000_0000 <= value && value <= 0x7fff_ffff_ffff_ffff {
            Ok(DBusValue::Int64(value as i64))
        } else {
            Err(Fault::NumberOutOfRange)
        }
    } else if tag == 'q' {
        if 0 <= value && value <= 0xffff {
            Ok(DBusValue::UInt16(value as u16))
        } else {
            Err(Fault::NumberOutOfRange)
        }
    } else if tag == 'u' {
        if 0 <= value && value <= 0xffff_ffff {
            Ok(DBusValue::UInt32(value as u32))
        } else {
            Err(Fault::NumberOutOfRange)
        }
    } else {
        if 0 <= value && value <= 0xffff_ffff_ffff_ffff {
            Ok(DBusValue::UInt64(value as u64))
        } else {
            Err(Fault::NumberOutOfRange)
        }
    }
}

fn is_tag(c: char) -> (res: bool)
    ensures
        res == is_integer_tag(c),
{
    c == 'i' || c == 'n' || c == 'x' || c == 'q' || c == 'u' || c == 't'
}

/// Reads a word as a boolean, a number or a string.
pub fn read_word(t: &Vec<char>) -> (res: Result<DBusValue, Fault>)
    ensures
        match res {
            Ok(v) => word_value(t@) == Ok::<ValueModel, Fault>(v@),
            Err(fault) => word_value(t@) == Err::<ValueModel, Fault>(fault),
        },
{
    let n = t.len();
    if spells(t, "true") {
        return Ok(DBusValue::Boolean(true));
    }
    if spells(t, "false") {
        return Ok(DBusValue::Boolean(false));
    }
    let sign: usize = if n > 0 && t[0] == '-' {
        1
    } else {
        0
    };
    proof {
        assert(t@.subrange(0, n as int) =~= t@);
    }
    if sign < n && digits_run(t, sign, n, false) == n {
        let magnitude = read_number(t, sign, n, false);
        return make_integer('i', sign == 1, magnitude, Ghost(integer_of(t@, n as int)));
    }
    if n >= 2 {
        let tag = t[n - 1];
        let body = n - 1;
        if is_tag(tag) && sign < body && digits_run(t, sign, body, false) == body {
            let magnitude = read_number(t, sign, body, false);
            return make_integer(tag, sign == 1, magnitude, Ghost(integer_of(t@, body as int)));
        }
        if tag == 'y' && digits_run(t, 0, body, true) == body {
            let number = read_number(t, 0, body, true);
            return if number <= 0xff {
                Ok(DBusValue::Byte(number as u8))
            } else {
                Err(Fault::NumberOutOfRange)
            };
        }
        if tag == 'd' {
            let point = digits_run(t, sign, body, false);
            if sign < point && (point == body || (t[point] == '.' && point + 1 < body
                && digits_run(t, point + 1, body, false) == body)) {
                return Ok(DBusValue::Double(string_of(t, 0, body)));
            }
        }
    }
    Ok(DBusValue::String(string_of(t, 0, n)))
}

/// Reads the content of a string in quotes from behind the opening quote.
pub fn parse_quoted(s: &Vec<char>, start: usize) -> (res: Result<(String, usize), (usize, Fault)>)
    requires
        start <= s.len(),
    ensures
        match res {
            Ok((text, next)) => parse_quoted_at(s@, start as int) == Ok::<
                (Seq<char>, int),
                (int, Fault),
            >((text@, next as int)) && start < next <= s.len(),
            Err((at, fault)) => parse_quoted_at(s@, start as int) == Err::<
                (Seq<char>, int),
                (int, Fault),
            >((at as int, fault)) && at <= s.len(),
        },
{
    let mut text = String::new();
    let mut pos: usize = start;
    loop
        invariant
            start <= pos <= s.len(),
            parse_quoted_at(s@, start as int) == after(text@, parse_quoted_at(s@, pos as int)),
        decreases s.len() - pos,
    {
        if pos >= s.len() {
            return Err((s.len(), Fault::UnterminatedString));
        }
        let c = s[pos];
        if c == '"' {
            return Ok((text, pos + 1));
        }
        if c == '\\' {
            if pos + 1 >= s.len() {
                return Err((s.len(), Fault::UnterminatedString));
            }
            match unescape(s[pos + 1]) {
                Some(plain) => {
                    proof {
                        match parse_quoted_at(s@, pos + 2) {
                            Ok((rest, _)) => {
                                assert(text@ + (seq![plain] + rest) =~= text@.push(plain) + rest);
                            },
                            Err(_) => {},
                        }
                    }
                    push_char(&mut text, plain);
                    pos = pos + 2;
                },
                None => {
                    return Err((pos + 1, Fault::InvalidEscape));
                },
            }
        } else {
            proof {
                match parse_quoted_at(s@, pos + 1) {
                    Ok((rest, _)) => {
                        assert(text@ + (seq![c] + rest) =~= text@.push(c) + rest);
                    },
                    Err(_) => {},
                }
            }
            push_char(&mut text, c);
            pos = pos + 1;
        }
    }
}

/// Blanks before a value do not change what it is read as.
pub proof fn lemma_value_behind_blanks(s: Seq<char>, pos: int)
    requires
        0 <= pos <= s.len(),
    ensures
        parse_value_at(s, pos) == parse_value_at(s, skip_blanks(s, pos)),
        pos <= skip_blanks(s, pos) <= s.len(),
    decreases s.len() - pos,
{
    if pos < s.len() && is_blank(s[pos]) {
        lemma_value_behind_blanks(s, pos + 1);
    }
}

/// Reads one value at `pos`, blanks before it passed over.
pub fn parse_value(s: &Vec<char>, pos: usize) -> (res: Result<(DBusValue, usize), (usize, Fault)>)
    requires
        pos <= s.len(),
    ensures
        match res {
            Ok((v, next)) => parse_value_at(s@, pos as int) == Ok::<
                (ValueModel, int),
                (int, Fault),
            >((v@, next as int)) && pos < next <= s.len(),
            Err((at, fault)) => parse_value_at(s@, pos as int) == Err::<
                (ValueModel, int),
                (int, Fault),
            >((at as int, fault)) && at <= s.len(),
        },
    decreases s.len() - pos, 0nat,
{
    let start = skip_blank_chars(s, pos);
    proof {
        lemma_value_behind_blanks(s@, pos as int);
    }
    if start >= s.len() {
        return Err((s.len(), Fault::UnexpectedEnd));
    }
    let c = s[start];
    if c == '[' || c == '(' || c == '{' {
        let close = if c == '[' {
            ']'
        } else if c == '(' {
            ')'
        } else {
            '}'
        };
        match parse_items(s, start + 1, close, c == '{') {
            Ok((items, next)) => {
                let v = DBusValue::Vec(items);
                proof {
                    assert(v@->List_0 =~= values_of(items@));
                }
                Ok((v, next))
            },
            Err(fault) => Err(fault),
        }
    } else if c == '"' {
        match parse_quoted(s, start + 1) {
            Ok((text, next)) => Ok((DBusValue::String(text), next)),
            Err(fault) => Err(fault),
        }
    } else if is_separator_char(c) {
        Err((start, Fault::UnexpectedCharacter))
    } else {
        let end = find_word_end(s, start + 1);
        let word = word_of(s, start, end);
        match read_word(&word) {
            Ok(v) => Ok((v, end)),
            Err(fault) => Err((start, fault)),
        }
    }
}

/// Reads the items of a list from `start` up to and including the closing
/// bracket.
pub fn parse_items(s: &Vec<char>, start: usize, close: char, paired: bool) -> (res: Result<
    (Vec<DBusValue>, usize),
    (usize, Fault),
>)
    requires
        start <= s.len(),
    ensures
        match res {
            Ok((items, next)) => parse_items_at(s@, start as int, close, paired, 0) == Ok::<
                (Seq<ValueModel>, int),
                (int, Fault),
            >((values_of(items@), next as int)) && start < next <= s.len(),
            Err((at, fault)) => parse_items_at(s@, start as int, close, paired, 0) == Err::<
                (Seq<ValueModel>, int),
                (int, Fault),
            >((at as int, fault)) && at <= s.len(),
        },
    decreases s.len() - start, 1nat,
{
    let mut items: Vec<DBusValue> = Vec::new();
    let mut pos: usize = start;
    loop
        invariant
            start <= pos <= s.len(),
            parse_items_at(s@, start as int, close, paired, 0) == after(
                values_of(items@),
                parse_items_at(s@, pos as int, close, paired, items.len() as nat),
            ),
        decreases s.len() - pos,
    {
        let begin = skip_blank_chars(s, pos);
        if begin >= s.len() {
            return Err((s.len(), Fault::UnexpectedEnd));
        }
        if items.len() == 0 && s[begin] == close {
            return Ok((items, begin + 1));
        }
        match parse_value(s, begin) {
            Ok((item, next)) => {
                let mark = skip_blank_chars(s, next);
                if mark >= s.len() {
                    return Err((s.len(), Fault::UnexpectedEnd));
                }
                let c = s[mark];
                let key = paired && items.len() % 2 == 0;
                proof {
                    let before = values_of(items@);
                    let grown = values_of(items@.push(item));
                    assert(grown =~= before + seq![item@]);
                    match parse_items_at(
                        s@,
                        mark + 1,
                        close,
                        paired,
                        (items.len() + 1) as nat,
                    ) {
                        Ok((rest, _)) => {
                            assert(before + (seq![item@] + rest) =~= grown + rest);
                        },
                        Err(_) => {},
                    }
                }
                if key {
                    if c == ':' {
                        items.push(item);
                        pos = mark + 1;
                    } else {
                        return Err((mark, Fault::UnexpectedCharacter));
                    }
                } else if c == ',' {
                    items.push(item);
                    pos = mark + 1;
                } else if c == close {
                    items.push(item);
                    return Ok((items, mark + 1));
                } else {
                    return Err((mark, Fault::UnexpectedCharacter));
                }
            },
            Err(fault) => {
                return Err(fault);
            },
        }
    }
}

/// Reads a whole text as one value.
pub fn parse_literal_chars(s: &Vec<char>) -> (res: Result<DBusValue, (usize, Fault)>)
    ensures
        match res {
            Ok(v) => parse_literal(s@) == Ok::<ValueModel, (int, Fault)>(v@),
            Err((at, fault)) => parse_literal(s@) == Err::<ValueModel, (int, Fault)>(
                (at as int, fault),
            ) && at <= s.len(),
        },
{
    if s.len() == 0 {
        return Ok(DBusValue::Unit);
    }
    match parse_value(s, 0) {
        Ok((v, next)) => {
            let end = skip_blank_chars(s, next);
            if end >= s.len() {
                Ok(v)
            } else {
                Err((end, Fault::UnexpectedCharacter))
            }
        },
        Err(fault) => Err(fault),
    }
}

impl DBusValue {
    /// Reads a value literal; where the text is none, says at which line and
    /// column it leaves the grammar, and why.
    pub fn parse(text: &str) -> (res: Result<DBusValue, ParserError<'static>>)
        ensures
            match res {
                Ok(v) => parse_literal(text@) == Ok::<ValueModel, (int, Fault)>(v@)
                    && doubles_are_decimal(v@),
                Err(e) => parse_literal(text@) is Err && e.errors@.len() == 1
                    && e.errors@[0].line == line_of(text@, parse_literal(text@)->Err_0.0)
                    && e.errors@[0].column == column_of(text@, parse_literal(text@)->Err_0.0)
                    && e.errors@[0].error@ == parse_literal(text@)->Err_0.1.text(),
            },
    {
        let chars = chars_of(text);
        match parse_literal_chars(&chars) {
            Ok(v) => {
                proof {
                    lemma_literal_doubles(text@);
                }
                Ok(v)
            },
            Err((at, fault)) => Err(ParserError::single(&chars, at, fault.message())),
        }
    }
}

} // verus!
