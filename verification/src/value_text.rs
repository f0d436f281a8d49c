//! Values written as literals.

use vstd::prelude::*;
use crate::dbus_value::{DBusValue, ValueModel};
use crate::text::{chars_of, decimal, decimal_text, push_char};

verus! {

/// One hexadecimal digit in lower case; `0` for anything above fifteen.
pub open spec fn hex_digit_text(d: nat) -> Seq<char> {
    if d == 1 {
        "1"@
    } else if d == 2 {
        "2"@
    } else if d == 3 {
        "3"@
    } else if d == 4 {
        "4"@
    } else if d == 5 {
        "5"@
    } else if d == 6 {
        "6"@
    } else if d == 7 {
        "7"@
    } else if d == 8 {
        "8"@
    } else if d == 9 {
        "9"@
    } else if d == 10 {
        "a"@
    } else if d == 11 {
        "b"@
    } else if d == 12 {
        "c"@
    } else if d == 13 {
        "d"@
    } else if d == 14 {
        "e"@
    } else if d == 15 {
        "f"@
    } else {
        "0"@
    }
}

/// The hexadecimal digits of `n`, without leading zeros.
pub open spec fn hex_text(n: nat) -> Seq<char>
    decreases n,
{
    if n < 16 {
        hex_digit_text(n)
    } else {
        hex_text(n / 16) + hex_digit_text(n % 16)
    }
}

/// A whole number in decimal, with a minus sign before a negative one.
pub open spec fn integer_text(n: int) -> Seq<char> {
    if n < 0 {
        "-"@ + decimal_text((-n) as nat)
    } else {
        decimal_text(n as nat)
    }
}

/// How a character stands inside quotes: behind a backslash where it is a
/// quote, a backslash, a line feed, a tab or a carriage return, else as
/// itself.
pub open spec fn escape_of(c: char) -> Seq<char> {
    if c == '"' {
        seq!['\\', '"']
    } else if c == '\\' {
        seq!['\\', '\\']
    } else if c == '\n' {
        seq!['\\', 'n']
    } else if c == '\t' {
        seq!['\\', 't']
    } else if c == '\r' {
        seq!['\\', 'r']
    } else {
        seq![c]
    }
}

/// The characters from `from` on, each as it stands inside quotes.
pub open spec fn escaped_text(text: Seq<char>, from: int) -> Seq<char>
    decreases text.len() - from,
{
    if from < 0 || from >= text.len() {
        Seq::empty()
    } else {
        escape_of(text[from]) + escaped_text(text, from + 1)
    }
}

/// A value written as a literal: a boolean as `true` or `false`, a number
/// with the tag of its kind (a byte in hexadecimal), a double as its text
/// before `d`, a string in quotes, a list in square brackets with a comma
/// and a space between its items, the unit value as the empty text.
pub open spec fn literal_text(v: ValueModel) -> Seq<char>
    decreases v, 0nat,
{
    match v {
        ValueModel::Boolean(b) => if b {
            "true"@
        } else {
            "false"@
        },
        ValueModel::Byte(n) => hex_text(n as nat) + "y"@,
        ValueModel::Int16(n) => integer_text(n as int) + "n"@,
        ValueModel::Int32(n) => integer_text(n as int) + "i"@,
        ValueModel::Int64(n) => integer_text(n as int) + "x"@,
        ValueModel::UInt16(n) => integer_text(n as int) + "q"@,
        ValueModel::UInt32(n) => integer_text(n as int) + "u"@,
        ValueModel::UInt64(n) => integer_text(n as int) + "t"@,
        ValueModel::Double(text) => text + "d"@,
        ValueModel::String(text) => "\""@ + escaped_text(text, 0) + "\""@,
        ValueModel::List(items) => "["@ + joined_literals(items, 0) + "]"@,
        ValueModel::Unit => Seq::empty(),
    }
}

/// The items from `from` on, written as literals, with a comma and a space
/// between them.
pub open spec fn joined_literals(items: Seq<ValueModel>, from: int) -> Seq<char>
    decreases items, items.len() - from,
{
    if from < 0 || from >= items.len() {
        Seq::empty()
    } else if from == items.len() - 1 {
        literal_text(items[from])
    } else {
        literal_text(items[from]) + ", "@ + joined_literals(items, from + 1)
    }
}

fn hex_digit_str(d: u8) -> (text: &'static str)
    requires
        d < 16,
    ensures
        text@ == hex_digit_text(d as nat),
{
    if d == 1 {
        "1"
    } else if d == 2 {
        "2"
    } else if d == 3 {
        "3"
    } else if d == 4 {
        "4"
    } else if d == 5 {
        "5"
    } else if d == 6 {
        "6"
    } else if d == 7 {
        "7"
    } else if d == 8 {
        "8"
    } else if d == 9 {
        "9"
    } else if d == 10 {
        "a"
    } else if d == 11 {
        "b"
    } else if d == 12 {
        "c"
    } else if d == 13 {
        "d"
    } else if d == 14 {
        "e"
    } else if d == 15 {
        "f"
    } else {
        "0"
    }
}

/// Writes a byte in hexadecimal.
pub fn hex(n: u8) -> (text: String)
    ensures
        text@ == hex_text(n as nat),
{
    if n < 16 {
        String::from_str(hex_digit_str(n))
    } else {
        let mut text = String::from_str(hex_digit_str(n / 16));
        text.append(hex_digit_str(n % 16));
        proof {
            assert(hex_text((n / 16) as nat) == hex_digit_text((n / 16) as nat));
        }
        text
    }
}

/// Writes a signed number in decimal.
pub fn signed(n: i64) -> (text: String)
    ensures
        text@ == integer_text(n as int),
{
    if n < 0 {
        let magnitude: u64 = if n == i64::MIN {
            0x8000_0000_0000_0000
        } else {
            (-n) as u64
        };
        let mut text = String::from_str("-");
        let digits = decimal(magnitude);
        text.append(digits.as_str());
        text
    } else {
        decimal(n as u64)
    }
}

/// Writes a text as it stands inside quotes.
pub fn escaped(text: &str) -> (res: String)
    ensures
        res@ == escaped_text(text@, 0),
{
    let chars = chars_of(text);
    let mut res = String::new();
    let mut i: usize = 0;
    while i < chars.len()
        invariant
            i <= chars.len(),
            chars@ == text@,
            res@ + escaped_text(chars@, i as int) == escaped_text(chars@, 0),
        decreases chars.len() - i,
    {
        let c = chars[i];
        if c == '"' {
            push_char(&mut res, '\\');
            push_char(&mut res, '"');
        } else if c == '\\' {
            push_char(&mut res, '\\');
            push_char(&mut res, '\\');
        } else if c == '\n' {
            push_char(&mut res, '\\');
            push_char(&mut res, 'n');
        } else if c == '\t' {
            push_char(&mut res, '\\');
            push_char(&mut res, 't');
        } else if c == '\r' {
            push_char(&mut res, '\\');
            push_char(&mut res, 'r');
        } else {
            push_char(&mut res, c);
        }
        i += 1;
    }
    res
}

impl DBusValue {
    /// Writes the value as a literal.
    pub fn literal(&self) -> (text: String)
        ensures
            text@ == literal_text(self@),
        decreases self,
    {
        match self {
            DBusValue::Boolean(b) => if *b {
                String::from_str("true")
            } else {
                String::from_str("false")
            },
            DBusValue::Byte(n) => {
                let mut text = hex(*n);
                text.append("y");
                text
            },
            DBusValue::Int16(n) => {
                let mut text = signed(*n as i64);
                text.append("n");
                text
            },
            DBusValue::Int32(n) => {
                let mut text = signed(*n as i64);
                text.append("i");
                text
            },
            DBusValue::Int64(n) => {
                let mut text = signed(*n);
                text.append("x");
                text
            },
            DBusValue::UInt16(n) => {
                let mut text = decimal(*n as u64);
                text.append("q");
                text
            },
            DBusValue::UInt32(n) => {
                let mut text = decimal(*n as u64);
                text.append("u");
                text
            },
            DBusValue::UInt64(n) => {
                let mut text = decimal(*n);
                text.append("t");
                text
            },
            DBusValue::Double(digits) => {
                let mut text = digits.clone();
                text.append("d");
                text
            },
            DBusValue::String(content) => {
                let mut text = String::from_str("\"");
                let inner = escaped(content.as_str());
                text.append(inner.as_str());
                text.append("\"");
                text
            },
            DBusValue::Vec(items) => {
                let mut text = String::from_str("[");
                let mut i: usize = 0;
                while i < items.len()
                    invariant
                        i <= items.len(),
                        self@ == ValueModel::List(self@.items()),
                        self@.items().len() == items.len(),
                        forall|j: int| 0 <= j < items.len() ==> self@.items()[j] == items[j]@,
                        forall|j: int| 0 <= j < items.len() ==> decreases_to!(self => items[j]),
                        text@ + joined_literals(self@.items(), i as int) == "["@ + joined_literals(
                            self@.items(),
                            0,
                        ),
                    decreases items.len() - i,
                {
                    let item = items[i].literal();
                    text.append(item.as_str());
                    if i + 1 < items.len() {
                        text.append(", ");
                    }
                    i += 1;
                }
                text.append("]");
                text
            },
            DBusValue::Unit => {
                proof {
                    reveal_strlit("");
                }
                String::from_str("")
            },
        }
    }
}

} // verus!
