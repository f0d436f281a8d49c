//! Writing a value as a literal and reading the literal are inverse to each
//! other.

use vstd::prelude::*;
use crate::dbus_value::ValueModel;
use crate::text::{decimal_text, digit_text};
use crate::value_grammar::{
    digit_of,
    digits_end,
    is_blank,
    is_decimal,
    is_integer_tag,
    is_separator,
    number_of,
    parse_items_at,
    parse_literal,
    parse_quoted_at,
    parse_value_at,
    sign_len,
    skip_blanks,
    tagged_integer,
    unescaped,
    word_end,
    word_value,
    Fault,
};
use crate::value_text::{
    escape_of,
    escaped_text,
    hex_digit_text,
    hex_text,
    integer_text,
    joined_literals,
    literal_text,
};

verus! {

/// A value that can stand inside a literal: it holds no unit value, and
/// every double in it holds a decimal fraction.
pub open spec fn readable(v: ValueModel) -> bool
    decreases v,
{
    match v {
        ValueModel::Unit => false,
        ValueModel::Double(text) => is_decimal(text, text.len() as int),
        ValueModel::List(items) => forall|i: int|
            0 <= i < items.len() ==> readable(#[trigger] items[i]),
        _ => true,
    }
}

/// A character that can stand in a word.
pub open spec fn in_word(c: char) -> bool {
    !is_blank(c) && !is_separator(c)
}

/// A text of which every character can stand in a word.
pub open spec fn is_word(t: Seq<char>) -> bool {
    forall|i: int| 0 <= i < t.len() ==> in_word(#[trigger] t[i])
}

/// A decimal digit is written as the one character that is read as it.
pub proof fn lemma_digit_text(d: nat)
    requires
        d < 10,
    ensures
        digit_text(d).len() == 1,
        digit_of(digit_text(d)[0], false) == Some(d),
        digit_of(digit_text(d)[0], true) == Some(d),
{
    reveal_strlit("0");
    reveal_strlit("1");
    reveal_strlit("2");
    reveal_strlit("3");
    reveal_strlit("4");
    reveal_strlit("5");
    reveal_strlit("6");
    reveal_strlit("7");
    reveal_strlit("8");
    reveal_strlit("9");
}

/// A hexadecimal digit is written as the one character that is read as it.
pub proof fn lemma_hex_digit_text(d: nat)
    requires
        d < 16,
    ensures
        hex_digit_text(d).len() == 1,
        digit_of(hex_digit_text(d)[0], true) == Some(d),
{
    reveal_strlit("0");
    reveal_strlit("1");
    reveal_strlit("2");
    reveal_strlit("3");
    reveal_strlit("4");
    reveal_strlit("5");
    reveal_strlit("6");
    reveal_strlit("7");
    reveal_strlit("8");
    reveal_strlit("9");
    reveal_strlit("a");
    reveal_strlit("b");
    reveal_strlit("c");
    reveal_strlit("d");
    reveal_strlit("e");
    reveal_strlit("f");
}

/// Where a text holds the decimal digits of a number, they are digits, and
/// the number is read from them.
pub proof fn lemma_decimal_read_back(t: Seq<char>, from: int, to: int, n: nat)
    requires
        0 <= from <= to <= t.len(),
        t.subrange(from, to) == decimal_text(n),
    ensures
        from < to,
        number_of(t, from, to, false) == n,
        forall|i: int| from <= i < to ==> digit_of(#[trigger] t[i], false) is Some,
    decreases n,
{
    let part = t.subrange(from, to);
    if n < 10 {
        lemma_digit_text(n);
        assert(t[from] == part[0]);
        assert(number_of(t, from, from, false) == 0);
    } else {
        lemma_digit_text(n % 10);
        let head = decimal_text(n / 10);
        assert(part.len() == head.len() + 1);
        assert(t[to - 1] == part[part.len() - 1]);
        assert(t.subrange(from, to - 1) =~= part.subrange(0, part.len() - 1));
        assert(part.subrange(0, part.len() - 1) =~= head);
        lemma_decimal_read_back(t, from, to - 1, n / 10);
    }
}

/// Where a text holds the hexadecimal digits of a number, they are digits,
/// and the number is read from them.
pub proof fn lemma_hex_read_back(t: Seq<char>, from: int, to: int, n: nat)
    requires
        0 <= from <= to <= t.len(),
        t.subrange(from, to) == hex_text(n),
    ensures
        from < to,
        number_of(t, from, to, true) == n,
        forall|i: int| from <= i < to ==> digit_of(#[trigger] t[i], true) is Some,
    decreases n,
{
    let part = t.subrange(from, to);
    if n < 16 {
        lemma_hex_digit_text(n);
        assert(t[from] == part[0]);
        assert(number_of(t, from, from, true) == 0);
    } else {
        lemma_hex_digit_text(n % 16);
        let head = hex_text(n / 16);
        assert(part.len() == head.len() + 1);
        assert(t[to - 1] == part[part.len() - 1]);
        assert(t.subrange(from, to - 1) =~= part.subrange(0, part.len() - 1));
        assert(part.subrange(0, part.len() - 1) =~= head);
        lemma_hex_read_back(t, from, to - 1, n / 16);
    }
}

/// A run of digits ends where the first character stands that is none.
pub proof fn lemma_digits_end(t: Seq<char>, from: int, to: int, hex: bool)
    requires
        0 <= from <= to <= t.len(),
        forall|i: int| from <= i < to ==> digit_of(#[trigger] t[i], hex) is Some,
        to == t.len() || digit_of(t[to], hex) is None,
    ensures
        digits_end(t, from, hex) == to,
    decreases to - from,
{
    if from < to {
        lemma_digits_end(t, from + 1, to, hex);
    }
}

/// Every character of a run of digits is a digit, and the run ends within
/// the text.
pub proof fn lemma_digits_run(t: Seq<char>, from: int, hex: bool)
    requires
        0 <= from <= t.len(),
    ensures
        from <= digits_end(t, from, hex) <= t.len(),
        forall|i: int|
            from <= i < digits_end(t, from, hex) ==> digit_of(#[trigger] t[i], hex) is Some,
    decreases t.len() - from,
{
    if from < t.len() && digit_of(t[from], hex) is Some {
        lemma_digits_run(t, from + 1, hex);
    }
}

/// A word ends where the first character stands that cannot stand in one.
pub proof fn lemma_word_end(s: Seq<char>, from: int, to: int)
    requires
        0 <= from <= to <= s.len(),
        forall|i: int| from <= i < to ==> in_word(#[trigger] s[i]),
        to == s.len() || !in_word(s[to]),
    ensures
        word_end(s, from) == to,
    decreases to - from,
{
    if from < to {
        lemma_word_end(s, from + 1, to);
    }
}

/// A whole number with the tag of a kind that takes it is a word, and is
/// read as the number of that kind.
pub proof fn lemma_integer_word(n: int, tag: char)
    requires
        is_integer_tag(tag),
        tagged_integer(tag, n) is Some,
    ensures
        is_word(integer_text(n) + seq![tag]),
        word_value(integer_text(n) + seq![tag]) == Ok::<ValueModel, Fault>(
            tagged_integer(tag, n)->Some_0,
        ),
{
    reveal_strlit("-");
    reveal_strlit("true");
    reveal_strlit("false");
    let t = integer_text(n) + seq![tag];
    let body = t.len() - 1;
    let sign: int = if n < 0 {
        1
    } else {
        0
    };
    let magnitude: nat = if n < 0 {
        (-n) as nat
    } else {
        n as nat
    };
    assert(t.subrange(sign, body) =~= decimal_text(magnitude));
    lemma_decimal_read_back(t, sign, body, magnitude);
    assert(t[body] == tag);
    assert(digit_of(tag, false) is None);
    lemma_digits_end(t, sign, body, false);
    assert(t.subrange(0, t.len() as int) =~= t);
    let front = t.subrange(0, body);
    assert forall|i: int| sign <= i < body implies digit_of(#[trigger] front[i], false)
        is Some by {
        assert(front[i] == t[i]);
    }
    lemma_digits_end(front, sign, body, false);
    assert(number_of(t, sign, body, false) == magnitude);
    assert forall|i: int| 0 <= i < t.len() implies in_word(#[trigger] t[i]) by {
        if sign <= i < body {
            assert(digit_of(t[i], false) is Some);
        }
    }
    assert(t != "true"@);
    assert(t != "false"@);
}

/// A byte in hexadecimal before `y` is a word, and is read as the byte.
pub proof fn lemma_byte_word(n: u8)
    ensures
        is_word(hex_text(n as nat) + seq!['y']),
        word_value(hex_text(n as nat) + seq!['y']) == Ok::<ValueModel, Fault>(
            ValueModel::Byte(n),
        ),
{
    reveal_strlit("true");
    reveal_strlit("false");
    let t = hex_text(n as nat) + seq!['y'];
    let body = t.len() - 1;
    assert(t.subrange(0, body) =~= hex_text(n as nat));
    lemma_hex_read_back(t, 0, body, n as nat);
    assert(t[body] == 'y');
    let front = t.subrange(0, body);
    assert forall|i: int| 0 <= i < body implies digit_of(#[trigger] front[i], true) is Some by {
        assert(front[i] == t[i]);
    }
    lemma_digits_end(front, 0, body, true);
    assert(t.subrange(0, t.len() as int) =~= t);
    lemma_digits_run(t, sign_len(t), false);
    assert(digits_end(t, sign_len(t), false) != t.len()) by {
        if digits_end(t, sign_len(t), false) == t.len() {
            assert(digit_of(t[body], false) is Some);
        }
    }
    assert forall|i: int| 0 <= i < t.len() implies in_word(#[trigger] t[i]) by {
        if i < body {
            assert(digit_of(t[i], true) is Some);
        }
    }
    assert(t != "true"@);
    assert(t != "false"@);
}

/// A decimal fraction before `d` is a word, and is read as the double that
/// holds the fraction.
pub proof fn lemma_double_word(text: Seq<char>)
    requires
        is_decimal(text, text.len() as int),
    ensures
        is_word(text + seq!['d']),
        word_value(text + seq!['d']) == Ok::<ValueModel, Fault>(ValueModel::Double(text)),
{
    reveal_strlit("true");
    reveal_strlit("false");
    let t = text + seq!['d'];
    let body = t.len() - 1;
    assert(t.subrange(0, body) =~= text);
    assert(text.subrange(0, text.len() as int) =~= text);
    assert(t.subrange(0, t.len() as int) =~= t);
    assert(t[body] == 'd');
    assert(sign_len(t) == sign_len(text));
    lemma_digits_run(t, sign_len(t), false);
    assert(digits_end(t, sign_len(t), false) != t.len()) by {
        if digits_end(t, sign_len(t), false) == t.len() {
            assert(digit_of(t[body], false) is Some);
        }
    }
    let point = digits_end(text, sign_len(text), false);
    lemma_digits_run(text, sign_len(text), false);
    if point < text.len() {
        lemma_digits_run(text, point + 1, false);
    }
    assert forall|i: int| 0 <= i < t.len() implies in_word(#[trigger] t[i]) by {
        if i < body {
            assert(t[i] == text[i]);
            if sign_len(text) <= i < point {
                assert(digit_of(text[i], false) is Some);
            } else if point < i {
                assert(digit_of(text[i], false) is Some);
            }
        }
    }
    assert(t != "true"@);
    assert(t != "false"@);
}

/// The words `true` and `false` are read as the booleans.
pub proof fn lemma_boolean_word(b: bool)
    ensures
        is_word(literal_text(ValueModel::Boolean(b))),
        literal_text(ValueModel::Boolean(b)).len() > 0,
        word_value(literal_text(ValueModel::Boolean(b))) == Ok::<ValueModel, Fault>(
            ValueModel::Boolean(b),
        ),
{
    reveal_strlit("true");
    reveal_strlit("false");
}

/// The literal of a value that is neither string nor list nor unit is a
/// word, and is read as the value.
pub proof fn lemma_scalar_word(v: ValueModel)
    requires
        readable(v),
        !(v is String),
        !(v is List),
    ensures
        is_word(literal_text(v)),
        literal_text(v).len() > 0,
        word_value(literal_text(v)) == Ok::<ValueModel, Fault>(v),
{
    reveal_strlit("y");
    reveal_strlit("n");
    reveal_strlit("i");
    reveal_strlit("x");
    reveal_strlit("q");
    reveal_strlit("u");
    reveal_strlit("t");
    reveal_strlit("d");
    match v {
        ValueModel::Boolean(b) => {
            lemma_boolean_word(b);
        },
        ValueModel::Byte(n) => {
            lemma_byte_word(n);
            assert("y"@ =~= seq!['y']);
        },
        ValueModel::Int16(n) => {
            lemma_integer_word(n as int, 'n');
            assert("n"@ =~= seq!['n']);
        },
        ValueModel::Int32(n) => {
            lemma_integer_word(n as int, 'i');
            assert("i"@ =~= seq!['i']);
        },
        ValueModel::Int64(n) => {
            lemma_integer_word(n as int, 'x');
            assert("x"@ =~= seq!['x']);
        },
        ValueModel::UInt16(n) => {
            lemma_integer_word(n as int, 'q');
            assert("q"@ =~= seq!['q']);
        },
        ValueModel::UInt32(n) => {
            lemma_integer_word(n as int, 'u');
            assert("u"@ =~= seq!['u']);
        },
        ValueModel::UInt64(n) => {
            lemma_integer_word(n as int, 't');
            assert("t"@ =~= seq!['t']);
        },
        ValueModel::Double(text) => {
            lemma_double_word(text);
            assert("d"@ =~= seq!['d']);
        },
        _ => {},
    }
}

/// A character written as it stands inside quotes is read back as itself:
/// either it stands for itself and is neither quote nor backslash, or a
/// backslash stands before the character that is unescaped to it.
pub proof fn lemma_escape_read_back(c: char)
    ensures
        escape_of(c).len() == 1 ==> escape_of(c)[0] == c && c != '"' && c != '\\',
        escape_of(c).len() != 1 ==> escape_of(c).len() == 2 && escape_of(c)[0] == '\\'
            && unescaped(escape_of(c)[1]) == Some(c),
{
}

/// Reading a text that was written as it stands inside quotes, with the
/// closing quote behind it, gives the text back.
pub proof fn lemma_quoted_read_back(text: Seq<char>, from: int, s: Seq<char>, pos: int)
    requires
        0 <= from <= text.len(),
        0 <= pos,
        pos + escaped_text(text, from).len() + 1 <= s.len(),
        s.subrange(pos, pos + escaped_text(text, from).len() + 1) == escaped_text(text, from)
            + seq!['"'],
    ensures
        parse_quoted_at(s, pos) == Ok::<(Seq<char>, int), (int, Fault)>(
            (text.subrange(from, text.len() as int), pos + escaped_text(text, from).len() + 1),
        ),
    decreases text.len() - from,
{
    let written = escaped_text(text, from) + seq!['"'];
    let part = s.subrange(pos, pos + written.len());
    assert(s[pos] == part[0]);
    if from == text.len() {
        assert(text.subrange(from, text.len() as int) =~= Seq::<char>::empty());
    } else {
        let c = text[from];
        let one = escape_of(c);
        let rest = escaped_text(text, from + 1);
        lemma_escape_read_back(c);
        assert(s.subrange(pos + one.len(), pos + one.len() + rest.len() + 1) =~= part.subrange(
            one.len() as int,
            written.len() as int,
        ));
        assert(part.subrange(one.len() as int, written.len() as int) =~= rest + seq!['"']);
        lemma_quoted_read_back(text, from + 1, s, pos + one.len());
        if one.len() == 2 {
            assert(part[1] == one[1]);
        }
        assert(seq![c] + text.subrange(from + 1, text.len() as int) =~= text.subrange(
            from,
            text.len() as int,
        ));
    }
}

/// The literal of a readable value is not empty, and begins with a
/// character that is neither a blank nor a closing bracket.
pub proof fn lemma_literal_start(v: ValueModel)
    requires
        readable(v),
    ensures
        literal_text(v).len() > 0,
        !is_blank(literal_text(v)[0]),
        literal_text(v)[0] != ']',
        match v {
            ValueModel::String(_) => literal_text(v)[0] == '"',
            ValueModel::List(_) => literal_text(v)[0] == '[',
            _ => in_word(literal_text(v)[0]),
        },
{
    reveal_strlit("\"");
    reveal_strlit("[");
    match v {
        ValueModel::String(_) => {},
        ValueModel::List(_) => {},
        _ => {
            lemma_scalar_word(v);
        },
    }
}

/// Where the literal of a readable value stands in a text, before a blank,
/// a separator or the end, the value is read from it.
pub proof fn lemma_value_read_back(v: ValueModel, s: Seq<char>, pos: int)
    requires
        readable(v),
        0 <= pos,
        pos + literal_text(v).len() <= s.len(),
        s.subrange(pos, pos + literal_text(v).len()) == literal_text(v),
        pos + literal_text(v).len() == s.len() || !in_word(s[pos + literal_text(v).len()]),
    ensures
        parse_value_at(s, pos) == Ok::<(ValueModel, int), (int, Fault)>(
            (v, pos + literal_text(v).len()),
        ),
    decreases v, 0nat,
{
    reveal_strlit("\"");
    reveal_strlit("[");
    reveal_strlit("]");
    let written = literal_text(v);
    let end = pos + written.len();
    let part = s.subrange(pos, end);
    lemma_literal_start(v);
    assert(s[pos] == part[0]);
    match v {
        ValueModel::String(text) => {
            let inner = escaped_text(text, 0);
            assert(written =~= seq!['"'] + inner + seq!['"']);
            assert(s.subrange(pos + 1, pos + 1 + inner.len() + 1) =~= part.subrange(
                1,
                written.len() as int,
            ));
            assert(part.subrange(1, written.len() as int) =~= inner + seq!['"']);
            lemma_quoted_read_back(text, 0, s, pos + 1);
            assert(text.subrange(0, text.len() as int) =~= text);
        },
        ValueModel::List(items) => {
            let inner = joined_literals(items, 0);
            assert(written =~= seq!['['] + inner + seq![']']);
            assert(s.subrange(pos + 1, pos + 1 + inner.len() + 1) =~= part.subrange(
                1,
                written.len() as int,
            ));
            assert(part.subrange(1, written.len() as int) =~= inner + seq![']']);
            lemma_items_read_back(items, 0, s, pos + 1);
            assert(items.subrange(0, items.len() as int) =~= items);
        },
        _ => {
            lemma_scalar_word(v);
            assert forall|i: int| pos <= i < end implies in_word(#[trigger] s[i]) by {
                assert(s[i] == part[i - pos]);
            }
            lemma_word_end(s, pos, end);
        },
    }
}

/// Where the literals of readable values stand in a text, parted by a
/// comma and a space and before a closing square bracket, the values are
/// read from them.
pub proof fn lemma_items_read_back(items: Seq<ValueModel>, from: int, s: Seq<char>, pos: int)
    requires
        forall|i: int| 0 <= i < items.len() ==> readable(#[trigger] items[i]),
        0 <= from <= items.len(),
        from == 0 || from < items.len(),
        0 <= pos,
        pos + joined_literals(items, from).len() + 1 <= s.len(),
        s.subrange(pos, pos + joined_literals(items, from).len() + 1) == joined_literals(
            items,
            from,
        ) + seq![']'],
    ensures
        parse_items_at(s, pos, ']', false, from as nat) == Ok::<
            (Seq<ValueModel>, int),
            (int, Fault),
        >(
            (
                items.subrange(from, items.len() as int),
                pos + joined_literals(items, from).len() + 1,
            ),
        ),
    decreases items, items.len() - from,
{
    reveal_strlit(", ");
    let written = joined_literals(items, from) + seq![']'];
    let part = s.subrange(pos, pos + written.len());
    assert(s[pos] == part[0]);
    if from == items.len() {
        assert(items.subrange(from, items.len() as int) =~= Seq::<ValueModel>::empty());
    } else {
        let item = items[from];
        let one = literal_text(item);
        lemma_literal_start(item);
        assert(part[0] == one[0]);
        let next = pos + one.len();
        assert(s.subrange(pos, next) =~= part.subrange(0, one.len() as int));
        assert(part.subrange(0, one.len() as int) =~= one);
        assert(s[next] == part[one.len() as int]);
        if from == items.len() - 1 {
            assert(s[next] == ']');
            lemma_value_read_back(item, s, pos);
            assert(seq![item] =~= items.subrange(from, items.len() as int));
        } else {
            let rest = joined_literals(items, from + 1);
            assert(written =~= one + seq![',', ' '] + rest + seq![']']);
            assert(s[next] == ',');
            assert(s[next + 1] == part[one.len() + 1int]);
            assert(s[next + 1] == ' ');
            lemma_value_read_back(item, s, pos);
            assert(s.subrange(next + 2, next + 2 + rest.len() + 1) =~= part.subrange(
                one.len() + 2int,
                written.len() as int,
            ));
            assert(part.subrange(one.len() + 2int, written.len() as int) =~= rest + seq![']']);
            lemma_items_read_back(items, from + 1, s, next + 2);
            lemma_literal_start(items[from + 1]);
            assert(s[next + 2] == part[one.len() + 2int]);
            assert(part[one.len() + 2int] == literal_text(items[from + 1])[0]) by {
                assert((rest + seq![']'])[0] == rest[0]);
            }
            assert(skip_blanks(s, next + 2) == next + 2);
            assert(skip_blanks(s, next + 1) == next + 2);
            assert(parse_items_at(s, next + 1, ']', false, (from + 1) as nat) == parse_items_at(
                s,
                next + 2,
                ']',
                false,
                (from + 1) as nat,
            ));
            assert(seq![item] + items.subrange(from + 1, items.len() as int) =~= items.subrange(
                from,
                items.len() as int,
            ));
        }
    }
}

/// Reading the literal of a value gives the value back, where the value is
/// the unit value or can stand inside a literal.
pub proof fn lemma_literal_read_back(v: ValueModel)
    requires
        v is Unit || readable(v),
    ensures
        parse_literal(literal_text(v)) == Ok::<ValueModel, (int, Fault)>(v),
{
    if !(v is Unit) {
        let s = literal_text(v);
        lemma_literal_start(v);
        assert(s.subrange(0, s.len() as int) =~= s);
        lemma_value_read_back(v, s, 0);
    }
}

} // verus!
