//! What holds of every value that the grammar of literals gives.

use vstd::prelude::*;
use crate::dbus_value::ValueModel;
use crate::value_grammar::{
    is_blank,
    is_decimal,
    is_separator,
    parse_items_at,
    parse_literal,
    parse_value_at,
    skip_blanks,
    word_end,
    word_value,
};

verus! {

/// Every double in the value holds a decimal fraction: an optional minus
/// sign, digits and, if a point follows, digits behind it.
pub open spec fn doubles_are_decimal(v: ValueModel) -> bool
    decreases v,
{
    match v {
        ValueModel::Double(text) => is_decimal(text, text.len() as int),
        ValueModel::List(items) => forall|i: int|
            0 <= i < items.len() ==> doubles_are_decimal(#[trigger] items[i]),
        _ => true,
    }
}

/// A word that is read as a double is read as the text of a decimal
/// fraction.
pub proof fn lemma_word_double_is_decimal(t: Seq<char>)
    requires
        word_value(t) is Ok,
    ensures
        doubles_are_decimal(word_value(t)->Ok_0),
{
    let v = word_value(t)->Ok_0;
    if v is Double {
        let body = t.len() - 1;
        let text = t.subrange(0, body);
        assert(text.subrange(0, text.len() as int) =~= text);
    }
}

/// Blanks are passed over up to the end of the text at most.
pub proof fn lemma_skip_blanks_bounds(s: Seq<char>, pos: int)
    requires
        0 <= pos <= s.len(),
    ensures
        pos <= skip_blanks(s, pos) <= s.len(),
    decreases s.len() - pos,
{
    if pos < s.len() && is_blank(s[pos]) {
        lemma_skip_blanks_bounds(s, pos + 1);
    }
}

/// Every double in a value that is read at some position holds a decimal
/// fraction.
pub proof fn lemma_value_doubles(s: Seq<char>, pos: int)
    requires
        0 <= pos <= s.len(),
        parse_value_at(s, pos) is Ok,
    ensures
        doubles_are_decimal(parse_value_at(s, pos)->Ok_0.0),
    decreases s.len() - pos, 0nat,
{
    if pos < s.len() {
        let c = s[pos];
        if is_blank(c) {
            lemma_value_doubles(s, pos + 1);
        } else if c == '[' {
            lemma_items_doubles(s, pos + 1, ']', false, 0);
        } else if c == '(' {
            lemma_items_doubles(s, pos + 1, ')', false, 0);
        } else if c == '{' {
            lemma_items_doubles(s, pos + 1, '}', true, 0);
        } else if c == '"' {
        } else if !is_separator(c) {
            lemma_word_double_is_decimal(s.subrange(pos, word_end(s, pos)));
        }
    }
}

/// Every double in the items that are read from some position holds a
/// decimal fraction.
pub proof fn lemma_items_doubles(s: Seq<char>, pos: int, close: char, paired: bool, count: nat)
    requires
        0 <= pos <= s.len(),
        parse_items_at(s, pos, close, paired, count) is Ok,
    ensures
        forall|i: int|
            0 <= i < parse_items_at(s, pos, close, paired, count)->Ok_0.0.len()
                ==> doubles_are_decimal(
                #[trigger] parse_items_at(s, pos, close, paired, count)->Ok_0.0[i],
            ),
    decreases s.len() - pos, 1nat,
{
    let items = parse_items_at(s, pos, close, paired, count)->Ok_0.0;
    let start = skip_blanks(s, pos);
    lemma_skip_blanks_bounds(s, pos);
    if !(count == 0 && s[start] == close) {
        lemma_value_doubles(s, start);
        let (item, next) = parse_value_at(s, start)->Ok_0;
        let mark = skip_blanks(s, next);
        if (paired && count % 2 == 0) || s[mark] == ',' {
            lemma_items_doubles(s, mark + 1, close, paired, count + 1);
            let rest = parse_items_at(s, mark + 1, close, paired, count + 1)->Ok_0.0;
            assert forall|i: int| 0 <= i < items.len() implies doubles_are_decimal(
                #[trigger] items[i],
            ) by {
                if i > 0 {
                }
            }
        } else {
        }
    }
}

/// Every double in a value that a literal spells holds a decimal fraction.
pub proof fn lemma_literal_doubles(s: Seq<char>)
    requires
        parse_literal(s) is Ok,
    ensures
        doubles_are_decimal(parse_literal(s)->Ok_0),
{
    if s.len() > 0 {
        lemma_value_doubles(s, 0);
    }
}

} // verus!
