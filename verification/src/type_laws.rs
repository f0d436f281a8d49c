//! Reading and writing signatures are inverse to each other.

use vstd::prelude::*;
use crate::dbus_type::{proper, signature, signatures_from, well_formed, TypeModel};
use crate::type_parser::{parse_fields_at, parse_signature, parse_type_at, scalar_of};

verus! {

/// A code character stands for the type that has it as its code.
pub proof fn lemma_scalar_of_code(t: TypeModel)
    requires
        t.code() is Some,
    ensures
        scalar_of(t.code().unwrap()) == Some(t),
{
}

/// The type that a code character stands for has that character as its code.
pub proof fn lemma_code_of_scalar(c: char)
    requires
        scalar_of(c) is Some,
    ensures
        scalar_of(c).unwrap().code() == Some(c),
        proper(scalar_of(c).unwrap()),
{
}

/// The signature of a proper type is not empty, and its first character
/// tells a type with a code, a struct, and an array or dictionary apart.
pub proof fn lemma_signature_start(t: TypeModel)
    requires
        proper(t),
    ensures
        signature(t).len() >= 1,
        match t {
            TypeModel::Struct(_) => signature(t)[0] == '(',
            TypeModel::Array(_) => signature(t)[0] == 'a',
            TypeModel::Dictionary(_, _) => signature(t)[0] == 'a',
            _ => t.code() == Some(signature(t)[0]),
        },
{
}

/// Behind a prefix, the signatures of a joined sequence are those of its
/// second part.
pub proof fn lemma_signatures_shift(before: Seq<TypeModel>, types: Seq<TypeModel>, from: int)
    requires
        0 <= from,
    ensures
        signatures_from(before + types, before.len() + from) == signatures_from(types, from),
    decreases types.len() - from,
{
    if from < types.len() {
        lemma_signatures_shift(before, types, from + 1);
    }
}

/// What the grammar reads as a type is a proper type, and the text read is
/// its signature.
pub proof fn lemma_parse_type_sound(s: Seq<char>, pos: int)
    requires
        parse_type_at(s, pos) is Ok,
    ensures
        proper(parse_type_at(s, pos)->Ok_0.0),
        0 <= pos < parse_type_at(s, pos)->Ok_0.1 <= s.len(),
        s.subrange(pos, parse_type_at(s, pos)->Ok_0.1) == signature(parse_type_at(s, pos)->Ok_0.0),
    decreases s.len() - pos, 0nat,
{
    let (t, next) = parse_type_at(s, pos)->Ok_0;
    if scalar_of(s[pos]) is Some {
        lemma_code_of_scalar(s[pos]);
    } else if s[pos] == '(' {
        lemma_parse_fields_sound(s, pos + 1);
        assert(s.subrange(pos, next) =~= seq!['('] + s.subrange(pos + 1, next));
    } else if s[pos] == 'a' {
        if pos + 1 < s.len() && s[pos + 1] == '{' {
            lemma_parse_type_sound(s, pos + 2);
            let (key, middle) = parse_type_at(s, pos + 2)->Ok_0;
            lemma_parse_type_sound(s, middle);
            let (value, end) = parse_type_at(s, middle)->Ok_0;
        } else {
            lemma_parse_type_sound(s, pos + 1);
        }
    }
}

/// What the grammar reads as the fields of a struct are proper types, and
/// the text read is their signatures and the closing bracket.
pub proof fn lemma_parse_fields_sound(s: Seq<char>, pos: int)
    requires
        parse_fields_at(s, pos) is Ok,
    ensures
        forall|i: int|
            0 <= i < parse_fields_at(s, pos)->Ok_0.0.len() ==> proper(
                #[trigger] parse_fields_at(s, pos)->Ok_0.0[i],
            ),
        0 <= pos < parse_fields_at(s, pos)->Ok_0.1 <= s.len(),
        s.subrange(pos, parse_fields_at(s, pos)->Ok_0.1) == signatures_from(
            parse_fields_at(s, pos)->Ok_0.0,
            0,
        ) + seq![')'],
    decreases s.len() - pos, 1nat,
{
    let (fields, end) = parse_fields_at(s, pos)->Ok_0;
    if s[pos] == ')' {
        assert(s.subrange(pos, end) =~= signatures_from(fields, 0) + seq![')']);
    } else {
        lemma_parse_type_sound(s, pos);
        let (field, next) = parse_type_at(s, pos)->Ok_0;
        lemma_parse_fields_sound(s, next);
        let (rest, _) = parse_fields_at(s, next)->Ok_0;
        lemma_signatures_shift(seq![field], rest, 0);
        assert(s.subrange(pos, end) =~= s.subrange(pos, next) + s.subrange(next, end));
        assert(s.subrange(pos, end) =~= signatures_from(fields, 0) + seq![')']);
        assert forall|i: int| 0 <= i < fields.len() implies proper(#[trigger] fields[i]) by {
            if i > 0 {
            }
        }
    }
}

/// The grammar reads the signature of a proper type, wherever it stands in
/// a text, as that type.
pub proof fn lemma_parse_type_complete(t: TypeModel, s: Seq<char>, pos: int)
    requires
        proper(t),
        0 <= pos,
        pos + signature(t).len() <= s.len(),
        s.subrange(pos, pos + signature(t).len()) == signature(t),
    ensures
        parse_type_at(s, pos) == Ok::<(TypeModel, int), int>((t, pos + signature(t).len())),
    decreases t, 0nat,
{
    let sig = signature(t);
    let part = s.subrange(pos, pos + sig.len());
    lemma_signature_start(t);
    match t {
        TypeModel::Struct(fields) => {
            let body = signatures_from(fields, 0) + seq![')'];
            assert(s.subrange(pos + 1, pos + 1 + body.len()) =~= part.subrange(
                1,
                sig.len() as int,
            ));
            assert(part.subrange(1, sig.len() as int) =~= body);
            lemma_parse_fields_complete(fields, 0, s, pos + 1);
            assert(fields.subrange(0, fields.len() as int) =~= fields);
        },
        TypeModel::Array(element) => {
            lemma_signature_start(*element);
            let inner = signature(*element);
            assert(s.subrange(pos + 1, pos + 1 + inner.len()) =~= part.subrange(
                1,
                sig.len() as int,
            ));
            assert(part.subrange(1, sig.len() as int) =~= inner);
            assert(s[pos + 1] == inner[0]) by {
            }
            lemma_parse_type_complete(*element, s, pos + 1);
        },
        TypeModel::Dictionary(key, value) => {
            lemma_signature_start(*key);
            lemma_signature_start(*value);
            lemma_scalar_of_code(*key);
            let first = signature(*key);
            let second = signature(*value);
            assert(s[pos + 1] == part[1]);
            assert(s[pos + 2] == part[2]);
            assert(s.subrange(pos + 2, pos + 3) =~= first);
            lemma_parse_type_complete(*key, s, pos + 2);
            assert(s.subrange(pos + 3, pos + 3 + second.len()) =~= part.subrange(
                3,
                3int + second.len(),
            ));
            assert(part.subrange(3, 3int + second.len()) =~= second);
            lemma_parse_type_complete(*value, s, pos + 3);
            assert(s[pos + 3 + second.len()] == part[3int + second.len()]);
        },
        _ => {
            lemma_scalar_of_code(t);
        },
    }
}

/// The grammar reads the signatures of proper types, followed by a closing
/// bracket, as those types.
pub proof fn lemma_parse_fields_complete(fields: Seq<TypeModel>, from: int, s: Seq<char>, pos: int)
    requires
        forall|i: int| 0 <= i < fields.len() ==> proper(#[trigger] fields[i]),
        0 <= from <= fields.len(),
        0 <= pos,
        pos + signatures_from(fields, from).len() + 1 <= s.len(),
        s.subrange(pos, pos + signatures_from(fields, from).len() + 1) == signatures_from(
            fields,
            from,
        ) + seq![')'],
    ensures
        parse_fields_at(s, pos) == Ok::<(Seq<TypeModel>, int), int>(
            (
                fields.subrange(from, fields.len() as int),
                pos + signatures_from(fields, from).len() + 1,
            ),
        ),
    decreases fields, fields.len() - from,
{
    let body = signatures_from(fields, from) + seq![')'];
    let part = s.subrange(pos, pos + body.len());
    assert(s[pos] == part[0]);
    if from == fields.len() {
        assert(fields.subrange(from, fields.len() as int) =~= Seq::<TypeModel>::empty());
    } else {
        let field = fields[from];
        let sig = signature(field);
        let rest = signatures_from(fields, from + 1);
        lemma_signature_start(field);
        assert(s.subrange(pos, pos + sig.len()) =~= part.subrange(0, sig.len() as int));
        assert(part.subrange(0, sig.len() as int) =~= sig);
        lemma_parse_type_complete(field, s, pos);
        let next = pos + sig.len();
        assert(s.subrange(next, next + rest.len() + 1) =~= part.subrange(
            sig.len() as int,
            body.len() as int,
        ));
        assert(part.subrange(sig.len() as int, body.len() as int) =~= rest + seq![')']);
        lemma_parse_fields_complete(fields, from + 1, s, next);
        assert(seq![field] + fields.subrange(from + 1, fields.len() as int) =~= fields.subrange(
            from,
            fields.len() as int,
        ));
    }
}

/// Reading the signature of a well-formed type gives the type back.
pub proof fn lemma_parse_of_signature(t: TypeModel)
    requires
        well_formed(t),
    ensures
        parse_signature(signature(t)) == Ok::<TypeModel, int>(t),
{
    if !(t is Unit) {
        lemma_signature_start(t);
        let sig = signature(t);
        assert(sig.subrange(0, sig.len() as int) =~= sig);
        lemma_parse_type_complete(t, sig, 0);
    }
}

/// What a signature reads as is a well-formed type, and writing that type
/// gives the signature back.
pub proof fn lemma_signature_of_parse(s: Seq<char>)
    requires
        parse_signature(s) is Ok,
    ensures
        well_formed(parse_signature(s)->Ok_0),
        signature(parse_signature(s)->Ok_0) == s,
{
    if s.len() == 0 {
    } else {
        lemma_parse_type_sound(s, 0);
    }
}

/// Two well-formed types with the same signature are the same type.
pub proof fn lemma_signature_injective(a: TypeModel, b: TypeModel)
    requires
        well_formed(a),
        well_formed(b),
        signature(a) == signature(b),
    ensures
        a == b,
{
    lemma_parse_of_signature(a);
    lemma_parse_of_signature(b);
}

} // verus!
