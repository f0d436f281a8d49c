//! The signature grammar: a type is one code character, a struct in round
//! brackets, an array `a` before its element type, or a dictionary `a{` key
//! type, value type `}`.

use vstd::prelude::*;
use crate::dbus_error::DBusError;
use crate::dbus_type::{signature, well_formed, DBusType, TypeModel};
use crate::parser::{column_of, line_of, Parser, ParserError};
use crate::text::chars_of;
use crate::type_laws::{lemma_parse_of_signature, lemma_signature_of_parse};

verus! {

/// The type whose code is `c`, if `c` is the code of one.
pub open spec fn scalar_of(c: char) -> Option<TypeModel> {
    if c == 'b' {
        Some(TypeModel::Boolean)
    } else if c == 'y' {
        Some(TypeModel::Byte)
    } else if c == 'n' {
        Some(TypeModel::Int16)
    } else if c == 'i' {
        Some(TypeModel::Int32)
    } else if c == 'x' {
        Some(TypeModel::Int64)
    } else if c == 'q' {
        Some(TypeModel::UInt16)
    } else if c == 'u' {
        Some(TypeModel::UInt32)
    } else if c == 't' {
        Some(TypeModel::UInt64)
    } else if c == 'd' {
        Some(TypeModel::Double)
    } else if c == 's' {
        Some(TypeModel::String)
    } else if c == 'o' {
        Some(TypeModel::ObjPath)
    } else if c == 'g' {
        Some(TypeModel::Signature)
    } else if c == 'h' {
        Some(TypeModel::FileDescriptor)
    } else if c == 'v' {
        Some(TypeModel::Variant)
    } else {
        None
    }
}

/// What reading one type at `pos` gives: the type and the position behind
/// it, or the position at which the text leaves the grammar.
pub open spec fn parse_type_at(s: Seq<char>, pos: int) -> Result<(TypeModel, int), int>
    decreases s.len() - pos, 0nat,
{
    if pos < 0 || pos >= s.len() {
        Err(s.len() as int)
    } else if scalar_of(s[pos]) is Some {
        Ok((scalar_of(s[pos]).unwrap(), pos + 1))
    } else if s[pos] == '(' {
        match parse_fields_at(s, pos + 1) {
            Ok((fields, next)) => Ok((TypeModel::Struct(fields), next)),
            Err(fault) => Err(fault),
        }
    } else if s[pos] == 'a' {
        if pos + 1 < s.len() && s[pos + 1] == '{' {
            match parse_type_at(s, pos + 2) {
                Ok((key, middle)) => if !key.is_basic() {
                    Err(pos + 2)
                } else if middle <= pos || middle > s.len() {
                    Err(middle)
                } else {
                    match parse_type_at(s, middle) {
                        Ok((value, end)) => if 0 <= end < s.len() && s[end] == '}' {
                            Ok((TypeModel::Dictionary(Box::new(key), Box::new(value)), end + 1))
                        } else {
                            Err(end)
                        },
                        Err(fault) => Err(fault),
                    }
                },
                Err(fault) => Err(fault),
            }
        } else {
            match parse_type_at(s, pos + 1) {
                Ok((element, next)) => Ok((TypeModel::Array(Box::new(element)), next)),
                Err(fault) => Err(fault),
            }
        }
    } else {
        Err(pos)
    }
}

/// What reading the fields of a struct from `pos` up to and including the
/// closing bracket gives.
pub open spec fn parse_fields_at(s: Seq<char>, pos: int) -> Result<(Seq<TypeModel>, int), int>
    decreases s.len() - pos, 1nat,
{
    if pos < 0 || pos >= s.len() {
        Err(s.len() as int)
    } else if s[pos] == ')' {
        Ok((Seq::empty(), pos + 1))
    } else {
        match parse_type_at(s, pos) {
            Ok((field, next)) => if next <= pos || next > s.len() {
                Err(next)
            } else {
                with_first(field, parse_fields_at(s, next))
            },
            Err(fault) => Err(fault),
        }
    }
}

/// The result `rest` with `first` put before its fields.
pub open spec fn with_first(first: TypeModel, rest: Result<(Seq<TypeModel>, int), int>) -> Result<
    (Seq<TypeModel>, int),
    int,
> {
    match rest {
        Ok((fields, end)) => Ok((seq![first] + fields, end)),
        Err(fault) => Err(fault),
    }
}

/// The result `rest` with all of `before` put before its fields.
pub open spec fn with_prefix(before: Seq<TypeModel>, rest: Result<(Seq<TypeModel>, int), int>)
    -> Result<(Seq<TypeModel>, int), int> {
    match rest {
        Ok((fields, end)) => Ok((before + fields, end)),
        Err(fault) => Err(fault),
    }
}

/// What reading a whole signature gives: the unit type for the empty text,
/// else the one type that the text spells from its first to its last
/// character, or the position at which it leaves the grammar.
pub open spec fn parse_signature(s: Seq<char>) -> Result<TypeModel, int> {
    if s.len() == 0 {
        Ok(TypeModel::Unit)
    } else {
        match parse_type_at(s, 0) {
            Ok((t, next)) => if next == s.len() {
                Ok(t)
            } else {
                Err(next)
            },
            Err(fault) => Err(fault),
        }
    }
}

/// The models of a vector of types.
pub open spec fn models_of(types: Seq<DBusType>) -> Seq<TypeModel> {
    Seq::new(types.len(), |i: int| types[i]@)
}

fn scalar_type(c: char) -> (res: Option<DBusType>)
    ensures
        match res {
            Some(t) => scalar_of(c) == Some(t@),
            None => scalar_of(c) is None,
        },
{
    if c == 'b' {
        Some(DBusType::Boolean)
    } else if c == 'y' {
        Some(DBusType::Byte)
    } else if c == 'n' {
        Some(DBusType::Int16)
    } else if c == 'i' {
        Some(DBusType::Int32)
    } else if c == 'x' {
        Some(DBusType::Int64)
    } else if c == 'q' {
        Some(DBusType::UInt16)
    } else if c == 'u' {
        Some(DBusType::UInt32)
    } else if c == 't' {
        Some(DBusType::UInt64)
    } else if c == 'd' {
        Some(DBusType::Double)
    } else if c == 's' {
        Some(DBusType::String)
    } else if c == 'o' {
        Some(DBusType::ObjPath)
    } else if c == 'g' {
        Some(DBusType::Signature)
    } else if c == 'h' {
        Some(DBusType::FileDescriptor)
    } else if c == 'v' {
        Some(DBusType::Variant)
    } else {
        None
    }
}

/// Reads one type at `pos`.
pub fn parse_type(s: &Vec<char>, pos: usize) -> (res: Result<(DBusType, usize), usize>)
    requires
        pos <= s.len(),
    ensures
        match res {
            Ok((t, next)) => parse_type_at(s@, pos as int) == Ok::<(TypeModel, int), int>(
                (t@, next as int),
            ) && pos < next <= s.len(),
            Err(fault) => parse_type_at(s@, pos as int) == Err::<(TypeModel, int), int>(
                fault as int,
            ) && fault <= s.len(),
        },
    decreases s.len() - pos, 0nat,
{
    if pos >= s.len() {
        return Err(s.len());
    }
    let c = s[pos];
    if let Some(t) = scalar_type(c) {
        return Ok((t, pos + 1));
    }
    if c == '(' {
        match parse_fields(s, pos + 1) {
            Ok((fields, next)) => {
                let t = DBusType::Struct(fields);
                proof {
                    assert(t@->Struct_0 =~= models_of(fields@));
                }
                Ok((t, next))
            },
            Err(fault) => Err(fault),
        }
    } else if c == 'a' {
        if pos + 1 < s.len() && s[pos + 1] == '{' {
            match parse_type(s, pos + 2) {
                Ok((key, middle)) => {
                    if !key.is_basic() {
                        return Err(pos + 2);
                    }
                    match parse_type(s, middle) {
                        Ok((value, end)) => if end < s.len() && s[end] == '}' {
                            Ok(
                                (
                                    DBusType::Dictionary {
                                        key_type: Box::new(key),
                                        value_type: Box::new(value),
                                    },
                                    end + 1,
                                ),
                            )
                        } else {
                            Err(end)
                        },
                        Err(fault) => Err(fault),
                    }
                },
                Err(fault) => Err(fault),
            }
        } else {
            match parse_type(s, pos + 1) {
                Ok((element, next)) => Ok((DBusType::Array { value_type: Box::new(element) }, next)),
                Err(fault) => Err(fault),
            }
        }
    } else {
        Err(pos)
    }
}

/// Reads the fields of a struct from `start` up to and including the closing
/// bracket.
pub fn parse_fields(s: &Vec<char>, start: usize) -> (res: Result<(Vec<DBusType>, usize), usize>)
    requires
        start <= s.len(),
    ensures
        match res {
            Ok((fields, next)) => parse_fields_at(s@, start as int) == Ok::<
                (Seq<TypeModel>, int),
                int,
            >((models_of(fields@), next as int)) && start < next <= s.len(),
            Err(fault) => parse_fields_at(s@, start as int) == Err::<(Seq<TypeModel>, int), int>(
                fault as int,
            ) && fault <= s.len(),
        },
    decreases s.len() - start, 1nat,
{
    let mut fields: Vec<DBusType> = Vec::new();
    let mut pos: usize = start;
    loop
        invariant
            start <= pos <= s.len(),
            parse_fields_at(s@, start as int) == with_prefix(
                models_of(fields@),
                parse_fields_at(s@, pos as int),
            ),
        decreases s.len() - pos,
    {
        if pos >= s.len() {
            return Err(s.len());
        }
        if s[pos] == ')' {
            return Ok((fields, pos + 1));
        }
        match parse_type(s, pos) {
            Ok((field, next)) => {
                proof {
                    let before = models_of(fields@);
                    let after = models_of(fields@.push(field));
                    match parse_fields_at(s@, next as int) {
                        Ok((rest, end)) => {
                            assert(before + (seq![field@] + rest) =~= after + rest);
                        },
                        Err(_) => {},
                    }
                }
                fields.push(field);
                pos = next;
            },
            Err(fault) => {
                return Err(fault);
            },
        }
    }
}

/// Reads a whole signature.
pub fn parse_signature_chars(s: &Vec<char>) -> (res: Result<DBusType, usize>)
    ensures
        match res {
            Ok(t) => parse_signature(s@) == Ok::<TypeModel, int>(t@),
            Err(fault) => parse_signature(s@) == Err::<TypeModel, int>(fault as int) && fault
                <= s.len(),
        },
{
    if s.len() == 0 {
        return Ok(DBusType::Unit);
    }
    match parse_type(s, 0) {
        Ok((t, next)) => if next == s.len() {
            Ok(t)
        } else {
            Err(next)
        },
        Err(fault) => Err(fault),
    }
}

impl DBusType {
    /// Reads a signature: the well-formed type that has `text` as its
    /// signature, and `InvalidSignature` where no well-formed type has.
    pub fn parse(text: &str) -> (res: Result<DBusType, DBusError>)
        ensures
            match res {
                Ok(t) => well_formed(t@) && signature(t@) == text@ && parse_signature(text@)
                    == Ok::<TypeModel, int>(t@),
                Err(e) => e == DBusError::InvalidSignature && parse_signature(text@) is Err
                    && forall|t: TypeModel| well_formed(t) ==> signature(t) != text@,
            },
    {
        let chars = chars_of(text);
        match parse_signature_chars(&chars) {
            Ok(t) => {
                proof {
                    lemma_signature_of_parse(text@);
                }
                Ok(t)
            },
            Err(_) => {
                proof {
                    assert forall|t: TypeModel| well_formed(t) implies signature(t) != text@ by {
                        lemma_parse_of_signature(t);
                    }
                }
                Err(DBusError::InvalidSignature)
            },
        }
    }
}

/// The parser of signatures.
pub struct DBusTypeParser;

impl Parser for DBusTypeParser {
    /// Reads a signature; where the text is none, says at which line and
    /// column it leaves the grammar.
    fn parse(input: &str) -> (res: Result<DBusType, ParserError>)
        ensures
            match res {
                Ok(t) => parse_signature(input@) == Ok::<TypeModel, int>(t@),
                Err(e) => parse_signature(input@) is Err && e.errors@.len() == 1
                    && e.errors@[0].line == line_of(input@, parse_signature(input@)->Err_0)
                    && e.errors@[0].column == column_of(input@, parse_signature(input@)->Err_0)
                    && e.errors@[0].error@ == "Invalid Signature"@,
            },
    {
        let chars = chars_of(input);
        match parse_signature_chars(&chars) {
            Ok(t) => Ok(t),
            Err(fault) => Err(ParserError::single(&chars, fault, "Invalid Signature")),
        }
    }
}

} // verus!
