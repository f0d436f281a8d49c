//! The type tree, its mathematical model and its canonical signature.

use vstd::prelude::*;
use crate::dbus_error::DBusError;
use crate::dbus_value::{DBusValue, ValueKind, ValueModel};
use crate::text::{decimal, decimal_text};
use crate::value_text::literal_text;

verus! {

/// A type of the dynamic type system.
#[derive(Debug, PartialEq, Eq)]
pub enum DBusType {
    Boolean,
    Byte,
    Int16,
    Int32,
    Int64,
    UInt16,
    UInt32,
    UInt64,
    Double,
    String,
    ObjPath,
    Signature,
    FileDescriptor,
    Struct(Vec<DBusType>),
    Array { value_type: Box<DBusType> },
    Dictionary { key_type: Box<DBusType>, value_type: Box<DBusType> },
    Variant,
    Unit,
}

/// The mathematical model of a [`DBusType`]: the same tree over sequences.
pub ghost enum TypeModel {
    Boolean,
    Byte,
    Int16,
    Int32,
    Int64,
    UInt16,
    UInt32,
    UInt64,
    Double,
    String,
    ObjPath,
    Signature,
    FileDescriptor,
    Struct(Seq<TypeModel>),
    Array(Box<TypeModel>),
    Dictionary(Box<TypeModel>, Box<TypeModel>),
    Variant,
    Unit,
}

impl DBusType {
    /// The model of this tree, node by node.
    pub open spec fn model(&self) -> TypeModel
        decreases self,
    {
        match self {
            DBusType::Boolean => TypeModel::Boolean,
            DBusType::Byte => TypeModel::Byte,
            DBusType::Int16 => TypeModel::Int16,
            DBusType::Int32 => TypeModel::Int32,
            DBusType::Int64 => TypeModel::Int64,
            DBusType::UInt16 => TypeModel::UInt16,
            DBusType::UInt32 => TypeModel::UInt32,
            DBusType::UInt64 => TypeModel::UInt64,
            DBusType::Double => TypeModel::Double,
            DBusType::String => TypeModel::String,
            DBusType::ObjPath => TypeModel::ObjPath,
            DBusType::Signature => TypeModel::Signature,
            DBusType::FileDescriptor => TypeModel::FileDescriptor,
            DBusType::Struct(fields) => TypeModel::Struct(
                Seq::new(fields.len() as nat, |i: int| if 0 <= i < fields.len() { fields[i].model() } else { TypeModel::Unit }),
            ),
            DBusType::Array { value_type } => TypeModel::Array(Box::new(value_type.model())),
            DBusType::Dictionary { key_type, value_type } => TypeModel::Dictionary(
                Box::new(key_type.model()),
                Box::new(value_type.model()),
            ),
            DBusType::Variant => TypeModel::Variant,
            DBusType::Unit => TypeModel::Unit,
        }
    }
}

impl View for DBusType {
    type V = TypeModel;

    open spec fn view(&self) -> TypeModel {
        self.model()
    }
}

impl TypeModel {
    /// The kind of value that the type takes; `None` for a variant, which
    /// takes every value.
    pub open spec fn expected(self) -> Option<ValueKind> {
        match self {
            TypeModel::Boolean => Some(ValueKind::Boolean),
            TypeModel::Byte => Some(ValueKind::Byte),
            TypeModel::Int16 => Some(ValueKind::Int16),
            TypeModel::Int32 => Some(ValueKind::Int32),
            TypeModel::Int64 => Some(ValueKind::Int64),
            TypeModel::UInt16 => Some(ValueKind::UInt16),
            TypeModel::UInt32 => Some(ValueKind::UInt32),
            TypeModel::UInt64 => Some(ValueKind::UInt64),
            TypeModel::Double => Some(ValueKind::Double),
            TypeModel::String => Some(ValueKind::String),
            TypeModel::ObjPath => Some(ValueKind::String),
            TypeModel::Signature => Some(ValueKind::String),
            TypeModel::FileDescriptor => Some(ValueKind::UInt32),
            TypeModel::Struct(_) => Some(ValueKind::List),
            TypeModel::Array(_) => Some(ValueKind::List),
            TypeModel::Dictionary(_, _) => Some(ValueKind::List),
            TypeModel::Variant => None,
            TypeModel::Unit => Some(ValueKind::Unit),
        }
    }

    /// Whether a list of `n` items can have this type at all: a struct has
    /// one item for each field, a dictionary an even number (keys and values
    /// in turn), an array any number.
    pub open spec fn admits_len(self, n: nat) -> bool {
        match self {
            TypeModel::Struct(fields) => fields.len() == n,
            TypeModel::Dictionary(_, _) => n % 2 == 0,
            _ => true,
        }
    }

    /// The type of the item at position `i` of a list of this type: the
    /// field's type in a struct, the element type in an array, in a
    /// dictionary the key type at even and the value type at odd positions.
    pub open spec fn slot(self, i: int) -> TypeModel {
        match self {
            TypeModel::Struct(fields) => if 0 <= i < fields.len() {
                fields[i]
            } else {
                TypeModel::Unit
            },
            TypeModel::Array(element) => *element,
            TypeModel::Dictionary(key, value) => if i % 2 == 0 {
                *key
            } else {
                *value
            },
            _ => TypeModel::Unit,
        }
    }

    /// What a message says of a list whose length the type does not admit.
    pub open spec fn length_text(self) -> Seq<char> {
        match self {
            TypeModel::Dictionary(_, _) => "Unpaired dictionary entry"@,
            _ => "Wrong number of struct fields"@,
        }
    }

    /// The word for what the type takes.
    pub open spec fn expected_name(self) -> Seq<char> {
        match self.expected() {
            Some(kind) => kind.name(),
            None => "any"@,
        }
    }
}

impl ValueKind {
    /// Whether `t` is the type that a value of this kind has by itself.
    pub open spec fn is_kind_of(self, t: TypeModel) -> bool {
        match self {
            ValueKind::Boolean => t is Boolean,
            ValueKind::Byte => t is Byte,
            ValueKind::Int16 => t is Int16,
            ValueKind::Int32 => t is Int32,
            ValueKind::Int64 => t is Int64,
            ValueKind::UInt16 => t is UInt16,
            ValueKind::UInt32 => t is UInt32,
            ValueKind::UInt64 => t is UInt64,
            ValueKind::Double => t is Double,
            ValueKind::String => t is String,
            ValueKind::List => t is Struct || t is Array || t is Dictionary,
            ValueKind::Unit => t is Unit,
        }
    }
}

/// The value `v` has the shape of the type `t` at every level.
///
/// A scalar type takes the scalar of its own kind; an object path and a
/// signature take a string, a file descriptor an unsigned 32-bit number. A
/// struct, an array and a dictionary take a list of an admitted length whose
/// every item has the shape of its slot's type. A variant takes everything
/// (the value carries no inner type to hold it to), the unit type only the
/// unit value.
pub open spec fn conforms(t: TypeModel, v: ValueModel) -> bool
    decreases v,
{
    match t.expected() {
        None => true,
        Some(kind) => v.kind() == kind && match v {
            ValueModel::List(items) => t.admits_len(items.len()) && forall|i: int|
                0 <= i < items.len() ==> conforms(t.slot(i), #[trigger] items[i]),
            _ => true,
        },
    }
}

/// The first position at or after `from` whose item does not have the shape
/// of its slot's type; the length of `items` if there is none.
pub open spec fn first_failure(t: TypeModel, items: Seq<ValueModel>, from: int) -> int
    decreases items.len() - from,
{
    if from < 0 || from >= items.len() {
        items.len() as int
    } else if !conforms(t.slot(from), items[from]) {
        from
    } else {
        first_failure(t, items, from + 1)
    }
}

/// The message for a value that does not have the shape of the type: what
/// was expected and what value stood there, written as a literal, behind the
/// positions that lead to the first offending item.
pub open spec fn mismatch_text(t: TypeModel, v: ValueModel) -> Seq<char>
    decreases v,
{
    match v {
        ValueModel::List(items) if t.expected() == Some(ValueKind::List) => {
            let i = first_failure(t, items, 0);
            if !t.admits_len(items.len()) {
                t.length_text()
            } else if 0 <= i < items.len() {
                "index "@ + decimal_text(i as nat) + ": "@ + mismatch_text(t.slot(i), items[i])
            } else {
                Seq::empty()
            }
        },
        _ => "Expected "@ + t.expected_name() + " got: "@ + literal_text(v),
    }
}

impl DBusType {
    /// The kind of value that the type takes; `None` for a variant.
    pub fn expected_kind(&self) -> (kind: Option<ValueKind>)
        ensures
            kind == self@.expected(),
    {
        match self {
            DBusType::Boolean => Some(ValueKind::Boolean),
            DBusType::Byte => Some(ValueKind::Byte),
            DBusType::Int16 => Some(ValueKind::Int16),
            DBusType::Int32 => Some(ValueKind::Int32),
            DBusType::Int64 => Some(ValueKind::Int64),
            DBusType::UInt16 => Some(ValueKind::UInt16),
            DBusType::UInt32 => Some(ValueKind::UInt32),
            DBusType::UInt64 => Some(ValueKind::UInt64),
            DBusType::Double => Some(ValueKind::Double),
            DBusType::String => Some(ValueKind::String),
            DBusType::ObjPath => Some(ValueKind::String),
            DBusType::Signature => Some(ValueKind::String),
            DBusType::FileDescriptor => Some(ValueKind::UInt32),
            DBusType::Struct(_) => Some(ValueKind::List),
            DBusType::Array { value_type: _ } => Some(ValueKind::List),
            DBusType::Dictionary { key_type: _, value_type: _ } => Some(ValueKind::List),
            DBusType::Variant => None,
            DBusType::Unit => Some(ValueKind::Unit),
        }
    }

    /// Whether a list of `n` items can have this type at all.
    pub fn admits_len(&self, n: usize) -> (res: bool)
        ensures
            res == self@.admits_len(n as nat),
    {
        match self {
            DBusType::Struct(fields) => fields.len() == n,
            DBusType::Dictionary { key_type: _, value_type: _ } => n % 2 == 0,
            _ => true,
        }
    }

    /// The type of the item at position `i` of a list of this type, where
    /// the type is a struct with a field `i`, an array or a dictionary.
    pub fn slot_type(&self, i: usize) -> (slot: Option<&DBusType>)
        ensures
            match self@ {
                TypeModel::Struct(fields) => if i < fields.len() {
                    slot is Some && slot.unwrap()@ == self@.slot(i as int)
                } else {
                    slot is None
                },
                TypeModel::Array(_) => slot is Some && slot.unwrap()@ == self@.slot(i as int),
                TypeModel::Dictionary(_, _) => slot is Some && slot.unwrap()@ == self@.slot(
                    i as int,
                ),
                _ => slot is None,
            },
    {
        match self {
            DBusType::Struct(fields) => if i < fields.len() {
                Some(&fields[i])
            } else {
                None
            },
            DBusType::Array { value_type } => Some(value_type),
            DBusType::Dictionary { key_type, value_type } => if i % 2 == 0 {
                Some(key_type)
            } else {
                Some(value_type)
            },
            _ => None,
        }
    }

    fn length_message(&self) -> (text: &'static str)
        ensures
            text@ == self@.length_text(),
    {
        match self {
            DBusType::Dictionary { key_type: _, value_type: _ } => "Unpaired dictionary entry",
            _ => "Wrong number of struct fields",
        }
    }

    /// Checks that `val` has the shape of this type at every level, and says
    /// of the first item that has not where it stands and what was expected.
    pub fn is_valid_value(&self, val: &DBusValue) -> (res: Result<(), DBusError>)
        ensures
            res is Ok <==> conforms(self@, val@),
            res matches Err(e) ==> e.is_invalid_value(mismatch_text(self@, val@)),
        decreases val,
    {
        let expected = match self.expected_kind() {
            None => { return Ok(()); },
            Some(kind) => kind,
        };
        let actual = val.kind();
        if actual != expected {
            let mut text = String::from_str("Expected ");
            text.append(expected.as_str());
            text.append(" got: ");
            let literal = val.literal();
            text.append(literal.as_str());
            return Err(DBusError::InvalidValue(text));
        }
        match val {
            DBusValue::Vec(items) => {
                if !self.admits_len(items.len()) {
                    return Err(DBusError::InvalidValue(String::from_str(self.length_message())));
                }
                let mut i: usize = 0;
                while i < items.len()
                    invariant
                        i <= items.len(),
                        val@ == ValueModel::List(val@.items()),
                        val@.items().len() == items.len(),
                        forall|j: int| 0 <= j < items.len() ==> val@.items()[j] == items[j]@,
                        self@.expected() == Some(ValueKind::List),
                        self@.admits_len(items.len() as nat),
                        forall|j: int| 0 <= j < items.len() ==> decreases_to!(val => items[j]),
                        forall|j: int| 0 <= j < i ==> conforms(self@.slot(j), val@.items()[j]),
                        first_failure(self@, val@.items(), 0) == first_failure(
                            self@,
                            val@.items(),
                            i as int,
                        ),
                    decreases items.len() - i,
                {
                    match self.slot_type(i) {
                        Some(slot) => match slot.is_valid_value(&items[i]) {
                            Ok(()) => {},
                            Err(inner) => {
                                let mut text = String::from_str("index ");
                                let position = decimal(i as u64);
                                text.append(position.as_str());
                                text.append(": ");
                                text.append(inner.message());
                                return Err(DBusError::InvalidValue(text));
                            },
                        },
                        None => {},
                    }
                    i += 1;
                }
                Ok(())
            },
            _ => Ok(()),
        }
    }
}

impl TypeModel {
    /// The one-character code of a type without parts; `None` for a struct,
    /// an array, a dictionary and the unit type.
    pub open spec fn code(self) -> Option<char> {
        match self {
            TypeModel::Boolean => Some('b'),
            TypeModel::Byte => Some('y'),
            TypeModel::Int16 => Some('n'),
            TypeModel::Int32 => Some('i'),
            TypeModel::Int64 => Some('x'),
            TypeModel::UInt16 => Some('q'),
            TypeModel::UInt32 => Some('u'),
            TypeModel::UInt64 => Some('t'),
            TypeModel::Double => Some('d'),
            TypeModel::String => Some('s'),
            TypeModel::ObjPath => Some('o'),
            TypeModel::Signature => Some('g'),
            TypeModel::FileDescriptor => Some('h'),
            TypeModel::Variant => Some('v'),
            _ => None,
        }
    }

    /// A type that may be the key of a dictionary: one with a code, other
    /// than the variant.
    pub open spec fn is_basic(self) -> bool {
        self.code() is Some && !(self is Variant)
    }
}

/// A type that can stand inside another: it is not the unit type, the key
/// of every dictionary in it is basic, and its parts are proper too.
pub open spec fn proper(t: TypeModel) -> bool
    decreases t,
{
    match t {
        TypeModel::Unit => false,
        TypeModel::Struct(fields) => forall|i: int|
            0 <= i < fields.len() ==> proper(#[trigger] fields[i]),
        TypeModel::Array(element) => proper(*element),
        TypeModel::Dictionary(key, value) => key.is_basic() && proper(*value),
        _ => true,
    }
}

/// A type that a signature can spell: the unit type, for no argument at
/// all, or a proper type.
pub open spec fn well_formed(t: TypeModel) -> bool {
    t is Unit || proper(t)
}

/// The canonical signature of a type.
pub open spec fn signature(t: TypeModel) -> Seq<char>
    decreases t, 0nat,
{
    match t {
        TypeModel::Struct(fields) => seq!['('] + signatures_from(fields, 0) + seq![')'],
        TypeModel::Array(element) => seq!['a'] + signature(*element),
        TypeModel::Dictionary(key, value) => seq!['a', '{'] + signature(*key) + signature(*value)
            + seq!['}'],
        TypeModel::Unit => Seq::empty(),
        _ => seq![t.code().unwrap()],
    }
}

/// The signatures of the types from position `from` on, one after another.
pub open spec fn signatures_from(types: Seq<TypeModel>, from: int) -> Seq<char>
    decreases types, types.len() - from,
{
    if from < 0 || from >= types.len() {
        Seq::empty()
    } else {
        signature(types[from]) + signatures_from(types, from + 1)
    }
}

impl DBusType {
    /// The one-character code of a type without parts.
    pub fn code(&self) -> (text: Option<&'static str>)
        ensures
            match text {
                Some(text) => self@.code() is Some && text@ == seq![self@.code().unwrap()],
                None => self@.code() is None,
            },
    {
        proof {
            reveal_strlit("b");
            reveal_strlit("y");
            reveal_strlit("n");
            reveal_strlit("i");
            reveal_strlit("x");
            reveal_strlit("q");
            reveal_strlit("u");
            reveal_strlit("t");
            reveal_strlit("d");
            reveal_strlit("s");
            reveal_strlit("o");
            reveal_strlit("g");
            reveal_strlit("h");
            reveal_strlit("v");
        }
        match self {
            DBusType::Boolean => Some("b"),
            DBusType::Byte => Some("y"),
            DBusType::Int16 => Some("n"),
            DBusType::Int32 => Some("i"),
            DBusType::Int64 => Some("x"),
            DBusType::UInt16 => Some("q"),
            DBusType::UInt32 => Some("u"),
            DBusType::UInt64 => Some("t"),
            DBusType::Double => Some("d"),
            DBusType::String => Some("s"),
            DBusType::ObjPath => Some("o"),
            DBusType::Signature => Some("g"),
            DBusType::FileDescriptor => Some("h"),
            DBusType::Variant => Some("v"),
            _ => None,
        }
    }

    /// Whether the type may be the key of a dictionary.
    pub fn is_basic(&self) -> (res: bool)
        ensures
            res == self@.is_basic(),
    {
        match self {
            DBusType::Struct(_) => false,
            DBusType::Array { value_type: _ } => false,
            DBusType::Dictionary { key_type: _, value_type: _ } => false,
            DBusType::Variant => false,
            DBusType::Unit => false,
            _ => true,
        }
    }

    /// Whether the type can stand inside another.
    pub fn is_proper(&self) -> (res: bool)
        ensures
            res == proper(self@),
        decreases self,
    {
        match self {
            DBusType::Unit => false,
            DBusType::Struct(fields) => {
                let mut i: usize = 0;
                while i < fields.len()
                    invariant
                        i <= fields.len(),
                        self@ matches TypeModel::Struct(models) && models.len() == fields.len()
                            && (forall|j: int| 0 <= j < fields.len() ==> models[j] == fields[j]@)
                            && (forall|j: int| 0 <= j < i ==> proper(#[trigger] models[j])),
                        forall|j: int| 0 <= j < fields.len() ==> decreases_to!(self => fields[j]),
                    decreases fields.len() - i,
                {
                    if !fields[i].is_proper() {
                        proof {
                            let models = self@->Struct_0;
                            assert(!proper(models[i as int]));
                        }
                        return false;
                    }
                    i += 1;
                }
                true
            },
            DBusType::Array { value_type } => value_type.is_proper(),
            DBusType::Dictionary { key_type, value_type } => key_type.is_basic()
                && value_type.is_proper(),
            _ => true,
        }
    }

    /// Whether a signature can spell the type: whether reading what `render`
    /// writes gives the type back.
    pub fn is_well_formed(&self) -> (res: bool)
        ensures
            res == well_formed(self@),
    {
        match self {
            DBusType::Unit => true,
            _ => self.is_proper(),
        }
    }

    /// Writes the canonical signature of the type.
    pub fn render(&self) -> (text: String)
        ensures
            text@ == signature(self@),
        decreases self,
    {
        proof {
            reveal_strlit("(");
            reveal_strlit(")");
            reveal_strlit("a");
            reveal_strlit("a{");
            reveal_strlit("}");
            reveal_strlit("");
        }
        match self {
            DBusType::Struct(fields) => {
                let mut text = String::from_str("(");
                let mut i: usize = 0;
                while i < fields.len()
                    invariant
                        i <= fields.len(),
                        self@ matches TypeModel::Struct(models) && models.len() == fields.len()
                            && (forall|j: int|
                            0 <= j < fields.len() ==> models[j] == fields[j]@) && text@
                            + signatures_from(models, i as int) == seq!['('] + signatures_from(
                            models,
                            0,
                        ),
                        forall|j: int| 0 <= j < fields.len() ==> decreases_to!(self => fields[j]),
                    decreases fields.len() - i,
                {
                    let field = fields[i].render();
                    text.append(field.as_str());
                    i += 1;
                }
                text.append(")");
                text
            },
            DBusType::Array { value_type } => {
                let mut text = String::from_str("a");
                let element = value_type.render();
                text.append(element.as_str());
                text
            },
            DBusType::Dictionary { key_type, value_type } => {
                let mut text = String::from_str("a{");
                let key = key_type.render();
                let value = value_type.render();
                text.append(key.as_str());
                text.append(value.as_str());
                text.append("}");
                text
            },
            DBusType::Unit => String::from_str(""),
            _ => match self.code() {
                Some(code) => String::from_str(code),
                None => String::from_str(""),
            },
        }
    }
}

} // verus!
