//! The value tree and its mathematical model.

use vstd::prelude::*;
use crate::dbus_type::DBusType;

verus! {

/// A value, as written by a user; it carries no type of its own beyond the
/// kind of each scalar.
///
/// A `Double` holds the decimal text of the number (sign, digits, optional
/// fraction); a `Vec` holds the fields of a struct, the elements of an array,
/// or the keys and values of a dictionary in turn (key, value, key, value).
#[derive(Debug, PartialEq, Eq)]
pub enum DBusValue {
    Boolean(bool),
    Byte(u8),
    Int16(i16),
    Int32(i32),
    Int64(i64),
    UInt16(u16),
    UInt32(u32),
    UInt64(u64),
    Double(String),
    String(String),
    Vec(Vec<DBusValue>),
    Unit,
}

/// The mathematical model of a [`DBusValue`].
pub ghost enum ValueModel {
    Boolean(bool),
    Byte(u8),
    Int16(i16),
    Int32(i32),
    Int64(i64),
    UInt16(u16),
    UInt32(u32),
    UInt64(u64),
    Double(Seq<char>),
    String(Seq<char>),
    List(Seq<ValueModel>),
    Unit,
}

/// The kind of a value: which variant it is, without its content.
#[derive(Debug, PartialEq, Eq, Clone, Copy, Structural)]
pub enum ValueKind {
    Boolean,
    Byte,
    Int16,
    Int32,
    Int64,
    UInt16,
    UInt32,
    UInt64,
    Double,
    String,
    List,
    Unit,
}

impl ValueModel {
    /// The kind of the value.
    pub open spec fn kind(self) -> ValueKind {
        match self {
            ValueModel::Boolean(_) => ValueKind::Boolean,
            ValueModel::Byte(_) => ValueKind::Byte,
            ValueModel::Int16(_) => ValueKind::Int16,
            ValueModel::Int32(_) => ValueKind::Int32,
            ValueModel::Int64(_) => ValueKind::Int64,
            ValueModel::UInt16(_) => ValueKind::UInt16,
            ValueModel::UInt32(_) => ValueKind::UInt32,
            ValueModel::UInt64(_) => ValueKind::UInt64,
            ValueModel::Double(_) => ValueKind::Double,
            ValueModel::String(_) => ValueKind::String,
            ValueModel::List(_) => ValueKind::List,
            ValueModel::Unit => ValueKind::Unit,
        }
    }

    /// The items of a list; empty for every other value.
    pub open spec fn items(self) -> Seq<ValueModel> {
        match self {
            ValueModel::List(items) => items,
            _ => Seq::empty(),
        }
    }
}

impl ValueKind {
    /// The word that names the kind in messages.
    pub open spec fn name(self) -> Seq<char> {
        match self {
            ValueKind::Boolean => "boolean"@,
            ValueKind::Byte => "byte"@,
            ValueKind::Int16 => "int16"@,
            ValueKind::Int32 => "int32"@,
            ValueKind::Int64 => "int64"@,
            ValueKind::UInt16 => "uint16"@,
            ValueKind::UInt32 => "uint32"@,
            ValueKind::UInt64 => "uint64"@,
            ValueKind::Double => "double"@,
            ValueKind::String => "string"@,
            ValueKind::List => "vec"@,
            ValueKind::Unit => "unit"@,
        }
    }

    /// The word that names the kind in messages.
    pub fn as_str(&self) -> (word: &'static str)
        ensures
            word@ == self.name(),
    {
        match self {
            ValueKind::Boolean => "boolean",
            ValueKind::Byte => "byte",
            ValueKind::Int16 => "int16",
            ValueKind::Int32 => "int32",
            ValueKind::Int64 => "int64",
            ValueKind::UInt16 => "uint16",
            ValueKind::UInt32 => "uint32",
            ValueKind::UInt64 => "uint64",
            ValueKind::Double => "double",
            ValueKind::String => "string",
            ValueKind::List => "vec",
            ValueKind::Unit => "unit",
        }
    }
}

impl DBusValue {
    /// The model of this tree, node by node.
    pub open spec fn model(&self) -> ValueModel
        decreases self,
    {
        match self {
            DBusValue::Boolean(b) => ValueModel::Boolean(*b),
            DBusValue::Byte(n) => ValueModel::Byte(*n),
            DBusValue::Int16(n) => ValueModel::Int16(*n),
            DBusValue::Int32(n) => ValueModel::Int32(*n),
            DBusValue::Int64(n) => ValueModel::Int64(*n),
            DBusValue::UInt16(n) => ValueModel::UInt16(*n),
            DBusValue::UInt32(n) => ValueModel::UInt32(*n),
            DBusValue::UInt64(n) => ValueModel::UInt64(*n),
            DBusValue::Double(text) => ValueModel::Double(text@),
            DBusValue::String(text) => ValueModel::String(text@),
            DBusValue::Vec(items) => ValueModel::List(
                Seq::new(
                    items.len() as nat,
                    |i: int|
                        if 0 <= i < items.len() {
                            items[i].model()
                        } else {
                            ValueModel::Unit
                        },
                ),
            ),
            DBusValue::Unit => ValueModel::Unit,
        }
    }

    /// The kind of the value.
    pub fn kind(&self) -> (kind: ValueKind)
        ensures
            kind == self@.kind(),
    {
        match self {
            DBusValue::Boolean(_) => ValueKind::Boolean,
            DBusValue::Byte(_) => ValueKind::Byte,
            DBusValue::Int16(_) => ValueKind::Int16,
            DBusValue::Int32(_) => ValueKind::Int32,
            DBusValue::Int64(_) => ValueKind::Int64,
            DBusValue::UInt16(_) => ValueKind::UInt16,
            DBusValue::UInt32(_) => ValueKind::UInt32,
            DBusValue::UInt64(_) => ValueKind::UInt64,
            DBusValue::Double(_) => ValueKind::Double,
            DBusValue::String(_) => ValueKind::String,
            DBusValue::Vec(_) => ValueKind::List,
            DBusValue::Unit => ValueKind::Unit,
        }
    }

    /// Whether `typ` is the type that a value of this kind has by itself: a
    /// scalar has the type of its own name, a vector has any struct, array or
    /// dictionary type, the unit value has the unit type. Nothing has the
    /// types that borrow another kind's values (object path, signature, file
    /// descriptor, variant). The elements of a vector are not looked at.
    pub fn is_type(&self, typ: DBusType) -> (res: bool)
        ensures
            res == self@.kind().is_kind_of(typ@),
    {
        match self {
            DBusValue::Boolean(_) => matches!(typ, DBusType::Boolean),
            DBusValue::Byte(_) => matches!(typ, DBusType::Byte),
            DBusValue::Int16(_) => matches!(typ, DBusType::Int16),
            DBusValue::Int32(_) => matches!(typ, DBusType::Int32),
            DBusValue::Int64(_) => matches!(typ, DBusType::Int64),
            DBusValue::UInt16(_) => matches!(typ, DBusType::UInt16),
            DBusValue::UInt32(_) => matches!(typ, DBusType::UInt32),
            DBusValue::UInt64(_) => matches!(typ, DBusType::UInt64),
            DBusValue::Double(_) => matches!(typ, DBusType::Double),
            DBusValue::String(_) => matches!(typ, DBusType::String),
            DBusValue::Vec(_) => match typ {
                DBusType::Struct(_) => true,
                DBusType::Array { value_type: _ } => true,
                DBusType::Dictionary { key_type: _, value_type: _ } => true,
                _ => false,
            },
            DBusValue::Unit => matches!(typ, DBusType::Unit),
        }
    }
}

impl View for DBusValue {
    type V = ValueModel;

    open spec fn view(&self) -> ValueModel {
        self.model()
    }
}

} // verus!
