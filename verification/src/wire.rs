//! The wire argument: what a transport takes, and how a value of a given
//! type is written as one.

use vstd::prelude::*;
use crate::dbus_type::{conforms, signature, DBusType, TypeModel};
use crate::dbus_value::{DBusValue, ValueKind, ValueModel};

verus! {

/// A value together with all that a transport needs to marshal it: every
/// array carries the signature of its elements, every dictionary those of
/// its keys and of its values. A `Double` holds the decimal text of the
/// number.
#[derive(Debug, PartialEq, Eq)]
pub enum WireArgument {
    Bool(bool),
    Byte(u8),
    Int16(i16),
    Int32(i32),
    Int64(i64),
    UInt16(u16),
    UInt32(u32),
    UInt64(u64),
    Double(String),
    Str(String),
    ObjectPath(String),
    Signature(String),
    UnixFd(u32),
    Struct(Vec<WireArgument>),
    Array(Vec<WireArgument>, String),
    Dict(Vec<(WireArgument, WireArgument)>, String, String),
}

/// The mathematical model of a [`WireArgument`].
pub ghost enum WireModel {
    Bool(bool),
    Byte(u8),
    Int16(i16),
    Int32(i32),
    Int64(i64),
    UInt16(u16),
    UInt32(u32),
    UInt64(u64),
    Double(Seq<char>),
    Str(Seq<char>),
    ObjectPath(Seq<char>),
    Signature(Seq<char>),
    UnixFd(u32),
    Struct(Seq<WireModel>),
    Array(Seq<WireModel>, Seq<char>),
    Dict(Seq<(WireModel, WireModel)>, Seq<char>, Seq<char>),
}

impl WireArgument {
    /// The model of this tree, node by node.
    pub open spec fn model(&self) -> WireModel
        decreases self,
    {
        match self {
            WireArgument::Bool(b) => WireModel::Bool(*b),
            WireArgument::Byte(n) => WireModel::Byte(*n),
            WireArgument::Int16(n) => WireModel::Int16(*n),
            WireArgument::Int32(n) => WireModel::Int32(*n),
            WireArgument::Int64(n) => WireModel::Int64(*n),
            WireArgument::UInt16(n) => WireModel::UInt16(*n),
            WireArgument::UInt32(n) => WireModel::UInt32(*n),
            WireArgument::UInt64(n) => WireModel::UInt64(*n),
            WireArgument::Double(text) => WireModel::Double(text@),
            WireArgument::Str(text) => WireModel::Str(text@),
            WireArgument::ObjectPath(text) => WireModel::ObjectPath(text@),
            WireArgument::Signature(text) => WireModel::Signature(text@),
            WireArgument::UnixFd(n) => WireModel::UnixFd(*n),
            WireArgument::Struct(items) => WireModel::Struct(
                Seq::new(
                    items.len() as nat,
                    |i: int|
                        if 0 <= i < items.len() {
                            items[i].model()
                        } else {
                            WireModel::Bool(false)
                        },
                ),
            ),
            WireArgument::Array(items, element) => WireModel::Array(
                Seq::new(
                    items.len() as nat,
                    |i: int|
                        if 0 <= i < items.len() {
                            items[i].model()
                        } else {
                            WireModel::Bool(false)
                        },
                ),
                element@,
            ),
            WireArgument::Dict(entries, key, value) => WireModel::Dict(
                Seq::new(
                    entries.len() as nat,
                    |i: int|
                        if 0 <= i < entries.len() {
                            (entries[i].0.model(), entries[i].1.model())
                        } else {
                            (WireModel::Bool(false), WireModel::Bool(false))
                        },
                ),
                key@,
                value@,
            ),
        }
    }
}

impl View for WireArgument {
    type V = WireModel;

    open spec fn view(&self) -> WireModel {
        self.model()
    }
}

/// The value `v` has the shape of the type `t`, and no variant and no unit
/// type stands where an item is to be written: a variant's value carries no
/// signature of its own, so it has no wire form, and the unit type stands for
/// the absence of an argument.
pub open spec fn encodable(t: TypeModel, v: ValueModel) -> bool
    decreases v,
{
    match t.expected() {
        None => false,
        Some(kind) => !(t is Unit) && v.kind() == kind && match v {
            ValueModel::List(items) => t.admits_len(items.len()) && forall|i: int|
                0 <= i < items.len() ==> encodable(t.slot(i), #[trigger] items[i]),
            _ => true,
        },
    }
}

/// The items of a list, each written at its slot's type.
pub open spec fn wire_items(t: TypeModel, items: Seq<ValueModel>) -> Seq<WireModel>
    decreases items, 1nat,
{
    Seq::new(
        items.len(),
        |i: int|
            if 0 <= i < items.len() {
                wire_of(t.slot(i), items[i])
            } else {
                WireModel::Bool(false)
            },
    )
}

/// The keys and values of a flat list, paired: entry `i` is made of the
/// items at `2 * i` and `2 * i + 1`.
pub open spec fn wire_entries(t: TypeModel, items: Seq<ValueModel>) -> Seq<(WireModel, WireModel)>
    decreases items, 1nat,
{
    Seq::new(
        items.len() / 2,
        |i: int|
            if 0 <= i < items.len() / 2 {
                (
                    wire_of(t.slot(2 * i), items[2 * i]),
                    wire_of(t.slot(2 * i + 1), items[2 * i + 1]),
                )
            } else {
                (WireModel::Bool(false), WireModel::Bool(false))
            },
    )
}

/// The wire form of a value `v` at type `t`, for an encodable pair: a scalar
/// keeps its content under the name of the type, a struct is the sequence of
/// its fields, an array that of its elements with the element type's
/// signature, a dictionary that of its entries with the signatures of the key
/// and the value type.
pub open spec fn wire_of(t: TypeModel, v: ValueModel) -> WireModel
    decreases v, 0nat,
{
    match (t, v) {
        (TypeModel::Boolean, ValueModel::Boolean(b)) => WireModel::Bool(b),
        (TypeModel::Byte, ValueModel::Byte(n)) => WireModel::Byte(n),
        (TypeModel::Int16, ValueModel::Int16(n)) => WireModel::Int16(n),
        (TypeModel::Int32, ValueModel::Int32(n)) => WireModel::Int32(n),
        (TypeModel::Int64, ValueModel::Int64(n)) => WireModel::Int64(n),
        (TypeModel::UInt16, ValueModel::UInt16(n)) => WireModel::UInt16(n),
        (TypeModel::UInt32, ValueModel::UInt32(n)) => WireModel::UInt32(n),
        (TypeModel::UInt64, ValueModel::UInt64(n)) => WireModel::UInt64(n),
        (TypeModel::Double, ValueModel::Double(text)) => WireModel::Double(text),
        (TypeModel::String, ValueModel::String(text)) => WireModel::Str(text),
        (TypeModel::ObjPath, ValueModel::String(text)) => WireModel::ObjectPath(text),
        (TypeModel::Signature, ValueModel::String(text)) => WireModel::Signature(text),
        (TypeModel::FileDescriptor, ValueModel::UInt32(n)) => WireModel::UnixFd(n),
        (TypeModel::Struct(_), ValueModel::List(items)) => WireModel::Struct(wire_items(t, items)),
        (TypeModel::Array(element), ValueModel::List(items)) => WireModel::Array(
            wire_items(t, items),
            signature(*element),
        ),
        (TypeModel::Dictionary(key, value), ValueModel::List(items)) => WireModel::Dict(
            wire_entries(t, items),
            signature(*key),
            signature(*value),
        ),
        _ => WireModel::Bool(false),
    }
}

/// An encodable pair has the shape that validation asks for.
pub proof fn lemma_encodable_conforms(t: TypeModel, v: ValueModel)
    requires
        encodable(t, v),
    ensures
        conforms(t, v),
    decreases v,
{
    match v {
        ValueModel::List(items) => {
            assert forall|i: int| 0 <= i < items.len() implies conforms(
                t.slot(i),
                #[trigger] items[i],
            ) by {
                lemma_encodable_conforms(t.slot(i), items[i]);
            }
        },
        _ => {},
    }
}

fn encode_items(t: &DBusType, v: &DBusValue, items: &Vec<DBusValue>) -> (res: Option<
    Vec<WireArgument>,
>)
    requires
        conforms(t@, v@),
        t@.expected() == Some(ValueKind::List),
        *v == DBusValue::Vec(*items),
    ensures
        res is Some <==> encodable(t@, v@),
        res matches Some(out) ==> out.len() == items.len() && forall|j: int|
            0 <= j < out.len() ==> (#[trigger] out[j])@ == wire_of(t@.slot(j), v@.items()[j]),
    decreases v, 0nat,
{
    let mut out: Vec<WireArgument> = Vec::new();
    let mut i: usize = 0;
    while i < items.len()
        invariant
            i <= items.len(),
            out.len() == i,
            conforms(t@, v@),
            t@.expected() == Some(ValueKind::List),
            v@ == ValueModel::List(v@.items()),
            v@.items().len() == items.len(),
            forall|j: int| 0 <= j < items.len() ==> v@.items()[j] == items[j]@,
            forall|j: int| 0 <= j < items.len() ==> decreases_to!(v => items[j]),
            forall|j: int| 0 <= j < i ==> encodable(t@.slot(j), v@.items()[j]),
            forall|j: int|
                0 <= j < i ==> (#[trigger] out[j])@ == wire_of(t@.slot(j), v@.items()[j]),
        decreases items.len() - i,
    {
        proof {
            assert(conforms(t@.slot(i as int), v@.items()[i as int]));
        }
        match t.slot_type(i) {
            Some(slot) => match encode_conforming(slot, &items[i]) {
                Some(item) => {
                    out.push(item);
                },
                None => {
                    return None;
                },
            },
            None => {
                return None;
            },
        }
        i += 1;
    }
    Some(out)
}

/// Writes a value of the given type as a wire argument, where the pair has
/// passed validation; `None` where a variant or the unit type stands in the
/// way.
pub fn encode_conforming(t: &DBusType, v: &DBusValue) -> (res: Option<WireArgument>)
    requires
        conforms(t@, v@),
    ensures
        res is Some <==> encodable(t@, v@),
        res matches Some(wire) ==> wire@ == wire_of(t@, v@),
    decreases v, 1nat,
{
    match v {
        DBusValue::Boolean(b) => match t {
            DBusType::Boolean => Some(WireArgument::Bool(*b)),
            _ => None,
        },
        DBusValue::Byte(n) => match t {
            DBusType::Byte => Some(WireArgument::Byte(*n)),
            _ => None,
        },
        DBusValue::Int16(n) => match t {
            DBusType::Int16 => Some(WireArgument::Int16(*n)),
            _ => None,
        },
        DBusValue::Int32(n) => match t {
            DBusType::Int32 => Some(WireArgument::Int32(*n)),
            _ => None,
        },
        DBusValue::Int64(n) => match t {
            DBusType::Int64 => Some(WireArgument::Int64(*n)),
            _ => None,
        },
        DBusValue::UInt16(n) => match t {
            DBusType::UInt16 => Some(WireArgument::UInt16(*n)),
            _ => None,
        },
        DBusValue::UInt32(n) => match t {
            DBusType::UInt32 => Some(WireArgument::UInt32(*n)),
            DBusType::FileDescriptor => Some(WireArgument::UnixFd(*n)),
            _ => None,
        },
        DBusValue::UInt64(n) => match t {
            DBusType::UInt64 => Some(WireArgument::UInt64(*n)),
            _ => None,
        },
        DBusValue::Double(text) => match t {
            DBusType::Double => Some(WireArgument::Double(text.clone())),
            _ => None,
        },
        DBusValue::String(text) => match t {
            DBusType::String => Some(WireArgument::Str(text.clone())),
            DBusType::ObjPath => Some(WireArgument::ObjectPath(text.clone())),
            DBusType::Signature => Some(WireArgument::Signature(text.clone())),
            _ => None,
        },
        DBusValue::Vec(items) => match t {
            DBusType::Struct(_) => match encode_items(t, v, items) {
                Some(out) => {
                    let wire = WireArgument::Struct(out);
                    proof {
                        assert(wire@->Struct_0 =~= wire_items(t@, v@.items()));
                    }
                    Some(wire)
                },
                None => None,
            },
            DBusType::Array { value_type } => match encode_items(t, v, items) {
                Some(out) => {
                    let wire = WireArgument::Array(out, value_type.render());
                    proof {
                        assert(wire@->Array_0 =~= wire_items(t@, v@.items()));
                    }
                    Some(wire)
                },
                None => None,
            },
            DBusType::Dictionary { key_type, value_type } => match encode_items(t, v, items) {
                Some(out) => {
                    let entries = pair_up(out);
                    let wire = WireArgument::Dict(entries, key_type.render(), value_type.render());
                    proof {
                        assert(wire@->Dict_0 =~= wire_entries(t@, v@.items()));
                    }
                    Some(wire)
                },
                None => None,
            },
            _ => None,
        },
        DBusValue::Unit => None,
    }
}

/// Pairs the items of a flat list of even length: entry `i` is made of the
/// items at `2 * i` and `2 * i + 1`.
fn pair_up(flat: Vec<WireArgument>) -> (entries: Vec<(WireArgument, WireArgument)>)
    requires
        flat.len() % 2 == 0,
    ensures
        entries.len() == flat.len() / 2,
        forall|i: int|
            0 <= i < entries.len() ==> (#[trigger] entries[i]).0 == flat[2 * i] && entries[i].1
                == flat[2 * i + 1],
{
    let ghost original = flat@;
    let mut flat = flat;
    let mut reversed: Vec<(WireArgument, WireArgument)> = Vec::new();
    while flat.len() >= 2
        invariant
            flat.len() % 2 == 0,
            flat.len() + 2 * reversed.len() == original.len(),
            flat@ == original.subrange(0, flat.len() as int),
            forall|i: int|
                0 <= i < reversed.len() ==> (#[trigger] reversed[i]).0 == original[original.len()
                    - 2 * i - 2] && reversed[i].1 == original[original.len() - 2 * i - 1],
        decreases flat.len(),
    {
        let value = flat.pop();
        let key = flat.pop();
        match (key, value) {
            (Some(key), Some(value)) => {
                reversed.push((key, value));
            },
            _ => {},
        }
    }
    let ghost turned = reversed@;
    let mut entries: Vec<(WireArgument, WireArgument)> = Vec::new();
    while reversed.len() > 0
        invariant
            reversed@ == turned.subrange(0, reversed.len() as int),
            entries.len() + reversed.len() == turned.len(),
            forall|i: int|
                0 <= i < entries.len() ==> (#[trigger] entries[i]) == turned[turned.len() - 1 - i],
        decreases reversed.len(),
    {
        match reversed.pop() {
            Some(entry) => {
                entries.push(entry);
            },
            None => {},
        }
    }
    entries
}

} // verus!
