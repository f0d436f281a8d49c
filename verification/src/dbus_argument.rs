//! A type and a value side by side, borrowed: what is validated and then
//! written for the wire.

use vstd::prelude::*;
use crate::dbus_error::DBusError;
use crate::dbus_type::{conforms, mismatch_text, DBusType, TypeModel};
use crate::dbus_value::{DBusValue, ValueModel};
use crate::wire::{
    encodable,
    encode_conforming,
    lemma_encodable_conforms,
    wire_of,
    WireArgument,
    WireModel,
};

verus! {

/// A value and the type that it is meant to have.
pub struct DBusArgument<'a> {
    pub dbus_type: &'a DBusType,
    pub dbus_value: &'a DBusValue,
}

/// What the error says of a pair that has the right shape and still no wire
/// form.
pub open spec fn no_wire_form_text() -> Seq<char> {
    "No wire form for a variant or a nested unit"@
}

/// The wire forms of a sequence of wire arguments.
pub open spec fn wire_models(items: Seq<WireArgument>) -> Seq<WireModel> {
    Seq::new(items.len(), |i: int| items[i]@)
}

/// The arguments that a call carries for a validated pair: the fields of a
/// struct, each in its wire form, and none for every other type.
pub open spec fn call_arguments(t: TypeModel, v: ValueModel) -> Seq<WireModel> {
    match wire_of(t, v) {
        WireModel::Struct(fields) if t is Struct => fields,
        _ => Seq::empty(),
    }
}

/// What writing a pair for the wire gives.
///
/// The unit type with the unit value gives no argument. Every other pair
/// that has the type's shape gives its wire form, unless a variant or a unit
/// type stands where an item is to be written: such a pair is refused, with
/// the words of `no_wire_form_text`. A pair without the type's shape is
/// refused with the words of validation.
pub open spec fn encodes(t: TypeModel, v: ValueModel, res: Result<Option<WireArgument>, DBusError>)
    -> bool {
    match res {
        Ok(None) => t is Unit && v is Unit,
        Ok(Some(wire)) => encodable(t, v) && wire@ == wire_of(t, v),
        Err(e) => if conforms(t, v) {
            !(t is Unit) && !encodable(t, v) && e.is_invalid_value(no_wire_form_text())
        } else {
            e.is_invalid_value(mismatch_text(t, v))
        },
    }
}

/// Writing the same pair twice gives the same: both times no argument, both
/// times wire arguments with equal trees, or both times an error with the
/// same words.
pub proof fn lemma_encode_twice(
    t: TypeModel,
    v: ValueModel,
    first: Result<Option<WireArgument>, DBusError>,
    second: Result<Option<WireArgument>, DBusError>,
)
    requires
        encodes(t, v, first),
        encodes(t, v, second),
    ensures
        match (first, second) {
            (Ok(None), Ok(None)) => true,
            (Ok(Some(a)), Ok(Some(b))) => a@ == b@,
            (Err(a), Err(b)) => exists|text: Seq<char>|
                a.is_invalid_value(text) && b.is_invalid_value(text),
            _ => false,
        },
{
    if encodable(t, v) {
        lemma_encodable_conforms(t, v);
    }
    if first is Err {
        if conforms(t, v) {
        } else {
        }
    }
}

impl<'a> DBusArgument<'a> {
    /// Checks the value against the type and hands the pair back where it
    /// has the type's shape.
    pub fn validate(self) -> (res: Result<DBusArgument<'a>, DBusError>)
        ensures
            res is Ok <==> conforms(self.dbus_type@, self.dbus_value@),
            res matches Ok(same) ==> same == self,
            res matches Err(e) ==> e.is_invalid_value(
                mismatch_text(self.dbus_type@, self.dbus_value@),
            ),
    {
        match self.dbus_type.is_valid_value(self.dbus_value) {
            Ok(()) => Ok(self),
            Err(e) => Err(e),
        }
    }

    /// Writes the value for the wire.
    ///
    /// The unit type with the unit value gives no argument. Every other pair
    /// that has the type's shape gives its wire form, unless a variant or a
    /// unit type stands where an item is to be written: a variant takes any
    /// value, and the value carries no signature to send with it, so such a
    /// pair is refused. A pair without the type's shape is refused as by
    /// validation.
    pub fn encode(&self) -> (res: Result<Option<WireArgument>, DBusError>)
        ensures
            encodes(self.dbus_type@, self.dbus_value@, res),
    {
        match self.dbus_type.is_valid_value(self.dbus_value) {
            Ok(()) => {},
            Err(e) => {
                return Err(e);
            },
        }
        if let DBusType::Unit = self.dbus_type {
            return Ok(None);
        }
        match encode_conforming(self.dbus_type, self.dbus_value) {
            Some(wire) => Ok(Some(wire)),
            None => Err(
                DBusError::InvalidValue(
                    String::from_str("No wire form for a variant or a nested unit"),
                ),
            ),
        }
    }

    /// The arguments of a call: the fields of a top-level struct, each in
    /// its wire form. A pair of any other type that can be written carries
    /// no argument; a pair that cannot be written is refused as by `encode`.
    pub fn call_items(&self) -> (res: Result<Vec<WireArgument>, DBusError>)
        ensures
            match res {
                Ok(items) => (encodable(self.dbus_type@, self.dbus_value@) || (self.dbus_type@
                    is Unit && self.dbus_value@ is Unit)) && wire_models(items@) == call_arguments(
                    self.dbus_type@,
                    self.dbus_value@,
                ),
                Err(e) => if conforms(self.dbus_type@, self.dbus_value@) {
                    !(self.dbus_type@ is Unit) && !encodable(self.dbus_type@, self.dbus_value@)
                        && e.is_invalid_value(no_wire_form_text())
                } else {
                    e.is_invalid_value(mismatch_text(self.dbus_type@, self.dbus_value@))
                },
            },
    {
        match self.encode() {
            Ok(Some(WireArgument::Struct(fields))) => {
                if let DBusType::Struct(_) = self.dbus_type {
                    Ok(fields)
                } else {
                    Ok(Vec::new())
                }
            },
            Ok(_) => {
                let items: Vec<WireArgument> = Vec::new();
                Ok(items)
            },
            Err(e) => Err(e),
        }
    }
}

} // verus!
