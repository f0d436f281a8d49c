//! A type and a value side by side, owned.

use vstd::prelude::*;
use crate::dbus_error::DBusError;
use crate::dbus_argument::DBusArgument;
use crate::dbus_type::{conforms, mismatch_text, DBusType, TypeModel};
use crate::dbus_value::{DBusValue, ValueKind, ValueModel};

verus! {

/// A value and the type that it is meant to have. The pair is made once and
/// never changed.
#[derive(Debug, PartialEq, Eq)]
pub struct Argument {
    pub dbus_type: Box<DBusType>,
    pub dbus_value: DBusValue,
}

/// How many items of a list of `n` have a slot in the type: in a struct no
/// more than it has fields, in an array and a dictionary all.
pub open spec fn part_count(t: TypeModel, n: nat) -> nat {
    match t {
        TypeModel::Struct(fields) => if fields.len() < n {
            fields.len()
        } else {
            n
        },
        _ => n,
    }
}

/// The parts of a pair: where a struct, an array or a dictionary stands
/// beside a list, each item beside the type of its slot; else the pair
/// itself.
pub open spec fn parts_of(t: TypeModel, v: ValueModel) -> Seq<(TypeModel, ValueModel)> {
    match v {
        ValueModel::List(items) if t.expected() == Some(ValueKind::List) => Seq::new(
            part_count(t, items.len()),
            |i: int| (t.slot(i), items[i]),
        ),
        _ => seq![(t, v)],
    }
}

/// The types and values of a vector of pairs.
pub open spec fn pair_models(pairs: Seq<DBusArgument>) -> Seq<(TypeModel, ValueModel)> {
    Seq::new(pairs.len(), |i: int| (pairs[i].dbus_type@, pairs[i].dbus_value@))
}

impl Argument {
    /// Pairs a type with a value.
    pub fn new(dbus_type: DBusType, dbus_value: DBusValue) -> (res: Self)
        ensures
            *res.dbus_type == dbus_type,
            res.dbus_value == dbus_value,
    {
        Self { dbus_type: Box::new(dbus_type), dbus_value }
    }

    /// Checks the value against the type and hands the pair back where it
    /// has the type's shape.
    pub fn validate(self) -> (res: Result<Argument, DBusError>)
        ensures
            res is Ok <==> conforms(self.dbus_type@, self.dbus_value@),
            res matches Ok(same) ==> same == self,
            res matches Err(e) ==> e.is_invalid_value(
                mismatch_text(self.dbus_type@, self.dbus_value@),
            ),
    {
        match self.dbus_type.is_valid_value(&self.dbus_value) {
            Ok(()) => Ok(self),
            Err(e) => Err(e),
        }
    }

    /// The parts of the pair, in order: see `parts_of`.
    pub fn parts<'a>(&'a self) -> (res: Vec<DBusArgument<'a>>)
        ensures
            pair_models(res@) == parts_of(self.dbus_type@, self.dbus_value@),
    {
        let mut pairs: Vec<DBusArgument<'a>> = Vec::new();
        match &self.dbus_value {
            DBusValue::Vec(items) => {
                if self.dbus_type.expected_kind() == Some(ValueKind::List) {
                    let mut i: usize = 0;
                    while i < items.len()
                        invariant
                            i <= items.len(),
                            self.dbus_type@.expected() == Some(ValueKind::List),
                            self.dbus_value@ == ValueModel::List(self.dbus_value@.items()),
                            self.dbus_value@.items().len() == items.len(),
                            forall|j: int|
                                0 <= j < items.len() ==> self.dbus_value@.items()[j] == items[j]@,
                            pairs.len() == part_count(self.dbus_type@, i as nat),
                            forall|j: int|
                                0 <= j < pairs.len() ==> (#[trigger] pairs[j]).dbus_type@
                                    == self.dbus_type@.slot(j) && pairs[j].dbus_value@
                                    == items[j]@,
                        decreases items.len() - i,
                    {
                        match self.dbus_type.slot_type(i) {
                            Some(slot) => {
                                pairs.push(DBusArgument { dbus_type: slot, dbus_value: &items[i] });
                            },
                            None => {},
                        }
                        i += 1;
                    }
                    return pairs;
                }
            },
            _ => {},
        }
        pairs.push(DBusArgument { dbus_type: &*self.dbus_type, dbus_value: &self.dbus_value });
        pairs
    }
}

} // verus!
