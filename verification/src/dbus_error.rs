//! The error of signature parsing, validation and encoding.

use vstd::prelude::*;

verus! {

/// Why a signature or a value was refused.
#[derive(Debug, PartialEq, Eq)]
pub enum DBusError {
    /// The signature string is not in the signature grammar.
    InvalidSignature,
    /// The value does not have the shape of the type; the text says where
    /// and what was expected.
    InvalidValue(String),
}

impl DBusError {
    /// True for an `InvalidValue` that carries exactly the message `text`.
    pub open spec fn is_invalid_value(&self, text: Seq<char>) -> bool {
        match self {
            DBusError::InvalidValue(message) => message@ == text,
            DBusError::InvalidSignature => false,
        }
    }

    /// The message carried by the error; empty for `InvalidSignature`.
    pub fn message(&self) -> (text: &str)
        ensures
            match self {
                DBusError::InvalidValue(message) => text@ == message@,
                DBusError::InvalidSignature => text@ == Seq::<char>::empty(),
            },
    {
        match self {
            DBusError::InvalidValue(message) => message.as_str(),
            DBusError::InvalidSignature => {
                proof {
                    reveal_strlit("");
                }
                ""
            },
        }
    }
}

} // verus!
