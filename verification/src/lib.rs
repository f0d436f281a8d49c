//! Type signatures and value literals of a D-Bus-like dynamic type system.
//!
//! A signature is read into a type tree and written back; a value literal is
//! read into a value tree and written back; a value is checked against a type
//! level by level, and a pair that passes is written as a wire argument for
//! a transport. Around these stand what a client needs of an object's
//! introspection data: its entries, and the type of a method call's
//! arguments.
//!
//! Every data type has a mathematical model (its view), and every function
//! says over those models what it returns. The modules whose names end in
//! `laws` hold what is proved of several functions together: reading and
//! writing are inverse to each other, for signatures and for literals.

pub mod argument;
pub mod dbus_argument;
pub mod dbus_error;
pub mod dbus_type;
pub mod dbus_value;
pub mod introspection;
pub mod literal_laws;
pub mod method;
pub mod parser;
pub mod text;
pub mod type_laws;
pub mod type_parser;
pub mod value_grammar;
pub mod value_laws;
pub mod value_parser;
pub mod value_text;
pub mod wire;
