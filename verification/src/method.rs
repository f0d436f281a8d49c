//! The formal parameters of a method, and the type of a call's arguments.

use vstd::prelude::*;
use crate::dbus_error::DBusError;
use crate::dbus_type::{signature, well_formed, DBusType, TypeModel};
use crate::type_parser::parse_signature;

verus! {

/// One formal parameter of a method, as introspection gives it: its name,
/// the signature of its type, and its direction (`in` or `out`) where one is
/// given.
#[derive(Debug, PartialEq, Eq)]
pub struct MethodArgument {
    pub name: String,
    pub typ: String,
    pub direction: Option<String>,
}

impl MethodArgument {
    /// The parameter has a direction, and it is `direction`.
    pub open spec fn goes(&self, direction: Seq<char>) -> bool {
        match self.direction {
            Some(own) => own@ == direction,
            None => false,
        }
    }

    /// Whether the parameter has a direction, and it is `direction`.
    pub fn has_direction(&self, direction: &str) -> (res: bool)
        ensures
            res == self.goes(direction@),
    {
        match &self.direction {
            Some(own) => {
                let wanted = String::from_str(direction);
                *own == wanted
            },
            None => false,
        }
    }
}

/// The signatures of the parameters from `from` on that go in `direction`,
/// one after another.
pub open spec fn joined_types(args: Seq<MethodArgument>, direction: Seq<char>, from: int) -> Seq<
    char,
>
    decreases args.len() - from,
{
    if from < 0 || from >= args.len() {
        Seq::empty()
    } else if args[from].goes(direction) {
        args[from].typ@ + joined_types(args, direction, from + 1)
    } else {
        joined_types(args, direction, from + 1)
    }
}

/// The signature of what a call hands over: nothing where no parameter goes
/// in, else the struct of those that do.
pub open spec fn call_signature_text(args: Seq<MethodArgument>) -> Seq<char> {
    let joined = joined_types(args, "in"@, 0);
    if joined.len() == 0 {
        joined
    } else {
        seq!['('] + joined + seq![')']
    }
}

/// Joins the signatures of the parameters that go in `direction`.
pub fn direction_signature(args: &Vec<MethodArgument>, direction: &str) -> (text: String)
    ensures
        text@ == joined_types(args@, direction@, 0),
{
    let mut text = String::new();
    let mut i: usize = 0;
    while i < args.len()
        invariant
            i <= args.len(),
            text@ + joined_types(args@, direction@, i as int) == joined_types(
                args@,
                direction@,
                0,
            ),
        decreases args.len() - i,
    {
        if args[i].has_direction(direction) {
            text.append(args[i].typ.as_str());
        }
        i += 1;
    }
    text
}

/// The signature of what a call of the method hands over.
pub fn call_signature(args: &Vec<MethodArgument>) -> (text: String)
    ensures
        text@ == call_signature_text(args@),
{
    let joined = direction_signature(args, "in");
    if joined.as_str().unicode_len() == 0 {
        joined
    } else {
        proof {
            reveal_strlit("(");
            reveal_strlit(")");
        }
        let mut text = String::from_str("(");
        text.append(joined.as_str());
        text.append(")");
        text
    }
}

/// The type of what a call of the method hands over: the unit type where no
/// parameter goes in, else the struct of the types of those that do;
/// `InvalidSignature` where their signatures do not spell types.
pub fn call_type(args: &Vec<MethodArgument>) -> (res: Result<DBusType, DBusError>)
    ensures
        match res {
            Ok(t) => well_formed(t@) && signature(t@) == call_signature_text(args@),
            Err(e) => e == DBusError::InvalidSignature && parse_signature(
                call_signature_text(args@),
            ) is Err && forall|t: TypeModel|
                well_formed(t) ==> signature(t) != call_signature_text(args@),
        },
{
    let text = call_signature(args);
    DBusType::parse(text.as_str())
}

/// The text of `subject` behind `indent` times four spaces.
pub open spec fn indented_text(indent: nat, subject: Seq<char>) -> Seq<char>
    decreases indent,
{
    if indent == 0 {
        subject
    } else {
        "    "@ + indented_text((indent - 1) as nat, subject)
    }
}

/// Puts `indent` times four spaces before `subject`.
pub fn indented(indent: u32, subject: &str) -> (line: String)
    ensures
        line@ == indented_text(indent as nat, subject@),
    decreases indent,
{
    if indent == 0 {
        String::from_str(subject)
    } else {
        let mut line = String::from_str("    ");
        let rest = indented(indent - 1, subject);
        line.append(rest.as_str());
        line
    }
}

} // verus!
