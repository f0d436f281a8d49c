//! What introspection tells of an object: its child nodes, its interfaces
//! with their methods, and its signals, gathered from the elements of the
//! introspection document in the order in which they open.

use vstd::prelude::*;
use crate::method::{direction_signature, joined_types, MethodArgument};

verus! {

/// One attribute of an element: its name without prefix, and its value.
#[derive(Debug, PartialEq, Eq)]
pub struct Attribute {
    pub name: String,
    pub value: String,
}

/// A method of an interface, with its formal parameters.
#[derive(Debug, PartialEq, Eq)]
pub struct Method {
    pub name: String,
    pub args: Vec<MethodArgument>,
}

/// One thing that an object has.
#[derive(Debug, PartialEq, Eq)]
pub enum Entry {
    Node { name: String },
    Interface { name: String, methods: Vec<Method> },
    Signal { name: String },
}

/// Why an element cannot be taken.
#[derive(Debug, PartialEq, Eq, Clone, Copy, Structural)]
pub enum IntrospectionError {
    /// The element lacks an attribute that it must have.
    MissingAttribute,
    /// A method stands before every entry, or a parameter before every
    /// method of its interface.
    Misplaced,
}

/// The model of a [`MethodArgument`].
pub ghost struct ArgumentModel {
    pub name: Seq<char>,
    pub typ: Seq<char>,
    pub direction: Option<Seq<char>>,
}

/// The model of a [`Method`].
pub ghost struct MethodModel {
    pub name: Seq<char>,
    pub args: Seq<ArgumentModel>,
}

/// The model of an [`Entry`].
pub ghost enum EntryModel {
    Node(Seq<char>),
    Interface(Seq<char>, Seq<MethodModel>),
    Signal(Seq<char>),
}

/// The model of a formal parameter.
pub open spec fn argument_model(arg: MethodArgument) -> ArgumentModel {
    ArgumentModel {
        name: arg.name@,
        typ: arg.typ@,
        direction: match arg.direction {
            Some(direction) => Some(direction@),
            None => None,
        },
    }
}

impl View for Method {
    type V = MethodModel;

    open spec fn view(&self) -> MethodModel {
        MethodModel {
            name: self.name@,
            args: Seq::new(self.args.len() as nat, |i: int| argument_model(self.args[i])),
        }
    }
}

impl View for Entry {
    type V = EntryModel;

    open spec fn view(&self) -> EntryModel {
        match self {
            Entry::Node { name } => EntryModel::Node(name@),
            Entry::Interface { name, methods } => EntryModel::Interface(
                name@,
                Seq::new(methods.len() as nat, |i: int| methods[i]@),
            ),
            Entry::Signal { name } => EntryModel::Signal(name@),
        }
    }
}

/// The models of a vector of entries.
pub open spec fn entry_models(entries: Seq<Entry>) -> Seq<EntryModel> {
    Seq::new(entries.len(), |i: int| entries[i]@)
}

/// The position of the first attribute at or after `from` that has the
/// name `name`; the number of attributes where none has.
pub open spec fn attribute_position(attributes: Seq<Attribute>, name: Seq<char>, from: int) -> int
    decreases attributes.len() - from,
{
    if from < 0 || from >= attributes.len() {
        attributes.len() as int
    } else if attributes[from].name@ == name {
        from
    } else {
        attribute_position(attributes, name, from + 1)
    }
}

/// The value of the first attribute that has the name `name`.
pub open spec fn attribute_value(attributes: Seq<Attribute>, name: Seq<char>) -> Option<Seq<char>> {
    let position = attribute_position(attributes, name, 0);
    if 0 <= position < attributes.len() {
        Some(attributes[position].value@)
    } else {
        None
    }
}

/// A value where there is one, else the empty text.
pub open spec fn or_empty(value: Option<Seq<char>>) -> Seq<char> {
    match value {
        Some(text) => text,
        None => Seq::empty(),
    }
}

/// The entries after an element with the name `element` and the given
/// attributes has opened.
///
/// A `node` with a name adds a node, one without adds nothing. An
/// `interface` and a `signal` add an entry of their kind and must have a
/// name. A `method` adds a method to the last entry, where that is an
/// interface, and must then have a name; an `arg` adds a parameter to the
/// last method of the last entry, where that is an interface, and must then
/// have a type. Behind another last entry both are passed over; before every
/// entry, and an `arg` before every method of its interface, they are
/// misplaced. Every other element is passed over.
pub open spec fn after_element(
    entries: Seq<EntryModel>,
    element: Seq<char>,
    attributes: Seq<Attribute>,
) -> Result<Seq<EntryModel>, IntrospectionError> {
    let name = attribute_value(attributes, "name"@);
    if element == "node"@ {
        match name {
            Some(name) => Ok(entries.push(EntryModel::Node(name))),
            None => Ok(entries),
        }
    } else if element == "interface"@ {
        match name {
            Some(name) => Ok(entries.push(EntryModel::Interface(name, Seq::empty()))),
            None => Err(IntrospectionError::MissingAttribute),
        }
    } else if element == "signal"@ {
        match name {
            Some(name) => Ok(entries.push(EntryModel::Signal(name))),
            None => Err(IntrospectionError::MissingAttribute),
        }
    } else if element == "method"@ {
        if entries.len() == 0 {
            Err(IntrospectionError::Misplaced)
        } else {
            match entries.last() {
                EntryModel::Interface(interface, methods) => match name {
                    Some(name) => Ok(
                        entries.drop_last().push(
                            EntryModel::Interface(
                                interface,
                                methods.push(MethodModel { name, args: Seq::empty() }),
                            ),
                        ),
                    ),
                    None => Err(IntrospectionError::MissingAttribute),
                },
                _ => Ok(entries),
            }
        }
    } else if element == "arg"@ {
        if entries.len() == 0 {
            Err(IntrospectionError::Misplaced)
        } else {
            match entries.last() {
                EntryModel::Interface(interface, methods) => if methods.len() == 0 {
                    Err(IntrospectionError::Misplaced)
                } else {
                    match attribute_value(attributes, "type"@) {
                        Some(typ) => Ok(
                            entries.drop_last().push(
                                EntryModel::Interface(
                                    interface,
                                    methods.drop_last().push(
                                        MethodModel {
                                            name: methods.last().name,
                                            args: methods.last().args.push(
                                                ArgumentModel {
                                                    name: or_empty(name),
                                                    typ,
                                                    direction: attribute_value(
                                                        attributes,
                                                        "direction"@,
                                                    ),
                                                },
                                            ),
                                        },
                                    ),
                                ),
                            ),
                        ),
                        None => Err(IntrospectionError::MissingAttribute),
                    }
                },
                _ => Ok(entries),
            }
        }
    } else {
        Ok(entries)
    }
}

/// Whether two texts are the same.
pub fn same_text(a: &str, b: &str) -> (res: bool)
    ensures
        res == (a@ == b@),
{
    let left = String::from_str(a);
    let right = String::from_str(b);
    left == right
}

/// The first attribute that has the name `name`.
pub fn find_attribute<'l>(attributes: &'l Vec<Attribute>, name: &str) -> (res: Option<
    &'l Attribute,
>)
    ensures
        match res {
            Some(found) => 0 <= attribute_position(attributes@, name@, 0) < attributes.len()
                && *found == attributes@[attribute_position(attributes@, name@, 0)],
            None => attribute_position(attributes@, name@, 0) == attributes.len(),
        },
{
    let mut i: usize = 0;
    while i < attributes.len()
        invariant
            i <= attributes.len(),
            attribute_position(attributes@, name@, 0) == attribute_position(
                attributes@,
                name@,
                i as int,
            ),
        decreases attributes.len() - i,
    {
        if same_text(attributes[i].name.as_str(), name) {
            return Some(&attributes[i]);
        }
        i += 1;
    }
    None
}

fn value_of(attributes: &Vec<Attribute>, name: &str) -> (res: Option<String>)
    ensures
        match res {
            Some(value) => attribute_value(attributes@, name@) == Some(value@),
            None => attribute_value(attributes@, name@) is None,
        },
{
    match find_attribute(attributes, name) {
        Some(found) => Some(found.value.clone()),
        None => None,
    }
}

/// Takes an element that opens: see `after_element`. Where the element
/// cannot be taken, the entries stay as they are.
pub fn start_element(entries: &mut Vec<Entry>, element: &str, attributes: &Vec<Attribute>) -> (res:
    Result<(), IntrospectionError>)
    ensures
        match after_element(entry_models(old(entries)@), element@, attributes@) {
            Ok(next) => res is Ok && entry_models(final(entries)@) == next,
            Err(e) => res == Err::<(), IntrospectionError>(e) && entry_models(final(entries)@)
                == entry_models(old(entries)@),
        },
{
    if same_text(element, "node") {
        if let Some(name) = value_of(attributes, "name") {
            entries.push(Entry::Node { name });
        }
        Ok(())
    } else if same_text(element, "interface") {
        match value_of(attributes, "name") {
            Some(name) => {
                let entry = Entry::Interface { name, methods: Vec::new() };
                proof {
                    assert(entry@->Interface_1 =~= Seq::<MethodModel>::empty());
                }
                entries.push(entry);
                Ok(())
            },
            None => Err(IntrospectionError::MissingAttribute),
        }
    } else if same_text(element, "signal") {
        match value_of(attributes, "name") {
            Some(name) => {
                entries.push(Entry::Signal { name });
                Ok(())
            },
            None => Err(IntrospectionError::MissingAttribute),
        }
    } else if same_text(element, "method") {
        if entries.len() == 0 {
            return Err(IntrospectionError::Misplaced);
        }
        let name = value_of(attributes, "name");
        match entries.pop() {
            Some(Entry::Interface { name: interface, methods }) => {
                let ghost last = Entry::Interface { name: interface, methods };
                match name {
                    Some(name) => {
                        let mut methods = methods;
                        let ghost old_methods = last@->Interface_1;
                        let method = Method { name, args: Vec::new() };
                        proof {
                            assert(method@.args =~= Seq::<ArgumentModel>::empty());
                        }
                        methods.push(method);
                        let entry = Entry::Interface { name: interface, methods };
                        proof {
                            assert(entry@->Interface_1 =~= old_methods.push(method@));
                        }
                        entries.push(entry);
                        Ok(())
                    },
                    None => {
                        entries.push(Entry::Interface { name: interface, methods });
                        Err(IntrospectionError::MissingAttribute)
                    },
                }
            },
            Some(other) => {
                entries.push(other);
                Ok(())
            },
            None => Err(IntrospectionError::Misplaced),
        }
    } else if same_text(element, "arg") {
        if entries.len() == 0 {
            return Err(IntrospectionError::Misplaced);
        }
        let name = value_of(attributes, "name");
        let typ = value_of(attributes, "type");
        let direction = value_of(attributes, "direction");
        match entries.pop() {
            Some(Entry::Interface { name: interface, methods }) => {
                let ghost last = Entry::Interface { name: interface, methods };
                let ghost old_methods = last@->Interface_1;
                let mut methods = methods;
                match (methods.pop(), typ) {
                    (Some(method), Some(typ)) => {
                        let ghost old_method = method@;
                        let Method { name: method_name, args } = method;
                        let mut args = args;
                        let arg = MethodArgument {
                            name: match name {
                                Some(name) => name,
                                None => String::new(),
                            },
                            typ,
                            direction,
                        };
                        args.push(arg);
                        let grown = Method { name: method_name, args };
                        proof {
                            assert(grown@.args =~= old_method.args.push(argument_model(arg)));
                        }
                        methods.push(grown);
                        let entry = Entry::Interface { name: interface, methods };
                        proof {
                            assert(entry@->Interface_1 =~= old_methods.drop_last().push(grown@));
                        }
                        entries.push(entry);
                        Ok(())
                    },
                    (Some(method), None) => {
                        methods.push(method);
                        let entry = Entry::Interface { name: interface, methods };
                        proof {
                            assert(entry@->Interface_1 =~= old_methods);
                        }
                        entries.push(entry);
                        Err(IntrospectionError::MissingAttribute)
                    },
                    (None, _) => {
                        let entry = Entry::Interface { name: interface, methods };
                        entries.push(entry);
                        Err(IntrospectionError::Misplaced)
                    },
                }
            },
            Some(other) => {
                entries.push(other);
                Ok(())
            },
            None => Err(IntrospectionError::Misplaced),
        }
    } else {
        Ok(())
    }
}

impl Method {
    /// The line that shows the method: its name, the joined signatures of
    /// what goes in between round brackets, and behind an arrow those of
    /// what comes out.
    pub open spec fn summary_text(&self) -> Seq<char> {
        self.name@ + " ( "@ + joined_types(self.args@, "in"@, 0) + " ) -> "@ + joined_types(
            self.args@,
            "out"@,
            0,
        )
    }

    /// Writes the line that shows the method.
    pub fn summary(&self) -> (line: String)
        ensures
            line@ == self.summary_text(),
    {
        let mut line = self.name.clone();
        let taken = direction_signature(&self.args, "in");
        let given = direction_signature(&self.args, "out");
        line.append(" ( ");
        line.append(taken.as_str());
        line.append(" ) -> ");
        line.append(given.as_str());
        line
    }
}

impl Entry {
    /// The methods of an interface; `None` for every other entry.
    pub open spec fn methods(&self) -> Option<Vec<Method>> {
        match self {
            Entry::Interface { name: _, methods } => Some(*methods),
            _ => None,
        }
    }

    /// The entry is an interface with the name `name`.
    pub open spec fn is_interface_named(&self, name: Seq<char>) -> bool {
        match self {
            Entry::Interface { name: own, methods: _ } => own@ == name,
            _ => false,
        }
    }
}

/// The position of the first entry at or after `from` that is an interface
/// with the name `name`; the number of entries where none is.
pub open spec fn interface_position(entries: Seq<Entry>, name: Seq<char>, from: int) -> int
    decreases entries.len() - from,
{
    if from < 0 || from >= entries.len() {
        entries.len() as int
    } else if entries[from].is_interface_named(name) {
        from
    } else {
        interface_position(entries, name, from + 1)
    }
}

/// The position of the first method at or after `from` that has the name
/// `name`; the number of methods where none has.
pub open spec fn method_position(methods: Seq<Method>, name: Seq<char>, from: int) -> int
    decreases methods.len() - from,
{
    if from < 0 || from >= methods.len() {
        methods.len() as int
    } else if methods[from].name@ == name {
        from
    } else {
        method_position(methods, name, from + 1)
    }
}

/// The methods of the first interface that has the name `name`.
pub fn find_interface<'l>(entries: &'l Vec<Entry>, name: &str) -> (res: Option<&'l Vec<Method>>)
    ensures
        match res {
            Some(methods) => 0 <= interface_position(entries@, name@, 0) < entries.len()
                && entries@[interface_position(entries@, name@, 0)].methods() == Some(*methods),
            None => interface_position(entries@, name@, 0) == entries.len(),
        },
{
    let mut i: usize = 0;
    while i < entries.len()
        invariant
            i <= entries.len(),
            interface_position(entries@, name@, 0) == interface_position(
                entries@,
                name@,
                i as int,
            ),
        decreases entries.len() - i,
    {
        if let Entry::Interface { name: own, methods } = &entries[i] {
            if same_text(own.as_str(), name) {
                return Some(methods);
            }
        }
        i += 1;
    }
    None
}

/// The first method that has the name `name`.
pub fn find_method<'l>(methods: &'l Vec<Method>, name: &str) -> (res: Option<&'l Method>)
    ensures
        match res {
            Some(found) => 0 <= method_position(methods@, name@, 0) < methods.len() && *found
                == methods@[method_position(methods@, name@, 0)],
            None => method_position(methods@, name@, 0) == methods.len(),
        },
{
    let mut i: usize = 0;
    while i < methods.len()
        invariant
            i <= methods.len(),
            method_position(methods@, name@, 0) == method_position(methods@, name@, i as int),
        decreases methods.len() - i,
    {
        if same_text(methods[i].name.as_str(), name) {
            return Some(&methods[i]);
        }
        i += 1;
    }
    None
}

} // verus!
