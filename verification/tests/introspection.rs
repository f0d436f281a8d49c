use dbus_codec::introspection::{
    find_attribute, find_interface, find_method, same_text, start_element, Attribute, Entry,
    IntrospectionError, Method,
};
use dbus_codec::method::MethodArgument;

fn attributes(pairs: &[(&str, &str)]) -> Vec<Attribute> {
    pairs
        .iter()
        .map(|(name, value)| Attribute {
            name: name.to_string(),
            value: value.to_string(),
        })
        .collect()
}

fn open(entries: &mut Vec<Entry>, element: &str, pairs: &[(&str, &str)]) {
    assert_eq!(start_element(entries, element, &attributes(pairs)), Ok(()));
}

#[test]
fn elements_build_entries() {
    let mut entries = Vec::new();
    open(&mut entries, "node", &[]);
    open(&mut entries, "interface", &[("name", "org.example.Player")]);
    open(&mut entries, "method", &[("name", "Play")]);
    open(&mut entries, "arg", &[("name", "track"), ("type", "s"), ("direction", "in")]);
    open(&mut entries, "arg", &[("type", "a{sv}"), ("direction", "in")]);
    open(&mut entries, "arg", &[("name", "ok"), ("type", "b"), ("direction", "out")]);
    open(&mut entries, "method", &[("name", "Stop")]);
    open(&mut entries, "arg", &[("name", "plain"), ("type", "i")]);
    open(&mut entries, "annotation", &[("name", "x")]);
    open(&mut entries, "node", &[("name", "child")]);
    open(&mut entries, "signal", &[("name", "Changed")]);

    assert_eq!(
        entries,
        vec![
            Entry::Interface {
                name: "org.example.Player".into(),
                methods: vec![
                    Method {
                        name: "Play".into(),
                        args: vec![
                            MethodArgument {
                                name: "track".into(),
                                typ: "s".into(),
                                direction: Some("in".into())
                            },
                            MethodArgument {
                                name: "".into(),
                                typ: "a{sv}".into(),
                                direction: Some("in".into())
                            },
                            MethodArgument {
                                name: "ok".into(),
                                typ: "b".into(),
                                direction: Some("out".into())
                            },
                        ]
                    },
                    Method {
                        name: "Stop".into(),
                        args: vec![MethodArgument {
                            name: "plain".into(),
                            typ: "i".into(),
                            direction: None
                        }]
                    },
                ]
            },
            Entry::Node {
                name: "child".into()
            },
            Entry::Signal {
                name: "Changed".into()
            },
        ]
    );

    let methods = find_interface(&entries, "org.example.Player").unwrap();
    assert_eq!(methods.len(), 2);
    let play = find_method(methods, "Play").unwrap();
    assert_eq!(play.summary(), "Play ( sa{sv} ) -> b");
    assert_eq!(find_method(methods, "Stop").unwrap().summary(), "Stop (  ) -> ");
    assert!(find_method(methods, "Pause").is_none());
    assert!(find_interface(&entries, "child").is_none());
    assert!(find_interface(&entries, "Changed").is_none());
}

#[test]
fn elements_behind_a_signal_are_passed_over() {
    let mut entries = Vec::new();
    open(&mut entries, "interface", &[("name", "a.b")]);
    open(&mut entries, "signal", &[("name", "Changed")]);
    open(&mut entries, "arg", &[("name", "what"), ("type", "s")]);
    open(&mut entries, "method", &[("name", "Late")]);
    open(&mut entries, "method", &[]);
    assert_eq!(
        entries,
        vec![
            Entry::Interface {
                name: "a.b".into(),
                methods: vec![]
            },
            Entry::Signal {
                name: "Changed".into()
            },
        ]
    );
}

#[test]
fn malformed_elements_leave_entries_alone() {
    let mut entries: Vec<Entry> = Vec::new();
    assert_eq!(
        start_element(&mut entries, "method", &attributes(&[("name", "m")])),
        Err(IntrospectionError::Misplaced)
    );
    assert_eq!(
        start_element(&mut entries, "arg", &attributes(&[("type", "s")])),
        Err(IntrospectionError::Misplaced)
    );
    assert_eq!(
        start_element(&mut entries, "interface", &attributes(&[("type", "s")])),
        Err(IntrospectionError::MissingAttribute)
    );
    assert_eq!(
        start_element(&mut entries, "signal", &attributes(&[])),
        Err(IntrospectionError::MissingAttribute)
    );
    assert!(entries.is_empty());

    open(&mut entries, "interface", &[("name", "a.b")]);
    assert_eq!(
        start_element(&mut entries, "arg", &attributes(&[("type", "s")])),
        Err(IntrospectionError::Misplaced)
    );
    assert_eq!(
        start_element(&mut entries, "method", &attributes(&[])),
        Err(IntrospectionError::MissingAttribute)
    );
    open(&mut entries, "method", &[("name", "m")]);
    assert_eq!(
        start_element(&mut entries, "arg", &attributes(&[("name", "n")])),
        Err(IntrospectionError::MissingAttribute)
    );
    assert_eq!(
        entries,
        vec![Entry::Interface {
            name: "a.b".into(),
            methods: vec![Method {
                name: "m".into(),
                args: vec![]
            }]
        }]
    );
}

#[test]
fn first_attribute_of_a_name_counts() {
    let list = attributes(&[("type", "s"), ("name", "first"), ("name", "second")]);
    assert_eq!(find_attribute(&list, "name").unwrap().value, "first");
    assert_eq!(find_attribute(&list, "type").unwrap().value, "s");
    assert!(find_attribute(&list, "direction").is_none());
    assert!(same_text("in", "in"));
    assert!(!same_text("in", "out"));
}

#[test]
fn first_interface_and_method_of_a_name_count() {
    let entries = vec![
        Entry::Node { name: "x".into() },
        Entry::Interface {
            name: "x".into(),
            methods: vec![
                Method { name: "m".into(), args: vec![] },
                Method {
                    name: "m".into(),
                    args: vec![MethodArgument {
                        name: "a".into(),
                        typ: "i".into(),
                        direction: None,
                    }],
                },
            ],
        },
        Entry::Interface { name: "x".into(), methods: vec![] },
    ];
    let methods = find_interface(&entries, "x").unwrap();
    assert_eq!(methods.len(), 2);
    assert!(find_method(methods, "m").unwrap().args.is_empty());
}
