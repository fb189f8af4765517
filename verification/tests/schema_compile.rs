use sad::desertree::{parse, Deseriaizer, Node, SadLeaf, SadTree};
use sad::errors::SadTreeError;
use sad::sadtypes::is_sadvalue_type;
use sad::schema::Yaml;

fn scalar(s: &str) -> Yaml {
    Yaml::Scalar(s.to_string())
}

fn hash(pairs: Vec<(&str, Yaml)>) -> Yaml {
    Yaml::Hash(pairs.into_iter().map(|(k, v)| (k.to_string(), v)).collect())
}

fn type_doc(tag: &str) -> Yaml {
    hash(vec![("type", scalar(tag))])
}

const KIND_NAMES: [&str; 21] = [
    "string", "bool", "u8", "u16", "u32", "u64", "u128", "i8", "i16", "i32", "i64", "i128",
    "f32", "f64", "pubkey", "length_prefix", "HashMap", "Vec", "Tuple", "CStruct", "NamedField",
];

#[test]
fn test_leaf_node_pass() {
    for v in KIND_NAMES.iter() {
        let vs = *v;
        assert!(is_sadvalue_type(vs));
        let doc = type_doc(vs);
        let sl = SadLeaf::from_yaml(&doc);
        assert!(sl.is_ok());
        println!("{:?}", sl);
    }
}

#[test]
fn test_scalars_pass() {
    let mut pos = 0;
    let pos_end = 14;
    for v in KIND_NAMES.iter() {
        if pos == pos_end {
            break;
        }
        pos += 1;
        let vs = *v;
        let result = parse(&type_doc(vs));
        assert!(result.is_ok());
    }
}

#[test]
fn test_runner_pass() {
    // a schema exercising every structural keyword, built in code
    let schema = hash(vec![(
        "runner",
        Yaml::Array(vec![
            hash(vec![(
                "count",
                hash(vec![("type", scalar("u32"))]),
            )]),
            hash(vec![(
                "body",
                hash(vec![
                    ("type", scalar("CStruct")),
                    (
                        "fields",
                        Yaml::Array(vec![type_doc("bool"), type_doc("u64")]),
                    ),
                ]),
            )]),
            hash(vec![(
                "items",
                hash(vec![
                    ("type", scalar("length_prefix")),
                    ("size_type", scalar("u16")),
                    ("contains", Yaml::Array(vec![type_doc("u8")])),
                ]),
            )]),
        ]),
    )]);
    let dz = Deseriaizer::new(&schema);
    assert!(dz.is_ok());
    println!("{:?}", dz.unwrap().tree());
}

#[test]
fn test_deserialization_pass() {
    let schema = hash(vec![(
        "test",
        Yaml::Array(vec![hash(vec![(
            "flag",
            hash(vec![
                ("type", scalar("NamedField")),
                (
                    "descriptor",
                    hash(vec![("name", scalar("on")), ("type", scalar("bool"))]),
                ),
            ]),
        )])]),
    )]);
    let desc = Deseriaizer::new(&schema);
    assert!(desc.is_ok());
}

#[test]
fn leaf_unknown_type_fails() {
    let doc = type_doc("quaternion");
    match SadLeaf::from_yaml(&doc) {
        Err(SadTreeError::UnknownType(t)) => assert_eq!(t, "quaternion"),
        other => panic!("{:?}", other),
    }
}

#[test]
fn leaf_decl_type_returns_tag() {
    let doc = type_doc("u64");
    match SadLeaf::from_yaml(&doc) {
        Ok(Node::Leaf(l)) => assert_eq!(l.decl_type(), "u64"),
        other => panic!("{:?}", other),
    }
}

#[test]
fn length_prefix_sequence_takes_first_only() {
    let doc = hash(vec![
        ("type", scalar("length_prefix")),
        ("size_type", scalar("u32")),
        (
            "contains",
            Yaml::Array(vec![type_doc("u8"), type_doc("u16"), type_doc("u32")]),
        ),
    ]);
    match parse(&doc) {
        Ok(Node::LengthPrefix(p)) => {
            assert_eq!(p.children().len(), 1);
            assert!(matches!(p.children()[0], Node::Leaf(_)));
        },
        other => panic!("{:?}", other),
    }
}

#[test]
fn length_prefix_mapping_compiles_one_child() {
    let doc = hash(vec![
        ("type", scalar("length_prefix")),
        ("size_type", scalar("u8")),
        (
            "contains",
            hash(vec![
                ("type", scalar("CStruct")),
                ("fields", Yaml::Array(vec![type_doc("u8"), type_doc("u8")])),
            ]),
        ),
    ]);
    match parse(&doc) {
        Ok(Node::LengthPrefix(p)) => {
            assert_eq!(p.children().len(), 1);
            assert!(matches!(p.children()[0], Node::FixedStruct(_)));
        },
        other => panic!("{:?}", other),
    }
}

#[test]
fn length_prefix_scalar_contains_fails() {
    let doc = hash(vec![
        ("type", scalar("length_prefix")),
        ("size_type", scalar("u8")),
        ("contains", scalar("u8")),
    ]);
    assert!(matches!(
        parse(&doc),
        Err(SadTreeError::ExpectedHashMapOrArray)
    ));
}

#[test]
fn hashmap_fields_must_be_sequence() {
    let doc = hash(vec![("type", scalar("HashMap")), ("fields", scalar("x"))]);
    assert!(matches!(
        parse(&doc),
        Err(SadTreeError::ExpectedHashMapFields)
    ));
    let missing = hash(vec![("type", scalar("HashMap"))]);
    assert!(matches!(
        parse(&missing),
        Err(SadTreeError::ExpectedHashMapFields)
    ));
}

#[test]
fn cstruct_fields_must_be_sequence() {
    let doc = hash(vec![("type", scalar("CStruct")), ("fields", scalar("x"))]);
    assert!(matches!(
        parse(&doc),
        Err(SadTreeError::ExpectedCStructFields)
    ));
}

#[test]
fn tuple_fields_must_be_sequence() {
    let doc = hash(vec![("type", scalar("Tuple")), ("fields", scalar("x"))]);
    assert!(matches!(parse(&doc), Err(SadTreeError::ExpectedTupleFields)));
}

#[test]
fn vector_contains_must_be_sequence() {
    let doc = hash(vec![("type", scalar("Vec")), ("contains", scalar("x"))]);
    assert!(matches!(parse(&doc), Err(SadTreeError::ExpectedVecContains)));
}

#[test]
fn child_count_matches_fields_in_order() {
    let doc = hash(vec![
        ("type", scalar("CStruct")),
        (
            "fields",
            Yaml::Array(vec![type_doc("u8"), type_doc("bool"), type_doc("u32")]),
        ),
    ]);
    match parse(&doc) {
        Ok(Node::FixedStruct(s)) => {
            assert_eq!(s.children().len(), 3);
            let tags: Vec<&str> = s
                .children()
                .iter()
                .map(|c| match c {
                    Node::Leaf(l) => l.decl_type().as_str(),
                    _ => panic!("leaf expected"),
                })
                .collect();
            assert_eq!(tags, vec!["u8", "bool", "u32"]);
        },
        other => panic!("{:?}", other),
    }
}

#[test]
fn tree_root_must_be_mapping() {
    let doc = Yaml::Array(vec![]);
    assert!(matches!(
        SadTree::new(&doc),
        Err(SadTreeError::ExpectedHashMap)
    ));
}

#[test]
fn tree_root_value_must_be_sequence() {
    let doc = hash(vec![("root", scalar("u8"))]);
    assert!(matches!(SadTree::new(&doc), Err(SadTreeError::ExpectedArray)));
}

#[test]
fn tree_keeps_name_and_field_order() {
    let schema = hash(vec![(
        "ledger",
        Yaml::Array(vec![
            hash(vec![("a", type_doc("u8"))]),
            hash(vec![("b", type_doc("u16"))]),
        ]),
    )]);
    let tree = SadTree::new(&schema).unwrap();
    assert_eq!(tree.name(), "ledger");
    assert_eq!(tree.decl_type(), "tree");
    assert_eq!(tree.children().len(), 2);
}
