use sad::desertree::SadTree;
use sad::errors::SadDecodeError;
use sad::sadtypes::SadValue;
use sad::schema::Yaml;

fn scalar(s: &str) -> Yaml {
    Yaml::Scalar(s.to_string())
}

fn hash(pairs: Vec<(&str, Yaml)>) -> Yaml {
    Yaml::Hash(pairs.into_iter().map(|(k, v)| (k.to_string(), v)).collect())
}

fn type_doc(tag: &str) -> Yaml {
    hash(vec![("type", scalar(tag))])
}

fn named(name: &str, tag: &str) -> Yaml {
    hash(vec![
        ("type", scalar("NamedField")),
        (
            "descriptor",
            hash(vec![("name", scalar(name)), ("type", scalar(tag))]),
        ),
    ])
}

fn tree_of(fields: Vec<Yaml>) -> SadTree {
    SadTree::new(&hash(vec![("root", Yaml::Array(fields))])).unwrap()
}

#[test]
fn end_to_end_named_bool() {
    let tree = tree_of(vec![named("flag", "bool")]);
    let (out, end) = tree.deser_line(&[0x01], 0).unwrap();
    assert_eq!(end, 1);
    assert_eq!(out.len(), 1);
    assert_eq!(out[0].name.as_deref(), Some("flag"));
    assert_eq!(out[0].value, SadValue::Bool(true));
}

#[test]
fn fixed_struct_round_trip_consumes_all() {
    let tree = tree_of(vec![hash(vec![(
        "body",
        hash(vec![
            ("type", scalar("CStruct")),
            (
                "fields",
                Yaml::Array(vec![type_doc("u16"), named("level", "u8"), type_doc("u32")]),
            ),
        ]),
    )])]);
    let data: [u8; 7] = [0x02, 0x01, 0x2A, 0x78, 0x56, 0x34, 0x12];
    let (out, end) = tree.deser_line(&data, 0).unwrap();
    assert_eq!(end, data.len());
    assert_eq!(out.len(), 3);
    assert_eq!(out[0].name, None);
    assert_eq!(out[0].value, SadValue::U16(0x0102));
    assert_eq!(out[1].name.as_deref(), Some("level"));
    assert_eq!(out[1].value, SadValue::U8(42));
    assert_eq!(out[2].value, SadValue::U32(0x12345678));
}

#[test]
fn empty_buffer_fails_short() {
    let tree = tree_of(vec![type_doc("u8")]);
    assert_eq!(
        tree.deser(&[]),
        Err(SadDecodeError::UnexpectedEndOfInput)
    );
}

#[test]
fn short_buffer_fails_short() {
    let tree = tree_of(vec![type_doc("u32")]);
    assert_eq!(
        tree.deser(&[1, 2, 3]),
        Err(SadDecodeError::UnexpectedEndOfInput)
    );
}

#[test]
fn length_prefix_zero_count_consumes_prefix_only() {
    let tree = tree_of(vec![hash(vec![(
        "items",
        hash(vec![
            ("type", scalar("length_prefix")),
            ("size_type", scalar("u16")),
            ("contains", Yaml::Array(vec![type_doc("u64")])),
        ]),
    )])]);
    let (out, end) = tree.deser_line(&[0x00, 0x00], 0).unwrap();
    assert_eq!(end, 2);
    assert_eq!(out.len(), 0);
}

#[test]
fn length_prefix_repeats_child() {
    let tree = tree_of(vec![hash(vec![(
        "items",
        hash(vec![
            ("type", scalar("length_prefix")),
            ("size_type", scalar("u32")),
            ("contains", Yaml::Array(vec![type_doc("u8")])),
        ]),
    )])]);
    let data = [0x03, 0x00, 0x00, 0x00, 0x07, 0x08, 0x09];
    let (out, end) = tree.deser_line(&data, 0).unwrap();
    assert_eq!(end, 7);
    assert_eq!(out.len(), 3);
    assert_eq!(out[0].value, SadValue::U8(7));
    assert_eq!(out[2].value, SadValue::U8(9));
}

#[test]
fn length_prefix_negative_count_is_invalid() {
    let tree = tree_of(vec![hash(vec![(
        "items",
        hash(vec![
            ("type", scalar("length_prefix")),
            ("size_type", scalar("i8")),
            ("contains", Yaml::Array(vec![type_doc("u8")])),
        ]),
    )])]);
    assert_eq!(
        tree.deser(&[0xFF]),
        Err(SadDecodeError::InvalidDiscriminant)
    );
}

#[test]
fn length_prefix_non_integer_size_type_unsupported() {
    let tree = tree_of(vec![hash(vec![(
        "items",
        hash(vec![
            ("type", scalar("length_prefix")),
            ("size_type", scalar("bool")),
            ("contains", Yaml::Array(vec![type_doc("u8")])),
        ]),
    )])]);
    assert_eq!(tree.deser(&[0x01]), Err(SadDecodeError::UnsupportedType));
}

#[test]
fn bool_byte_out_of_domain_is_invalid() {
    let tree = tree_of(vec![type_doc("bool")]);
    assert_eq!(
        tree.deser(&[0x02]),
        Err(SadDecodeError::InvalidDiscriminant)
    );
}

#[test]
fn string_ascii_round_trip() {
    let tree = tree_of(vec![named("label", "string")]);
    let data = [0x02, 0x00, 0x00, 0x00, b'a', b'b'];
    let (out, end) = tree.deser_line(&data, 0).unwrap();
    assert_eq!(end, 6);
    assert_eq!(out[0].name.as_deref(), Some("label"));
    assert_eq!(out[0].value, SadValue::Str("ab".to_string()));
}

#[test]
fn string_non_ascii_byte_is_invalid() {
    let tree = tree_of(vec![type_doc("string")]);
    let data = [0x01, 0x00, 0x00, 0x00, 0xC3];
    assert_eq!(tree.deser(&data), Err(SadDecodeError::InvalidDiscriminant));
}

#[test]
fn signed_and_wide_scalars_decode_exactly() {
    let tree = tree_of(vec![
        type_doc("i8"),
        type_doc("i16"),
        type_doc("u128"),
    ]);
    let mut data: Vec<u8> = vec![0xFF, 0x00, 0x80];
    data.extend([0x01; 16]);
    let (out, end) = tree.deser_line(&data, 0).unwrap();
    assert_eq!(end, 19);
    assert_eq!(out[0].value, SadValue::I8(-1));
    assert_eq!(out[1].value, SadValue::I16(-32768));
    let expected: u128 = u128::from_le_bytes([0x01; 16]);
    assert_eq!(out[2].value, SadValue::U128(expected));
}

#[test]
fn float_bits_and_pubkey_decode() {
    let tree = tree_of(vec![type_doc("f32"), type_doc("pubkey")]);
    let mut data: Vec<u8> = vec![0x00, 0x00, 0x80, 0x3F];
    let key: Vec<u8> = (0u8..32u8).collect();
    data.extend(&key);
    let (out, end) = tree.deser_line(&data, 0).unwrap();
    assert_eq!(end, 36);
    assert_eq!(out[0].value, SadValue::F32Bits(0x3F80_0000));
    assert_eq!(out[1].value, SadValue::PubKey(key));
}

#[test]
fn vector_decodes_each_descriptor_once() {
    let tree = tree_of(vec![hash(vec![(
        "pair",
        hash(vec![
            ("type", scalar("Vec")),
            ("contains", Yaml::Array(vec![type_doc("u8"), type_doc("u16")])),
        ]),
    )])]);
    let (out, end) = tree.deser_line(&[0x05, 0x01, 0x02], 0).unwrap();
    assert_eq!(end, 3);
    assert_eq!(out.len(), 2);
    assert_eq!(out[0].value, SadValue::U8(5));
    assert_eq!(out[1].value, SadValue::U16(0x0201));
}

#[test]
fn repeated_decode_is_identical() {
    let tree = tree_of(vec![named("n", "u32"), type_doc("bool")]);
    let data = [0x2A, 0x00, 0x00, 0x00, 0x01];
    let first = tree.deser(&data).unwrap();
    let second = tree.deser(&data).unwrap();
    assert_eq!(first, second);
    let third = tree.deser(&data).unwrap();
    assert_eq!(second, third);
}

#[test]
fn deser_line_streams_records() {
    let tree = tree_of(vec![type_doc("u8"), type_doc("u8")]);
    let data = [1, 2, 3, 4];
    let (r1, mid) = tree.deser_line(&data, 0).unwrap();
    assert_eq!(mid, 2);
    let (r2, end) = tree.deser_line(&data, mid).unwrap();
    assert_eq!(end, 4);
    assert_eq!(r1[0].value, SadValue::U8(1));
    assert_eq!(r2[0].value, SadValue::U8(3));
    assert_eq!(r2[1].value, SadValue::U8(4));
}

#[test]
fn failure_leaves_tree_reusable() {
    let tree = tree_of(vec![type_doc("u16")]);
    assert!(tree.deser(&[0x01]).is_err());
    let ok = tree.deser(&[0x01, 0x02]).unwrap();
    assert_eq!(ok[0].value, SadValue::U16(0x0201));
}
