use ftl::codec::{binary_to_module, decode_type, encode_module, encode_type, SchemaError};
use ftl::schema::{Data, Decl, Field, Module, SchemaType, TypeRef, Verb};

fn sample() -> Module {
    Module {
        name: "echo".to_string(),
        decls: vec![
            Decl::Verb(Verb {
                name: "echo".to_string(),
                request: Some(SchemaType::Ref(TypeRef { module: "echo".to_string(), name: "EchoRequest".to_string() })),
                response: Some(SchemaType::Ref(TypeRef { module: "echo".to_string(), name: "EchoResponse".to_string() })),
            }),
            Decl::Verb(Verb { name: "tick".to_string(), request: None, response: Some(SchemaType::Unit) }),
            Decl::Data(Data {
                name: "EchoRequest".to_string(),
                fields: vec![Field { name: "name".to_string(), ty: SchemaType::Str }],
            }),
            Decl::Data(Data {
                name: "EchoResponse".to_string(),
                fields: vec![
                    Field { name: "message".to_string(), ty: SchemaType::Str },
                    Field { name: "at".to_string(), ty: SchemaType::Time },
                    Field { name: "raw".to_string(), ty: SchemaType::Bytes },
                    Field { name: "extra".to_string(), ty: SchemaType::Any },
                    Field { name: "ok".to_string(), ty: SchemaType::Bool },
                    Field { name: "n".to_string(), ty: SchemaType::Int },
                    Field { name: "x".to_string(), ty: SchemaType::Float },
                ],
            }),
        ],
    }
}

#[test]
fn module_round_trips() {
    let m = sample();
    let bytes = encode_module(&m);
    let back = binary_to_module(&bytes).unwrap();
    assert_eq!(back, m);
    assert_eq!(encode_module(&back), bytes);
}

#[test]
fn empty_module_round_trips() {
    let m = Module { name: String::new(), decls: vec![] };
    let bytes = encode_module(&m);
    assert_eq!(binary_to_module(&bytes).unwrap(), m);
}

#[test]
fn non_ascii_names_round_trip() {
    let m = Module { name: "módulo_ü".to_string(), decls: vec![] };
    assert_eq!(binary_to_module(&encode_module(&m)).unwrap(), m);
}

#[test]
fn module_name_is_a_length_delimited_field() {
    let m = Module { name: "ab".to_string(), decls: vec![] };
    assert_eq!(encode_module(&m), vec![0x0a, 2, b'a', b'b']);
}

#[test]
fn truncated_bytes_are_rejected() {
    let bytes = encode_module(&sample());
    assert_eq!(binary_to_module(&bytes[..bytes.len() - 1]), Err(SchemaError::Malformed));
}

#[test]
fn fixed_width_wire_type_is_rejected() {
    assert_eq!(binary_to_module(&[0x0d, 0, 0, 0, 0]), Err(SchemaError::Malformed));
}

#[test]
fn invalid_utf8_name_is_rejected() {
    assert_eq!(binary_to_module(&[0x0a, 1, 0xff]), Err(SchemaError::Malformed));
}

#[test]
fn each_kind_of_type_round_trips() {
    let kinds = vec![
        SchemaType::Int,
        SchemaType::Float,
        SchemaType::Str,
        SchemaType::Bool,
        SchemaType::Time,
        SchemaType::Bytes,
        SchemaType::Any,
        SchemaType::Unit,
        SchemaType::Ref(TypeRef { module: "m".to_string(), name: "T".to_string() }),
    ];
    let mut seen = Vec::new();
    for k in kinds {
        let b = encode_type(&k);
        assert!(!seen.contains(&b));
        assert_eq!(decode_type(&b), Some(k));
        seen.push(b);
    }
}

#[test]
fn long_payload_uses_multi_byte_length() {
    let name = "x".repeat(300);
    let m = Module { name: name.clone(), decls: vec![] };
    let bytes = encode_module(&m);
    assert_eq!(&bytes[..3], &[0x0a, 0xac, 0x02]);
    assert_eq!(binary_to_module(&bytes).unwrap().name, name);
}
