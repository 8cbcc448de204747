use concordium_schema_decoder::decode::decode_type;
use concordium_schema_decoder::decode::parse_schema;
use concordium_schema_decoder::json::schema_to_json;
use concordium_schema_decoder::json::try_map_values;
use concordium_schema_decoder::json::type_to_json;
use concordium_schema_decoder::json::Json;
use concordium_schema_decoder::types::SchemaError;
use concordium_schema_decoder::types::SizeLength;
use concordium_schema_decoder::types::Type;
use concordium_schema_decoder::types::VersionedModuleSchema;
use concordium_schema_decoder::types::WasmVersion;

fn u32le(n: u32) -> Vec<u8> {
    n.to_le_bytes().to_vec()
}

fn name(s: &str) -> Vec<u8> {
    let mut v = u32le(s.len() as u32);
    v.extend_from_slice(s.as_bytes());
    v
}

fn jstr(s: &str) -> Json {
    Json::Str(s.as_bytes().to_vec())
}

fn jobj(ms: Vec<(&str, Json)>) -> Json {
    Json::Obj(ms.into_iter().map(|(k, v)| (k.as_bytes().to_vec(), v)).collect())
}

fn jkind(k: &str) -> Json {
    jobj(vec![("kind", jstr(k))])
}

/// The encoded bytes of the one-contract generation-0 module used by several
/// tests: contract "counter", init of type Unit, no state, one receive
/// entrypoint "increment" of type Unit.
fn counter_module_v0_body() -> Vec<u8> {
    let mut b = u32le(1);
    b.extend_from_slice(&name("counter"));
    b.push(1); // init present
    b.push(0); // Unit
    b.push(0); // state absent
    b.extend_from_slice(&u32le(1));
    b.extend_from_slice(&name("increment"));
    b.push(0); // Unit
    b
}

fn versioned(generation: u8, body: &[u8]) -> Vec<u8> {
    let mut b = vec![0xff, 0xff, generation];
    b.extend_from_slice(body);
    b
}

#[test]
fn missing_hint_fails() {
    let bytes = u32le(0);
    assert_eq!(parse_schema(None, &bytes), Err(SchemaError::MissingVersionHint));
}

#[test]
fn legacy_hint_selects_generation() {
    let bytes = u32le(0);
    match parse_schema(Some(WasmVersion::V0), &bytes) {
        Ok(VersionedModuleSchema::V0(cs)) => assert!(cs.is_empty()),
        other => panic!("expected an empty generation-0 module, got {:?}", other),
    }
    match parse_schema(Some(WasmVersion::V1), &bytes) {
        Ok(VersionedModuleSchema::V1(cs)) => assert!(cs.is_empty()),
        other => panic!("expected an empty generation-1 module, got {:?}", other),
    }
}

#[test]
fn unknown_generation_tag_is_malformed() {
    let bytes = versioned(9, &u32le(0));
    assert_eq!(
        parse_schema(None, &bytes),
        Err(SchemaError::MalformedSchema { offset: 2 })
    );
    // The hint never overrides a version-tagged stream.
    assert_eq!(
        parse_schema(Some(WasmVersion::V0), &bytes),
        Err(SchemaError::MalformedSchema { offset: 2 })
    );
}

#[test]
fn counter_module_projects_exactly() {
    let bytes = versioned(0, &counter_module_v0_body());
    let schema = parse_schema(None, &bytes).unwrap();
    let json = schema_to_json(&schema);
    let expected = jobj(vec![(
        "counter",
        jobj(vec![
            ("init", jkind("unit")),
            ("entrypoints", jobj(vec![("increment", jkind("unit"))])),
        ]),
    )]);
    assert_eq!(json, expected);
}

#[test]
fn v3_event_projects_at_contract_level() {
    let mut body = u32le(1);
    body.extend_from_slice(&name("c"));
    body.push(0); // init absent
    body.push(1); // event present
    body.push(2); // U8
    body.extend_from_slice(&u32le(0)); // no entrypoints
    let bytes = versioned(3, &body);
    let schema = parse_schema(None, &bytes).unwrap();
    let json = schema_to_json(&schema);
    let expected = jobj(vec![("c", jobj(vec![("event", jkind("u8"))]))]);
    assert_eq!(json, expected);
}

fn tagged_enum_bytes(first_high: bool) -> Vec<u8> {
    // Variants tagged 5 (name "A", no fields) and 9 (name "B", one unnamed
    // Bool field), in either wire order.
    let mut lo = vec![5u8];
    lo.extend_from_slice(&name("A"));
    lo.push(2); // Fields: none
    let mut hi = vec![9u8];
    hi.extend_from_slice(&name("B"));
    hi.push(1); // Fields: unnamed
    hi.extend_from_slice(&u32le(1));
    hi.push(1); // Bool
    let mut b = vec![31u8];
    b.extend_from_slice(&u32le(2));
    if first_high {
        b.extend_from_slice(&hi);
        b.extend_from_slice(&lo);
    } else {
        b.extend_from_slice(&lo);
        b.extend_from_slice(&hi);
    }
    b
}

#[test]
fn tagged_enum_identity_is_the_tag_not_wire_order() {
    let a = tagged_enum_bytes(false);
    let b = tagged_enum_bytes(true);
    let (ta, pa) = decode_type(&a, 0).unwrap();
    let (tb, pb) = decode_type(&b, 0).unwrap();
    assert_eq!(pa, a.len());
    assert_eq!(pb, b.len());
    assert_eq!(ta, tb);
    assert_eq!(type_to_json(&ta), type_to_json(&tb));
    match &ta {
        Type::TaggedEnum(vs) => {
            assert_eq!(vs.len(), 2);
            assert_eq!(vs[0].0, 5);
            assert_eq!(vs[0].1, b"A".to_vec());
            assert_eq!(vs[1].0, 9);
            assert_eq!(vs[1].1, b"B".to_vec());
        },
        other => panic!("expected a tagged enum, got {:?}", other),
    }
}

#[test]
fn duplicate_tagged_enum_tag_is_malformed() {
    let mut b = vec![31u8];
    b.extend_from_slice(&u32le(2));
    b.push(5);
    b.extend_from_slice(&name("A"));
    b.push(2);
    b.push(5);
    b.extend_from_slice(&name("B"));
    b.push(2);
    assert!(matches!(
        decode_type(&b, 0),
        Err(SchemaError::MalformedSchema { .. })
    ));
}

#[test]
fn every_strict_prefix_ends_early() {
    let bytes = versioned(0, &counter_module_v0_body());
    assert!(parse_schema(Some(WasmVersion::V0), &bytes).is_ok());
    for k in 0..bytes.len() {
        let prefix = &bytes[..k];
        match parse_schema(Some(WasmVersion::V0), prefix) {
            Err(SchemaError::UnexpectedEndOfInput { .. }) => {},
            other => panic!("prefix of {} bytes gave {:?}", k, other),
        }
    }
}

#[test]
fn invalid_presence_flag_is_reported() {
    let mut body = u32le(1);
    body.extend_from_slice(&name("c"));
    body.push(7); // invalid presence flag for init
    let bytes = versioned(0, &body);
    assert_eq!(
        parse_schema(None, &bytes),
        Err(SchemaError::InvalidPresenceFlag { flag: 7, offset: 12 })
    );
}

#[test]
fn unknown_type_tag_is_reported() {
    let bytes = vec![200u8];
    assert_eq!(
        decode_type(&bytes, 0),
        Err(SchemaError::UnknownTypeTag { tag: 200, offset: 0 })
    );
}

#[test]
fn unknown_size_length_is_malformed() {
    // A list with length-size class byte 3.
    let bytes = vec![16u8, 3u8, 0u8];
    assert_eq!(
        decode_type(&bytes, 0),
        Err(SchemaError::MalformedSchema { offset: 1 })
    );
}

#[test]
fn duplicate_entrypoint_name_is_malformed() {
    let mut body = u32le(1);
    body.extend_from_slice(&name("c"));
    body.push(0); // init absent
    body.push(0); // state absent
    body.extend_from_slice(&u32le(2));
    body.extend_from_slice(&name("a"));
    body.push(0);
    body.extend_from_slice(&name("a"));
    body.push(0);
    let bytes = versioned(0, &body);
    assert!(matches!(
        parse_schema(None, &bytes),
        Err(SchemaError::MalformedSchema { .. })
    ));
}

#[test]
fn invalid_utf8_name_is_malformed() {
    let mut body = u32le(1);
    body.extend_from_slice(&u32le(1));
    body.push(0xff); // not UTF-8
    body.push(0);
    body.push(0);
    body.extend_from_slice(&u32le(0));
    let bytes = versioned(0, &body);
    assert!(matches!(
        parse_schema(None, &bytes),
        Err(SchemaError::MalformedSchema { .. })
    ));
}

#[test]
fn entrypoints_are_sorted_by_name() {
    let mut body = u32le(1);
    body.extend_from_slice(&name("c"));
    body.push(0);
    body.push(0);
    body.extend_from_slice(&u32le(2));
    body.extend_from_slice(&name("b"));
    body.push(0); // Unit
    body.extend_from_slice(&name("a"));
    body.push(1); // Bool
    let bytes = versioned(0, &body);
    let schema = parse_schema(None, &bytes).unwrap();
    match &schema {
        VersionedModuleSchema::V0(cs) => {
            let receive = &cs[0].1.receive;
            assert_eq!(receive[0].0, b"a".to_vec());
            assert_eq!(receive[1].0, b"b".to_vec());
            assert_eq!(receive[0].1, Type::Bool);
            assert_eq!(receive[1].1, Type::Unit);
        },
        other => panic!("expected a generation-0 module, got {:?}", other),
    }
}

#[test]
fn function_v1_member_set_is_exact() {
    // One contract, init with parameter only; one entrypoint with both
    // parameter and return value.
    let mut body = u32le(1);
    body.extend_from_slice(&name("c"));
    body.push(1); // init present
    body.push(1); // parameter present
    body.push(1); // Bool
    body.push(0); // return value absent
    body.extend_from_slice(&u32le(1));
    body.extend_from_slice(&name("go"));
    body.push(1);
    body.push(0); // parameter Unit
    body.push(1);
    body.push(2); // return value U8
    let schema = parse_schema(Some(WasmVersion::V1), &body).unwrap();
    let json = schema_to_json(&schema);
    let expected = jobj(vec![(
        "c",
        jobj(vec![
            ("init", jobj(vec![("parameter", jkind("bool"))])),
            (
                "entrypoints",
                jobj(vec![(
                    "go",
                    jobj(vec![("parameter", jkind("unit")), ("returnValue", jkind("u8"))]),
                )]),
            ),
        ]),
    )]);
    assert_eq!(json, expected);
}

#[test]
fn function_v2_error_member_projects() {
    let mut body = u32le(1);
    body.extend_from_slice(&name("c"));
    body.push(0); // init absent
    body.extend_from_slice(&u32le(1));
    body.extend_from_slice(&name("go"));
    body.push(0); // parameter absent
    body.push(0); // return value absent
    body.push(1); // error present
    body.push(1); // Bool
    let bytes = versioned(2, &body);
    let schema = parse_schema(None, &bytes).unwrap();
    let json = schema_to_json(&schema);
    let expected = jobj(vec![(
        "c",
        jobj(vec![(
            "entrypoints",
            jobj(vec![("go", jobj(vec![("error", jkind("bool"))]))]),
        )]),
    )]);
    assert_eq!(json, expected);
}

#[test]
fn composite_types_project_with_parameters() {
    // Array of length 258 holding pairs of a string (two-byte lengths) and a
    // LEB128-constrained number.
    let bytes = vec![
        19, 2, 1, 0, 0, // Array, length 258
        15, // Pair
        22, 1, // String with u16 lengths
        27, 5, // ULeb128 with at most 5 bytes
    ];
    let (t, p) = decode_type(&bytes, 0).unwrap();
    assert_eq!(p, bytes.len());
    assert_eq!(
        t,
        Type::Array(
            258,
            Box::new(Type::Pair(
                Box::new(Type::Text(SizeLength::U16)),
                Box::new(Type::ULeb128(5)),
            )),
        )
    );
    let expected = jobj(vec![
        ("kind", jstr("array")),
        ("length", Json::Num(258)),
        (
            "item",
            jobj(vec![
                ("kind", jstr("pair")),
                (
                    "first",
                    jobj(vec![("kind", jstr("string")), ("sizeLength", jstr("u16"))]),
                ),
                (
                    "second",
                    jobj(vec![("kind", jstr("uleb128")), ("maxLength", Json::Num(5))]),
                ),
            ]),
        ),
    ]);
    assert_eq!(type_to_json(&t), expected);
}

#[test]
fn struct_and_enum_fields_project() {
    // Enum with a variant of named fields and a variant of no fields.
    let mut b = vec![21u8];
    b.extend_from_slice(&u32le(2));
    b.extend_from_slice(&name("Go"));
    b.push(0); // named fields
    b.extend_from_slice(&u32le(1));
    b.extend_from_slice(&name("x"));
    b.push(4); // U32
    b.extend_from_slice(&name("Stop"));
    b.push(2); // no fields
    let (t, p) = decode_type(&b, 0).unwrap();
    assert_eq!(p, b.len());
    let expected = jobj(vec![
        ("kind", jstr("enum")),
        (
            "variants",
            Json::Arr(vec![
                jobj(vec![
                    ("name", jstr("Go")),
                    (
                        "fields",
                        jobj(vec![
                            ("kind", jstr("named")),
                            (
                                "fields",
                                Json::Arr(vec![jobj(vec![
                                    ("name", jstr("x")),
                                    ("type", jkind("u32")),
                                ])]),
                            ),
                        ]),
                    ),
                ]),
                jobj(vec![
                    ("name", jstr("Stop")),
                    ("fields", jobj(vec![("kind", jstr("none"))])),
                ]),
            ]),
        ),
    ]);
    assert_eq!(type_to_json(&t), expected);
}

#[test]
fn trailing_bytes_are_accepted() {
    let mut bytes = versioned(0, &counter_module_v0_body());
    let clean = parse_schema(None, &bytes).unwrap();
    bytes.push(0xab);
    let padded = parse_schema(None, &bytes).unwrap();
    assert_eq!(clean, padded);
}

#[test]
fn try_map_values_keeps_keys_and_order() {
    let m: Vec<(Vec<u8>, Type)> = vec![
        (b"a".to_vec(), Type::Bool),
        (b"b".to_vec(), Type::U8),
    ];
    let r: Result<Vec<(Vec<u8>, Json)>, SchemaError> =
        try_map_values(&m, &|t: &Type| Ok(type_to_json(t)));
    let out = r.unwrap();
    assert_eq!(out.len(), 2);
    assert_eq!(out[0].0, b"a".to_vec());
    assert_eq!(out[0].1, jkind("bool"));
    assert_eq!(out[1].0, b"b".to_vec());
    assert_eq!(out[1].1, jkind("u8"));
}
