use fracpack::actions;
use fracpack::codec::{pack, pack_into, unpack, verify, Error};
use fracpack::desc::{FieldDef, NamedDef, Registry, Shape, TypeDesc, VariantDef};
use fracpack::value::Value;

fn point_registry(frozen: bool) -> Registry {
    Registry {
        defs: vec![NamedDef {
            name: "Point".to_string(),
            shape: Shape::Struct {
                fields: vec![
                    FieldDef { name: "x".to_string(), ty: TypeDesc::I32 },
                    FieldDef { name: "y".to_string(), ty: TypeDesc::I32 },
                ],
                frozen,
                custom_json: false,
            },
            variable: !frozen,
            fixed: 8,
        }],
    }
}

fn pair_registry() -> Registry {
    Registry {
        defs: vec![NamedDef {
            name: "Pair".to_string(),
            shape: Shape::Struct {
                fields: vec![
                    FieldDef { name: "a".to_string(), ty: TypeDesc::I32 },
                    FieldDef { name: "b".to_string(), ty: TypeDesc::Str },
                ],
                frozen: false,
                custom_json: false,
            },
            variable: true,
            fixed: 8,
        }],
    }
}

fn enum_registry() -> Registry {
    Registry {
        defs: vec![NamedDef {
            name: "E".to_string(),
            shape: Shape::Union {
                variants: vec![
                    VariantDef { name: "A".to_string(), tys: vec![TypeDesc::I32] },
                    VariantDef {
                        name: "B".to_string(),
                        tys: vec![TypeDesc::I32, TypeDesc::I32],
                    },
                ],
            },
            variable: true,
            fixed: 0,
        }],
    }
}

fn roundtrip(reg: &Registry, t: &TypeDesc, v: Value) -> Vec<u8> {
    let bytes = pack(reg, t, &v).expect("pack");
    let mut pos: u32 = 0;
    let back = unpack(reg, t, bytes.as_slice(), &mut pos).expect("unpack");
    assert_eq!(back, v);
    assert_eq!(pos as usize, bytes.len());
    let mut vpos: u32 = 0;
    verify(reg, t, bytes.as_slice(), &mut vpos).expect("verify");
    assert_eq!(vpos, pos);
    bytes
}

#[test]
fn point_frozen_packs_to_eight_bytes() {
    let reg = point_registry(true);
    let v = Value::List(vec![Value::I32(1), Value::I32(2)]);
    let bytes = roundtrip(&reg, &TypeDesc::Named(0), v);
    assert_eq!(bytes, vec![1, 0, 0, 0, 2, 0, 0, 0]);
}

#[test]
fn pair_extensible_layout() {
    let reg = pair_registry();
    let v = Value::List(vec![Value::I32(7), Value::Str(b"hi".to_vec())]);
    let bytes = roundtrip(&reg, &TypeDesc::Named(0), v);
    // u16 heap size | 4-byte a | 4-byte offset to b | heap: u32 len + bytes
    assert_eq!(
        bytes,
        vec![8, 0, 7, 0, 0, 0, 4, 0, 0, 0, 2, 0, 0, 0, b'h', b'i']
    );
}

#[test]
fn enum_single_field_variant() {
    let reg = enum_registry();
    let v = Value::Variant(0, vec![Value::I32(5)]);
    let bytes = roundtrip(&reg, &TypeDesc::Named(0), v);
    assert_eq!(bytes, vec![0x00, 4, 0, 0, 0, 5, 0, 0, 0]);
}

#[test]
fn enum_named_fields_variant() {
    let reg = enum_registry();
    let v = Value::Variant(1, vec![Value::I32(1), Value::I32(2)]);
    let bytes = roundtrip(&reg, &TypeDesc::Named(0), v);
    assert_eq!(bytes, vec![0x01, 8, 0, 0, 0, 1, 0, 0, 0, 2, 0, 0, 0]);
}

#[test]
fn vector_of_i32_layout() {
    let reg = Registry::new();
    let t = TypeDesc::Vector(Box::new(TypeDesc::I32));
    let v = Value::List(vec![Value::I32(1), Value::I32(2), Value::I32(3)]);
    let bytes = roundtrip(&reg, &t, v);
    assert_eq!(
        bytes,
        vec![3, 0, 0, 0, 1, 0, 0, 0, 2, 0, 0, 0, 3, 0, 0, 0]
    );
}

#[test]
fn primitive_round_trips() {
    let reg = Registry::new();
    roundtrip(&reg, &TypeDesc::Bool, Value::Bool(true));
    roundtrip(&reg, &TypeDesc::Bool, Value::Bool(false));
    roundtrip(&reg, &TypeDesc::U8, Value::U8(0xAB));
    roundtrip(&reg, &TypeDesc::U16, Value::U16(0xBEEF));
    roundtrip(&reg, &TypeDesc::U32, Value::U32(0xDEAD_BEEF));
    roundtrip(&reg, &TypeDesc::U64, Value::U64(0x0123_4567_89AB_CDEF));
    roundtrip(&reg, &TypeDesc::I32, Value::I32(-2));
    roundtrip(&reg, &TypeDesc::I32, Value::I32(i32::MIN));
    roundtrip(&reg, &TypeDesc::I64, Value::I64(-3));
    roundtrip(&reg, &TypeDesc::I64, Value::I64(i64::MIN));
}

#[test]
fn i32_wire_is_twos_complement() {
    let reg = Registry::new();
    let bytes = roundtrip(&reg, &TypeDesc::I32, Value::I32(-1));
    assert_eq!(bytes, vec![0xFF, 0xFF, 0xFF, 0xFF]);
}

#[test]
fn string_round_trip() {
    let reg = Registry::new();
    let bytes = roundtrip(&reg, &TypeDesc::Str, Value::Str(b"abc".to_vec()));
    assert_eq!(bytes, vec![3, 0, 0, 0, b'a', b'b', b'c']);
    roundtrip(&reg, &TypeDesc::Str, Value::Str(Vec::new()));
}

#[test]
fn optional_round_trip() {
    let reg = Registry::new();
    let t = TypeDesc::Optional(Box::new(TypeDesc::U32));
    let absent = roundtrip(&reg, &t, Value::OptNone);
    assert_eq!(absent, vec![1, 0, 0, 0]);
    let present = roundtrip(&reg, &t, Value::OptSome(Box::new(Value::U32(9))));
    assert_eq!(present, vec![4, 0, 0, 0, 9, 0, 0, 0]);
}

#[test]
fn array_round_trip() {
    let reg = Registry::new();
    let t = TypeDesc::Array(Box::new(TypeDesc::U8), 3);
    let bytes = roundtrip(
        &reg,
        &t,
        Value::List(vec![Value::U8(1), Value::U8(2), Value::U8(3)]),
    );
    assert_eq!(bytes, vec![1, 2, 3]);
}

#[test]
fn tuple_with_heap_field_round_trip() {
    let reg = Registry::new();
    let t = TypeDesc::Tuple(vec![TypeDesc::U8, TypeDesc::Str]);
    let bytes = roundtrip(
        &reg,
        &t,
        Value::List(vec![Value::U8(7), Value::Str(b"z".to_vec())]),
    );
    // 1-byte u8, 4-byte offset (4 remaining fixed bytes), then len + byte.
    assert_eq!(bytes, vec![7, 4, 0, 0, 0, 1, 0, 0, 0, b'z']);
}

#[test]
fn nested_struct_round_trip() {
    // Outer extensible struct holding a frozen Point and a string.
    let reg = Registry {
        defs: vec![
            NamedDef {
                name: "Point".to_string(),
                shape: Shape::Struct {
                    fields: vec![
                        FieldDef { name: "x".to_string(), ty: TypeDesc::I32 },
                        FieldDef { name: "y".to_string(), ty: TypeDesc::I32 },
                    ],
                    frozen: true,
                    custom_json: false,
                },
                variable: false,
                fixed: 8,
            },
            NamedDef {
                name: "Outer".to_string(),
                shape: Shape::Struct {
                    fields: vec![
                        FieldDef { name: "p".to_string(), ty: TypeDesc::Named(0) },
                        FieldDef { name: "tag".to_string(), ty: TypeDesc::Str },
                    ],
                    frozen: false,
                    custom_json: false,
                },
                variable: true,
                fixed: 12,
            },
        ],
    };
    let v = Value::List(vec![
        Value::List(vec![Value::I32(-1), Value::I32(2)]),
        Value::Str(b"ok".to_vec()),
    ]);
    roundtrip(&reg, &TypeDesc::Named(1), v);
}

#[test]
fn vector_of_strings_round_trip() {
    let reg = Registry::new();
    let t = TypeDesc::Vector(Box::new(TypeDesc::Str));
    roundtrip(
        &reg,
        &t,
        Value::List(vec![
            Value::Str(b"one".to_vec()),
            Value::Str(Vec::new()),
            Value::Str(b"three".to_vec()),
        ]),
    );
}

#[test]
fn frozen_and_extensible_differ_by_two_bytes() {
    let frozen = point_registry(true);
    let ext = point_registry(false);
    let v1 = Value::List(vec![Value::I32(3), Value::I32(4)]);
    let v2 = Value::List(vec![Value::I32(3), Value::I32(4)]);
    let b1 = pack(&frozen, &TypeDesc::Named(0), &v1).expect("pack frozen");
    let b2 = pack(&ext, &TypeDesc::Named(0), &v2).expect("pack extensible");
    assert_eq!(b2.len(), b1.len() + 2);
    assert_eq!(&b2[..2], &[8, 0]);
    assert_eq!(&b2[2..], &b1[..]);
    // Both decode to equal values.
    let mut p1: u32 = 0;
    let mut p2: u32 = 0;
    let u1 = unpack(&frozen, &TypeDesc::Named(0), b1.as_slice(), &mut p1).unwrap();
    let u2 = unpack(&ext, &TypeDesc::Named(0), b2.as_slice(), &mut p2).unwrap();
    assert_eq!(u1, u2);
}

#[test]
fn bad_enum_index_rejected() {
    let reg = enum_registry();
    let bytes = vec![0x02, 4, 0, 0, 0, 5, 0, 0, 0];
    let mut pos: u32 = 0;
    let r = unpack(&reg, &TypeDesc::Named(0), bytes.as_slice(), &mut pos);
    assert_eq!(r, Err(Error::BadEnumIndex));
    let mut vpos: u32 = 0;
    let rv = verify(&reg, &TypeDesc::Named(0), bytes.as_slice(), &mut vpos);
    assert_eq!(rv, Err(Error::BadEnumIndex));
}

#[test]
fn bad_size_rejected() {
    let reg = enum_registry();
    // Variant A payload is 4 bytes, but the size field claims 5.
    let bytes = vec![0x00, 5, 0, 0, 0, 5, 0, 0, 0, 0];
    let mut pos: u32 = 0;
    assert_eq!(
        unpack(&reg, &TypeDesc::Named(0), bytes.as_slice(), &mut pos),
        Err(Error::BadSize)
    );
    let mut vpos: u32 = 0;
    assert_eq!(
        verify(&reg, &TypeDesc::Named(0), bytes.as_slice(), &mut vpos),
        Err(Error::BadSize)
    );
}

#[test]
fn bad_scalar_rejected() {
    let reg = Registry::new();
    let bytes = vec![7u8];
    let mut pos: u32 = 0;
    assert_eq!(
        unpack(&reg, &TypeDesc::Bool, bytes.as_slice(), &mut pos),
        Err(Error::BadScalar)
    );
}

#[test]
fn short_buffer_rejected() {
    let reg = Registry::new();
    let bytes = vec![1u8, 2];
    let mut pos: u32 = 0;
    assert_eq!(
        unpack(&reg, &TypeDesc::U32, bytes.as_slice(), &mut pos),
        Err(Error::ReadPastEnd)
    );
}

#[test]
fn bad_offset_rejected() {
    let reg = pair_registry();
    // The prefix names a heap start one byte past where the offset points.
    let bytes = vec![9, 0, 7, 0, 0, 0, 4, 0, 0, 0, 0, 0, 0, 0];
    let mut pos: u32 = 0;
    assert_eq!(
        unpack(&reg, &TypeDesc::Named(0), bytes.as_slice(), &mut pos),
        Err(Error::BadOffset)
    );
    // An offset that does not point at the heap cursor.
    let bytes2 = vec![8, 0, 7, 0, 0, 0, 5, 0, 0, 0, 2, 0, 0, 0, b'h', b'i'];
    let mut pos2: u32 = 0;
    assert_eq!(
        unpack(&reg, &TypeDesc::Named(0), bytes2.as_slice(), &mut pos2),
        Err(Error::BadOffset)
    );
}

#[test]
fn extended_struct_decodes_forward_compatibly() {
    // A buffer written for an extended Pair with an extra trailing i32
    // field: the prefix names a larger fixed region (12), the string offset
    // is computed against the later heap start.  A decoder that only knows
    // the two original fields walks them and skips the unknown field.
    let reg = pair_registry();
    let bytes = vec![
        12, 0, // heap-size prefix: extended fixed region
        7, 0, 0, 0, // a
        8, 0, 0, 0, // offset to b: heap starts at 2 + 12 = 14
        99, 0, 0, 0, // a field this decoder does not know
        2, 0, 0, 0, b'h', b'i', // heap: the string
    ];
    let mut pos: u32 = 0;
    let v = unpack(&reg, &TypeDesc::Named(0), bytes.as_slice(), &mut pos).expect("unpack");
    assert_eq!(
        v,
        Value::List(vec![Value::I32(7), Value::Str(b"hi".to_vec())])
    );
    assert_eq!(pos as usize, bytes.len());
    let mut vpos: u32 = 0;
    verify(&reg, &TypeDesc::Named(0), bytes.as_slice(), &mut vpos).expect("verify");
    assert_eq!(vpos, pos);
}

#[test]
fn alias_of_optional_embeds_transparently() {
    // struct Holder { m: Maybe } where Maybe renames Option<u32>: the field
    // embeds exactly as the optional itself, sentinel included.
    let reg = Registry {
        defs: vec![
            NamedDef {
                name: "Maybe".to_string(),
                shape: Shape::Alias { inner: TypeDesc::Optional(Box::new(TypeDesc::U32)) },
                variable: true,
                fixed: 4,
            },
            NamedDef {
                name: "Holder".to_string(),
                shape: Shape::Struct {
                    fields: vec![FieldDef { name: "m".to_string(), ty: TypeDesc::Named(0) }],
                    frozen: false,
                    custom_json: false,
                },
                variable: true,
                fixed: 4,
            },
        ],
    };
    assert!(reg.validate().is_ok());
    let absent = roundtrip(&reg, &TypeDesc::Named(1), Value::List(vec![Value::OptNone]));
    // prefix | the absent-optional sentinel inline in the slot, no heap
    assert_eq!(absent, vec![4, 0, 1, 0, 0, 0]);
    let present = roundtrip(
        &reg,
        &TypeDesc::Named(1),
        Value::List(vec![Value::OptSome(Box::new(Value::U32(9)))]),
    );
    // prefix | offset to the inner payload | the u32 itself
    assert_eq!(present, vec![4, 0, 4, 0, 0, 0, 9, 0, 0, 0]);
}

#[test]
fn registry_validation() {
    assert!(point_registry(true).validate().is_ok());
    assert!(point_registry(false).validate().is_ok());
    assert!(pair_registry().validate().is_ok());
    assert!(enum_registry().validate().is_ok());
    // Stored fixed-region length disagrees with the fields.
    let mut bad = point_registry(true);
    bad.defs[0].fixed = 7;
    assert_eq!(bad.validate(), Err(Error::TooLarge));
    // A fixed region that cannot fit the 16-bit heap-size prefix: an inline
    // array of 70000 bytes.
    let huge = Registry {
        defs: vec![NamedDef {
            name: "Big".to_string(),
            shape: Shape::Struct {
                fields: vec![FieldDef {
                    name: "blob".to_string(),
                    ty: TypeDesc::Array(Box::new(TypeDesc::U8), 70000),
                }],
                frozen: true,
                custom_json: false,
            },
            variable: false,
            fixed: 0,
        }],
    };
    assert_eq!(huge.validate(), Err(Error::TooLarge));
}

#[test]
fn verify_agrees_with_unpack_on_corrupt_buffers() {
    let reg = pair_registry();
    let v = Value::List(vec![Value::I32(7), Value::Str(b"hi".to_vec())]);
    let good = pack(&reg, &TypeDesc::Named(0), &v).unwrap();
    // Corrupt every single byte in turn and compare both passes.
    for i in 0..good.len() {
        let mut bad = good.clone();
        bad[i] = bad[i].wrapping_add(1);
        let mut up: u32 = 0;
        let ur = unpack(&reg, &TypeDesc::Named(0), bad.as_slice(), &mut up);
        let mut vp: u32 = 0;
        let vr = verify(&reg, &TypeDesc::Named(0), bad.as_slice(), &mut vp);
        match (ur, vr) {
            (Ok(_), Ok(())) => assert_eq!(up, vp),
            (Err(e1), Err(e2)) => assert_eq!(e1, e2),
            other => panic!("verify and unpack disagree: {:?}", other),
        }
    }
}

#[test]
fn pack_into_appends() {
    let reg = Registry::new();
    let mut out = vec![0xEE];
    pack_into(&reg, &TypeDesc::U16, &Value::U16(0x0102), &mut out).unwrap();
    assert_eq!(out, vec![0xEE, 0x02, 0x01]);
}

#[test]
fn actions_compute() {
    assert_eq!(actions::hi(), "hello!!!");
    assert_eq!(actions::add(2, 3), 5);
    assert_eq!(actions::multiply(4, -5), -20);
}
