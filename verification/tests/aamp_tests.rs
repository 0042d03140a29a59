use aamp::hash_name;
use aamp::le::{read_le, write_le};
use aamp::parameter::{Parameter, Type};
use aamp::records::{ReadError, ResHeader, ResParameter, ResParameterList, ResParameterObj};
use aamp::types::{Color, Curve, F32Bits, FixedSafeString, Quat, Vector2f, Vector3f, Vector4f, U24};
use aamp::{
    root_key, Name, ParameterIO, ParameterList, ParameterListMap, ParameterObject,
    ParameterObjectMap,
};

#[test]
fn check_hasher() {
    let hashed: u32 = hash_name("The Abolition of Man");
    let hash: u32 = 0x41afa934;
    assert_eq!(hashed, hash);
}

#[test]
fn hash_of_empty_name_is_zero() {
    assert_eq!(hash_name(""), 0);
}

#[test]
fn hash_matches_crc32_check_value() {
    assert_eq!(hash_name("123456789"), 0xCBF4_3926);
}

#[test]
fn hash_of_root_key() {
    assert_eq!(hash_name("param_root"), 0xA4F6_CB6C);
    assert_eq!(root_key().hash(), 0xA4F6_CB6C);
}

#[test]
fn hash_is_affine_on_equal_lengths() {
    let a = "abcd1234";
    let b = "ZYXW_987";
    let c = "param_ro";
    let x: Vec<u8> = a
        .bytes()
        .zip(b.bytes())
        .zip(c.bytes())
        .map(|((p, q), r)| p ^ q ^ r)
        .collect();
    let x = String::from_utf8(x).unwrap();
    assert_eq!(hash_name(&x), hash_name(a) ^ hash_name(b) ^ hash_name(c));
}

#[test]
fn hash_tells_apart_four_byte_windows() {
    assert_ne!(hash_name("Speed_A"), hash_name("Speed_B"));
    assert_ne!(hash_name("abcd"), hash_name("abce"));
    assert_ne!(hash_name("xxabcdyy"), hash_name("xxwxyzyy"));
}

#[test]
fn name_from_str_and_from_agree() {
    let a = Name::from_str("DemoAIActionIdx");
    let b: Name = Name::from("DemoAIActionIdx");
    assert_eq!(a, b);
    assert_eq!(a.hash(), hash_name("DemoAIActionIdx"));
}

#[test]
fn name_from_hash_roundtrip() {
    let n: Name = Name::from(0x1234_5678u32);
    assert_eq!(n.hash(), 0x1234_5678);
    assert_eq!(Name::from(n.hash()), n);
}

#[test]
fn names_equal_iff_hashes_equal() {
    assert_ne!(Name::from_str("a"), Name::from_str("b"));
    assert_eq!(Name::from(hash_name("a")), Name::from_str("a"));
}

#[test]
fn type_codes_roundtrip() {
    let all = [
        Type::Bool, Type::F32, Type::Int, Type::Vec2, Type::Vec3, Type::Vec4, Type::Color,
        Type::String32, Type::String64, Type::Curve1, Type::Curve2, Type::Curve3, Type::Curve4,
        Type::BufferInt, Type::BufferF32, Type::String256, Type::Quat, Type::U32,
        Type::BufferU32, Type::BufferBinary, Type::StringRef,
    ];
    for (i, t) in all.iter().enumerate() {
        assert_eq!(t.code() as usize, i);
        assert_eq!(Type::from_code(i as u8), Some(*t));
    }
    assert_eq!(Type::from_code(21), None);
    assert_eq!(Type::from_code(0xFF), None);
}

fn zero() -> F32Bits {
    F32Bits(0)
}

fn curve() -> Curve {
    Curve { a: 1, b: 2, floats: [zero(); 30] }
}

fn one_of_each() -> Vec<Parameter> {
    vec![
        Parameter::Bool(true),
        Parameter::F32(F32Bits(0x3F80_0000)),
        Parameter::Int(-3),
        Parameter::Vec2(Vector2f { x: zero(), y: zero() }),
        Parameter::Vec3(Vector3f { x: zero(), y: zero(), z: zero() }),
        Parameter::Vec4(Vector4f { x: zero(), y: zero(), z: zero(), t: zero() }),
        Parameter::Color(Color { r: zero(), g: zero(), b: zero(), a: zero() }),
        Parameter::String32(FixedSafeString::<32>::try_from_str("abc").unwrap()),
        Parameter::String64(FixedSafeString::<64>::try_from_str("def").unwrap()),
        Parameter::Curve1([curve()]),
        Parameter::Curve2([curve(); 2]),
        Parameter::Curve3([curve(); 3]),
        Parameter::Curve4([curve(); 4]),
        Parameter::BufferInt(vec![1, -2]),
        Parameter::BufferF32(vec![zero()]),
        Parameter::String256(FixedSafeString::<256>::try_from_str("ghi").unwrap()),
        Parameter::Quat(Quat { a: zero(), b: zero(), c: zero(), d: zero() }),
        Parameter::U32(7),
        Parameter::BufferU32(vec![3]),
        Parameter::BufferBinary(vec![0xAB]),
        Parameter::StringRef(String::from("jkl")),
    ]
}

#[test]
fn parameter_types_follow_variants() {
    let params = one_of_each();
    for (i, p) in params.iter().enumerate() {
        assert_eq!(p.get_type().code() as usize, i);
    }
}

#[test]
fn buffer_and_string_types() {
    let params = one_of_each();
    let buffers: Vec<usize> = params
        .iter()
        .enumerate()
        .filter(|(_, p)| p.is_buffer_type())
        .map(|(i, _)| i)
        .collect();
    assert_eq!(buffers, vec![13, 14, 18, 19]);
    let strings: Vec<usize> = params
        .iter()
        .enumerate()
        .filter(|(_, p)| p.is_string_type())
        .map(|(i, _)| i)
        .collect();
    assert_eq!(strings, vec![7, 8, 15, 20]);
}

#[test]
fn as_str_gives_text_of_string_types_only() {
    let params = one_of_each();
    assert_eq!(params[7].as_str(), Some("abc"));
    assert_eq!(params[8].as_str(), Some("def"));
    assert_eq!(params[15].as_str(), Some("ghi"));
    assert_eq!(params[20].as_str(), Some("jkl"));
    for i in [0, 1, 2, 13, 17, 19] {
        assert_eq!(params[i].as_str(), None);
    }
}

#[test]
fn fixed_string_length_limit() {
    assert!(FixedSafeString::<4>::try_from_str("abcd").is_some());
    assert!(FixedSafeString::<4>::try_from_str("abcde").is_none());
    // "é" takes two bytes.
    assert!(FixedSafeString::<4>::try_from_str("ééé").is_none());
    assert_eq!(FixedSafeString::<4>::try_from_str("éé").unwrap().as_str(), "éé");
    let a = FixedSafeString::<8>::try_from_str("same").unwrap();
    assert!(a == FixedSafeString::<8>::try_from_str("same").unwrap());
    assert!(a != FixedSafeString::<8>::try_from_str("other").unwrap());
    assert!(a.clone() == a);
}

#[test]
fn u24_range() {
    assert_eq!(U24::new(0xFF_FFFF).map(|u| u.value()), Some(0xFF_FFFF));
    assert!(U24::new(0x100_0000).is_none());
}

#[test]
fn object_from_iter_keeps_first_place_and_last_value() {
    let a = Name::from_str("a");
    let b = Name::from_str("b");
    let o = ParameterObject::from_iter(vec![
        (a, Parameter::U32(1)),
        (b, Parameter::U32(2)),
        (a, Parameter::U32(3)),
    ]);
    assert_eq!(o.len(), 2);
    assert!(!o.is_empty());
    let entries: Vec<(Name, u32)> = o
        .0
        .iter()
        .map(|(k, v)| (*k, match v {
            Parameter::U32(u) => *u,
            _ => unreachable!(),
        }))
        .collect();
    assert_eq!(entries, vec![(a, 3), (b, 2)]);
}

#[test]
fn default_maps_are_empty() {
    let o = ParameterObject::default();
    assert_eq!(o.len(), 0);
    assert!(o.is_empty());
    let m = ParameterObjectMap::default();
    assert_eq!(m.len(), 0);
    assert!(m.is_empty());
    let l = ParameterListMap::default();
    assert_eq!(l.len(), 0);
    assert!(l.is_empty());
    let io = ParameterIO::default();
    assert_eq!(io.version, 0);
    assert_eq!(io.data_type, "");
    assert!(io.param_root.objects.is_empty());
    assert!(io.param_root.lists.is_empty());
}

#[test]
fn object_map_from_iter() {
    let x = Name::from_str("x");
    let y = Name::from_str("y");
    let m = ParameterObjectMap::from_iter(vec![
        (x, ParameterObject::default()),
        (y, ParameterObject::from_iter(vec![(x, Parameter::Bool(false))])),
        (y, ParameterObject::default()),
    ]);
    assert_eq!(m.len(), 2);
    let ys: Vec<usize> = m.0.iter().map(|(_, o)| o.len()).collect();
    assert_eq!(ys, vec![0, 0]);
}

#[test]
fn list_map_from_iter() {
    let x = Name::from_str("x");
    let y = Name::from_str("y");
    let m = ParameterListMap::from_iter(vec![
        (x, ParameterList::default()),
        (y, ParameterList::default()),
        (x, ParameterList::default()),
        (y, ParameterList::default()),
    ]);
    assert_eq!(m.len(), 2);
    assert!(!m.is_empty());
    assert!(m.get(x).is_some());
    assert!(m.get(Name::from_str("z")).is_none());
    let mut m = m;
    assert!(m.insert(x, ParameterList::default()).is_some());
    assert!(m.insert(Name::from_str("z"), ParameterList::default()).is_none());
    assert_eq!(m.len(), 3);
    let names: Vec<Name> = m.into_entries().into_iter().map(|(k, _)| k).collect();
    assert_eq!(names, vec![x, y, Name::from_str("z")]);
    assert!(ParameterListMap::from_iter(vec![]).is_empty());
}

fn sample_header() -> ResHeader {
    ResHeader {
        version: 2,
        flags: 3,
        file_size: 0x1234,
        pio_version: 0,
        pio_offset: 0,
        list_count: 1,
        object_count: 2,
        param_count: 3,
        data_section_size: 4,
        string_section_size: 5,
        unknown_section_size: 0xDEAD_BEEF,
    }
}

#[test]
fn header_bytes_layout() {
    let b = sample_header().to_bytes();
    assert_eq!(b.len(), 0x30);
    assert_eq!(&b[0..4], b"AAMP");
    assert_eq!(&b[4..8], &[2, 0, 0, 0]);
    assert_eq!(&b[0xC..0x10], &[0x34, 0x12, 0, 0]);
    assert_eq!(&b[0x2C..0x30], &[0xEF, 0xBE, 0xAD, 0xDE]);
}

#[test]
fn header_roundtrip() {
    let h = sample_header();
    let mut b = vec![9u8, 9];
    b.extend(h.to_bytes());
    assert_eq!(ResHeader::read(&b, 2), Ok(h));
}

#[test]
fn header_errors() {
    let b = sample_header().to_bytes();
    assert_eq!(ResHeader::read(&b[..3], 0), Err(ReadError::EndOfInput));
    assert_eq!(ResHeader::read(&b[..47], 0), Err(ReadError::EndOfInput));
    assert_eq!(ResHeader::read(&b, 1), Err(ReadError::BadMagic));
    assert_eq!(ResHeader::read(&b, 100), Err(ReadError::EndOfInput));
    let mut bad = b.clone();
    bad[3] = b'Q';
    assert_eq!(ResHeader::read(&bad, 0), Err(ReadError::BadMagic));
}

#[test]
fn parameter_record_roundtrip_and_errors() {
    let p = ResParameter {
        name: Name::from_str("Speed"),
        data_rel_offset: U24::new(0x01_0203).unwrap(),
        type_: Type::F32,
    };
    let b = p.to_bytes();
    assert_eq!(b.len(), 8);
    assert_eq!(&b[4..8], &[0x03, 0x02, 0x01, 1]);
    assert_eq!(ResParameter::read(&b, 0), Ok(p));
    let mut bad = b.clone();
    bad[7] = 21;
    assert_eq!(ResParameter::read(&bad, 0), Err(ReadError::UnknownType(21)));
    assert_eq!(ResParameter::read(&b[..7], 0), Err(ReadError::EndOfInput));
}

#[test]
fn object_and_list_records_roundtrip() {
    let o = ResParameterObj { name: Name::from(7u32), params_rel_offset: 0x0102, param_count: 3 };
    let b = o.to_bytes();
    assert_eq!(b, vec![7, 0, 0, 0, 2, 1, 3, 0]);
    assert_eq!(ResParameterObj::read(&b, 0), Ok(o));
    assert_eq!(ResParameterObj::read(&b, 1), Err(ReadError::EndOfInput));
    let l = ResParameterList {
        name: Name::from(9u32),
        lists_rel_offset: 3,
        list_count: 4,
        objects_rel_offset: 0xFFFF,
        object_count: 6,
    };
    let b = l.to_bytes();
    assert_eq!(b, vec![9, 0, 0, 0, 3, 0, 4, 0, 0xFF, 0xFF, 6, 0]);
    assert_eq!(ResParameterList::read(&b, 0), Ok(l));
    assert_eq!(ResParameterList::read(&b[..11], 0), Err(ReadError::EndOfInput));
}

#[test]
fn little_endian_helpers() {
    let mut out = vec![];
    write_le(&mut out, 0x0A0B_0C0D, 4);
    write_le(&mut out, 0x0102, 2);
    assert_eq!(out, vec![0x0D, 0x0C, 0x0B, 0x0A, 0x02, 0x01]);
    assert_eq!(read_le(&out, 0, 4), 0x0A0B_0C0D);
    assert_eq!(read_le(&out, 4, 2), 0x0102);
    assert_eq!(read_le(&out, 1, 3), 0x0A0B0C);
}
