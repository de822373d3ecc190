use pvaccess::error::{DecodeError, EncodeError};
use pvaccess::fielddesc::FieldDesc;

#[test]
fn test_parsing() {
    let desc = FieldDesc::ArrayBounded(0x02, 10);
    let encoded = desc.into_bytes().unwrap();
    let decoded = FieldDesc::from_bytes(&encoded).unwrap();
    println!("Decoded: {:?}", decoded);
}

#[test]
fn fielddesc_bounded_array_round_trip() {
    let desc = FieldDesc::ArrayBounded(2, 10);
    let encoded = desc.into_bytes().unwrap();
    assert_eq!(encoded, vec![0x0A, 0x00, 0x00, 0x00, 0x0A]);
    assert_eq!(FieldDesc::from_bytes(&encoded).unwrap(), desc);
}

#[test]
fn fielddesc_every_kind_round_trips() {
    let inner = FieldDesc::Struct(
        "point".to_string(),
        vec![
            ("x".to_string(), FieldDesc::Scalar(3)),
            ("y".to_string(), FieldDesc::ArrayVar(1)),
            ("tags".to_string(), FieldDesc::BoundedString(64)),
        ],
    );
    let all = vec![
        FieldDesc::Scalar(0),
        FieldDesc::ArrayVar(3),
        FieldDesc::ArrayBounded(1, 0xDEAD_BEEF),
        FieldDesc::ArrayFixed(2, 7),
        FieldDesc::VariantUnion,
        FieldDesc::VariantUnionArray,
        FieldDesc::BoundedString(0),
        FieldDesc::Struct("".to_string(), vec![]),
        FieldDesc::Union(
            "either".to_string(),
            vec![
                ("a".to_string(), FieldDesc::VariantUnion),
                ("b".to_string(), FieldDesc::StructArray(Box::new(FieldDesc::Scalar(1)))),
            ],
        ),
        FieldDesc::StructArray(Box::new(FieldDesc::Struct("s".to_string(), vec![]))),
        FieldDesc::UnionArray(Box::new(FieldDesc::ArrayFixed(0, 1))),
        FieldDesc::Struct(
            "outer".to_string(),
            vec![("p".to_string(), FieldDesc::Scalar(2)), ("q".to_string(), inner)],
        ),
    ];
    for desc in all {
        let encoded = desc.into_bytes().unwrap();
        assert_eq!(FieldDesc::from_bytes(&encoded).unwrap(), desc);
    }
}

#[test]
fn fielddesc_exact_bytes() {
    assert_eq!(FieldDesc::Scalar(3).into_bytes().unwrap(), vec![0x03]);
    assert_eq!(FieldDesc::ArrayVar(2).into_bytes().unwrap(), vec![0x06]);
    assert_eq!(FieldDesc::ArrayFixed(1, 258).into_bytes().unwrap(), vec![0x0D, 0, 0, 1, 2]);
    assert_eq!(FieldDesc::VariantUnion.into_bytes().unwrap(), vec![0x82]);
    assert_eq!(FieldDesc::VariantUnionArray.into_bytes().unwrap(), vec![0x8A]);
    assert_eq!(FieldDesc::BoundedString(5).into_bytes().unwrap(), vec![0x86, 0, 0, 0, 5]);
    let s = FieldDesc::Struct("ab".to_string(), vec![("n".to_string(), FieldDesc::Scalar(1))]);
    assert_eq!(
        s.into_bytes().unwrap(),
        vec![0x80, 2, b'a', b'b', 1, 1, b'n', 0, 1, 0x01]
    );
    let a = FieldDesc::StructArray(Box::new(FieldDesc::Scalar(1)));
    assert_eq!(a.into_bytes().unwrap(), vec![0x88, 0, 1, 0x01]);
}

#[test]
fn fielddesc_illegal_tags_are_rejected() {
    for tag in 0u16..=255 {
        let tag = tag as u8;
        let legal = tag < 16 || [0x80, 0x81, 0x82, 0x86, 0x88, 0x89, 0x8A].contains(&tag);
        let r = FieldDesc::from_bytes(&[tag, 0, 0, 0, 0]);
        if legal {
            assert_ne!(r, Err(DecodeError::InvalidFieldDescTag), "tag {tag:#x}");
        } else {
            assert_eq!(r, Err(DecodeError::InvalidFieldDescTag), "tag {tag:#x}");
        }
    }
}

#[test]
fn fielddesc_decode_errors() {
    assert_eq!(FieldDesc::from_bytes(&[]), Err(DecodeError::Truncated));
    assert_eq!(FieldDesc::from_bytes(&[0x0A, 0, 0]), Err(DecodeError::Truncated));
    assert_eq!(FieldDesc::from_bytes(&[0x01, 0]), Err(DecodeError::TrailingBytes));
    assert_eq!(FieldDesc::from_bytes(&[0x80, 1, 0xFF, 0]), Err(DecodeError::MalformedString));
    assert_eq!(
        FieldDesc::from_bytes(&[0x80, 0, 1, 1, b'n', 0, 2, 0x01, 0x01]),
        Err(DecodeError::TrailingBytes)
    );
    assert_eq!(
        FieldDesc::from_bytes(&[0x80, 0, 1, 1, b'n', 0, 1, 0x55]),
        Err(DecodeError::InvalidFieldDescTag)
    );
    assert_eq!(FieldDesc::from_bytes(&[0x88, 0, 5, 0x01]), Err(DecodeError::Truncated));
}

#[test]
fn fielddesc_without_encoding() {
    assert_eq!(FieldDesc::Scalar(4).into_bytes(), Err(EncodeError::FieldTooLong));
    assert_eq!(FieldDesc::ArrayBounded(9, 1).into_bytes(), Err(EncodeError::FieldTooLong));
    let long = FieldDesc::Struct("x".repeat(256), vec![]);
    assert_eq!(long.into_bytes(), Err(EncodeError::FieldTooLong));
    let many = FieldDesc::Struct(
        "s".to_string(),
        (0..256).map(|i| (format!("f{i}"), FieldDesc::Scalar(0))).collect(),
    );
    assert_eq!(many.into_bytes(), Err(EncodeError::FieldTooLong));
    let nested = FieldDesc::StructArray(Box::new(FieldDesc::Scalar(7)));
    assert_eq!(nested.into_bytes(), Err(EncodeError::FieldTooLong));
}

#[test]
fn fielddesc_clone_says_the_same() {
    let d = FieldDesc::Union(
        "u".to_string(),
        vec![
            ("a".to_string(), FieldDesc::StructArray(Box::new(FieldDesc::Scalar(1)))),
            ("b".to_string(), FieldDesc::Struct("s".to_string(), vec![])),
        ],
    );
    assert_eq!(d.clone(), d);
}
