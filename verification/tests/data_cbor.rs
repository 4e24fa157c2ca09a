use uplc::flat::data::CborError;
use uplc::constant::PlutusData;
use uplc::integer::Integer;

fn hex(s: &str) -> Vec<u8> {
    (0..s.len() / 2).map(|i| u8::from_str_radix(&s[2 * i..2 * i + 2], 16).unwrap()).collect()
}

fn to_hex(b: &[u8]) -> String {
    b.iter().map(|x| format!("{:02x}", x)).collect()
}

fn big_from_be(bytes: &[u8]) -> Integer {
    let mut n = Integer::from_i128(0);
    let base = Integer::from_i128(256);
    for b in bytes {
        n = n.multiply(&base).add(&Integer::from_i128(*b as i128));
    }
    n
}

#[test]
fn encode_empty_record() {
    let d = PlutusData::Constr { tag: 0, fields: vec![] };
    assert_eq!(to_hex(&d.encode()), "d87980");
}

#[test]
fn encode_record() {
    let d = PlutusData::Constr {
        tag: 1,
        fields: vec![PlutusData::ByteString(vec![0x00]), PlutusData::ByteString(vec![0x00, 0x01])],
    };
    assert_eq!(to_hex(&d.encode()), "d87a9f4100420001ff");
}

#[test]
fn encode_record_integer() {
    let d = PlutusData::Constr {
        tag: 128,
        fields: vec![
            PlutusData::Integer(Integer::from_i128(0)),
            PlutusData::Integer(Integer::from_i128(1)),
        ],
    };
    assert_eq!(to_hex(&d.encode()), "d8668218809f0001ff");
}

#[test]
fn encode_cbor_data_bigint() {
    let big = big_from_be(&hex("033b2e3c9fd0803ce7ffffff"));
    let d = PlutusData::Constr { tag: 0, fields: vec![PlutusData::Integer(big)] };
    assert_eq!(to_hex(&d.encode()), "d8799fc24c033b2e3c9fd0803ce7ffffffff");
}

#[test]
fn decode_empty_record() {
    let d = PlutusData::from_cbor(&hex("d87980")).expect("should decode");
    assert_eq!(d, PlutusData::Constr { tag: 0, fields: vec![] });
}

#[test]
fn decode_record_with_byte_strings() {
    let d = PlutusData::from_cbor(&hex("d87a9f4100420001ff")).expect("should decode");
    assert_eq!(
        d,
        PlutusData::Constr {
            tag: 1,
            fields: vec![PlutusData::ByteString(vec![0x00]), PlutusData::ByteString(vec![0x00, 0x01])],
        }
    );
}

#[test]
fn decode_record_with_big_tag() {
    let d = PlutusData::from_cbor(&hex("d8668218809f0001ff")).expect("should decode");
    assert_eq!(
        d,
        PlutusData::Constr {
            tag: 128,
            fields: vec![
                PlutusData::Integer(Integer::from_i128(0)),
                PlutusData::Integer(Integer::from_i128(1)),
            ],
        }
    );
}

#[test]
fn decode_big_integer() {
    let d = PlutusData::from_cbor(&hex("d8799fc24c033b2e3c9fd0803ce7ffffffff")).expect("should decode");
    let expected = big_from_be(&hex("033b2e3c9fd0803ce7ffffff"));
    assert_eq!(d, PlutusData::Constr { tag: 0, fields: vec![PlutusData::Integer(expected)] });
}

#[test]
fn decode_constructor_tags_from_the_high_range() {
    // tag 1280 is alternative 7
    let d = PlutusData::from_cbor(&hex("d9050080")).expect("should decode");
    assert_eq!(d, PlutusData::Constr { tag: 7, fields: vec![] });
}

#[test]
fn decode_map_and_list() {
    let d = PlutusData::from_cbor(&hex("a10102")).expect("should decode");
    assert_eq!(
        d,
        PlutusData::AssocList(vec![(
            PlutusData::Integer(Integer::from_i128(1)),
            PlutusData::Integer(Integer::from_i128(2))
        )])
    );
    let l = PlutusData::from_cbor(&hex("9f0120ff")).expect("should decode");
    assert_eq!(
        l,
        PlutusData::List(vec![
            PlutusData::Integer(Integer::from_i128(1)),
            PlutusData::Integer(Integer::from_i128(-1))
        ])
    );
}

#[test]
fn decode_rejects_malformed_input() {
    assert!(PlutusData::from_cbor(&hex("")).is_err());
    assert!(PlutusData::from_cbor(&hex("f6")).is_err());
    assert!(PlutusData::from_cbor(&hex("42ff")).is_err());
    assert!(PlutusData::from_cbor(&hex("d87b80")).is_ok());
}

#[test]
fn encode_long_byte_string_in_chunks() {
    let bytes: Vec<u8> = (0..70u8).collect();
    let encoded = PlutusData::ByteString(bytes.clone()).encode();
    let mut expected = vec![0x5f, 0x58, 64];
    expected.extend_from_slice(&bytes[..64]);
    expected.push(0x46);
    expected.extend_from_slice(&bytes[64..]);
    expected.push(0xff);
    assert_eq!(encoded, expected);
    assert_eq!(PlutusData::from_cbor(&encoded).expect("should decode"), PlutusData::ByteString(bytes));
}

#[test]
fn encode_map_and_integers() {
    let d = PlutusData::AssocList(vec![(
        PlutusData::Integer(Integer::from_i128(500)),
        PlutusData::Integer(Integer::from_i128(24)),
    )]);
    assert_eq!(to_hex(&d.encode()), "a11901f41818");
}

#[test]
fn encode_negative_small_integer_keeps_sign() {
    let d = PlutusData::Integer(Integer::from_i128(-5));
    assert_eq!(to_hex(&d.encode()), "24");
    let back = PlutusData::from_cbor(&d.encode()).expect("should decode");
    assert_eq!(back, PlutusData::Integer(Integer::from_i128(-5)));
}

#[test]
fn encode_negative_integer_roundtrip() {
    for v in [-1i128, -24, -25, -256, -1000, -(1i128 << 40), -(1i128 << 64)] {
        let d = PlutusData::Integer(Integer::from_i128(v));
        let back = PlutusData::from_cbor(&d.encode()).expect("should decode");
        assert_eq!(back, d);
    }
    assert_eq!(to_hex(&PlutusData::Integer(Integer::from_i128(-1000)).encode()), "3903e7");
}

#[test]
fn decode_error_positions() {
    assert_eq!(PlutusData::from_cbor(&hex("")), Err(CborError { position: 0 }));
    assert_eq!(PlutusData::from_cbor(&hex("f6")), Err(CborError { position: 0 }));
    // A two-byte string with one byte left.
    assert_eq!(PlutusData::from_cbor(&hex("42ff")), Err(CborError { position: 0 }));
    // An indefinite list whose input ends before its break byte.
    assert_eq!(PlutusData::from_cbor(&hex("9f01")), Err(CborError { position: 2 }));
    // An array whose second item is a simple value.
    assert_eq!(PlutusData::from_cbor(&hex("8201f7")), Err(CborError { position: 2 }));
    // A constructor whose field is a truncated byte string.
    assert_eq!(PlutusData::from_cbor(&hex("d87a9f41")), Err(CborError { position: 3 }));
}

#[test]
fn cbor_roundtrip_nested() {
    let d = PlutusData::Constr {
        tag: 200,
        fields: vec![
            PlutusData::AssocList(vec![
                (PlutusData::Integer(Integer::from_i128(-(1i128 << 70))), PlutusData::ByteString(vec![7u8; 100])),
                (PlutusData::Integer(Integer::from_i128(1i128 << 90)), PlutusData::Integer(Integer::from_i128(-7))),
            ]),
            PlutusData::Constr { tag: 8, fields: vec![] },
            PlutusData::Constr { tag: 3, fields: vec![PlutusData::ByteString(vec![])] },
            PlutusData::Integer(Integer::from_i128(0)),
        ],
    };
    assert_eq!(PlutusData::from_cbor(&d.encode()), Ok(d));
}
