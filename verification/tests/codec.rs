use directory::codec::{
    deserialize, deserialize_string, deserialize_string_list, deserialize_u32_list, DecodeError,
};
use directory::principal::{Principal, Type};
use directory::varint::{read_leb128_u32, read_leb128_u64, write_leb128};

fn alice() -> Principal {
    Principal {
        id: 300,
        typ: Type::Individual,
        quota: 1_000_000,
        name: "alice".to_string(),
        secrets: vec!["$2b$hash".to_string(), "app-password".to_string()],
        emails: vec!["alice@example.org".to_string(), "a@example.org".to_string()],
        member_of: vec![7, 128, 70_000],
        description: Some("Alice Liddell".to_string()),
    }
}

#[test]
fn varint_exact_bytes() {
    let mut out = Vec::new();
    write_leb128(&mut out, 0);
    assert_eq!(out, vec![0u8]);
    let mut out = Vec::new();
    write_leb128(&mut out, 127);
    assert_eq!(out, vec![0x7f]);
    let mut out = Vec::new();
    write_leb128(&mut out, 128);
    assert_eq!(out, vec![0x80, 0x01]);
    let mut out = Vec::new();
    write_leb128(&mut out, 300);
    assert_eq!(out, vec![0xac, 0x02]);
    let mut out = vec![9u8];
    write_leb128(&mut out, u64::MAX);
    assert_eq!(out, vec![9, 0xff, 0xff, 0xff, 0xff, 0xff, 0xff, 0xff, 0xff, 0xff, 0x01]);
}

#[test]
fn varint_reads_back() {
    for value in [0u64, 1, 127, 128, 16_383, 16_384, u32::MAX as u64, u64::MAX] {
        let mut out = vec![0xffu8];
        write_leb128(&mut out, value);
        out.push(0x55);
        assert_eq!(read_leb128_u64(&out, 1), Some((value, out.len() - 1)));
    }
    assert_eq!(read_leb128_u32(&[0xac, 0x02], 0), Some((300, 2)));
    assert_eq!(read_leb128_u32(&[0xff, 0xff, 0xff, 0xff, 0x0f], 0), Some((u32::MAX, 5)));
}

#[test]
fn varint_rejects_unfinished_and_overlong() {
    assert_eq!(read_leb128_u32(&[], 0), None);
    assert_eq!(read_leb128_u32(&[0x80], 0), None);
    assert_eq!(read_leb128_u32(&[0x80, 0x80, 0x80, 0x80, 0x80, 0x01], 0), None);
    assert_eq!(read_leb128_u64(&[0x80; 10], 0), None);
    assert_eq!(read_leb128_u64(&[1], 2), None);
    assert_eq!(read_leb128_u64(&[1], 1), None);
}

#[test]
fn varint_padded_and_truncated_values() {
    assert_eq!(read_leb128_u32(&[0x81, 0x00], 0), Some((1, 2)));
    assert_eq!(read_leb128_u32(&[0x80, 0x80, 0x80, 0x80, 0x7f], 0), Some((0xf000_0000, 5)));
    assert_eq!(
        read_leb128_u64(&[0x80, 0x80, 0x80, 0x80, 0x80, 0x80, 0x80, 0x80, 0x80, 0x03], 0),
        Some((1u64 << 63, 10))
    );
}

#[test]
fn serialize_exact_bytes() {
    let p = Principal {
        id: 1,
        typ: Type::Group,
        quota: 200,
        name: "ab".to_string(),
        secrets: vec!["s".to_string()],
        emails: vec![],
        member_of: vec![5, 300],
        description: None,
    };
    assert_eq!(
        p.serialize(),
        vec![1, 1, 1, 0xc8, 0x01, 2, b'a', b'b', 0, 1, 1, b's', 0, 2, 5, 0xac, 0x02]
    );
}

#[test]
fn roundtrip_full_record() {
    let p = alice();
    assert_eq!(deserialize(&p.serialize()), Some(p.clone()));
    assert_eq!(Principal::deserialize(&p.serialize()), Ok(p));
}

#[test]
fn roundtrip_empty_fields() {
    let p = Principal {
        id: 0,
        typ: Type::Other,
        quota: 0,
        name: "n".to_string(),
        secrets: vec![],
        emails: vec![],
        member_of: vec![],
        description: None,
    };
    assert_eq!(deserialize(&p.serialize()), Some(p));
}

#[test]
fn roundtrip_many_groups_and_unicode() {
    let p = Principal {
        id: u32::MAX,
        typ: Type::List,
        quota: u32::MAX,
        name: "zoë-名前".to_string(),
        secrets: vec!["".to_string(), "ß".to_string()],
        emails: vec!["zoë@example.org".to_string()],
        member_of: (0..2000u32).map(|i| i * 2_000_003).collect(),
        description: Some("𝄞 clef".to_string()),
    };
    assert_eq!(deserialize(&p.serialize()), Some(p));
}

#[test]
fn empty_description_reads_as_unset() {
    let mut p = alice();
    p.description = Some(String::new());
    let mut expected = alice();
    expected.description = None;
    assert_eq!(deserialize(&p.serialize()), Some(expected));
}

#[test]
fn every_truncation_is_rejected() {
    let bytes = alice().serialize();
    for keep in 0..bytes.len() {
        assert_eq!(deserialize(&bytes[..keep]), None, "kept {} bytes", keep);
        assert!(Principal::deserialize(&bytes[..keep]).is_err());
    }
}

#[test]
fn trailing_bytes_are_ignored() {
    let mut bytes = alice().serialize();
    bytes.extend_from_slice(&[0xff, 0x00, 0x01]);
    assert_eq!(deserialize(&bytes), Some(alice()));
}

#[test]
fn wrong_version_is_rejected() {
    let mut bytes = alice().serialize();
    for version in [0u8, 2, 3, 255] {
        bytes[0] = version;
        assert_eq!(deserialize(&bytes), None);
    }
    assert_eq!(deserialize(&[]), None);
}

#[test]
fn unknown_kind_reads_as_other() {
    let p = alice();
    let bytes = p.serialize();
    // version, two bytes of id, then the kind
    assert_eq!(bytes[3], 0);
    for ordinal in [6u8, 7, 100, 255] {
        let mut changed = bytes.clone();
        changed[3] = ordinal;
        let mut expected = alice();
        expected.typ = Type::Other;
        assert_eq!(deserialize(&changed), Some(expected));
    }
}

#[test]
fn kinds_by_ordinal() {
    assert_eq!(Type::from_u8(0), Type::Individual);
    assert_eq!(Type::from_u8(1), Type::Group);
    assert_eq!(Type::from_u8(2), Type::Resource);
    assert_eq!(Type::from_u8(3), Type::Location);
    assert_eq!(Type::from_u8(4), Type::Superuser);
    assert_eq!(Type::from_u8(5), Type::List);
    assert_eq!(Type::from_u8(6), Type::Other);
    assert_eq!(Type::from_u8(200), Type::Other);
    for t in [
        Type::Individual,
        Type::Group,
        Type::Resource,
        Type::Location,
        Type::Superuser,
        Type::List,
        Type::Other,
    ] {
        assert_eq!(Type::from_u8(t.to_u8()), t);
    }
}

#[test]
fn invalid_utf8_is_rejected() {
    // a string of two bytes that are not UTF-8
    assert_eq!(deserialize_string(&[2, 0xc3, 0x28], 0), None);
    // an overlong form and a surrogate
    assert_eq!(deserialize_string(&[2, 0xc0, 0x80], 0), None);
    assert_eq!(deserialize_string(&[3, 0xed, 0xa0, 0x80], 0), None);
    assert_eq!(deserialize_string(&[2, 0xc3, 0xa9], 0), Some(("é".to_string(), 3)));
    let mut bytes = alice().serialize();
    // first byte of the name
    bytes[8] = 0xff;
    assert_eq!(deserialize(&bytes), None);
}

#[test]
fn string_reader_edges() {
    assert_eq!(deserialize_string(&[0], 0), Some((String::new(), 1)));
    assert_eq!(deserialize_string(&[9, 3, b'a', b'b', b'c', 9], 1), Some(("abc".to_string(), 5)));
    assert_eq!(deserialize_string(&[3, b'a', b'b'], 0), None);
    assert_eq!(deserialize_string(&[3, b'a', b'b'], 4), None);
    // a length that no input can hold
    assert_eq!(
        deserialize_string(&[0xff, 0xff, 0xff, 0xff, 0xff, 0xff, 0xff, 0xff, 0xff, 0x01, b'a'], 0),
        None
    );
}

#[test]
fn list_reader_edges() {
    assert_eq!(deserialize_string_list(&[0], 0), Some((vec![], 1)));
    assert_eq!(
        deserialize_string_list(&[2, 1, b'x', 0, 7], 0),
        Some((vec!["x".to_string(), String::new()], 4))
    );
    assert_eq!(deserialize_string_list(&[2, 1, b'x'], 0), None);
    assert_eq!(deserialize_u32_list(&[0], 0), Some((vec![], 1)));
    assert_eq!(deserialize_u32_list(&[3, 1, 0xac, 0x02, 0], 0), Some((vec![1, 300, 0], 5)));
    assert_eq!(deserialize_u32_list(&[3, 1, 0xac, 0x02], 0), None);
    // a count far beyond the bytes that are there
    assert_eq!(
        deserialize_u32_list(&[0xff, 0xff, 0xff, 0xff, 0xff, 0xff, 0xff, 0xff, 0x7f, 1, 2], 0),
        None
    );
}

#[test]
fn decode_error_message() {
    assert_eq!(
        Principal::deserialize(&[2, 0, 0]),
        Err(DecodeError::InternalError("Failed to deserialize principal".to_string()))
    );
}
