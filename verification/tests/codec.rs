use fieldcodec::error::MessageDecodeError;
use fieldcodec::field::{FieldType, FieldValue};
use fieldcodec::traits::{Ownable, Readable, ToFieldType, Writable};
use fieldcodec::vlq::{encode_vlq_int, next_byte, parse_vlq_int};

fn encode_i32(v: i32) -> Vec<u8> {
    let mut out = Vec::new();
    v.write(&mut out);
    out
}

fn encode_u32(v: u32) -> Vec<u8> {
    let mut out = Vec::new();
    v.write(&mut out);
    out
}

#[test]
fn i32_round_trip_boundaries() {
    let cases: [i32; 17] = [
        0, 1, -1, 63, 64, -64, -65, 8191, 8192, -8192, -8193, 1048575, 1048576, -1048576,
        -1048577, i32::MIN, i32::MAX,
    ];
    for &v in cases.iter() {
        let buf = encode_i32(v);
        let mut cursor: &[u8] = &buf;
        let got = <i32 as Readable>::read(&mut cursor).unwrap();
        assert_eq!(got, v);
        assert!(cursor.is_empty());
    }
}

#[test]
fn u32_round_trip_boundaries() {
    let cases: [u32; 10] = [0, 1, 63, 64, 8191, 8192, 1048575, 1048576, u32::MAX, 0xdead_beef];
    for &v in cases.iter() {
        let buf = encode_u32(v);
        let mut cursor: &[u8] = &buf;
        let got = <u32 as Readable>::read(&mut cursor).unwrap();
        assert_eq!(got, v);
        assert!(cursor.is_empty());
    }
}

#[test]
fn u16_round_trip_extremes() {
    for &v in [0u16, 1, 63, 64, 8191, 8192, u16::MAX].iter() {
        let mut buf = Vec::new();
        v.write(&mut buf);
        let mut cursor: &[u8] = &buf;
        assert_eq!(<u16 as Readable>::read(&mut cursor).unwrap(), v);
        assert!(cursor.is_empty());
    }
}

#[test]
fn i16_round_trip_extremes() {
    for &v in [0i16, -1, 63, 64, -64, -65, 8191, 8192, -8192, -8193, i16::MIN, i16::MAX].iter() {
        let mut buf = Vec::new();
        v.write(&mut buf);
        let mut cursor: &[u8] = &buf;
        assert_eq!(<i16 as Readable>::read(&mut cursor).unwrap(), v);
        assert!(cursor.is_empty());
    }
}

#[test]
fn u8_round_trip_extremes() {
    for &v in [0u8, 1, 63, 64, u8::MAX].iter() {
        let mut buf = Vec::new();
        v.write(&mut buf);
        let mut cursor: &[u8] = &buf;
        assert_eq!(<u8 as Readable>::read(&mut cursor).unwrap(), v);
        assert!(cursor.is_empty());
    }
}

#[test]
fn vlq_single_byte_encodings() {
    // Values inside the one-chunk range [-32, 96) take a single byte.
    assert_eq!(encode_i32(0), vec![0x00]);
    assert_eq!(encode_i32(1), vec![0x01]);
    assert_eq!(encode_i32(-1), vec![0x7f]);
    assert_eq!(encode_i32(-32), vec![0x60]);
    assert_eq!(encode_i32(95), vec![0x5f]);
    // The chunk boundaries grow the encoding by one byte.
    assert_eq!(encode_i32(96).len(), 2);
    assert_eq!(encode_i32(-33).len(), 2);
}

#[test]
fn parse_vlq_direct() {
    let mut cursor: &[u8] = &[0x01, 0x42];
    assert_eq!(parse_vlq_int(&mut cursor).unwrap(), 1);
    assert_eq!(cursor, &[0x42]);

    // A sign-extended first byte: 0x7f is -1.
    let mut cursor: &[u8] = &[0x7f];
    assert_eq!(parse_vlq_int(&mut cursor).unwrap(), u32::MAX);

    // A two-byte quantity: 0x81 0x00 folds to 1 << 7.
    let mut cursor: &[u8] = &[0x81, 0x00];
    assert_eq!(parse_vlq_int(&mut cursor).unwrap(), 128);
}

#[test]
fn parse_vlq_empty_is_eof() {
    let mut cursor: &[u8] = &[];
    assert!(matches!(
        parse_vlq_int(&mut cursor),
        Err(MessageDecodeError::UnexpectedEof)
    ));
}

#[test]
fn next_byte_advances_and_fails_at_end() {
    let mut cursor: &[u8] = &[0xab, 0xcd];
    assert_eq!(next_byte(&mut cursor).unwrap(), 0xab);
    assert_eq!(next_byte(&mut cursor).unwrap(), 0xcd);
    assert!(matches!(
        next_byte(&mut cursor),
        Err(MessageDecodeError::UnexpectedEof)
    ));
}

#[test]
fn bytes_round_trip() {
    let kilobytes: Vec<u8> = (0..4096u32).map(|i| (i % 251) as u8).collect();
    let cases: [&[u8]; 3] = [b"", b"x", &kilobytes];
    for &payload in cases.iter() {
        let mut buf = Vec::new();
        payload.write(&mut buf);
        let mut cursor: &[u8] = &buf;
        let got = <&[u8] as Readable>::read(&mut cursor).unwrap();
        assert_eq!(got, payload);
        assert!(cursor.is_empty());
    }
}

#[test]
fn str_round_trip() {
    let big = "multi-kilobyte ".repeat(300);
    let cases: [&str; 4] = ["", "x", "héllo wörld — 日本語 ✓", &big];
    for &s in cases.iter() {
        let mut buf = Vec::new();
        s.write(&mut buf);
        let mut cursor: &[u8] = &buf;
        let got = <&str as Readable>::read(&mut cursor).unwrap();
        assert_eq!(got, s);
        assert!(cursor.is_empty());
    }
}

#[test]
fn skip_read_parity_all_field_types() {
    // One valid encoding per field type, each followed by trailing bytes;
    // skip and read must leave the cursor at the same place.
    let mut encodings: Vec<(FieldType, Vec<u8>)> = Vec::new();
    let mut buf = Vec::new();
    0xdead_beefu32.write(&mut buf);
    encodings.push((FieldType::U32, buf));
    let mut buf = Vec::new();
    (-123456i32).write(&mut buf);
    encodings.push((FieldType::I32, buf));
    let mut buf = Vec::new();
    54321u16.write(&mut buf);
    encodings.push((FieldType::U16, buf));
    let mut buf = Vec::new();
    (-12345i16).write(&mut buf);
    encodings.push((FieldType::I16, buf));
    let mut buf = Vec::new();
    200u8.write(&mut buf);
    encodings.push((FieldType::U8, buf));
    let mut buf = Vec::new();
    "parity ✓".write(&mut buf);
    encodings.push((FieldType::String, buf));
    let mut buf = Vec::new();
    (&b"\x00\x01\x02"[..]).write(&mut buf);
    encodings.push((FieldType::ByteArray, buf));

    for (ty, mut buf) in encodings {
        buf.extend_from_slice(b"tail");
        let mut skipped: &[u8] = &buf;
        ty.skip(&mut skipped).unwrap();
        let mut read: &[u8] = &buf;
        ty.read(&mut read).unwrap();
        assert_eq!(skipped, read);
        assert_eq!(skipped, b"tail");
    }
}

#[test]
fn truncation_fails_with_eof_for_every_field_type() {
    let mut encodings: Vec<(FieldType, Vec<u8>)> = Vec::new();
    let mut buf = Vec::new();
    1048576u32.write(&mut buf);
    encodings.push((FieldType::U32, buf));
    let mut buf = Vec::new();
    (-8193i32).write(&mut buf);
    encodings.push((FieldType::I32, buf));
    let mut buf = Vec::new();
    8192u16.write(&mut buf);
    encodings.push((FieldType::U16, buf));
    let mut buf = Vec::new();
    (-8192i16).write(&mut buf);
    encodings.push((FieldType::I16, buf));
    let mut buf = Vec::new();
    255u8.write(&mut buf);
    encodings.push((FieldType::U8, buf));
    let mut buf = Vec::new();
    "truncated".write(&mut buf);
    encodings.push((FieldType::String, buf));
    let mut buf = Vec::new();
    (&b"abc"[..]).write(&mut buf);
    encodings.push((FieldType::ByteArray, buf));

    for (ty, mut buf) in encodings {
        buf.pop();
        let mut cursor: &[u8] = &buf;
        assert!(matches!(
            ty.read(&mut cursor),
            Err(MessageDecodeError::UnexpectedEof)
        ));
        let mut cursor: &[u8] = &buf;
        assert!(matches!(
            ty.skip(&mut cursor),
            Err(MessageDecodeError::UnexpectedEof)
        ));
    }
}

#[test]
fn invalid_utf8_string_fails_with_utf8_error() {
    // Length prefix 2, then two bytes that are not valid UTF-8.
    let buf: Vec<u8> = vec![0x02, 0xff, 0xfe];
    let mut cursor: &[u8] = &buf;
    match <&str as Readable>::read(&mut cursor) {
        Err(MessageDecodeError::Utf8Error { valid_up_to }) => assert_eq!(valid_up_to, 0),
        other => panic!("expected a UTF-8 error, got {:?}", other),
    }
    // The same payload skips fine: skip never inspects content.
    let mut cursor: &[u8] = &buf;
    <&str as Readable>::skip(&mut cursor).unwrap();
    assert!(cursor.is_empty());
    // The dispatch path reports the same failure.
    let mut cursor: &[u8] = &buf;
    assert!(matches!(
        FieldType::String.read(&mut cursor),
        Err(MessageDecodeError::Utf8Error { .. })
    ));
}

#[test]
fn dispatch_read_equals_typed_read() {
    let mut buf = Vec::new();
    0xcafe_f00du32.write(&mut buf);
    let mut cursor: &[u8] = &buf;
    match FieldType::U32.read(&mut cursor).unwrap() {
        FieldValue::U32(x) => {
            let mut typed: &[u8] = &buf;
            assert_eq!(x, <u32 as Readable>::read(&mut typed).unwrap());
        }
        other => panic!("wrong variant {:?}", other),
    }

    let mut buf = Vec::new();
    (-77i32).write(&mut buf);
    let mut cursor: &[u8] = &buf;
    match FieldType::I32.read(&mut cursor).unwrap() {
        FieldValue::I32(x) => {
            let mut typed: &[u8] = &buf;
            assert_eq!(x, <i32 as Readable>::read(&mut typed).unwrap());
        }
        other => panic!("wrong variant {:?}", other),
    }

    let mut buf = Vec::new();
    "dispatch".write(&mut buf);
    let mut cursor: &[u8] = &buf;
    match FieldType::String.read(&mut cursor).unwrap() {
        FieldValue::String(s) => {
            let mut typed: &[u8] = &buf;
            assert_eq!(s, <&str as Readable>::read(&mut typed).unwrap());
        }
        other => panic!("wrong variant {:?}", other),
    }

    let mut buf = Vec::new();
    (&b"bytes"[..]).write(&mut buf);
    let mut cursor: &[u8] = &buf;
    match FieldType::ByteArray.read(&mut cursor).unwrap() {
        FieldValue::ByteArray(b) => {
            let mut typed: &[u8] = &buf;
            assert_eq!(b, <&[u8] as Readable>::read(&mut typed).unwrap());
        }
        other => panic!("wrong variant {:?}", other),
    }
}

#[test]
fn bool_wire_semantics() {
    let mut buf = Vec::new();
    false.write(&mut buf);
    assert_eq!(buf, vec![0x00]);
    let mut buf = Vec::new();
    true.write(&mut buf);
    assert_eq!(buf, vec![0x01]);

    let mut cursor: &[u8] = &[0x00];
    assert!(!<bool as Readable>::read(&mut cursor).unwrap());
    let mut cursor: &[u8] = &[0x01];
    assert!(<bool as Readable>::read(&mut cursor).unwrap());
    // Any nonzero quantity decodes as true.
    let mut cursor: &[u8] = &[0x2a];
    assert!(<bool as Readable>::read(&mut cursor).unwrap());
    let mut cursor: &[u8] = &[0x81, 0x00];
    assert!(<bool as Readable>::read(&mut cursor).unwrap());
}

#[test]
fn encode_vlq_direct_bytes() {
    let mut out = Vec::new();
    encode_vlq_int(&mut out, 128);
    assert_eq!(out, vec![0x81, 0x00]);
    let mut out = Vec::new();
    encode_vlq_int(&mut out, u32::MAX);
    assert_eq!(out, vec![0x7f]);
}

#[test]
fn to_owned_detaches_values() {
    let bytes: &[u8] = b"own me";
    let owned: Vec<u8> = Ownable::to_owned(&bytes);
    assert_eq!(owned, b"own me");
    let s: &str = "own me too";
    let owned: String = Ownable::to_owned(&s);
    assert_eq!(owned, "own me too");
    let n: u32 = 7;
    let owned: u32 = Ownable::to_owned(&n);
    assert_eq!(owned, 7);
}

#[test]
fn field_type_tags() {
    assert_eq!(<u32 as ToFieldType>::as_field_type(), FieldType::U32);
    assert_eq!(<i32 as ToFieldType>::as_field_type(), FieldType::I32);
    assert_eq!(<u16 as ToFieldType>::as_field_type(), FieldType::U16);
    assert_eq!(<i16 as ToFieldType>::as_field_type(), FieldType::I16);
    assert_eq!(<u8 as ToFieldType>::as_field_type(), FieldType::U8);
    assert_eq!(<bool as ToFieldType>::as_field_type(), FieldType::U8);
    assert_eq!(<&str as ToFieldType>::as_field_type(), FieldType::String);
    assert_eq!(<&[u8] as ToFieldType>::as_field_type(), FieldType::ByteArray);
}

#[test]
fn consecutive_fields_share_one_cursor() {
    let mut buf = Vec::new();
    42u32.write(&mut buf);
    "mid".write(&mut buf);
    (-7i16).write(&mut buf);
    let mut cursor: &[u8] = &buf;
    assert_eq!(<u32 as Readable>::read(&mut cursor).unwrap(), 42);
    assert_eq!(<&str as Readable>::read(&mut cursor).unwrap(), "mid");
    assert_eq!(<i16 as Readable>::read(&mut cursor).unwrap(), -7);
    assert!(cursor.is_empty());
}
