//! Tests of the variable-length integer sub-encoding.
use beamop::bigint::BigInt;
use beamop::error::DecodeError;
use beamop::reader::Reader;
use beamop::term::decode_integer;
use beamop::term::decode_usize;
use beamop::term::encode_usize;

#[test]
fn decode_integer_works() {
    let data: &[(&[u8], i64)] = &[
        (&[0], 0),
        (&[16], 1),
        (&[8, 20], 20),
        (&[40, 144], 400),
        (&[24, 87, 28], 22300),
        (&[56, 15, 18, 6], 987654),
        (&[24, 255, 255], -1),
        (&[24, 254, 189], -323),
        (&[88, 248, 164, 147, 83], -123432109),
    ];
    for (input, expected) in data {
        let mut reader = Reader::new(&input[1..]);
        let decoded = decode_integer(input[0], &mut reader).expect("decode failure");
        assert_eq!(decoded, BigInt::from_i64(*expected));
    }
}

#[test]
fn decode_usize_works() {
    let data: &[(&[u8], usize)] = &[
        (&[0], 0),
        (&[16], 1),
        (&[8, 20], 20),
        (&[40, 144], 400),
        (&[24, 87, 28], 22300),
        (&[56, 15, 18, 6], 987654),
    ];
    for (input, expected) in data {
        let mut reader = Reader::new(&input[1..]);
        let decoded = decode_usize(input[0], &mut reader).expect("decode failure");
        assert_eq!(decoded, *expected);
    }
}

#[test]
fn too_large_usize_value() {
    let input = [248, 0, 0, 137, 16, 135, 184, 176, 52, 113, 21];
    let mut reader = Reader::new(&input[1..]);
    assert!(matches!(
        decode_usize(input[0], &mut reader),
        Err(DecodeError::TooLargeUsizeValue { .. })
    ));
}

#[test]
fn encode_small_naturals_canonically() {
    let data: &[(&[u8], usize)] = &[
        (&[0], 0),
        (&[16], 1),
        (&[8, 20], 20),
        (&[40, 144], 400),
        (&[24, 87, 28], 22300),
        (&[56, 15, 18, 6], 987654),
    ];
    for (expected, value) in data {
        let mut out: Vec<u8> = Vec::new();
        encode_usize(0, *value, &mut out);
        assert_eq!(&out, expected);
    }
}

#[test]
fn encode_negative_integers_canonically() {
    let data: &[(&[u8], i64)] = &[
        (&[24, 255, 255], -1),
        (&[24, 254, 189], -323),
        (&[88, 248, 164, 147, 83], -123432109),
    ];
    for (expected, value) in data {
        let mut out: Vec<u8> = Vec::new();
        BigInt::from_i64(*value).encode_int(0, &mut out);
        assert_eq!(&out, expected);
    }
}

#[test]
fn length_prefixed_integer_round_trips() {
    // A nine-byte payload: an error at a machine-word position, but a
    // valid large positive at an integer position, and canonical.
    let input = [248, 0, 0, 137, 16, 135, 184, 176, 52, 113, 21];
    let mut reader = Reader::new(&input[1..]);
    let decoded = decode_integer(input[0], &mut reader).expect("decode failure");
    // the shortest form keeps the leading zero that guards the sign bit
    assert_eq!(decoded.to_signed_bytes_be().len(), 9);
    let mut out: Vec<u8> = Vec::new();
    decoded.encode_int(0, &mut out);
    assert_eq!(&out[..], &input[..]);
}

#[test]
fn bigint_normalizes_redundant_leading_bytes() {
    let a = BigInt::from_signed_bytes_be(&[0, 5]);
    assert_eq!(a, BigInt::from_i64(5));
    assert_eq!(a.to_signed_bytes_be(), vec![5]);
    let b = BigInt::from_signed_bytes_be(&[255, 200]);
    assert_eq!(b, BigInt::from_i64(-56));
    assert_eq!(b.to_signed_bytes_be(), vec![200]);
    let c = BigInt::from_signed_bytes_be(&[]);
    assert_eq!(c, BigInt::from_i64(0));
    assert_eq!(c.to_signed_bytes_be(), vec![0]);
}

#[test]
fn bigint_to_usize_checks_range() {
    assert_eq!(BigInt::from_i64(987654).to_usize(), Some(987654));
    assert_eq!(BigInt::from_i64(-1).to_usize(), None);
    assert_eq!(BigInt::from_u64(u64::MAX).to_usize(), Some(usize::MAX));
}
