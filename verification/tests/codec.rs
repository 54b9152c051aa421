use filite::codec::{decode, encode, to_radix, DecodeError};

#[test]
fn encode_known_values() {
    assert_eq!(encode(0), "0");
    assert_eq!(encode(1), "1");
    assert_eq!(encode(9), "9");
    assert_eq!(encode(10), "a");
    assert_eq!(encode(35), "z");
    assert_eq!(encode(36), "10");
    assert_eq!(encode(36 * 36), "100");
    assert_eq!(encode(i32::MAX), "zik0zj");
}

#[test]
fn decode_known_values() {
    assert_eq!(decode("0"), Ok(0));
    assert_eq!(decode("z"), Ok(35));
    assert_eq!(decode("10"), Ok(36));
    assert_eq!(decode("2z"), Ok(107));
    assert_eq!(decode("zik0zj"), Ok(i32::MAX));
}

#[test]
fn round_trip_many() {
    let samples = [
        0, 1, 2, 35, 36, 37, 1000, 123456789, 2038911745, i32::MAX - 1, i32::MAX,
    ];
    for &id in samples.iter() {
        assert_eq!(decode(&encode(id)), Ok(id));
    }
}

#[test]
fn decode_rejects_empty() {
    assert_eq!(decode(""), Err(DecodeError::Empty));
}

#[test]
fn decode_rejects_invalid_characters() {
    assert_eq!(decode("!!"), Err(DecodeError::InvalidChar));
    assert_eq!(decode("1a_"), Err(DecodeError::InvalidChar));
    assert_eq!(decode("ZIK0ZJ"), Err(DecodeError::InvalidChar));
    assert_eq!(decode("a b"), Err(DecodeError::InvalidChar));
    assert_eq!(decode("-1"), Err(DecodeError::InvalidChar));
    assert_eq!(decode("é"), Err(DecodeError::InvalidChar));
}

#[test]
fn decode_rejects_overflow() {
    assert_eq!(decode("zik0zk"), Err(DecodeError::Overflow));
    assert_eq!(decode("zzzzzzzz"), Err(DecodeError::Overflow));
    // an invalid character is reported even when the prefix already overflows
    assert_eq!(decode("zzzzzzzz!"), Err(DecodeError::InvalidChar));
}

#[test]
fn hex_prefix_rendering() {
    assert_eq!(to_radix(0, 16), "0");
    assert_eq!(to_radix(255, 16), "ff");
    assert_eq!(to_radix(4096, 16), "1000");
    assert_eq!(to_radix(305441741, 16), "1234abcd");
}
