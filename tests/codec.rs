use fs_synchronizer::codec::{DecodeError, RedisPublishPayload};
use fs_synchronizer::decimal::{format_decimal, parse_decimal};

fn all_variants() -> Vec<RedisPublishPayload> {
    vec![
        RedisPublishPayload::NewFile(7, 42, String::from("/w/x")),
        RedisPublishPayload::ModifiedFile(11, u64::MAX, String::from("/w/é:ü")),
        RedisPublishPayload::RemovedFile(0, String::from("")),
        RedisPublishPayload::RenamedFile(3, String::from("/w/x"), String::from("/w/y/z")),
    ]
}

#[test]
fn round_trip_every_variant() {
    for payload in all_variants() {
        let bytes = payload.encode();
        let decoded = RedisPublishPayload::decode(&bytes).expect("decodes");
        assert_eq!(decoded, payload);
    }
}

#[test]
fn encoding_layout_of_new_file() {
    let bytes = RedisPublishPayload::NewFile(7, 258, String::from("ab")).encode();
    let expected: Vec<u8> = vec![
        0, 0, 0, 0, 0, 0, 0, 0, 7, 0, 0, 0, 0, 0, 0, 1, 2, 0, 0, 0, 0, 0, 0, 0, 2, b'a', b'b',
    ];
    assert_eq!(bytes, expected);
}

#[test]
fn encoding_layout_of_renamed_file() {
    let bytes = RedisPublishPayload::RenamedFile(1, String::from("a"), String::from("bc")).encode();
    let expected: Vec<u8> = vec![
        3, 0, 0, 0, 0, 0, 0, 0, 1, 0, 0, 0, 0, 0, 0, 0, 1, b'a', 0, 0, 0, 0, 0, 0, 0, 2, b'b', b'c',
    ];
    assert_eq!(bytes, expected);
}

#[test]
fn emitter_id_of_each_variant() {
    let ids: Vec<u64> = all_variants().iter().map(|p| p.get_emitter_id()).collect();
    assert_eq!(ids, vec![7, 11, 0, 3]);
}

#[test]
fn decode_rejects_unknown_tag() {
    let mut bytes = RedisPublishPayload::RemovedFile(5, String::from("/a")).encode();
    bytes[0] = 4;
    assert_eq!(RedisPublishPayload::decode(&bytes).err(), Some(DecodeError));
}

#[test]
fn decode_rejects_truncated_input() {
    let bytes = RedisPublishPayload::NewFile(5, 6, String::from("/abc")).encode();
    for cut in 0..bytes.len() {
        assert!(RedisPublishPayload::decode(&bytes[..cut]).is_err(), "prefix of {}", cut);
    }
    assert!(RedisPublishPayload::decode(&[]).is_err());
}

#[test]
fn decode_rejects_trailing_bytes() {
    let mut bytes = RedisPublishPayload::RemovedFile(5, String::from("/a")).encode();
    bytes.push(0);
    assert!(RedisPublishPayload::decode(&bytes).is_err());
}

#[test]
fn decode_rejects_non_utf8_path() {
    let mut bytes = RedisPublishPayload::RemovedFile(5, String::from("/ab")).encode();
    let last = bytes.len() - 1;
    bytes[last] = 0xff;
    assert!(RedisPublishPayload::decode(&bytes).is_err());
}

#[test]
fn decimal_text_of_numbers() {
    assert_eq!(format_decimal(0), b"0".to_vec());
    assert_eq!(format_decimal(1234567890), b"1234567890".to_vec());
    assert_eq!(format_decimal(u64::MAX), b"18446744073709551615".to_vec());
}

#[test]
fn decimal_parse_accepts_what_str_parse_accepts() {
    assert_eq!(parse_decimal(b"0"), Some(0));
    assert_eq!(parse_decimal(b"+17"), Some(17));
    assert_eq!(parse_decimal(b"007"), Some(7));
    assert_eq!(parse_decimal(b"18446744073709551615"), Some(u64::MAX));
    for text in ["", "+", "-1", "12a", " 1", "18446744073709551616", "99999999999999999999"] {
        assert_eq!(parse_decimal(text.as_bytes()), text.parse::<u64>().ok(), "{:?}", text);
    }
}

#[test]
fn decimal_round_trip() {
    for n in [0u64, 9, 10, 99, 100, 4096, u64::MAX - 1, u64::MAX] {
        assert_eq!(parse_decimal(&format_decimal(n)), Some(n));
        assert_eq!(format_decimal(n), n.to_string().into_bytes());
    }
}
