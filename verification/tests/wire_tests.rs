use shop::shop_const::{OFFLINE_SHOP, SYN_TYPE, TOKEN_TYPE};
use shop::wire::{
    decode_length, encode_length_prefixed, encode_message, message_kind, split_length_prefixed,
    split_message, FrameError, MessageKind,
};

fn read_frame(bytes: &[u8]) -> (u8, usize, Vec<u8>) {
    let kind = bytes[0];
    let len = decode_length(&bytes[1..9]) as usize;
    (kind, len, bytes[9..].to_vec())
}

#[test]
fn serialize_and_deserialize_syn() {
    let payload = br#"{"id":2}"#;
    let bytes = encode_message(SYN_TYPE, payload);
    let (msg_type, len, rest) = read_frame(&bytes);
    assert_eq!(msg_type, SYN_TYPE);
    assert_eq!(len, payload.len());
    assert_eq!(rest, payload.to_vec());
}

#[test]
fn serialize_and_deserialize_token() {
    let payload = br#"{"id":7,"incomplete_orders":[{"product_id":"p1","quantity":3,"shop_id":1}]}"#;
    let bytes = encode_message(TOKEN_TYPE, payload);
    assert_eq!(split_message(&bytes), Ok((TOKEN_TYPE, payload.to_vec())));
    assert_eq!(message_kind(bytes[0]), MessageKind::Token);
}

#[test]
fn serialize_and_deserialize_offline_shop() {
    let payload = br#"{"offline_id":0,"replace_id":1}"#;
    let bytes = encode_message(OFFLINE_SHOP, payload);
    assert_eq!(bytes.len(), 9 + payload.len());
    assert_eq!(split_message(&bytes), Ok((OFFLINE_SHOP, payload.to_vec())));
    assert_eq!(message_kind(bytes[0]), MessageKind::OfflineShop);
}

#[test]
fn length_prefix_is_little_endian() {
    let payload = vec![7u8; 258];
    let bytes = encode_length_prefixed(&payload);
    assert_eq!(&bytes[0..8], &[2, 1, 0, 0, 0, 0, 0, 0]);
    assert_eq!(&bytes[0..8], &(258usize).to_le_bytes());
    assert_eq!(split_length_prefixed(&bytes), Ok(payload));
}

#[test]
fn split_leaves_what_follows() {
    let mut bytes = encode_message(SYN_TYPE, b"ab");
    bytes.extend_from_slice(&encode_message(TOKEN_TYPE, b"cde"));
    assert_eq!(split_message(&bytes), Ok((SYN_TYPE, b"ab".to_vec())));
    assert_eq!(split_message(&bytes[11..]), Ok((TOKEN_TYPE, b"cde".to_vec())));
}

#[test]
fn short_buffers_are_reported() {
    assert_eq!(split_message(&[]), Err(FrameError::MissingKind));
    assert_eq!(split_message(&[1, 2, 0]), Err(FrameError::MissingLength));
    assert_eq!(split_message(&[1, 3, 0, 0, 0, 0, 0, 0, 0, 9]), Err(FrameError::MissingPayload));
    assert_eq!(split_length_prefixed(&[0, 0, 0]), Err(FrameError::MissingLength));
    assert_eq!(split_length_prefixed(&[0, 0, 0, 0, 0, 0, 0, 0]), Ok(vec![]));
}

#[test]
fn unknown_kinds_are_kept() {
    assert_eq!(message_kind(SYN_TYPE), MessageKind::Syn);
    assert_eq!(message_kind(42), MessageKind::Unknown(42));
}
