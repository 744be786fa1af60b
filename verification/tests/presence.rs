use plus_api::presence::{
    confirmed_online, decode, field, frame_length, frame_width, online_request, presence_target,
    read_varint, varint, PresenceError,
};

#[test]
fn decodes_hbbs_bitmap_across_byte_boundary() {
    let result = decode(&[0xc2, 1, 4, 10, 2, 0xe5, 0xf0], 13).unwrap();
    assert_eq!(
        result,
        vec![true, true, true, false, false, true, false, true, true, true, true, true, false]
    );
}

#[test]
fn rejects_invalid_or_truncated_response() {
    for bytes in [
        vec![],
        vec![0xc2, 1, 4, 10, 2, 0xe5],
        vec![0xc2, 1, 3, 10, 1, 255],
        vec![0xba, 1, 0],
    ] {
        assert!(decode(&bytes, 13).is_err());
    }
    assert!(decode(&[0xc2, 1, 3, 10, 1, 0], 1).unwrap() == vec![false]);
}

#[test]
fn decode_reports_why_a_reply_is_refused() {
    assert_eq!(decode(&[], 1), Err(PresenceError::TruncatedVarint));
    assert_eq!(decode(&[0xba, 1, 0], 1), Err(PresenceError::UnexpectedField));
    assert_eq!(decode(&[0xc2, 1, 9, 10], 1), Err(PresenceError::TruncatedResponse));
    assert_eq!(decode(&[0xc2, 1, 3, 10, 1, 0, 7], 1), Err(PresenceError::TrailingData));
    assert_eq!(decode(&[0xc2, 1, 3, 10, 1, 0], 9), Err(PresenceError::InvalidBitmap));
    assert_eq!(decode(&[0xc2, 1, 4, 10, 1, 0, 0], 1), Err(PresenceError::InvalidBitmap));
    assert_eq!(decode(&[0xc2, 1, 2, 10, 0], 0), Ok(vec![]));
}

#[test]
fn varint_writes_seven_bits_per_byte() {
    let mut out = vec![9];
    varint(300, &mut out);
    assert_eq!(out, vec![9, 0xac, 0x02]);
    let mut small = Vec::new();
    varint(127, &mut small);
    assert_eq!(small, vec![127]);
}

#[test]
fn varint_reads_back_what_it_wrote() {
    for value in [0usize, 1, 127, 128, 300, 16_383, 16_384, 1 << 31, usize::MAX] {
        let mut bytes = Vec::new();
        varint(value, &mut bytes);
        bytes.extend_from_slice(&[0x55, 0x66]);
        let mut cursor: &[u8] = &bytes;
        assert_eq!(read_varint(&mut cursor), Ok(value));
        assert_eq!(cursor, &[0x55, 0x66]);
    }
}

#[test]
fn read_varint_refuses_truncated_and_oversized_numbers() {
    let data = [0x80u8, 0x80];
    let mut cursor: &[u8] = &data;
    assert_eq!(read_varint(&mut cursor), Err(PresenceError::TruncatedVarint));
    assert_eq!(cursor, &data);
    let long = [0xffu8; 11];
    let mut cursor: &[u8] = &long;
    assert_eq!(read_varint(&mut cursor), Err(PresenceError::VarintOverflow));
    if usize::BITS == 64 {
        let mut high = vec![0xffu8; 9];
        high.push(0x02);
        let mut cursor: &[u8] = &high;
        assert_eq!(read_varint(&mut cursor), Err(PresenceError::VarintOverflow));
    }
}

#[test]
fn field_reads_a_length_delimited_value() {
    let data = [10u8, 2, 7, 8, 99];
    let mut cursor: &[u8] = &data;
    assert_eq!(field(&mut cursor, 10), Ok(&[7u8, 8][..]));
    assert_eq!(cursor, &[99]);
    let mut cursor: &[u8] = &data;
    assert_eq!(field(&mut cursor, 18), Err(PresenceError::UnexpectedField));
    assert_eq!(cursor, &data);
    let short = [10u8, 5, 1];
    let mut cursor: &[u8] = &short;
    assert_eq!(field(&mut cursor, 10), Err(PresenceError::TruncatedResponse));
}

#[test]
fn online_request_frames_one_peers_field_per_id() {
    let ids = vec!["123".to_string(), "45".to_string()];
    let bytes = online_request(&ids).unwrap();
    assert_eq!(
        bytes,
        vec![49, 0, 0xba, 1, 9, 18, 3, b'1', b'2', b'3', 18, 2, b'4', b'5']
    );
    let empty: Vec<String> = Vec::new();
    assert_eq!(online_request(&empty).unwrap(), vec![13, 0, 0xba, 1, 0]);
}

#[test]
fn online_request_refuses_what_a_frame_cannot_announce() {
    let ids: Vec<String> = (0..1500).map(|i| format!("{:09}", i)).collect();
    assert_eq!(online_request(&ids), Err(PresenceError::RequestTooLarge));
}

#[test]
fn request_payload_reads_back_through_the_reply_reader() {
    let ids = vec!["987654321".to_string()];
    let bytes = online_request(&ids).unwrap();
    let mut payload: &[u8] = &bytes[2..];
    let mut peers = field(&mut payload, 186).unwrap();
    assert!(payload.is_empty());
    assert_eq!(field(&mut peers, 18).unwrap(), b"987654321");
    assert!(peers.is_empty());
}

#[test]
fn reply_frame_header_gives_width_and_length() {
    assert_eq!(frame_width(0b0000_0010), 3);
    assert_eq!(frame_width(0b1111_1100), 1);
    assert_eq!(frame_length([0x11, 0, 0, 0]), Ok(4));
    assert_eq!(frame_length([0x01, 0x40, 0, 0]), Ok(4096));
    assert_eq!(frame_length([0x05, 0x40, 0, 0]), Err(PresenceError::ResponseTooLarge));
}

#[test]
fn only_ids_with_a_set_state_are_confirmed() {
    let batch = vec!["1".to_string(), "2".to_string(), "3".to_string()];
    assert_eq!(confirmed_online(&batch, &[true, false, true]), vec!["1", "3"]);
    assert_eq!(confirmed_online(&batch, &[false, true]), vec!["2"]);
    assert!(confirmed_online(&batch, &[]).is_empty());
}

#[test]
fn blank_presence_address_is_ignored() {
    assert_eq!(presence_target(None), None);
    assert_eq!(presence_target(Some(" \t".to_string())), None);
    assert_eq!(presence_target(Some("hbbs:21115".to_string())), Some("hbbs:21115".to_string()));
}

#[test]
fn packed_states_decode_back() {
    // Ids 0 and 2 online, packed most significant bit first, padding zero.
    let states = vec![true, false, true];
    assert_eq!(decode(&[0xc2, 1, 3, 10, 1, 0xa0], 3), Ok(states));
    let nine = vec![false, true, false, false, false, false, false, true, true];
    assert_eq!(decode(&[0xc2, 1, 4, 10, 2, 0x41, 0x80], 9), Ok(nine));
}
