use scaproust::error::ErrorKind;
use scaproust::wire::{
    check_handshake, create_handshake, decode_frame, decode_length, encode_frame, encode_length,
};

#[test]
fn handshake_of_push_is_the_documented_bytes() {
    assert_eq!(
        [0x00, 0x53, 0x50, 0x00, 0x00, 0x50, 0x00, 0x00],
        create_handshake(80)
    );
}

#[test]
fn handshake_carries_the_protocol_id_in_big_endian_order() {
    assert_eq!(
        [0x00, 0x53, 0x50, 0x00, 0x12, 0x34, 0x00, 0x00],
        create_handshake(0x1234)
    );
    assert_eq!(
        [0x00, 0x53, 0x50, 0x00, 0x00, 0x70, 0x00, 0x00],
        create_handshake(112)
    );
}

#[test]
fn handshake_of_the_expected_peer_is_accepted() {
    let bytes = [0x00, 0x53, 0x50, 0x00, 0x00, 0x50, 0x00, 0x00];
    assert_eq!(Ok(()), check_handshake(&bytes, 80));
}

#[test]
fn handshake_of_another_protocol_is_refused() {
    let bytes = [0x00, 0x53, 0x50, 0x00, 0x00, 0x50, 0x00, 0x00];
    let res = check_handshake(&bytes, 81);
    assert_eq!(ErrorKind::InvalidData, res.unwrap_err().kind());
}

#[test]
fn handshake_with_a_wrong_prefix_or_tail_is_refused() {
    let res = check_handshake(&[0x01, 0x53, 0x50, 0x00, 0x00, 0x50, 0x00, 0x00], 80);
    assert_eq!(ErrorKind::InvalidData, res.unwrap_err().kind());
    let res = check_handshake(&[0x00, 0x53, 0x50, 0x00, 0x00, 0x50, 0x00, 0x01], 80);
    assert_eq!(ErrorKind::InvalidData, res.unwrap_err().kind());
    let res = check_handshake(&[0x00, 0x50, 0x53, 0x00, 0x00, 0x50, 0x00, 0x00], 80);
    assert_eq!(ErrorKind::InvalidData, res.unwrap_err().kind());
}

#[test]
fn every_handshake_is_accepted_by_its_peer_only() {
    for id in [16u16, 32, 33, 48, 49, 80, 81, 98, 99, 112, 0, 255, 256, 65535] {
        let bytes = create_handshake(id);
        assert!(check_handshake(&bytes, id).is_ok());
        assert!(check_handshake(&bytes, id.wrapping_add(1)).is_err());
    }
}

#[test]
fn length_is_written_in_big_endian_order() {
    assert_eq!([0, 0, 0, 0, 0, 0, 0, 0], encode_length(0));
    assert_eq!([0, 0, 0, 0, 0, 0, 0, 1], encode_length(1));
    assert_eq!([0, 0, 0, 0, 0, 0, 4, 0], encode_length(1024));
    assert_eq!([1, 2, 3, 4, 5, 6, 7, 8], encode_length(0x0102030405060708));
    assert_eq!([255; 8], encode_length(u64::MAX));
}

#[test]
fn length_is_read_in_big_endian_order() {
    assert_eq!(0, decode_length(&[0; 8]));
    assert_eq!(1024, decode_length(&[0, 0, 0, 0, 0, 0, 4, 0]));
    assert_eq!(0x0102030405060708, decode_length(&[1, 2, 3, 4, 5, 6, 7, 8]));
    assert_eq!(u64::MAX, decode_length(&[255; 8]));
}

#[test]
fn frame_is_length_then_payload() {
    assert_eq!(vec![0, 0, 0, 0, 0, 0, 0, 3, 7, 8, 9], encode_frame(&[7, 8, 9]));
    assert_eq!(vec![0u8; 8], encode_frame(&[]));
}

#[test]
fn frames_of_several_sizes_come_back_byte_identical() {
    for n in [0usize, 1, 1024, 65536, 1_048_576] {
        let payload: Vec<u8> = (0..n).map(|i| (i % 251) as u8).collect();
        let frame = encode_frame(&payload);
        assert_eq!(n + 8, frame.len());
        assert_eq!(Ok(Some(payload)), decode_frame(&frame, 1_048_576));
    }
}

#[test]
fn a_frame_is_read_whatever_follows_it() {
    let mut bytes = encode_frame(&[1, 2, 3]);
    bytes.extend_from_slice(&[9, 9, 9, 9]);
    assert_eq!(Ok(Some(vec![1u8, 2, 3])), decode_frame(&bytes, 100));
}

#[test]
fn an_incomplete_frame_asks_for_more_bytes() {
    let frame = encode_frame(&[1, 2, 3, 4]);
    for n in 0..frame.len() {
        assert_eq!(Ok(None), decode_frame(&frame[..n], 100));
    }
}

#[test]
fn a_frame_over_the_limit_is_refused() {
    let frame = encode_frame(&[1, 2, 3, 4]);
    assert_eq!(
        ErrorKind::InvalidData,
        decode_frame(&frame, 3).unwrap_err().kind()
    );
    assert_eq!(
        ErrorKind::InvalidData,
        decode_frame(&frame[..8], 3).unwrap_err().kind()
    );
    assert_eq!(Ok(Some(vec![1u8, 2, 3, 4])), decode_frame(&frame, 4));
}
