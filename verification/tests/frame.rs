use wayflow::frame::{encode_frame, frame_len, header_len, length_header, FrameError, MAX_MESSAGE_BYTES};

#[test]
fn header_is_little_endian() {
    assert_eq!(length_header(0x0102_0304), [0x04, 0x03, 0x02, 0x01]);
    assert_eq!(length_header(0), [0, 0, 0, 0]);
    assert_eq!(header_len([0xFF, 0xFF, 0xFF, 0xFF]), u32::MAX);
    assert_eq!(header_len(length_header(1_234_567)), 1_234_567);
}

#[test]
fn frame_is_header_then_payload() {
    let f = encode_frame(&[9, 8, 7]).unwrap();
    assert_eq!(f, vec![3, 0, 0, 0, 9, 8, 7]);
    assert_eq!(encode_frame(&[]).unwrap(), vec![0, 0, 0, 0]);
}

#[test]
fn frame_round_trips_through_the_reader() {
    let payload: Vec<u8> = (0..300u32).map(|i| (i % 251) as u8).collect();
    let f = encode_frame(&payload).unwrap();
    let len = frame_len([f[0], f[1], f[2], f[3]]).unwrap();
    assert_eq!(len, payload.len());
    assert_eq!(&f[4..], &payload[..]);
}

#[test]
fn oversized_message_rejected() {
    let len: u32 = 5 * 1024 * 1024;
    let err = frame_len(len.to_le_bytes()).unwrap_err();
    assert_eq!(err, FrameError::TooLarge { len: 5 * 1024 * 1024 });
}

#[test]
fn limit_itself_is_accepted() {
    assert_eq!(frame_len(MAX_MESSAGE_BYTES.to_le_bytes()), Ok(4 * 1024 * 1024));
    assert_eq!(
        frame_len((MAX_MESSAGE_BYTES + 1).to_le_bytes()),
        Err(FrameError::TooLarge { len: 4 * 1024 * 1024 + 1 })
    );
}

#[test]
fn max_valid_message_accepted() {
    let big = vec![b'x'; 1024 * 1024];
    let f = encode_frame(&big).unwrap();
    assert_eq!(f.len(), 4 + big.len());
    assert_eq!(frame_len([f[0], f[1], f[2], f[3]]), Ok(1024 * 1024));
}
