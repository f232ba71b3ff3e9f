use egui_mcp::framing::{FrameRead, ProtocolError, MAX_MESSAGE_SIZE, frame_message, frame_payload_len, read_frame};

#[test]
fn frame_then_read_gives_the_payload_back() {
    let data = b"{\"Ping\":null}".to_vec();
    let mut framed = frame_message(&data).ok().unwrap();
    assert_eq!(&framed[..4], &[0, 0, 0, data.len() as u8]);
    framed.extend_from_slice(b"trailing");
    match read_frame(&framed) {
        Ok(FrameRead::Complete { payload, consumed }) => {
            assert_eq!(payload, data);
            assert_eq!(consumed, 4 + data.len());
        }
        _ => panic!("expected a whole frame"),
    }
}

#[test]
fn empty_payload_frames() {
    let framed = frame_message(&[]).ok().unwrap();
    assert_eq!(framed, vec![0, 0, 0, 0]);
    assert!(matches!(read_frame(&framed), Ok(FrameRead::Complete { consumed: 4, .. })));
}

#[test]
fn short_buffers_are_incomplete() {
    assert!(matches!(read_frame(&[0, 0]), Ok(FrameRead::Incomplete)));
    assert!(matches!(read_frame(&[0, 0, 0, 5, 1, 2]), Ok(FrameRead::Incomplete)));
}

#[test]
fn oversized_lengths_are_refused() {
    let big = vec![0u8; MAX_MESSAGE_SIZE + 1];
    assert!(matches!(frame_message(&big), Err(ProtocolError::MessageTooLarge(n)) if n == MAX_MESSAGE_SIZE + 1));
    let header = [0x00, 0x10, 0x00, 0x01];
    assert!(matches!(frame_payload_len(header), Err(ProtocolError::MessageTooLarge(n)) if n == 0x0010_0001));
    assert!(matches!(frame_payload_len([0x00, 0x10, 0x00, 0x00]), Ok(n) if n == MAX_MESSAGE_SIZE));
    assert!(matches!(read_frame(&[0xff, 0xff, 0xff, 0xff]), Err(ProtocolError::MessageTooLarge(n)) if n == 0xffff_ffff));
}

#[test]
fn header_is_big_endian() {
    assert!(matches!(frame_payload_len([0x00, 0x01, 0x02, 0x03]), Ok(n) if n == 0x010203));
}
