//! Framing boundaries: the size limit and end-of-stream behaviour.

use nexus_relay::frame::{read_frame, read_client_msg, encode_frame, FrameError, MAX_FRAME_LEN};

fn header(len: u32) -> Vec<u8> {
    len.to_be_bytes().to_vec()
}

#[test]
fn oversized_frame_is_rejected_without_payload() {
    // A declared length of 16 MiB + 1, with not a single payload byte
    // behind it: the length check fires before any payload handling.
    let buf = header(16 * 1024 * 1024 + 1);
    assert_eq!(read_frame(&buf, 0), Err(FrameError::FrameTooLarge));
}

#[test]
fn limit_is_exactly_sixteen_mib() {
    // At exactly the limit the frame is not oversized; with no payload
    // present the error is a truncation, not a size refusal.
    let buf = header(MAX_FRAME_LEN);
    assert_eq!(read_frame(&buf, 0), Err(FrameError::UnexpectedEof));
}

#[test]
fn clean_eof_between_frames_is_no_message() {
    let empty: Vec<u8> = vec![];
    assert_eq!(read_frame(&empty, 0), Ok(None));
    assert!(read_client_msg(&empty, 0).unwrap().is_none());
}

#[test]
fn eof_inside_the_length_prefix_is_an_error() {
    let buf = vec![0u8, 0u8];
    assert_eq!(read_frame(&buf, 0), Err(FrameError::UnexpectedEof));
}

#[test]
fn eof_inside_the_payload_is_an_error() {
    let mut buf = header(5);
    buf.extend_from_slice(b"abc");
    assert_eq!(read_frame(&buf, 0), Err(FrameError::UnexpectedEof));
}

#[test]
fn a_whole_frame_is_carved_out() {
    let mut buf = header(3);
    buf.extend_from_slice(b"abc");
    buf.extend_from_slice(&header(1));
    buf.push(b'z');
    let (payload, pos) = read_frame(&buf, 0).unwrap().unwrap();
    assert_eq!(payload, b"abc".to_vec());
    assert_eq!(pos, 7);
    let (payload2, pos2) = read_frame(&buf, pos).unwrap().unwrap();
    assert_eq!(payload2, vec![b'z']);
    assert_eq!(read_frame(&buf, pos2), Ok(None));
}

#[test]
fn encode_frame_prefixes_the_length() {
    let payload = b"hello".to_vec();
    let framed = encode_frame(&payload).unwrap();
    assert_eq!(&framed[..4], &[0, 0, 0, 5]);
    assert_eq!(&framed[4..], b"hello");
}

#[test]
fn malformed_payload_is_a_decode_error() {
    let payload = b"{\"type\":\"bogus\"}";
    let mut buf = header(payload.len() as u32);
    buf.extend_from_slice(payload);
    assert_eq!(
        read_client_msg(&buf, 0).map(|_| ()),
        Err(FrameError::DecodeError)
    );
    let bad_utf8 = vec![0u8, 0, 0, 2, 0xff, 0xfe];
    assert_eq!(
        read_client_msg(&bad_utf8, 0).map(|_| ()),
        Err(FrameError::DecodeError)
    );
}
