use jotainchat::frame::{frame_body_len, read_frame, write_frame, ByteCursor, FrameError, MAX_FRAME_BYTES};

#[test]
fn roundtrip() {
    let payload = br#"{"type":"text","body":"hi"}"#;
    let mut buf = Vec::new();
    write_frame(&mut buf, payload).unwrap();
    let mut cur = ByteCursor::new(buf);
    let out = read_frame(&mut cur).unwrap();
    assert_eq!(out, payload);
}

#[test]
fn rejects_oversized_length_prefix() {
    let mut bad = (MAX_FRAME_BYTES + 1).to_be_bytes().to_vec();
    bad.extend_from_slice(&[0u8; 8]);
    let mut cur = ByteCursor::new(bad);
    match read_frame(&mut cur) {
        Err(FrameError::TooLarge(_)) => {}
        Err(FrameError::Io(m)) => panic!("expected TooLarge, got Io({m})"),
        Err(FrameError::Timeout) => panic!("expected TooLarge, got Timeout"),
        Ok(b) => panic!("expected TooLarge, got {} bytes", b.len()),
    }
}

#[test]
fn frames_follow_each_other_with_big_endian_prefix() {
    let mut buf = Vec::new();
    write_frame(&mut buf, b"ab").unwrap();
    write_frame(&mut buf, b"").unwrap();
    assert_eq!(&buf[..6], &[0, 0, 0, 2, b'a', b'b']);
    let mut cur = ByteCursor::new(buf);
    assert_eq!(read_frame(&mut cur).unwrap(), b"ab".to_vec());
    assert_eq!(read_frame(&mut cur).unwrap(), Vec::<u8>::new());
    assert_eq!(cur.position(), 10);
    match read_frame(&mut cur) {
        Err(FrameError::Io(m)) => assert_eq!(m, "read frame len: failed to fill whole buffer"),
        _ => panic!("expected an I/O error at end of input"),
    }
}

#[test]
fn truncated_body_is_io_error() {
    let mut cur = ByteCursor::new(vec![0, 0, 0, 5, 1, 2]);
    match read_frame(&mut cur) {
        Err(FrameError::Io(_)) => {}
        _ => panic!("expected an I/O error"),
    }
}

#[test]
fn length_prefix_limits() {
    assert_eq!(frame_body_len(MAX_FRAME_BYTES.to_be_bytes()).ok(), Some(MAX_FRAME_BYTES));
    assert!(matches!(
        frame_body_len((MAX_FRAME_BYTES + 1).to_be_bytes()),
        Err(FrameError::TooLarge(n)) if n == MAX_FRAME_BYTES + 1
    ));
    let mut out = Vec::new();
    let big = vec![0u8; MAX_FRAME_BYTES as usize + 1];
    assert!(write_frame(&mut out, &big).is_err());
    assert!(out.is_empty());
    assert!(FrameError::Timeout.is_timeout());
    assert!(!FrameError::Io("x".into()).is_timeout());
}

#[test]
fn frame_cap_is_checked_on_the_full_length() {
    let mut out = vec![7u8];
    let at_cap = vec![1u8; MAX_FRAME_BYTES as usize];
    write_frame(&mut out, &at_cap).unwrap();
    assert_eq!(out.len(), 1 + 4 + MAX_FRAME_BYTES as usize);
    assert_eq!(&out[1..5], &MAX_FRAME_BYTES.to_be_bytes());
    let mut out = vec![7u8];
    let over = vec![1u8; MAX_FRAME_BYTES as usize + 1];
    assert_eq!(write_frame(&mut out, &over), Err("frame too large: 1048577 > 1048576".to_string()));
    assert_eq!(out, vec![7u8]);
}
