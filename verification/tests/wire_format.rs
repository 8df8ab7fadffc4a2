use erdnuss_comms::frame_pool::FrameStorage;
use erdnuss_comms::wirehelp::{fill_frame, WhBody};

const KEY: [u8; 8] = [0x10, 0x20, 0x30, 0x40, 0x50, 0x60, 0x70, 0x80];

#[test]
fn decode_headered_message_single_byte_seq() {
    let mut storage = FrameStorage::new(1);
    let mut pool = storage.take().unwrap();
    let mut fb = pool.allocate_raw().unwrap();
    // Command-address byte, 8 key bytes, seq_no 7 as a one-byte varint,
    // then the body.
    let mut bytes = vec![0x27u8];
    bytes.extend_from_slice(&KEY);
    bytes.push(0x07);
    bytes.extend_from_slice(&[0xDE, 0xAD]);
    fb.fill_from(&bytes);
    let wh = WhBody::try_from(&fb).expect("a valid headered message");
    assert_eq!(wh.key, KEY.to_vec());
    assert_eq!(wh.seq_no, 7);
    assert_eq!(wh.body, vec![0xDE, 0xAD]);
}

#[test]
fn decode_headered_message_multibyte_seq() {
    let mut storage = FrameStorage::new(1);
    let mut pool = storage.take().unwrap();
    let mut fb = pool.allocate_raw().unwrap();
    // seq_no 300 = 0b10_0101100: varint bytes 0xAC 0x02.
    let mut bytes = vec![0x27u8];
    bytes.extend_from_slice(&KEY);
    bytes.extend_from_slice(&[0xAC, 0x02]);
    bytes.push(0x99);
    fb.fill_from(&bytes);
    let wh = WhBody::try_from(&fb).expect("a valid headered message");
    assert_eq!(wh.seq_no, 300);
    assert_eq!(wh.body, vec![0x99]);
}

#[test]
fn decode_rejects_truncated_or_malformed_headers() {
    let mut storage = FrameStorage::new(1);
    let mut pool = storage.take().unwrap();
    let mut fb = pool.allocate_raw().unwrap();
    // Payload shorter than the 8-byte key.
    fb.fill_from(&vec![0x27, 1, 2, 3]);
    assert!(WhBody::try_from(&fb).is_none());
    // Key present but the varint never terminates.
    let mut bytes = vec![0x27u8];
    bytes.extend_from_slice(&KEY);
    bytes.extend_from_slice(&[0x80, 0x80, 0x80, 0x80, 0x80]);
    fb.fill_from(&bytes);
    assert!(WhBody::try_from(&fb).is_none());
    // Key present, varint missing entirely.
    let mut bytes = vec![0x27u8];
    bytes.extend_from_slice(&KEY);
    fb.fill_from(&bytes);
    assert!(WhBody::try_from(&fb).is_none());
}

#[test]
fn fill_frame_lays_out_header_and_body() {
    let mut storage = FrameStorage::new(1);
    let mut pool = storage.take().unwrap();
    let mut fb = pool.allocate_raw().unwrap();
    fb.set(0, 0x00);
    let hdr = vec![0x11u8, 0x22];
    let body = vec![0x33u8, 0x44, 0x55];
    assert!(fill_frame(&mut fb, &hdr, &body));
    assert_eq!(fb.as_bytes(), &[0x00, 0x11, 0x22, 0x33, 0x44, 0x55]);
}

#[test]
fn fill_frame_refuses_what_does_not_fit() {
    let mut storage = FrameStorage::new(1);
    let mut pool = storage.take().unwrap();
    let mut fb = pool.allocate_raw().unwrap();
    fb.set_len(4);
    let hdr = vec![0x11u8, 0x22];
    let body = vec![0x33u8, 0x44];
    // 1 + 2 + 2 > 4: refused, frame unchanged.
    assert!(!fill_frame(&mut fb, &hdr, &body));
    assert_eq!(fb.len(), 4);
    let small = vec![0x33u8];
    assert!(fill_frame(&mut fb, &hdr, &small));
    assert_eq!(fb.as_bytes()[1..], [0x11, 0x22, 0x33]);
}

#[test]
fn fill_then_decode_roundtrip() {
    let mut storage = FrameStorage::new(1);
    let mut pool = storage.take().unwrap();
    let mut fb = pool.allocate_raw().unwrap();
    let mut hdr = KEY.to_vec();
    hdr.push(0x05);
    let body = vec![0xAB, 0xCD];
    assert!(fill_frame(&mut fb, &hdr, &body));
    let wh = WhBody::try_from(&fb).expect("a valid headered message");
    assert_eq!(wh.key, KEY.to_vec());
    assert_eq!(wh.seq_no, 5);
    assert_eq!(wh.body, body);
}
