use erdnuss_comms::frame_pool::FrameStorage;
use erdnuss_comms::target::{
    build_ack, build_claim, build_reply, classify_addr_frame, classify_select, is_success_for,
    should_claim, AddrFrame, SelectOutcome, State,
};

const UID: u64 = 0x1122_3344_5566_7788;
const UID_LE: [u8; 8] = [0x88, 0x77, 0x66, 0x55, 0x44, 0x33, 0x22, 0x11];
const CHALLENGE: [u8; 8] = [0x01, 0x02, 0x03, 0x04, 0x05, 0x06, 0x07, 0x08];

#[test]
fn offer_frame_yields_address_and_challenge() {
    let mut frame = vec![0x87u8];
    frame.extend_from_slice(&CHALLENGE);
    match classify_addr_frame(&frame, UID) {
        AddrFrame::Offer { addr, challenge } => {
            assert_eq!(addr, 7);
            assert_eq!(challenge, CHALLENGE.to_vec());
        },
        _ => panic!("expected an offer"),
    }
}

#[test]
fn short_or_alien_frames_are_ignored_while_unaddressed() {
    // Too short for a challenge.
    let frame = vec![0x87u8, 1, 2, 3];
    assert!(matches!(classify_addr_frame(&frame, UID), AddrFrame::Ignore));
    // A reserved header.
    let mut frame = vec![0x07u8];
    frame.extend_from_slice(&CHALLENGE);
    assert!(matches!(classify_addr_frame(&frame, UID), AddrFrame::Ignore));
    // A select is not an offer.
    let mut frame = vec![0x27u8];
    frame.extend_from_slice(&CHALLENGE);
    assert!(matches!(classify_addr_frame(&frame, UID), AddrFrame::Ignore));
    // Empty.
    assert!(matches!(classify_addr_frame(&Vec::new(), UID), AddrFrame::Ignore));
}

#[test]
fn success_for_our_uid_reclaims_the_address() {
    let mut frame = vec![0xE7u8];
    frame.extend_from_slice(&UID_LE);
    match classify_addr_frame(&frame, UID) {
        AddrFrame::Reclaim { addr } => assert_eq!(addr, 7),
        _ => panic!("expected a reclaim"),
    }
    // A success echoing someone else's identifier is not adopted.
    let mut other = vec![0xE7u8];
    other.extend_from_slice(&[0u8; 8]);
    assert!(matches!(classify_addr_frame(&other, UID), AddrFrame::Ignore));
}

#[test]
fn claim_coinflip_is_low_three_bits_zero() {
    assert!(should_claim(0));
    assert!(should_claim(8));
    assert!(should_claim(0xFFFF_FFF8));
    assert!(!should_claim(1));
    assert!(!should_claim(7));
    assert!(!should_claim(0xFFFF_FFFF));
}

#[test]
fn claim_frame_folds_uid_with_challenge() {
    let claim = build_claim(7, UID, &CHALLENGE.to_vec());
    assert_eq!(claim.len(), 9);
    assert_eq!(claim[0], 0xA7);
    for k in 0..8 {
        assert_eq!(claim[1 + k], UID_LE[k] ^ CHALLENGE[k]);
    }
}

#[test]
fn success_detection_checks_address_and_uid() {
    let mut frame = vec![0xE7u8];
    frame.extend_from_slice(&UID_LE);
    assert!(is_success_for(&frame, 7, UID));
    assert!(!is_success_for(&frame, 6, UID));
    assert!(!is_success_for(&frame, 7, UID ^ 1));
    assert!(!is_success_for(&frame[..8].to_vec(), 7, UID));
}

#[test]
fn ack_is_a_bare_reply_header() {
    assert_eq!(build_ack(7), vec![0x47]);
    assert_eq!(build_ack(0), vec![0x40]);
}

#[test]
fn select_classification() {
    assert_eq!(classify_select(&vec![0x27], 7), SelectOutcome::AckOnly);
    assert_eq!(classify_select(&vec![0x27, 0x0A], 7), SelectOutcome::Data);
    assert_eq!(classify_select(&vec![0x26, 0x0A], 7), SelectOutcome::NotForUs);
    assert_eq!(classify_select(&vec![0x47], 7), SelectOutcome::NotForUs);
    assert_eq!(classify_select(&Vec::new(), 7), SelectOutcome::NotForUs);
}

#[test]
fn reply_carries_queued_payload_or_nothing() {
    assert_eq!(build_reply(7, &None), vec![0x47]);
    let mut storage = FrameStorage::new(1);
    let mut pool = storage.take().unwrap();
    let mut fb = pool.allocate_raw().unwrap();
    fb.fill_from(&vec![0x00, 0x0D, 0x0E]);
    let out = Some(fb);
    assert_eq!(build_reply(7, &out), vec![0x47, 0x0D, 0x0E]);
}

#[test]
fn state_signal_values() {
    assert_eq!(State::Connected(7), State::Connected(7));
    assert_ne!(State::Connected(7), State::Disconnected);
}
