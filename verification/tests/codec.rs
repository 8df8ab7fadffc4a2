use erdnuss_comms::{xor_bytes, CmdAddr, CmdAddrError};

#[test]
fn decode_assigned_commands() {
    assert_eq!(CmdAddr::from_byte(0x27), Ok(CmdAddr::SelectAddr(7)));
    assert_eq!(CmdAddr::from_byte(0x47), Ok(CmdAddr::ReplyFromAddr(7)));
    assert_eq!(CmdAddr::from_byte(0x87), Ok(CmdAddr::DiscoveryOffer(7)));
    assert_eq!(CmdAddr::from_byte(0xA7), Ok(CmdAddr::DiscoveryClaim(7)));
    assert_eq!(CmdAddr::from_byte(0xE7), Ok(CmdAddr::DiscoverySuccess(7)));
}

#[test]
fn decode_rejects_reserved_commands() {
    // Commands 0b000, 0b011 and 0b110, each with a few addresses.
    for addr in [0u8, 7, 31] {
        assert_eq!(CmdAddr::from_byte(addr), Err(CmdAddrError::Reserved));
        assert_eq!(CmdAddr::from_byte(0b011_00000 | addr), Err(CmdAddrError::Reserved));
        assert_eq!(CmdAddr::from_byte(0b110_00000 | addr), Err(CmdAddrError::Reserved));
    }
}

#[test]
fn encode_exact_values() {
    assert_eq!(CmdAddr::SelectAddr(7).to_byte(), 0x27);
    assert_eq!(CmdAddr::ReplyFromAddr(7).to_byte(), 0x47);
    assert_eq!(CmdAddr::DiscoveryOffer(7).to_byte(), 0x87);
    assert_eq!(CmdAddr::DiscoveryClaim(7).to_byte(), 0xA7);
    assert_eq!(CmdAddr::DiscoverySuccess(7).to_byte(), 0xE7);
    assert_eq!(CmdAddr::SelectAddr(0).to_byte(), 0x20);
    assert_eq!(CmdAddr::DiscoverySuccess(31).to_byte(), 0xFF);
}

#[test]
fn roundtrip_on_all_constructible_values() {
    for addr in 0u8..32 {
        for ca in [
            CmdAddr::SelectAddr(addr),
            CmdAddr::ReplyFromAddr(addr),
            CmdAddr::DiscoveryOffer(addr),
            CmdAddr::DiscoveryClaim(addr),
            CmdAddr::DiscoverySuccess(addr),
        ] {
            assert_eq!(CmdAddr::from_byte(ca.to_byte()), Ok(ca));
        }
    }
}

#[test]
fn encode_truncates_high_address_bits() {
    // An address above 31 keeps only its low 5 bits.
    assert_eq!(CmdAddr::SelectAddr(40).to_byte(), 0x28);
    assert_eq!(CmdAddr::from_byte(CmdAddr::SelectAddr(40).to_byte()), Ok(CmdAddr::SelectAddr(8)));
    assert_eq!(
        CmdAddr::from_byte(CmdAddr::DiscoveryClaim(255).to_byte()),
        Ok(CmdAddr::DiscoveryClaim(31))
    );
}

#[test]
fn xor_fold_recovers_message() {
    // For any challenge C and message M: C XOR (C XOR M) == M.
    let challenge = vec![0x01u8, 0x02, 0x03, 0x04, 0x05, 0x06, 0x07, 0x08];
    let uid_le = vec![0x88u8, 0x77, 0x66, 0x55, 0x44, 0x33, 0x22, 0x11];
    let folded = xor_bytes(&uid_le, &challenge);
    let recovered = xor_bytes(&challenge, &folded);
    assert_eq!(recovered, uid_le);
}

#[test]
fn rng_seed_repeats_uid_bytes() {
    let seed = erdnuss_comms::rng_seed_from_uid(0x1122_3344_5566_7788);
    assert_eq!(seed.len(), 32);
    let le = [0x88u8, 0x77, 0x66, 0x55, 0x44, 0x33, 0x22, 0x11];
    for (i, b) in seed.iter().enumerate() {
        assert_eq!(*b, le[i % 8]);
    }
}
