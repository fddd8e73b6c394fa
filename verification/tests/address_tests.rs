use heritagechain::address::{Address, AddressKind};

#[test]
fn payload_is_read_big_endian() {
    let mut bytes = [0u8; 32];
    bytes[15] = 1;
    bytes[31] = 2;
    bytes[0] = 0x80;
    let a = Address::from_payload(AddressKind::Account, &bytes);
    assert_eq!(a.kind, AddressKind::Account);
    assert_eq!(a.high, (1u128 << 127) | 1);
    assert_eq!(a.low, 2);
}

#[test]
fn payload_round_trips() {
    let mut bytes = [0u8; 32];
    for i in 0..32 {
        bytes[i] = (i as u8).wrapping_mul(37).wrapping_add(5);
    }
    let a = Address::from_payload(AddressKind::Contract, &bytes);
    assert_eq!(a.payload(), bytes.to_vec());
    assert_eq!(Address::from_payload(AddressKind::Contract, &bytes), a);
}

#[test]
fn addresses_of_different_kinds_differ() {
    let bytes = [7u8; 32];
    assert_ne!(
        Address::from_payload(AddressKind::Account, &bytes),
        Address::from_payload(AddressKind::Contract, &bytes)
    );
}
