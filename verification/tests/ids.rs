use socket_swap::ids::{container_id_from_uuid, new_container_id};

#[test]
fn container_ids_are_twelve_hex_digits() {
    let a = new_container_id();
    let b = new_container_id();
    for id in [&a, &b] {
        assert_eq!(id.len(), 12);
        assert!(id.chars().all(|c| c.is_ascii_hexdigit() && !c.is_ascii_uppercase()));
    }
    assert_ne!(a, b);
}

#[test]
fn container_id_is_first_six_uuid_bytes_in_hex() {
    let bytes: [u8; 16] = [
        0x12, 0x34, 0x56, 0x78, 0x9a, 0xbc, 0x4d, 0xef, 0x80, 0x01, 0x02, 0x03, 0x04, 0x05, 0x06, 0x07,
    ];
    assert_eq!(container_id_from_uuid(bytes), "123456789abc");
    assert_eq!(container_id_from_uuid([0u8; 16]), "000000000000");
}
