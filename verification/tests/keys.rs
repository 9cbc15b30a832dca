use attendance::keys::Key;

#[test]
fn key_keeps_its_bytes() {
    let mut bytes = [0u8; 32];
    bytes[0] = 7;
    bytes[31] = 0x2a;
    let key = Key::new(bytes);
    assert_eq!(key.as_bytes(), &bytes);
    let copy = key;
    assert_eq!(copy.as_bytes(), key.as_bytes());
}

#[test]
fn hash_keeps_its_bytes() {
    let mut bytes = [0xffu8; 32];
    bytes[3] = 1;
    let hash = attendance::keys::Hash::new(bytes);
    assert_eq!(hash.as_bytes(), &bytes);
}
