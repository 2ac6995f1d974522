use silent_pen::key::{derive_key, SymmetricKey};

const EMPTY_DIGEST: [u8; 32] = [
    0xaf, 0x13, 0x49, 0xb9, 0xf5, 0xf9, 0xa1, 0xa6, 0xa0, 0x40, 0x4d, 0xea, 0x36, 0xdc, 0xc9, 0x49,
    0x9b, 0xcb, 0x25, 0xc9, 0xad, 0xc1, 0x12, 0xb7, 0xcc, 0x9a, 0x93, 0xca, 0xe4, 0x1f, 0x32, 0x62,
];

#[test]
fn empty_password_gives_the_digest_of_no_bytes() {
    let key: SymmetricKey = derive_key("");
    assert_eq!(key.bytes, EMPTY_DIGEST);
}

#[test]
fn derivation_is_repeatable() {
    let first = derive_key("correct horse battery staple");
    let second = derive_key("correct horse battery staple");
    assert_eq!(first.bytes, second.bytes);
}

#[test]
fn different_passwords_give_different_keys() {
    assert_ne!(derive_key("pw1").bytes, derive_key("pw2").bytes);
    assert_ne!(derive_key("pw1").bytes, derive_key("").bytes);
}

#[test]
fn key_is_not_the_password_itself() {
    let password = "0123456789abcdef0123456789abcdef";
    let key = derive_key(password);
    assert_ne!(&key.bytes[..], password.as_bytes());
}

#[test]
fn password_outside_ascii_is_accepted() {
    let key = derive_key("密码🔑");
    assert_eq!(key.bytes.len(), 32);
    assert_eq!(key.bytes, derive_key("密码🔑").bytes);
}

#[test]
fn short_password_gives_its_published_digest() {
    let expected: [u8; 32] = [
        0x64, 0x37, 0xb3, 0xac, 0x38, 0x46, 0x51, 0x33, 0xff, 0xb6, 0x3b, 0x75, 0x27, 0x3a,
        0x8d, 0xb5, 0x48, 0xc5, 0x58, 0x46, 0x5d, 0x79, 0xdb, 0x03, 0xfd, 0x35, 0x9c, 0x6c,
        0xd5, 0xbd, 0x9d, 0x85,
    ];
    assert_eq!(derive_key("abc").bytes, expected);
}
