use silent_pen::codec::{
    decode, encode, encode_with_nonce, fresh_nonce, nonce_from, open_text, seal_text,
};
use silent_pen::entry::DiaryEntry;
use silent_pen::error::{DecodeFailure, EncodeFailure};
use silent_pen::key::{derive_key, SymmetricKey};
use silent_pen::record::{can_seal, EncryptedRecord};

const ZERO_KEY: SymmetricKey = SymmetricKey { bytes: [0u8; 32] };

const NONCE: [u8; 12] = [0, 1, 2, 3, 4, 5, 6, 7, 8, 9, 10, 11];

const SEALED_ZERO_BLOCK: [u8; 32] = [
    0xce, 0xa7, 0x40, 0x3d, 0x4d, 0x60, 0x6b, 0x6e, 0x07, 0x4e, 0xc5, 0xd3, 0xba, 0xf3, 0x9d, 0x18,
    0xd0, 0xd1, 0xc8, 0xa7, 0x99, 0x99, 0x6b, 0xf0, 0x26, 0x5b, 0x98, 0xb5, 0xd4, 0x8a, 0xb9, 0x19,
];

const TAG_OF_NOTHING: [u8; 16] = [
    0x53, 0x0f, 0x8a, 0xfb, 0xc7, 0x45, 0x36, 0xb9, 0xa9, 0x63, 0xb4, 0xf1, 0xc4, 0xcb, 0x73, 0x8b,
];

fn entry(timestamp: &str, word_count: u32, content: &str) -> DiaryEntry {
    DiaryEntry {
        timestamp: timestamp.to_string(),
        word_count,
        content: content.to_string(),
    }
}

fn same(a: &DiaryEntry, b: &DiaryEntry) -> bool {
    a.timestamp == b.timestamp && a.word_count == b.word_count && a.content == b.content
}

#[test]
fn seal_matches_the_published_vectors() {
    let record = EncryptedRecord::seal(&[0u8; 16], &ZERO_KEY, [0u8; 12]).unwrap();
    assert_eq!(record.nonce, [0u8; 12]);
    assert_eq!(record.ciphertext, SEALED_ZERO_BLOCK.to_vec());
    let record = EncryptedRecord::seal(&[], &ZERO_KEY, [0u8; 12]).unwrap();
    assert_eq!(record.ciphertext, TAG_OF_NOTHING.to_vec());
}

#[test]
fn open_matches_the_published_vectors() {
    let record = EncryptedRecord { nonce: [0u8; 12], ciphertext: SEALED_ZERO_BLOCK.to_vec() };
    assert_eq!(record.open(&ZERO_KEY), Ok(vec![0u8; 16]));
    let record = EncryptedRecord { nonce: [0u8; 12], ciphertext: TAG_OF_NOTHING.to_vec() };
    assert_eq!(record.open(&ZERO_KEY), Ok(Vec::new()));
}

#[test]
fn open_refuses_a_changed_ciphertext() {
    let mut ciphertext = SEALED_ZERO_BLOCK.to_vec();
    ciphertext[3] ^= 1;
    let record = EncryptedRecord { nonce: [0u8; 12], ciphertext };
    assert_eq!(record.open(&ZERO_KEY), Err(DecodeFailure::AuthenticationFailure));
}

#[test]
fn open_refuses_another_nonce_or_key() {
    let record = EncryptedRecord { nonce: NONCE, ciphertext: SEALED_ZERO_BLOCK.to_vec() };
    assert_eq!(record.open(&ZERO_KEY), Err(DecodeFailure::AuthenticationFailure));
    let record = EncryptedRecord { nonce: [0u8; 12], ciphertext: SEALED_ZERO_BLOCK.to_vec() };
    assert_eq!(record.open(&derive_key("")), Err(DecodeFailure::AuthenticationFailure));
}

#[test]
fn open_refuses_what_is_shorter_than_a_tag() {
    let record = EncryptedRecord { nonce: [0u8; 12], ciphertext: vec![0u8; 15] };
    assert_eq!(record.open(&ZERO_KEY), Err(DecodeFailure::AuthenticationFailure));
    let record = EncryptedRecord { nonce: [0u8; 12], ciphertext: Vec::new() };
    assert_eq!(record.open(&ZERO_KEY), Err(DecodeFailure::AuthenticationFailure));
}

#[test]
fn record_bytes_are_nonce_then_ciphertext() {
    let record = EncryptedRecord { nonce: NONCE, ciphertext: vec![200, 201, 202] };
    assert_eq!(record.to_bytes(), vec![0, 1, 2, 3, 4, 5, 6, 7, 8, 9, 10, 11, 200, 201, 202]);
    let back = EncryptedRecord::from_bytes(&record.to_bytes()).unwrap();
    assert_eq!(back.nonce, NONCE);
    assert_eq!(back.ciphertext, vec![200, 201, 202]);
}

#[test]
fn twelve_bytes_are_the_shortest_record() {
    assert!(EncryptedRecord::from_bytes(&[7u8; 11]).is_none());
    assert!(EncryptedRecord::from_bytes(&[]).is_none());
    let record = EncryptedRecord::from_bytes(&[7u8; 12]).unwrap();
    assert_eq!(record.nonce, [7u8; 12]);
    assert!(record.ciphertext.is_empty());
}

#[test]
fn line_is_standard_base64_with_padding() {
    let record = EncryptedRecord { nonce: [0u8; 12], ciphertext: SEALED_ZERO_BLOCK.to_vec() };
    assert_eq!(record.to_line(), "AAAAAAAAAAAAAAAAzqdAPU1ga24HTsXTuvOdGNDRyKeZmWvwJluYtdSKuRk=");
    let record = EncryptedRecord { nonce: [0u8; 12], ciphertext: TAG_OF_NOTHING.to_vec() };
    assert_eq!(record.to_line(), "AAAAAAAAAAAAAAAAUw+K+8dFNrmpY7TxxMtziw==");
    let record = EncryptedRecord { nonce: NONCE, ciphertext: Vec::new() };
    assert_eq!(record.to_line(), "AAECAwQFBgcICQoL");
}

#[test]
fn line_is_read_back_as_the_record() {
    let record =
        EncryptedRecord::from_line("AAAAAAAAAAAAAAAAUw+K+8dFNrmpY7TxxMtziw==").unwrap();
    assert_eq!(record.nonce, [0u8; 12]);
    assert_eq!(record.ciphertext, TAG_OF_NOTHING.to_vec());
}

#[test]
fn line_that_is_not_base64_is_malformed() {
    for line in ["not base64!", "AAAA AAAA AAAA AAAA", "AAECAwQFBgcICQoL=", "AAECAwQFBgcICQo", "日记"] {
        assert_eq!(
            EncryptedRecord::from_line(line).err(),
            Some(DecodeFailure::MalformedEncoding)
        );
    }
}

#[test]
fn line_too_short_for_a_nonce_is_malformed() {
    for line in ["", "AAAA", "AAAAAAAAAAAAAAA="] {
        assert_eq!(
            EncryptedRecord::from_line(line).err(),
            Some(DecodeFailure::MalformedEncoding)
        );
        assert_eq!(decode(line, &ZERO_KEY).err(), Some(DecodeFailure::MalformedEncoding));
    }
}

#[test]
fn line_with_a_nonce_and_no_valid_tag_fails_authentication() {
    for line in ["AAECAwQFBgcICQoL", "AAAAAAAAAAAAAAAAAAAAAAAAAAAAAAAAAAAA"] {
        assert_eq!(decode(line, &ZERO_KEY).err(), Some(DecodeFailure::AuthenticationFailure));
    }
}

#[test]
fn encode_with_nonce_gives_the_expected_line() {
    let key = derive_key("");
    let line =
        encode_with_nonce(&entry("2024-01-01 10:00:00", 2, "Hello world"), &key, NONCE).unwrap();
    assert_eq!(
        line,
        "AAECAwQFBgcICQoLAEaEfi163ctBkRyxdEKyYbC5Gw6ukHDRS5TC3U8/wnC2+iGWPhDXNjfAGsRqAqmF2w=="
    );
}

#[test]
fn seal_text_gives_the_expected_line() {
    let key = derive_key("");
    assert_eq!(
        seal_text("日记", &key, NONCE),
        Ok("AAECAwQFBgcICQoL1OEToq763Xhxv+Mq3xYek50GNJTIVw==".to_string())
    );
}

#[test]
fn decode_reads_an_expected_line() {
    let key = derive_key("");
    let e = decode(
        "AAECAwQFBgcICQoLAEaEfi163ctBkRyxdEKyYbC5Gw6ukHDRS5TC3U8/wnC2+iGWPhDXNjfAGsRqAqmF2w==",
        &key,
    )
    .unwrap();
    assert!(same(&e, &entry("2024-01-01 10:00:00", 2, "Hello world")));
}

#[test]
fn invalid_utf8_is_replaced_when_read() {
    let key = derive_key("");
    let line = "AAECAwQFBgcICQoLUwqHNv+0jp5kqLY5Rfc0c9zeMtSg/nA=";
    assert_eq!(open_text(line, &key), Ok("a|1|\u{FFFD}\u{FFFD}b".to_string()));
    let e = decode(line, &key).unwrap();
    assert!(same(&e, &entry("a", 1, "\u{FFFD}\u{FFFD}b")));
}

#[test]
fn round_trip_gives_the_entry_back() {
    for password in ["pw1", "", "密码"] {
        let key = derive_key(password);
        for e in [
            entry("2024-01-01 10:00:00", 2, "Hello world"),
            entry("", 0, ""),
            entry("导入时间", 0, "first line\nsecond line\n"),
            entry("2024-12-31 23:59:59", 4294967295, "a|b|c 日记 🖊"),
        ] {
            let line = encode(&e, &key).unwrap();
            let back = decode(&line, &key).unwrap();
            assert!(same(&back, &e));
        }
    }
}

#[test]
fn round_trip_of_a_long_content() {
    let key = derive_key("pw1");
    let content = "word ".repeat(20000);
    let e = entry("2024-01-01 10:00:00", 20000, &content);
    let back = decode(&encode(&e, &key).unwrap(), &key).unwrap();
    assert!(same(&back, &e));
}

#[test]
fn wrong_key_fails_authentication() {
    let e = entry("2024-01-01 10:00:00", 2, "Hello world");
    let line = encode(&e, &derive_key("pw1")).unwrap();
    assert_eq!(decode(&line, &derive_key("pw2")).err(), Some(DecodeFailure::AuthenticationFailure));
    assert_eq!(decode(&line, &derive_key("")).err(), Some(DecodeFailure::AuthenticationFailure));
    assert_eq!(decode(&line, &derive_key("PW1")).err(), Some(DecodeFailure::AuthenticationFailure));
}

#[test]
fn line_holds_no_line_break_and_no_plaintext() {
    let e = entry("2024-01-01 10:00:00", 2, "line one\nline two\r\n");
    let line = encode(&e, &derive_key("pw1")).unwrap();
    assert!(!line.contains('\n'));
    assert!(!line.contains('\r'));
    assert!(!line.contains("line one"));
    assert!(line
        .chars()
        .all(|c| c.is_ascii_alphanumeric() || c == '+' || c == '/' || c == '='));
    assert_eq!(line.len() % 4, 0);
}

#[test]
fn every_encoding_takes_a_fresh_nonce() {
    let e = entry("2024-01-01 10:00:00", 2, "Hello world");
    let key = derive_key("pw1");
    let first = encode(&e, &key).unwrap();
    let second = encode(&e, &key).unwrap();
    assert_ne!(first, second);
    assert_ne!(fresh_nonce().unwrap(), fresh_nonce().unwrap());
    let a = EncryptedRecord::from_line(&first).unwrap();
    let b = EncryptedRecord::from_line(&second).unwrap();
    assert_ne!(a.nonce, b.nonce);
}

#[test]
fn record_is_twenty_eight_bytes_longer_than_its_plaintext() {
    let key = derive_key("pw1");
    let line = encode_with_nonce(&entry("t", 1, "c"), &key, NONCE).unwrap();
    let record = EncryptedRecord::from_line(&line).unwrap();
    assert_eq!(record.nonce, NONCE);
    assert_eq!(record.ciphertext.len(), "t|1|c".len() + 16);
    assert_eq!(record.to_bytes().len(), "t|1|c".len() + 28);
}

#[test]
fn plaintexts_up_to_the_cipher_limit_can_be_sealed() {
    assert!(can_seal(0));
    assert!(can_seal(1 << 20));
    if usize::BITS >= 64 {
        let limit: u64 = 1 << 36;
        assert!(can_seal(limit as usize));
        assert!(!can_seal(limit as usize + 1));
    }
    assert!(!can_seal(usize::MAX));
    assert!(!can_seal(usize::MAX - 30));
}

#[test]
fn failures_can_be_told_apart() {
    assert_ne!(EncodeFailure::RandomSource, EncodeFailure::Cipher);
    assert_ne!(DecodeFailure::MalformedEncoding, DecodeFailure::AuthenticationFailure);
}

#[test]
fn every_failure_has_its_text() {
    assert_eq!(DecodeFailure::AuthenticationFailure.message(), "密码错误或数据损坏");
    assert_eq!(DecodeFailure::MalformedEncoding.message(), "base64解码失败");
    assert_eq!(EncodeFailure::RandomSource.message(), "生成随机数失败");
    assert_eq!(EncodeFailure::Cipher.message(), "aead::Error");
}

#[test]
fn answer_of_the_random_source_is_the_nonce() {
    assert_eq!(nonce_from(Ok(NONCE)), Ok(NONCE));
    assert_eq!(nonce_from(Ok([0u8; 12])), Ok([0u8; 12]));
    assert_eq!(nonce_from(Ok([255u8; 12])), Ok([255u8; 12]));
}
