//! The record codec: one entry to one stored line, and back.
//!
//! A line is the base64 text of a nonce followed by what AES-256-GCM makes of
//! the entry's plaintext under that nonce. Reading a line undoes the three
//! steps in turn, and each of them can refuse.

use vstd::prelude::*;
use vstd::utf8::{
    decode_utf8,
    encode_utf8,
    encode_utf8_decode_utf8,
    encode_utf8_valid_utf8,
    valid_utf8,
};
use vstd::string::*;
use crate::entry::{
    format_plaintext,
    lemma_parse_serialize,
    parse_plaintext,
    parse_plaintext_spec,
    serialize,
    DiaryEntry,
    EntryView,
    SEPARATOR,
};
use crate::error::{DecodeFailure, EncodeFailure};
use crate::key::SymmetricKey;
use crate::primitives::{
    is_base64_char,
    os_random_nonce,
    string_from_utf8_lossy,
    utf8_lossy_repaired,
};
use crate::record::{
    line_of_record,
    open_spec,
    record_of_line,
    seal_spec,
    sealable,
    EncryptedRecord,
    NONCE_LEN,
};

verus! {

/// The text that bytes are read as: valid UTF-8 as it stands, anything else
/// with its invalid parts replaced.
pub open spec fn lossy_text(bytes: Seq<u8>) -> Seq<char> {
    if valid_utf8(bytes) {
        decode_utf8(bytes)
    } else {
        utf8_lossy_repaired(bytes)
    }
}

/// Whether `line` is made of base64 characters only. Such a text holds no
/// line break, so it takes exactly one line of a file.
pub open spec fn is_base64_text(line: Seq<char>) -> bool {
    forall|i: int| 0 <= i < line.len() ==> is_base64_char(#[trigger] line[i])
}

/// A text of base64 characters holds no line break.
pub proof fn lemma_base64_text_is_one_line(line: Seq<char>)
    requires
        is_base64_text(line),
    ensures
        !line.contains('\n'),
        !line.contains('\r'),
{
    if line.contains('\n') {
        let i = choose|i: int| 0 <= i < line.len() && line[i] == '\n';
        assert(is_base64_char(line[i]));
    }
    if line.contains('\r') {
        let i = choose|i: int| 0 <= i < line.len() && line[i] == '\r';
        assert(is_base64_char(line[i]));
    }
}

/// The line that stores `text` sealed under `key` and `nonce`, or `None`
/// where its UTF-8 bytes cannot be sealed.
pub open spec fn seal_text_spec(text: Seq<char>, key: Seq<u8>, nonce: Seq<u8>) -> Option<
    Seq<char>,
> {
    match seal_spec(encode_utf8(text), key, nonce) {
        Some(record) => Some(line_of_record(record)),
        None => None,
    }
}

/// The text that `line` stores under `key`.
pub open spec fn open_text_spec(line: Seq<char>, key: Seq<u8>) -> Result<
    Seq<char>,
    DecodeFailure,
> {
    match record_of_line(line) {
        None => Err(DecodeFailure::MalformedEncoding),
        Some(record) => match open_spec(record, key) {
            None => Err(DecodeFailure::AuthenticationFailure),
            Some(plaintext) => Ok(lossy_text(plaintext)),
        },
    }
}

/// The line that stores `entry` sealed under `key` and `nonce`.
pub open spec fn encode_spec(entry: EntryView, key: Seq<u8>, nonce: Seq<u8>) -> Option<
    Seq<char>,
> {
    seal_text_spec(serialize(entry), key, nonce)
}

/// The entry that `line` stores under `key`.
pub open spec fn decode_spec(line: Seq<char>, key: Seq<u8>) -> Result<EntryView, DecodeFailure> {
    match open_text_spec(line, key) {
        Ok(text) => Ok(parse_plaintext_spec(text)),
        Err(e) => Err(e),
    }
}

/// Asks the operating system for a fresh nonce.
pub fn fresh_nonce() -> (nonce: Result<[u8; 12], EncodeFailure>)
    ensures
        nonce matches Err(e) ==> e == EncodeFailure::RandomSource,
{
    nonce_from(os_random_nonce())
}

/// What becomes of the random source's answer: the bytes it gave are the
/// nonce, unchanged, and its failure is `RandomSource`. Whether it answers,
/// and with which bytes, is for the operating system to decide.
pub fn nonce_from(answer: Result<[u8; 12], rand_core::OsError>) -> (nonce: Result<
    [u8; 12],
    EncodeFailure,
>)
    ensures
        match answer {
            Ok(bytes) => nonce == Ok::<[u8; 12], EncodeFailure>(bytes),
            Err(_) => nonce == Err::<[u8; 12], EncodeFailure>(EncodeFailure::RandomSource),
        },
{
    match answer {
        Ok(bytes) => Ok(bytes),
        Err(_) => Err(EncodeFailure::RandomSource),
    }
}

/// Seals `text` under `key` and `nonce` and writes the record as a line.
///
/// Fails exactly where the bytes of the text cannot be sealed. The line that
/// comes back is read as the same text under the same key.
pub fn seal_text(text: &str, key: &SymmetricKey, nonce: [u8; 12]) -> (sealed: Result<
    String,
    EncodeFailure,
>)
    ensures
        match sealed {
            Ok(line) => {
                &&& seal_text_spec(text@, key@, nonce@) == Some(line@)
                &&& open_text_spec(line@, key@) == Ok::<Seq<char>, DecodeFailure>(text@)
                &&& is_base64_text(line@)
            },
            Err(e) => e == EncodeFailure::Cipher && seal_text_spec(text@, key@, nonce@) is None,
        },
{
    proof {
        encode_utf8_valid_utf8(text@);
        encode_utf8_decode_utf8(text@);
    }
    match EncryptedRecord::seal(text.as_bytes(), key, nonce) {
        Ok(record) => Ok(record.to_line()),
        Err(e) => Err(e),
    }
}

/// Reads the text that `line` stores under `key`.
///
/// A line that is not base64 or too short for a nonce is malformed; one
/// whose tag does not verify fails authentication.
pub fn open_text(line: &str, key: &SymmetricKey) -> (opened: Result<String, DecodeFailure>)
    ensures
        match opened {
            Ok(text) => open_text_spec(line@, key@) == Ok::<Seq<char>, DecodeFailure>(text@),
            Err(e) => open_text_spec(line@, key@) == Err::<Seq<char>, DecodeFailure>(e),
        },
{
    match EncryptedRecord::from_line(line) {
        Err(e) => Err(e),
        Ok(record) => match record.open(key) {
            Err(e) => Err(e),
            Ok(plaintext) => Ok(string_from_utf8_lossy(plaintext.as_slice())),
        },
    }
}

/// Encodes `entry` under `key` and a nonce of the caller's choice.
///
/// Fails exactly where the plaintext cannot be sealed. The line decodes,
/// under the same key, to the entry that the plaintext is read as; that is
/// `entry` itself unless its timestamp holds a separator.
pub fn encode_with_nonce(entry: &DiaryEntry, key: &SymmetricKey, nonce: [u8; 12]) -> (line:
    Result<String, EncodeFailure>)
    ensures
        match line {
            Ok(l) => {
                &&& encode_spec(entry@, key@, nonce@) == Some(l@)
                &&& decode_spec(l@, key@) == Ok::<EntryView, DecodeFailure>(
                    parse_plaintext_spec(serialize(entry@)),
                )
                &&& !entry@.timestamp.contains(SEPARATOR) ==> decode_spec(l@, key@) == Ok::<
                    EntryView,
                    DecodeFailure,
                >(entry@)
                &&& is_base64_text(l@)
            },
            Err(e) => e == EncodeFailure::Cipher && encode_spec(entry@, key@, nonce@) is None,
        },
{
    proof {
        if !entry@.timestamp.contains(SEPARATOR) {
            lemma_parse_serialize(entry@);
        }
    }
    let plaintext = format_plaintext(entry);
    seal_text(plaintext.as_str(), key, nonce)
}

/// Encodes `entry` under `key` and a fresh random nonce.
///
/// Fails where the random source fails, and otherwise exactly where the
/// plaintext cannot be sealed. The line decodes, under the same key, to the
/// entry that the plaintext is read as; that is `entry` itself unless its
/// timestamp holds a separator.
pub fn encode(entry: &DiaryEntry, key: &SymmetricKey) -> (line: Result<String, EncodeFailure>)
    ensures
        match line {
            Ok(l) => {
                &&& exists|nonce: Seq<u8>|
                    nonce.len() == NONCE_LEN && #[trigger] encode_spec(entry@, key@, nonce)
                        == Some(l@)
                &&& decode_spec(l@, key@) == Ok::<EntryView, DecodeFailure>(
                    parse_plaintext_spec(serialize(entry@)),
                )
                &&& !entry@.timestamp.contains(SEPARATOR) ==> decode_spec(l@, key@) == Ok::<
                    EntryView,
                    DecodeFailure,
                >(entry@)
                &&& is_base64_text(l@)
            },
            Err(e) => e == EncodeFailure::RandomSource || (e == EncodeFailure::Cipher
                && !sealable(encode_utf8(serialize(entry@)).len())),
        },
{
    match fresh_nonce() {
        Err(e) => Err(e),
        Ok(nonce) => encode_with_nonce(entry, key, nonce),
    }
}

/// Decodes the entry that `line` stores under `key`.
///
/// A line that is not base64 or too short for a nonce is malformed; one
/// whose tag does not verify fails authentication. Every other line is an
/// entry.
pub fn decode(line: &str, key: &SymmetricKey) -> (entry: Result<DiaryEntry, DecodeFailure>)
    ensures
        match entry {
            Ok(e) => decode_spec(line@, key@) == Ok::<EntryView, DecodeFailure>(e@),
            Err(f) => decode_spec(line@, key@) == Err::<EntryView, DecodeFailure>(f),
        },
{
    match open_text(line, key) {
        Ok(text) => Ok(parse_plaintext(text.as_str())),
        Err(e) => Err(e),
    }
}

} // verus!
