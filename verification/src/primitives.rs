//! The cryptographic and encoding primitives that the diary relies on.
//!
//! Nothing in this module is proved: each function calls into another crate
//! (or, for the lossy UTF-8 reading, into the standard library) and carries
//! the contract that the rest of the library assumes of it. Running out of
//! memory is outside these contracts, as it is for `Vec` and `String`.

use vstd::prelude::*;
use vstd::utf8::{decode_utf8, valid_utf8};
use base64::Engine;
use aes_gcm::aead::Aead;
use aes_gcm::KeyInit;
use rand_core::TryRngCore;

verus! {

/// The error of the AEAD traits; it carries no information.
#[verifier::external_type_specification]
#[verifier::external_body]
pub struct ExAeadError(aes_gcm::Error);

/// The reason why `base64` rejected a text.
#[verifier::external_type_specification]
#[verifier::external_body]
pub struct ExBase64DecodeError(base64::DecodeError);

/// The failure of the operating system's random source.
#[verifier::external_type_specification]
#[verifier::external_body]
pub struct ExOsError(rand_core::OsError);

/// The 32-byte BLAKE3 digest of `input`.
pub uninterp spec fn blake3_hash(input: Seq<u8>) -> Seq<u8>;

/// What AES-256-GCM makes of `plaintext` under a 32-byte `key` and a 12-byte
/// `nonce`, with no associated data: the ciphertext followed by its tag.
pub uninterp spec fn aes256gcm_sealed(key: Seq<u8>, nonce: Seq<u8>, plaintext: Seq<u8>) -> Seq<u8>;

/// The plaintext that AES-256-GCM recovers from `sealed` under `key` and
/// `nonce`, or `None` where the tag does not verify.
pub uninterp spec fn aes256gcm_opened(key: Seq<u8>, nonce: Seq<u8>, sealed: Seq<u8>) -> Option<
    Seq<u8>,
>;

/// The padded base64 text of `data` in the standard alphabet.
pub uninterp spec fn base64_standard(data: Seq<u8>) -> Seq<char>;

/// The bytes that `text` stands for in padded standard base64, or `None`
/// where it is not such a text.
pub uninterp spec fn base64_standard_decoded(text: Seq<char>) -> Option<Seq<u8>>;

/// The text that a lossy reading makes of bytes that are not valid UTF-8.
pub uninterp spec fn utf8_lossy_repaired(bytes: Seq<u8>) -> Seq<char>;

/// The longest plaintext, in bytes, that AES-GCM seals.
pub const AES_GCM_MAX_PLAINTEXT: u64 = 0x10_0000_0000;

/// The characters of padded standard base64.
pub open spec fn is_base64_char(c: char) -> bool {
    ||| 'A' <= c <= 'Z'
    ||| 'a' <= c <= 'z'
    ||| '0' <= c <= '9'
    ||| c == '+'
    ||| c == '/'
    ||| c == '='
}

/// Calls `blake3::hash` and copies the digest out of the returned `Hash`.
///
/// Assumed: the digest depends on the input bytes alone.
#[verifier::external_body]
pub(crate) fn blake3_digest(input: &[u8]) -> (digest: [u8; 32])
    ensures
        digest@ == blake3_hash(input@),
{
    *blake3::hash(input).as_bytes()
}

/// Calls `Aead::encrypt` of `aes_gcm::Aes256Gcm` on a bare message.
///
/// Assumed: the cipher refuses exactly the plaintexts longer than its
/// `P_MAX`; what it returns otherwise depends on key, nonce and plaintext
/// alone, is 16 bytes longer than the plaintext, and is opened again to that
/// plaintext by `Aead::decrypt` under the same key and nonce. The caller keeps
/// the sum of the two lengths within `usize`, which the cipher computes
/// before it looks at the plaintext.
#[verifier::external_body]
pub(crate) fn aes256gcm_encrypt(key: &[u8; 32], nonce: &[u8; 12], plaintext: &[u8]) -> (sealed:
    Result<Vec<u8>, aes_gcm::Error>)
    requires
        plaintext@.len() + 16 <= usize::MAX,
    ensures
        sealed is Ok <==> plaintext@.len() <= AES_GCM_MAX_PLAINTEXT,
        sealed matches Ok(c) ==> {
            &&& c@ == aes256gcm_sealed(key@, nonce@, plaintext@)
            &&& c@.len() == plaintext@.len() + 16
            &&& aes256gcm_opened(key@, nonce@, c@) == Some(plaintext@)
        },
{
    let cipher = aes_gcm::Aes256Gcm::new(aes_gcm::Key::<aes_gcm::Aes256Gcm>::from_slice(key));
    cipher.encrypt(aes_gcm::Nonce::from_slice(nonce), plaintext)
}

/// Calls `Aead::decrypt` of `aes_gcm::Aes256Gcm` on a bare message.
///
/// Assumed: whether the tag verifies, and the plaintext if it does, depend on
/// key, nonce and message alone; a message shorter than the 16-byte tag is
/// always refused, and a plaintext is 16 bytes shorter than its message.
#[verifier::external_body]
pub(crate) fn aes256gcm_decrypt(key: &[u8; 32], nonce: &[u8; 12], sealed: &[u8]) -> (opened:
    Result<Vec<u8>, aes_gcm::Error>)
    ensures
        opened matches Ok(p) ==> aes256gcm_opened(key@, nonce@, sealed@) == Some(p@) && p@.len()
            + 16 == sealed@.len(),
        opened is Err ==> aes256gcm_opened(key@, nonce@, sealed@) is None,
        sealed@.len() < 16 ==> opened is Err,
{
    let cipher = aes_gcm::Aes256Gcm::new(aes_gcm::Key::<aes_gcm::Aes256Gcm>::from_slice(key));
    cipher.decrypt(aes_gcm::Nonce::from_slice(nonce), sealed)
}

/// Calls `Engine::encode` of `base64::engine::general_purpose::STANDARD`.
///
/// Assumed: the text depends on the bytes alone, holds only characters of the
/// standard alphabet and the padding sign, and is decoded back to the same
/// bytes by `Engine::decode` of the same engine. The caller keeps the encoded
/// length, four characters for every three bytes begun, within `usize`.
#[verifier::external_body]
pub(crate) fn base64_encode(data: &[u8]) -> (text: String)
    requires
        ((data@.len() + 2) / 3) * 4 <= usize::MAX,
    ensures
        text@ == base64_standard(data@),
        base64_standard_decoded(text@) == Some(data@),
        forall|i: int| 0 <= i < text@.len() ==> is_base64_char(#[trigger] text@[i]),
{
    base64::engine::general_purpose::STANDARD.encode(data)
}

/// Calls `Engine::decode` of `base64::engine::general_purpose::STANDARD`.
///
/// Assumed: whether the text is accepted, and the bytes if it is, depend on
/// the text alone.
#[verifier::external_body]
pub(crate) fn base64_decode(text: &str) -> (data: Result<Vec<u8>, base64::DecodeError>)
    ensures
        data matches Ok(d) ==> base64_standard_decoded(text@) == Some(d@),
        data is Err ==> base64_standard_decoded(text@) is None,
{
    base64::engine::general_purpose::STANDARD.decode(text)
}

/// Calls `TryRngCore::try_fill_bytes` of `rand_core::OsRng` on twelve bytes.
///
/// Nothing is assumed of the bytes that come back.
#[verifier::external_body]
pub(crate) fn os_random_nonce() -> (nonce: Result<[u8; 12], rand_core::OsError>) {
    let mut bytes = [0u8; 12];
    rand_core::OsRng.try_fill_bytes(&mut bytes)?;
    Ok(bytes)
}

/// Calls `String::from_utf8_lossy` and takes ownership of what it returns.
///
/// Assumed: valid UTF-8 is read as it stands; what becomes of other bytes
/// depends on those bytes alone.
#[verifier::external_body]
pub(crate) fn string_from_utf8_lossy(bytes: &[u8]) -> (text: String)
    ensures
        text@ == (if valid_utf8(bytes@) {
            decode_utf8(bytes@)
        } else {
            utf8_lossy_repaired(bytes@)
        }),
{
    String::from_utf8_lossy(bytes).into_owned()
}

} // verus!
