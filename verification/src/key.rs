//! Password-derived symmetric keys.

use vstd::prelude::*;
use vstd::utf8::encode_utf8;
use crate::primitives::{blake3_digest, blake3_hash};

verus! {

/// A 256-bit key for the record cipher.
#[derive(Clone, Copy)]
pub struct SymmetricKey {
    pub bytes: [u8; 32],
}

impl View for SymmetricKey {
    type V = Seq<u8>;

    open spec fn view(&self) -> Seq<u8> {
        self.bytes@
    }
}

/// The key that belongs to a password: the BLAKE3 digest of its UTF-8 bytes.
pub open spec fn derive_key_spec(password: Seq<char>) -> Seq<u8> {
    blake3_hash(encode_utf8(password))
}

/// Derives the key for `password`. Every string is accepted, the empty one too.
pub fn derive_key(password: &str) -> (key: SymmetricKey)
    ensures
        key@ == derive_key_spec(password@),
        key@.len() == 32,
{
    SymmetricKey { bytes: blake3_digest(password.as_bytes()) }
}

/// Derivation is a function of the password: the same password gives the
/// same key, whenever and wherever it is derived.
pub proof fn lemma_derive_key_deterministic(first: Seq<char>, second: Seq<char>)
    requires
        first == second,
    ensures
        derive_key_spec(first) == derive_key_spec(second),
{
}

} // verus!
