//! Encrypted records: a nonce and the ciphertext sealed under it, and the
//! base64 line that stores both.

use vstd::prelude::*;
use vstd::slice::{slice_subrange, slice_to_vec};
use crate::error::{DecodeFailure, EncodeFailure};
use crate::key::SymmetricKey;
use crate::primitives::{
    aes256gcm_decrypt,
    aes256gcm_encrypt,
    aes256gcm_opened,
    aes256gcm_sealed,
    base64_decode,
    base64_encode,
    base64_standard,
    base64_standard_decoded,
    is_base64_char,
    AES_GCM_MAX_PLAINTEXT,
};

verus! {

/// The length of a nonce in bytes.
pub const NONCE_LEN: usize = 12;

/// The length of the authentication tag that ends a ciphertext.
pub const TAG_LEN: usize = 16;

/// One sealed entry: the nonce it was sealed under, and the ciphertext with
/// its tag.
#[derive(Clone, Debug, PartialEq, Eq)]
pub struct EncryptedRecord {
    pub nonce: [u8; 12],
    pub ciphertext: Vec<u8>,
}

/// What an `EncryptedRecord` holds, as plain values.
pub struct RecordView {
    pub nonce: Seq<u8>,
    pub ciphertext: Seq<u8>,
}

impl View for EncryptedRecord {
    type V = RecordView;

    open spec fn view(&self) -> RecordView {
        RecordView { nonce: self.nonce@, ciphertext: self.ciphertext@ }
    }
}

/// The bytes of a record: the nonce, then the ciphertext.
pub open spec fn record_bytes(record: RecordView) -> Seq<u8> {
    record.nonce + record.ciphertext
}

/// The record that `data` holds: its first twelve bytes are the nonce, the
/// rest is the ciphertext. Fewer than twelve bytes hold none.
pub open spec fn split_record(data: Seq<u8>) -> Option<RecordView> {
    if data.len() < NONCE_LEN {
        None
    } else {
        Some(
            RecordView {
                nonce: data.subrange(0, NONCE_LEN as int),
                ciphertext: data.subrange(NONCE_LEN as int, data.len() as int),
            },
        )
    }
}

/// The line that stores a record.
pub open spec fn line_of_record(record: RecordView) -> Seq<char> {
    base64_standard(record_bytes(record))
}

/// The record that a line stores, if it stores one.
pub open spec fn record_of_line(line: Seq<char>) -> Option<RecordView> {
    match base64_standard_decoded(line) {
        Some(data) => split_record(data),
        None => None,
    }
}

/// Whether the bytes of a record can be written as one line on this machine.
pub open spec fn line_fits(record: RecordView) -> bool {
    ((record.nonce.len() + record.ciphertext.len() + 2) / 3) * 4 <= usize::MAX
}

/// Whether a plaintext of `len` bytes can be sealed and stored: the cipher
/// takes it, and the line of the record fits this machine.
pub open spec fn sealable(len: nat) -> bool {
    len <= AES_GCM_MAX_PLAINTEXT && ((len + NONCE_LEN + TAG_LEN + 2) / 3) * 4 <= usize::MAX
}

/// The record that sealing makes of a plaintext.
pub open spec fn seal_spec(plaintext: Seq<u8>, key: Seq<u8>, nonce: Seq<u8>) -> Option<RecordView> {
    if sealable(plaintext.len()) {
        Some(RecordView { nonce, ciphertext: aes256gcm_sealed(key, nonce, plaintext) })
    } else {
        None
    }
}

/// The plaintext of a record under `key`, or `None` where its tag does not
/// verify.
pub open spec fn open_spec(record: RecordView, key: Seq<u8>) -> Option<Seq<u8>> {
    aes256gcm_opened(key, record.nonce, record.ciphertext)
}

/// Cutting the bytes of a record gives the record back.
pub proof fn lemma_split_record_bytes(record: RecordView)
    requires
        record.nonce.len() == NONCE_LEN,
    ensures
        split_record(record_bytes(record)) == Some(record),
{
    let data = record_bytes(record);
    assert(data.subrange(0, NONCE_LEN as int) =~= record.nonce);
    assert(data.subrange(NONCE_LEN as int, data.len() as int) =~= record.ciphertext);
}

/// Decides whether a plaintext of `len` bytes can be sealed and stored.
pub fn can_seal(len: usize) -> (fits: bool)
    ensures
        fits == sealable(len as nat),
{
    let around: usize = NONCE_LEN + TAG_LEN + 2;
    if len as u64 > AES_GCM_MAX_PLAINTEXT {
        false
    } else if len > usize::MAX - around {
        false
    } else {
        (len + around) / 3 <= usize::MAX / 4
    }
}

impl EncryptedRecord {
    /// Seals `plaintext` under `key` and `nonce`.
    ///
    /// Fails exactly on a plaintext that cannot be sealed and stored. The
    /// record that comes back opens to the plaintext under the same key.
    pub fn seal(plaintext: &[u8], key: &SymmetricKey, nonce: [u8; 12]) -> (sealed: Result<
        EncryptedRecord,
        EncodeFailure,
    >)
        ensures
            match sealed {
                Ok(record) => {
                    &&& seal_spec(plaintext@, key@, nonce@) == Some(record@)
                    &&& open_spec(record@, key@) == Some(plaintext@)
                    &&& record@.ciphertext.len() == plaintext@.len() + TAG_LEN
                    &&& line_fits(record@)
                },
                Err(e) => e == EncodeFailure::Cipher && seal_spec(plaintext@, key@, nonce@) is None,
            },
    {
        if !can_seal(plaintext.len()) {
            return Err(EncodeFailure::Cipher);
        }
        match aes256gcm_encrypt(&key.bytes, &nonce, plaintext) {
            Ok(ciphertext) => Ok(EncryptedRecord { nonce, ciphertext }),
            Err(_) => Err(EncodeFailure::Cipher),
        }
    }

    /// Opens the record under `key`.
    ///
    /// Fails exactly where the tag does not verify.
    pub fn open(&self, key: &SymmetricKey) -> (opened: Result<Vec<u8>, DecodeFailure>)
        ensures
            match opened {
                Ok(plaintext) => open_spec(self@, key@) == Some(plaintext@),
                Err(e) => e == DecodeFailure::AuthenticationFailure && open_spec(self@, key@)
                    is None,
            },
            self@.ciphertext.len() < TAG_LEN ==> opened is Err,
    {
        match aes256gcm_decrypt(&key.bytes, &self.nonce, self.ciphertext.as_slice()) {
            Ok(plaintext) => Ok(plaintext),
            Err(_) => Err(DecodeFailure::AuthenticationFailure),
        }
    }

    /// The bytes of the record: the nonce, then the ciphertext.
    pub fn to_bytes(&self) -> (data: Vec<u8>)
        ensures
            data@ == record_bytes(self@),
    {
        let mut data = slice_to_vec(self.nonce.as_slice());
        data.extend_from_slice(self.ciphertext.as_slice());
        data
    }

    /// Cuts `data` into nonce and ciphertext. Fewer than twelve bytes hold
    /// no record.
    pub fn from_bytes(data: &[u8]) -> (record: Option<EncryptedRecord>)
        ensures
            match record {
                Some(r) => split_record(data@) == Some(r@),
                None => split_record(data@) is None,
            },
    {
        if data.len() < NONCE_LEN {
            return None;
        }
        let mut nonce = [0u8; 12];
        let mut i: usize = 0;
        while i < NONCE_LEN
            invariant
                i <= NONCE_LEN <= data@.len(),
                forall|k: int| 0 <= k < i ==> nonce@[k] == data@[k],
            decreases NONCE_LEN - i,
        {
            nonce[i] = data[i];
            i = i + 1;
        }
        let ciphertext = slice_to_vec(slice_subrange(data, NONCE_LEN, data.len()));
        assert(nonce@ =~= data@.subrange(0, NONCE_LEN as int));
        Some(EncryptedRecord { nonce, ciphertext })
    }

    /// Writes the record as one line of base64.
    pub fn to_line(&self) -> (line: String)
        requires
            line_fits(self@),
        ensures
            line@ == line_of_record(self@),
            record_of_line(line@) == Some(self@),
            forall|i: int| 0 <= i < line@.len() ==> is_base64_char(#[trigger] line@[i]),
    {
        let data = self.to_bytes();
        proof {
            lemma_split_record_bytes(self@);
        }
        base64_encode(data.as_slice())
    }

    /// Reads a line as a record.
    ///
    /// Fails exactly where the line is not base64 or holds fewer than twelve
    /// bytes.
    pub fn from_line(line: &str) -> (record: Result<EncryptedRecord, DecodeFailure>)
        ensures
            match record {
                Ok(r) => record_of_line(line@) == Some(r@),
                Err(e) => e == DecodeFailure::MalformedEncoding && record_of_line(line@) is None,
            },
    {
        match base64_decode(line) {
            Ok(data) => match EncryptedRecord::from_bytes(data.as_slice()) {
                Some(record) => Ok(record),
                None => Err(DecodeFailure::MalformedEncoding),
            },
            Err(_) => Err(DecodeFailure::MalformedEncoding),
        }
    }
}

} // verus!
