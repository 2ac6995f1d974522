//! The ways in which building and reading a record can fail, and the text
//! that each failure is shown as.

use vstd::prelude::*;
use vstd::string::*;

verus! {

/// Why a stored line could not be read as an entry.
#[derive(Clone, Copy, Debug, PartialEq, Eq, Structural)]
pub enum DecodeFailure {
    /// The line is not base64, or too short to hold a nonce. Such a line is
    /// passed over when a diary is read.
    MalformedEncoding,
    /// The tag does not verify: the password is wrong or the data was
    /// damaged. Reading a diary stops here.
    AuthenticationFailure,
}

/// Why no record could be built.
#[derive(Clone, Copy, Debug, PartialEq, Eq, Structural)]
pub enum EncodeFailure {
    /// The operating system handed out no random bytes for the nonce.
    RandomSource,
    /// The cipher refused the plaintext: it is longer than AES-GCM seals, or
    /// than a line on this machine can hold.
    Cipher,
}

impl DecodeFailure {
    /// The text that the failure is shown as.
    pub open spec fn message_spec(self) -> Seq<char> {
        match self {
            DecodeFailure::MalformedEncoding => "base64解码失败"@,
            DecodeFailure::AuthenticationFailure => "密码错误或数据损坏"@,
        }
    }

    /// The text that the failure is shown as.
    pub fn message(&self) -> (text: String)
        ensures
            text@ == self.message_spec(),
    {
        match self {
            DecodeFailure::MalformedEncoding => String::from_str("base64解码失败"),
            DecodeFailure::AuthenticationFailure => String::from_str("密码错误或数据损坏"),
        }
    }
}

impl EncodeFailure {
    /// The text that the failure is shown as.
    pub open spec fn message_spec(self) -> Seq<char> {
        match self {
            EncodeFailure::RandomSource => "生成随机数失败"@,
            EncodeFailure::Cipher => "aead::Error"@,
        }
    }

    /// The text that the failure is shown as.
    pub fn message(&self) -> (text: String)
        ensures
            text@ == self.message_spec(),
    {
        match self {
            EncodeFailure::RandomSource => String::from_str("生成随机数失败"),
            EncodeFailure::Cipher => String::from_str("aead::Error"),
        }
    }
}

} // verus!
