//! The shape of encrypted data at rest. The ciphers themselves are
//! outside collaborators; only their data model and error shape live
//! here.

use vstd::prelude::*;

verus! {

/// Why an encryption or decryption call failed.
pub enum CryptoError {
    EncryptionFailed(String),
    DecryptionFailed(String),
    KeyDerivationFailed(String),
    InvalidFormat,
}

impl CryptoError {
    /// The failure spelled out for the caller.
    pub fn message(&self) -> (r: String)
        ensures
            match self {
                CryptoError::EncryptionFailed(m) => r@ == "Encryption failed: "@ + m@,
                CryptoError::DecryptionFailed(m) => r@ == "Decryption failed: "@ + m@,
                CryptoError::KeyDerivationFailed(m) => r@ == "Key derivation failed: "@ + m@,
                CryptoError::InvalidFormat => r@ == "Invalid data format"@,
            },
    {
        match self {
            CryptoError::EncryptionFailed(m) => {
                let mut s = String::from_str("Encryption failed: ");
                s.append(m.as_str());
                s
            },
            CryptoError::DecryptionFailed(m) => {
                let mut s = String::from_str("Decryption failed: ");
                s.append(m.as_str());
                s
            },
            CryptoError::KeyDerivationFailed(m) => {
                let mut s = String::from_str("Key derivation failed: ");
                s.append(m.as_str());
                s
            },
            CryptoError::InvalidFormat => String::from_str("Invalid data format"),
        }
    }
}

/// An encrypted payload: ciphertext, nonce and key-derivation salt, each
/// carried as base64 text.
pub struct EncryptedData {
    pub ciphertext: String,
    pub nonce: String,
    pub salt: String,
}

} // verus!
