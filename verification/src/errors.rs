//! The errors of the library.

use vstd::prelude::*;

verus! {

/// The key-encapsulation backend could not be set up, or gave no usable key
/// material for the role that was asked for.
#[derive(Debug, Clone, Copy, PartialEq, Eq, Structural)]
pub enum ErrorGeneratingSecureKeys {
    ErrorSendingData,
}

/// A key pair does not have the sizes of the chosen algorithm.
#[derive(Debug, Clone, Copy, PartialEq, Eq, Structural)]
pub enum ErrorGeneratingKeyPair {
    ErrorSendingData,
}

/// The key message of the handshake could not be produced.
#[derive(Debug, Clone, Copy, PartialEq, Eq, Structural)]
pub enum WritePKError {
    WritePKError,
}

/// The key message of the peer was refused.
#[derive(Debug, Clone, Copy, PartialEq, Eq, Structural)]
pub enum ReadPKError {
    ReadPKError,
}

/// An encapsulation does not have the sizes of the chosen algorithm.
#[derive(Debug, Clone, Copy, PartialEq, Eq, Structural)]
pub enum OQSEncryptError {
    OQSEncryptError,
}

/// A decapsulated secret does not have the size of the chosen algorithm, or
/// came at a point of the handshake where none is expected.
#[derive(Debug, Clone, Copy, PartialEq, Eq, Structural)]
pub enum OQSDecryptError {
    OQSDecryptError,
}

/// A handshake was begun on a channel that cannot begin one in that role.
#[derive(Debug, Clone, Copy, PartialEq, Eq, Structural)]
pub enum HandShakeError {
    HandShakeError,
}

/// The channel cannot send: it is not ready.
#[derive(Debug, Clone, Copy, PartialEq, Eq, Structural)]
pub enum ErrorSendingData {
    ErrorSendingData,
}

/// Why the cipher engine refused its input.
#[derive(Debug, Clone, Copy, PartialEq, Eq, Structural)]
pub enum CryptoError {
    /// The key is not 32 bytes or the initialization vector not 16 bytes long.
    KeyMaterialInvalid,
    /// The ciphertext does not decrypt to correctly padded blocks.
    PaddingInvalid,
    /// The digest that ends the decrypted message is not that of the bytes
    /// before it.
    IntegrityMismatch,
}

/// Encryption failed.
#[derive(Debug, Clone, Copy, PartialEq, Eq, Structural)]
pub enum EncryptError {
    EncryptionError(CryptoError),
}

/// Decryption failed.
#[derive(Debug, Clone, Copy, PartialEq, Eq, Structural)]
pub enum DecryptError {
    DecryptionError(CryptoError),
}

/// A received frame was refused before decryption.
#[derive(Debug, Clone, Copy, PartialEq, Eq, Structural)]
pub enum ErrorParsingCiphertext {
    /// The length prefix, the type tag and the number of bytes do not fit
    /// together.
    Malformed,
    /// The digest carried by the frame is not that of its ciphertext.
    IntegrityMismatch,
}

/// Receiving a message failed.
#[derive(Debug, Clone, Copy, PartialEq, Eq, Structural)]
pub enum ErrorReceivingData {
    /// The channel cannot receive: it is not ready.
    ErrorReceivingData,
    /// The frame was refused.
    Parsing(ErrorParsingCiphertext),
    /// The payload of the frame could not be decrypted.
    Decryption(DecryptError),
}

impl ErrorGeneratingSecureKeys {
    /// The text that describes the error.
    pub open spec fn spec_message(&self) -> Seq<char> {
        "Error generating keys for communication"@
    }

    /// The text that describes the error.
    pub fn message(&self) -> (text: String)
        ensures
            text@ == self.spec_message(),
    {
        "Error generating keys for communication".to_owned()
    }
}

impl ErrorGeneratingKeyPair {
    /// The text that describes the error.
    pub open spec fn spec_message(&self) -> Seq<char> {
        "Error generating keys for communication"@
    }

    /// The text that describes the error.
    pub fn message(&self) -> (text: String)
        ensures
            text@ == self.spec_message(),
    {
        "Error generating keys for communication".to_owned()
    }
}

impl WritePKError {
    /// The text that describes the error.
    pub open spec fn spec_message(&self) -> Seq<char> {
        "Error writing Public Key to peer"@
    }

    /// The text that describes the error.
    pub fn message(&self) -> (text: String)
        ensures
            text@ == self.spec_message(),
    {
        "Error writing Public Key to peer".to_owned()
    }
}

impl ReadPKError {
    /// The text that describes the error.
    pub open spec fn spec_message(&self) -> Seq<char> {
        "Error reading Public Key to peer"@
    }

    /// The text that describes the error.
    pub fn message(&self) -> (text: String)
        ensures
            text@ == self.spec_message(),
    {
        "Error reading Public Key to peer".to_owned()
    }
}

impl OQSEncryptError {
    /// The text that describes the error.
    pub open spec fn spec_message(&self) -> Seq<char> {
        "Error encrypting data with OQS, probably Shared Secret"@
    }

    /// The text that describes the error.
    pub fn message(&self) -> (text: String)
        ensures
            text@ == self.spec_message(),
    {
        "Error encrypting data with OQS, probably Shared Secret".to_owned()
    }
}

impl OQSDecryptError {
    /// The text that describes the error.
    pub open spec fn spec_message(&self) -> Seq<char> {
        "Error decrypting data with OQS, probably Shared Secret"@
    }

    /// The text that describes the error.
    pub fn message(&self) -> (text: String)
        ensures
            text@ == self.spec_message(),
    {
        "Error decrypting data with OQS, probably Shared Secret".to_owned()
    }
}

impl HandShakeError {
    /// The text that describes the error.
    pub open spec fn spec_message(&self) -> Seq<char> {
        "Error stablishing connection to peer"@
    }

    /// The text that describes the error.
    pub fn message(&self) -> (text: String)
        ensures
            text@ == self.spec_message(),
    {
        "Error stablishing connection to peer".to_owned()
    }
}

impl ErrorSendingData {
    /// The text that describes the error.
    pub open spec fn spec_message(&self) -> Seq<char> {
        "Error sending data to peer"@
    }

    /// The text that describes the error.
    pub fn message(&self) -> (text: String)
        ensures
            text@ == self.spec_message(),
    {
        "Error sending data to peer".to_owned()
    }
}

impl ErrorReceivingData {
    /// The text that describes the error.
    pub open spec fn spec_message(&self) -> Seq<char> {
        "Error receiving data from peer"@
    }

    /// The text that describes the error.
    pub fn message(&self) -> (text: String)
        ensures
            text@ == self.spec_message(),
    {
        "Error receiving data from peer".to_owned()
    }
}

impl EncryptError {
    /// The text that describes the error.
    pub open spec fn spec_message(&self) -> Seq<char> {
        "Error while trying to encrypt data"@
    }

    /// The text that describes the error.
    pub fn message(&self) -> (text: String)
        ensures
            text@ == self.spec_message(),
    {
        "Error while trying to encrypt data".to_owned()
    }
}

impl DecryptError {
    /// The text that describes the error.
    pub open spec fn spec_message(&self) -> Seq<char> {
        "Error while trying to decrypt data"@
    }

    /// The text that describes the error.
    pub fn message(&self) -> (text: String)
        ensures
            text@ == self.spec_message(),
    {
        "Error while trying to decrypt data".to_owned()
    }
}

impl ErrorParsingCiphertext {
    /// The text that describes the error.
    pub open spec fn spec_message(&self) -> Seq<char> {
        "Error parsing ciphertext from peer"@
    }

    /// The text that describes the error.
    pub fn message(&self) -> (text: String)
        ensures
            text@ == self.spec_message(),
    {
        "Error parsing ciphertext from peer".to_owned()
    }
}

impl CryptoError {
    /// The text that describes the error.
    pub open spec fn spec_message(&self) -> Seq<char> {
        match self {
            CryptoError::KeyMaterialInvalid => "Key or initialization vector of the wrong length"@,
            CryptoError::PaddingInvalid => "Invalid padding in decrypted data"@,
            CryptoError::IntegrityMismatch => "Decrypted data does not match its digest"@,
        }
    }

    /// The text that describes the error.
    pub fn message(&self) -> (text: String)
        ensures
            text@ == self.spec_message(),
    {
        match self {
            CryptoError::KeyMaterialInvalid => {
                "Key or initialization vector of the wrong length".to_owned()
            },
            CryptoError::PaddingInvalid => "Invalid padding in decrypted data".to_owned(),
            CryptoError::IntegrityMismatch => "Decrypted data does not match its digest".to_owned(),
        }
    }
}

} // verus!
