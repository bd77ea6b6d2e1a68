//! The error taxonomy of the broker.

use vstd::prelude::*;

verus! {

/// Failures of the codecs and of the authenticated-encryption construct.
#[derive(Clone, Copy, Debug, PartialEq, Eq, Structural)]
pub enum CryptoError {
    /// Text that is not a canonical base64 encoding.
    Base64,
    /// The envelope's MAC does not match the one recomputed over iv and
    /// ciphertext; the ciphertext was never handed to the cipher.
    Integrity,
    /// The decrypted block stream carries malformed PKCS7 padding.
    Padding,
    /// An IV whose length is not the cipher's block size.
    BadIvLength,
    /// Public-key material that does not parse as a DER SPKI RSA key.
    KeyImport,
    /// The asymmetric wrap operation itself failed.
    Asymmetric,
}

/// Failures of the per-user key vault.
#[derive(Clone, Copy, Debug, PartialEq, Eq, Structural)]
pub enum VaultError {
    /// The presence gate refused to release the entry.
    PresenceDenied,
    /// No entry is stored under the requested user id.
    NotFound,
    /// A stored blob is not a wrapping produced by the vault's key capability.
    WrapFormat,
    /// The recovered secret is not valid UTF-8.
    Encoding,
}

/// Failures of the framed JSON protocol; each is fatal to the session.
#[derive(Clone, Copy, Debug, PartialEq, Eq, Structural)]
pub enum ProtocolError {
    /// A frame body that is not well-formed JSON.
    Json,
    /// The envelope lacks the required string field `appId`.
    MissingAppId,
    /// The envelope lacks the required `message` field.
    MissingMessage,
    /// The `message` field does not carry a sealed envelope's four fields.
    BadEnvelope,
    /// The decrypted payload is not a well-formed inbound command.
    BadPayload,
}

/// Failures of command dispatch that end the session.
#[derive(Clone, Copy, Debug, PartialEq, Eq, Structural)]
pub enum DispatchError {
    /// The command requires a `userId` and none was supplied.
    MissingUserId,
}

/// Any fatal failure while handling one frame.
#[derive(Clone, Copy, Debug, PartialEq, Eq, Structural)]
pub enum SessionError {
    Protocol(ProtocolError),
    Crypto(CryptoError),
    Dispatch(DispatchError),
}

} // verus!
