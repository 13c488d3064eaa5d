//! The error taxonomy of the engine.
//!
//! The first seven variants are recoverable, user-facing outcomes of
//! recipient resolution and session-key matching; `IoError` and
//! `ParseError` are hard operation failures.

use vstd::prelude::*;

verus! {

/// Why an encryption or decryption operation failed.
#[derive(Debug, Clone, PartialEq, Eq)]
pub enum CryptoError {
    /// A requested recipient fingerprint is not present in the store.
    RecipientNotFound { fingerprint: String },
    /// A requested recipient's certificate has no live, unrevoked
    /// transport-encryption component.
    RecipientHasNoValidSubkey { fingerprint: String },
    /// Recipient resolution produced an empty aggregate list.
    NoValidRecipients,
    /// A target fingerprint was given but no private key record carries it.
    SelectedKeyNotInStore,
    /// A key id in the message matched a candidate secret key, but the
    /// secret material did not unlock with the given passphrase.
    WrongPassphrase { fingerprint: String },
    /// A target fingerprint was given, but no key-encryption packet of the
    /// message yielded a verified session key with its candidates.
    MessageNotAddressedToSelectedKey,
    /// No target was given and no candidate key yielded a verified
    /// session key.
    NoUsableKeyFound,
    /// Reading, writing, or body decryption failed mid-stream.
    IoError { detail: String },
    /// Malformed certificate or message bytes.
    ParseError { detail: String },
}

impl CryptoError {
    /// A user-facing description of the failure.
    pub fn message(&self) -> (r: String)
        ensures
            match self {
                CryptoError::RecipientNotFound { fingerprint } => r@ == "Recipient key not found: "@
                    + fingerprint@,
                CryptoError::RecipientHasNoValidSubkey { fingerprint } => r@ == "Key "@
                    + fingerprint@ + " has no valid encryption subkeys"@,
                CryptoError::NoValidRecipients => r@ == "No valid recipients found"@,
                CryptoError::SelectedKeyNotInStore => r@ == "Selected key not present in store"@,
                CryptoError::WrongPassphrase { fingerprint } => r@ == "Wrong passphrase for key "@
                    + fingerprint@,
                CryptoError::MessageNotAddressedToSelectedKey => r@
                    == "Message not addressed to selected key"@,
                CryptoError::NoUsableKeyFound => r@ == "No usable key found"@,
                CryptoError::IoError { detail } => r@ == "I/O error: "@ + detail@,
                CryptoError::ParseError { detail } => r@ == "Parse error: "@ + detail@,
            },
    {
        match self {
            CryptoError::RecipientNotFound { fingerprint } => {
                String::from_str("Recipient key not found: ").concat(fingerprint.as_str())
            },
            CryptoError::RecipientHasNoValidSubkey { fingerprint } => {
                String::from_str("Key ").concat(fingerprint.as_str()).concat(
                    " has no valid encryption subkeys",
                )
            },
            CryptoError::NoValidRecipients => String::from_str("No valid recipients found"),
            CryptoError::SelectedKeyNotInStore => {
                String::from_str("Selected key not present in store")
            },
            CryptoError::WrongPassphrase { fingerprint } => {
                String::from_str("Wrong passphrase for key ").concat(fingerprint.as_str())
            },
            CryptoError::MessageNotAddressedToSelectedKey => {
                String::from_str("Message not addressed to selected key")
            },
            CryptoError::NoUsableKeyFound => String::from_str("No usable key found"),
            CryptoError::IoError { detail } => {
                String::from_str("I/O error: ").concat(detail.as_str())
            },
            CryptoError::ParseError { detail } => {
                String::from_str("Parse error: ").concat(detail.as_str())
            },
        }
    }
}

} // verus!
