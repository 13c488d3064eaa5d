//! The operation surface of the engine: encrypt a plaintext to a list
//! of recipient fingerprints, and decrypt a message with the store's
//! private keys.
//!
//! Both functions work on byte buffers and plain values; reading and
//! writing files is the caller's business, so a failed operation never
//! leaves partial output behind.

use vstd::prelude::*;

use crate::error::CryptoError;
use crate::matcher::{find_session_key, spec_match, spec_target, MatchModel};
use crate::pgp::{
    decrypt_body, encrypt_stream_armored, encrypt_stream_binary, read_pkesks, spec_body_plaintext,
    spec_is_armored, spec_pkesks,
};
use crate::resolver::{resolve_recipients, spec_resolve, ResolveModel};
use crate::store::KeyStore;

verus! {

/// What a successful decryption hands back: the plaintext, the
/// fingerprint of the certificate whose key unlocked the message, and
/// the symmetric algorithm the body was encrypted with.
#[derive(Debug)]
pub struct DecryptOutput {
    pub plaintext: Vec<u8>,
    pub fingerprint: String,
    pub algorithm: u8,
}

/// Encrypts `plaintext` to every requested recipient: resolves the
/// fingerprints against the store at the reference time, then composes
/// the layered encryption stream — optionally armored — over the
/// qualifying components. Resolution failures come back exactly as the
/// resolver's model says; once resolution succeeds, the produced
/// message is armored exactly when asked, carries one key-encryption
/// packet per qualifying component, in order, and a stream failure is
/// an I/O error.
pub fn encrypt_bytes(
    plaintext: &[u8],
    recipient_fingerprints: &Vec<String>,
    store: &KeyStore,
    armor: bool,
    now: u64,
) -> (r: Result<Vec<u8>, CryptoError>)
    requires
        now <= i64::MAX as u64,
    ensures
        match spec_resolve(store@, recipient_fingerprints.deep_view(), now) {
            ResolveModel::Resolved { keys } => match r {
                Ok(v) => spec_is_armored(v@) == armor && (match spec_pkesks(v@) {
                    Some(ps) => ps.len() == keys.len() && (forall|i: int|
                        0 <= i < ps.len() ==> ps[i].key_id == keys[i].key_id),
                    None => false,
                }),
                Err(e) => e matches CryptoError::IoError { .. },
            },
            ResolveModel::NotFound { fingerprint } => r matches Err(
                CryptoError::RecipientNotFound { fingerprint: f },
            ) && f@ == fingerprint,
            ResolveModel::ParseFailed { fingerprint } => r matches Err(
                CryptoError::ParseError { detail },
            ) && detail@ == fingerprint,
            ResolveModel::NoValidSubkey { fingerprint } => r matches Err(
                CryptoError::RecipientHasNoValidSubkey { fingerprint: f },
            ) && f@ == fingerprint,
            ResolveModel::NoRecipients => r matches Err(CryptoError::NoValidRecipients),
        },
{
    let keys = match resolve_recipients(store, recipient_fingerprints, now) {
        Ok(keys) => keys,
        Err(e) => {
            return Err(e);
        },
    };
    let produced = if armor {
        encrypt_stream_armored(&keys, plaintext)
    } else {
        encrypt_stream_binary(&keys, plaintext)
    };
    match produced {
        Some(v) => Ok(v),
        None => Err(
            CryptoError::IoError { detail: String::from_str("building the encryption stream failed") },
        ),
    }
}

/// Decrypts `message` with the store's private keys: reads the
/// message's key-encryption packets, finds a verified session key —
/// honoring an optional target fingerprint — and decrypts the body
/// under the stream's integrity protection. Matching failures come
/// back exactly as the matcher's model says; a body that fails its
/// integrity check is an I/O error, never silently a success.
pub fn decrypt_bytes(
    message: &[u8],
    store: &KeyStore,
    passphrase: &str,
    target_fingerprint: Option<&String>,
) -> (r: Result<DecryptOutput, CryptoError>)
    ensures
        match spec_pkesks(message@) {
            None => r matches Err(CryptoError::ParseError { .. }),
            Some(ps) => match spec_match(store@, ps, passphrase@, spec_target(target_fingerprint)) {
                MatchModel::SelectedMissing => r matches Err(CryptoError::SelectedKeyNotInStore),
                MatchModel::ParseFailed { fingerprint } => r matches Err(
                    CryptoError::ParseError { detail },
                ) && detail@ == fingerprint,
                MatchModel::WrongPassphrase { fingerprint } => r matches Err(
                    CryptoError::WrongPassphrase { fingerprint: f },
                ) && f@ == fingerprint,
                MatchModel::NotAddressed => r matches Err(
                    CryptoError::MessageNotAddressedToSelectedKey,
                ),
                MatchModel::NoUsableKey => r matches Err(CryptoError::NoUsableKeyFound),
                MatchModel::Found { algorithm, key, fingerprint } => match r {
                    Ok(o) => o.fingerprint@ == fingerprint && o.algorithm == algorithm
                        && spec_body_plaintext(message@, algorithm, key) == Some(o.plaintext@),
                    Err(e) => (e matches CryptoError::IoError { .. }) && spec_body_plaintext(
                        message@,
                        algorithm,
                        key,
                    ) is None,
                },
            },
        },
{
    let pkesks = match read_pkesks(message) {
        None => {
            return Err(CryptoError::ParseError { detail: String::from_str("malformed message") });
        },
        Some(p) => p,
    };
    let found = match find_session_key(&pkesks, store, passphrase, target_fingerprint) {
        Ok(m) => m,
        Err(e) => {
            return Err(e);
        },
    };
    match decrypt_body(message, found.session.algorithm, found.session.key.as_slice()) {
        Some(plaintext) => Ok(
            DecryptOutput {
                plaintext,
                fingerprint: found.fingerprint,
                algorithm: found.session.algorithm,
            },
        ),
        None => Err(
            CryptoError::IoError {
                detail: String::from_str("body decryption or integrity check failed"),
            },
        ),
    }
}

} // verus!
