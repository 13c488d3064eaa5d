//! Plain data carried between the engine and its callers: key metadata,
//! operation results, and the application configuration.

use vstd::prelude::*;

verus! {

/// The shape of key pair a certificate holds.
#[derive(Debug, Clone, PartialEq, Eq, Structural)]
pub enum KeyType {
    Rsa2048,
    Rsa4096,
    Ed25519,
    Curve25519,
}

impl KeyType {
    /// A human-readable label for the key type.
    pub fn label(&self) -> (r: String)
        ensures
            self is Rsa2048 ==> r@ == "RSA 2048"@,
            self is Rsa4096 ==> r@ == "RSA 4096"@,
            self is Ed25519 ==> r@ == "Ed25519"@,
            self is Curve25519 ==> r@ == "Curve25519"@,
    {
        match self {
            KeyType::Rsa2048 => String::from_str("RSA 2048"),
            KeyType::Rsa4096 => String::from_str("RSA 4096"),
            KeyType::Ed25519 => String::from_str("Ed25519"),
            KeyType::Curve25519 => String::from_str("Curve25519"),
        }
    }
}

/// The user identity bound to a certificate.
#[derive(Debug, Clone)]
pub struct UserId {
    pub name: String,
    pub email: String,
    pub comment: Option<String>,
}

/// Descriptive record of a stored key, shown in key listings.
#[derive(Debug, Clone)]
pub struct KeyMetadata {
    pub fingerprint: String,
    pub key_type: KeyType,
    pub user_id: UserId,
    pub created_at: String,
    pub expires_at: Option<String>,
    pub is_private: bool,
    pub is_favorite: bool,
    pub tags: Vec<String>,
}

/// What a successful encryption reports back.
#[derive(Debug, Clone)]
pub struct EncryptionResult {
    pub output_file: String,
    pub size: u64,
    pub recipients: Vec<String>,
    pub signed: bool,
}

/// An embedded signature seen while decrypting; accepted without
/// cryptographic verification in the current contract.
#[derive(Debug, Clone)]
pub struct SignatureInfo {
    pub signer: String,
    pub fingerprint: String,
    pub created_at: String,
    pub valid: bool,
}

/// What a successful decryption reports back.
#[derive(Debug, Clone)]
pub struct DecryptionResult {
    pub output_file: String,
    pub size: u64,
    pub decrypted_with: String,
    pub signatures: Vec<SignatureInfo>,
}

/// Application configuration: where the key database lives.
#[derive(Debug, Clone)]
pub struct AppConfig {
    pub db_path: Option<String>,
}

impl AppConfig {
    /// The configuration used when no configuration file exists.
    pub fn default() -> (r: Self)
        ensures
            r.db_path is None,
    {
        Self { db_path: None }
    }
}

/// Maps a requested key-type name to the type actually generated:
/// only an RSA-4096 request changes the default of Ed25519.
pub open spec fn spec_key_type_for(requested: Seq<char>) -> KeyType {
    if requested == "rsa4096"@ {
        KeyType::Rsa4096
    } else {
        KeyType::Ed25519
    }
}

/// Chooses the key type recorded for a newly generated key pair.
pub fn key_type_for(requested: &str) -> (r: KeyType)
    ensures
        r == spec_key_type_for(requested@),
{
    if str_eq(requested, "rsa4096") {
        KeyType::Rsa4096
    } else {
        KeyType::Ed25519
    }
}

/// How long a key generated now should stay valid, given an optional
/// expiry instant: the distance to the expiry, or zero when the expiry
/// is not in the future.
pub open spec fn spec_validity_seconds(expiry: Option<i64>, now: i64) -> Option<u64> {
    match expiry {
        Some(ts) => if ts > now {
            Some((ts - now) as u64)
        } else {
            Some(0u64)
        },
        None => None,
    }
}

/// Computes the validity period for key generation from an optional
/// expiry timestamp and the current time, both in seconds since the epoch.
pub fn validity_seconds(expiry: Option<i64>, now: i64) -> (r: Option<u64>)
    ensures
        r == spec_validity_seconds(expiry, now),
{
    match expiry {
        Some(ts) => {
            if ts > now {
                let d: i128 = ts as i128 - now as i128;
                Some(d as u64)
            } else {
                Some(0u64)
            }
        },
        None => None,
    }
}

/// Character-for-character string equality.
pub fn str_eq(a: &str, b: &str) -> (r: bool)
    ensures
        r == (a@ == b@),
{
    let a_len = a.unicode_len();
    let b_len = b.unicode_len();
    if a_len != b_len {
        assert(a@ != b@) by {
            assert(a@.len() != b@.len());
        }
        return false;
    }
    let mut i: usize = 0;
    while i < a_len
        invariant
            i <= a_len,
            a_len == a@.len(),
            b_len == b@.len(),
            a_len == b_len,
            forall|j: int| 0 <= j < i ==> a@[j] == b@[j],
        decreases a_len - i,
    {
        if a.get_char(i) != b.get_char(i) {
            assert(a@ != b@);
            return false;
        }
        i += 1;
    }
    assert(a@ =~= b@);
    true
}

} // verus!
