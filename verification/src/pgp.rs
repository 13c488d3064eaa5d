//! The trusted boundary around `sequoia-openpgp`.
//!
//! Certificates, key-encryption packets and unlocked key material are
//! opaque to the verifier; this module models each by the plain values
//! the engine's logic reads (key ids, capability flags, serialized
//! packet bytes) and by uninterpreted names for what the cryptographic
//! calls return. Every other module reasons only over these contracts.

use vstd::prelude::*;

verus! {

use sequoia_openpgp::armor::Kind;
use sequoia_openpgp::cert::amalgamation::ValidAmalgamation;
use sequoia_openpgp::cert::CertBuilder;
use sequoia_openpgp::crypto::Decryptor;
use sequoia_openpgp::crypto::Password;
use sequoia_openpgp::packet::PKESK;
use sequoia_openpgp::parse::Parse;
use sequoia_openpgp::parse::PacketParser;
use sequoia_openpgp::parse::PacketParserResult;
use sequoia_openpgp::policy::StandardPolicy;
use sequoia_openpgp::types::PublicKeyAlgorithm;
use sequoia_openpgp::types::RevocationStatus;
use sequoia_openpgp::Cert;
use sequoia_openpgp::Packet;
use sequoia_openpgp::PacketPile;
use std::time::Duration;
use std::time::SystemTime;
use sequoia_openpgp::serialize::MarshalInto;
use sequoia_openpgp::serialize::Serialize;
use sequoia_openpgp::serialize::stream::{Armorer, Encryptor2, LiteralWriter, Message, Recipient};
use std::io::Read;
use std::io::Write;

#[verifier::external_type_specification]
#[verifier::external_body]
pub struct ExCert(sequoia_openpgp::Cert);

#[verifier::external_type_specification]
#[verifier::external_body]
pub struct ExPkesk(sequoia_openpgp::packet::PKESK);

#[verifier::external_type_specification]
#[verifier::external_body]
pub struct ExKeyPair(sequoia_openpgp::crypto::KeyPair);

/// Holds one public key component for the encryptor. The generic
/// parameters of `sequoia_openpgp::packet::Key` carry foreign trait
/// bounds the verifier cannot declare, so the key is hidden whole.
#[verifier::external_body]
pub struct RecipientKey {
    key: sequoia_openpgp::packet::Key<
        sequoia_openpgp::packet::key::PublicParts,
        sequoia_openpgp::packet::key::UnspecifiedRole,
    >,
}

/// Whether `sequoia_openpgp::Cert::from_bytes` accepts the text.
pub uninterp spec fn spec_parses(text: Seq<char>) -> bool;

/// The certificate's primary fingerprint as contiguous upper-case hex,
/// as `Fingerprint::to_hex` renders it.
pub uninterp spec fn spec_fingerprint(text: Seq<char>) -> Seq<char>;

/// The certificate's policy-valid key components at the reference time,
/// in enumeration order: primary key first, then subkeys in certificate
/// order, each reduced to the plain facts the resolver reads.
pub uninterp spec fn spec_enc_keys(text: Seq<char>, now: u64) -> Seq<KeyInfoModel>;

/// The key ids of the certificate's components that carry secret key
/// material, primary first, then subkeys in certificate order.
pub uninterp spec fn spec_secret_key_ids(text: Seq<char>) -> Seq<Seq<u8>>;

/// Whether the secret material of the component at `key_index` (in
/// `spec_secret_key_ids` order) is stored unprotected and yields a
/// usable key pair directly.
pub uninterp spec fn spec_unlock_plain(text: Seq<char>, key_index: int) -> bool;

/// Whether the secret material of the component at `key_index`
/// decrypts with the passphrase into a usable key pair.
pub uninterp spec fn spec_unlock_passphrase(
    text: Seq<char>,
    key_index: int,
    passphrase: Seq<char>,
) -> bool;

/// Whether the component at `key_index` unlocks with the passphrase:
/// an empty passphrase uses the material as stored, any other
/// passphrase must decrypt it.
pub open spec fn spec_unlock_ok(text: Seq<char>, key_index: int, passphrase: Seq<char>) -> bool {
    if passphrase.len() == 0 {
        spec_unlock_plain(text, key_index)
    } else {
        spec_unlock_passphrase(text, key_index, passphrase)
    }
}

/// The raw payload that the unlocked component's asymmetric
/// decryption recovers from the serialized key-encryption packet,
/// before any interpretation of its bytes.
pub uninterp spec fn spec_esk_plain(
    pkesk: Seq<u8>,
    text: Seq<char>,
    key_index: int,
    passphrase: Seq<char>,
) -> Option<Seq<u8>>;

/// The message's key-encryption packets in message order, each as its
/// recipient key id and its serialized bytes; `None` if the message
/// bytes do not parse as an OpenPGP packet sequence.
pub uninterp spec fn spec_pkesks(message: Seq<u8>) -> Option<Seq<PkeskModel>>;

/// The plain facts of a certificate that key listings report.
pub uninterp spec fn spec_cert_facts(text: Seq<char>, now: u64) -> CertFactsModel;

/// The certificate re-armored as a public key block.
pub uninterp spec fn spec_armored_public(text: Seq<char>) -> Seq<char>;

/// Whether re-armoring the certificate's public parts succeeds; it
/// depends on the certificate text alone.
pub uninterp spec fn spec_armor_ok(text: Seq<char>) -> bool;

/// Whether the bytes are an ASCII-armored message: they begin with an
/// armor header line rather than a binary packet tag.
pub uninterp spec fn spec_is_armored(message: Seq<u8>) -> bool;

/// The RFC 3339 rendering of an epoch timestamp, if representable.
pub uninterp spec fn spec_rfc3339(seconds: i64) -> Option<Seq<char>>;

/// The plain facts of one key component, evaluated under the standard
/// policy at a reference time.
#[derive(Debug, Clone)]
pub struct KeyInfo {
    /// The component's key id (eight bytes for a v4 key).
    pub key_id: Vec<u8>,
    /// The public-key algorithm is one the linked cryptographic
    /// backend implements.
    pub supported: bool,
    /// The component was alive at the reference time.
    pub alive: bool,
    /// The component is definitely revoked.
    pub revoked: bool,
    /// The component is flagged for transport encryption.
    pub for_transport_encryption: bool,
}

/// The mathematical model of a [`KeyInfo`].
pub ghost struct KeyInfoModel {
    pub key_id: Seq<u8>,
    pub supported: bool,
    pub alive: bool,
    pub revoked: bool,
    pub for_transport_encryption: bool,
}

impl View for KeyInfo {
    type V = KeyInfoModel;

    open spec fn view(&self) -> KeyInfoModel {
        KeyInfoModel {
            key_id: self.key_id@,
            supported: self.supported,
            alive: self.alive,
            revoked: self.revoked,
            for_transport_encryption: self.for_transport_encryption,
        }
    }
}

impl DeepView for KeyInfo {
    type V = KeyInfoModel;

    open spec fn deep_view(&self) -> KeyInfoModel {
        self.view()
    }
}

/// A parsed certificate, paired with the text it was parsed from.
pub struct ParsedCert {
    raw: String,
    fingerprint: String,
    cert: sequoia_openpgp::Cert,
}

/// The mathematical model of a [`ParsedCert`].
pub ghost struct ParsedCertModel {
    pub raw: Seq<char>,
    pub fingerprint: Seq<char>,
}

impl View for ParsedCert {
    type V = ParsedCertModel;

    closed spec fn view(&self) -> ParsedCertModel {
        ParsedCertModel { raw: self.raw@, fingerprint: self.fingerprint@ }
    }
}

impl DeepView for ParsedCert {
    type V = ParsedCertModel;

    open spec fn deep_view(&self) -> ParsedCertModel {
        self.view()
    }
}

impl ParsedCert {
    /// The primary fingerprint, as contiguous upper-case hex.
    pub fn fingerprint(&self) -> (r: &String)
        ensures
            r@ == self@.fingerprint,
    {
        &self.fingerprint
    }
}

/// A policy-valid key component: its plain facts beside the opaque key
/// material the encryptor wraps session keys to.
pub struct EncKey {
    /// The component's plain facts.
    pub info: KeyInfo,
    key: RecipientKey,
}

impl View for EncKey {
    type V = KeyInfoModel;

    closed spec fn view(&self) -> KeyInfoModel {
        self.info@
    }
}

impl EncKey {
    /// The component's plain facts.
    pub fn info(&self) -> (r: &KeyInfo)
        ensures
            r@ == self@,
    {
        &self.info
    }
}

impl DeepView for EncKey {
    type V = KeyInfoModel;

    open spec fn deep_view(&self) -> KeyInfoModel {
        self.view()
    }
}

/// One key-encryption packet of a message: its recipient key id, its
/// serialized bytes, and the opaque packet itself.
pub struct Pkesk {
    key_id: Vec<u8>,
    bytes: Vec<u8>,
    packet: PKESK,
}

/// The mathematical model of a [`Pkesk`].
pub ghost struct PkeskModel {
    pub key_id: Seq<u8>,
    pub bytes: Seq<u8>,
}

impl View for Pkesk {
    type V = PkeskModel;

    closed spec fn view(&self) -> PkeskModel {
        PkeskModel { key_id: self.key_id@, bytes: self.bytes@ }
    }
}

impl DeepView for Pkesk {
    type V = PkeskModel;

    open spec fn deep_view(&self) -> PkeskModel {
        self.view()
    }
}

impl Pkesk {
    /// The key id this packet addresses.
    pub fn key_id(&self) -> (r: &Vec<u8>)
        ensures
            r@ == self@.key_id,
    {
        &self.key_id
    }
}

/// Secret key material turned into a usable key pair, remembering which
/// certificate text, component and passphrase produced it.
pub struct UnlockedKey {
    pair: sequoia_openpgp::crypto::KeyPair,
    src: String,
    key_index: usize,
    passphrase: String,
}

/// The mathematical model of an [`UnlockedKey`].
pub ghost struct UnlockedKeyModel {
    pub src: Seq<char>,
    pub key_index: int,
    pub passphrase: Seq<char>,
}

impl View for UnlockedKey {
    type V = UnlockedKeyModel;

    closed spec fn view(&self) -> UnlockedKeyModel {
        UnlockedKeyModel {
            src: self.src@,
            key_index: self.key_index as int,
            passphrase: self.passphrase@,
        }
    }
}

/// A recovered session key: the symmetric algorithm identifier and the
/// key bytes.
#[derive(Debug, Clone)]
pub struct SessionKey {
    pub algorithm: u8,
    pub key: Vec<u8>,
}

/// The mathematical model of a [`SessionKey`].
pub ghost struct SessionKeyModel {
    pub algorithm: u8,
    pub key: Seq<u8>,
}

impl View for SessionKey {
    type V = SessionKeyModel;

    open spec fn view(&self) -> SessionKeyModel {
        SessionKeyModel { algorithm: self.algorithm, key: self.key@ }
    }
}

/// The plain facts of a whole certificate that key listings report.
#[derive(Debug, Clone)]
pub struct CertFacts {
    /// The certificate carries secret key material.
    pub is_tsk: bool,
    /// The primary key uses EdDSA.
    pub primary_is_eddsa: bool,
    /// The primary key's creation time, seconds since the epoch.
    pub primary_creation: u64,
    /// The primary key's expiration time under the standard policy at
    /// the reference time, if any.
    pub primary_expiration: Option<u64>,
    /// The first user id packet's text, if any.
    pub first_userid: Option<String>,
}

/// The mathematical model of [`CertFacts`].
pub ghost struct CertFactsModel {
    pub is_tsk: bool,
    pub primary_is_eddsa: bool,
    pub primary_creation: u64,
    pub primary_expiration: Option<u64>,
    pub first_userid: Option<Seq<char>>,
}

impl View for CertFacts {
    type V = CertFactsModel;

    open spec fn view(&self) -> CertFactsModel {
        CertFactsModel {
            is_tsk: self.is_tsk,
            primary_is_eddsa: self.primary_is_eddsa,
            primary_creation: self.primary_creation,
            primary_expiration: self.primary_expiration,
            first_userid: match self.first_userid {
                Some(ref s) => Some(s@),
                None => None,
            },
        }
    }
}

/// Relies on `sequoia_openpgp::Cert::from_bytes` to parse certificate
/// text, and on `Cert::fingerprint` / `Fingerprint::to_hex` for the
/// primary fingerprint.
#[verifier::external_body]
pub(crate) fn parse_cert(text: &str) -> (r: Option<ParsedCert>)
    ensures
        r is Some <==> spec_parses(text@),
        match r {
            Some(c) => c@.raw == text@ && c@.fingerprint == spec_fingerprint(text@),
            None => true,
        },
{
    let cert = Cert::from_bytes(text.as_bytes()).ok()?;
    let fingerprint = cert.fingerprint().to_hex();
    Some(ParsedCert { raw: text.to_string(), fingerprint, cert })
}

/// Relies on `ValidCert::keys` under `StandardPolicy` at the reference
/// time: the iterator yields the policy-valid components, primary key
/// first; each field of `KeyInfo` is one accessor of the amalgamation
/// (`pk_algo().is_supported`, `alive`, `revocation_status`,
/// `for_transport_encryption`, `keyid`).
#[verifier::external_body]
pub(crate) fn encryption_keys(c: &ParsedCert, now: u64) -> (r: Vec<EncKey>)
    requires
        now <= i64::MAX as u64,
    ensures
        r.deep_view() == spec_enc_keys(c@.raw, now),
{
    let t = SystemTime::UNIX_EPOCH + Duration::from_secs(now);
    let p = StandardPolicy::at(t);
    let Ok(vc) = c.cert.with_policy(&p, t) else { return Vec::new() };
    vc.keys().map(|ka| EncKey {
        info: KeyInfo {
            key_id: ka.key().keyid().as_bytes().to_vec(),
            supported: ka.key().pk_algo().is_supported(),
            alive: ka.alive().is_ok(),
            revoked: matches!(ka.revocation_status(), RevocationStatus::Revoked(_)),
            for_transport_encryption: ka.for_transport_encryption(),
        },
        key: RecipientKey { key: ka.key().clone() },
    }).collect()
}

/// Relies on `Cert::keys().secret()`: the iterator yields exactly the
/// components carrying secret material, primary key first, then subkeys
/// in certificate order; each is reduced to its key id.
#[verifier::external_body]
pub(crate) fn secret_key_ids(c: &ParsedCert) -> (r: Vec<Vec<u8>>)
    ensures
        r.deep_view() == spec_secret_key_ids(c@.raw),
{
    c.cert.keys().secret().map(|ka| ka.key().keyid().as_bytes().to_vec()).collect()
}

/// Relies on `Key::into_keypair`, which turns the component's secret
/// material into a key pair exactly when that material is stored
/// unprotected. The produced pair records an empty passphrase: only
/// an empty passphrase leads here, and on material that
/// `into_keypair` accepts, `decrypt_secret` would refuse every
/// passphrase, so no pair with the same model can arise otherwise.
#[verifier::external_body]
fn unlock_unprotected(c: &ParsedCert, key_index: usize) -> (r: Option<UnlockedKey>)
    ensures
        r is Some <==> spec_unlock_plain(c@.raw, key_index as int),
        match r {
            Some(k) => k@ == (UnlockedKeyModel {
                src: c@.raw,
                key_index: key_index as int,
                passphrase: Seq::<char>::empty(),
            }),
            None => true,
        },
{
    let ka = c.cert.keys().secret().nth(key_index)?;
    let pair = ka.key().clone().into_keypair().ok()?;
    Some(UnlockedKey { pair, src: c.raw.clone(), key_index, passphrase: String::new() })
}

/// Relies on `Key::decrypt_secret` followed by `Key::into_keypair`:
/// the component's secret material, decrypted with the passphrase.
#[verifier::external_body]
fn unlock_with_passphrase(c: &ParsedCert, key_index: usize, passphrase: &str) -> (r: Option<
    UnlockedKey,
>)
    ensures
        r is Some <==> spec_unlock_passphrase(c@.raw, key_index as int, passphrase@),
        match r {
            Some(k) => k@ == (UnlockedKeyModel {
                src: c@.raw,
                key_index: key_index as int,
                passphrase: passphrase@,
            }),
            None => true,
        },
{
    let ka = c.cert.keys().secret().nth(key_index)?;
    let password = Password::from(passphrase);
    let pair = ka.key().clone().decrypt_secret(&password).ok()?.into_keypair().ok()?;
    Some(UnlockedKey { pair, src: c.raw.clone(), key_index, passphrase: passphrase.to_string() })
}

/// Attempts to unlock the secret material of the component at
/// `key_index`: an empty passphrase uses the material as stored, any
/// other passphrase must decrypt it.
pub(crate) fn unlock_key(c: &ParsedCert, key_index: usize, passphrase: &str) -> (r: Option<
    UnlockedKey,
>)
    ensures
        r is Some <==> spec_unlock_ok(c@.raw, key_index as int, passphrase@),
        match r {
            Some(k) => k@ == (UnlockedKeyModel {
                src: c@.raw,
                key_index: key_index as int,
                passphrase: passphrase@,
            }),
            None => true,
        },
{
    if passphrase.unicode_len() == 0 {
        let r = unlock_unprotected(c, key_index);
        proof {
            assert(passphrase@ =~= Seq::<char>::empty());
        }
        r
    } else {
        unlock_with_passphrase(c, key_index, passphrase)
    }
}

/// Relies on `crypto::Decryptor::decrypt` on a `KeyPair`: the raw
/// asymmetric decryption of the packet's encrypted session key, with
/// no interpretation of the recovered bytes. Parsing those bytes into
/// an algorithm, key and checksum is the library's own, verified work.
#[verifier::external_body]
pub(crate) fn decrypt_esk(p: &Pkesk, k: &mut UnlockedKey) -> (r: Option<Vec<u8>>)
    ensures
        final(k)@ == old(k)@,
        match r {
            Some(v) => spec_esk_plain(p@.bytes, old(k)@.src, old(k)@.key_index, old(k)@.passphrase)
                == Some(v@),
            None => spec_esk_plain(p@.bytes, old(k)@.src, old(k)@.key_index, old(k)@.passphrase)
                is None,
        },
{
    match &p.packet {
        PKESK::V3(p3) => Some(k.pair.decrypt(p3.esk(), None).ok()?.to_vec()),
        _ => None,
    }
}

/// The symmetric key size, in bytes, that `SymmetricAlgorithm::key_size`
/// gives for the algorithm octet, or nothing for an octet it rejects.
pub open spec fn spec_sym_key_size(algorithm: u8) -> Option<int> {
    if algorithm == 1 || algorithm == 3 || algorithm == 4 || algorithm == 7 || algorithm == 11 {
        Some(16int)
    } else if algorithm == 2 || algorithm == 8 || algorithm == 12 {
        Some(24int)
    } else if algorithm == 9 || algorithm == 10 || algorithm == 13 {
        Some(32int)
    } else {
        None
    }
}

/// The byte size of the symmetric key for an algorithm octet.
pub fn sym_key_size(algorithm: u8) -> (r: Option<usize>)
    ensures
        match r {
            Some(n) => spec_sym_key_size(algorithm) == Some(n as int),
            None => spec_sym_key_size(algorithm) is None,
        },
{
    if algorithm == 1 || algorithm == 3 || algorithm == 4 || algorithm == 7 || algorithm == 11 {
        Some(16)
    } else if algorithm == 2 || algorithm == 8 || algorithm == 12 {
        Some(24)
    } else if algorithm == 9 || algorithm == 10 || algorithm == 13 {
        Some(32)
    } else {
        None
    }
}

/// The sum of the key bytes, the quantity the session-key checksum
/// protects.
pub open spec fn spec_key_sum(key: Seq<u8>) -> int
    decreases key.len(),
{
    if key.len() == 0 {
        0
    } else {
        spec_key_sum(key.drop_last()) + key.last()
    }
}

/// The session key held in a decrypted encrypted-session-key payload:
/// an algorithm octet, the key bytes, and a trailing two-octet
/// checksum that must equal the key bytes' sum modulo 65536; the key
/// length must be the algorithm's. Anything else is a failed recovery.
pub open spec fn spec_session_key_of(plain: Seq<u8>) -> Option<SessionKeyModel> {
    if plain.len() < 3 {
        None
    } else {
        let algorithm = plain[0];
        let key = plain.subrange(1, plain.len() - 2);
        let checksum = plain[plain.len() - 2] * 256 + plain[plain.len() - 1];
        match spec_sym_key_size(algorithm) {
            None => None,
            Some(n) => if key.len() != n {
                None
            } else if spec_key_sum(key) % 65536 != checksum {
                None
            } else {
                Some(SessionKeyModel { algorithm, key })
            },
        }
    }
}

/// The session key that decrypting a key-encryption packet with the
/// unlocked component yields: the asymmetric decryption's payload,
/// parsed and checksum-validated.
pub open spec fn spec_recovered(
    pkesk: Seq<u8>,
    text: Seq<char>,
    key_index: int,
    passphrase: Seq<char>,
) -> Option<SessionKeyModel> {
    match spec_esk_plain(pkesk, text, key_index, passphrase) {
        Some(plain) => spec_session_key_of(plain),
        None => None,
    }
}

/// Parses a decrypted encrypted-session-key payload: algorithm octet,
/// key bytes, and the two-octet checksum that validates the recovery.
pub fn session_key_from_esk(plain: &Vec<u8>) -> (r: Option<SessionKey>)
    ensures
        match r {
            Some(sk) => spec_session_key_of(plain@) == Some(sk@),
            None => spec_session_key_of(plain@) is None,
        },
{
    let n = plain.len();
    if n < 3 {
        return None;
    }
    let algorithm = plain[0];
    let expected = match sym_key_size(algorithm) {
        None => {
            return None;
        },
        Some(e) => e,
    };
    if n - 3 != expected {
        return None;
    }
    let mut key: Vec<u8> = Vec::new();
    let mut sum: u32 = 0;
    let mut i: usize = 1;
    proof {
        assert(plain@.subrange(1, 1int) =~= Seq::<u8>::empty());
    }
    while i < n - 2
        invariant
            1 <= i <= n - 2,
            n == plain@.len(),
            3 <= n <= 35,
            key@ == plain@.subrange(1, i as int),
            sum == spec_key_sum(plain@.subrange(1, i as int)),
            sum <= 255 * (i - 1),
        decreases n - i,
    {
        proof {
            assert(plain@.subrange(1, i + 1).drop_last() =~= plain@.subrange(1, i as int));
            assert(plain@.subrange(1, i + 1).last() == plain@[i as int]);
        }
        key.push(plain[i]);
        sum = sum + plain[i] as u32;
        i += 1;
    }
    let checksum: u32 = (plain[n - 2] as u32) * 256 + (plain[n - 1] as u32);
    if sum % 65536 != checksum {
        proof {
            assert(plain@.subrange(1, n - 2) == plain@.subrange(1, plain@.len() - 2));
        }
        return None;
    }
    proof {
        assert(plain@.subrange(1, n - 2) == plain@.subrange(1, plain@.len() - 2));
    }
    Some(SessionKey { algorithm, key })
}

/// Attempts session-key recovery from a key-encryption packet with an
/// unlocked component: decrypts the encrypted session key and accepts
/// the result only when its shape and checksum validate — a failed
/// checksum is an id collision, not an error.
pub(crate) fn try_recover(p: &Pkesk, k: &mut UnlockedKey) -> (r: Option<SessionKey>)
    ensures
        final(k)@ == old(k)@,
        match r {
            Some(sk) => spec_recovered(p@.bytes, old(k)@.src, old(k)@.key_index, old(k)@.passphrase)
                == Some(sk@),
            None => spec_recovered(p@.bytes, old(k)@.src, old(k)@.key_index, old(k)@.passphrase)
                is None,
        },
{
    let plain = match decrypt_esk(p, k) {
        Some(v) => v,
        None => {
            return None;
        },
    };
    session_key_from_esk(&plain)
}

/// Relies on `PacketPile::from_bytes` (dearmoring transparently) and on
/// `PKESK::recipient` and its `MarshalInto` serialization: the returned
/// packets are the message's key-encryption packets in message order.
#[verifier::external_body]
pub(crate) fn read_pkesks(message: &[u8]) -> (r: Option<Vec<Pkesk>>)
    ensures
        match r {
            Some(v) => spec_pkesks(message@) == Some(v.deep_view()),
            None => spec_pkesks(message@) is None,
        },
{
    let pile = sequoia_openpgp::PacketPile::from_bytes(message).ok()?;
    let mut v = Vec::new();
    for p in pile.descendants() {
        if let sequoia_openpgp::Packet::PKESK(k) = p {
            let bytes = k.to_vec().ok()?;
            v.push(Pkesk { key_id: k.recipient().as_bytes().to_vec(), bytes, packet: k.clone() });
        }
    }
    Some(v)
}

/// A packet of no interest to body decryption.
pub const EVENT_OTHER: u8 = 0;

/// An encrypted container packet that decrypted with the session key.
pub const EVENT_SEIP_OK: u8 = 1;

/// An encrypted container packet that rejected the session key.
pub const EVENT_SEIP_BAD: u8 = 2;

/// A literal-data packet; the event carries its body.
pub const EVENT_LITERAL: u8 = 3;

/// A valid integrity-protection trailer.
pub const EVENT_MDC_OK: u8 = 4;

/// An integrity-protection trailer that failed verification.
pub const EVENT_MDC_BAD: u8 = 5;

/// One packet seen while walking a message body with a session key,
/// reduced to plain values: what it was, at which nesting depth, and
/// its body for a literal-data packet.
#[derive(Debug, Clone)]
pub struct BodyEvent {
    pub kind: u8,
    pub depth: i64,
    pub bytes: Vec<u8>,
}

/// The mathematical model of a [`BodyEvent`].
pub ghost struct BodyEventModel {
    pub kind: u8,
    pub depth: int,
    pub bytes: Seq<u8>,
}

impl View for BodyEvent {
    type V = BodyEventModel;

    open spec fn view(&self) -> BodyEventModel {
        BodyEventModel { kind: self.kind, depth: self.depth as int, bytes: self.bytes@ }
    }
}

impl DeepView for BodyEvent {
    type V = BodyEventModel;

    open spec fn deep_view(&self) -> BodyEventModel {
        self.view()
    }
}

/// The packets a walk of the message sees with the session key in
/// hand, in order, each reduced to a [`BodyEventModel`]; `None` if the
/// message bytes do not parse to the end.
pub uninterp spec fn spec_body_events(message: Seq<u8>, algorithm: u8, key: Seq<u8>) -> Option<
    Seq<BodyEventModel>,
>;

/// The event kind for an encrypted container, from whether it
/// accepted the session key.
fn seip_event(ok: bool) -> (r: u8)
    ensures
        r == (if ok {
            EVENT_SEIP_OK
        } else {
            EVENT_SEIP_BAD
        }),
{
    if ok {
        EVENT_SEIP_OK
    } else {
        EVENT_SEIP_BAD
    }
}

/// The event kind for an integrity trailer, from its validity.
fn mdc_event(ok: bool) -> (r: u8)
    ensures
        r == (if ok {
            EVENT_MDC_OK
        } else {
            EVENT_MDC_BAD
        }),
{
    if ok {
        EVENT_MDC_OK
    } else {
        EVENT_MDC_BAD
    }
}

/// Relies on `PacketParser` (dearmoring transparently): the walk
/// reports each encrypted container (`PacketParser::decrypt` accepted
/// or rejected the session key), literal-data packet, and integrity
/// trailer (`MDC::valid`) as a plain event with its nesting depth
/// (`recursion_depth`), deciding nothing itself; a parse failure or
/// truncation anywhere is `None`.
#[verifier::external_body]
#[allow(deprecated)]
pub(crate) fn body_events(message: &[u8], algorithm: u8, key: &[u8]) -> (r: Option<Vec<BodyEvent>>)
    ensures
        match r {
            Some(v) => spec_body_events(message@, algorithm, key@) == Some(v.deep_view()),
            None => spec_body_events(message@, algorithm, key@) is None,
        },
{
    let sk = sequoia_openpgp::crypto::SessionKey::from(key.to_vec());
    let mut es = Vec::new();
    let mut ppr = PacketParser::from_bytes(message).ok()?;
    while let PacketParserResult::Some(mut pp) = ppr {
        let mut bytes = Vec::new();
        let kind = match &pp.packet {
            Packet::SEIP(_) => seip_event(pp.decrypt(algorithm.into(), &sk).is_ok()),
            Packet::Literal(_) => { Read::read_to_end(&mut pp, &mut bytes).ok()?; EVENT_LITERAL },
            Packet::MDC(m) => mdc_event(m.valid()),
            _ => EVENT_OTHER,
        };
        es.push(BodyEvent { kind, depth: pp.recursion_depth() as i64, bytes });
        ppr = pp.recurse().ok()?.1;
    }
    Some(es)
}

/// What the event sequence from position `i` on yields, carrying the
/// state so far: the depth of the one decrypted container, the literal
/// body found inside it, and whether a valid integrity trailer was
/// seen. A container or trailer that rejected the key, a second
/// container, a second literal, or a literal outside the decrypted
/// container rejects the whole stream; at the end, the literal body is
/// the plaintext only if the container decrypted and the trailer
/// verified.
pub open spec fn spec_accept_events(
    es: Seq<BodyEventModel>,
    i: int,
    seip_depth: Option<int>,
    literal: Option<Seq<u8>>,
    mdc_seen: bool,
) -> Option<Seq<u8>>
    decreases es.len() - i,
{
    if i < 0 || i >= es.len() {
        match (seip_depth, literal) {
            (Some(_), Some(p)) => if mdc_seen {
                Some(p)
            } else {
                None
            },
            _ => None,
        }
    } else {
        let e = es[i];
        if e.kind == EVENT_SEIP_BAD || e.kind == EVENT_MDC_BAD {
            None
        } else if e.kind == EVENT_SEIP_OK {
            if seip_depth is Some {
                None
            } else {
                spec_accept_events(es, i + 1, Some(e.depth), literal, mdc_seen)
            }
        } else if e.kind == EVENT_LITERAL {
            match seip_depth {
                None => None,
                Some(d) => if literal is Some || e.depth <= d {
                    None
                } else {
                    spec_accept_events(es, i + 1, seip_depth, Some(e.bytes), mdc_seen)
                },
            }
        } else if e.kind == EVENT_MDC_OK {
            spec_accept_events(es, i + 1, seip_depth, literal, true)
        } else {
            spec_accept_events(es, i + 1, seip_depth, literal, mdc_seen)
        }
    }
}

/// The literal data recovered by decrypting the message body with the
/// given symmetric algorithm and session key, if exactly one literal
/// packet stands inside the decrypted container and the stream's
/// integrity protection verifies.
pub open spec fn spec_body_plaintext(message: Seq<u8>, algorithm: u8, key: Seq<u8>) -> Option<
    Seq<u8>,
> {
    match spec_body_events(message, algorithm, key) {
        Some(es) => spec_accept_events(es, 0, None, None, false),
        None => None,
    }
}

/// Decrypts the message body with the session key: walks the packets
/// and accepts exactly one literal packet inside the one decrypted
/// container, under a verified integrity trailer. Truncation, an
/// integrity failure, or a literal outside the encrypted container is
/// never silently a success.
pub(crate) fn decrypt_body(message: &[u8], algorithm: u8, key: &[u8]) -> (r: Option<Vec<u8>>)
    ensures
        match r {
            Some(v) => spec_body_plaintext(message@, algorithm, key@) == Some(v@),
            None => spec_body_plaintext(message@, algorithm, key@) is None,
        },
{
    let mut rest = match body_events(message, algorithm, key) {
        None => {
            return None;
        },
        Some(v) => v,
    };
    let ghost all = rest.deep_view();
    let ghost i: int = 0;
    let mut seip_depth: Option<i64> = None;
    let mut literal: Option<Vec<u8>> = None;
    let mut mdc_seen: bool = false;
    proof {
        assert(rest.deep_view() =~= all.skip(0));
    }
    while rest.len() > 0
        invariant
            0 <= i <= all.len(),
            rest.deep_view() == all.skip(i),
            spec_body_events(message@, algorithm, key@) == Some(all),
            spec_accept_events(all, 0, None, None, false) == spec_accept_events(
                all,
                i,
                match seip_depth {
                    Some(d) => Some(d as int),
                    None => None,
                },
                match literal {
                    Some(v) => Some(v@),
                    None => None,
                },
                mdc_seen,
            ),
        decreases rest.len(),
    {
        let ghost rest_old = rest@;
        let ghost rest_dv_old = rest.deep_view();
        proof {
            crate::lemma_vec_deep_view(&rest);
            assert(all.skip(i).len() == all.len() - i);
        }
        let e = rest.remove(0);
        proof {
            crate::lemma_vec_deep_view(&rest);
            assert(e.deep_view() == all.skip(i)[0]);
            assert(all.skip(i)[0] == all[i]);
            assert forall|t: int| 0 <= t < rest.deep_view().len() implies rest.deep_view()[t]
                == all.skip(i + 1)[t] by {
                assert(rest@[t] == rest_old[t + 1]);
                assert(rest_dv_old[t + 1] == rest_old[t + 1].deep_view());
                assert(all.skip(i)[t + 1] == all[i + 1 + t]);
            }
            assert(rest.deep_view() =~= all.skip(i + 1));
        }
        if e.kind == EVENT_SEIP_BAD || e.kind == EVENT_MDC_BAD {
            return None;
        } else if e.kind == EVENT_SEIP_OK {
            if seip_depth.is_some() {
                return None;
            }
            seip_depth = Some(e.depth);
        } else if e.kind == EVENT_LITERAL {
            match seip_depth {
                None => {
                    return None;
                },
                Some(d) => {
                    if literal.is_some() || e.depth <= d {
                        return None;
                    }
                    literal = Some(e.bytes);
                },
            }
        } else if e.kind == EVENT_MDC_OK {
            mdc_seen = true;
        }
        proof {
            i = i + 1;
        }
    }
    proof {
        assert(i == all.len());
    }
    if seip_depth.is_some() && mdc_seen {
        literal
    } else {
        None
    }
}

/// Relies on the streaming `Message` / `Encryptor2` / `LiteralWriter`
/// composition: `build` emits one key-encryption packet per recipient,
/// in order, addressed to that recipient's key id, before any body
/// bytes; `finalize` writes every layer's trailer. The output starts
/// with a binary packet tag, never an armor header line.
#[verifier::external_body]
pub(crate) fn encrypt_stream_binary(keys: &Vec<EncKey>, plaintext: &[u8]) -> (r: Option<Vec<u8>>)
    ensures
        match r {
            Some(v) => !spec_is_armored(v@) && (match spec_pkesks(v@) {
                Some(ps) => ps.len() == keys.deep_view().len() && (forall|i: int|
                    0 <= i < ps.len() ==> ps[i].key_id == keys.deep_view()[i].key_id),
                None => false,
            }),
            None => true,
        },
{
    let mut sink: Vec<u8> = Vec::new();
    let message = Message::new(&mut sink);
    let recipients: Vec<Recipient> = keys.iter().map(|k| Recipient::from(&k.key.key)).collect();
    let message = Encryptor2::for_recipients(message, recipients).build().ok()?;
    let mut message = LiteralWriter::new(message).build().ok()?;
    message.write_all(plaintext).ok()?;
    message.finalize().ok()?;
    Some(sink)
}

/// Relies on the same composition as [`encrypt_stream_binary`] with an
/// `Armorer` between the sink and the encryptor; dearmoring is
/// transparent to the packet parser, so the same packets come back,
/// and the output begins with the armor header line.
#[verifier::external_body]
pub(crate) fn encrypt_stream_armored(keys: &Vec<EncKey>, plaintext: &[u8]) -> (r: Option<Vec<u8>>)
    ensures
        match r {
            Some(v) => spec_is_armored(v@) && (match spec_pkesks(v@) {
                Some(ps) => ps.len() == keys.deep_view().len() && (forall|i: int|
                    0 <= i < ps.len() ==> ps[i].key_id == keys.deep_view()[i].key_id),
                None => false,
            }),
            None => true,
        },
{
    let mut sink: Vec<u8> = Vec::new();
    let message = Message::new(&mut sink);
    let message = Armorer::new(message).kind(Kind::Message).build().ok()?;
    let recipients: Vec<Recipient> = keys.iter().map(|k| Recipient::from(&k.key.key)).collect();
    let message = Encryptor2::for_recipients(message, recipients).build().ok()?;
    let mut message = LiteralWriter::new(message).build().ok()?;
    message.write_all(plaintext).ok()?;
    message.finalize().ok()?;
    Some(sink)
}

/// Relies on `Cert::is_tsk`, the primary key's `pk_algo` and
/// `creation_time`, `ValidCert::primary_key().key_expiration_time`
/// under the standard policy at the reference time, and the first
/// `userids` entry.
#[verifier::external_body]
pub(crate) fn cert_facts(c: &ParsedCert, now: u64) -> (r: CertFacts)
    requires
        now <= i64::MAX as u64,
    ensures
        r@ == spec_cert_facts(c@.raw, now),
{
    let t = SystemTime::UNIX_EPOCH + Duration::from_secs(now);
    let p = StandardPolicy::at(t);
    let secs = |st: SystemTime|
        st.duration_since(SystemTime::UNIX_EPOCH).map(|d| d.as_secs()).unwrap_or(0);
    let expiration = c.cert.with_policy(&p, t).ok()
        .and_then(|vc| vc.primary_key().key_expiration_time());
    CertFacts {
        is_tsk: c.cert.is_tsk(),
        primary_is_eddsa: matches!(c.cert.primary_key().pk_algo(), PublicKeyAlgorithm::EdDSA),
        primary_creation: secs(c.cert.primary_key().key().creation_time()),
        primary_expiration: expiration.map(secs),
        first_userid: c.cert.userids().next()
            .map(|u| String::from_utf8_lossy(u.userid().value()).to_string()),
    }
}

/// Relies on `Cert::serialize` through an `Armorer` of kind
/// `PublicKey`: the certificate's public parts as an armored block.
/// Success is a function of the certificate text alone.
#[verifier::external_body]
pub(crate) fn armor_public_key(c: &ParsedCert) -> (r: Option<String>)
    ensures
        r is Some <==> spec_armor_ok(c@.raw),
        match r {
            Some(s) => s@ == spec_armored_public(c@.raw),
            None => true,
        },
{
    let mut sink: Vec<u8> = Vec::new();
    let message = Message::new(&mut sink);
    let mut w = Armorer::new(message).kind(Kind::PublicKey).build().ok()?;
    c.cert.serialize(&mut w).ok()?;
    w.finalize().ok()?;
    String::from_utf8(sink).ok()
}

/// Relies on `CertBuilder` (user id, signing subkey, transport
/// encryption subkey, optional validity period, optional passphrase
/// protection) and on armored serialization of the certificate's
/// secret form (`as_tsk`). The key material is freshly generated and
/// random; of every outcome it holds that the armored secret form
/// parses back as a certificate carrying secret material at any
/// reference time, since a serialized secret form round-trips through
/// the parser; and under `set_password`, every component's secret
/// material is encrypted, so no component yields a key pair without
/// the passphrase.
#[verifier::external_body]
pub(crate) fn generate_cert(
    userid: &str,
    validity_seconds: Option<u64>,
    passphrase: &str,
    protect: bool,
) -> (r: Option<String>)
    ensures
        match r {
            Some(secret) => secret@.len() > 0 && spec_parses(secret@) && (forall|t: u64|
                spec_cert_facts(secret@, t).is_tsk) && (protect ==> (forall|k: int|
                !spec_unlock_plain(secret@, k))),
            None => true,
        },
{
    let mut b = CertBuilder::new().add_userid(userid).add_signing_subkey()
        .add_transport_encryption_subkey();
    if let Some(s) = validity_seconds {
        b = b.set_validity_period(Duration::from_secs(s));
    }
    if protect {
        b = b.set_password(Some(Password::from(passphrase)));
    }
    let (cert, _) = b.generate().ok()?;
    let mut sink: Vec<u8> = Vec::new();
    let message = Message::new(&mut sink);
    let mut w = Armorer::new(message).kind(Kind::SecretKey).build().ok()?;
    cert.as_tsk().serialize(&mut w).ok()?;
    w.finalize().ok()?;
    String::from_utf8(sink).ok()
}

/// Relies on `chrono::DateTime::from_timestamp` and `to_rfc3339`.
#[verifier::external_body]
pub(crate) fn rfc3339_utc(seconds: i64) -> (r: Option<String>)
    ensures
        match r {
            Some(s) => spec_rfc3339(seconds) == Some(s@),
            None => spec_rfc3339(seconds) is None,
        },
{
    chrono::DateTime::from_timestamp(seconds, 0).map(|dt| dt.to_rfc3339())
}

} // verus!
