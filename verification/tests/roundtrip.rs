//! End-to-end encryption and decryption through the engine, with real
//! OpenPGP key material.

use armor::engine::{decrypt_bytes, encrypt_bytes};
use armor::error::CryptoError;
use armor::pgp::{session_key_from_esk, sym_key_size};
use armor::store::{KeyRecord, KeyStore};

use sequoia_openpgp::cert::CertBuilder;
use sequoia_openpgp::parse::Parse;
use sequoia_openpgp::crypto::Password;
use sequoia_openpgp::serialize::stream::{Armorer, Message};
use sequoia_openpgp::serialize::Serialize;

/// Generates a certificate with a signing and a transport-encryption
/// subkey, optionally passphrase-protected, and returns its
/// fingerprint (contiguous upper-case hex) and its armored secret form.
fn make_cert(passphrase: Option<&str>, validity: Option<u64>) -> (String, String) {
    let mut builder = CertBuilder::new()
        .add_userid("Alice Example <alice@example.org>")
        .add_signing_subkey()
        .add_transport_encryption_subkey();
    if let Some(secs) = validity {
        builder = builder.set_validity_period(std::time::Duration::from_secs(secs));
    }
    if let Some(p) = passphrase {
        builder = builder.set_password(Some(Password::from(p)));
    }
    let (cert, _) = builder.generate().expect("generate");
    let fingerprint = cert.fingerprint().to_hex();
    let mut bytes: Vec<u8> = Vec::new();
    {
        let message = Message::new(&mut bytes);
        let mut w = Armorer::new(message)
            .kind(sequoia_openpgp::armor::Kind::SecretKey)
            .build()
            .expect("armorer");
        cert.as_tsk().serialize(&mut w).expect("serialize");
        w.finalize().expect("finalize");
    }
    (fingerprint, String::from_utf8(bytes).expect("utf8"))
}

fn now_secs() -> u64 {
    std::time::SystemTime::now()
        .duration_since(std::time::SystemTime::UNIX_EPOCH)
        .expect("clock")
        .as_secs()
}

fn store_with(records: Vec<(String, String, bool)>) -> KeyStore {
    let mut store = KeyStore::new();
    for (fingerprint, content, is_private) in records {
        store.put(KeyRecord { fingerprint, content, is_private });
    }
    store
}

#[test]
fn round_trip_binary() {
    let (fp, key) = make_cert(None, None);
    let store = store_with(vec![(fp.clone(), key, true)]);
    let plaintext = b"attack at dawn".to_vec();
    let message = encrypt_bytes(&plaintext, &vec![fp.clone()], &store, false, now_secs())
        .expect("encrypt");
    assert!(!message.starts_with(b"-----BEGIN"));
    let out = decrypt_bytes(&message, &store, "", None).expect("decrypt");
    assert_eq!(out.plaintext, plaintext);
    assert_eq!(out.fingerprint, fp);
}

#[test]
fn round_trip_armored() {
    let (fp, key) = make_cert(None, None);
    let store = store_with(vec![(fp.clone(), key, true)]);
    let plaintext = b"hello, armored world".to_vec();
    let message = encrypt_bytes(&plaintext, &vec![fp.clone()], &store, true, now_secs())
        .expect("encrypt");
    let text = String::from_utf8(message.clone()).expect("armored output is text");
    assert!(text.starts_with("-----BEGIN PGP MESSAGE-----"));
    let out = decrypt_bytes(&message, &store, "", None).expect("decrypt");
    assert_eq!(out.plaintext, plaintext);
}

#[test]
fn round_trip_with_passphrase() {
    let (fp, key) = make_cert(Some("correct horse"), None);
    let store = store_with(vec![(fp.clone(), key, true)]);
    let plaintext = b"secret".to_vec();
    let message = encrypt_bytes(&plaintext, &vec![fp.clone()], &store, false, now_secs())
        .expect("encrypt");
    let out = decrypt_bytes(&message, &store, "correct horse", None).expect("decrypt");
    assert_eq!(out.plaintext, plaintext);
    assert_eq!(out.fingerprint, fp);
}

#[test]
fn multi_recipient_either_key_decrypts() {
    let (fp_a, key_a) = make_cert(None, None);
    let (fp_b, key_b) = make_cert(None, None);
    let both = store_with(vec![
        (fp_a.clone(), key_a.clone(), true),
        (fp_b.clone(), key_b.clone(), true),
    ]);
    let plaintext = b"to both of you".to_vec();
    let message = encrypt_bytes(&plaintext, &vec![fp_a.clone(), fp_b.clone()], &both, false,
        now_secs())
        .expect("encrypt");

    let only_a = store_with(vec![(fp_a.clone(), key_a, true)]);
    let out_a = decrypt_bytes(&message, &only_a, "", None).expect("decrypt with A");
    assert_eq!(out_a.plaintext, plaintext);
    assert_eq!(out_a.fingerprint, fp_a);

    let only_b = store_with(vec![(fp_b.clone(), key_b, true)]);
    let out_b = decrypt_bytes(&message, &only_b, "", None).expect("decrypt with B");
    assert_eq!(out_b.plaintext, plaintext);
    assert_eq!(out_b.fingerprint, fp_b);
}

#[test]
fn wrong_passphrase_wins_over_no_usable_key() {
    let (fp, key) = make_cert(Some("right"), None);
    let store = store_with(vec![(fp.clone(), key, true)]);
    let message = encrypt_bytes(&b"x".to_vec(), &vec![fp.clone()], &store, false, now_secs())
        .expect("encrypt");
    let err = decrypt_bytes(&message, &store, "wrong", None).expect_err("must fail");
    match err {
        CryptoError::WrongPassphrase { fingerprint } => assert_eq!(fingerprint, fp),
        other => panic!("expected WrongPassphrase, got {:?}", other),
    }
}

#[test]
fn targeted_mismatch_is_distinct() {
    let (fp_a, key_a) = make_cert(None, None);
    let (fp_b, key_b) = make_cert(None, None);
    let store = store_with(vec![
        (fp_a.clone(), key_a, true),
        (fp_b.clone(), key_b, true),
    ]);
    let message = encrypt_bytes(&b"only for A".to_vec(), &vec![fp_a.clone()], &store, false,
        now_secs())
        .expect("encrypt");
    let err = decrypt_bytes(&message, &store, "", Some(&fp_b)).expect_err("must fail");
    assert!(matches!(err, CryptoError::MessageNotAddressedToSelectedKey));
}

#[test]
fn selected_key_not_in_store_checked_first() {
    let (fp_a, key_a) = make_cert(None, None);
    let store = store_with(vec![(fp_a.clone(), key_a, true)]);
    let message = encrypt_bytes(&b"hi".to_vec(), &vec![fp_a.clone()], &store, false, now_secs())
        .expect("encrypt");
    let absent = String::from("0123456789ABCDEF0123456789ABCDEF01234567");
    let err = decrypt_bytes(&message, &store, "", Some(&absent)).expect_err("must fail");
    assert!(matches!(err, CryptoError::SelectedKeyNotInStore));
}

#[test]
fn unknown_recipient_fails_with_no_output() {
    let (fp_a, key_a) = make_cert(None, None);
    let store = store_with(vec![(fp_a.clone(), key_a, true)]);
    let absent = String::from("0123456789ABCDEF0123456789ABCDEF01234567");
    let r = encrypt_bytes(&b"p".to_vec(), &vec![absent.clone()], &store, false, now_secs());
    match r {
        Err(CryptoError::RecipientNotFound { fingerprint }) => assert_eq!(fingerprint, absent),
        other => panic!("expected RecipientNotFound, got {:?}", other),
    }
}

#[test]
fn expired_recipient_fails_even_beside_a_valid_one() {
    let (fp_short, key_short) = make_cert(None, Some(60));
    let (fp_ok, key_ok) = make_cert(None, None);
    let store = store_with(vec![
        (fp_ok.clone(), key_ok, true),
        (fp_short.clone(), key_short, true),
    ]);
    let later = now_secs() + 7 * 24 * 3600;
    let r = encrypt_bytes(&b"p".to_vec(), &vec![fp_ok.clone(), fp_short.clone()], &store, false,
        later);
    match r {
        Err(CryptoError::RecipientHasNoValidSubkey { fingerprint }) => {
            assert_eq!(fingerprint, fp_short)
        },
        other => panic!("expected RecipientHasNoValidSubkey, got {:?}", other),
    }
}

#[test]
fn empty_recipient_list_is_rejected() {
    let store = KeyStore::new();
    let r = encrypt_bytes(&b"p".to_vec(), &Vec::new(), &store, false, now_secs());
    assert!(matches!(r, Err(CryptoError::NoValidRecipients)));
}

#[test]
fn no_usable_key_without_target() {
    let (fp_a, key_a) = make_cert(None, None);
    let (fp_b, key_b) = make_cert(None, None);
    let sender = store_with(vec![(fp_a.clone(), key_a, true)]);
    let message = encrypt_bytes(&b"for A".to_vec(), &vec![fp_a.clone()], &sender, false,
        now_secs())
        .expect("encrypt");
    let unrelated = store_with(vec![(fp_b.clone(), key_b, true)]);
    let err = decrypt_bytes(&message, &unrelated, "", None).expect_err("must fail");
    assert!(matches!(err, CryptoError::NoUsableKeyFound));
}

#[test]
fn public_record_is_no_decryption_candidate() {
    let (fp_a, key_a) = make_cert(None, None);
    let sender = store_with(vec![(fp_a.clone(), key_a.clone(), true)]);
    let message = encrypt_bytes(&b"for A".to_vec(), &vec![fp_a.clone()], &sender, false,
        now_secs())
        .expect("encrypt");
    // The same key text, but stored as a public record: the matcher
    // must not use it.
    let public_only = store_with(vec![(fp_a.clone(), key_a, false)]);
    let err = decrypt_bytes(&message, &public_only, "", None).expect_err("must fail");
    assert!(matches!(err, CryptoError::NoUsableKeyFound));
}

#[test]
fn one_key_encryption_packet_per_recipient() {
    let (fp_a, key_a) = make_cert(None, None);
    let (fp_b, key_b) = make_cert(None, None);
    let store = store_with(vec![
        (fp_a.clone(), key_a, true),
        (fp_b.clone(), key_b, true),
    ]);
    let message = encrypt_bytes(&b"m".to_vec(), &vec![fp_a.clone(), fp_b.clone()], &store, false,
        now_secs())
        .expect("encrypt");
    let pile = sequoia_openpgp::PacketPile::from_bytes(&message).expect("parse");
    let pkesks = pile
        .descendants()
        .filter(|p| matches!(p, sequoia_openpgp::Packet::PKESK(_)))
        .count();
    assert_eq!(pkesks, 2);
}

#[test]
fn empty_plaintext_round_trips() {
    let (fp, key) = make_cert(None, None);
    let store = store_with(vec![(fp.clone(), key, true)]);
    let message = encrypt_bytes(&Vec::new(), &vec![fp.clone()], &store, false, now_secs())
        .expect("encrypt");
    let out = decrypt_bytes(&message, &store, "", None).expect("decrypt");
    assert!(out.plaintext.is_empty());
}

#[test]
fn session_key_payload_parsing_is_total() {
    // An empty or tiny payload is a failed recovery, not a crash.
    assert!(session_key_from_esk(&Vec::new()).is_none());
    assert!(session_key_from_esk(&vec![9u8]).is_none());
    assert!(session_key_from_esk(&vec![9u8, 0, 0]).is_none());
    // A well-formed AES-256 payload parses back exactly.
    let key: Vec<u8> = (0u8..32).collect();
    let sum: u32 = key.iter().map(|&b| b as u32).sum();
    let mut payload = vec![9u8];
    payload.extend_from_slice(&key);
    payload.push((sum >> 8) as u8);
    payload.push((sum & 0xff) as u8);
    let sk = session_key_from_esk(&payload).expect("valid payload");
    assert_eq!(sk.algorithm, 9);
    assert_eq!(sk.key, key);
    // A wrong checksum is an id collision, not a recovery.
    let mut bad = payload.clone();
    let last = bad.len() - 1;
    bad[last] = bad[last].wrapping_add(1);
    assert!(session_key_from_esk(&bad).is_none());
    // A key length that does not fit the algorithm is rejected.
    let mut short = vec![9u8];
    short.extend_from_slice(&key[..16]);
    let s16: u32 = key[..16].iter().map(|&b| b as u32).sum();
    short.push((s16 >> 8) as u8);
    short.push((s16 & 0xff) as u8);
    assert!(session_key_from_esk(&short).is_none());
    // The key-size table matches the OpenPGP algorithm registry.
    assert_eq!(sym_key_size(7), Some(16));
    assert_eq!(sym_key_size(9), Some(32));
    assert_eq!(sym_key_size(0), None);
    assert_eq!(sym_key_size(99), None);
}

#[test]
fn literal_outside_encrypted_container_is_rejected() {
    let (fp, key) = make_cert(None, None);
    let store = store_with(vec![(fp.clone(), key, true)]);
    let message = encrypt_bytes(&b"x".to_vec(), &vec![fp.clone()], &store, false, now_secs())
        .expect("encrypt");
    // Craft a message holding the real key-encryption packet followed
    // by a bare literal packet that was never encrypted: the session
    // key recovers, but the unencrypted literal must not come back as
    // plaintext.
    let pile = sequoia_openpgp::PacketPile::from_bytes(&message).expect("parse");
    let mut crafted: Vec<u8> = Vec::new();
    for p in pile.descendants() {
        if let sequoia_openpgp::Packet::PKESK(k) = p {
            sequoia_openpgp::Packet::PKESK(k.clone())
                .serialize(&mut crafted)
                .expect("serialize pkesk");
        }
    }
    let mut lit = sequoia_openpgp::packet::Literal::new(sequoia_openpgp::types::DataFormat::Binary);
    lit.set_body(b"smuggled".to_vec());
    sequoia_openpgp::Packet::Literal(lit).serialize(&mut crafted).expect("serialize literal");
    let r = decrypt_bytes(&crafted, &store, "", None);
    assert!(matches!(r, Err(CryptoError::IoError { .. })));
}

#[test]
fn truncated_message_is_a_parse_error() {
    let (fp, key) = make_cert(None, None);
    let store = store_with(vec![(fp.clone(), key, true)]);
    let message = encrypt_bytes(&b"whole".to_vec(), &vec![fp.clone()], &store, false, now_secs())
        .expect("encrypt");
    let truncated = &message[..message.len() / 2];
    let r = decrypt_bytes(truncated, &store, "", None);
    assert!(r.is_err());
}
