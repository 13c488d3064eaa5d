//! Key management around the engine: importing certificate text into
//! the store with descriptive metadata, exporting stored keys, and
//! generating fresh key pairs.

use vstd::prelude::*;

use crate::error::CryptoError;
use crate::models::{KeyMetadata, KeyType, UserId};
use crate::pgp::{
    armor_public_key, cert_facts, generate_cert, parse_cert, rfc3339_utc, spec_armor_ok,
    spec_armored_public, spec_cert_facts, spec_fingerprint, spec_parses, spec_rfc3339,
};
use crate::store::{spec_find, spec_lookup, KeyRecord, KeyStore};

verus! {

/// The first position of `c` in `s`, if any.
pub open spec fn spec_find_char(s: Seq<char>, c: char) -> Option<int>
    decreases s.len(),
{
    if s.len() == 0 {
        None
    } else if s[0] == c {
        Some(0int)
    } else {
        match spec_find_char(s.drop_first(), c) {
            Some(i) => Some(i + 1),
            None => None,
        }
    }
}

/// The whitespace characters stripped from a user id's name part.
pub open spec fn spec_is_space(c: char) -> bool {
    c == ' ' || c == '\t' || c == '\n' || c == '\r'
}

/// `s` without leading whitespace.
pub open spec fn spec_trim_front(s: Seq<char>) -> Seq<char>
    decreases s.len(),
{
    if s.len() > 0 && spec_is_space(s[0]) {
        spec_trim_front(s.drop_first())
    } else {
        s
    }
}

/// `s` without trailing whitespace.
pub open spec fn spec_trim_back(s: Seq<char>) -> Seq<char>
    decreases s.len(),
{
    if s.len() > 0 && spec_is_space(s.last()) {
        spec_trim_back(s.drop_last())
    } else {
        s
    }
}

/// `s` without leading or trailing whitespace.
pub open spec fn spec_trim(s: Seq<char>) -> Seq<char> {
    spec_trim_back(spec_trim_front(s))
}

/// The name part of a `Name (Comment) <Email>` user id: what stands
/// before the angle-bracketed address, trimmed; the whole text when
/// there is no well-formed address.
pub open spec fn spec_user_name(s: Seq<char>) -> Seq<char> {
    match (spec_find_char(s, '<'), spec_find_char(s, '>')) {
        (Some(lt), Some(gt)) => if lt < gt {
            spec_trim(s.take(lt))
        } else {
            s
        },
        _ => s,
    }
}

/// The address part of a `Name (Comment) <Email>` user id: what stands
/// between the first angle brackets; empty when there is no
/// well-formed address.
pub open spec fn spec_user_email(s: Seq<char>) -> Seq<char> {
    match (spec_find_char(s, '<'), spec_find_char(s, '>')) {
        (Some(lt), Some(gt)) => if lt < gt {
            s.subrange(lt + 1, gt)
        } else {
            Seq::empty()
        },
        _ => Seq::empty(),
    }
}

/// `spec_find_char` returns the first position of `c`, or there is
/// none.
proof fn lemma_find_char(s: Seq<char>, c: char)
    ensures
        match spec_find_char(s, c) {
            Some(i) => 0 <= i < s.len() && s[i] == c && (forall|j: int| 0 <= j < i ==> s[j] != c),
            None => forall|j: int| 0 <= j < s.len() ==> s[j] != c,
        },
    decreases s.len(),
{
    if s.len() > 0 && s[0] != c {
        let rest = s.drop_first();
        lemma_find_char(rest, c);
        match spec_find_char(rest, c) {
            Some(i) => {
                assert(rest[i] == s[i + 1]);
                assert forall|j: int| 0 <= j < i + 1 implies s[j] != c by {
                    if j > 0 {
                        assert(rest[j - 1] == s[j]);
                    }
                }
            },
            None => {
                assert forall|j: int| 0 <= j < s.len() implies s[j] != c by {
                    if j > 0 {
                        assert(rest[j - 1] == s[j]);
                    }
                }
            },
        }
    }
}

/// A position holding `c` with no earlier one is what
/// `spec_find_char` returns.
proof fn lemma_find_char_witness(s: Seq<char>, c: char, i: int)
    requires
        0 <= i < s.len(),
        s[i] == c,
        forall|j: int| 0 <= j < i ==> s[j] != c,
    ensures
        spec_find_char(s, c) == Some(i),
{
    lemma_find_char(s, c);
    match spec_find_char(s, c) {
        Some(k) => {
            if k < i {
                assert(s[k] != c);
            } else if i < k {
                assert(s[i] != c);
            }
        },
        None => {
            assert(s[i] != c);
        },
    }
}

/// Trimming the front stops at the first non-space position.
proof fn lemma_trim_front_at(s: Seq<char>, i: int)
    requires
        0 <= i <= s.len(),
        forall|j: int| 0 <= j < i ==> spec_is_space(s[j]),
        i < s.len() ==> !spec_is_space(s[i]),
    ensures
        spec_trim_front(s) == s.skip(i),
    decreases i,
{
    if i == 0 {
        assert(s.skip(0) =~= s);
    } else {
        let rest = s.drop_first();
        assert forall|j: int| 0 <= j < i - 1 implies spec_is_space(rest[j]) by {
            assert(rest[j] == s[j + 1]);
        }
        if i - 1 < rest.len() {
            assert(rest[i - 1] == s[i]);
        }
        lemma_trim_front_at(rest, i - 1);
        assert(rest.skip(i - 1) =~= s.skip(i));
    }
}

/// Trimming the back stops at the last non-space position.
proof fn lemma_trim_back_at(s: Seq<char>, i: int)
    requires
        0 <= i <= s.len(),
        forall|j: int| i <= j < s.len() ==> spec_is_space(s[j]),
        i > 0 ==> !spec_is_space(s[i - 1]),
    ensures
        spec_trim_back(s) == s.take(i),
    decreases s.len(),
{
    if i == s.len() {
        assert(s.take(i) =~= s);
    } else {
        let head = s.drop_last();
        assert(spec_is_space(s.last()));
        assert forall|j: int| i <= j < head.len() implies spec_is_space(head[j]) by {
            assert(head[j] == s[j]);
        }
        if i > 0 {
            assert(head[i - 1] == s[i - 1]);
        }
        lemma_trim_back_at(head, i);
        assert(head.take(i) =~= s.take(i));
    }
}

/// Finds the first position of `c` in `s`.
pub fn find_char(s: &str, c: char) -> (r: Option<usize>)
    ensures
        match r {
            Some(i) => spec_find_char(s@, c) == Some(i as int),
            None => spec_find_char(s@, c) is None,
        },
{
    let n = s.unicode_len();
    let mut i: usize = 0;
    while i < n
        invariant
            i <= n,
            n == s@.len(),
            forall|j: int| 0 <= j < i ==> s@[j] != c,
        decreases n - i,
    {
        if s.get_char(i) == c {
            proof {
                lemma_find_char_witness(s@, c, i as int);
            }
            return Some(i);
        }
        i += 1;
    }
    proof {
        lemma_find_char(s@, c);
    }
    None
}

/// Whether the engine treats `c` as whitespace.
pub fn is_space_char(c: char) -> (r: bool)
    ensures
        r == spec_is_space(c),
{
    c == ' ' || c == '\t' || c == '\n' || c == '\r'
}

/// Copies `s` with leading and trailing whitespace removed.
pub fn trim_str(s: &str) -> (r: String)
    ensures
        r@ == spec_trim(s@),
{
    let n = s.unicode_len();
    let mut start: usize = 0;
    while start < n && is_space_char(s.get_char(start))
        invariant
            start <= n,
            n == s@.len(),
            forall|j: int| 0 <= j < start ==> spec_is_space(s@[j]),
        decreases n - start,
    {
        start += 1;
    }
    proof {
        lemma_trim_front_at(s@, start as int);
    }
    let ghost fronted = s@.skip(start as int);
    let mut end: usize = n;
    while end > start && is_space_char(s.get_char(end - 1))
        invariant
            start <= end <= n,
            n == s@.len(),
            forall|j: int| 0 <= j < start ==> spec_is_space(s@[j]),
            forall|j: int| end <= j < n ==> spec_is_space(s@[j]),
        decreases end,
    {
        end -= 1;
    }
    proof {
        assert forall|j: int| end - start <= j < fronted.len() implies spec_is_space(
            fronted[j],
        ) by {
            assert(fronted[j] == s@[start + j]);
        }
        if end > start {
            assert(fronted[end - start - 1] == s@[end - 1]);
        }
        lemma_trim_back_at(fronted, end - start);
        assert(fronted.take(end - start) =~= s@.subrange(start as int, end as int));
    }
    String::from_str(s.substring_char(start, end))
}

/// Splits a `Name (Comment) <Email>` user id into its name and address
/// parts; a text without a well-formed address is all name.
pub fn parse_user_id(s: &str) -> (r: UserId)
    ensures
        r.name@ == spec_user_name(s@),
        r.email@ == spec_user_email(s@),
        r.comment is None,
{
    let lt = find_char(s, '<');
    let gt = find_char(s, '>');
    proof {
        lemma_find_char(s@, '<');
        lemma_find_char(s@, '>');
    }
    match (lt, gt) {
        (Some(l), Some(g)) => {
            if l < g {
                let email = String::from_str(s.substring_char(l + 1, g));
                let name_part = s.substring_char(0, l);
                proof {
                    assert(name_part@ =~= s@.take(l as int));
                }
                let name = trim_str(name_part);
                UserId { name, email, comment: None }
            } else {
                UserId { name: String::from_str(s), email: String::new(), comment: None }
            }
        },
        _ => UserId { name: String::from_str(s), email: String::new(), comment: None },
    }
}

/// The timestamp text recorded for an epoch second count: its RFC 3339
/// rendering, or empty when it cannot be represented.
pub open spec fn spec_stamp(secs: u64) -> Seq<char> {
    if secs <= i64::MAX as u64 {
        match spec_rfc3339(secs as i64) {
            Some(s) => s,
            None => Seq::empty(),
        }
    } else {
        Seq::empty()
    }
}

/// Renders an epoch second count for a metadata field.
pub fn stamp(secs: u64) -> (r: String)
    ensures
        r@ == spec_stamp(secs),
{
    if secs <= i64::MAX as u64 {
        match rfc3339_utc(secs as i64) {
            Some(s) => s,
            None => String::new(),
        }
    } else {
        String::new()
    }
}

/// Imports certificate text: parses it, derives its metadata, and
/// upserts the record under the certificate's own fingerprint. The
/// stored record keeps its position when the fingerprint is already
/// present, and is appended otherwise.
pub fn import_key(store: &mut KeyStore, key_text: &str, now: u64) -> (r: Result<
    KeyMetadata,
    CryptoError,
>)
    requires
        old(store).wf(),
        now <= i64::MAX as u64,
    ensures
        final(store).wf(),
        !spec_parses(key_text@) ==> ((r matches Err(CryptoError::ParseError { .. }))
            && final(store)@ == old(store)@),
        spec_parses(key_text@) ==> ({
            let facts = spec_cert_facts(key_text@, now);
            let fp = spec_fingerprint(key_text@);
            &&& r matches Ok(m)
            &&& m.fingerprint@ == fp
            &&& m.key_type == (if facts.primary_is_eddsa {
                KeyType::Ed25519
            } else {
                KeyType::Rsa4096
            })
            &&& m.user_id.name@ == (match facts.first_userid {
                Some(u) => spec_user_name(u),
                None => Seq::<char>::empty(),
            })
            &&& m.user_id.email@ == (match facts.first_userid {
                Some(u) => spec_user_email(u),
                None => Seq::<char>::empty(),
            })
            &&& m.user_id.comment is None
            &&& m.created_at@ == spec_stamp(facts.primary_creation)
            &&& (match (facts.primary_expiration, m.expires_at) {
                (Some(e), Some(x)) => x@ == spec_stamp(e),
                (None, None) => true,
                _ => false,
            })
            &&& m.is_private == facts.is_tsk
            &&& m.is_favorite == false
            &&& m.tags@.len() == 0
            &&& ({
                let rec = crate::store::KeyRecordModel {
                    fingerprint: fp,
                    content: key_text@,
                    is_private: facts.is_tsk,
                };
                match spec_find(old(store)@, fp) {
                    Some(i) => final(store)@ == old(store)@.update(i, rec),
                    None => final(store)@ == old(store)@.push(rec),
                }
            })
        }),
{
    let cert = match parse_cert(key_text) {
        None => {
            return Err(
                CryptoError::ParseError { detail: String::from_str("malformed certificate") },
            );
        },
        Some(c) => c,
    };
    let facts = cert_facts(&cert, now);
    let user_id = match &facts.first_userid {
        Some(u) => parse_user_id(u.as_str()),
        None => UserId { name: String::new(), email: String::new(), comment: None },
    };
    let key_type = if facts.primary_is_eddsa {
        KeyType::Ed25519
    } else {
        KeyType::Rsa4096
    };
    let created_at = stamp(facts.primary_creation);
    let expires_at = match facts.primary_expiration {
        Some(e) => Some(stamp(e)),
        None => None,
    };
    let metadata = KeyMetadata {
        fingerprint: cert.fingerprint().clone(),
        key_type,
        user_id,
        created_at,
        expires_at,
        is_private: facts.is_tsk,
        is_favorite: false,
        tags: Vec::new(),
    };
    let record = KeyRecord {
        fingerprint: cert.fingerprint().clone(),
        content: String::from_str(key_text),
        is_private: facts.is_tsk,
    };
    store.put(record);
    Ok(metadata)
}

/// Why exporting a stored key failed.
#[derive(Debug, Clone, PartialEq, Eq, Structural)]
pub enum ExportError {
    /// No record carries the fingerprint.
    KeyNotFound,
    /// The stored text does not parse as a certificate.
    ParseFailed,
    /// A private export was asked of a record without secret material.
    NotAPrivateKey,
    /// Re-armoring the public parts failed.
    ArmorFailed,
}

/// Exports a stored key: the raw stored text for a private export
/// (only when the certificate actually carries secret material), or
/// the certificate re-armored as a public key block otherwise.
pub fn export_key(store: &KeyStore, fingerprint: &str, export_private: bool, now: u64) -> (r:
    Result<String, ExportError>)
    requires
        now <= i64::MAX as u64,
    ensures
        match spec_lookup(store@, fingerprint@) {
            None => r matches Err(ExportError::KeyNotFound),
            Some(rec) => {
                if !spec_parses(rec.content) {
                    r matches Err(ExportError::ParseFailed)
                } else if export_private {
                    if spec_cert_facts(rec.content, now).is_tsk {
                        r matches Ok(s) && s@ == rec.content
                    } else {
                        r matches Err(ExportError::NotAPrivateKey)
                    }
                } else if spec_armor_ok(rec.content) {
                    r matches Ok(s) && s@ == spec_armored_public(rec.content)
                } else {
                    r matches Err(ExportError::ArmorFailed)
                }
            },
        },
{
    let rec = match store.get(fingerprint) {
        None => {
            return Err(ExportError::KeyNotFound);
        },
        Some(rec) => rec,
    };
    let cert = match parse_cert(rec.content.as_str()) {
        None => {
            return Err(ExportError::ParseFailed);
        },
        Some(c) => c,
    };
    if export_private {
        let facts = cert_facts(&cert, now);
        if facts.is_tsk {
            Ok(rec.content.clone())
        } else {
            Err(ExportError::NotAPrivateKey)
        }
    } else {
        match armor_public_key(&cert) {
            Some(s) => Ok(s),
            None => Err(ExportError::ArmorFailed),
        }
    }
}

/// Generates a fresh key pair with a signing and a transport
/// encryption subkey for `Name <Email>`: the armored public and secret
/// certificates. Secret material is passphrase-protected exactly when
/// the passphrase is non-empty; the public form is the secret
/// certificate's public parts, re-armored. A validity period beyond
/// what a signature's 32-bit expiration field can hold is capped at
/// that maximum.
pub fn generate_keypair(
    name: &str,
    email: &str,
    passphrase: &str,
    valid_seconds: Option<u64>,
) -> (r: Option<(String, String)>)
    ensures
        r matches Some(pair) ==> spec_parses(pair.1@) && spec_cert_facts(pair.1@, 0).is_tsk
            && pair.0@ == spec_armored_public(pair.1@) && pair.1@.len() > 0,
        match r {
            Some(pair) => passphrase@.len() > 0 ==> (forall|k: int|
                !crate::pgp::spec_unlock_plain(pair.1@, k)),
            None => true,
        },
{
    let userid = String::from_str(name).concat(" <").concat(email).concat(">");
    let protect = passphrase.unicode_len() > 0;
    let capped: Option<u64> = match valid_seconds {
        Some(s) => if s > u32::MAX as u64 {
            Some(u32::MAX as u64)
        } else {
            Some(s)
        },
        None => None,
    };
    let secret = match generate_cert(userid.as_str(), capped, passphrase, protect) {
        Some(s) => s,
        None => {
            return None;
        },
    };
    let cert = match parse_cert(secret.as_str()) {
        Some(c) => c,
        None => {
            return None;
        },
    };
    match armor_public_key(&cert) {
        Some(public_key) => Some((public_key, secret)),
        None => None,
    }
}

/// The descriptive metadata recorded for a freshly generated key pair.
pub fn generated_metadata(
    fingerprint: String,
    requested_type: &str,
    user: UserId,
    expiry: Option<i64>,
    now: i64,
) -> (m: KeyMetadata)
    ensures
        m.fingerprint@ == fingerprint@,
        m.key_type == crate::models::spec_key_type_for(requested_type@),
        m.user_id == user,
        m.created_at@ == (match spec_rfc3339(now) {
            Some(s) => s,
            None => Seq::<char>::empty(),
        }),
        (match (expiry, m.expires_at) {
            (Some(ts), Some(x)) => x@ == (match spec_rfc3339(ts) {
                Some(s) => s,
                None => Seq::<char>::empty(),
            }),
            (None, None) => true,
            _ => false,
        }),
        m.is_private == true,
        m.is_favorite == false,
        m.tags@.len() == 0,
{
    let created_at = match rfc3339_utc(now) {
        Some(s) => s,
        None => String::new(),
    };
    let expires_at = match expiry {
        Some(ts) => Some(
            match rfc3339_utc(ts) {
                Some(s) => s,
                None => String::new(),
            },
        ),
        None => None,
    };
    KeyMetadata {
        fingerprint,
        key_type: crate::models::key_type_for(requested_type),
        user_id: user,
        created_at,
        expires_at,
        is_private: true,
        is_favorite: false,
        tags: Vec::new(),
    }
}

} // verus!
