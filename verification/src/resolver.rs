//! The recipient resolver: turns a list of target fingerprints into a
//! validated, ordered list of encryption-capable key components.
//!
//! Records are looked up and parsed in input order first; then each
//! certificate must contribute at least one qualifying component.
//! Partial success is not allowed: either every requested recipient is
//! usable or the whole operation fails.

use vstd::prelude::*;

use crate::error::CryptoError;
use crate::pgp::{
    encryption_keys, parse_cert, spec_enc_keys, spec_fingerprint, spec_parses, EncKey,
    KeyInfoModel, ParsedCert,
};
use crate::store::{spec_lookup, KeyRecordModel, KeyStore};

verus! {

/// A key component qualifies for wrapping session keys when its
/// algorithm is supported and it is alive, not revoked, and flagged
/// for transport encryption.
pub open spec fn spec_key_valid(k: KeyInfoModel) -> bool {
    k.supported && k.alive && !k.revoked && k.for_transport_encryption
}

/// The qualifying components of a certificate at the reference time,
/// in enumeration order.
pub open spec fn spec_valid_keys(text: Seq<char>, now: u64) -> Seq<KeyInfoModel> {
    spec_enc_keys(text, now).filter(|k: KeyInfoModel| spec_key_valid(k))
}

/// Why loading a recipient's record failed.
pub ghost enum LoadError {
    /// No record carries the fingerprint.
    NotFound { fingerprint: Seq<char> },
    /// The record's text does not parse as a certificate.
    Unparsable { fingerprint: Seq<char> },
}

/// Loads each requested fingerprint's certificate text, in input
/// order, stopping at the first fingerprint that is missing from the
/// store or whose record does not parse.
pub open spec fn spec_load(rs: Seq<KeyRecordModel>, fps: Seq<Seq<char>>) -> Result<
    Seq<Seq<char>>,
    LoadError,
>
    decreases fps.len(),
{
    if fps.len() == 0 {
        Ok(Seq::empty())
    } else {
        match spec_lookup(rs, fps[0]) {
            None => Err(LoadError::NotFound { fingerprint: fps[0] }),
            Some(rec) => if !spec_parses(rec.content) {
                Err(LoadError::Unparsable { fingerprint: fps[0] })
            } else {
                match spec_load(rs, fps.drop_first()) {
                    Ok(rest) => Ok(seq![rec.content] + rest),
                    Err(e) => Err(e),
                }
            },
        }
    }
}

/// Gathers the qualifying components of the loaded certificates, in
/// order, stopping at the first certificate that contributes none; the
/// error carries that certificate's own fingerprint.
pub open spec fn spec_collect(texts: Seq<Seq<char>>, now: u64) -> Result<
    Seq<KeyInfoModel>,
    Seq<char>,
>
    decreases texts.len(),
{
    if texts.len() == 0 {
        Ok(Seq::empty())
    } else if spec_valid_keys(texts[0], now).len() == 0 {
        Err(spec_fingerprint(texts[0]))
    } else {
        match spec_collect(texts.drop_first(), now) {
            Ok(rest) => Ok(spec_valid_keys(texts[0], now) + rest),
            Err(e) => Err(e),
        }
    }
}

/// The outcome of recipient resolution.
pub ghost enum ResolveModel {
    /// A requested fingerprint is missing from the store.
    NotFound { fingerprint: Seq<char> },
    /// A requested fingerprint's record does not parse.
    ParseFailed { fingerprint: Seq<char> },
    /// A certificate contributes no qualifying component.
    NoValidSubkey { fingerprint: Seq<char> },
    /// The aggregate list came out empty.
    NoRecipients,
    /// The ordered qualifying components of all requested recipients.
    Resolved { keys: Seq<KeyInfoModel> },
}

/// The whole resolution: load every fingerprint, gather qualifying
/// components, and reject an empty aggregate.
pub open spec fn spec_resolve(rs: Seq<KeyRecordModel>, fps: Seq<Seq<char>>, now: u64) -> ResolveModel {
    match spec_load(rs, fps) {
        Err(LoadError::NotFound { fingerprint }) => ResolveModel::NotFound { fingerprint },
        Err(LoadError::Unparsable { fingerprint }) => ResolveModel::ParseFailed { fingerprint },
        Ok(texts) => match spec_collect(texts, now) {
            Err(fingerprint) => ResolveModel::NoValidSubkey { fingerprint },
            Ok(keys) => if keys.len() == 0 {
                ResolveModel::NoRecipients
            } else {
                ResolveModel::Resolved { keys }
            },
        },
    }
}

/// Keeps the components that qualify, in order.
fn select_valid(ks: Vec<EncKey>) -> (r: Vec<EncKey>)
    ensures
        r.deep_view() == ks.deep_view().filter(|k: KeyInfoModel| spec_key_valid(k)),
{
    let ghost all = ks.deep_view();
    let ghost pred = |k: KeyInfoModel| spec_key_valid(k);
    let mut rest = ks;
    let mut out: Vec<EncKey> = Vec::new();
    proof {
        all.take(0).lemma_all_neg_filter_empty(pred);
        assert(all.take(0).filter(pred) =~= Seq::<KeyInfoModel>::empty());
        assert(rest.deep_view() =~= all.skip(0));
    }
    let ghost i: int = 0;
    while rest.len() > 0
        invariant
            0 <= i <= all.len(),
            rest.deep_view() == all.skip(i),
            out.deep_view() == all.take(i).filter(|k: KeyInfoModel| spec_key_valid(k)),
        decreases rest.len(),
    {
        proof {
            broadcast use Seq::lemma_filter_push, Seq::lemma_take_succ_push;

            assert(all.skip(i).len() == all.len() - i);
            assert(all.take(i + 1) == all.take(i).push(all[i]));
        }
        let ghost rest_old = rest@;
        let ghost rest_dv_old = rest.deep_view();
        proof {
            crate::lemma_vec_deep_view(&rest);
        }
        let k = rest.remove(0);
        proof {
            crate::lemma_vec_deep_view(&rest);
            assert(k.deep_view() == rest_dv_old[0]);
            assert(all.skip(i)[0] == all[i]);
            assert forall|t: int| 0 <= t < rest.deep_view().len() implies rest.deep_view()[t]
                == all.skip(i + 1)[t] by {
                assert(rest@[t] == rest_old[t + 1]);
                assert(rest_dv_old[t + 1] == rest_old[t + 1].deep_view());
                assert(all.skip(i)[t + 1] == all[i + 1 + t]);
            }
            assert(rest.deep_view() =~= all.skip(i + 1));
        }
        let keep = {
            let ki = k.info();
            ki.supported && ki.alive && !ki.revoked && ki.for_transport_encryption
        };
        let ghost out_old = out@;
        let ghost out_dv_old = out.deep_view();
        let ghost km = k.deep_view();
        proof {
            crate::lemma_vec_deep_view(&out);
        }
        if keep {
            assert(spec_key_valid(k.deep_view()));
            out.push(k);
            proof {
                crate::lemma_vec_deep_view(&out);
                assert forall|t: int| 0 <= t < out.deep_view().len() implies out.deep_view()[t]
                    == out_dv_old.push(km)[t] by {
                    if t < out_old.len() {
                        assert(out@[t] == out_old[t]);
                        assert(out_dv_old[t] == out_old[t].deep_view());
                    }
                }
                assert(out.deep_view() =~= out_dv_old.push(km));
            }
        } else {
            assert(!spec_key_valid(k.deep_view()));
        }
        proof {
            assert(out.deep_view() =~= all.take(i + 1).filter(
                |k: KeyInfoModel| spec_key_valid(k),
            ));
            i = i + 1;
        }
    }
    proof {
        assert(all.take(all.len() as int) =~= all);
        assert(i == all.len());
    }
    out
}

/// Resolves the requested fingerprints against the store at the
/// reference time: every fingerprint must be present, parse, and
/// contribute at least one qualifying component, and the aggregate
/// must be non-empty; the components come back in input order, each
/// certificate's in enumeration order.
pub fn resolve_recipients(store: &KeyStore, fingerprints: &Vec<String>, now: u64) -> (r: Result<
    Vec<EncKey>,
    CryptoError,
>)
    requires
        now <= i64::MAX as u64,
    ensures
        match spec_resolve(store@, fingerprints.deep_view(), now) {
            ResolveModel::Resolved { keys } => r matches Ok(v) && v.deep_view() == keys,
            ResolveModel::NotFound { fingerprint } => r matches Err(
                CryptoError::RecipientNotFound { fingerprint: f },
            ) && f@ == fingerprint,
            ResolveModel::ParseFailed { fingerprint } => r matches Err(
                CryptoError::ParseError { detail },
            ) && detail@ == fingerprint,
            ResolveModel::NoValidSubkey { fingerprint } => r matches Err(
                CryptoError::RecipientHasNoValidSubkey { fingerprint: f },
            ) && f@ == fingerprint,
            ResolveModel::NoRecipients => r matches Err(CryptoError::NoValidRecipients),
        },
{
    let ghost rs = store@;
    let ghost fv = fingerprints.deep_view();
    let n = fingerprints.len();

    // Load and parse every requested certificate, in input order.
    let mut certs: Vec<ParsedCert> = Vec::new();
    let mut i: usize = 0;
    proof {
        assert(fv.skip(0) =~= fv);
        assert(certs.deep_view().map_values(|c: crate::pgp::ParsedCertModel| c.raw) =~= Seq::<
            Seq<char>,
        >::empty());
    }
    while i < n
        invariant
            i <= n,
            n == fv.len(),
            rs == store@,
            fv == fingerprints.deep_view(),
            certs.deep_view().len() == i,
            forall|j: int| #![auto] 0 <= j < i ==> spec_parses(certs.deep_view()[j].raw),
            forall|j: int| #![auto]
                0 <= j < i ==> certs.deep_view()[j].fingerprint == spec_fingerprint(
                    certs.deep_view()[j].raw,
                ),
            spec_load(rs, fv) == (match spec_load(rs, fv.skip(i as int)) {
                Ok(rest) => Ok(
                    certs.deep_view().map_values(|c: crate::pgp::ParsedCertModel| c.raw) + rest,
                ),
                Err(e) => Err::<Seq<Seq<char>>, LoadError>(e),
            }),
        decreases n - i,
    {
        let ghost texts = certs.deep_view().map_values(|c: crate::pgp::ParsedCertModel| c.raw);
        proof {
            crate::lemma_vec_deep_view(fingerprints);
            assert(fv[i as int] == fingerprints@[i as int]@);
            assert(fv.skip(i as int).len() == fv.len() - i);
            assert(fv.skip(i as int)[0] == fv[i as int]);
            assert(fv.skip(i as int).drop_first() =~= fv.skip(i + 1));
        }
        let fp = &fingerprints[i];
        match store.get(fp.as_str()) {
            None => {
                return Err(CryptoError::RecipientNotFound { fingerprint: fp.clone() });
            },
            Some(rec) => {
                match parse_cert(rec.content.as_str()) {
                    None => {
                        return Err(CryptoError::ParseError { detail: fp.clone() });
                    },
                    Some(cert) => {
                        let ghost cm = cert.deep_view();
                        let ghost certs_old = certs@;
                        let ghost dv_old = certs.deep_view();
                        proof {
                            crate::lemma_vec_deep_view(&certs);
                        }
                        certs.push(cert);
                        proof {
                            crate::lemma_vec_deep_view(&certs);
                            assert forall|t: int|
                                0 <= t < certs.deep_view().len() implies certs.deep_view()[t]
                                == dv_old.push(cm)[t] by {
                                if t < certs_old.len() {
                                    assert(certs@[t] == certs_old[t]);
                                    assert(dv_old[t] == certs_old[t].deep_view());
                                }
                            }
                            assert(certs.deep_view() =~= dv_old.push(cm));
                            assert(cm.raw == rec@.content);
                            assert(certs.deep_view().map_values(
                                |c: crate::pgp::ParsedCertModel| c.raw,
                            ) =~= texts.push(rec@.content));
                            let c = rec@.content;
                            match spec_load(rs, fv.skip(i + 1)) {
                                Ok(rest) => {
                                    assert(texts.push(c) + rest =~= texts + (seq![c] + rest));
                                },
                                Err(_) => {},
                            }
                            assert(spec_load(rs, fv.skip(i as int)) == (
                            match spec_load(rs, fv.skip(i + 1)) {
                                Ok(rest) => Ok::<Seq<Seq<char>>, LoadError>(seq![c] + rest),
                                Err(e) => Err::<Seq<Seq<char>>, LoadError>(e),
                            }));
                        }
                    },
                }
            },
        }
        i += 1;
    }
    proof {
        assert(fv.skip(n as int) =~= Seq::<Seq<char>>::empty());
    }
    let ghost texts = certs.deep_view().map_values(|c: crate::pgp::ParsedCertModel| c.raw);
    proof {
        assert(spec_load(rs, fv) == Ok::<Seq<Seq<char>>, LoadError>(texts));
    }

    // Gather each certificate's qualifying components, in order.
    let mut out: Vec<EncKey> = Vec::new();
    let mut certs = certs;
    let ghost m: int = certs.deep_view().len() as int;
    let ghost j: int = 0;
    proof {
        assert(texts.skip(0) =~= texts);
        assert(texts.take(0).len() == 0);
    }
    while certs.len() > 0
        invariant
            0 <= j <= m,
            m == texts.len(),
            rs == store@,
            fv == fingerprints.deep_view(),
            spec_load(rs, fv) == Ok::<Seq<Seq<char>>, LoadError>(texts),
            certs.deep_view().map_values(|c: crate::pgp::ParsedCertModel| c.raw) == texts.skip(j),
            forall|p: int| #![auto] 0 <= p < m ==> spec_parses(texts[p]),
            forall|p: int| #![auto]
                j <= p < m ==> certs.deep_view()[p - j].fingerprint == spec_fingerprint(texts[p]),
            spec_collect(texts, now) == (match spec_collect(texts.skip(j), now) {
                Ok(rest) => Ok(out.deep_view() + rest),
                Err(e) => Err::<Seq<KeyInfoModel>, Seq<char>>(e),
            }),
            now <= i64::MAX as u64,
        decreases certs.len(),
    {
        let ghost certs_v = certs.deep_view();
        let ghost certs_ex = certs@;
        proof {
            crate::lemma_vec_deep_view(&certs);
            assert(certs_v.map_values(|c: crate::pgp::ParsedCertModel| c.raw).len()
                == certs_v.len());
            assert(texts.skip(j)[0] == texts[j]);
            assert(certs_v[0].raw == certs_v.map_values(
                |c: crate::pgp::ParsedCertModel| c.raw,
            )[0]);
            assert(texts.skip(j).drop_first() =~= texts.skip(j + 1));
        }
        let cert = certs.remove(0);
        proof {
            crate::lemma_vec_deep_view(&certs);
            assert(cert@ == certs_ex[0]@);
            assert(certs_v[0] == certs_ex[0].deep_view());
            assert(cert@.raw == texts[j]);
            assert forall|t: int| 0 <= t < certs.deep_view().len() implies certs.deep_view()[t]
                == certs_v.drop_first()[t] by {
                assert(certs@[t] == certs_ex[t + 1]);
                assert(certs_v[t + 1] == certs_ex[t + 1].deep_view());
            }
            assert(certs.deep_view() =~= certs_v.drop_first());
            assert(certs.deep_view().map_values(|c: crate::pgp::ParsedCertModel| c.raw)
                =~= texts.skip(j + 1));
        }
        let ks = encryption_keys(&cert, now);
        let valid = select_valid(ks);
        if valid.len() == 0 {
            proof {
                assert(valid.deep_view().len() == 0);
                assert(spec_valid_keys(texts[j], now).len() == 0);
            }
            return Err(
                CryptoError::RecipientHasNoValidSubkey { fingerprint: cert.fingerprint().clone() },
            );
        }
        let ghost out_before = out.deep_view();
        let ghost out_ex = out@;
        let ghost valid_dv = valid.deep_view();
        let ghost valid_ex = valid@;
        let mut valid = valid;
        proof {
            crate::lemma_vec_deep_view(&out);
            crate::lemma_vec_deep_view(&valid);
        }
        out.append(&mut valid);
        proof {
            crate::lemma_vec_deep_view(&out);
            assert forall|t: int| 0 <= t < out.deep_view().len() implies out.deep_view()[t] == (
            out_before + valid_dv)[t] by {
                if t < out_ex.len() {
                    assert(out@[t] == out_ex[t]);
                    assert(out_before[t] == out_ex[t].deep_view());
                } else {
                    assert(out@[t] == valid_ex[t - out_ex.len()]);
                    assert(valid_dv[t - out_ex.len()] == valid_ex[t - out_ex.len()].deep_view());
                }
            }
            assert(out.deep_view() =~= out_before + spec_valid_keys(texts[j], now));
            assert(spec_valid_keys(texts[j], now).len() > 0);
            let vk = spec_valid_keys(texts[j], now);
            match spec_collect(texts.skip(j + 1), now) {
                Ok(rest) => {
                    assert((out_before + vk) + rest =~= out_before + (vk + rest));
                },
                Err(_) => {},
            }
            assert(spec_collect(texts.skip(j), now) == (match spec_collect(texts.skip(j + 1), now) {
                Ok(rest) => Ok::<Seq<KeyInfoModel>, Seq<char>>(vk + rest),
                Err(e) => Err::<Seq<KeyInfoModel>, Seq<char>>(e),
            }));
            j = j + 1;
        }
    }
    proof {
        assert(texts.skip(m) =~= Seq::<Seq<char>>::empty());
        assert(spec_collect(texts, now) == Ok::<Seq<KeyInfoModel>, Seq<char>>(out.deep_view()));
    }
    if out.len() == 0 {
        return Err(CryptoError::NoValidRecipients);
    }
    Ok(out)
}

/// An absent recipient aborts the whole operation: when every earlier
/// fingerprint loads and parses but `fps[i]` is not in the store, the
/// resolution reports exactly that fingerprint as not found.
pub proof fn lemma_unknown_recipient_fails(
    rs: Seq<KeyRecordModel>,
    fps: Seq<Seq<char>>,
    now: u64,
    i: int,
)
    requires
        0 <= i < fps.len(),
        spec_lookup(rs, fps[i]) is None,
        forall|j: int| #![auto]
            0 <= j < i ==> spec_lookup(rs, fps[j]) is Some && spec_parses(
                spec_lookup(rs, fps[j]).unwrap().content,
            ),
    ensures
        spec_resolve(rs, fps, now) == (ResolveModel::NotFound { fingerprint: fps[i] }),
    decreases i,
{
    if i == 0 {
        assert(spec_load(rs, fps) == Err::<Seq<Seq<char>>, LoadError>(
            LoadError::NotFound { fingerprint: fps[0] },
        ));
    } else {
        let rest = fps.drop_first();
        assert forall|j: int| #![auto] 0 <= j < i - 1 implies spec_lookup(rs, rest[j]) is Some
            && spec_parses(spec_lookup(rs, rest[j]).unwrap().content) by {
            assert(rest[j] == fps[j + 1]);
        }
        assert(rest[i - 1] == fps[i]);
        lemma_unknown_recipient_fails(rs, rest, now, i - 1);
        assert(spec_load(rs, rest) == Err::<Seq<Seq<char>>, LoadError>(
            LoadError::NotFound { fingerprint: fps[i] },
        ));
    }
}

/// A recipient whose certificate has no qualifying component aborts
/// the whole operation, whatever the other recipients contribute: when
/// every fingerprint loads and parses, and `texts[i]` is the first
/// loaded certificate with no qualifying component, the resolution
/// reports that certificate's fingerprint.
pub proof fn lemma_dead_recipient_fails(texts: Seq<Seq<char>>, now: u64, i: int)
    requires
        0 <= i < texts.len(),
        spec_valid_keys(texts[i], now).len() == 0,
        forall|j: int| #![auto] 0 <= j < i ==> spec_valid_keys(texts[j], now).len() > 0,
    ensures
        spec_collect(texts, now) == Err::<Seq<KeyInfoModel>, Seq<char>>(
            spec_fingerprint(texts[i]),
        ),
    decreases i,
{
    if i == 0 {
    } else {
        let rest = texts.drop_first();
        assert forall|j: int| #![auto] 0 <= j < i - 1 implies spec_valid_keys(rest[j], now).len()
            > 0 by {
            assert(rest[j] == texts[j + 1]);
        }
        assert(rest[i - 1] == texts[i]);
        lemma_dead_recipient_fails(rest, now, i - 1);
    }
}

} // verus!
