//! The decryption key matcher: matches a message's key-encryption
//! packets against a set of candidate private keys.
//!
//! The scan is a deterministic double iteration — message packet order
//! as the outer loop, candidate store order as the inner loop, each
//! candidate's secret components in certificate order innermost. A key
//! id match whose secret material fails to unlock ends the whole scan
//! as a wrong-passphrase outcome; a match that unlocks but fails
//! session-key recovery (an id collision) is skipped; the first
//! verified recovery wins.

use vstd::prelude::*;

use crate::error::CryptoError;
use crate::pgp::{
    parse_cert, secret_key_ids, spec_fingerprint, spec_parses, spec_recovered,
    spec_secret_key_ids, spec_unlock_ok, try_recover, unlock_key, ParsedCert, Pkesk, PkeskModel,
    SessionKey,
};
use crate::store::{KeyRecord, KeyRecordModel, KeyStore};

verus! {

/// One candidate private key: the parsed certificate and the key ids
/// of its secret components, in enumeration order.
pub struct Candidate {
    cert: ParsedCert,
    ids: Vec<Vec<u8>>,
}

/// The mathematical model of a [`Candidate`].
pub ghost struct CandidateModel {
    pub fingerprint: Seq<char>,
    pub raw: Seq<char>,
    pub ids: Seq<Seq<u8>>,
}

impl View for Candidate {
    type V = CandidateModel;

    closed spec fn view(&self) -> CandidateModel {
        CandidateModel {
            fingerprint: self.cert@.fingerprint,
            raw: self.cert@.raw,
            ids: self.ids.deep_view(),
        }
    }
}

impl DeepView for Candidate {
    type V = CandidateModel;

    open spec fn deep_view(&self) -> CandidateModel {
        self.view()
    }
}

/// What the scan of all candidates against all packets ends in.
pub ghost enum ScanModel {
    /// A verified session-key recovery: the first one in scan order.
    Found { algorithm: u8, key: Seq<u8>, fingerprint: Seq<char> },
    /// A key id matched but its secret material did not unlock.
    Locked { fingerprint: Seq<char> },
    /// Every match unlocked and failed recovery, or nothing matched.
    Exhausted,
}

/// Position `(a, b, c)` points at packet `a`, candidate `b`, secret
/// component `c`, and the packet's key id equals the component's.
pub open spec fn spec_matching(
    ps: Seq<PkeskModel>,
    cs: Seq<CandidateModel>,
    a: int,
    b: int,
    c: int,
) -> bool {
    &&& 0 <= a < ps.len()
    &&& 0 <= b < cs.len()
    &&& 0 <= c < cs[b].ids.len()
    &&& ps[a].key_id == cs[b].ids[c]
}

/// At a matching position, the component unlocks and recovery fails:
/// the scan moves on past such a position.
pub open spec fn spec_nonterminal(
    ps: Seq<PkeskModel>,
    cs: Seq<CandidateModel>,
    pass: Seq<char>,
    a: int,
    b: int,
    c: int,
) -> bool {
    &&& spec_unlock_ok(cs[b].raw, c, pass)
    &&& spec_recovered(ps[a].bytes, cs[b].raw, c, pass) is None
}

/// Position `(a2, b2, c2)` is at or after `(a, b, c)` in scan order.
pub open spec fn spec_later(a: int, b: int, c: int, a2: int, b2: int, c2: int) -> bool {
    ||| a2 > a
    ||| (a2 == a && b2 > b)
    ||| (a2 == a && b2 == b && c2 >= c)
}

/// The scan from position `(i, j, k)` on: packets outermost,
/// candidates next, secret components innermost. The first matching
/// position decides: a failed unlock ends the scan as `Locked`, a
/// verified recovery as `Found`; otherwise the scan moves on, and
/// running out of packets ends it as `Exhausted`.
pub open spec fn spec_scan(
    ps: Seq<PkeskModel>,
    cs: Seq<CandidateModel>,
    pass: Seq<char>,
    i: int,
    j: int,
    k: int,
) -> ScanModel
    recommends
        0 <= i,
        0 <= j,
        0 <= k,
    decreases
            ps.len() - i,
            cs.len() - j,
            (if 0 <= j < cs.len() {
                cs[j].ids.len() - k
            } else {
                0
            }),
        when 0 <= i && 0 <= j && 0 <= k
{
    if i >= ps.len() {
        ScanModel::Exhausted
    } else if j >= cs.len() {
        spec_scan(ps, cs, pass, i + 1, 0, 0)
    } else if k >= cs[j].ids.len() {
        spec_scan(ps, cs, pass, i, j + 1, 0)
    } else if ps[i].key_id == cs[j].ids[k] {
        if !spec_unlock_ok(cs[j].raw, k, pass) {
            ScanModel::Locked { fingerprint: cs[j].fingerprint }
        } else {
            match spec_recovered(ps[i].bytes, cs[j].raw, k, pass) {
                Some(sk) => ScanModel::Found {
                    algorithm: sk.algorithm,
                    key: sk.key,
                    fingerprint: cs[j].fingerprint,
                },
                None => spec_scan(ps, cs, pass, i, j, k + 1),
            }
        }
    } else {
        spec_scan(ps, cs, pass, i, j, k + 1)
    }
}

/// A record is a candidate when it is private and, with a target
/// given, carries the target fingerprint.
pub open spec fn spec_wanted(r: KeyRecordModel, target: Option<Seq<char>>) -> bool {
    r.is_private && match target {
        Some(fp) => r.fingerprint == fp,
        None => true,
    }
}

/// The candidate records for a decryption, in store order.
pub open spec fn spec_selected(rs: Seq<KeyRecordModel>, target: Option<Seq<char>>) -> Seq<
    KeyRecordModel,
> {
    rs.filter(|r: KeyRecordModel| spec_wanted(r, target))
}

/// The model of an optional target fingerprint.
pub open spec fn spec_target(target: Option<&String>) -> Option<Seq<char>> {
    match target {
        Some(s) => Some(s@),
        None => None,
    }
}

/// Parses each selected record into a candidate, in store order,
/// stopping at the first record whose text does not parse; the error
/// carries that record's fingerprint.
pub open spec fn spec_candidates(sel: Seq<KeyRecordModel>) -> Result<Seq<CandidateModel>, Seq<char>>
    decreases sel.len(),
{
    if sel.len() == 0 {
        Ok(Seq::empty())
    } else if !spec_parses(sel[0].content) {
        Err(sel[0].fingerprint)
    } else {
        match spec_candidates(sel.drop_first()) {
            Ok(rest) => Ok(
                seq![
                    CandidateModel {
                        fingerprint: spec_fingerprint(sel[0].content),
                        raw: sel[0].content,
                        ids: spec_secret_key_ids(sel[0].content),
                    },
                ] + rest,
            ),
            Err(e) => Err(e),
        }
    }
}

/// The outcome of the whole matching operation.
pub ghost enum MatchModel {
    /// A target fingerprint was given and no private record carries it.
    SelectedMissing,
    /// A candidate record's text does not parse.
    ParseFailed { fingerprint: Seq<char> },
    /// The scan recovered a verified session key.
    Found { algorithm: u8, key: Seq<u8>, fingerprint: Seq<char> },
    /// A key id matched but did not unlock with the passphrase.
    WrongPassphrase { fingerprint: Seq<char> },
    /// A target was given and its candidates matched nothing.
    NotAddressed,
    /// No target was given and nothing matched.
    NoUsableKey,
}

/// The whole matching operation: select candidates, parse them, scan.
pub open spec fn spec_match(
    rs: Seq<KeyRecordModel>,
    ps: Seq<PkeskModel>,
    pass: Seq<char>,
    target: Option<Seq<char>>,
) -> MatchModel {
    let sel = spec_selected(rs, target);
    if target is Some && sel.len() == 0 {
        MatchModel::SelectedMissing
    } else {
        match spec_candidates(sel) {
            Err(fingerprint) => MatchModel::ParseFailed { fingerprint },
            Ok(cs) => match spec_scan(ps, cs, pass, 0, 0, 0) {
                ScanModel::Found { algorithm, key, fingerprint } => MatchModel::Found {
                    algorithm,
                    key,
                    fingerprint,
                },
                ScanModel::Locked { fingerprint } => MatchModel::WrongPassphrase { fingerprint },
                ScanModel::Exhausted => if target is Some {
                    MatchModel::NotAddressed
                } else {
                    MatchModel::NoUsableKey
                },
            },
        }
    }
}

/// A verified session-key recovery with its provenance.
pub struct SessionMatch {
    /// The recovered session key.
    pub session: SessionKey,
    /// The fingerprint of the certificate that owned the matching key.
    pub fingerprint: String,
}

impl Candidate {
    /// How many secret components the candidate has.
    pub fn ids_len(&self) -> (r: usize)
        ensures
            r == self@.ids.len(),
    {
        proof {
            crate::lemma_vec_deep_view(&self.ids);
        }
        self.ids.len()
    }

    /// The key id of the secret component at `k`.
    pub fn id_at(&self, k: usize) -> (r: &Vec<u8>)
        requires
            k < self@.ids.len(),
        ensures
            r@ == self@.ids[k as int],
    {
        proof {
            crate::lemma_vec_deep_view(&self.ids);
        }
        &self.ids[k]
    }

    /// The parsed certificate behind the candidate.
    pub fn cert(&self) -> (r: &ParsedCert)
        ensures
            r@.raw == self@.raw,
            r@.fingerprint == self@.fingerprint,
    {
        &self.cert
    }
}

/// Selects the candidate records for a decryption: the private
/// records, narrowed to the target fingerprint when one is given, in
/// store order.
pub fn select_candidates(store: &KeyStore, target: Option<&String>) -> (r: Vec<KeyRecord>)
    ensures
        r.deep_view() == spec_selected(store@, spec_target(target)),
{
    let ghost tv = spec_target(target);
    let ghost pred = |m: KeyRecordModel| spec_wanted(m, tv);
    let records = store.records();
    let n = records.len();
    let mut out: Vec<KeyRecord> = Vec::new();
    let mut i: usize = 0;
    proof {
        crate::lemma_vec_deep_view(records);
        store@.take(0).lemma_all_neg_filter_empty(pred);
        assert(store@.take(0).filter(pred) =~= Seq::<KeyRecordModel>::empty());
        assert(out.deep_view() =~= Seq::<KeyRecordModel>::empty());
    }
    while i < n
        invariant
            i <= n,
            n == store@.len(),
            records.deep_view() == store@,
            out.deep_view() == store@.take(i as int).filter(
                |m: KeyRecordModel| spec_wanted(m, tv),
            ),
            tv == spec_target(target),
        decreases n - i,
    {
        proof {
            broadcast use Seq::lemma_filter_push, Seq::lemma_take_succ_push;

            crate::lemma_vec_deep_view(records);
            assert(store@.take(i + 1) == store@.take(i as int).push(store@[i as int]));
        }
        let rec = &records[i];
        let wanted = rec.is_private && (match target {
            Some(fp) => crate::models::str_eq(rec.fingerprint.as_str(), fp.as_str()),
            None => true,
        });
        proof {
            assert(rec@ == store@[i as int]);
            assert(wanted == spec_wanted(store@[i as int], tv));
        }
        if wanted {
            let ghost out_ex = out@;
            let ghost out_dv = out.deep_view();
            proof {
                crate::lemma_vec_deep_view(&out);
            }
            let dup = rec.duplicate();
            out.push(dup);
            proof {
                crate::lemma_vec_deep_view(&out);
                assert forall|t: int| 0 <= t < out.deep_view().len() implies out.deep_view()[t]
                    == out_dv.push(store@[i as int])[t] by {
                    if t < out_ex.len() {
                        assert(out@[t] == out_ex[t]);
                        assert(out_dv[t] == out_ex[t].deep_view());
                    }
                }
                assert(out.deep_view() =~= out_dv.push(store@[i as int]));
            }
        }
        proof {
            assert(out.deep_view() =~= store@.take(i + 1).filter(
                |m: KeyRecordModel| spec_wanted(m, tv),
            ));
        }
        i += 1;
    }
    proof {
        assert(store@.take(n as int) =~= store@);
    }
    out
}

/// Parses every selected record into a candidate, in store order; the
/// first record whose text does not parse fails the whole operation.
pub fn parse_candidates(sel: &Vec<KeyRecord>) -> (r: Result<Vec<Candidate>, CryptoError>)
    ensures
        match spec_candidates(sel.deep_view()) {
            Ok(cs) => r matches Ok(v) && v.deep_view() == cs,
            Err(fp) => r matches Err(CryptoError::ParseError { detail }) && detail@ == fp,
        },
{
    let ghost sv = sel.deep_view();
    let n = sel.len();
    let mut out: Vec<Candidate> = Vec::new();
    let mut i: usize = 0;
    proof {
        crate::lemma_vec_deep_view(sel);
        assert(sv.skip(0) =~= sv);
        assert(out.deep_view() =~= Seq::<CandidateModel>::empty());
    }
    while i < n
        invariant
            i <= n,
            n == sv.len(),
            sv == sel.deep_view(),
            out.deep_view().len() == i,
            spec_candidates(sv) == (match spec_candidates(sv.skip(i as int)) {
                Ok(rest) => Ok::<Seq<CandidateModel>, Seq<char>>(out.deep_view() + rest),
                Err(e) => Err::<Seq<CandidateModel>, Seq<char>>(e),
            }),
        decreases n - i,
    {
        proof {
            crate::lemma_vec_deep_view(sel);
            assert(sv.skip(i as int).len() == sv.len() - i);
            assert(sv.skip(i as int)[0] == sv[i as int]);
            assert(sv.skip(i as int).drop_first() =~= sv.skip(i + 1));
        }
        let rec = &sel[i];
        proof {
            assert(rec.deep_view() == sv[i as int]);
        }
        match parse_cert(rec.content.as_str()) {
            None => {
                return Err(CryptoError::ParseError { detail: rec.fingerprint.clone() });
            },
            Some(cert) => {
                let ids = secret_key_ids(&cert);
                let cand = Candidate { cert, ids };
                let ghost cm = cand@;
                proof {
                    assert(cm == (CandidateModel {
                        fingerprint: spec_fingerprint(sv[i as int].content),
                        raw: sv[i as int].content,
                        ids: spec_secret_key_ids(sv[i as int].content),
                    }));
                }
                let ghost out_ex = out@;
                let ghost out_dv = out.deep_view();
                proof {
                    crate::lemma_vec_deep_view(&out);
                }
                out.push(cand);
                proof {
                    crate::lemma_vec_deep_view(&out);
                    assert forall|t: int| 0 <= t < out.deep_view().len() implies out.deep_view()[t]
                        == out_dv.push(cm)[t] by {
                        if t < out_ex.len() {
                            assert(out@[t] == out_ex[t]);
                            assert(out_dv[t] == out_ex[t].deep_view());
                        }
                    }
                    assert(out.deep_view() =~= out_dv.push(cm));
                    match spec_candidates(sv.skip(i + 1)) {
                        Ok(rest) => {
                            assert(out_dv.push(cm) + rest =~= out_dv + (seq![cm] + rest));
                        },
                        Err(_) => {},
                    }
                    assert(spec_candidates(sv.skip(i as int)) == (
                    match spec_candidates(sv.skip(i + 1)) {
                        Ok(rest) => Ok::<Seq<CandidateModel>, Seq<char>>(seq![cm] + rest),
                        Err(e) => Err::<Seq<CandidateModel>, Seq<char>>(e),
                    }));
                }
            },
        }
        i += 1;
    }
    proof {
        assert(sv.skip(n as int) =~= Seq::<KeyRecordModel>::empty());
        assert(out.deep_view() + Seq::<CandidateModel>::empty() =~= out.deep_view());
    }
    Ok(out)
}

/// Byte-for-byte equality of two byte strings.
pub fn bytes_eq(a: &Vec<u8>, b: &Vec<u8>) -> (r: bool)
    ensures
        r == (a@ == b@),
{
    if a.len() != b.len() {
        assert(a@.len() != b@.len());
        return false;
    }
    let n = a.len();
    let mut i: usize = 0;
    while i < n
        invariant
            i <= n,
            n == a@.len(),
            n == b@.len(),
            forall|t: int| 0 <= t < i ==> a@[t] == b@[t],
        decreases n - i,
    {
        if a[i] != b[i] {
            assert(a@ != b@);
            return false;
        }
        i += 1;
    }
    assert(a@ =~= b@);
    true
}

/// What the exec scan ends in.
pub enum MatchOutcome {
    /// The first verified session-key recovery, with its provenance.
    Found(SessionMatch),
    /// A key id match whose secret material did not unlock; the owning
    /// certificate's fingerprint.
    Locked(String),
    /// Every match unlocked and failed recovery, or nothing matched.
    Exhausted,
}

/// Runs the scan: packets in message order outermost, candidates in
/// store order, secret components in certificate order innermost.
pub fn scan_candidates(pkesks: &Vec<Pkesk>, candidates: &Vec<Candidate>, passphrase: &str) -> (r:
    MatchOutcome)
    ensures
        match spec_scan(pkesks.deep_view(), candidates.deep_view(), passphrase@, 0, 0, 0) {
            ScanModel::Found { algorithm, key, fingerprint } => r matches MatchOutcome::Found(m)
                && m.session@.algorithm == algorithm && m.session@.key == key && m.fingerprint@
                == fingerprint,
            ScanModel::Locked { fingerprint } => r matches MatchOutcome::Locked(f) && f@
                == fingerprint,
            ScanModel::Exhausted => r is Exhausted,
        },
{
    let ghost psv = pkesks.deep_view();
    let ghost csv = candidates.deep_view();
    let np = pkesks.len();
    let nc = candidates.len();
    let mut i: usize = 0;
    let mut j: usize = 0;
    let mut k: usize = 0;
    proof {
        crate::lemma_vec_deep_view(pkesks);
        crate::lemma_vec_deep_view(candidates);
    }
    while i < np
        invariant
            psv == pkesks.deep_view(),
            csv == candidates.deep_view(),
            np == psv.len(),
            nc == csv.len(),
            i <= np,
            i < np ==> j <= nc,
            i < np && j < nc ==> k <= csv[j as int].ids.len(),
            spec_scan(psv, csv, passphrase@, 0, 0, 0) == spec_scan(
                psv,
                csv,
                passphrase@,
                i as int,
                j as int,
                k as int,
            ),
        decreases
                np - i,
                nc - j,
                (if j < nc {
                    csv[j as int].ids.len() - k
                } else {
                    0
                }),
    {
        proof {
            crate::lemma_vec_deep_view(pkesks);
            crate::lemma_vec_deep_view(candidates);
        }
        if j == nc {
            i += 1;
            j = 0;
            k = 0;
        } else {
            let cand = &candidates[j];
            proof {
                assert(cand.deep_view() == csv[j as int]);
            }
            if k == cand.ids_len() {
                j += 1;
                k = 0;
            } else {
                let pk = &pkesks[i];
                proof {
                    assert(pk.deep_view() == psv[i as int]);
                }
                if bytes_eq(pk.key_id(), cand.id_at(k)) {
                    match unlock_key(cand.cert(), k, passphrase) {
                        None => {
                            return MatchOutcome::Locked(cand.cert().fingerprint().clone());
                        },
                        Some(mut unlocked) => {
                            match try_recover(pk, &mut unlocked) {
                                Some(sk) => {
                                    return MatchOutcome::Found(
                                        SessionMatch {
                                            session: sk,
                                            fingerprint: cand.cert().fingerprint().clone(),
                                        },
                                    );
                                },
                                None => {
                                    k += 1;
                                },
                            }
                        },
                    }
                } else {
                    k += 1;
                }
            }
        }
    }
    MatchOutcome::Exhausted
}

/// An exhausted scan left no matching position behind: every position
/// at or after the starting one whose key ids match unlocked and
/// failed recovery.
pub proof fn lemma_scan_exhausted(
    ps: Seq<PkeskModel>,
    cs: Seq<CandidateModel>,
    pass: Seq<char>,
    i: int,
    j: int,
    k: int,
)
    requires
        0 <= i,
        0 <= j,
        0 <= k,
        spec_scan(ps, cs, pass, i, j, k) is Exhausted,
    ensures
        forall|a: int, b: int, c: int| #![trigger spec_matching(ps, cs, a, b, c)]
            spec_matching(ps, cs, a, b, c) && spec_later(i, j, k, a, b, c)
                ==> spec_nonterminal(ps, cs, pass, a, b, c),
    decreases
            ps.len() - i,
            cs.len() - j,
            (if 0 <= j < cs.len() {
                cs[j].ids.len() - k
            } else {
                0
            }),
{
    if i >= ps.len() {
    } else if j >= cs.len() {
        lemma_scan_exhausted(ps, cs, pass, i + 1, 0, 0);
        assert forall|a: int, b: int, c: int|
            spec_matching(ps, cs, a, b, c) && spec_later(i, j, k, a, b, c) implies
        spec_nonterminal(ps, cs, pass, a, b, c) by {
            assert(b < cs.len() <= j);
            assert(a > i);
            assert(spec_later(i + 1, 0, 0, a, b, c));
        }
    } else if k >= cs[j].ids.len() {
        lemma_scan_exhausted(ps, cs, pass, i, j + 1, 0);
        assert forall|a: int, b: int, c: int|
            spec_matching(ps, cs, a, b, c) && spec_later(i, j, k, a, b, c) implies
        spec_nonterminal(ps, cs, pass, a, b, c) by {
            if a == i && b == j {
                assert(c < cs[j].ids.len() <= k);
                assert(false);
            }
            assert(spec_later(i, j + 1, 0, a, b, c));
        }
    } else if ps[i].key_id == cs[j].ids[k] {
        lemma_scan_exhausted(ps, cs, pass, i, j, k + 1);
        assert(spec_nonterminal(ps, cs, pass, i, j, k));
        assert forall|a: int, b: int, c: int|
            spec_matching(ps, cs, a, b, c) && spec_later(i, j, k, a, b, c) implies
        spec_nonterminal(ps, cs, pass, a, b, c) by {
            if a == i && b == j && c == k {
            } else {
                assert(spec_later(i, j, k + 1, a, b, c));
            }
        }
    } else {
        lemma_scan_exhausted(ps, cs, pass, i, j, k + 1);
        assert forall|a: int, b: int, c: int|
            spec_matching(ps, cs, a, b, c) && spec_later(i, j, k, a, b, c) implies
        spec_nonterminal(ps, cs, pass, a, b, c) by {
            if a == i && b == j && c == k {
                assert(false);
            }
            assert(spec_later(i, j, k + 1, a, b, c));
        }
    }
}

/// A scan over positions none of which match ends exhausted.
pub proof fn lemma_scan_no_match(
    ps: Seq<PkeskModel>,
    cs: Seq<CandidateModel>,
    pass: Seq<char>,
    i: int,
    j: int,
    k: int,
)
    requires
        0 <= i,
        0 <= j,
        0 <= k,
        forall|a: int, b: int, c: int| #![trigger spec_matching(ps, cs, a, b, c)]
            spec_matching(ps, cs, a, b, c) ==> !spec_later(i, j, k, a, b, c),
    ensures
        spec_scan(ps, cs, pass, i, j, k) is Exhausted,
    decreases
            ps.len() - i,
            cs.len() - j,
            (if 0 <= j < cs.len() {
                cs[j].ids.len() - k
            } else {
                0
            }),
{
    if i >= ps.len() {
    } else if j >= cs.len() {
        assert forall|a: int, b: int, c: int| #![trigger spec_matching(ps, cs, a, b, c)]
            spec_matching(ps, cs, a, b, c) implies !spec_later(i + 1, 0, 0, a, b, c) by {
            if spec_later(i + 1, 0, 0, a, b, c) {
                assert(spec_later(i, j, k, a, b, c));
            }
        }
        lemma_scan_no_match(ps, cs, pass, i + 1, 0, 0);
    } else if k >= cs[j].ids.len() {
        assert forall|a: int, b: int, c: int| #![trigger spec_matching(ps, cs, a, b, c)]
            spec_matching(ps, cs, a, b, c) implies !spec_later(i, j + 1, 0, a, b, c) by {
            if spec_later(i, j + 1, 0, a, b, c) {
                assert(spec_later(i, j, k, a, b, c));
            }
        }
        lemma_scan_no_match(ps, cs, pass, i, j + 1, 0);
    } else if ps[i].key_id == cs[j].ids[k] {
        assert(spec_matching(ps, cs, i, j, k));
        assert(spec_later(i, j, k, i, j, k));
        assert(false);
    } else {
        assert forall|a: int, b: int, c: int| #![trigger spec_matching(ps, cs, a, b, c)]
            spec_matching(ps, cs, a, b, c) implies !spec_later(i, j, k + 1, a, b, c) by {
            if spec_later(i, j, k + 1, a, b, c) {
                assert(spec_later(i, j, k, a, b, c));
            }
        }
        lemma_scan_no_match(ps, cs, pass, i, j, k + 1);
    }
}

/// The first matching position at or after the starting one that is
/// terminal — it fails to unlock, or recovers a verified session key —
/// decides the scan: a failed unlock ends it as `Locked` with that
/// candidate's fingerprint, a verified recovery as `Found` with that
/// session key and fingerprint.
pub proof fn lemma_scan_finds(
    ps: Seq<PkeskModel>,
    cs: Seq<CandidateModel>,
    pass: Seq<char>,
    i: int,
    j: int,
    k: int,
    a2: int,
    b2: int,
    c2: int,
)
    requires
        0 <= i,
        0 <= j,
        0 <= k,
        spec_matching(ps, cs, a2, b2, c2),
        spec_later(i, j, k, a2, b2, c2),
        forall|a: int, b: int, c: int| #![trigger spec_matching(ps, cs, a, b, c)]
            spec_matching(ps, cs, a, b, c) && spec_later(i, j, k, a, b, c) && !spec_later(
                a2,
                b2,
                c2,
                a,
                b,
                c,
            ) ==> spec_nonterminal(ps, cs, pass, a, b, c),
    ensures
        !spec_unlock_ok(cs[b2].raw, c2, pass) ==> spec_scan(ps, cs, pass, i, j, k)
            == (ScanModel::Locked { fingerprint: cs[b2].fingerprint }),
        spec_unlock_ok(cs[b2].raw, c2, pass) ==> (match spec_recovered(
            ps[a2].bytes,
            cs[b2].raw,
            c2,
            pass,
        ) {
            Some(sk) => spec_scan(ps, cs, pass, i, j, k) == (ScanModel::Found {
                algorithm: sk.algorithm,
                key: sk.key,
                fingerprint: cs[b2].fingerprint,
            }),
            None => true,
        }),
    decreases
            ps.len() - i,
            cs.len() - j,
            (if 0 <= j < cs.len() {
                cs[j].ids.len() - k
            } else {
                0
            }),
{
    if i >= ps.len() {
        assert(a2 >= i);
        assert(false);
    } else if j >= cs.len() {
        assert(b2 < cs.len() <= j);
        assert(a2 > i);
        assert(spec_later(i + 1, 0, 0, a2, b2, c2));
        assert forall|a: int, b: int, c: int|
            spec_matching(ps, cs, a, b, c) && spec_later(i + 1, 0, 0, a, b, c) && !spec_later(
                a2,
                b2,
                c2,
                a,
                b,
                c,
            ) implies spec_nonterminal(ps, cs, pass, a, b, c) by {
            assert(spec_later(i, j, k, a, b, c));
        }
        lemma_scan_finds(ps, cs, pass, i + 1, 0, 0, a2, b2, c2);
    } else if k >= cs[j].ids.len() {
        if a2 == i && b2 == j {
            assert(c2 < cs[j].ids.len() <= k);
            assert(false);
        }
        assert(spec_later(i, j + 1, 0, a2, b2, c2));
        assert forall|a: int, b: int, c: int|
            spec_matching(ps, cs, a, b, c) && spec_later(i, j + 1, 0, a, b, c) && !spec_later(
                a2,
                b2,
                c2,
                a,
                b,
                c,
            ) implies spec_nonterminal(ps, cs, pass, a, b, c) by {
            assert(spec_later(i, j, k, a, b, c));
        }
        lemma_scan_finds(ps, cs, pass, i, j + 1, 0, a2, b2, c2);
    } else if ps[i].key_id == cs[j].ids[k] {
        if i == a2 && j == b2 && k == c2 {
        } else {
            assert(spec_matching(ps, cs, i, j, k));
            assert(spec_later(i, j, k, i, j, k));
            assert(!spec_later(a2, b2, c2, i, j, k));
            assert(spec_nonterminal(ps, cs, pass, i, j, k));
            assert(spec_later(i, j, k + 1, a2, b2, c2));
            assert forall|a: int, b: int, c: int|
                spec_matching(ps, cs, a, b, c) && spec_later(i, j, k + 1, a, b, c) && !spec_later(
                    a2,
                    b2,
                    c2,
                    a,
                    b,
                    c,
                ) implies spec_nonterminal(ps, cs, pass, a, b, c) by {
                assert(spec_later(i, j, k, a, b, c));
            }
            lemma_scan_finds(ps, cs, pass, i, j, k + 1, a2, b2, c2);
        }
    } else {
        if i == a2 && j == b2 && k == c2 {
            assert(false);
        }
        assert(spec_later(i, j, k + 1, a2, b2, c2));
        assert forall|a: int, b: int, c: int|
            spec_matching(ps, cs, a, b, c) && spec_later(i, j, k + 1, a, b, c) && !spec_later(
                a2,
                b2,
                c2,
                a,
                b,
                c,
            ) implies spec_nonterminal(ps, cs, pass, a, b, c) by {
            assert(spec_later(i, j, k, a, b, c));
        }
        lemma_scan_finds(ps, cs, pass, i, j, k + 1, a2, b2, c2);
    }
}

/// Wrong-passphrase precedence: when some key-encryption packet's key
/// id matches a candidate component whose secret material does not
/// unlock with the passphrase, the operation never reports that no
/// usable key was found, nor that the message is not addressed to the
/// selected key — the failed unlock is conclusive.
pub proof fn lemma_wrong_passphrase_precedence(
    rs: Seq<KeyRecordModel>,
    ps: Seq<PkeskModel>,
    pass: Seq<char>,
    target: Option<Seq<char>>,
    cs: Seq<CandidateModel>,
    a: int,
    b: int,
    c: int,
)
    requires
        !(target is Some && spec_selected(rs, target).len() == 0),
        spec_candidates(spec_selected(rs, target)) == Ok::<Seq<CandidateModel>, Seq<char>>(cs),
        spec_matching(ps, cs, a, b, c),
        !spec_unlock_ok(cs[b].raw, c, pass),
    ensures
        !(spec_match(rs, ps, pass, target) is NoUsableKey),
        !(spec_match(rs, ps, pass, target) is NotAddressed),
{
    if spec_scan(ps, cs, pass, 0, 0, 0) is Exhausted {
        lemma_scan_exhausted(ps, cs, pass, 0, 0, 0);
        assert(spec_later(0, 0, 0, a, b, c));
        assert(spec_nonterminal(ps, cs, pass, a, b, c));
        assert(false);
    }
}

/// Targeted mismatch: when the selected key is present and parses but
/// no key-encryption packet addresses any of its secret components,
/// the operation reports that the message is not addressed to the
/// selected key.
pub proof fn lemma_targeted_mismatch(
    rs: Seq<KeyRecordModel>,
    ps: Seq<PkeskModel>,
    pass: Seq<char>,
    fp: Seq<char>,
    cs: Seq<CandidateModel>,
)
    requires
        spec_selected(rs, Some(fp)).len() > 0,
        spec_candidates(spec_selected(rs, Some(fp))) == Ok::<Seq<CandidateModel>, Seq<char>>(cs),
        forall|a: int, b: int, c: int| #![trigger spec_matching(ps, cs, a, b, c)]
            !spec_matching(ps, cs, a, b, c),
    ensures
        spec_match(rs, ps, pass, Some(fp)) is NotAddressed,
{
    lemma_scan_no_match(ps, cs, pass, 0, 0, 0);
}

/// The first verified match wins: when position `(a, b, c)` matches,
/// unlocks, and recovers a verified session key, and every matching
/// position before it unlocks and fails recovery, the operation
/// returns exactly that session key with that candidate's fingerprint
/// as provenance. With the candidate set fixed, the outcome is a
/// function of the inputs alone: the matcher is deterministic.
pub proof fn lemma_first_verified_match(
    rs: Seq<KeyRecordModel>,
    ps: Seq<PkeskModel>,
    pass: Seq<char>,
    target: Option<Seq<char>>,
    cs: Seq<CandidateModel>,
    a: int,
    b: int,
    c: int,
    sk: crate::pgp::SessionKeyModel,
)
    requires
        !(target is Some && spec_selected(rs, target).len() == 0),
        spec_candidates(spec_selected(rs, target)) == Ok::<Seq<CandidateModel>, Seq<char>>(cs),
        spec_matching(ps, cs, a, b, c),
        spec_unlock_ok(cs[b].raw, c, pass),
        spec_recovered(ps[a].bytes, cs[b].raw, c, pass) == Some(sk),
        forall|x: int, y: int, z: int| #![trigger spec_matching(ps, cs, x, y, z)]
            spec_matching(ps, cs, x, y, z) && !spec_later(a, b, c, x, y, z)
                ==> spec_nonterminal(ps, cs, pass, x, y, z),
    ensures
        spec_match(rs, ps, pass, target) == (MatchModel::Found {
            algorithm: sk.algorithm,
            key: sk.key,
            fingerprint: cs[b].fingerprint,
        }),
{
    assert(spec_later(0, 0, 0, a, b, c));
    lemma_scan_finds(ps, cs, pass, 0, 0, 0, a, b, c);
}

/// Finds a verified session key for the message's key-encryption
/// packets among the store's private keys: selects the candidate set,
/// parses it, and scans deterministically; the outcome distinguishes a
/// missing selected key, a wrong passphrase, an unaddressed message,
/// and the absence of any usable key.
pub fn find_session_key(
    pkesks: &Vec<Pkesk>,
    store: &KeyStore,
    passphrase: &str,
    target: Option<&String>,
) -> (r: Result<SessionMatch, CryptoError>)
    ensures
        match spec_match(store@, pkesks.deep_view(), passphrase@, spec_target(target)) {
            MatchModel::SelectedMissing => r matches Err(CryptoError::SelectedKeyNotInStore),
            MatchModel::ParseFailed { fingerprint } => r matches Err(
                CryptoError::ParseError { detail },
            ) && detail@ == fingerprint,
            MatchModel::Found { algorithm, key, fingerprint } => r matches Ok(m) && m.session@.algorithm
                == algorithm && m.session@.key == key && m.fingerprint@ == fingerprint,
            MatchModel::WrongPassphrase { fingerprint } => r matches Err(
                CryptoError::WrongPassphrase { fingerprint: f },
            ) && f@ == fingerprint,
            MatchModel::NotAddressed => r matches Err(
                CryptoError::MessageNotAddressedToSelectedKey,
            ),
            MatchModel::NoUsableKey => r matches Err(CryptoError::NoUsableKeyFound),
        },
{
    let selected = select_candidates(store, target);
    if target.is_some() && selected.len() == 0 {
        proof {
            assert(selected.deep_view().len() == 0);
        }
        return Err(CryptoError::SelectedKeyNotInStore);
    }
    proof {
        if selected@.len() > 0 {
            crate::lemma_vec_deep_view(&selected);
        }
    }
    let candidates = match parse_candidates(&selected) {
        Ok(cs) => cs,
        Err(e) => {
            return Err(e);
        },
    };
    match scan_candidates(pkesks, &candidates, passphrase) {
        MatchOutcome::Found(m) => Ok(m),
        MatchOutcome::Locked(fingerprint) => Err(CryptoError::WrongPassphrase { fingerprint }),
        MatchOutcome::Exhausted => {
            if target.is_some() {
                Err(CryptoError::MessageNotAddressedToSelectedKey)
            } else {
                Err(CryptoError::NoUsableKeyFound)
            }
        },
    }
}

} // verus!
