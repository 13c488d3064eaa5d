//! An in-memory key store: a durable mapping from fingerprint to raw
//! certificate text with a private/public flag.
//!
//! Records keep their insertion order, and a fingerprint identifies at
//! most one record; both properties pin the candidate enumeration order
//! that the decryption key matcher depends on.

use vstd::prelude::*;

verus! {

/// One stored key: a fingerprint, the raw armored certificate text, and
/// whether the text carries secret key material.
#[derive(Debug, Clone)]
pub struct KeyRecord {
    pub fingerprint: String,
    pub content: String,
    pub is_private: bool,
}

impl KeyRecord {
    /// An explicit copy, known to carry the same fields.
    pub fn duplicate(&self) -> (r: KeyRecord)
        ensures
            r@ == self@,
    {
        KeyRecord {
            fingerprint: self.fingerprint.clone(),
            content: self.content.clone(),
            is_private: self.is_private,
        }
    }
}

/// The mathematical model of a [`KeyRecord`].
pub ghost struct KeyRecordModel {
    pub fingerprint: Seq<char>,
    pub content: Seq<char>,
    pub is_private: bool,
}

impl View for KeyRecord {
    type V = KeyRecordModel;

    open spec fn view(&self) -> KeyRecordModel {
        KeyRecordModel {
            fingerprint: self.fingerprint@,
            content: self.content@,
            is_private: self.is_private,
        }
    }
}

impl DeepView for KeyRecord {
    type V = KeyRecordModel;

    open spec fn deep_view(&self) -> KeyRecordModel {
        self.view()
    }
}

/// The first position holding `fp`, if any.
pub open spec fn spec_find(s: Seq<KeyRecordModel>, fp: Seq<char>) -> Option<int>
    decreases s.len(),
{
    if s.len() == 0 {
        None
    } else if s[0].fingerprint == fp {
        Some(0int)
    } else {
        match spec_find(s.drop_first(), fp) {
            Some(i) => Some(i + 1),
            None => None,
        }
    }
}

/// The record holding `fp`, if any.
pub open spec fn spec_lookup(s: Seq<KeyRecordModel>, fp: Seq<char>) -> Option<KeyRecordModel> {
    match spec_find(s, fp) {
        Some(i) => Some(s[i]),
        None => None,
    }
}

/// `spec_find` returns the first matching position: a match within
/// bounds with no earlier match, or no match anywhere.
pub proof fn lemma_spec_find(s: Seq<KeyRecordModel>, fp: Seq<char>)
    ensures
        match spec_find(s, fp) {
            Some(i) => 0 <= i < s.len() && s[i].fingerprint == fp && (forall|j: int|
                0 <= j < i ==> s[j].fingerprint != fp),
            None => forall|j: int| 0 <= j < s.len() ==> s[j].fingerprint != fp,
        },
    decreases s.len(),
{
    if s.len() > 0 && s[0].fingerprint != fp {
        let rest = s.drop_first();
        lemma_spec_find(rest, fp);
        match spec_find(rest, fp) {
            Some(i) => {
                assert(rest[i] == s[i + 1]);
                assert forall|j: int| 0 <= j < i + 1 implies s[j].fingerprint != fp by {
                    if j > 0 {
                        assert(rest[j - 1] == s[j]);
                    }
                }
            },
            None => {
                assert forall|j: int| 0 <= j < s.len() implies s[j].fingerprint != fp by {
                    if j > 0 {
                        assert(rest[j - 1] == s[j]);
                    }
                }
            },
        }
    }
}

/// A position known to hold the first match is what `spec_find` returns.
pub proof fn lemma_spec_find_witness(s: Seq<KeyRecordModel>, fp: Seq<char>, i: int)
    requires
        0 <= i < s.len(),
        s[i].fingerprint == fp,
        forall|j: int| 0 <= j < i ==> s[j].fingerprint != fp,
    ensures
        spec_find(s, fp) == Some(i),
{
    lemma_spec_find(s, fp);
    match spec_find(s, fp) {
        Some(k) => {
            if k < i {
                assert(s[k].fingerprint != fp);
            } else if i < k {
                assert(s[i].fingerprint != fp);
            }
        },
        None => {
            assert(s[i].fingerprint != fp);
        },
    }
}

/// A store of key records with unique fingerprints, in insertion order.
#[derive(Debug, Clone)]
pub struct KeyStore {
    records: Vec<KeyRecord>,
}

impl View for KeyStore {
    type V = Seq<KeyRecordModel>;

    closed spec fn view(&self) -> Seq<KeyRecordModel> {
        self.records.deep_view()
    }
}

impl KeyStore {
    /// No two records share a fingerprint.
    pub open spec fn wf(&self) -> bool {
        forall|i: int, j: int|
            0 <= i < j < self@.len() ==> self@[i].fingerprint != self@[j].fingerprint
    }

    /// Creates an empty store.
    pub fn new() -> (r: Self)
        ensures
            r@ == Seq::<KeyRecordModel>::empty(),
            r.wf(),
    {
        Self { records: Vec::new() }
    }

    /// The number of stored records.
    pub fn len(&self) -> (r: usize)
        ensures
            r == self@.len(),
    {
        self.records.len()
    }

    /// All records, in insertion order.
    pub fn records(&self) -> (r: &Vec<KeyRecord>)
        ensures
            r.deep_view() == self@,
    {
        &self.records
    }

    /// Fetches the record holding `fp`, if any.
    pub fn get(&self, fp: &str) -> (r: Option<&KeyRecord>)
        ensures
            match r {
                Some(rec) => spec_lookup(self@, fp@) == Some(rec@),
                None => spec_lookup(self@, fp@) is None,
            },
    {
        let n = self.records.len();
        let mut i: usize = 0;
        while i < n
            invariant
                i <= n,
                n == self@.len(),
                forall|j: int| 0 <= j < i ==> self@[j].fingerprint != fp@,
            decreases n - i,
        {
            if crate::models::str_eq(self.records[i].fingerprint.as_str(), fp) {
                proof {
                    lemma_spec_find_witness(self@, fp@, i as int);
                }
                return Some(&self.records[i]);
            }
            i += 1;
        }
        proof {
            lemma_spec_find(self@, fp@);
        }
        None
    }

    /// Inserts or replaces the record carrying `rec`'s fingerprint: an
    /// existing record is updated in place, keeping its position; a new
    /// fingerprint is appended.
    pub fn put(&mut self, rec: KeyRecord)
        requires
            old(self).wf(),
        ensures
            final(self).wf(),
            match spec_find(old(self)@, rec@.fingerprint) {
                Some(i) => final(self)@ == old(self)@.update(i, rec@),
                None => final(self)@ == old(self)@.push(rec@),
            },
    {
        let ghost old_view = self@;
        let n = self.records.len();
        let mut i: usize = 0;
        while i < n
            invariant
                i <= n,
                n == self@.len(),
                self@ == old_view,
                old_view == old(self)@,
                old(self).wf(),
                forall|j: int| 0 <= j < i ==> self@[j].fingerprint != rec@.fingerprint,
            decreases n - i,
        {
            if crate::models::str_eq(
                self.records[i].fingerprint.as_str(),
                rec.fingerprint.as_str(),
            ) {
                proof {
                    lemma_spec_find_witness(old_view, rec@.fingerprint, i as int);
                }
                let ghost pos = i as int;
                self.records.set(i, rec);
                proof {
                    assert(self@ =~= old_view.update(pos, rec@));
                    assert(spec_find(old_view, rec@.fingerprint) == Some(pos));
                    assert(old_view == old(self)@);
                    assert forall|k: int| 0 <= k < self@.len() implies self@[k].fingerprint
                        == old_view[k].fingerprint by {
                        if k != pos {
                            assert(self@[k] == old_view[k]);
                        }
                    }
                    assert forall|p: int, q: int|
                        0 <= p < q < self@.len() implies self@[p].fingerprint
                        != self@[q].fingerprint by {
                        assert(old_view[p].fingerprint != old_view[q].fingerprint);
                    }
                }
                return ;
            }
            i += 1;
        }
        proof {
            lemma_spec_find(old_view, rec@.fingerprint);
        }
        self.records.push(rec);
        proof {
            assert(self@ =~= old_view.push(rec@));
        }
    }

    /// Removes the record holding `fp`; reports whether one was removed.
    pub fn delete(&mut self, fp: &str) -> (r: bool)
        requires
            old(self).wf(),
        ensures
            final(self).wf(),
            match spec_find(old(self)@, fp@) {
                Some(i) => r == true && final(self)@ == old(self)@.remove(i),
                None => r == false && final(self)@ == old(self)@,
            },
    {
        let ghost old_view = self@;
        let n = self.records.len();
        let mut i: usize = 0;
        while i < n
            invariant
                i <= n,
                n == self@.len(),
                self@ == old_view,
                old_view == old(self)@,
                old(self).wf(),
                forall|j: int| 0 <= j < i ==> self@[j].fingerprint != fp@,
            decreases n - i,
        {
            if crate::models::str_eq(self.records[i].fingerprint.as_str(), fp) {
                proof {
                    lemma_spec_find_witness(old_view, fp@, i as int);
                }
                self.records.remove(i);
                proof {
                    assert(self@ =~= old_view.remove(i as int));
                }
                return true;
            }
            i += 1;
        }
        proof {
            lemma_spec_find(old_view, fp@);
        }
        false
    }

    /// All records with the given privacy flag, in store order.
    pub fn list(&self, is_private: bool) -> (r: Vec<KeyRecord>)
        ensures
            r.deep_view() == self@.filter(|m: KeyRecordModel| m.is_private == is_private),
    {
        let ghost pred = |m: KeyRecordModel| m.is_private == is_private;
        let n = self.records.len();
        let mut out: Vec<KeyRecord> = Vec::new();
        let mut i: usize = 0;
        proof {
            self@.take(0).lemma_all_neg_filter_empty(pred);
            assert(self@.take(0).filter(pred) =~= Seq::<KeyRecordModel>::empty());
        }
        while i < n
            invariant
                i <= n,
                n == self@.len(),
                out.deep_view() == self@.take(i as int).filter(
                    |m: KeyRecordModel| m.is_private == is_private,
                ),
            decreases n - i,
        {
            proof {
                broadcast use Seq::lemma_filter_push, Seq::lemma_take_succ_push;

                assert(self@.take(i + 1) == self@.take(i as int).push(self@[i as int]));
            }
            if self.records[i].is_private == is_private {
                let rec = self.records[i].duplicate();
                out.push(rec);
            }
            proof {
                assert(out.deep_view() =~= self@.take(i + 1).filter(
                    |m: KeyRecordModel| m.is_private == is_private,
                ));
            }
            i += 1;
        }
        proof {
            assert(self@.take(n as int) =~= self@);
        }
        out
    }
}

} // verus!
