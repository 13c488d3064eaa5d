//! An OpenPGP key-management and file-encryption library.
//!
//! The library holds the message-processing engine of a small OpenPGP
//! application: resolving recipient fingerprints to encryption-capable
//! key components, composing layered encryption streams, and recovering
//! a session key from a message's key-encryption packets against a set
//! of candidate private keys.

use vstd::prelude::*;

pub mod engine;
pub mod error;
pub mod keys;
pub mod matcher;
pub mod models;
pub mod pgp;
pub mod resolver;
pub mod store;

verus! {

/// A vector's deep view is its element views, position by position.
pub proof fn lemma_vec_deep_view<T: DeepView>(v: &Vec<T>)
    ensures
        v.deep_view().len() == v@.len(),
        forall|t: int| #![trigger v.deep_view()[t]]
            0 <= t < v@.len() ==> v.deep_view()[t] == v@[t].deep_view(),
{
}

} // verus!
