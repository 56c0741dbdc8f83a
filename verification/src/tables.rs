//! Concurrent hash tables of the `dashmap` crate.
//!
//! A table is opaque; each module that keeps one has a name for what it holds.

use vstd::prelude::*;

verus! {

/// `dashmap::DashMap`, a hash table.
#[verifier::external_type_specification]
#[verifier::external_body]
#[verifier::reject_recursive_types(K)]
#[verifier::reject_recursive_types(V)]
#[verifier::reject_recursive_types(S)]
pub struct ExDashMap<K, V, S>(dashmap::DashMap<K, V, S>);

}
