//! Hash maps and sets with the Fx hasher (`rustc_hash`), as used
//! for the library's indexes.
//!
//! `FxHashMap<K, V>` is `std::collections::HashMap<K, V, FxBuildHasher>`.
//! Its operations behave as those of any `HashMap` whose hasher gives equal
//! keys equal hashes, which the Fx hasher does (it is a fixed function of
//! the key). The wrappers below state that behaviour for keys whose `Hash`
//! and `Eq` agree with equality of values.
use rustc_hash::{FxBuildHasher, FxHashMap, FxHashSet};
use vstd::prelude::*;

verus! {

/// The Fx hash builder, carried opaquely.
#[verifier::external_type_specification]
#[verifier::external_body]
pub struct ExFxBuildHasher(FxBuildHasher);

/// `HashMap::get`: the value stored under `k`. Keys whose `Hash` and `Eq`
/// agree with equality of values (`obeys_key_model`, which vstd states for
/// the integer types) are looked up as in a mathematical map.
#[verifier::external_body]
pub(crate) fn fx_get<'a, K: std::hash::Hash + Eq, V>(m: &'a FxHashMap<K, V>, k: &K) -> (r: Option<&'a V>)
    requires
        vstd::std_specs::hash::obeys_key_model::<K>(),
    ensures
        match r {
            Some(v) => m@.contains_key(*k) && *v == m@[*k],
            None => !m@.contains_key(*k),
        },
{
    m.get(k)
}

/// `HashMap::insert`: `k` now maps to `v`; the value it replaced, if any,
/// is returned.
#[verifier::external_body]
pub(crate) fn fx_insert<K: std::hash::Hash + Eq, V>(m: &mut FxHashMap<K, V>, k: K, v: V) -> (r: Option<V>)
    requires
        vstd::std_specs::hash::obeys_key_model::<K>(),
    ensures
        final(m)@ == old(m)@.insert(k, v),
        match r {
            Some(prev) => old(m)@.contains_key(k) && prev == old(m)@[k],
            None => !old(m)@.contains_key(k),
        },
{
    m.insert(k, v)
}

/// `HashMap::remove`: `k` no longer maps to anything; the value it mapped
/// to, if any, is returned.
#[verifier::external_body]
pub(crate) fn fx_remove<K: std::hash::Hash + Eq, V>(m: &mut FxHashMap<K, V>, k: &K) -> (r: Option<V>)
    requires
        vstd::std_specs::hash::obeys_key_model::<K>(),
    ensures
        final(m)@ == old(m)@.remove(*k),
        match r {
            Some(prev) => old(m)@.contains_key(*k) && prev == old(m)@[*k],
            None => !old(m)@.contains_key(*k),
        },
{
    m.remove(k)
}

/// `HashSet::insert`: `k` is now in the set; the result says whether it
/// was absent before.
#[verifier::external_body]
pub(crate) fn fx_set_insert<K: std::hash::Hash + Eq>(s: &mut FxHashSet<K>, k: K) -> (r: bool)
    requires
        vstd::std_specs::hash::obeys_key_model::<K>(),
    ensures
        final(s)@ == old(s)@.insert(k),
        r == !old(s)@.contains(k),
{
    s.insert(k)
}

} // verus!
