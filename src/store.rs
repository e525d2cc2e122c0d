use vstd::prelude::*;

verus! {

/// Key under which the backing store records an event: originator and exact text.
pub type StoreKey = (u64, String);

/// The backing store: a concurrent in-memory cache that reclaims entries left
/// untouched for longer than its time-to-idle, measured on the wall clock.
pub type Store = moka::sync::Cache<StoreKey, u64>;

#[verifier::external_type_specification]
#[verifier::external_body]
#[verifier::reject_recursive_types(K)]
#[verifier::reject_recursive_types(V)]
#[verifier::reject_recursive_types(S)]
pub struct ExMokaCache<K, V, S>(moka::sync::Cache<K, V, S>);

/// The value last inserted under each key of a store, viewed as
/// (originator, text) pairs. The store may reclaim an entry on its own at any
/// time, so a lookup finds either this value or nothing.
pub uninterp spec fn store_entries(s: Store) -> Map<(u64, Seq<char>), u64>;

/// Longest time-to-idle, in milliseconds, that the store accepts (a thousand years).
pub const MAX_STORE_IDLE_MILLIS: u64 = 31_536_000_000_000;

/// Relies on moka's `Cache::builder().time_to_idle(..).build()`, with the
/// time-to-idle given in milliseconds: a new cache
/// holds no entries; `build` panics above a thousand years of time-to-idle.
#[verifier::external_body]
pub(crate) fn new_store(idle_millis: u64) -> (r: Store)
    requires
        idle_millis <= MAX_STORE_IDLE_MILLIS,
    ensures
        store_entries(r).dom().is_empty(),
{
    moka::sync::Cache::builder().time_to_idle(std::time::Duration::from_millis(idle_millis)).build()
}

/// Relies on moka's `Cache::get`: it returns a clone of the value held under
/// the key, or `None` where there is none or the entry was reclaimed.
#[verifier::external_body]
pub(crate) fn store_get(s: &Store, originator: u64, text: &String) -> (r: Option<u64>)
    ensures
        r matches Some(t) ==> store_entries(*s).contains_key((originator, text@))
            && store_entries(*s)[(originator, text@)] == t,
{
    s.get(&(originator, text.clone()))
}

/// Relies on moka's `Cache::insert`: the value is stored under the key,
/// replacing any earlier one; other keys are left as they were.
#[verifier::external_body]
pub(crate) fn store_insert(s: &mut Store, originator: u64, text: &String, t: u64)
    ensures
        store_entries(*final(s)) == store_entries(*old(s)).insert((originator, text@), t),
{
    s.insert((originator, text.clone()), t)
}

} // verus!
