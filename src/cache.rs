use vstd::prelude::*;
use crate::store::{new_store, store_entries, store_get, store_insert, Store, MAX_STORE_IDLE_MILLIS};

verus! {

/// Key of the cache as a mathematical value: originator and exact text.
pub type KeyView = (u64, Seq<char>);

/// Whether an entry last written at `t` is still inside the idle window at `now`.
pub open spec fn is_live(t: u64, now: u64, idle: u64) -> bool {
    now <= t + idle
}

/// What a lookup of `key` at `now` finds in `entries`: the recorded timestamp
/// while it is inside the idle window, nothing otherwise.
pub open spec fn lookup(entries: Map<KeyView, u64>, key: KeyView, now: u64, idle: u64) -> Option<u64> {
    if entries.contains_key(key) && is_live(entries[key], now, idle) {
        Some(entries[key])
    } else {
        None
    }
}

/// What a lookup at `now` reports from what the backing store returned for
/// the key: the stored timestamp while it is inside the idle window.
pub open spec fn live_prior_spec(found: Option<u64>, now: u64, idle: u64) -> Option<u64> {
    match found {
        Some(t) => if is_live(t, now, idle) {
            Some(t)
        } else {
            None
        },
        None => None,
    }
}

/// Keeps what the backing store returned for a key only while it is inside
/// the idle window at `now`.
pub fn live_prior(found: Option<u64>, now: u64, idle: u64) -> (r: Option<u64>)
    ensures
        r == live_prior_spec(found, now, idle),
{
    match found {
        Some(t) => {
            if t < now && now - t > idle {
                None
            } else {
                Some(t)
            }
        },
        None => None,
    }
}

/// Map from (originator, text) to the timestamp of its most recent recording.
/// An entry counts as absent once `idle_duration` has passed since it was last
/// written; the backing store also reclaims entries left idle that long.
pub struct IdleCache {
    store: Store,
    idle: u64,
}

impl IdleCache {
    /// Timestamp last written under each key, expired or not.
    pub closed spec fn entries(&self) -> Map<KeyView, u64> {
        store_entries(self.store)
    }

    /// The idle window the cache was built with.
    pub closed spec fn idle_window(&self) -> u64 {
        self.idle
    }

    /// An empty cache whose entries expire `idle_duration` milliseconds after
    /// their last write.
    pub fn new(idle_duration: u64) -> (r: IdleCache)
        requires
            idle_duration <= MAX_STORE_IDLE_MILLIS,
        ensures
            r.entries().dom().is_empty(),
            r.idle_window() == idle_duration,
    {
        IdleCache { store: new_store(idle_duration), idle: idle_duration }
    }

    /// The idle window the cache was built with.
    pub fn idle_duration(&self) -> (r: u64)
        ensures
            r == self.idle_window(),
    {
        self.idle
    }

    /// The timestamp last recorded for `(originator, text)` if it is still
    /// inside the idle window at `now`. Reading does not extend the window.
    /// The backing store may already have reclaimed an idle entry, in which
    /// case nothing is found.
    pub fn get(&self, originator: u64, text: &String, now: u64) -> (r: Option<u64>)
        ensures
            r == lookup(self.entries(), (originator, text@), now, self.idle_window()) || r is None,
    {
        live_prior(store_get(&self.store, originator, text), now, self.idle)
    }

    /// Records `now` as the latest timestamp of `(originator, text)`, which
    /// restarts its idle window.
    pub fn put(&mut self, originator: u64, text: &String, now: u64)
        ensures
            final(self).entries() == old(self).entries().insert((originator, text@), now),
            final(self).idle_window() == old(self).idle_window(),
    {
        store_insert(&mut self.store, originator, text, now);
    }
}

/// A key that was never written is not found, at any time.
pub proof fn lemma_never_inserted_absent(entries: Map<KeyView, u64>, key: KeyView, now: u64, idle: u64)
    requires
        !entries.contains_key(key),
    ensures
        lookup(entries, key, now, idle) is None,
{
}

/// After two writes of one key, at `t1` and then at `t2 >= t1`, a lookup sees
/// `t2` while it is live, and never `t1` unless the two are equal.
pub proof fn lemma_latest_put_wins(entries: Map<KeyView, u64>, key: KeyView, t1: u64, t2: u64, now: u64, idle: u64)
    requires
        t1 <= t2,
    ensures
        lookup(entries.insert(key, t1).insert(key, t2), key, now, idle)
            == (if is_live(t2, now, idle) { Some(t2) } else { None }),
{
}

} // verus!
