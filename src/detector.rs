use vstd::prelude::*;
use vstd::utf8::encode_utf8;
use crate::cache::{lookup, IdleCache, KeyView};
use crate::store::MAX_STORE_IDLE_MILLIS;

verus! {

/// Default idle window, in milliseconds (two minutes).
pub const DEFAULT_IDLE_MILLIS: u64 = 120_000;

/// Default minimum length, in UTF-8 bytes, above which a text is tracked.
pub const DEFAULT_MIN_TRACKED_LENGTH: usize = 50;

/// Outcome of evaluating one event.
#[derive(Clone, Copy, Debug, PartialEq, Eq, Structural)]
pub struct DuplicateDecision {
    pub is_duplicate: bool,
    /// Time since the prior occurrence, given only for a duplicate.
    pub elapsed_since_prior: Option<u64>,
}

/// The decision for an event that repeats nothing.
pub open spec fn not_duplicate() -> DuplicateDecision {
    DuplicateDecision { is_duplicate: false, elapsed_since_prior: None }
}

/// The decision for an event that repeats one seen `elapsed` ago.
pub open spec fn duplicate_after(elapsed: u64) -> DuplicateDecision {
    DuplicateDecision { is_duplicate: true, elapsed_since_prior: Some(elapsed) }
}

/// Decision at `now` given the prior timestamp found for the event's key: a
/// duplicate exactly when a prior exists, is not later than `now`, and lies at
/// most `idle` before it.
pub open spec fn decision_for(prior: Option<u64>, now: u64, idle: u64) -> DuplicateDecision {
    match prior {
        Some(p) => if p <= now && now - p <= idle {
            duplicate_after((now - p) as u64)
        } else {
            not_duplicate()
        },
        None => not_duplicate(),
    }
}

/// Length of a text as the detector measures it: its UTF-8 byte count.
pub open spec fn text_len(text: Seq<char>) -> nat {
    encode_utf8(text).len()
}

/// Whether a text is long enough to be tracked at all.
pub open spec fn is_tracked(text: Seq<char>, min_len: usize) -> bool {
    text_len(text) > min_len
}

/// Cache entries after an event of `originator` with `text` is evaluated at `now`.
pub open spec fn next_entries(
    entries: Map<KeyView, u64>,
    min_len: usize,
    originator: u64,
    text: Seq<char>,
    now: u64,
) -> Map<KeyView, u64> {
    if is_tracked(text, min_len) {
        entries.insert((originator, text), now)
    } else {
        entries
    }
}

/// Decision for an event of `originator` with `text` at `now`, against `entries`.
pub open spec fn model_decision(
    entries: Map<KeyView, u64>,
    idle: u64,
    min_len: usize,
    originator: u64,
    text: Seq<char>,
    now: u64,
) -> DuplicateDecision {
    if is_tracked(text, min_len) {
        decision_for(lookup(entries, (originator, text), now, idle), now, idle)
    } else {
        not_duplicate()
    }
}

/// Decides, from the prior timestamp found for an event's key, whether the
/// event at `now` is a duplicate within the window `idle`.
pub fn decide(prior: Option<u64>, now: u64, idle: u64) -> (r: DuplicateDecision)
    ensures
        r == decision_for(prior, now, idle),
{
    match prior {
        Some(p) => {
            if p <= now && now - p <= idle {
                DuplicateDecision { is_duplicate: true, elapsed_since_prior: Some(now - p) }
            } else {
                DuplicateDecision { is_duplicate: false, elapsed_since_prior: None }
            }
        },
        None => DuplicateDecision { is_duplicate: false, elapsed_since_prior: None },
    }
}

/// Flags events that repeat, from the same originator and with the same text,
/// one seen within the idle window. Taking `&mut self` makes each evaluation
/// one atomic check-and-update: concurrent callers share the detector behind
/// a lock.
pub struct DuplicateDetector {
    cache: IdleCache,
    min_len: usize,
}

impl DuplicateDetector {
    /// Cache entries the detector decides against.
    pub closed spec fn entries(&self) -> Map<KeyView, u64> {
        self.cache.entries()
    }

    /// The idle window of the detector.
    pub closed spec fn idle_window(&self) -> u64 {
        self.cache.idle_window()
    }

    /// The length a text must exceed to be tracked.
    pub closed spec fn min_length(&self) -> usize {
        self.min_len
    }

    /// A detector with an empty cache.
    pub fn new(idle_duration: u64, min_tracked_length: usize) -> (r: DuplicateDetector)
        requires
            idle_duration <= MAX_STORE_IDLE_MILLIS,
        ensures
            r.entries().dom().is_empty(),
            r.idle_window() == idle_duration,
            r.min_length() == min_tracked_length,
    {
        DuplicateDetector { cache: IdleCache::new(idle_duration), min_len: min_tracked_length }
    }

    /// Evaluates an event of `originator` with `text` at `now`. A text of at
    /// most the minimum length is neither tracked nor flagged, and leaves the
    /// cache as it was. Otherwise the prior timestamp of the key is read, `now`
    /// is recorded in its place, and the event is a duplicate when the prior
    /// lies within the idle window before `now`. Where the backing store has
    /// already reclaimed the entry, the event counts as new.
    pub fn evaluate(&mut self, originator: u64, text: &String, now: u64) -> (r: DuplicateDecision)
        ensures
            final(self).entries() == next_entries(old(self).entries(), old(self).min_length(), originator, text@, now),
            final(self).idle_window() == old(self).idle_window(),
            final(self).min_length() == old(self).min_length(),
            r == model_decision(old(self).entries(), old(self).idle_window(), old(self).min_length(), originator, text@, now)
                || r == not_duplicate(),
            !is_tracked(text@, old(self).min_length()) ==> r == not_duplicate()
                && final(self).entries() == old(self).entries(),
    {
        if text.as_str().as_bytes().len() <= self.min_len {
            return DuplicateDecision { is_duplicate: false, elapsed_since_prior: None };
        }
        let prior = self.cache.get(originator, text, now);
        self.cache.put(originator, text, now);
        decide(prior, now, self.cache.idle_duration())
    }

    /// A detector with the default idle window and minimum length.
    pub fn with_defaults() -> (r: DuplicateDetector)
        ensures
            r.entries().dom().is_empty(),
            r.idle_window() == DEFAULT_IDLE_MILLIS,
            r.min_length() == DEFAULT_MIN_TRACKED_LENGTH,
    {
        DuplicateDetector::new(DEFAULT_IDLE_MILLIS, DEFAULT_MIN_TRACKED_LENGTH)
    }

    /// The timestamp recorded for `(originator, text)` if it is still inside
    /// the idle window at `now`; nothing where the backing store reclaimed it.
    pub fn last_seen(&self, originator: u64, text: &String, now: u64) -> (r: Option<u64>)
        ensures
            r == lookup(self.entries(), (originator, text@), now, self.idle_window()) || r is None,
    {
        self.cache.get(originator, text, now)
    }

    /// The idle window of the detector.
    pub fn idle_duration(&self) -> (r: u64)
        ensures
            r == self.idle_window(),
    {
        self.cache.idle_duration()
    }

    /// The length a text must exceed to be tracked.
    pub fn min_tracked_length(&self) -> (r: usize)
        ensures
            r == self.min_length(),
    {
        self.min_len
    }
}

/// Decisions of `n` evaluations of one event, made one after another at `now`
/// starting from `entries`.
pub open spec fn decisions_at(
    entries: Map<KeyView, u64>,
    idle: u64,
    min_len: usize,
    originator: u64,
    text: Seq<char>,
    now: u64,
    n: nat,
) -> Seq<DuplicateDecision>
    decreases n,
{
    if n == 0 {
        Seq::empty()
    } else {
        seq![model_decision(entries, idle, min_len, originator, text, now)]
            + decisions_at(next_entries(entries, min_len, originator, text, now), idle, min_len, originator, text, now, (n - 1) as nat)
    }
}

/// A text no longer than the minimum length is never flagged and leaves the
/// cache entries as they were.
pub proof fn lemma_short_text_untracked(
    entries: Map<KeyView, u64>,
    idle: u64,
    min_len: usize,
    originator: u64,
    text: Seq<char>,
    now: u64,
)
    requires
        !is_tracked(text, min_len),
    ensures
        next_entries(entries, min_len, originator, text, now) == entries,
        model_decision(entries, idle, min_len, originator, text, now) == not_duplicate(),
{
}

/// A tracked event with no live entry, evaluated at `t1` and again at `t2`
/// with `0 <= t2 - t1 <= idle`, is new the first time and a duplicate the
/// second, with `t2 - t1` elapsed.
pub proof fn lemma_repeat_within_window(
    entries: Map<KeyView, u64>,
    idle: u64,
    min_len: usize,
    originator: u64,
    text: Seq<char>,
    t1: u64,
    t2: u64,
)
    requires
        is_tracked(text, min_len),
        lookup(entries, (originator, text), t1, idle) is None,
        t1 <= t2,
        t2 - t1 <= idle,
    ensures
        model_decision(entries, idle, min_len, originator, text, t1) == not_duplicate(),
        model_decision(next_entries(entries, min_len, originator, text, t1), idle, min_len, originator, text, t2)
            == duplicate_after((t2 - t1) as u64),
{
}

/// An event with no live entry, evaluated at `t1` and again at `t2` more than
/// `idle` later, is new both times.
pub proof fn lemma_repeat_after_window(
    entries: Map<KeyView, u64>,
    idle: u64,
    min_len: usize,
    originator: u64,
    text: Seq<char>,
    t1: u64,
    t2: u64,
)
    requires
        lookup(entries, (originator, text), t1, idle) is None,
        t2 - t1 > idle,
    ensures
        model_decision(entries, idle, min_len, originator, text, t1) == not_duplicate(),
        model_decision(next_entries(entries, min_len, originator, text, t1), idle, min_len, originator, text, t2)
            == not_duplicate(),
{
}

proof fn lemma_recorded_now_repeats(
    entries: Map<KeyView, u64>,
    idle: u64,
    min_len: usize,
    originator: u64,
    text: Seq<char>,
    now: u64,
    n: nat,
)
    requires
        is_tracked(text, min_len),
        entries.contains_key((originator, text)),
        entries[(originator, text)] == now,
    ensures
        decisions_at(entries, idle, min_len, originator, text, now, n) =~= Seq::new(n, |i: int| duplicate_after(0)),
    decreases n,
{
    if n > 0 {
        assert(next_entries(entries, min_len, originator, text, now) =~= entries);
        lemma_recorded_now_repeats(entries, idle, min_len, originator, text, now, (n - 1) as nat);
    }
}

/// Of `n >= 1` evaluations of one tracked event at the same instant, applied
/// one at a time, the first is decided against the prior state and every
/// later one is a duplicate with nothing elapsed: at most one is new, and none
/// is lost.
pub proof fn lemma_same_instant_one_first(
    entries: Map<KeyView, u64>,
    idle: u64,
    min_len: usize,
    originator: u64,
    text: Seq<char>,
    now: u64,
    n: nat,
)
    requires
        is_tracked(text, min_len),
        n >= 1,
    ensures
        decisions_at(entries, idle, min_len, originator, text, now, n).len() == n,
        decisions_at(entries, idle, min_len, originator, text, now, n)[0]
            == model_decision(entries, idle, min_len, originator, text, now),
        forall|i: int| 1 <= i < n ==> decisions_at(entries, idle, min_len, originator, text, now, n)[i]
            == duplicate_after(0),
{
    let e1 = next_entries(entries, min_len, originator, text, now);
    lemma_recorded_now_repeats(e1, idle, min_len, originator, text, now, (n - 1) as nat);
}

} // verus!
