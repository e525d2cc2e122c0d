use dupguard::{decide, live_prior, DuplicateDecision, DuplicateDetector, IdleCache};

fn fresh() -> DuplicateDecision {
    DuplicateDecision { is_duplicate: false, elapsed_since_prior: None }
}

fn repeat(elapsed: u64) -> DuplicateDecision {
    DuplicateDecision { is_duplicate: true, elapsed_since_prior: Some(elapsed) }
}

fn text_of(len: usize) -> String {
    "x".repeat(len)
}

#[test]
fn never_inserted_key_is_absent() {
    let mut cache = IdleCache::new(120);
    assert_eq!(cache.get(1, &text_of(60), 0), None);
    cache.put(2, &text_of(60), 0);
    cache.put(1, &text_of(61), 0);
    assert_eq!(cache.get(1, &text_of(60), 0), None);
}

#[test]
fn later_put_replaces_earlier() {
    let mut cache = IdleCache::new(120);
    let t = text_of(60);
    cache.put(7, &t, 10);
    cache.put(7, &t, 40);
    assert_eq!(cache.get(7, &t, 50), Some(40));
}

#[test]
fn cache_entry_expires_after_idle_window() {
    let mut cache = IdleCache::new(120);
    let t = text_of(60);
    cache.put(3, &t, 0);
    assert_eq!(cache.idle_duration(), 120);
    assert_eq!(cache.get(3, &t, 120), Some(0));
    assert_eq!(cache.get(3, &t, 121), None);
    cache.put(3, &t, 121);
    assert_eq!(cache.get(3, &t, 200), Some(121));
}

#[test]
fn short_text_is_never_tracked() {
    let mut d = DuplicateDetector::new(120, 50);
    let t = text_of(10);
    assert_eq!(d.evaluate(1, &t, 0), fresh());
    assert_eq!(d.evaluate(1, &t, 1), fresh());
    assert_eq!(d.last_seen(1, &t, 1), None);
}

#[test]
fn length_boundary_is_exclusive() {
    let mut d = DuplicateDetector::new(120, 50);
    let at_min = text_of(50);
    assert_eq!(d.evaluate(1, &at_min, 0), fresh());
    assert_eq!(d.evaluate(1, &at_min, 1), fresh());
    let above = text_of(51);
    assert_eq!(d.evaluate(1, &above, 0), fresh());
    assert_eq!(d.evaluate(1, &above, 1), repeat(1));
}

#[test]
fn length_counts_utf8_bytes() {
    let mut d = DuplicateDetector::new(120, 50);
    let t = "\u{e9}".repeat(26);
    assert_eq!(t.chars().count(), 26);
    assert_eq!(d.evaluate(4, &t, 0), fresh());
    assert_eq!(d.evaluate(4, &t, 5), repeat(5));
}

#[test]
fn repeat_within_window_is_duplicate() {
    let mut d = DuplicateDetector::new(120, 50);
    let t = text_of(60);
    assert_eq!(d.evaluate(9, &t, 5), fresh());
    assert_eq!(d.evaluate(9, &t, 125), repeat(120));
}

#[test]
fn repeat_after_window_is_new() {
    let mut d = DuplicateDetector::new(120, 50);
    let t = text_of(60);
    assert_eq!(d.evaluate(9, &t, 5), fresh());
    assert_eq!(d.evaluate(9, &t, 126), fresh());
    assert_eq!(d.last_seen(9, &t, 126), Some(126));
}

#[test]
fn same_instant_only_first_is_new() {
    let mut d = DuplicateDetector::new(120, 50);
    let t = text_of(80);
    assert_eq!(d.evaluate(2, &t, 1000), fresh());
    for _ in 0..5 {
        assert_eq!(d.evaluate(2, &t, 1000), repeat(0));
    }
}

#[test]
fn channels_scenario() {
    let mut d = DuplicateDetector::with_defaults();
    assert_eq!(d.idle_duration(), 120_000);
    assert_eq!(d.min_tracked_length(), 50);
    let t = text_of(60);
    assert_eq!(d.evaluate(1, &t, 0), fresh());
    assert_eq!(d.last_seen(1, &t, 0), Some(0));
    assert_eq!(d.evaluate(1, &t, 30_000), repeat(30_000));
    assert_eq!(d.evaluate(1, &t, 200_000), fresh());
    assert_eq!(d.last_seen(1, &t, 200_000), Some(200_000));
}

#[test]
fn short_message_twice_scenario() {
    let mut d = DuplicateDetector::with_defaults();
    let t = String::from("ten chars!");
    assert_eq!(t.len(), 10);
    assert_eq!(d.evaluate(1, &t, 0), fresh());
    assert_eq!(d.evaluate(1, &t, 900), fresh());
    assert_eq!(d.last_seen(1, &t, 900), None);
}

#[test]
fn originators_are_kept_apart() {
    let mut d = DuplicateDetector::new(120, 50);
    let t = text_of(60);
    assert_eq!(d.evaluate(1, &t, 0), fresh());
    assert_eq!(d.evaluate(2, &t, 1), fresh());
    assert_eq!(d.evaluate(1, &t, 2), repeat(2));
}

#[test]
fn texts_match_exactly() {
    let mut d = DuplicateDetector::new(120, 50);
    let t = text_of(60);
    let upper = "X".repeat(60);
    let padded = format!("{} ", t);
    assert_eq!(d.evaluate(1, &t, 0), fresh());
    assert_eq!(d.evaluate(1, &upper, 1), fresh());
    assert_eq!(d.evaluate(1, &padded, 2), fresh());
}

#[test]
fn clock_going_back_is_not_a_duplicate() {
    let mut d = DuplicateDetector::new(120, 50);
    let t = text_of(60);
    assert_eq!(d.evaluate(1, &t, 100), fresh());
    assert_eq!(d.evaluate(1, &t, 50), fresh());
    assert_eq!(d.evaluate(1, &t, 60), repeat(10));
}

#[test]
fn decide_values() {
    assert_eq!(decide(None, 10, 120), fresh());
    assert_eq!(decide(Some(0), 30, 120), repeat(30));
    assert_eq!(decide(Some(0), 120, 120), repeat(120));
    assert_eq!(decide(Some(0), 121, 120), fresh());
    assert_eq!(decide(Some(50), 40, 120), fresh());
    assert_eq!(decide(Some(7), 7, 0), repeat(0));
}

#[test]
fn window_is_exact_to_the_millisecond() {
    let mut d = DuplicateDetector::with_defaults();
    let t = text_of(60);
    assert_eq!(d.evaluate(1, &t, 0), fresh());
    assert_eq!(d.evaluate(1, &t, 120_000), repeat(120_000));
    assert_eq!(d.evaluate(1, &t, 240_001), fresh());
}

#[test]
fn live_prior_values() {
    assert_eq!(live_prior(None, 10, 120), None);
    assert_eq!(live_prior(Some(0), 120, 120), Some(0));
    assert_eq!(live_prior(Some(0), 121, 120), None);
    assert_eq!(live_prior(Some(500), 100, 120), Some(500));
    assert_eq!(live_prior(Some(7), 7, 0), Some(7));
}
