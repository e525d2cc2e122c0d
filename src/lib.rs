//! Detection of repeated text events: an idle-window cache of recently seen
//! (originator, text) pairs and a detector that answers, per event, whether it
//! repeats one seen within the window. Timestamps and durations are counted
//! in milliseconds.
mod store;
pub mod cache;
pub mod detector;

pub use cache::{live_prior, IdleCache};
pub use detector::{
    decide, DuplicateDecision, DuplicateDetector, DEFAULT_IDLE_MILLIS, DEFAULT_MIN_TRACKED_LENGTH,
};
pub use store::MAX_STORE_IDLE_MILLIS;
