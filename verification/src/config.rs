use std::time::Duration;
use vstd::prelude::*;

verus! {

/// Number of buffered changes that triggers processing.
pub const PROCESS_CHANGES_THRESHOLD: usize = 1000;

/// Processing that takes longer than this many milliseconds is reported.
pub const PROCESSING_WARN_THRESHOLD_MS: u64 = 5000;

/// Milliseconds between two runs of buffered-change processing.
pub const PROCESS_BUFFER_INTERVAL_MS: u64 = 600;

/// Milliseconds between two purges of old changes.
pub const PURGE_CHANGES_INTERVAL_MS: u64 = 300000;

/// The span of `ms` milliseconds, as `Duration::from_millis` gives it.
pub uninterp spec fn duration_of_millis(ms: u64) -> Duration;

/// A span of `ms` milliseconds (`Duration::from_millis`, which never
/// panics).  The span is opaque here; the contract names it.
#[verifier::external_body]
fn millis(ms: u64) -> (d: Duration)
    ensures
        d == duration_of_millis(ms),
{
    Duration::from_millis(ms)
}

/// Configuration used by a matcher's event loop.
pub struct MatcherLoopConfig {
    /// Maximum number of changes that will be buffered before being sent to
    /// the subscriber.
    pub changes_threshold: usize,
    /// The interval at which buffered changes will be processed, if the
    /// number of buffered changes does not surpass `changes_threshold`.
    pub process_buffer_interval: Duration,
    /// Processing that takes longer than this is reported.
    pub processing_warn_threshold: Duration,
    /// Interval at which old changes are purged from the database.
    pub purge_changes_interval: Duration,
}

impl MatcherLoopConfig {
    /// The configuration used when nothing else is asked for: a threshold of
    /// 1000 changes, processing every 600 ms, a warning past 5 s, a purge
    /// every 300 s.
    pub open spec fn spec_default() -> MatcherLoopConfig {
        MatcherLoopConfig {
            changes_threshold: PROCESS_CHANGES_THRESHOLD,
            process_buffer_interval: duration_of_millis(PROCESS_BUFFER_INTERVAL_MS),
            processing_warn_threshold: duration_of_millis(PROCESSING_WARN_THRESHOLD_MS),
            purge_changes_interval: duration_of_millis(PURGE_CHANGES_INTERVAL_MS),
        }
    }

    /// A config suitable for testing: every change is processed at once,
    /// everything else is as in the default configuration.
    pub fn testing() -> (cfg: MatcherLoopConfig)
        ensures
            cfg == (MatcherLoopConfig { changes_threshold: 0, ..Self::spec_default() }),
    {
        MatcherLoopConfig { changes_threshold: 0, ..Self::default() }
    }
}

impl Clone for MatcherLoopConfig {
    fn clone(&self) -> (r: Self)
        ensures
            r == *self,
    {
        MatcherLoopConfig {
            changes_threshold: self.changes_threshold,
            process_buffer_interval: self.process_buffer_interval,
            processing_warn_threshold: self.processing_warn_threshold,
            purge_changes_interval: self.purge_changes_interval,
        }
    }
}

impl Default for MatcherLoopConfig {
    fn default() -> (cfg: MatcherLoopConfig)
        ensures
            cfg == Self::spec_default(),
    {
        MatcherLoopConfig {
            changes_threshold: PROCESS_CHANGES_THRESHOLD,
            process_buffer_interval: millis(PROCESS_BUFFER_INTERVAL_MS),
            processing_warn_threshold: millis(PROCESSING_WARN_THRESHOLD_MS),
            purge_changes_interval: millis(PURGE_CHANGES_INTERVAL_MS),
        }
    }
}

} // verus!
