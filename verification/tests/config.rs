use corro_types::MatcherLoopConfig;
use std::time::Duration;

#[test]
fn the_default_config() {
    let c = MatcherLoopConfig::default();
    assert_eq!(c.changes_threshold, 1000);
    assert_eq!(c.process_buffer_interval, Duration::from_millis(600));
    assert_eq!(c.processing_warn_threshold, Duration::from_secs(5));
    assert_eq!(c.purge_changes_interval, Duration::from_secs(300));
}

#[test]
fn the_testing_config_processes_every_change() {
    let c = MatcherLoopConfig::testing();
    let d = MatcherLoopConfig::default();
    assert_eq!(c.changes_threshold, 0);
    assert_eq!(c.process_buffer_interval, d.process_buffer_interval);
    assert_eq!(c.processing_warn_threshold, d.processing_warn_threshold);
    assert_eq!(c.purge_changes_interval, d.purge_changes_interval);
    let e = c.clone();
    assert_eq!(e.changes_threshold, 0);
    assert_eq!(e.purge_changes_interval, Duration::from_secs(300));
}
