use papers::rate_limit_log::should_log_at;
use papers::rate_limit_log::ConsecutiveErrorLog;

#[test]
fn should_log_at_powers_of_two() {
    assert!(should_log_at(1));
    assert!(should_log_at(2));
    assert!(!should_log_at(3));
    assert!(should_log_at(4));
    assert!(!should_log_at(5));
    assert!(!should_log_at(6));
    assert!(!should_log_at(7));
    assert!(should_log_at(8));
    assert!(should_log_at(16));
    assert!(should_log_at(1024));
}

#[test]
fn should_log_at_zero_is_false() {
    assert!(!should_log_at(0));
}

#[test]
fn note_error_increments_counter() {
    let mut log = ConsecutiveErrorLog::new("test");
    assert_eq!(log.consecutive(), 0);
    log.note_error();
    assert_eq!(log.consecutive(), 1);
    log.note_error();
    assert_eq!(log.consecutive(), 2);
}

#[test]
fn note_success_resets_counter() {
    let mut log = ConsecutiveErrorLog::new("test");
    log.note_error();
    log.note_error();
    log.note_error();
    assert_eq!(log.consecutive(), 3);
    log.note_success();
    assert_eq!(log.consecutive(), 0);
}

#[test]
fn note_success_with_no_prior_errors_is_noop() {
    let mut log = ConsecutiveErrorLog::new("test");
    log.note_success();
    log.note_success();
    log.note_success();
    assert_eq!(log.consecutive(), 0);
}

#[test]
fn counter_saturates() {
    let mut log = ConsecutiveErrorLog::new("test");
    log.consecutive = u32::MAX - 1;
    log.note_error();
    assert_eq!(log.consecutive(), u32::MAX);
    log.note_error();
    assert_eq!(log.consecutive(), u32::MAX);
}
