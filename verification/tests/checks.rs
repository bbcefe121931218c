use abuse_limiter::tiered::{decide, lifetime_of, window_start_of};
use abuse_limiter::{
    AbuseLimiterConfig, BlockRecord, Decision, KeyState, Refusal, Tier, MAX_SECONDS,
    TOO_MANY_REQUESTS,
};

const T0: u64 = 1_700_000_000;

fn config(
    temp_block_attempts: u64,
    temp_block_range: u64,
    temp_block_duration: u64,
    block_retry_limit: u64,
    block_range: u64,
    block_duration: u64,
) -> AbuseLimiterConfig {
    AbuseLimiterConfig::new(
        String::from("login"),
        temp_block_attempts,
        temp_block_range,
        temp_block_duration,
        block_retry_limit,
        block_range,
        block_duration,
    )
    .unwrap()
}

#[test]
fn fourth_check_within_the_short_window_is_denied_temporarily() {
    let config = config(3, 360, 3600, 100, 86400, 86400);
    let mut key = KeyState::new();
    assert_eq!(key.check(&config, T0), Decision::Allow);
    assert_eq!(key.check(&config, T0 + 100), Decision::Allow);
    assert_eq!(key.check(&config, T0 + 200), Decision::Allow);
    assert_eq!(
        key.check(&config, T0 + 300),
        Decision::Deny { tier: Tier::Temporary, retry_after: 3600 }
    );
    assert_eq!(
        key.blocks().stored(),
        Some(BlockRecord { blocked_until: T0 + 300 + 3600, tier: Tier::Temporary })
    );
}

#[test]
fn sixth_attempt_over_the_long_window_is_denied_at_the_extended_tier() {
    let config = config(3, 360, 3600, 5, 86400, 86400);
    let mut key = KeyState::new();
    for i in 0..5u64 {
        assert_eq!(key.check(&config, T0 + i * 16000), Decision::Allow);
    }
    assert_eq!(
        key.check(&config, T0 + 80000),
        Decision::Deny { tier: Tier::Extended, retry_after: 86400 }
    );
    assert_eq!(
        key.blocks().stored(),
        Some(BlockRecord { blocked_until: T0 + 80000 + 86400, tier: Tier::Extended })
    );
}

#[test]
fn check_after_the_block_has_run_out_is_allowed_and_leaves_no_record() {
    let config = config(1, 360, 3600, 100, 86400, 86400);
    let mut key = KeyState::new();
    assert_eq!(key.check(&config, T0), Decision::Allow);
    assert_eq!(
        key.check(&config, T0 + 1),
        Decision::Deny { tier: Tier::Temporary, retry_after: 3600 }
    );
    let blocked_until = T0 + 1 + 3600;
    assert_eq!(key.check(&config, blocked_until), Decision::Allow);
    assert_eq!(key.blocks().get_block(blocked_until), None);
    assert_eq!(key.blocks().stored(), None);
    assert_eq!(key.blocks().get_block(blocked_until + 1), None);
}

#[test]
fn quiet_key_is_always_allowed() {
    let config = config(3, 360, 3600, 5, 900, 86400);
    let mut key = KeyState::new();
    for i in 0..50u64 {
        assert_eq!(key.check(&config, T0 + i * 1000), Decision::Allow);
        assert_eq!(key.blocks().stored(), None);
    }
}

#[test]
fn every_check_until_the_block_runs_out_is_denied_and_records_nothing() {
    let config = config(2, 360, 3600, 100, 900, 86400);
    let mut key = KeyState::new();
    assert_eq!(key.check(&config, T0), Decision::Allow);
    assert_eq!(key.check(&config, T0), Decision::Allow);
    assert_eq!(
        key.check(&config, T0),
        Decision::Deny { tier: Tier::Temporary, retry_after: 3600 }
    );
    assert_eq!(key.attempts().len(), 3);
    assert_eq!(
        key.check(&config, T0),
        Decision::Deny { tier: Tier::Temporary, retry_after: 3600 }
    );
    assert_eq!(
        key.check(&config, T0 + 1),
        Decision::Deny { tier: Tier::Temporary, retry_after: 3599 }
    );
    assert_eq!(
        key.check(&config, T0 + 3599),
        Decision::Deny { tier: Tier::Temporary, retry_after: 1 }
    );
    assert_eq!(key.attempts().len(), 3);
    assert_eq!(key.attempts().expires_at(), T0 + 900);
}

#[test]
fn the_attempt_that_reaches_the_threshold_is_still_allowed() {
    let config = config(3, 360, 3600, 100, 900, 86400);
    let mut key = KeyState::new();
    for _ in 0..3 {
        assert_eq!(key.check(&config, T0), Decision::Allow);
    }
    assert!(matches!(key.check(&config, T0), Decision::Deny { .. }));
}

#[test]
fn threshold_zero_denies_the_first_attempt() {
    let config = config(0, 360, 3600, 100, 900, 86400);
    let mut key = KeyState::new();
    assert_eq!(
        key.check(&config, T0),
        Decision::Deny { tier: Tier::Temporary, retry_after: 3600 }
    );
}

#[test]
fn long_window_wins_when_both_thresholds_are_passed() {
    let config = config(2, 360, 3600, 2, 900, 86400);
    let mut key = KeyState::new();
    assert_eq!(key.check(&config, T0), Decision::Allow);
    assert_eq!(key.check(&config, T0 + 1), Decision::Allow);
    assert_eq!(
        key.check(&config, T0 + 2),
        Decision::Deny { tier: Tier::Extended, retry_after: 86400 }
    );
    assert_eq!(
        key.blocks().stored(),
        Some(BlockRecord { blocked_until: T0 + 2 + 86400, tier: Tier::Extended })
    );
}

#[test]
fn temporary_block_is_replaced_by_an_extended_one_on_escalation() {
    let config = config(1, 60, 600, 3, 900, 86400);
    let mut key = KeyState::new();
    assert_eq!(key.check(&config, T0), Decision::Allow);
    assert_eq!(
        key.check(&config, T0 + 10),
        Decision::Deny { tier: Tier::Temporary, retry_after: 600 }
    );
    assert_eq!(
        key.blocks().stored(),
        Some(BlockRecord { blocked_until: T0 + 610, tier: Tier::Temporary })
    );
    assert_eq!(
        key.evaluate(&config, T0 + 20),
        Decision::Deny { tier: Tier::Temporary, retry_after: 600 }
    );
    assert_eq!(
        key.evaluate(&config, T0 + 30),
        Decision::Deny { tier: Tier::Extended, retry_after: 86400 }
    );
    assert_eq!(
        key.blocks().stored(),
        Some(BlockRecord { blocked_until: T0 + 30 + 86400, tier: Tier::Extended })
    );
    assert_eq!(
        key.check(&config, T0 + 40),
        Decision::Deny { tier: Tier::Extended, retry_after: 86400 - 10 }
    );
}

#[test]
fn extended_block_is_not_turned_into_a_temporary_one() {
    let config = config(0, 60, 600, 0, 900, 86400);
    let mut key = KeyState::new();
    assert_eq!(
        key.check(&config, T0),
        Decision::Deny { tier: Tier::Extended, retry_after: 86400 }
    );
    let lenient = AbuseLimiterConfig::new(String::from("login"), 0, 60, 600, 100, 900, 86400)
        .unwrap();
    assert_eq!(
        key.check(&lenient, T0 + 100),
        Decision::Deny { tier: Tier::Extended, retry_after: 86300 }
    );
    assert_eq!(
        key.blocks().stored(),
        Some(BlockRecord { blocked_until: T0 + 86400, tier: Tier::Extended })
    );
}

#[test]
fn log_keeps_earlier_attempts_after_a_block_has_run_out() {
    let config = config(1, 60, 100, 100, 900, 86400);
    let mut key = KeyState::new();
    assert_eq!(key.check(&config, T0), Decision::Allow);
    assert!(matches!(key.check(&config, T0 + 1), Decision::Deny { .. }));
    assert_eq!(key.check(&config, T0 + 200), Decision::Allow);
    assert_eq!(key.attempts().len(), 3);
    assert_eq!(key.attempts().count_in_range(T0, T0 + 1), 2);
    assert_eq!(key.attempts().count_in_range(T0, T0 + 200), 3);
}

#[test]
fn a_new_burst_after_the_block_has_run_out_blocks_again() {
    let config = config(1, 60, 100, 100, 900, 86400);
    let mut key = KeyState::new();
    assert_eq!(key.check(&config, T0), Decision::Allow);
    assert!(matches!(key.check(&config, T0 + 1), Decision::Deny { .. }));
    assert_eq!(key.check(&config, T0 + 200), Decision::Allow);
    assert_eq!(
        key.check(&config, T0 + 201),
        Decision::Deny { tier: Tier::Temporary, retry_after: 100 }
    );
}

#[test]
fn the_current_attempt_counts_in_both_windows() {
    let config = config(0, 60, 600, 0, 900, 86400);
    let mut key = KeyState::new();
    key.evaluate(&config, T0);
    assert_eq!(key.attempts().count_in_range(T0 - 60, T0), 1);
    assert_eq!(key.attempts().count_in_range(T0 - 900, T0), 1);
}

#[test]
fn an_attempt_exactly_one_range_old_is_still_in_the_window() {
    let config = config(1, 60, 600, 100, 900, 86400);
    let mut key = KeyState::new();
    assert_eq!(key.check(&config, T0), Decision::Allow);
    assert_eq!(
        key.check(&config, T0 + 60),
        Decision::Deny { tier: Tier::Temporary, retry_after: 600 }
    );
    let mut other = KeyState::new();
    assert_eq!(other.check(&config, T0), Decision::Allow);
    assert_eq!(other.check(&config, T0 + 61), Decision::Allow);
}

#[test]
fn windows_that_reach_before_second_zero_start_at_zero() {
    let config = config(1, 360, 3600, 100, 900, 86400);
    let mut key = KeyState::new();
    assert_eq!(key.check(&config, 0), Decision::Allow);
    assert_eq!(
        key.check(&config, 5),
        Decision::Deny { tier: Tier::Temporary, retry_after: 3600 }
    );
    assert_eq!(window_start_of(5, 360), 0);
    assert_eq!(window_start_of(360, 360), 0);
    assert_eq!(window_start_of(1000, 360), 640);
}

#[test]
fn attempts_older_than_the_retention_are_forgotten() {
    let config = config(3, 360, 3600, 5, 900, 86400);
    let mut key = KeyState::new();
    assert_eq!(key.check(&config, T0), Decision::Allow);
    assert_eq!(key.check(&config, T0 + 10), Decision::Allow);
    assert_eq!(key.attempts().expires_at(), T0 + 910);
    assert_eq!(key.check(&config, T0 + 911), Decision::Allow);
    assert_eq!(key.attempts().len(), 1);
}

#[test]
fn check_works_at_the_largest_timestamp() {
    let config = config(0, 360, 3600, 100, 900, MAX_SECONDS);
    let mut key = KeyState::new();
    assert_eq!(
        key.check(&config, MAX_SECONDS),
        Decision::Deny { tier: Tier::Temporary, retry_after: 3600 }
    );
    let strict = AbuseLimiterConfig::new(String::from("k"), 0, 0, MAX_SECONDS, 0, 0, MAX_SECONDS)
        .unwrap();
    let mut other = KeyState::new();
    assert_eq!(
        other.check(&strict, MAX_SECONDS),
        Decision::Deny { tier: Tier::Extended, retry_after: MAX_SECONDS }
    );
    assert_eq!(
        other.blocks().stored(),
        Some(BlockRecord { blocked_until: u64::MAX - 1, tier: Tier::Extended })
    );
}

#[test]
fn decide_looks_at_both_counts() {
    let config = config(3, 360, 3600, 5, 900, 86400);
    assert_eq!(decide(&config, 3, 5), None);
    assert_eq!(decide(&config, 4, 5), Some(Tier::Temporary));
    assert_eq!(decide(&config, 3, 6), Some(Tier::Extended));
    assert_eq!(decide(&config, 4, 6), Some(Tier::Extended));
    assert_eq!(decide(&config, 0, 0), None);
    assert_eq!(lifetime_of(&config, Tier::Temporary), 3600);
    assert_eq!(lifetime_of(&config, Tier::Extended), 86400);
}

#[test]
fn a_refusal_tells_status_name_message_and_wait() {
    assert_eq!(Decision::Allow.refusal(), None);
    assert_eq!(TOO_MANY_REQUESTS, 429);
    assert_eq!(
        Decision::Deny { tier: Tier::Temporary, retry_after: 3600 }.refusal(),
        Some(Refusal {
            status: 429,
            error: "Too many attempts",
            message: "You have been temporarily blocked due to too many verification attempts. Please try again in an hour.",
            retry_after: 3600,
        })
    );
    assert_eq!(
        Decision::Deny { tier: Tier::Extended, retry_after: 7 }.refusal(),
        Some(Refusal {
            status: 429,
            error: "Too many attempts",
            message: "You have been temporarily blocked due to too many verification attempts. Please try again in 24 hours.",
            retry_after: 7,
        })
    );
}
