use abuse_limiter::clock::second_at;
use abuse_limiter::{
    limiter, AbuseLimiterConfig, BlockRecord, Command, Decision, KeyState, LimiterError, Phase,
    Reply, Session, Step, Tier, MAX_SECONDS,
};

const T0: u64 = 1_700_000_000;

fn config() -> AbuseLimiterConfig {
    AbuseLimiterConfig::new(String::from("login"), 3, 360, 3600, 5, 900, 86400).unwrap()
}

fn key() -> String {
    String::from("1.2.3.4")
}

/// Runs one whole check against a key held in memory and gives its outcome
/// with the number of commands that were sent.
fn converse(
    store: &mut KeyState,
    config: &AbuseLimiterConfig,
    now: u64,
) -> (Result<Decision, LimiterError>, usize) {
    let (mut session, mut command) = Session::begin(key(), config, now, 0);
    let mut sent = 0;
    loop {
        let reply = store.serve(&command, now);
        sent += 1;
        match limiter(&mut session, reply) {
            Step::Ask(next) => command = next,
            Step::Finished(outcome) => return (outcome, sent),
        }
    }
}

#[test]
fn session_begins_by_reading_the_block() {
    let (session, command) = Session::begin(key(), &config(), T0, 7);
    assert_eq!(command, Command::ReadBlock);
    assert_eq!(session.phase(), Phase::ReadingBlock);
    assert_eq!(session.now(), T0);
    assert_eq!(session.outcome(), None);
}

#[test]
fn storage_keys_hold_prefix_and_key() {
    let (session, _) = Session::begin(key(), &config(), T0, 7);
    assert_eq!(session.block_key(), "abuse_limiter:block:login:1.2.3.4");
    assert_eq!(session.attempts_key(), "abuse_limiter:attempts:login:1.2.3.4");
}

#[test]
fn an_allowed_check_sends_five_commands_in_order() {
    let (mut session, _) = Session::begin(key(), &config(), T0, 7);
    assert_eq!(
        limiter(&mut session, Reply::Value(None)),
        Step::Ask(Command::AddAttempt { score: T0, member: b"1700000000-7".to_vec() })
    );
    assert_eq!(session.phase(), Phase::AddingAttempt);
    assert_eq!(
        limiter(&mut session, Reply::Done),
        Step::Ask(Command::KeepAttempts { seconds: 900 })
    );
    assert_eq!(
        limiter(&mut session, Reply::Done),
        Step::Ask(Command::CountAttempts { from: T0 - 360, to: T0 })
    );
    assert_eq!(
        limiter(&mut session, Reply::Count(3)),
        Step::Ask(Command::CountAttempts { from: T0 - 900, to: T0 })
    );
    assert_eq!(session.phase(), Phase::CountingLong { short_count: 3 });
    assert_eq!(limiter(&mut session, Reply::Count(5)), Step::Finished(Ok(Decision::Allow)));
    assert_eq!(session.outcome(), Some(Ok(Decision::Allow)));
}

#[test]
fn short_count_over_the_threshold_writes_a_temporary_block() {
    let (mut session, _) = Session::begin(key(), &config(), T0, 0);
    limiter(&mut session, Reply::Value(None));
    limiter(&mut session, Reply::Done);
    limiter(&mut session, Reply::Done);
    limiter(&mut session, Reply::Count(4));
    assert_eq!(
        limiter(&mut session, Reply::Count(4)),
        Step::Ask(Command::WriteBlock { value: b"1700003600:temporary".to_vec(), seconds: 3600 })
    );
    assert_eq!(session.phase(), Phase::WritingBlock { tier: Tier::Temporary });
    assert_eq!(
        limiter(&mut session, Reply::Done),
        Step::Finished(Ok(Decision::Deny { tier: Tier::Temporary, retry_after: 3600 }))
    );
}

#[test]
fn long_count_over_the_threshold_writes_an_extended_block() {
    let (mut session, _) = Session::begin(key(), &config(), T0, 0);
    limiter(&mut session, Reply::Value(None));
    limiter(&mut session, Reply::Done);
    limiter(&mut session, Reply::Done);
    limiter(&mut session, Reply::Count(4));
    assert_eq!(
        limiter(&mut session, Reply::Count(6)),
        Step::Ask(Command::WriteBlock { value: b"1700086400:extended".to_vec(), seconds: 86400 })
    );
    assert_eq!(
        limiter(&mut session, Reply::Done),
        Step::Finished(Ok(Decision::Deny { tier: Tier::Extended, retry_after: 86400 }))
    );
}

#[test]
fn a_block_that_has_not_run_out_ends_the_check_at_once() {
    let (mut session, _) = Session::begin(key(), &config(), T0, 0);
    let step = limiter(&mut session, Reply::Value(Some(b"1700000100:extended".to_vec())));
    assert_eq!(
        step,
        Step::Finished(Ok(Decision::Deny { tier: Tier::Extended, retry_after: 100 }))
    );
    assert!(matches!(session.phase(), Phase::Finished { .. }));
}

#[test]
fn a_block_that_has_run_out_is_deleted_and_the_check_goes_on() {
    let (mut session, _) = Session::begin(key(), &config(), T0, 0);
    let step = limiter(&mut session, Reply::Value(Some(b"1700000000:temporary".to_vec())));
    assert_eq!(step, Step::Ask(Command::DeleteBlock));
    assert_eq!(session.phase(), Phase::DeletingBlock);
    assert_eq!(
        limiter(&mut session, Reply::Done),
        Step::Ask(Command::AddAttempt { score: T0, member: b"1700000000-0".to_vec() })
    );
}

#[test]
fn a_failed_deletion_is_passed_over() {
    let (mut session, _) = Session::begin(key(), &config(), T0, 0);
    limiter(&mut session, Reply::Value(Some(b"5:temporary".to_vec())));
    assert_eq!(
        limiter(&mut session, Reply::Failed),
        Step::Ask(Command::AddAttempt { score: T0, member: b"1700000000-0".to_vec() })
    );
}

#[test]
fn a_store_failure_ends_the_check_with_store_unavailable() {
    let unavailable: Step = Step::Finished(Err(LimiterError::StoreUnavailable));
    let replies_before = [
        vec![],
        vec![Reply::Value(None)],
        vec![Reply::Value(None), Reply::Done],
        vec![Reply::Value(None), Reply::Done, Reply::Done],
        vec![Reply::Value(None), Reply::Done, Reply::Done, Reply::Count(9)],
        vec![Reply::Value(None), Reply::Done, Reply::Done, Reply::Count(9), Reply::Count(1)],
    ];
    for replies in replies_before {
        let (mut session, _) = Session::begin(key(), &config(), T0, 0);
        for reply in replies {
            assert!(matches!(limiter(&mut session, reply), Step::Ask(_)));
        }
        assert_eq!(limiter(&mut session, Reply::Failed), unavailable);
        assert_eq!(session.outcome(), Some(Err(LimiterError::StoreUnavailable)));
    }
}

#[test]
fn a_value_that_is_no_block_record_ends_the_check_with_store_unavailable() {
    let (mut session, _) = Session::begin(key(), &config(), T0, 0);
    assert_eq!(
        limiter(&mut session, Reply::Value(Some(b"soon".to_vec()))),
        Step::Finished(Err(LimiterError::StoreUnavailable))
    );
}

#[test]
fn a_reply_of_the_wrong_kind_ends_the_check_with_store_unavailable() {
    let (mut session, _) = Session::begin(key(), &config(), T0, 0);
    assert_eq!(
        limiter(&mut session, Reply::Count(1)),
        Step::Finished(Err(LimiterError::StoreUnavailable))
    );
    let (mut other, _) = Session::begin(key(), &config(), T0, 0);
    limiter(&mut other, Reply::Value(None));
    assert_eq!(
        limiter(&mut other, Reply::Count(1)),
        Step::Finished(Err(LimiterError::StoreUnavailable))
    );
}

#[test]
fn a_session_that_is_over_repeats_its_outcome() {
    let (mut session, _) = Session::begin(key(), &config(), T0, 0);
    let denied = Step::Finished(Ok(Decision::Deny { tier: Tier::Temporary, retry_after: 50 }));
    assert_eq!(limiter(&mut session, Reply::Value(Some(b"1700000050:temporary".to_vec()))), denied);
    assert_eq!(limiter(&mut session, Reply::Done), denied);
    assert_eq!(limiter(&mut session, Reply::Failed), denied);
}

#[test]
fn windows_of_a_session_start_no_earlier_than_second_zero() {
    let (mut session, _) = Session::begin(key(), &config(), 100, 0);
    limiter(&mut session, Reply::Value(None));
    limiter(&mut session, Reply::Done);
    assert_eq!(
        limiter(&mut session, Reply::Done),
        Step::Ask(Command::CountAttempts { from: 0, to: 100 })
    );
}

#[test]
fn store_in_memory_answers_each_command() {
    let mut store = KeyState::new();
    assert_eq!(store.serve(&Command::ReadBlock, T0), Reply::Value(None));
    let add = Command::AddAttempt { score: T0, member: b"1700000000-0".to_vec() };
    assert_eq!(store.serve(&add, T0), Reply::Done);
    assert_eq!(store.serve(&add, T0), Reply::Done);
    assert_eq!(store.serve(&Command::KeepAttempts { seconds: 900 }, T0), Reply::Done);
    assert_eq!(store.attempts().expires_at(), T0 + 900);
    assert_eq!(store.serve(&Command::CountAttempts { from: T0, to: T0 }, T0), Reply::Count(2));
    assert_eq!(
        store.serve(&Command::CountAttempts { from: T0 + 1, to: T0 + 9 }, T0),
        Reply::Count(0)
    );
    let write = Command::WriteBlock { value: b"1700003600:temporary".to_vec(), seconds: 3600 };
    assert_eq!(store.serve(&write, T0), Reply::Done);
    assert_eq!(
        store.blocks().stored(),
        Some(BlockRecord { blocked_until: T0 + 3600, tier: Tier::Temporary })
    );
    assert_eq!(
        store.serve(&Command::ReadBlock, T0),
        Reply::Value(Some(b"1700003600:temporary".to_vec()))
    );
    assert_eq!(store.serve(&Command::DeleteBlock, T0), Reply::Done);
    assert_eq!(store.serve(&Command::ReadBlock, T0), Reply::Value(None));
}

#[test]
fn store_in_memory_refuses_what_it_cannot_keep() {
    let mut store = KeyState::new();
    let write = Command::WriteBlock { value: b"garbage".to_vec(), seconds: 10 };
    assert_eq!(store.serve(&write, T0), Reply::Failed);
    assert_eq!(store.blocks().stored(), None);
    assert_eq!(store.serve(&Command::KeepAttempts { seconds: u64::MAX }, 1), Reply::Failed);
}

#[test]
fn store_in_memory_drops_attempts_past_their_retention() {
    let mut store = KeyState::new();
    let add = Command::AddAttempt { score: T0, member: b"1700000000-0".to_vec() };
    store.serve(&add, T0);
    store.serve(&Command::KeepAttempts { seconds: 900 }, T0);
    assert_eq!(
        store.serve(&Command::CountAttempts { from: 0, to: u64::MAX }, T0 + 900),
        Reply::Count(1)
    );
    assert_eq!(
        store.serve(&Command::CountAttempts { from: 0, to: u64::MAX }, T0 + 901),
        Reply::Count(0)
    );
}

#[test]
fn a_session_decides_what_a_check_in_memory_decides() {
    let config = config();
    let times = [
        T0,
        T0 + 10,
        T0 + 20,
        T0 + 30,
        T0 + 40,
        T0 + 3629,
        T0 + 3630,
        T0 + 3631,
        T0 + 3632,
        T0 + 90_000,
        T0 + 200_000,
        T0 + 200_000,
    ];
    let mut direct = KeyState::new();
    let mut served = KeyState::new();
    for now in times {
        let expected = direct.check(&config, now);
        let (outcome, sent) = converse(&mut served, &config, now);
        assert_eq!(outcome, Ok(expected));
        assert!(sent <= 7);
        assert_eq!(served.blocks().stored(), direct.blocks().stored());
        assert_eq!(served.attempts().len(), direct.attempts().len());
        assert_eq!(served.attempts().expires_at(), direct.attempts().expires_at());
        assert_eq!(
            served.attempts().count_in_range(0, u64::MAX),
            direct.attempts().count_in_range(0, u64::MAX)
        );
    }
}

#[test]
fn four_sessions_within_the_short_window_end_in_a_temporary_block() {
    let config = AbuseLimiterConfig::new(String::from("login"), 3, 360, 3600, 100, 86400, 86400)
        .unwrap();
    let mut store = KeyState::new();
    assert_eq!(converse(&mut store, &config, T0), (Ok(Decision::Allow), 5));
    assert_eq!(converse(&mut store, &config, T0 + 100), (Ok(Decision::Allow), 5));
    assert_eq!(converse(&mut store, &config, T0 + 200), (Ok(Decision::Allow), 5));
    assert_eq!(
        converse(&mut store, &config, T0 + 300),
        (Ok(Decision::Deny { tier: Tier::Temporary, retry_after: 3600 }), 6)
    );
    assert_eq!(
        converse(&mut store, &config, T0 + 301),
        (Ok(Decision::Deny { tier: Tier::Temporary, retry_after: 3599 }), 1)
    );
    assert_eq!(converse(&mut store, &config, T0 + 3900), (Ok(Decision::Allow), 6));
    assert_eq!(store.blocks().stored(), None);
}

#[test]
fn a_reading_of_the_clock_before_1970_stands_for_second_zero() {
    assert_eq!(second_at(-1), 0);
    assert_eq!(second_at(i64::MIN), 0);
    assert_eq!(second_at(0), 0);
    assert_eq!(second_at(1_700_000_000), 1_700_000_000);
    assert_eq!(second_at(i64::MAX), MAX_SECONDS);
    let (session, command) = Session::begin_at_reading(key(), &config(), -5, 3);
    assert_eq!(session.now(), 0);
    assert_eq!(command, Command::ReadBlock);
}

#[test]
fn a_session_begun_now_carries_the_time_of_the_clock() {
    let (mut session, command) = Session::begin_now(key(), &config());
    assert_eq!(command, Command::ReadBlock);
    assert_eq!(session.phase(), Phase::ReadingBlock);
    let now = session.now();
    assert!(now > 1_000_000_000);
    assert!(now <= MAX_SECONDS);
    match limiter(&mut session, Reply::Value(None)) {
        Step::Ask(Command::AddAttempt { score, member }) => {
            assert_eq!(score, now);
            assert!(member.starts_with(format!("{}-", now).as_bytes()));
        }
        other => panic!("unexpected step {:?}", other),
    }
}
