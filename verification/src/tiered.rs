//! The tiered limiter: the check-record-escalate decision on the state of
//! one key.
use crate::attempt_log::AttemptLogModel;
use crate::block_registry::{visible_block, BlockRecord, Tier};
use crate::config::{AbuseLimiterConfig, LimiterParams, MAX_SECONDS};
use vstd::prelude::*;

verus! {

/// What a check answers.
#[derive(Clone, Copy, Debug, PartialEq, Eq, Structural)]
pub enum Decision {
    /// The action may go on.
    Allow,
    /// The action is refused: the key is blocked at `tier` for `retry_after`
    /// more seconds.
    Deny { tier: Tier, retry_after: u64 },
}

/// The status with which a refused caller is answered: too many requests.
/// It tells a throttled caller from one that failed to authenticate.
pub const TOO_MANY_REQUESTS: u16 = 429;

/// What a refused caller is told.
#[derive(Clone, Copy, Debug, PartialEq, Eq)]
pub struct Refusal {
    /// Status of the answer: always [`TOO_MANY_REQUESTS`].
    pub status: u16,
    /// Short name of the refusal, the same at every tier.
    pub error: &'static str,
    /// The message of the tier at which the key is blocked.
    pub message: &'static str,
    /// Seconds after which the caller may try again.
    pub retry_after: u64,
}

impl Decision {
    /// The short name under which every refusal is reported.
    pub open spec fn error_text() -> Seq<char> {
        "Too many attempts"@
    }

    /// What the caller is told: nothing when the action is allowed, and on a
    /// refusal the status, the short name, the tier's message and the time
    /// to wait.
    pub fn refusal(&self) -> (told: Option<Refusal>)
        ensures
            *self == Decision::Allow ==> told is None,
            *self matches Decision::Deny { tier, retry_after } ==> told matches Some(refusal)
                && refusal.status == TOO_MANY_REQUESTS && refusal.error@ == Decision::error_text()
                && refusal.message@ == tier.message_text() && refusal.retry_after == retry_after,
    {
        match self {
            Decision::Allow => None,
            Decision::Deny { tier, retry_after } => Some(
                Refusal {
                    status: TOO_MANY_REQUESTS,
                    error: "Too many attempts",
                    message: tier.message(),
                    retry_after: *retry_after,
                },
            ),
        }
    }
}

/// Everything that is known of one key: its attempts and its block.
pub struct KeyModel {
    /// The attempt log.
    pub attempts: AttemptLogModel,
    /// The record in the block registry, expired or not.
    pub block: Option<BlockRecord>,
}

impl KeyModel {
    /// A key that was never seen: no attempt, no block.
    pub open spec fn fresh() -> KeyModel {
        KeyModel { attempts: AttemptLogModel::empty(), block: None }
    }
}

/// The tier that the two counts call for, if any. Both windows are looked
/// at, and the long one wins.
pub open spec fn escalation(p: LimiterParams, short_count: nat, long_count: nat) -> Option<Tier> {
    if long_count > p.block_retry_limit {
        Some(Tier::Extended)
    } else if short_count > p.temp_block_attempts {
        Some(Tier::Temporary)
    } else {
        None
    }
}

/// Lifetime in seconds of a block of the given tier.
pub open spec fn lifetime(p: LimiterParams, tier: Tier) -> u64 {
    match tier {
        Tier::Temporary => p.temp_block_duration,
        Tier::Extended => p.block_duration,
    }
}

/// Recording and escalation, the part of a check that comes once the key is
/// known not to be blocked: the attempt at `now` is recorded, both trailing
/// windows are counted with that attempt in them, and the block that the
/// counts call for is written.
pub open spec fn evaluate_model(s: KeyModel, p: LimiterParams, now: u64) -> (KeyModel, Decision) {
    let attempts = s.attempts.record(now, p.retention());
    let short_count = attempts.count(now - p.temp_block_range, now as int);
    let long_count = attempts.count(now - p.block_range, now as int);
    match escalation(p, short_count, long_count) {
        Some(tier) => (
            KeyModel {
                attempts,
                block: Some(
                    BlockRecord { blocked_until: (now + lifetime(p, tier)) as u64, tier },
                ),
            },
            Decision::Deny { tier, retry_after: lifetime(p, tier) },
        ),
        None => (KeyModel { attempts, block: s.block }, Decision::Allow),
    }
}

/// A whole check at `now`. A key with a block that has not run out is
/// refused with the time that is left, and nothing is recorded. Otherwise
/// what is left of an old block is removed and the attempt is recorded and
/// evaluated.
pub open spec fn check_model(s: KeyModel, p: LimiterParams, now: u64) -> (KeyModel, Decision) {
    match visible_block(s.block, now) {
        Some(record) => (
            s,
            Decision::Deny { tier: record.tier, retry_after: record.remaining(now) },
        ),
        None => evaluate_model(KeyModel { attempts: s.attempts, block: None }, p, now),
    }
}

/// The tier that the two counts call for under `config`, if any.
pub fn decide(config: &AbuseLimiterConfig, short_count: u64, long_count: u64) -> (tier: Option<
    Tier,
>)
    ensures
        tier == escalation(config@, short_count as nat, long_count as nat),
{
    if long_count > config.block_retry_limit() {
        Some(Tier::Extended)
    } else if short_count > config.temp_block_attempts() {
        Some(Tier::Temporary)
    } else {
        None
    }
}

/// Lifetime in seconds of a block of `tier` under `config`.
pub fn lifetime_of(config: &AbuseLimiterConfig, tier: Tier) -> (seconds: u64)
    ensures
        seconds == lifetime(config@, tier),
        seconds <= MAX_SECONDS,
{
    proof {
        use_type_invariant(config);
    }
    match tier {
        Tier::Temporary => config.temp_block_duration(),
        Tier::Extended => config.block_duration(),
    }
}

/// First second of the window of `range` seconds that ends at `now`; no
/// window starts before second 0.
pub open spec fn window_start(now: u64, range: u64) -> u64 {
    if now >= range {
        (now - range) as u64
    } else {
        0
    }
}

/// First second of the window of `range` seconds that ends at `now`.
pub fn window_start_of(now: u64, range: u64) -> (from: u64)
    ensures
        from == window_start(now, range),
{
    if now >= range {
        now - range
    } else {
        0
    }
}

} // verus!
