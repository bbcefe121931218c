//! Per-call configuration of the limiter and the errors of the subsystem.
use vstd::prelude::*;

verus! {

/// Largest timestamp, window width or block lifetime, in seconds, that the
/// limiter works with: what a signed 64-bit number of seconds can hold, which
/// is how a shared store takes an expiry.
pub const MAX_SECONDS: u64 = 0x7fff_ffff_ffff_ffff;

/// The two faults of the subsystem. A denial is no fault: it is a decision.
#[derive(Clone, Copy, Debug, PartialEq, Eq, Structural)]
pub enum LimiterError {
    /// The shared store could not be reached or answered something unusable.
    StoreUnavailable,
    /// The thresholds and windows of a configuration contradict each other.
    InvalidConfig,
}

/// What a configuration says, as plain mathematical data.
pub struct LimiterParams {
    /// Namespace of the key's storage identity.
    pub key_prefix: Seq<char>,
    /// More attempts than this in the short window bring a temporary block.
    pub temp_block_attempts: u64,
    /// Width of the short trailing window, in seconds.
    pub temp_block_range: u64,
    /// Lifetime of a temporary block, in seconds.
    pub temp_block_duration: u64,
    /// More attempts than this in the long window bring an extended block.
    pub block_retry_limit: u64,
    /// Width of the long trailing window, in seconds.
    pub block_range: u64,
    /// Lifetime of an extended block, in seconds.
    pub block_duration: u64,
}

impl LimiterParams {
    /// For how long the attempts of a key are kept after the last one: long
    /// enough for the wider of the two windows.
    pub open spec fn retention(self) -> u64 {
        if self.temp_block_range <= self.block_range {
            self.block_range
        } else {
            self.temp_block_range
        }
    }

    /// The invariants of a configuration: the long window covers the short
    /// one, escalation never shortens the penalty, the retention of the
    /// attempts lies between the wider window and the extended block's
    /// lifetime, and every span fits a store expiry.
    pub open spec fn valid(self) -> bool {
        &&& self.temp_block_range <= self.block_range
        &&& self.temp_block_duration <= self.block_duration
        &&& self.retention() <= self.block_duration
        &&& self.block_duration <= MAX_SECONDS
    }
}

/// Configuration handed to every check: one value per protected action.
///
/// A value of this type always satisfies [`LimiterParams::valid`].
pub struct AbuseLimiterConfig {
    key_prefix: String,
    temp_block_attempts: u64,
    temp_block_range: u64,
    temp_block_duration: u64,
    block_retry_limit: u64,
    block_range: u64,
    block_duration: u64,
}

impl View for AbuseLimiterConfig {
    type V = LimiterParams;

    closed spec fn view(&self) -> LimiterParams {
        LimiterParams {
            key_prefix: self.key_prefix@,
            temp_block_attempts: self.temp_block_attempts,
            temp_block_range: self.temp_block_range,
            temp_block_duration: self.temp_block_duration,
            block_retry_limit: self.block_retry_limit,
            block_range: self.block_range,
            block_duration: self.block_duration,
        }
    }
}

impl AbuseLimiterConfig {
    #[verifier::type_invariant]
    pub open spec fn well_formed(&self) -> bool {
        self@.valid()
    }

    /// Builds a configuration, or refuses it with `InvalidConfig` when its
    /// invariants do not hold.
    pub fn new(
        key_prefix: String,
        temp_block_attempts: u64,
        temp_block_range: u64,
        temp_block_duration: u64,
        block_retry_limit: u64,
        block_range: u64,
        block_duration: u64,
    ) -> (made: Result<AbuseLimiterConfig, LimiterError>)
        ensures
            made is Ok <==> (LimiterParams {
                key_prefix: key_prefix@,
                temp_block_attempts,
                temp_block_range,
                temp_block_duration,
                block_retry_limit,
                block_range,
                block_duration,
            }).valid(),
            made matches Ok(config) ==> config@ == (LimiterParams {
                key_prefix: key_prefix@,
                temp_block_attempts,
                temp_block_range,
                temp_block_duration,
                block_retry_limit,
                block_range,
                block_duration,
            }),
            made matches Err(e) ==> e == LimiterError::InvalidConfig,
    {
        if temp_block_range > block_range || temp_block_duration > block_duration || block_range
            > block_duration || block_duration > MAX_SECONDS {
            return Err(LimiterError::InvalidConfig);
        }
        Ok(
            AbuseLimiterConfig {
                key_prefix,
                temp_block_attempts,
                temp_block_range,
                temp_block_duration,
                block_retry_limit,
                block_range,
                block_duration,
            },
        )
    }

    /// A second value that says the same.
    pub fn duplicate(&self) -> (copy: AbuseLimiterConfig)
        ensures
            copy@ == self@,
    {
        proof {
            use_type_invariant(self);
        }
        AbuseLimiterConfig {
            key_prefix: self.key_prefix.clone(),
            temp_block_attempts: self.temp_block_attempts,
            temp_block_range: self.temp_block_range,
            temp_block_duration: self.temp_block_duration,
            block_retry_limit: self.block_retry_limit,
            block_range: self.block_range,
            block_duration: self.block_duration,
        }
    }

    /// Namespace of the key's storage identity.
    pub fn key_prefix(&self) -> (prefix: &String)
        ensures
            prefix@ == self@.key_prefix,
    {
        &self.key_prefix
    }

    /// Threshold of the short window.
    pub fn temp_block_attempts(&self) -> (n: u64)
        ensures
            n == self@.temp_block_attempts,
    {
        self.temp_block_attempts
    }

    /// Width of the short window, in seconds.
    pub fn temp_block_range(&self) -> (seconds: u64)
        ensures
            seconds == self@.temp_block_range,
            seconds <= self@.block_range,
    {
        proof {
            use_type_invariant(self);
        }
        self.temp_block_range
    }

    /// Lifetime of a temporary block, in seconds.
    pub fn temp_block_duration(&self) -> (seconds: u64)
        ensures
            seconds == self@.temp_block_duration,
    {
        self.temp_block_duration
    }

    /// Threshold of the long window.
    pub fn block_retry_limit(&self) -> (n: u64)
        ensures
            n == self@.block_retry_limit,
    {
        self.block_retry_limit
    }

    /// Width of the long window, in seconds.
    pub fn block_range(&self) -> (seconds: u64)
        ensures
            seconds == self@.block_range,
    {
        self.block_range
    }

    /// Lifetime of an extended block, in seconds.
    pub fn block_duration(&self) -> (seconds: u64)
        ensures
            seconds == self@.block_duration,
    {
        self.block_duration
    }

    /// Seconds for which a key's attempts are kept after the last one.
    pub fn retention(&self) -> (seconds: u64)
        ensures
            seconds == self@.retention(),
    {
        if self.temp_block_range <= self.block_range {
            self.block_range
        } else {
            self.temp_block_range
        }
    }
}

} // verus!
