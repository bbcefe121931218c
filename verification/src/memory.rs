//! The state of one key held in memory: an attempt log and a block registry
//! that a check works on directly.
use crate::attempt_log::{lemma_count_at_most_len, lemma_count_from_zero, AttemptLog};
use crate::block_registry::BlockRegistry;
use crate::codec::{decode_block, encode_block};
use crate::config::{AbuseLimiterConfig, MAX_SECONDS};
use crate::protocol::{serve_model, Command, Reply};
use crate::tiered::{
    check_model, decide, evaluate_model, lifetime_of, window_start_of, Decision, KeyModel,
};
use vstd::prelude::*;

verus! {

/// The state of one key, held in memory.
pub struct KeyState {
    attempts: AttemptLog,
    blocks: BlockRegistry,
}

impl View for KeyState {
    type V = KeyModel;

    closed spec fn view(&self) -> KeyModel {
        KeyModel { attempts: self.attempts@, block: self.blocks@ }
    }
}

impl KeyState {
    /// A key that was never seen.
    pub fn new() -> (state: KeyState)
        ensures
            state@ == KeyModel::fresh(),
    {
        KeyState { attempts: AttemptLog::new(), blocks: BlockRegistry::new() }
    }

    /// The attempt log of the key.
    pub fn attempts(&self) -> (log: &AttemptLog)
        ensures
            log@ == self@.attempts,
    {
        &self.attempts
    }

    /// The block registry of the key.
    pub fn blocks(&self) -> (registry: &BlockRegistry)
        ensures
            registry@ == self@.block,
    {
        &self.blocks
    }

    /// Records an attempt at `now` and escalates: the part of a check that
    /// comes once the key is known not to be blocked.
    pub fn evaluate(&mut self, config: &AbuseLimiterConfig, now: u64) -> (decision: Decision)
        requires
            now <= MAX_SECONDS,
        ensures
            (final(self)@, decision) == evaluate_model(old(self)@, config@, now),
    {
        proof {
            use_type_invariant(config);
        }
        self.attempts.record(now, config.retention());
        let short_from: u64 = window_start_of(now, config.temp_block_range());
        let long_from: u64 = window_start_of(now, config.block_range());
        let short_count: usize = self.attempts.count_in_range(short_from, now);
        let long_count: usize = self.attempts.count_in_range(long_from, now);
        proof {
            let entries = self.attempts@.entries;
            if now < config@.temp_block_range {
                lemma_count_from_zero(entries, now - config@.temp_block_range, now as int);
            }
            if now < config@.block_range {
                lemma_count_from_zero(entries, now - config@.block_range, now as int);
            }
        }
        match decide(config, short_count as u64, long_count as u64) {
            Some(tier) => {
                let seconds: u64 = lifetime_of(config, tier);
                self.blocks.set_block(now + seconds, tier);
                Decision::Deny { tier, retry_after: seconds }
            },
            None => Decision::Allow,
        }
    }

    /// Checks the key at `now`. A key with a block that has not run out is
    /// refused with the time that is left, and nothing is recorded.
    /// Otherwise what is left of an old block is removed, the attempt is
    /// recorded, both trailing windows are counted with it, and the block
    /// that the counts call for is written.
    pub fn check(&mut self, config: &AbuseLimiterConfig, now: u64) -> (decision: Decision)
        requires
            now <= MAX_SECONDS,
        ensures
            (final(self)@, decision) == check_model(old(self)@, config@, now),
    {
        match self.blocks.get_block(now) {
            Some(record) => Decision::Deny {
                tier: record.tier,
                retry_after: record.remaining_at(now),
            },
            None => {
                self.blocks.clear();
                self.evaluate(config, now)
            },
        }
    }

    /// Answers a command of a session as a shared store would that holds
    /// this key alone, at second `now`.
    pub fn serve(&mut self, command: &Command, now: u64) -> (reply: Reply)
        ensures
            (final(self)@, reply@) == serve_model(old(self)@, command@, now),
    {
        match command {
            Command::ReadBlock => {
                match self.blocks.stored() {
                    Some(record) => Reply::Value(Some(encode_block(&record))),
                    None => Reply::Value(None),
                }
            },
            Command::DeleteBlock => {
                self.blocks.clear();
                Reply::Done
            },
            Command::AddAttempt { score, member } => {
                self.attempts.purge(now);
                self.attempts.append(*score);
                Reply::Done
            },
            Command::KeepAttempts { seconds } => {
                if *seconds <= u64::MAX - now {
                    self.attempts.purge(now);
                    self.attempts.keep_until(now + *seconds);
                    Reply::Done
                } else {
                    Reply::Failed
                }
            },
            Command::CountAttempts { from, to } => {
                self.attempts.purge(now);
                let n: usize = self.attempts.count_in_range(*from, *to);
                proof {
                    lemma_count_at_most_len(self.attempts@.entries, *from as int, *to as int);
                }
                Reply::Count(n as u64)
            },
            Command::WriteBlock { value, seconds } => {
                match decode_block(value.as_slice()) {
                    Some(record) => {
                        self.blocks.set_block(record.blocked_until, record.tier);
                        Reply::Done
                    },
                    None => Reply::Failed,
                }
            },
        }
    }
}

} // verus!
