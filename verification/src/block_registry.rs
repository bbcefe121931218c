//! The block registry of one key: an expiring marker that says the key is
//! blocked, until when, and at which tier.
use vstd::prelude::*;

verus! {

/// Severity of a block.
#[derive(Clone, Copy, Debug, PartialEq, Eq, Structural)]
pub enum Tier {
    /// Brought by too many attempts in the short window.
    Temporary,
    /// Brought by too many attempts in the long window.
    Extended,
}

impl Tier {
    /// The text shown to a caller who is refused at this tier.
    pub open spec fn message_text(self) -> Seq<char> {
        match self {
            Tier::Temporary =>
                "You have been temporarily blocked due to too many verification attempts. Please try again in an hour."@,
            Tier::Extended =>
                "You have been temporarily blocked due to too many verification attempts. Please try again in 24 hours."@,
        }
    }

    /// The text shown to a caller who is refused at this tier.
    pub fn message(&self) -> (text: &'static str)
        ensures
            text@ == self.message_text(),
    {
        match self {
            Tier::Temporary =>
                "You have been temporarily blocked due to too many verification attempts. Please try again in an hour.",
            Tier::Extended =>
                "You have been temporarily blocked due to too many verification attempts. Please try again in 24 hours.",
        }
    }
}

/// The marker of a blocked key. It means something only before
/// `blocked_until`.
#[derive(Clone, Copy, Debug, PartialEq, Eq, Structural)]
pub struct BlockRecord {
    /// First second at which the key is free again.
    pub blocked_until: u64,
    /// Severity of the block.
    pub tier: Tier,
}

impl BlockRecord {
    /// Whether the record still blocks at `now`.
    pub open spec fn active_at(self, now: u64) -> bool {
        now < self.blocked_until
    }

    /// Seconds left at `now` until the key is free again.
    pub open spec fn remaining(self, now: u64) -> u64 {
        if now < self.blocked_until {
            (self.blocked_until - now) as u64
        } else {
            0
        }
    }

    /// Seconds left at `now` until the key is free again; 0 once it is.
    pub fn remaining_at(&self, now: u64) -> (seconds: u64)
        ensures
            seconds == self.remaining(now),
    {
        if now < self.blocked_until {
            self.blocked_until - now
        } else {
            0
        }
    }
}

/// The record that a registry holding `stored` shows at `now`: a record
/// whose `blocked_until` has passed is as good as absent.
pub open spec fn visible_block(stored: Option<BlockRecord>, now: u64) -> Option<BlockRecord> {
    match stored {
        Some(record) => if record.active_at(now) {
            Some(record)
        } else {
            None
        },
        None => None,
    }
}

/// The block registry of one key. Its view is the record it stores, expired
/// or not.
pub struct BlockRegistry {
    record: Option<BlockRecord>,
}

impl View for BlockRegistry {
    type V = Option<BlockRecord>;

    closed spec fn view(&self) -> Option<BlockRecord> {
        self.record
    }
}

impl BlockRegistry {
    /// The registry of a key that was never blocked.
    pub fn new() -> (registry: BlockRegistry)
        ensures
            registry@ is None,
    {
        BlockRegistry { record: None }
    }

    /// The record that blocks the key at `now`, if one does. The registry is
    /// left as it is.
    pub fn get_block(&self, now: u64) -> (found: Option<BlockRecord>)
        ensures
            found == visible_block(self@, now),
    {
        match self.record {
            Some(record) => {
                if now < record.blocked_until {
                    Some(record)
                } else {
                    None
                }
            },
            None => None,
        }
    }

    /// The record as stored, whether or not it still blocks.
    pub fn stored(&self) -> (found: Option<BlockRecord>)
        ensures
            found == self@,
    {
        self.record
    }

    /// Creates the record or replaces the one that is there; nothing of an
    /// earlier record is kept.
    pub fn set_block(&mut self, blocked_until: u64, tier: Tier)
        ensures
            final(self)@ == Some(BlockRecord { blocked_until, tier }),
    {
        self.record = Some(BlockRecord { blocked_until, tier });
    }

    /// Removes the record, if there is one.
    pub fn clear(&mut self)
        ensures
            final(self)@ is None,
    {
        self.record = None;
    }
}

} // verus!
