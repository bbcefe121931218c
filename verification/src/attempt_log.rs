//! The attempt log of one key: the timestamps of the attempts made under it,
//! countable by time range and kept for a bounded time after the last one.
use vstd::prelude::*;

verus! {

/// Number of attempts among `entries` whose timestamp `t` satisfies
/// `from <= t <= to`. Both bounds are inclusive, and equal timestamps each
/// count.
pub open spec fn count_in_range(entries: Seq<u64>, from: int, to: int) -> nat {
    entries.filter(|t: u64| from <= t <= to).len()
}

/// An empty log holds no attempt in any range.
pub proof fn lemma_count_empty(from: int, to: int)
    ensures
        count_in_range(Seq::<u64>::empty(), from, to) == 0,
{
    reveal(Seq::filter);
}

/// One more attempt raises the count of exactly the ranges that hold its
/// timestamp, by one.
pub proof fn lemma_count_push(entries: Seq<u64>, t: u64, from: int, to: int)
    ensures
        count_in_range(entries.push(t), from, to) == count_in_range(entries, from, to) + (if from
            <= t <= to {
            1nat
        } else {
            0nat
        }),
{
    reveal(Seq::filter);
    assert(entries.push(t).drop_last() =~= entries);
}

/// No range holds more attempts than the log does.
pub proof fn lemma_count_at_most_len(entries: Seq<u64>, from: int, to: int)
    ensures
        count_in_range(entries, from, to) <= entries.len(),
{
    entries.lemma_filter_len(|t: u64| from <= t <= to);
}

/// No timestamp is negative, so a range may start below zero or at zero
/// alike.
pub proof fn lemma_count_from_zero(entries: Seq<u64>, from: int, to: int)
    requires
        from <= 0,
    ensures
        count_in_range(entries, from, to) == count_in_range(entries, 0, to),
    decreases entries.len(),
{
    if entries.len() == 0 {
        assert(entries =~= Seq::<u64>::empty());
        lemma_count_empty(from, to);
        lemma_count_empty(0, to);
    } else {
        let rest = entries.drop_last();
        let t = entries.last();
        assert(entries =~= rest.push(t));
        lemma_count_from_zero(rest, from, to);
        lemma_count_push(rest, t, from, to);
        lemma_count_push(rest, t, 0, to);
    }
}

/// A wider range holds at least as many attempts.
pub proof fn lemma_count_monotone(entries: Seq<u64>, from: int, to: int, from2: int, to2: int)
    requires
        from2 <= from,
        to <= to2,
    ensures
        count_in_range(entries, from, to) <= count_in_range(entries, from2, to2),
    decreases entries.len(),
{
    if entries.len() == 0 {
        assert(entries =~= Seq::<u64>::empty());
        lemma_count_empty(from, to);
        lemma_count_empty(from2, to2);
    } else {
        let rest = entries.drop_last();
        let t = entries.last();
        assert(entries =~= rest.push(t));
        lemma_count_monotone(rest, from, to, from2, to2);
        lemma_count_push(rest, t, from, to);
        lemma_count_push(rest, t, from2, to2);
    }
}

/// The deadline of a log that the store keeps until told otherwise.
pub const KEPT_FOREVER: u64 = 0xffff_ffff_ffff_ffff;

/// What an attempt log holds: the timestamps in arrival order, and the moment
/// after which the store drops the whole log unless its retention is
/// restarted first.
pub struct AttemptLogModel {
    /// Timestamps of the retained attempts, oldest arrival first.
    pub entries: Seq<u64>,
    /// Last second at which the log is still kept.
    pub expires_at: u64,
}

impl AttemptLogModel {
    /// The log of a key that was never seen.
    pub open spec fn empty() -> AttemptLogModel {
        AttemptLogModel { entries: Seq::empty(), expires_at: 0 }
    }

    /// Whether the store still keeps the log at `now`.
    pub open spec fn live_at(self, now: u64) -> bool {
        now <= self.expires_at
    }

    /// The log as the store holds it at `now`: unchanged while it is kept,
    /// without any attempt once its retention has run out.
    pub open spec fn purge(self, now: u64) -> AttemptLogModel {
        if self.live_at(now) {
            self
        } else {
            AttemptLogModel { entries: Seq::empty(), expires_at: self.expires_at }
        }
    }

    /// The log with one more attempt. A log that held nothing starts anew and
    /// is kept until a deadline is set; one that held something keeps its
    /// deadline.
    pub open spec fn append(self, timestamp: u64) -> AttemptLogModel {
        AttemptLogModel {
            entries: self.entries.push(timestamp),
            expires_at: if self.entries.len() == 0 {
                KEPT_FOREVER
            } else {
                self.expires_at
            },
        }
    }

    /// The log with its deadline set to `deadline`.
    pub open spec fn keep_until(self, deadline: u64) -> AttemptLogModel {
        AttemptLogModel { entries: self.entries, expires_at: deadline }
    }

    /// The log after an attempt at `timestamp`: what was still kept then, the
    /// new attempt appended, and the retention restarted, so that the log is
    /// kept for `retention` more seconds.
    pub open spec fn record(self, timestamp: u64, retention: u64) -> AttemptLogModel {
        self.purge(timestamp).append(timestamp).keep_until((timestamp + retention) as u64)
    }

    /// Number of retained attempts in the inclusive range.
    pub open spec fn count(self, from: int, to: int) -> nat {
        count_in_range(self.entries, from, to)
    }
}

/// The attempt log of one key.
pub struct AttemptLog {
    entries: Vec<u64>,
    expires_at: u64,
}

impl View for AttemptLog {
    type V = AttemptLogModel;

    closed spec fn view(&self) -> AttemptLogModel {
        AttemptLogModel { entries: self.entries@, expires_at: self.expires_at }
    }
}

impl AttemptLog {
    /// The log of a key that was never seen.
    pub fn new() -> (log: AttemptLog)
        ensures
            log@ == AttemptLogModel::empty(),
    {
        AttemptLog { entries: Vec::new(), expires_at: 0 }
    }

    /// Number of attempts the log holds.
    pub fn len(&self) -> (n: usize)
        ensures
            n == self@.entries.len(),
    {
        self.entries.len()
    }

    /// Last second at which the log is still kept.
    pub fn expires_at(&self) -> (deadline: u64)
        ensures
            deadline == self@.expires_at,
    {
        self.expires_at
    }

    /// Applies the store's expiry as of `now`.
    pub fn purge(&mut self, now: u64)
        ensures
            final(self)@ == old(self)@.purge(now),
    {
        if now > self.expires_at {
            self.entries = Vec::new();
        }
    }

    /// Appends an attempt and leaves the deadline of a log that held
    /// something as it is.
    pub fn append(&mut self, timestamp: u64)
        ensures
            final(self)@ == old(self)@.append(timestamp),
    {
        if self.entries.len() == 0 {
            self.expires_at = KEPT_FOREVER;
        }
        self.entries.push(timestamp);
    }

    /// Sets the last second at which the log is still kept.
    pub fn keep_until(&mut self, deadline: u64)
        ensures
            final(self)@ == old(self)@.keep_until(deadline),
    {
        self.expires_at = deadline;
    }

    /// Records an attempt made at `timestamp`: what the store would have
    /// dropped by then is dropped, the attempt is appended, and the log is
    /// kept for `retention` more seconds.
    pub fn record(&mut self, timestamp: u64, retention: u64)
        requires
            timestamp + retention <= u64::MAX,
        ensures
            final(self)@ == old(self)@.record(timestamp, retention),
    {
        self.purge(timestamp);
        self.append(timestamp);
        self.keep_until(timestamp + retention);
    }

    /// Counts the retained attempts with `from <= timestamp <= to`.
    pub fn count_in_range(&self, from: u64, to: u64) -> (n: usize)
        ensures
            n == self@.count(from as int, to as int),
    {
        let mut n: usize = 0;
        let mut i: usize = 0;
        proof {
            assert(self.entries@.take(0) =~= Seq::<u64>::empty());
            lemma_count_empty(from as int, to as int);
        }
        while i < self.entries.len()
            invariant
                i <= self.entries@.len(),
                n <= i,
                n == count_in_range(self.entries@.take(i as int), from as int, to as int),
            decreases self.entries@.len() - i,
        {
            let t: u64 = self.entries[i];
            proof {
                assert(self.entries@.take(i + 1) =~= self.entries@.take(i as int).push(t));
                lemma_count_push(self.entries@.take(i as int), t, from as int, to as int);
            }
            if from <= t && t <= to {
                n = n + 1;
            }
            i = i + 1;
        }
        proof {
            assert(self.entries@.take(i as int) =~= self.entries@);
        }
        n
    }
}

} // verus!
