//! What holds of every check, proved over the models of the key's state.
use crate::attempt_log::{
    count_in_range, lemma_count_at_most_len, lemma_count_empty, lemma_count_from_zero,
    lemma_count_monotone, lemma_count_push,
};
use crate::block_registry::{visible_block, BlockRecord, Tier};
use crate::codec::{lemma_block_round_trip, parse_block};
use crate::config::{LimiterError, LimiterParams, MAX_SECONDS};
use crate::protocol::{
    advance_model, converse, serve_model, CommandModel, Phase, ReplyModel, SessionModel, StepModel,
};
use crate::tiered::{check_model, escalation, evaluate_model, lifetime, Decision, KeyModel};
use vstd::prelude::*;

verus! {

/// The attempts of a key are kept at least as long as the wider window and at
/// most as long as an extended block lasts.
pub proof fn law_retention_bounds(p: LimiterParams)
    requires
        p.valid(),
    ensures
        p.temp_block_range <= p.retention(),
        p.block_range <= p.retention(),
        p.retention() <= p.block_duration,
{
}

/// The long window covers the short one: whatever the log holds, the long
/// window counts at least as many attempts as the short one.
pub proof fn law_long_window_covers_short(entries: Seq<u64>, p: LimiterParams, now: u64)
    requires
        p.valid(),
    ensures
        count_in_range(entries, now - p.temp_block_range, now as int) <= count_in_range(
            entries,
            now - p.block_range,
            now as int,
        ),
{
    lemma_count_monotone(
        entries,
        now - p.temp_block_range,
        now as int,
        now - p.block_range,
        now as int,
    );
}

/// A key that no record blocks, and under which fewer attempts than each
/// threshold were made in the trailing window of that threshold, is allowed,
/// and no block is written.
pub proof fn law_quiet_key_is_allowed(s: KeyModel, p: LimiterParams, now: u64)
    requires
        visible_block(s.block, now) is None,
        count_in_range(s.attempts.entries, now - p.temp_block_range, now as int)
            < p.temp_block_attempts,
        count_in_range(s.attempts.entries, now - p.block_range, now as int) < p.block_retry_limit,
    ensures
        check_model(s, p, now).1 == Decision::Allow,
        check_model(s, p, now).0.block is None,
{
    let kept = s.attempts.purge(now).entries;
    lemma_count_push(kept, now, now - p.temp_block_range, now as int);
    lemma_count_push(kept, now, now - p.block_range, now as int);
    if !s.attempts.live_at(now) {
        lemma_count_empty(now - p.temp_block_range, now as int);
        lemma_count_empty(now - p.block_range, now as int);
    }
}

/// The attempt that takes the short window over its threshold, while the long
/// window stays within its own, is refused at the temporary tier, and the key
/// is blocked from then on for the lifetime of a temporary block.
pub proof fn law_short_window_blocks(s: KeyModel, p: LimiterParams, now: u64)
    requires
        p.valid(),
        now <= MAX_SECONDS,
        visible_block(s.block, now) is None,
        s.attempts.record(now, p.retention()).count(now - p.temp_block_range, now as int)
            > p.temp_block_attempts,
        s.attempts.record(now, p.retention()).count(now - p.block_range, now as int)
            <= p.block_retry_limit,
    ensures
        check_model(s, p, now).1 == (Decision::Deny {
            tier: Tier::Temporary,
            retry_after: p.temp_block_duration,
        }),
        check_model(s, p, now).0.block == Some(
            BlockRecord { blocked_until: (now + p.temp_block_duration) as u64, tier: Tier::Temporary },
        ),
        now + p.temp_block_duration <= u64::MAX,
{
}

/// The attempt that takes the long window over its threshold is refused at
/// the extended tier, whatever the short window holds, and the key is blocked
/// from then on for the lifetime of an extended block.
pub proof fn law_long_window_blocks(s: KeyModel, p: LimiterParams, now: u64)
    requires
        p.valid(),
        now <= MAX_SECONDS,
        visible_block(s.block, now) is None,
        s.attempts.record(now, p.retention()).count(now - p.block_range, now as int)
            > p.block_retry_limit,
    ensures
        check_model(s, p, now).1 == (Decision::Deny {
            tier: Tier::Extended,
            retry_after: p.block_duration,
        }),
        check_model(s, p, now).0.block == Some(
            BlockRecord { blocked_until: (now + p.block_duration) as u64, tier: Tier::Extended },
        ),
        now + p.block_duration <= u64::MAX,
{
}

/// While a record blocks the key, a check is refused at the record's tier
/// with the time that is left, under any configuration, and changes nothing:
/// no attempt is recorded and the record stays as it is. So an extended block
/// is never turned back into a temporary one before it has run out.
pub proof fn law_blocked_key_is_refused(s: KeyModel, p: LimiterParams, now: u64)
    requires
        s.block matches Some(record) && now < record.blocked_until,
    ensures
        check_model(s, p, now).0 == s,
        check_model(s, p, now).1 == (Decision::Deny {
            tier: s.block->0.tier,
            retry_after: (s.block->0.blocked_until - now) as u64,
        }),
{
}

/// The state of a key after checks at `times`, made in that order.
pub open spec fn state_after(s: KeyModel, p: LimiterParams, times: Seq<u64>) -> KeyModel
    decreases times.len(),
{
    if times.len() == 0 {
        s
    } else {
        check_model(state_after(s, p, times.drop_last()), p, times.last()).0
    }
}

/// The answer to the last of the checks made at `times`, in that order.
pub open spec fn last_decision(s: KeyModel, p: LimiterParams, times: Seq<u64>) -> Decision
    recommends
        times.len() > 0,
{
    check_model(state_after(s, p, times.drop_last()), p, times.last()).1
}

/// Every check made before a block runs out, however many there are and in
/// whatever order their times come, is refused at the block's tier, and the
/// key's state stays what it was.
pub proof fn law_refused_until_expiry(s: KeyModel, p: LimiterParams, times: Seq<u64>)
    requires
        s.block is Some,
        forall|i: int| 0 <= i < times.len() ==> times[i] < s.block->0.blocked_until,
    ensures
        state_after(s, p, times) == s,
        times.len() > 0 ==> last_decision(s, p, times) == (Decision::Deny {
            tier: s.block->0.tier,
            retry_after: (s.block->0.blocked_until - times.last()) as u64,
        }),
    decreases times.len(),
{
    if times.len() > 0 {
        law_refused_until_expiry(s, p, times.drop_last());
        law_blocked_key_is_refused(s, p, times.last());
    }
}

/// Once the short window of a key has gone over its threshold, while the
/// long one has not, every check that follows before the block runs out is
/// refused at the temporary tier with the time that is left, however many
/// such checks there are, and none of them changes the key's state.
pub proof fn law_blocked_after_short_window(
    s: KeyModel,
    p: LimiterParams,
    now: u64,
    times: Seq<u64>,
)
    requires
        p.valid(),
        now <= MAX_SECONDS,
        visible_block(s.block, now) is None,
        s.attempts.record(now, p.retention()).count(now - p.temp_block_range, now as int)
            > p.temp_block_attempts,
        s.attempts.record(now, p.retention()).count(now - p.block_range, now as int)
            <= p.block_retry_limit,
        forall|i: int| 0 <= i < times.len() ==> times[i] < now + p.temp_block_duration,
    ensures
        state_after(check_model(s, p, now).0, p, times) == check_model(s, p, now).0,
        forall|n: int|
            0 < n <= times.len() ==> #[trigger] last_decision(
                check_model(s, p, now).0,
                p,
                times.take(n),
            ) == (Decision::Deny {
                tier: Tier::Temporary,
                retry_after: (now + p.temp_block_duration - times[n - 1]) as u64,
            }),
{
    law_short_window_blocks(s, p, now);
    let blocked = check_model(s, p, now).0;
    law_refused_until_expiry(blocked, p, times);
    assert forall|n: int| 0 < n <= times.len() implies #[trigger] last_decision(
        blocked,
        p,
        times.take(n),
    ) == (Decision::Deny {
        tier: Tier::Temporary,
        retry_after: (now + p.temp_block_duration - times[n - 1]) as u64,
    }) by {
        law_refused_until_expiry(blocked, p, times.take(n));
    }
}

/// Whether the checks made at `times[..i]` left fewer attempts than each
/// threshold in the window of that threshold that ends at `times[i]`.
pub open spec fn quiet_at(p: LimiterParams, times: Seq<u64>, i: int) -> bool {
    &&& count_in_range(times.take(i), times[i] - p.temp_block_range, times[i] as int)
        < p.temp_block_attempts
    &&& count_in_range(times.take(i), times[i] - p.block_range, times[i] as int)
        < p.block_retry_limit
}

/// Whether `entries` holds no more attempts than `times` in any range.
pub open spec fn no_more_than(entries: Seq<u64>, times: Seq<u64>) -> bool {
    forall|from: int, to: int| #[trigger]
        count_in_range(entries, from, to) <= count_in_range(times, from, to)
}

/// After a quiet run of checks on a key that was never seen, no block is
/// stored and the log holds no attempt that was not made.
proof fn lemma_quiet_history(p: LimiterParams, times: Seq<u64>)
    requires
        forall|i: int| 0 <= i < times.len() ==> #[trigger] quiet_at(p, times, i),
    ensures
        state_after(KeyModel::fresh(), p, times).block is None,
        no_more_than(state_after(KeyModel::fresh(), p, times).attempts.entries, times),
        times.len() > 0 ==> last_decision(KeyModel::fresh(), p, times) == Decision::Allow,
    decreases times.len(),
{
    if times.len() > 0 {
        let earlier = times.drop_last();
        let now = times.last();
        let n = times.len() - 1;
        assert(times.take(n) =~= earlier);
        assert forall|i: int| 0 <= i < earlier.len() implies #[trigger] quiet_at(
            p,
            earlier,
            i,
        ) by {
            assert(quiet_at(p, times, i));
            assert(earlier.take(i) =~= times.take(i));
        }
        lemma_quiet_history(p, earlier);
        let before = state_after(KeyModel::fresh(), p, earlier);
        assert(quiet_at(p, times, n));
        assert(count_in_range(before.attempts.entries, now - p.temp_block_range, now as int)
            <= count_in_range(earlier, now - p.temp_block_range, now as int));
        assert(count_in_range(before.attempts.entries, now - p.block_range, now as int)
            <= count_in_range(earlier, now - p.block_range, now as int));
        law_quiet_key_is_allowed(before, p, now);
        let kept = before.attempts.purge(now).entries;
        let after = state_after(KeyModel::fresh(), p, times);
        assert(after.attempts.entries == kept.push(now));
        assert(times =~= earlier.push(now));
        assert forall|from: int, to: int| #[trigger]
            count_in_range(after.attempts.entries, from, to) <= count_in_range(
                times,
                from,
                to,
            ) by {
            lemma_count_push(kept, now, from, to);
            lemma_count_push(earlier, now, from, to);
            if !before.attempts.live_at(now) {
                lemma_count_empty(from, to);
            } else {
                assert(count_in_range(before.attempts.entries, from, to) <= count_in_range(
                    earlier,
                    from,
                    to,
                ));
            }
        }
    } else {
        assert forall|from: int, to: int| #[trigger]
            count_in_range(Seq::<u64>::empty(), from, to) <= count_in_range(times, from, to) by {
            lemma_count_empty(from, to);
        }
    }
}

/// A key that was never seen, and under which every check finds fewer
/// earlier attempts than each threshold in the trailing window of that
/// threshold, is allowed at every one of these checks.
pub proof fn law_quiet_history_is_allowed(p: LimiterParams, times: Seq<u64>)
    requires
        forall|i: int| 0 <= i < times.len() ==> #[trigger] quiet_at(p, times, i),
    ensures
        forall|n: int|
            0 < n <= times.len() ==> #[trigger] last_decision(
                KeyModel::fresh(),
                p,
                times.take(n),
            ) == Decision::Allow,
{
    assert forall|n: int| 0 < n <= times.len() implies #[trigger] last_decision(
        KeyModel::fresh(),
        p,
        times.take(n),
    ) == Decision::Allow by {
        let part = times.take(n);
        assert forall|i: int| 0 <= i < part.len() implies #[trigger] quiet_at(p, part, i) by {
            assert(quiet_at(p, times, i));
            assert(part.take(i) =~= times.take(i));
        }
        lemma_quiet_history(p, part);
    }
}

/// A key that holds a temporary block, and whose long window goes over its
/// threshold when an attempt is recorded and evaluated before that block has
/// run out, moves to the extended tier: the record is replaced, not merged,
/// and its end is computed anew from the extended lifetime. Where the old
/// record was written under the same configuration, no later than `now`, the
/// new one ends no earlier.
pub proof fn law_escalation_replaces_temporary_block(s: KeyModel, p: LimiterParams, now: u64)
    requires
        p.valid(),
        now <= MAX_SECONDS,
        s.block matches Some(record) && record.tier == Tier::Temporary && now
            < record.blocked_until,
        s.attempts.record(now, p.retention()).count(now - p.block_range, now as int)
            > p.block_retry_limit,
    ensures
        evaluate_model(s, p, now).0.block == Some(
            BlockRecord { blocked_until: (now + p.block_duration) as u64, tier: Tier::Extended },
        ),
        evaluate_model(s, p, now).1 == (Decision::Deny {
            tier: Tier::Extended,
            retry_after: p.block_duration,
        }),
        now + p.block_duration <= u64::MAX,
        s.block->0.blocked_until <= now + p.temp_block_duration ==> s.block->0.blocked_until
            <= now + p.block_duration,
{
}

/// Once a block has run out, a check that finds both windows within their
/// thresholds is allowed again and leaves no record in the registry. The
/// attempt log is not reset by it: while the log is still within its
/// retention, every earlier attempt stays in it, followed by the new one.
pub proof fn law_allowed_after_expiry(s: KeyModel, p: LimiterParams, now: u64)
    requires
        s.block matches Some(record) && record.blocked_until <= now,
        s.attempts.record(now, p.retention()).count(now - p.temp_block_range, now as int)
            <= p.temp_block_attempts,
        s.attempts.record(now, p.retention()).count(now - p.block_range, now as int)
            <= p.block_retry_limit,
    ensures
        check_model(s, p, now).1 == Decision::Allow,
        check_model(s, p, now).0.block is None,
        visible_block(check_model(s, p, now).0.block, now) is None,
        s.attempts.live_at(now) ==> check_model(s, p, now).0.attempts.entries
            == s.attempts.entries.push(now),
        s.attempts.live_at(now) ==> forall|from: int, to: int|
            #[trigger] count_in_range(check_model(s, p, now).0.attempts.entries, from, to)
                >= count_in_range(s.attempts.entries, from, to),
{
    if s.attempts.live_at(now) {
        assert forall|from: int, to: int|
            #[trigger] count_in_range(check_model(s, p, now).0.attempts.entries, from, to)
                >= count_in_range(s.attempts.entries, from, to) by {
            lemma_count_push(s.attempts.entries, now, from, to);
        }
    }
}

/// Reading the registry twice gives the same answer, as long as the stored
/// record does not run out between the two reads. (A read never changes the
/// registry, so nothing but the passing of time can come between them.)
pub proof fn law_get_block_is_stable(stored: Option<BlockRecord>, first: u64, second: u64)
    requires
        first <= second,
        stored matches Some(record) ==> !(first < record.blocked_until && record.blocked_until
            <= second),
    ensures
        visible_block(stored, first) == visible_block(stored, second),
{
}

/// A check never shortens a block: where it leaves a record in the registry
/// and there was one before, the new one ends no earlier than the old one.
pub proof fn law_check_never_shortens_block(s: KeyModel, p: LimiterParams, now: u64)
    requires
        p.valid(),
        now <= MAX_SECONDS,
        s.block is Some,
        check_model(s, p, now).0.block is Some,
    ensures
        s.block->0.blocked_until <= check_model(s, p, now).0.block->0.blocked_until,
{
}

/// Whatever a check decides, the blocks it writes end in the future by
/// exactly the refusal's `retry_after`, and the attempt it records is the
/// last entry of the log.
pub proof fn law_written_block_matches_decision(s: KeyModel, p: LimiterParams, now: u64)
    requires
        p.valid(),
        now <= MAX_SECONDS,
    ensures
        check_model(s, p, now).1 matches Decision::Deny { tier, retry_after } ==> {
            &&& check_model(s, p, now).0.block == Some(
                BlockRecord { blocked_until: (now + retry_after) as u64, tier },
            )
            &&& now + retry_after <= u64::MAX
        },
        check_model(s, p, now).1 == Decision::Allow ==> check_model(s, p, now).0.block is None,
{
}

/// A failure of the store on any command but the deletion of a block that
/// has run out ends the check with `StoreUnavailable`: it is never taken
/// for an `Allow` or a refusal. A failed deletion is passed over, and the
/// attempt is recorded next.
pub proof fn law_store_failure_surfaces(s: SessionModel)
    requires
        !(s.phase is Finished),
    ensures
        !(s.phase is DeletingBlock) ==> advance_model(s, ReplyModel::Failed).1
            == StepModel::Finished(Err(LimiterError::StoreUnavailable)),
        s.phase is DeletingBlock ==> advance_model(s, ReplyModel::Failed) == s.add_attempt(),
{
}

/// A session deletes a block only after it has read it and found that it
/// has run out: a check that is broken off half-way never frees a key that
/// is still blocked.
pub proof fn law_only_blocks_that_ran_out_are_deleted(s: SessionModel, reply: ReplyModel)
    requires
        advance_model(s, reply).1 == StepModel::Ask(CommandModel::DeleteBlock),
    ensures
        s.phase is ReadingBlock,
        reply matches ReplyModel::Value(Some(bytes)) && parse_block(bytes) matches Some(record)
            && record.blocked_until <= s.now,
{
}

/// The block that a session writes ends its tier's lifetime after the
/// session's second, and the store is told to drop it at that very moment.
/// So two sessions that escalate the same key to the same tier under one
/// configuration write records whose ends lie exactly as far apart as the
/// sessions' seconds: whichever write lands last, the key is blocked at that
/// tier until about the same moment.
pub proof fn law_escalations_converge(a: SessionModel, b: SessionModel, tier: Tier)
    requires
        a.params == b.params,
        a.params.valid(),
        a.now <= b.now <= MAX_SECONDS,
    ensures
        a.write_block(tier).1 matches StepModel::Ask(CommandModel::WriteBlock { value, seconds })
            && parse_block(value) matches Some(record) && record.tier == tier
            && record.blocked_until == a.now + seconds && seconds == lifetime(a.params, tier),
        b.write_block(tier).1 matches StepModel::Ask(CommandModel::WriteBlock { value, seconds })
            && parse_block(value) matches Some(record) && record.tier == tier
            && record.blocked_until == b.now + seconds && seconds == lifetime(a.params, tier),
        parse_block(b.write_block(tier).1->Ask_0->WriteBlock_value)->0.blocked_until - parse_block(
            a.write_block(tier).1->Ask_0->WriteBlock_value,
        )->0.blocked_until == b.now - a.now,
{
    lemma_block_round_trip(
        BlockRecord { blocked_until: (a.now + lifetime(a.params, tier)) as u64, tier },
    );
    lemma_block_round_trip(
        BlockRecord { blocked_until: (b.now + lifetime(b.params, tier)) as u64, tier },
    );
}

/// How many commands a session in `phase` may still send, the one it waits
/// on counted in.
pub open spec fn commands_left(phase: Phase) -> nat {
    match phase {
        Phase::ReadingBlock => 7,
        Phase::DeletingBlock => 6,
        Phase::AddingAttempt => 5,
        Phase::KeepingAttempts => 4,
        Phase::CountingShort => 3,
        Phase::CountingLong { .. } => 2,
        Phase::WritingBlock { .. } => 1,
        Phase::Finished { .. } => 0,
    }
}

/// Every reply brings a session nearer to its end, whatever the reply is:
/// a check never sends more than seven commands. It keeps its key, its
/// time and its configuration all the way, and says that it is over
/// exactly when it is.
pub proof fn law_session_ends(s: SessionModel, reply: ReplyModel)
    ensures
        !(s.phase is Finished) ==> commands_left(advance_model(s, reply).0.phase) < commands_left(
            s.phase,
        ),
        advance_model(s, reply).0 == s.at(advance_model(s, reply).0.phase),
        advance_model(s, reply).1 is Finished <==> advance_model(s, reply).0.phase is Finished,
{
}

/// One round of a conversation: the store answers, the session goes on.
proof fn lemma_converse_round(s: SessionModel, command: CommandModel, store: KeyModel, rounds: nat)
    requires
        rounds > 0,
    ensures
        converse(s, command, store, rounds) == (match advance_model(
            s,
            serve_model(store, command, s.now).1,
        ).1 {
            StepModel::Finished(outcome) => (serve_model(store, command, s.now).0, Some(outcome)),
            StepModel::Ask(again) => converse(
                advance_model(s, serve_model(store, command, s.now).1).0,
                again,
                serve_model(store, command, s.now).0,
                (rounds - 1) as nat,
            ),
        }),
{
}

/// From the recording of the attempt on, a session does to the store what
/// the evaluation in memory does, and decides the same, within five
/// commands.
proof fn lemma_session_evaluates(s: SessionModel, store: KeyModel)
    requires
        s.params.valid(),
        s.now <= MAX_SECONDS,
        store.attempts.entries.len() < u64::MAX,
    ensures
        s.add_attempt().1 is Ask,
        converse(s.add_attempt().0, s.add_attempt().1->Ask_0, store, 5) == (
            evaluate_model(store, s.params, s.now).0,
            Some(Ok::<Decision, LimiterError>(evaluate_model(store, s.params, s.now).1)),
        ),
{
    let p = s.params;
    let now = s.now;
    let recorded = store.attempts.record(now, p.retention());
    let short_count = recorded.count(now - p.temp_block_range, now as int);
    let long_count = recorded.count(now - p.block_range, now as int);
    lemma_count_at_most_len(recorded.entries, now - p.temp_block_range, now as int);
    lemma_count_at_most_len(recorded.entries, now - p.block_range, now as int);
    if now < p.temp_block_range {
        lemma_count_from_zero(recorded.entries, now - p.temp_block_range, now as int);
    }
    if now < p.block_range {
        lemma_count_from_zero(recorded.entries, now - p.block_range, now as int);
    }
    // The attempt is added.
    let s1 = s.add_attempt().0;
    let c1 = s.add_attempt().1->Ask_0;
    let held1 = KeyModel { attempts: store.attempts.purge(now).append(now), block: store.block };
    assert(serve_model(store, c1, now) == (held1, ReplyModel::Done));
    // Its key is kept for the retention.
    let s2 = s.at(Phase::KeepingAttempts);
    let c2 = CommandModel::KeepAttempts { seconds: p.retention() };
    assert(advance_model(s1, ReplyModel::Done) == (s2, StepModel::Ask(c2)));
    lemma_converse_round(s1, c1, store, 5);
    let held2 = KeyModel { attempts: recorded, block: store.block };
    assert(held1.attempts.live_at(now));
    assert(serve_model(held1, c2, now) == (held2, ReplyModel::Done));
    // The short window is counted.
    let (s3, step3) = s2.count(Phase::CountingShort, p.temp_block_range);
    let c3 = step3->Ask_0;
    assert(advance_model(s2, ReplyModel::Done) == (s3, step3));
    lemma_converse_round(s2, c2, held1, 4);
    assert(recorded.live_at(now));
    assert(serve_model(held2, c3, now) == (held2, ReplyModel::Count(short_count as u64)));
    // The long window is counted.
    let (s4, step4) = s3.count(
        Phase::CountingLong { short_count: short_count as u64 },
        p.block_range,
    );
    let c4 = step4->Ask_0;
    assert(advance_model(s3, ReplyModel::Count(short_count as u64)) == (s4, step4));
    lemma_converse_round(s3, c3, held2, 3);
    assert(serve_model(held2, c4, now) == (held2, ReplyModel::Count(long_count as u64)));
    lemma_converse_round(s4, c4, held2, 2);
    // The block that the counts call for is written.
    match escalation(p, short_count, long_count) {
        Some(tier) => {
            let record = BlockRecord { blocked_until: (now + lifetime(p, tier)) as u64, tier };
            lemma_block_round_trip(record);
            let (s5, step5) = s4.write_block(tier);
            let c5 = step5->Ask_0;
            assert(advance_model(s4, ReplyModel::Count(long_count as u64)) == (s5, step5));
            let held5 = KeyModel { attempts: recorded, block: Some(record) };
            assert(serve_model(held2, c5, now) == (held5, ReplyModel::Done));
            lemma_converse_round(s5, c5, held2, 1);
        },
        None => {
            assert(advance_model(s4, ReplyModel::Count(long_count as u64)) == s4.finish(
                Ok(Decision::Allow),
            ));
        },
    }
}

/// A session that talks to a store which holds the key's state decides what
/// a check on that state decides and leaves the store holding what that
/// check leaves, within seven commands.
pub proof fn law_session_matches_check(
    store: KeyModel,
    p: LimiterParams,
    key: Seq<char>,
    now: u64,
    nanos: u32,
)
    requires
        p.valid(),
        now <= MAX_SECONDS,
        store.attempts.entries.len() < u64::MAX,
    ensures
        converse(SessionModel::begin(p, key, now, nanos), CommandModel::ReadBlock, store, 7) == (
            check_model(store, p, now).0,
            Some(Ok::<Decision, LimiterError>(check_model(store, p, now).1)),
        ),
{
    let s0 = SessionModel::begin(p, key, now, nanos);
    lemma_converse_round(s0, CommandModel::ReadBlock, store, 7);
    match store.block {
        Some(record) => {
            lemma_block_round_trip(record);
            if !record.active_at(now) {
                let s1 = s0.at(Phase::DeletingBlock);
                let cleared = KeyModel { attempts: store.attempts, block: None };
                lemma_converse_round(s1, CommandModel::DeleteBlock, store, 6);
                lemma_session_evaluates(s1, cleared);
                lemma_more_rounds(
                    s1.add_attempt().0,
                    s1.add_attempt().1->Ask_0,
                    cleared,
                    5,
                    5,
                );
                assert(s1.add_attempt() == s0.add_attempt());
            }
        },
        None => {
            lemma_session_evaluates(s0, store);
            lemma_more_rounds(s0.add_attempt().0, s0.add_attempt().1->Ask_0, store, 5, 6);
        },
    }
}

/// A conversation that is over within some rounds ends the same way when
/// more are allowed.
proof fn lemma_more_rounds(
    s: SessionModel,
    command: CommandModel,
    store: KeyModel,
    rounds: nat,
    more: nat,
)
    requires
        rounds <= more,
        converse(s, command, store, rounds).1 is Some,
    ensures
        converse(s, command, store, more) == converse(s, command, store, rounds),
    decreases rounds,
{
    if rounds > 0 {
        let (held, reply) = serve_model(store, command, s.now);
        let (next, step) = advance_model(s, reply);
        match step {
            StepModel::Finished(outcome) => {},
            StepModel::Ask(again) => {
                lemma_more_rounds(next, again, held, (rounds - 1) as nat, (more - 1) as nat);
            },
        }
    }
}

} // verus!
