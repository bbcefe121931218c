//! A check as a conversation with a shared store.
//!
//! The limiter keeps nothing between calls: the attempts and the blocks live
//! in a store that every server reaches over the network. A check is a
//! [`Session`]: it says which command to send to the store next, takes the
//! store's reply, and ends with a decision. Sending and receiving is the
//! caller's part; every decision is taken here.
use crate::block_registry::{BlockRecord, Tier};
use crate::clock::{read_clock, second_at, second_of};
use crate::codec::{attempt_member, block_value, decode_block, encode_attempt, encode_block, parse_block};
use crate::config::{AbuseLimiterConfig, LimiterError, LimiterParams, MAX_SECONDS};
use crate::tiered::{
    decide, escalation, lifetime, lifetime_of, window_start, window_start_of, Decision, KeyModel,
};
use vstd::prelude::*;
use vstd::string::StringExecFns;

verus! {

/// What the caller is to ask of the store. The block of a key is a plain
/// value under [`Session::block_key`]; its attempts are a scored collection
/// under [`Session::attempts_key`].
#[derive(Debug, PartialEq, Eq)]
pub enum Command {
    /// Read the value under the block key.
    ReadBlock,
    /// Delete the block key.
    DeleteBlock,
    /// Add `member` with `score` to the collection under the attempts key.
    AddAttempt { score: u64, member: Vec<u8> },
    /// Let the attempts key expire `seconds` from now.
    KeepAttempts { seconds: u64 },
    /// Count the members under the attempts key with `from <= score <= to`.
    CountAttempts { from: u64, to: u64 },
    /// Set the block key to `value`, to expire `seconds` from now.
    WriteBlock { value: Vec<u8>, seconds: u64 },
}

/// A command as plain data.
pub enum CommandModel {
    ReadBlock,
    DeleteBlock,
    AddAttempt { score: u64, member: Seq<u8> },
    KeepAttempts { seconds: u64 },
    CountAttempts { from: u64, to: u64 },
    WriteBlock { value: Seq<u8>, seconds: u64 },
}

impl View for Command {
    type V = CommandModel;

    open spec fn view(&self) -> CommandModel {
        match *self {
            Command::ReadBlock => CommandModel::ReadBlock,
            Command::DeleteBlock => CommandModel::DeleteBlock,
            Command::AddAttempt { score, member } => CommandModel::AddAttempt {
                score,
                member: member@,
            },
            Command::KeepAttempts { seconds } => CommandModel::KeepAttempts { seconds },
            Command::CountAttempts { from, to } => CommandModel::CountAttempts { from, to },
            Command::WriteBlock { value, seconds } => CommandModel::WriteBlock {
                value: value@,
                seconds,
            },
        }
    }
}

/// What the store answered.
#[derive(Debug, PartialEq, Eq)]
pub enum Reply {
    /// The value that was read, or that there is none.
    Value(Option<Vec<u8>>),
    /// The number that was counted.
    Count(u64),
    /// The command was carried out and has nothing to tell.
    Done,
    /// The store could not be reached or refused the command.
    Failed,
}

/// A reply as plain data.
pub enum ReplyModel {
    Value(Option<Seq<u8>>),
    Count(u64),
    Done,
    Failed,
}

impl View for Reply {
    type V = ReplyModel;

    open spec fn view(&self) -> ReplyModel {
        match *self {
            Reply::Value(Some(bytes)) => ReplyModel::Value(Some(bytes@)),
            Reply::Value(None) => ReplyModel::Value(None),
            Reply::Count(n) => ReplyModel::Count(n),
            Reply::Done => ReplyModel::Done,
            Reply::Failed => ReplyModel::Failed,
        }
    }
}

/// What comes next in a session.
#[derive(Debug, PartialEq, Eq)]
pub enum Step {
    /// Send this command and come back with the reply.
    Ask(Command),
    /// The check is over.
    Finished(Result<Decision, LimiterError>),
}

/// A step as plain data.
pub enum StepModel {
    Ask(CommandModel),
    Finished(Result<Decision, LimiterError>),
}

impl View for Step {
    type V = StepModel;

    open spec fn view(&self) -> StepModel {
        match *self {
            Step::Ask(command) => StepModel::Ask(command@),
            Step::Finished(outcome) => StepModel::Finished(outcome),
        }
    }
}

/// Where a session stands: which reply it waits for.
#[derive(Clone, Copy, Debug, PartialEq, Eq)]
pub enum Phase {
    /// The reply to `ReadBlock`.
    ReadingBlock,
    /// The reply to `DeleteBlock`.
    DeletingBlock,
    /// The reply to `AddAttempt`.
    AddingAttempt,
    /// The reply to `KeepAttempts`.
    KeepingAttempts,
    /// The count of the short window.
    CountingShort,
    /// The count of the long window; that of the short one is known.
    CountingLong { short_count: u64 },
    /// The reply to `WriteBlock`.
    WritingBlock { tier: Tier },
    /// None: the check is over.
    Finished { outcome: Result<Decision, LimiterError> },
}

/// The key under which the block of `key` is stored.
pub open spec fn block_key_of(prefix: Seq<char>, key: Seq<char>) -> Seq<char> {
    "abuse_limiter:block:"@ + prefix + ":"@ + key
}

/// The key under which the attempts of `key` are stored.
pub open spec fn attempts_key_of(prefix: Seq<char>, key: Seq<char>) -> Seq<char> {
    "abuse_limiter:attempts:"@ + prefix + ":"@ + key
}

/// A session as plain data.
pub struct SessionModel {
    /// The configuration of the check.
    pub params: LimiterParams,
    /// The key that is checked.
    pub key: Seq<char>,
    /// The second at which the check is made.
    pub now: u64,
    /// Nanoseconds into that second.
    pub nanos: u32,
    /// Which reply the session waits for.
    pub phase: Phase,
}

impl SessionModel {
    /// A session that has asked for the block and nothing else.
    pub open spec fn begin(params: LimiterParams, key: Seq<char>, now: u64, nanos: u32) -> SessionModel {
        SessionModel { params, key, now, nanos, phase: Phase::ReadingBlock }
    }

    /// The same session in another phase.
    pub open spec fn at(self, phase: Phase) -> SessionModel {
        SessionModel { phase, ..self }
    }

    /// The session goes on with `command` and waits in `phase`.
    pub open spec fn ask(self, phase: Phase, command: CommandModel) -> (SessionModel, StepModel) {
        (self.at(phase), StepModel::Ask(command))
    }

    /// The session ends with `outcome`.
    pub open spec fn finish(self, outcome: Result<Decision, LimiterError>) -> (
        SessionModel,
        StepModel,
    ) {
        (self.at(Phase::Finished { outcome }), StepModel::Finished(outcome))
    }

    /// The session ends because the store failed.
    pub open spec fn fail(self) -> (SessionModel, StepModel) {
        self.finish(Err(LimiterError::StoreUnavailable))
    }

    /// The session records the attempt: its score is the second of the
    /// check, its member tells it apart from other attempts of that second.
    pub open spec fn add_attempt(self) -> (SessionModel, StepModel) {
        self.ask(
            Phase::AddingAttempt,
            CommandModel::AddAttempt {
                score: self.now,
                member: attempt_member(self.now, self.nanos),
            },
        )
    }

    /// The session counts the window of `range` seconds that ends now.
    pub open spec fn count(self, phase: Phase, range: u64) -> (SessionModel, StepModel) {
        self.ask(
            phase,
            CommandModel::CountAttempts { from: window_start(self.now, range), to: self.now },
        )
    }

    /// The session writes the block of `tier`: it ends its lifetime from
    /// now, and the store is to drop it at that moment.
    pub open spec fn write_block(self, tier: Tier) -> (SessionModel, StepModel) {
        self.ask(
            Phase::WritingBlock { tier },
            CommandModel::WriteBlock {
                value: block_value(
                    BlockRecord {
                        blocked_until: (self.now + lifetime(self.params, tier)) as u64,
                        tier,
                    },
                ),
                seconds: lifetime(self.params, tier),
            },
        )
    }
}

/// How a session goes on when `reply` comes in.
///
/// - The block was read. None: the attempt is recorded. One that has not run
///   out: the check ends with a refusal at its tier, with the time that is
///   left. One that has run out: it is deleted. A value that is no block
///   record, or any other reply: the check fails.
/// - The block was deleted, or could not be: the attempt is recorded either
///   way, since the store drops the record by itself.
/// - The attempt was added: its key is kept for the retention of the
///   configuration. Then the short window is counted, then the long one.
/// - Both counts are known: the check ends with `Allow`, or the block that
///   they call for is written and the check ends with a refusal at its tier
///   for its whole lifetime.
/// - Wherever the store fails on a command other than the deletion, or
///   answers with a reply of the wrong kind, the check fails with
///   `StoreUnavailable`.
/// - A session that is over stays over and repeats its outcome.
pub open spec fn advance_model(s: SessionModel, reply: ReplyModel) -> (SessionModel, StepModel) {
    match s.phase {
        Phase::ReadingBlock => match reply {
            ReplyModel::Value(None) => s.add_attempt(),
            ReplyModel::Value(Some(bytes)) => match parse_block(bytes) {
                Some(record) => if record.active_at(s.now) {
                    s.finish(
                        Ok(
                            Decision::Deny {
                                tier: record.tier,
                                retry_after: record.remaining(s.now),
                            },
                        ),
                    )
                } else {
                    s.ask(Phase::DeletingBlock, CommandModel::DeleteBlock)
                },
                None => s.fail(),
            },
            _ => s.fail(),
        },
        Phase::DeletingBlock => s.add_attempt(),
        Phase::AddingAttempt => match reply {
            ReplyModel::Done => s.ask(
                Phase::KeepingAttempts,
                CommandModel::KeepAttempts { seconds: s.params.retention() },
            ),
            _ => s.fail(),
        },
        Phase::KeepingAttempts => match reply {
            ReplyModel::Done => s.count(Phase::CountingShort, s.params.temp_block_range),
            _ => s.fail(),
        },
        Phase::CountingShort => match reply {
            ReplyModel::Count(n) => s.count(
                Phase::CountingLong { short_count: n },
                s.params.block_range,
            ),
            _ => s.fail(),
        },
        Phase::CountingLong { short_count } => match reply {
            ReplyModel::Count(n) => match escalation(s.params, short_count as nat, n as nat) {
                Some(tier) => s.write_block(tier),
                None => s.finish(Ok(Decision::Allow)),
            },
            _ => s.fail(),
        },
        Phase::WritingBlock { tier } => match reply {
            ReplyModel::Done => s.finish(
                Ok(Decision::Deny { tier, retry_after: lifetime(s.params, tier) }),
            ),
            _ => s.fail(),
        },
        Phase::Finished { outcome } => s.finish(outcome),
    }
}

/// One check of one key, under way.
pub struct Session {
    config: AbuseLimiterConfig,
    key: String,
    now: u64,
    nanos: u32,
    phase: Phase,
}

impl View for Session {
    type V = SessionModel;

    closed spec fn view(&self) -> SessionModel {
        SessionModel {
            params: self.config@,
            key: self.key@,
            now: self.now,
            nanos: self.nanos,
            phase: self.phase,
        }
    }
}

impl Session {
    #[verifier::type_invariant]
    pub closed spec fn well_formed(&self) -> bool {
        self.now <= MAX_SECONDS
    }

    /// Starts the check of `key` at second `now`, `nanos` nanoseconds into
    /// it. The first thing to ask of the store is always the block.
    pub fn begin(key: String, config: &AbuseLimiterConfig, now: u64, nanos: u32) -> (started: (
        Session,
        Command,
    ))
        requires
            now <= MAX_SECONDS,
        ensures
            started.0@ == SessionModel::begin(config@, key@, now, nanos),
            started.1@ == CommandModel::ReadBlock,
    {
        let session = Session {
            config: config.duplicate(),
            key,
            now,
            nanos,
            phase: Phase::ReadingBlock,
        };
        (session, Command::ReadBlock)
    }

    /// Starts the check of `key` at the moment of a reading of the clock:
    /// `reading` seconds since 1970, a reading before 1970 standing for
    /// second 0, and `nanos` nanoseconds into that second.
    pub fn begin_at_reading(
        key: String,
        config: &AbuseLimiterConfig,
        reading: i64,
        nanos: u32,
    ) -> (started: (Session, Command))
        ensures
            started.0@ == SessionModel::begin(config@, key@, second_of(reading), nanos),
            started.1@ == CommandModel::ReadBlock,
    {
        Session::begin(key, config, second_at(reading), nanos)
    }

    /// Starts the check of `key` at the moment that the system clock shows.
    /// Whatever that moment is, the session stands where
    /// [`Session::begin`] would have put it for that moment.
    pub fn begin_now(key: String, config: &AbuseLimiterConfig) -> (started: (Session, Command))
        ensures
            started.0@ == SessionModel::begin(
                config@,
                key@,
                started.0@.now,
                started.0@.nanos,
            ),
            started.0@.now <= MAX_SECONDS,
            started.1@ == CommandModel::ReadBlock,
    {
        let (reading, nanos) = read_clock();
        Session::begin_at_reading(key, config, reading, nanos)
    }

    /// The second at which the check is made.
    pub fn now(&self) -> (now: u64)
        ensures
            now == self@.now,
            now <= MAX_SECONDS,
    {
        proof {
            use_type_invariant(self);
        }
        self.now
    }

    /// Which reply the session waits for.
    pub fn phase(&self) -> (phase: Phase)
        ensures
            phase == self@.phase,
    {
        self.phase
    }

    /// The outcome of a session that is over.
    pub fn outcome(&self) -> (outcome: Option<Result<Decision, LimiterError>>)
        ensures
            outcome == (match self@.phase {
                Phase::Finished { outcome } => Some(outcome),
                _ => None,
            }),
    {
        match self.phase {
            Phase::Finished { outcome } => Some(outcome),
            _ => None,
        }
    }

    /// The key under which the store holds the block of the checked key.
    pub fn block_key(&self) -> (name: String)
        ensures
            name@ == block_key_of(self@.params.key_prefix, self@.key),
    {
        let mut name = String::from_str("abuse_limiter:block:");
        name.append(self.config.key_prefix().as_str());
        name.append(":");
        name.append(self.key.as_str());
        name
    }

    /// The key under which the store holds the attempts of the checked key.
    pub fn attempts_key(&self) -> (name: String)
        ensures
            name@ == attempts_key_of(self@.params.key_prefix, self@.key),
    {
        let mut name = String::from_str("abuse_limiter:attempts:");
        name.append(self.config.key_prefix().as_str());
        name.append(":");
        name.append(self.key.as_str());
        name
    }

    fn ask(&mut self, phase: Phase, command: Command) -> (step: Step)
        ensures
            (final(self)@, step@) == old(self)@.ask(phase, command@),
    {
        proof {
            use_type_invariant(&*self);
        }
        self.phase = phase;
        Step::Ask(command)
    }

    fn finish(&mut self, outcome: Result<Decision, LimiterError>) -> (step: Step)
        ensures
            (final(self)@, step@) == old(self)@.finish(outcome),
    {
        proof {
            use_type_invariant(&*self);
        }
        self.phase = Phase::Finished { outcome };
        Step::Finished(outcome)
    }

    fn fail(&mut self) -> (step: Step)
        ensures
            (final(self)@, step@) == old(self)@.fail(),
    {
        self.finish(Err(LimiterError::StoreUnavailable))
    }

    fn add_attempt(&mut self) -> (step: Step)
        ensures
            (final(self)@, step@) == old(self)@.add_attempt(),
    {
        let member = encode_attempt(self.now, self.nanos);
        let score: u64 = self.now;
        self.ask(Phase::AddingAttempt, Command::AddAttempt { score, member })
    }

    fn count(&mut self, phase: Phase, range: u64) -> (step: Step)
        ensures
            (final(self)@, step@) == old(self)@.count(phase, range),
    {
        let from: u64 = window_start_of(self.now, range);
        let to: u64 = self.now;
        self.ask(phase, Command::CountAttempts { from, to })
    }

    fn write_block(&mut self, tier: Tier) -> (step: Step)
        ensures
            (final(self)@, step@) == old(self)@.write_block(tier),
    {
        proof {
            use_type_invariant(&*self);
        }
        let seconds: u64 = lifetime_of(&self.config, tier);
        let record = BlockRecord { blocked_until: self.now + seconds, tier };
        let value = encode_block(&record);
        self.ask(Phase::WritingBlock { tier }, Command::WriteBlock { value, seconds })
    }
}

/// Takes the store's reply to the command that `session` asked last and
/// says what comes next: another command, or the end of the check. See
/// [`advance_model`] for every case.
pub fn limiter(session: &mut Session, reply: Reply) -> (step: Step)
    ensures
        (final(session)@, step@) == advance_model(old(session)@, reply@),
{
    match session.phase() {
        Phase::ReadingBlock => match reply {
            Reply::Value(None) => session.add_attempt(),
            Reply::Value(Some(bytes)) => match decode_block(bytes.as_slice()) {
                Some(record) => {
                    let now: u64 = session.now();
                    if now < record.blocked_until {
                        session.finish(
                            Ok(
                                Decision::Deny {
                                    tier: record.tier,
                                    retry_after: record.remaining_at(now),
                                },
                            ),
                        )
                    } else {
                        session.ask(Phase::DeletingBlock, Command::DeleteBlock)
                    }
                },
                None => session.fail(),
            },
            _ => session.fail(),
        },
        Phase::DeletingBlock => session.add_attempt(),
        Phase::AddingAttempt => match reply {
            Reply::Done => {
                let seconds: u64 = session.config.retention();
                session.ask(Phase::KeepingAttempts, Command::KeepAttempts { seconds })
            },
            _ => session.fail(),
        },
        Phase::KeepingAttempts => match reply {
            Reply::Done => {
                let range: u64 = session.config.temp_block_range();
                session.count(Phase::CountingShort, range)
            },
            _ => session.fail(),
        },
        Phase::CountingShort => match reply {
            Reply::Count(n) => {
                let range: u64 = session.config.block_range();
                session.count(Phase::CountingLong { short_count: n }, range)
            },
            _ => session.fail(),
        },
        Phase::CountingLong { short_count } => match reply {
            Reply::Count(n) => match decide(&session.config, short_count, n) {
                Some(tier) => session.write_block(tier),
                None => session.finish(Ok(Decision::Allow)),
            },
            _ => session.fail(),
        },
        Phase::WritingBlock { tier } => match reply {
            Reply::Done => {
                let seconds: u64 = lifetime_of(&session.config, tier);
                session.finish(Ok(Decision::Deny { tier, retry_after: seconds }))
            },
            _ => session.fail(),
        },
        Phase::Finished { outcome } => session.finish(outcome),
    }
}

/// How a store that holds the state `store` of the checked key answers
/// `command` at second `now`, and what it holds afterwards.
///
/// The block is handed out as long as it is stored, run out or not: to
/// delete it is the session's part. A value that is no block record is
/// refused. The attempts are dropped when their retention has run out,
/// which shows at the next command that touches them. Each added member is
/// taken to be new, so that every attempt counts.
pub open spec fn serve_model(store: KeyModel, command: CommandModel, now: u64) -> (
    KeyModel,
    ReplyModel,
) {
    match command {
        CommandModel::ReadBlock => (
            store,
            ReplyModel::Value(
                match store.block {
                    Some(record) => Some(block_value(record)),
                    None => None,
                },
            ),
        ),
        CommandModel::DeleteBlock => (
            KeyModel { attempts: store.attempts, block: None },
            ReplyModel::Done,
        ),
        CommandModel::AddAttempt { score, member } => (
            KeyModel { attempts: store.attempts.purge(now).append(score), block: store.block },
            ReplyModel::Done,
        ),
        CommandModel::KeepAttempts { seconds } => if now + seconds <= u64::MAX {
            (
                KeyModel {
                    attempts: store.attempts.purge(now).keep_until((now + seconds) as u64),
                    block: store.block,
                },
                ReplyModel::Done,
            )
        } else {
            (store, ReplyModel::Failed)
        },
        CommandModel::CountAttempts { from, to } => (
            KeyModel { attempts: store.attempts.purge(now), block: store.block },
            ReplyModel::Count(store.attempts.purge(now).count(from as int, to as int) as u64),
        ),
        CommandModel::WriteBlock { value, seconds } => match parse_block(value) {
            Some(record) => (
                KeyModel { attempts: store.attempts, block: Some(record) },
                ReplyModel::Done,
            ),
            None => (store, ReplyModel::Failed),
        },
    }
}

/// The whole conversation of a session with such a store: the store answers
/// `command`, the session goes on with the reply, until the session is
/// over or `rounds` commands were sent. Gives what the store holds at the
/// end, and the outcome if the session got that far.
pub open spec fn converse(
    s: SessionModel,
    command: CommandModel,
    store: KeyModel,
    rounds: nat,
) -> (KeyModel, Option<Result<Decision, LimiterError>>)
    decreases rounds,
{
    if rounds == 0 {
        (store, None)
    } else {
        let (held, reply) = serve_model(store, command, s.now);
        let (next, step) = advance_model(s, reply);
        match step {
            StepModel::Finished(outcome) => (held, Some(outcome)),
            StepModel::Ask(again) => converse(next, again, held, (rounds - 1) as nat),
        }
    }
}

} // verus!
