//! Tiered abuse limiter.
//!
//! Sensitive, low-volume operations (a login, the check of a verification
//! code, a password-reset request) are protected by counting the attempts
//! made under a key and blocking the key for a while once too many were made
//! in a trailing window. Two windows are watched: a short one that leads to a
//! temporary block and a long one that leads to an extended block.
//!
//! The modules, leaves first:
//! - [`config`]: the thresholds, windows and block lifetimes of one limiter;
//! - [`attempt_log`]: the timestamped attempts recorded under a key;
//! - [`block_registry`]: the expiring marker that says a key is blocked;
//! - [`tiered`]: what a check decides, as a function of the key's state;
//! - [`memory`]: the state of one key held in memory, and the check on it;
//! - [`store`]: many keys held in memory, each under its name;
//! - [`codec`]: the bytes under which blocks and attempts are stored;
//! - [`clock`]: the clock that a check reads its time from;
//! - [`protocol`]: the check as a conversation with a shared store;
//! - [`laws`]: what holds of every check.
pub mod attempt_log;
pub mod block_registry;
pub mod clock;
pub mod codec;
pub mod config;
pub mod laws;
pub mod memory;
pub mod protocol;
pub mod store;
pub mod tiered;

pub use attempt_log::AttemptLog;
pub use block_registry::{BlockRecord, BlockRegistry, Tier};
pub use config::{AbuseLimiterConfig, LimiterError, LimiterParams, MAX_SECONDS};
pub use memory::KeyState;
pub use protocol::{limiter, Command, Phase, Reply, Session, Step};
pub use store::MemoryStore;
pub use tiered::{Decision, Refusal, TOO_MANY_REQUESTS};
