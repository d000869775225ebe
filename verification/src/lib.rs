//! Governance core for periodic funding proposals: a weighted lottery that
//! seats deciding teams, a ballot state machine with formal and informal
//! votes, and a proportional reward allocation at the close of an epoch.
//!
//! All amounts, scores and instants are integers. A ticket score is the
//! leading 64 bits of a SHA-256 digest, an approval threshold is a fraction of
//! two integers, token amounts are counted in the token's smallest unit,
//! instants are seconds and dates are days since 1970-01-01 (UTC).
//!
//! The records ([`team`], [`proposal`], [`raffle`], [`vote`], [`epoch`]) each
//! come with their mathematical value; the commands on the whole state
//! ([`system`] and the modules named after it) are stated as functions from
//! state to state-or-refusal, and a refused command leaves the state as it
//! was. What holds across commands is proved in the modules whose names end
//! in `laws`. [`platform`] holds the few calls whose contracts are taken on trust.

pub mod calendar;
pub mod epoch;
pub mod error;
pub mod model;
pub mod platform;
pub mod proposal;
pub mod raffle;
pub mod raffle_laws;
pub mod raffle_wait;
pub mod reports;
pub mod system;
pub mod system_epochs;
pub mod system_laws;
pub mod system_points;
pub mod system_proposals;
pub mod system_raffles;
pub mod system_vote_flows;
pub mod system_votes;
pub mod team;
pub mod text;
pub mod vote;
pub mod vote_laws;

pub use error::BudgetError;
pub use error::ErrorKind;
pub use platform::Date;
pub use platform::Id;
pub use platform::Timestamp;
pub use system::BudgetSystem;
pub use system::BudgetSystemState;
pub use system::SystemConfig;
