//! A small transactional data store for a review platform.
//!
//! The store tracks users, companies and hierarchical feedback entries,
//! maintains derived aggregates (vote tallies on feedback, rolling rating
//! totals on companies) as a side effect of writes, and serves paginated,
//! filtered, sorted reads.  Every state mutation is a pure function of the
//! current state, the caller identity and the logical clock, both of which
//! the host environment supplies as plain arguments.

pub mod account;
pub mod board;
pub mod entities;
pub mod errors;
pub mod laws;
pub mod order;
pub mod paging;

pub use board::Contract;
pub use entities::Company;
pub use entities::CompanyId;
pub use entities::Feedback;
pub use entities::FeedbackId;
pub use entities::StorageKey;
pub use entities::User;
pub use entities::UserId;
pub use errors::Error;
