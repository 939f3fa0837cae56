//! Ledger state-transition engine for an asset-leasing marketplace.
//!
//! Owners register assets, lessees open time-bounded leases, payments are
//! recorded, disputes are raised and arbitrated, and aggregate statistics are
//! kept in step with every mutation. The whole engine lives in
//! [`marketplace::IoTMarketplace`], an explicit state aggregate: every
//! operation validates its preconditions, either rejects the call with a
//! [`types::Error`] and leaves the state untouched, or commits all of its
//! writes at once.
//!
//! How state is persisted, how callers prove their identity, and where
//! timestamps come from are the host's concern: a host adapter authenticates
//! the caller, loads the state, passes the current time in, and stores the
//! state back. The engine itself works on plain values only.

pub mod counting;
pub mod marketplace;
pub mod types;

pub use marketplace::IoTMarketplace;
pub use types::Asset;
pub use types::AssetRegistry;
pub use types::AssetStats;
pub use types::Error;
pub use types::Lease;
pub use types::LeaseRegistry;
pub use types::PaymentModel;
pub use types::Review;
pub use types::ReviewRegistry;
