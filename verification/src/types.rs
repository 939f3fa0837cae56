//! Entities of the marketplace ledger and the error taxonomy.
//!
//! Identities (owners, lessees, review authors) and free text are plain
//! strings;
//! monetary amounts are unsigned integers in the smallest currency unit;
//! timestamps are seconds since the epoch. Entity ids are assigned
//! sequentially starting at 1 and entities are never deleted.

use vstd::prelude::*;

verus! {

/// Payment models supported by the platform.
#[derive(Clone, Copy, PartialEq, Eq, Structural, Debug)]
pub enum PaymentModel {
    Hourly,
    Daily,
    Weekly,
    Monthly,
    PayPerUse,
}

/// Aggregate counters maintained transactionally alongside every mutation:
/// assets available for lease, assets currently leased, assets ever
/// registered, and total revenue (sum of processed payments minus approved
/// refunds).
#[derive(Clone, Copy, PartialEq, Eq, Structural, Debug)]
pub struct AssetStats {
    pub available: u64,
    pub leased: u64,
    pub registered: u64,
    pub total_revenue: u64,
}

/// A leasable resource listed by an owner.
#[derive(Debug)]
pub struct Asset {
    pub asset_id: u64,
    pub owner: String,
    pub title: String,
    pub description: String,
    pub asset_type: String,
    pub location: String,
    pub price: u64,
    pub payment_model: PaymentModel,
    pub is_available: bool,
    pub created_time: u64,
    pub quality_guarantee: String,
    pub rating: u64,
}

impl Clone for Asset {
    fn clone(&self) -> (res: Self)
        ensures
            res == *self,
    {
        Asset {
            asset_id: self.asset_id,
            owner: self.owner.clone(),
            title: self.title.clone(),
            description: self.description.clone(),
            asset_type: self.asset_type.clone(),
            location: self.location.clone(),
            price: self.price,
            payment_model: self.payment_model,
            is_available: self.is_available,
            created_time: self.created_time,
            quality_guarantee: self.quality_guarantee.clone(),
            rating: self.rating,
        }
    }
}

/// A time-bounded right granted to a lessee to use an asset.
#[derive(Debug)]
pub struct Lease {
    pub lease_id: u64,
    pub asset_id: u64,
    pub lessor: String,
    pub lessee: String,
    pub start_time: u64,
    pub end_time: u64,
    pub total_cost: u64,
    pub is_active: bool,
    pub is_paid: bool,
    pub access_key: String,
    pub dispute_raised: bool,
}

impl Clone for Lease {
    fn clone(&self) -> (res: Self)
        ensures
            res == *self,
    {
        Lease {
            lease_id: self.lease_id,
            asset_id: self.asset_id,
            lessor: self.lessor.clone(),
            lessee: self.lessee.clone(),
            start_time: self.start_time,
            end_time: self.end_time,
            total_cost: self.total_cost,
            is_active: self.is_active,
            is_paid: self.is_paid,
            access_key: self.access_key.clone(),
            dispute_raised: self.dispute_raised,
        }
    }
}

/// An append-only review of an asset; its rating also overwrites the asset's
/// `rating` field.
#[derive(Debug)]
pub struct Review {
    pub review_id: u64,
    pub asset_id: u64,
    pub reviewer: String,
    pub rating: u64,
    pub comment: String,
    pub review_time: u64,
}

impl Clone for Review {
    fn clone(&self) -> (res: Self)
        ensures
            res == *self,
    {
        Review {
            review_id: self.review_id,
            asset_id: self.asset_id,
            reviewer: self.reviewer.clone(),
            rating: self.rating,
            comment: self.comment.clone(),
            review_time: self.review_time,
        }
    }
}

/// Typed key naming an asset record in the host's flat key-value store. The
/// engine itself keeps assets in a dense vector indexed by id; a host adapter
/// that persists entities one by one addresses them with these keys.
#[derive(Clone, Copy, PartialEq, Eq, Structural, Debug)]
pub enum AssetRegistry {
    Asset(u64),
}

/// Typed key naming a lease record in the host's flat key-value store.
#[derive(Clone, Copy, PartialEq, Eq, Structural, Debug)]
pub enum LeaseRegistry {
    Lease(u64),
}

/// Typed key naming a review record in the host's flat key-value store.
#[derive(Clone, Copy, PartialEq, Eq, Structural, Debug)]
pub enum ReviewRegistry {
    Review(u64),
}

/// Why an operation was rejected. Every rejection is total: the operation
/// returns the error and leaves the state exactly as it was.
///
/// Authentication itself (proving that the current call really comes from the
/// claimed identity) is the host's concern and happens before the engine is
/// entered; it is therefore not a variant here.
#[derive(Clone, Copy, PartialEq, Eq, Structural, Debug)]
pub enum Error {
    /// The authenticated caller is not the required role for the entity
    /// (asset owner, or lease lessor/lessee).
    AuthorizationError,
    /// The referenced asset or lease id has never been issued.
    NotFound,
    /// An input is out of range (a rating or refund percentage above 100).
    ValidationError,
    /// The operation violates the entity's state machine (paying an inactive
    /// or already-paid lease, ending an inactive lease, resolving a lease
    /// with no open dispute).
    InvalidState,
    /// The asset is not available for lease.
    UnavailableAsset,
}

} // verus!
