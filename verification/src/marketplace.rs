//! The marketplace state machine: one aggregate owning all entities and
//! statistics, and the operations that mutate it atomically.
//!
//! Every mutating operation validates its preconditions first and either
//! returns an [`Error`] with the state untouched, or commits all of its
//! writes. The host adapter authenticates the caller before every call and
//! supplies the current ledger time where an operation records it.

use vstd::prelude::*;

use crate::counting::count_active;
use crate::counting::count_available;
use crate::counting::lemma_active_le_unavailable;
use crate::counting::lemma_count_active_bounds;
use crate::counting::lemma_count_active_element;
use crate::counting::lemma_count_active_push;
use crate::counting::lemma_count_active_update;
use crate::counting::lemma_count_available_bounds;
use crate::counting::lemma_count_available_element;
use crate::counting::lemma_count_available_push;
use crate::counting::lemma_count_available_update;
use crate::counting::lemma_filter_push;
use crate::types::Asset;
use crate::types::AssetStats;
use crate::types::Error;
use crate::types::Lease;
use crate::types::PaymentModel;
use crate::types::Review;

verus! {

/// Seconds in one hour.
pub const SECONDS_PER_HOUR: u64 = 3600;

/// Seconds in one day.
pub const SECONDS_PER_DAY: u64 = 86400;

/// Seconds in one week.
pub const SECONDS_PER_WEEK: u64 = 604800;

/// Seconds in one month of thirty days.
pub const SECONDS_PER_MONTH: u64 = 2592000;

/// Cost of leasing an asset priced `price` under `model` for `duration`
/// seconds: the price times the number of whole billing units that fit in the
/// duration (a duration shorter than one unit costs nothing), except that a
/// pay-per-use asset costs its price regardless of duration.
pub open spec fn lease_cost(price: u64, model: PaymentModel, duration: u64) -> int {
    match model {
        PaymentModel::Hourly => price * (duration / SECONDS_PER_HOUR),
        PaymentModel::Daily => price * (duration / SECONDS_PER_DAY),
        PaymentModel::Weekly => price * (duration / SECONDS_PER_WEEK),
        PaymentModel::Monthly => price * (duration / SECONDS_PER_MONTH),
        PaymentModel::PayPerUse => price as int,
    }
}

/// Refund owed when a dispute over a lease of total cost `total_cost` is
/// resolved at `refund_percentage` percent: the product divided by 100,
/// truncating toward zero.
pub open spec fn refund_amount(total_cost: u64, refund_percentage: u64) -> int {
    (total_cost * refund_percentage) / 100
}

/// Holds of the assets owned by `owner`.
pub open spec fn asset_owned_by(owner: String) -> spec_fn(Asset) -> bool {
    |a: Asset| a.owner@ == owner@
}

/// Holds of the active leases held by `lessee`.
pub open spec fn lease_active_for(lessee: String) -> spec_fn(Lease) -> bool {
    |l: Lease| l.lessee@ == lessee@ && l.is_active
}

/// Holds of the available assets of type `asset_type`.
pub open spec fn asset_available_of_type(asset_type: String) -> spec_fn(Asset) -> bool {
    |a: Asset| a.is_available && a.asset_type@ == asset_type@
}

/// The marketplace ledger state: all entities ever created, in id order, and
/// the aggregate statistics. The id of an entity is its index plus one, so
/// the three id counters of the ledger are the three vector lengths.
pub struct IoTMarketplace {
    pub assets: Vec<Asset>,
    pub leases: Vec<Lease>,
    pub reviews: Vec<Review>,
    pub stats: AssetStats,
}

impl IoTMarketplace {
    /// The asset id has been issued.
    pub open spec fn has_asset(self, asset_id: u64) -> bool {
        1 <= asset_id <= self.assets@.len()
    }

    /// The lease id has been issued.
    pub open spec fn has_lease(self, lease_id: u64) -> bool {
        1 <= lease_id <= self.leases@.len()
    }

    /// The review id has been issued.
    pub open spec fn has_review(self, review_id: u64) -> bool {
        1 <= review_id <= self.reviews@.len()
    }

    /// The stored asset with the given issued id.
    pub open spec fn asset_at(self, asset_id: u64) -> Asset {
        self.assets@[asset_id - 1]
    }

    /// The stored lease with the given issued id.
    pub open spec fn lease_at(self, lease_id: u64) -> Lease {
        self.leases@[lease_id - 1]
    }

    /// The stored review with the given issued id.
    pub open spec fn review_at(self, review_id: u64) -> Review {
        self.reviews@[review_id - 1]
    }

    /// Some active lease holds this asset.
    pub open spec fn asset_has_active_lease(self, asset_id: u64) -> bool {
        exists|j: int|
            0 <= j < self.leases@.len() && (#[trigger] self.leases@[j]).is_active
                && self.leases@[j].asset_id == asset_id
    }

    /// Well-formedness of the ledger state. Entity ids are their index plus
    /// one; ratings stay within 0..=100; the availability and lease counters
    /// equal the counts they stand for; every lease names an issued asset;
    /// every active lease holds an asset that is marked unavailable; and no
    /// two active leases hold the same asset.
    pub open spec fn wf(self) -> bool {
        &&& self.stats.registered == self.assets@.len()
        &&& self.stats.available == count_available(self.assets@)
        &&& self.stats.leased == count_active(self.leases@)
        &&& forall|i: int|
            0 <= i < self.assets@.len() ==> (#[trigger] self.assets@[i]).asset_id == i + 1
        &&& forall|i: int| 0 <= i < self.assets@.len() ==> (#[trigger] self.assets@[i]).rating <= 100
        &&& forall|i: int|
            0 <= i < self.leases@.len() ==> (#[trigger] self.leases@[i]).lease_id == i + 1
        &&& forall|i: int|
            0 <= i < self.leases@.len() ==> 1 <= (#[trigger] self.leases@[i]).asset_id
                <= self.assets@.len()
        &&& forall|i: int|
            0 <= i < self.reviews@.len() ==> (#[trigger] self.reviews@[i]).review_id == i + 1
        &&& forall|i: int|
            0 <= i < self.reviews@.len() ==> (#[trigger] self.reviews@[i]).rating <= 100
        &&& forall|i: int|
            0 <= i < self.leases@.len() && (#[trigger] self.leases@[i]).is_active
                ==> !self.assets@[self.leases@[i].asset_id - 1].is_available
        &&& forall|i: int, j: int|
            0 <= i < j < self.leases@.len() && (#[trigger] self.leases@[i]).is_active && (
            #[trigger] self.leases@[j]).is_active ==> self.leases@[i].asset_id
                != self.leases@[j].asset_id
    }

    /// The caller-supplied owner matches the stored owner of an issued asset.
    pub open spec fn owner_matches(self, asset_id: u64, owner: String) -> bool {
        self.has_asset(asset_id) && self.asset_at(asset_id).owner@ == owner@
    }

    /// The asset exists and is open for a new lease.
    pub open spec fn lease_allowed(self, asset_id: u64) -> bool {
        self.has_asset(asset_id) && self.asset_at(asset_id).is_available
    }

    /// The lease exists, `payer` is its lessee, and it is active and unpaid.
    pub open spec fn payment_allowed(self, lease_id: u64, payer: String) -> bool {
        &&& self.has_lease(lease_id)
        &&& self.lease_at(lease_id).lessee@ == payer@
        &&& self.lease_at(lease_id).is_active
        &&& !self.lease_at(lease_id).is_paid
    }

    /// The caller is a party to the lease: its lessor or its lessee.
    pub open spec fn lease_party(self, lease_id: u64, caller: String) -> bool {
        self.lease_at(lease_id).lessor@ == caller@ || self.lease_at(lease_id).lessee@ == caller@
    }

    /// The lease exists, `caller` is a party to it, and it is active.
    pub open spec fn end_allowed(self, lease_id: u64, caller: String) -> bool {
        self.has_lease(lease_id) && self.lease_party(lease_id, caller) && self.lease_at(
            lease_id,
        ).is_active
    }

    /// The refund percentage is in range and the lease exists with an open
    /// dispute.
    pub open spec fn resolve_allowed(self, lease_id: u64, refund_percentage: u64) -> bool {
        refund_percentage <= 100 && self.has_lease(lease_id) && self.lease_at(
            lease_id,
        ).dispute_raised
    }

    /// The rating is in range and the reviewed asset exists.
    pub open spec fn review_allowed(self, asset_id: u64, rating: u64) -> bool {
        rating <= 100 && self.has_asset(asset_id)
    }

    /// A fresh marketplace: no entities, zeroed counters and statistics.
    /// Constructing a new state over an existing one silently resets
    /// everything; there is deliberately no re-initialization guard.
    pub fn initialize() -> (m: IoTMarketplace)
        ensures
            m.wf(),
            m.assets@ == Seq::<Asset>::empty(),
            m.leases@ == Seq::<Lease>::empty(),
            m.reviews@ == Seq::<Review>::empty(),
            m.stats == (AssetStats { available: 0, leased: 0, registered: 0, total_revenue: 0 }),
    {
        IoTMarketplace {
            assets: Vec::new(),
            leases: Vec::new(),
            reviews: Vec::new(),
            stats: AssetStats { available: 0, leased: 0, registered: 0, total_revenue: 0 },
        }
    }

    /// Registers a new asset for `owner` and returns its id, the next in the
    /// asset id sequence. The asset starts available, rated 0, created at the
    /// supplied ledger time. Registration raises both the registered and the
    /// available counters by exactly one. The host has already authenticated
    /// `owner`; registration itself has no failure path.
    pub fn register_asset(
        &mut self,
        owner: String,
        title: String,
        description: String,
        asset_type: String,
        location: String,
        price: u64,
        payment_model: PaymentModel,
        quality_guarantee: String,
        now: u64,
    ) -> (asset_id: u64)
        requires
            old(self).wf(),
            old(self).assets@.len() < u64::MAX,
        ensures
            final(self).wf(),
            asset_id == old(self).assets@.len() + 1,
            final(self).assets@ == old(self).assets@.push(
                (Asset {
                    asset_id: asset_id,
                    owner: owner,
                    title: title,
                    description: description,
                    asset_type: asset_type,
                    location: location,
                    price: price,
                    payment_model: payment_model,
                    is_available: true,
                    created_time: now,
                    quality_guarantee: quality_guarantee,
                    rating: 0,
                }),
            ),
            final(self).leases == old(self).leases,
            final(self).reviews == old(self).reviews,
            final(self).stats == (AssetStats {
                available: (old(self).stats.available + 1) as u64,
                leased: old(self).stats.leased,
                registered: (old(self).stats.registered + 1) as u64,
                total_revenue: old(self).stats.total_revenue,
            }),
    {
        proof {
            lemma_count_available_bounds(old(self).assets@);
        }
        let id = self.assets.len() as u64 + 1;
        let asset = Asset {
            asset_id: id,
            owner,
            title,
            description,
            asset_type,
            location,
            price,
            payment_model,
            is_available: true,
            created_time: now,
            quality_guarantee,
            rating: 0,
        };
        proof {
            lemma_count_available_push(self.assets@, asset);
        }
        self.assets.push(asset);
        self.stats.registered = self.stats.registered + 1;
        self.stats.available = self.stats.available + 1;
        id
    }

    /// Overwrites the mutable fields of an asset (title, description, price,
    /// availability, quality guarantee) and adjusts the available counter
    /// when the availability flag toggles. Fails with `NotFound` for an
    /// unissued id, and with `AuthorizationError` when `owner` is not the
    /// stored owner of the asset; either failure leaves the state untouched.
    /// Marking an asset available while an active lease still holds it would
    /// desynchronize the counters, so such a call is excluded up front.
    pub fn update_asset(
        &mut self,
        asset_id: u64,
        owner: String,
        title: String,
        description: String,
        price: u64,
        is_available: bool,
        quality_guarantee: String,
    ) -> (result: Result<bool, Error>)
        requires
            old(self).wf(),
            old(self).owner_matches(asset_id, owner) && is_available ==> !old(
                self,
            ).asset_has_active_lease(asset_id),
        ensures
            final(self).wf(),
            !old(self).has_asset(asset_id) ==> result == Err::<bool, Error>(Error::NotFound)
                && *final(self) == *old(self),
            old(self).has_asset(asset_id) && !old(self).owner_matches(asset_id, owner) ==> result
                == Err::<bool, Error>(Error::AuthorizationError) && *final(self) == *old(self),
            old(self).owner_matches(asset_id, owner) ==> {
                &&& result == Ok::<bool, Error>(true)
                &&& final(self).assets@ == old(self).assets@.update(
                    asset_id - 1,
                    (Asset {
                        title: title,
                        description: description,
                        price: price,
                        is_available: is_available,
                        quality_guarantee: quality_guarantee,
                        ..old(self).asset_at(asset_id)
                    }),
                )
                &&& final(self).leases == old(self).leases
                &&& final(self).reviews == old(self).reviews
                &&& final(self).stats == (AssetStats {
                    available: (old(self).stats.available + (if is_available {
                        1int
                    } else {
                        0int
                    }) - (if old(self).asset_at(asset_id).is_available {
                        1int
                    } else {
                        0int
                    })) as u64,
                    ..old(self).stats
                })
            },
    {
        let n = self.assets.len() as u64;
        if asset_id < 1 || asset_id > n {
            return Err(Error::NotFound);
        }
        let idx = (asset_id - 1) as usize;
        if !(self.assets[idx].owner == owner) {
            return Err(Error::AuthorizationError);
        }
        let was_available = self.assets[idx].is_available;
        if was_available != is_available {
            proof {
                lemma_count_available_element(self.assets@, idx as int);
            }
            if is_available {
                self.stats.available = self.stats.available + 1;
            } else {
                self.stats.available = self.stats.available - 1;
            }
        }
        let updated = Asset {
            asset_id: self.assets[idx].asset_id,
            owner: self.assets[idx].owner.clone(),
            title,
            description,
            asset_type: self.assets[idx].asset_type.clone(),
            location: self.assets[idx].location.clone(),
            price,
            payment_model: self.assets[idx].payment_model,
            is_available,
            created_time: self.assets[idx].created_time,
            quality_guarantee,
            rating: self.assets[idx].rating,
        };
        proof {
            lemma_count_available_update(old(self).assets@, idx as int, updated);
        }
        self.assets[idx] = updated;
        proof {
            assert forall|j: int|
                0 <= j < self.leases@.len() && (#[trigger] self.leases@[j]).is_active implies !self.assets@[self.leases@[j].asset_id
                - 1].is_available by {
                if self.leases@[j].asset_id == asset_id {
                    assert(old(self).leases@[j].is_active && old(self).leases@[j].asset_id
                        == asset_id);
                    assert(old(self).asset_has_active_lease(asset_id));
                }
            }
        }
        Ok(true)
    }

    /// Opens a lease on an available asset for `lessee` and returns the new
    /// lease id, the next in the lease id sequence. The total cost follows
    /// [`lease_cost`]; the lease starts active, unpaid and undisputed, and
    /// runs from the supplied ledger time for `duration` seconds. The asset
    /// flips to unavailable, the available counter drops by one and the
    /// leased counter rises by one. Fails with `NotFound` for an unissued
    /// asset id and with `UnavailableAsset` for an asset that is not
    /// available; either failure leaves the state untouched. The host has
    /// already authenticated `lessee`.
    pub fn create_lease(
        &mut self,
        asset_id: u64,
        lessee: String,
        duration: u64,
        access_key: String,
        now: u64,
    ) -> (result: Result<u64, Error>)
        requires
            old(self).wf(),
            old(self).lease_allowed(asset_id) ==> old(self).leases@.len() < u64::MAX,
            old(self).lease_allowed(asset_id) ==> now + duration <= u64::MAX,
            old(self).lease_allowed(asset_id) ==> lease_cost(
                old(self).asset_at(asset_id).price,
                old(self).asset_at(asset_id).payment_model,
                duration,
            ) <= u64::MAX,
        ensures
            final(self).wf(),
            !old(self).has_asset(asset_id) ==> result == Err::<u64, Error>(Error::NotFound)
                && *final(self) == *old(self),
            old(self).has_asset(asset_id) && !old(self).asset_at(asset_id).is_available ==> result
                == Err::<u64, Error>(Error::UnavailableAsset) && *final(self) == *old(self),
            old(self).lease_allowed(asset_id) ==> {
                &&& result == Ok::<u64, Error>((old(self).leases@.len() + 1) as u64)
                &&& final(self).leases@ == old(self).leases@.push(
                    (Lease {
                        lease_id: (old(self).leases@.len() + 1) as u64,
                        asset_id: asset_id,
                        lessor: old(self).asset_at(asset_id).owner,
                        lessee: lessee,
                        start_time: now,
                        end_time: (now + duration) as u64,
                        total_cost: lease_cost(
                            old(self).asset_at(asset_id).price,
                            old(self).asset_at(asset_id).payment_model,
                            duration,
                        ) as u64,
                        is_active: true,
                        is_paid: false,
                        access_key: access_key,
                        dispute_raised: false,
                    }),
                )
                &&& final(self).assets@ == old(self).assets@.update(
                    asset_id - 1,
                    (Asset { is_available: false, ..old(self).asset_at(asset_id) }),
                )
                &&& final(self).reviews == old(self).reviews
                &&& final(self).stats == (AssetStats {
                    available: (old(self).stats.available - 1) as u64,
                    leased: (old(self).stats.leased + 1) as u64,
                    ..old(self).stats
                })
            },
    {
        let n = self.assets.len() as u64;
        if asset_id < 1 || asset_id > n {
            return Err(Error::NotFound);
        }
        let idx = (asset_id - 1) as usize;
        if !self.assets[idx].is_available {
            return Err(Error::UnavailableAsset);
        }
        let end_time = now + duration;
        let price = self.assets[idx].price;
        let total_cost = match self.assets[idx].payment_model {
            PaymentModel::Hourly => price * (duration / SECONDS_PER_HOUR),
            PaymentModel::Daily => price * (duration / SECONDS_PER_DAY),
            PaymentModel::Weekly => price * (duration / SECONDS_PER_WEEK),
            PaymentModel::Monthly => price * (duration / SECONDS_PER_MONTH),
            PaymentModel::PayPerUse => price,
        };
        let lease_id = self.leases.len() as u64 + 1;
        let lease = Lease {
            lease_id,
            asset_id,
            lessor: self.assets[idx].owner.clone(),
            lessee,
            start_time: now,
            end_time,
            total_cost,
            is_active: true,
            is_paid: false,
            access_key,
            dispute_raised: false,
        };
        let mut updated = self.assets[idx].clone();
        updated.is_available = false;
        proof {
            lemma_count_available_element(self.assets@, idx as int);
            lemma_count_available_update(self.assets@, idx as int, updated);
            lemma_count_active_push(self.leases@, lease);
            lemma_count_active_bounds(self.leases@);
        }
        self.assets[idx] = updated;
        self.leases.push(lease);
        self.stats.available = self.stats.available - 1;
        self.stats.leased = self.stats.leased + 1;
        proof {
            assert forall|j: int|
                0 <= j < self.leases@.len() && (#[trigger] self.leases@[j]).is_active implies !self.assets@[self.leases@[j].asset_id
                - 1].is_available by {
                if j < old(self).leases@.len() {
                    assert(old(self).leases@[j].is_active);
                    assert(old(self).leases@[j].asset_id != asset_id);
                }
            }
            assert forall|i: int, j: int|
                0 <= i < j < self.leases@.len() && (#[trigger] self.leases@[i]).is_active && (
                #[trigger] self.leases@[j]).is_active implies self.leases@[i].asset_id
                != self.leases@[j].asset_id by {
                if j < old(self).leases@.len() {
                    assert(old(self).leases@[i].is_active && old(self).leases@[j].is_active);
                } else {
                    assert(old(self).leases@[i].is_active);
                    assert(old(self).leases@[i].asset_id != asset_id);
                }
            }
        }
        Ok(lease_id)
    }

    /// Records the payment of a lease by its lessee: the lease becomes paid
    /// and its total cost is added to the total revenue. No value moves here;
    /// the transfer itself is the concern of an external payment rail. Fails
    /// with `NotFound` for an unissued lease id, with `AuthorizationError`
    /// when `payer` is not the stored lessee, and with `InvalidState` when
    /// the lease is inactive or already paid; any failure leaves the state
    /// untouched.
    pub fn process_payment(&mut self, lease_id: u64, payer: String) -> (result: Result<
        bool,
        Error,
    >)
        requires
            old(self).wf(),
            old(self).payment_allowed(lease_id, payer) ==> old(self).stats.total_revenue + old(
                self,
            ).lease_at(lease_id).total_cost <= u64::MAX,
        ensures
            final(self).wf(),
            !old(self).has_lease(lease_id) ==> result == Err::<bool, Error>(Error::NotFound)
                && *final(self) == *old(self),
            old(self).has_lease(lease_id) && old(self).lease_at(lease_id).lessee@ != payer@
                ==> result == Err::<bool, Error>(Error::AuthorizationError) && *final(self) == *old(
                self,
            ),
            old(self).has_lease(lease_id) && old(self).lease_at(lease_id).lessee@ == payer@ && !(
            old(self).lease_at(lease_id).is_active && !old(self).lease_at(lease_id).is_paid)
                ==> result == Err::<bool, Error>(Error::InvalidState) && *final(self) == *old(self),
            old(self).payment_allowed(lease_id, payer) ==> {
                &&& result == Ok::<bool, Error>(true)
                &&& final(self).leases@ == old(self).leases@.update(
                    lease_id - 1,
                    (Lease { is_paid: true, ..old(self).lease_at(lease_id) }),
                )
                &&& final(self).assets == old(self).assets
                &&& final(self).reviews == old(self).reviews
                &&& final(self).stats == (AssetStats {
                    total_revenue: (old(self).stats.total_revenue + old(self).lease_at(
                        lease_id,
                    ).total_cost) as u64,
                    ..old(self).stats
                })
            },
    {
        let n = self.leases.len() as u64;
        if lease_id < 1 || lease_id > n {
            return Err(Error::NotFound);
        }
        let idx = (lease_id - 1) as usize;
        if !(self.leases[idx].lessee == payer) {
            return Err(Error::AuthorizationError);
        }
        if !self.leases[idx].is_active || self.leases[idx].is_paid {
            return Err(Error::InvalidState);
        }
        let cost = self.leases[idx].total_cost;
        let mut updated = self.leases[idx].clone();
        updated.is_paid = true;
        proof {
            lemma_count_active_update(self.leases@, idx as int, updated);
        }
        self.leases[idx] = updated;
        self.stats.total_revenue = self.stats.total_revenue + cost;
        proof {
            assert forall|j: int|
                0 <= j < self.leases@.len() && (#[trigger] self.leases@[j]).is_active implies !self.assets@[self.leases@[j].asset_id
                - 1].is_available by {
                assert(old(self).leases@[j].is_active);
            }
        }
        Ok(true)
    }

    /// Ends an active lease early or at expiry: the lease becomes inactive,
    /// its asset becomes available again, the available counter rises by one
    /// and the leased counter drops by one. Only a party to the lease (its
    /// lessor or lessee) may end it. Fails with `NotFound` for an unissued
    /// lease id, with `AuthorizationError` for any other caller, and with
    /// `InvalidState` when the lease is already inactive, so ending a lease
    /// twice fails; any failure leaves the state untouched.
    pub fn end_lease(&mut self, lease_id: u64, caller: String) -> (result: Result<bool, Error>)
        requires
            old(self).wf(),
        ensures
            final(self).wf(),
            !old(self).has_lease(lease_id) ==> result == Err::<bool, Error>(Error::NotFound)
                && *final(self) == *old(self),
            old(self).has_lease(lease_id) && !old(self).lease_party(lease_id, caller) ==> result
                == Err::<bool, Error>(Error::AuthorizationError) && *final(self) == *old(self),
            old(self).has_lease(lease_id) && old(self).lease_party(lease_id, caller) && !old(
                self,
            ).lease_at(lease_id).is_active ==> result == Err::<bool, Error>(Error::InvalidState)
                && *final(self) == *old(self),
            old(self).end_allowed(lease_id, caller) ==> {
                &&& result == Ok::<bool, Error>(true)
                &&& final(self).leases@ == old(self).leases@.update(
                    lease_id - 1,
                    (Lease { is_active: false, ..old(self).lease_at(lease_id) }),
                )
                &&& final(self).assets@ == old(self).assets@.update(
                    old(self).lease_at(lease_id).asset_id - 1,
                    (Asset {
                        is_available: true,
                        ..old(self).asset_at(old(self).lease_at(lease_id).asset_id)
                    }),
                )
                &&& final(self).reviews == old(self).reviews
                &&& final(self).stats == (AssetStats {
                    available: (old(self).stats.available + 1) as u64,
                    leased: (old(self).stats.leased - 1) as u64,
                    ..old(self).stats
                })
            },
    {
        let n = self.leases.len() as u64;
        if lease_id < 1 || lease_id > n {
            return Err(Error::NotFound);
        }
        let idx = (lease_id - 1) as usize;
        if !(self.leases[idx].lessor == caller) && !(self.leases[idx].lessee == caller) {
            return Err(Error::AuthorizationError);
        }
        if !self.leases[idx].is_active {
            return Err(Error::InvalidState);
        }
        proof {
            assert(self.assets.len() == self.assets@.len());
            assert(self.leases@[idx as int].is_active);
            assert(1 <= self.leases@[idx as int].asset_id <= self.assets@.len());
            assert(!self.assets@[self.leases@[idx as int].asset_id - 1].is_available);
        }
        let aidx = (self.leases[idx].asset_id - 1) as usize;
        let mut ended = self.leases[idx].clone();
        ended.is_active = false;
        let mut freed = self.assets[aidx].clone();
        freed.is_available = true;
        proof {
            assert(!self.assets@[aidx as int].is_available);
            lemma_count_active_element(self.leases@, idx as int);
            lemma_count_active_update(self.leases@, idx as int, ended);
            lemma_count_available_element(self.assets@, aidx as int);
            lemma_count_available_update(self.assets@, aidx as int, freed);
        }
        self.leases[idx] = ended;
        self.assets[aidx] = freed;
        self.stats.available = self.stats.available + 1;
        self.stats.leased = self.stats.leased - 1;
        proof {
            assert forall|j: int|
                0 <= j < self.leases@.len() && (#[trigger] self.leases@[j]).is_active implies !self.assets@[self.leases@[j].asset_id
                - 1].is_available by {
                assert(old(self).leases@[j].is_active);
                assert(old(self).leases@[j].asset_id != old(self).leases@[idx as int].asset_id);
            }
            assert forall|i: int, j: int|
                0 <= i < j < self.leases@.len() && (#[trigger] self.leases@[i]).is_active && (
                #[trigger] self.leases@[j]).is_active implies self.leases@[i].asset_id
                != self.leases@[j].asset_id by {
                assert(old(self).leases@[i].is_active && old(self).leases@[j].is_active);
            }
        }
        Ok(true)
    }

    /// Flags a disagreement on an active lease: the lease's dispute flag is
    /// set and nothing else changes. Only a party to the lease may raise a
    /// dispute. Fails with `NotFound` for an unissued lease id, with
    /// `AuthorizationError` for any other caller, and with `InvalidState`
    /// when the lease is inactive; any failure leaves the state untouched.
    pub fn raise_dispute(&mut self, lease_id: u64, caller: String) -> (result: Result<bool, Error>)
        requires
            old(self).wf(),
        ensures
            final(self).wf(),
            !old(self).has_lease(lease_id) ==> result == Err::<bool, Error>(Error::NotFound)
                && *final(self) == *old(self),
            old(self).has_lease(lease_id) && !old(self).lease_party(lease_id, caller) ==> result
                == Err::<bool, Error>(Error::AuthorizationError) && *final(self) == *old(self),
            old(self).has_lease(lease_id) && old(self).lease_party(lease_id, caller) && !old(
                self,
            ).lease_at(lease_id).is_active ==> result == Err::<bool, Error>(Error::InvalidState)
                && *final(self) == *old(self),
            old(self).end_allowed(lease_id, caller) ==> {
                &&& result == Ok::<bool, Error>(true)
                &&& final(self).leases@ == old(self).leases@.update(
                    lease_id - 1,
                    (Lease { dispute_raised: true, ..old(self).lease_at(lease_id) }),
                )
                &&& final(self).assets == old(self).assets
                &&& final(self).reviews == old(self).reviews
                &&& final(self).stats == old(self).stats
            },
    {
        let n = self.leases.len() as u64;
        if lease_id < 1 || lease_id > n {
            return Err(Error::NotFound);
        }
        let idx = (lease_id - 1) as usize;
        if !(self.leases[idx].lessor == caller) && !(self.leases[idx].lessee == caller) {
            return Err(Error::AuthorizationError);
        }
        if !self.leases[idx].is_active {
            return Err(Error::InvalidState);
        }
        let mut disputed = self.leases[idx].clone();
        disputed.dispute_raised = true;
        proof {
            lemma_count_active_update(self.leases@, idx as int, disputed);
        }
        self.leases[idx] = disputed;
        proof {
            assert forall|j: int|
                0 <= j < self.leases@.len() && (#[trigger] self.leases@[j]).is_active implies !self.assets@[self.leases@[j].asset_id
                - 1].is_available by {
                assert(old(self).leases@[j].is_active);
            }
            assert forall|i: int, j: int|
                0 <= i < j < self.leases@.len() && (#[trigger] self.leases@[i]).is_active && (
                #[trigger] self.leases@[j]).is_active implies self.leases@[i].asset_id
                != self.leases@[j].asset_id by {
                assert(old(self).leases@[i].is_active && old(self).leases@[j].is_active);
            }
        }
        Ok(true)
    }

    /// Arbitrates an open dispute: the lessee is owed a refund of
    /// [`refund_amount`], which is taken back out of the total revenue; the
    /// lease becomes inactive and undisputed, its asset becomes available
    /// again, the available counter rises by one and the leased counter drops
    /// by one. Any authenticated identity may act as the arbitrating `admin`:
    /// no role is checked, a known gap that is deliberately preserved. Fails
    /// with `ValidationError` for a refund percentage above 100, with
    /// `NotFound` for an unissued lease id, and with `InvalidState` when no
    /// dispute is open on the lease; any failure leaves the state untouched.
    #[allow(unused_variables)]
    pub fn resolve_dispute(
        &mut self,
        lease_id: u64,
        admin: String,
        refund_percentage: u64,
    ) -> (result: Result<bool, Error>)
        requires
            old(self).wf(),
            old(self).resolve_allowed(lease_id, refund_percentage) ==> old(self).lease_at(
                lease_id,
            ).is_active,
            old(self).resolve_allowed(lease_id, refund_percentage) ==> old(self).lease_at(
                lease_id,
            ).total_cost * refund_percentage <= u64::MAX,
            old(self).resolve_allowed(lease_id, refund_percentage) ==> refund_amount(
                old(self).lease_at(lease_id).total_cost,
                refund_percentage,
            ) <= old(self).stats.total_revenue,
        ensures
            final(self).wf(),
            refund_percentage > 100 ==> result == Err::<bool, Error>(Error::ValidationError)
                && *final(self) == *old(self),
            refund_percentage <= 100 && !old(self).has_lease(lease_id) ==> result == Err::<
                bool,
                Error,
            >(Error::NotFound) && *final(self) == *old(self),
            refund_percentage <= 100 && old(self).has_lease(lease_id) && !old(self).lease_at(
                lease_id,
            ).dispute_raised ==> result == Err::<bool, Error>(Error::InvalidState) && *final(self)
                == *old(self),
            old(self).resolve_allowed(lease_id, refund_percentage) ==> {
                &&& result == Ok::<bool, Error>(true)
                &&& final(self).leases@ == old(self).leases@.update(
                    lease_id - 1,
                    (Lease {
                        dispute_raised: false,
                        is_active: false,
                        ..old(self).lease_at(lease_id)
                    }),
                )
                &&& final(self).assets@ == old(self).assets@.update(
                    old(self).lease_at(lease_id).asset_id - 1,
                    (Asset {
                        is_available: true,
                        ..old(self).asset_at(old(self).lease_at(lease_id).asset_id)
                    }),
                )
                &&& final(self).reviews == old(self).reviews
                &&& final(self).stats == (AssetStats {
                    available: (old(self).stats.available + 1) as u64,
                    leased: (old(self).stats.leased - 1) as u64,
                    registered: old(self).stats.registered,
                    total_revenue: (old(self).stats.total_revenue - refund_amount(
                        old(self).lease_at(lease_id).total_cost,
                        refund_percentage,
                    )) as u64,
                })
            },
    {
        if refund_percentage > 100 {
            return Err(Error::ValidationError);
        }
        let n = self.leases.len() as u64;
        if lease_id < 1 || lease_id > n {
            return Err(Error::NotFound);
        }
        let idx = (lease_id - 1) as usize;
        if !self.leases[idx].dispute_raised {
            return Err(Error::InvalidState);
        }
        proof {
            assert(self.assets.len() == self.assets@.len());
            assert(old(self).resolve_allowed(lease_id, refund_percentage));
            assert(self.leases@[idx as int].is_active);
            assert(1 <= self.leases@[idx as int].asset_id <= self.assets@.len());
            assert(!self.assets@[self.leases@[idx as int].asset_id - 1].is_available);
        }
        let refund = (self.leases[idx].total_cost * refund_percentage) / 100;
        let aidx = (self.leases[idx].asset_id - 1) as usize;
        let mut resolved = self.leases[idx].clone();
        resolved.dispute_raised = false;
        resolved.is_active = false;
        let mut freed = self.assets[aidx].clone();
        freed.is_available = true;
        proof {
            assert(!self.assets@[aidx as int].is_available);
            lemma_count_active_element(self.leases@, idx as int);
            lemma_count_active_update(self.leases@, idx as int, resolved);
            lemma_count_available_element(self.assets@, aidx as int);
            lemma_count_available_update(self.assets@, aidx as int, freed);
        }
        self.leases[idx] = resolved;
        self.assets[aidx] = freed;
        self.stats.available = self.stats.available + 1;
        self.stats.leased = self.stats.leased - 1;
        self.stats.total_revenue = self.stats.total_revenue - refund;
        proof {
            assert forall|j: int|
                0 <= j < self.leases@.len() && (#[trigger] self.leases@[j]).is_active implies !self.assets@[self.leases@[j].asset_id
                - 1].is_available by {
                assert(old(self).leases@[j].is_active);
                assert(old(self).leases@[j].asset_id != old(self).leases@[idx as int].asset_id);
            }
            assert forall|i: int, j: int|
                0 <= i < j < self.leases@.len() && (#[trigger] self.leases@[i]).is_active && (
                #[trigger] self.leases@[j]).is_active implies self.leases@[i].asset_id
                != self.leases@[j].asset_id by {
                assert(old(self).leases@[i].is_active && old(self).leases@[j].is_active);
            }
        }
        Ok(true)
    }

    /// Appends a review of an asset and returns the new review id, the next
    /// in the review id sequence. The asset's rating field is overwritten
    /// with this single newest rating; no average is kept, deliberately
    /// preserving the recorded behavior. Fails with `ValidationError` for a
    /// rating above 100 and with `NotFound` for an unissued asset id; either
    /// failure leaves the state untouched, consuming no review id. The host
    /// has already authenticated the submitting caller.
    pub fn submit_review(
        &mut self,
        asset_id: u64,
        reviewer: String,
        rating: u64,
        comment: String,
        now: u64,
    ) -> (result: Result<u64, Error>)
        requires
            old(self).wf(),
            old(self).review_allowed(asset_id, rating) ==> old(self).reviews@.len() < u64::MAX,
        ensures
            final(self).wf(),
            rating > 100 ==> result == Err::<u64, Error>(Error::ValidationError) && *final(self)
                == *old(self),
            rating <= 100 && !old(self).has_asset(asset_id) ==> result == Err::<u64, Error>(
                Error::NotFound,
            ) && *final(self) == *old(self),
            old(self).review_allowed(asset_id, rating) ==> {
                &&& result == Ok::<u64, Error>((old(self).reviews@.len() + 1) as u64)
                &&& final(self).reviews@ == old(self).reviews@.push(
                    (Review {
                        review_id: (old(self).reviews@.len() + 1) as u64,
                        asset_id: asset_id,
                        reviewer: reviewer,
                        rating: rating,
                        comment: comment,
                        review_time: now,
                    }),
                )
                &&& final(self).assets@ == old(self).assets@.update(
                    asset_id - 1,
                    (Asset { rating: rating, ..old(self).asset_at(asset_id) }),
                )
                &&& final(self).leases == old(self).leases
                &&& final(self).stats == old(self).stats
            },
    {
        if rating > 100 {
            return Err(Error::ValidationError);
        }
        let n = self.assets.len() as u64;
        if asset_id < 1 || asset_id > n {
            return Err(Error::NotFound);
        }
        let idx = (asset_id - 1) as usize;
        let review_id = self.reviews.len() as u64 + 1;
        let review = Review { review_id, asset_id, reviewer, rating, comment, review_time: now };
        let mut rated = self.assets[idx].clone();
        rated.rating = rating;
        proof {
            lemma_count_available_update(self.assets@, idx as int, rated);
        }
        self.assets[idx] = rated;
        self.reviews.push(review);
        proof {
            assert forall|j: int|
                0 <= j < self.leases@.len() && (#[trigger] self.leases@[j]).is_active implies !self.assets@[self.leases@[j].asset_id
                - 1].is_available by {
                assert(old(self).leases@[j].is_active);
            }
        }
        Ok(review_id)
    }

    /// All assets whose owner is `owner`, in ascending id order: a full
    /// linear scan filtered by the owner field, unaffected by assets owned by
    /// anyone else.
    pub fn get_assets_by_owner(&self, owner: String) -> (result: Vec<Asset>)
        ensures
            result@ == self.assets@.filter(asset_owned_by(owner)),
    {
        let mut result: Vec<Asset> = Vec::new();
        let mut i: usize = 0;
        proof {
            reveal(Seq::filter);
            assert(self.assets@.take(0) =~= Seq::<Asset>::empty());
        }
        while i < self.assets.len()
            invariant
                i <= self.assets@.len(),
                result@ == self.assets@.take(i as int).filter(asset_owned_by(owner)),
            decreases self.assets@.len() - i,
        {
            proof {
                lemma_filter_push(
                    self.assets@.take(i as int),
                    asset_owned_by(owner),
                    self.assets@[i as int],
                );
                assert(self.assets@.take(i as int + 1) =~= self.assets@.take(i as int).push(
                    self.assets@[i as int],
                ));
            }
            if self.assets[i].owner == owner {
                result.push(self.assets[i].clone());
            }
            i = i + 1;
        }
        proof {
            assert(self.assets@.take(self.assets@.len() as int) =~= self.assets@);
        }
        result
    }

    /// All currently active leases whose lessee is `lessee`, in ascending id
    /// order: a full linear scan filtered by the lessee field and the active
    /// flag.
    pub fn get_leases_by_lessee(&self, lessee: String) -> (result: Vec<Lease>)
        ensures
            result@ == self.leases@.filter(lease_active_for(lessee)),
    {
        let mut result: Vec<Lease> = Vec::new();
        let mut i: usize = 0;
        proof {
            reveal(Seq::filter);
            assert(self.leases@.take(0) =~= Seq::<Lease>::empty());
        }
        while i < self.leases.len()
            invariant
                i <= self.leases@.len(),
                result@ == self.leases@.take(i as int).filter(lease_active_for(lessee)),
            decreases self.leases@.len() - i,
        {
            proof {
                lemma_filter_push(
                    self.leases@.take(i as int),
                    lease_active_for(lessee),
                    self.leases@[i as int],
                );
                assert(self.leases@.take(i as int + 1) =~= self.leases@.take(i as int).push(
                    self.leases@[i as int],
                ));
            }
            if self.leases[i].lessee == lessee && self.leases[i].is_active {
                result.push(self.leases[i].clone());
            }
            i = i + 1;
        }
        proof {
            assert(self.leases@.take(self.leases@.len() as int) =~= self.leases@);
        }
        result
    }

    /// All assets of type `asset_type` that are currently available for
    /// lease, in ascending id order: a full linear scan filtered by the type
    /// field and the availability flag.
    pub fn get_available_assets_by_type(&self, asset_type: String) -> (result: Vec<Asset>)
        ensures
            result@ == self.assets@.filter(asset_available_of_type(asset_type)),
    {
        let mut result: Vec<Asset> = Vec::new();
        let mut i: usize = 0;
        proof {
            reveal(Seq::filter);
            assert(self.assets@.take(0) =~= Seq::<Asset>::empty());
        }
        while i < self.assets.len()
            invariant
                i <= self.assets@.len(),
                result@ == self.assets@.take(i as int).filter(asset_available_of_type(asset_type)),
            decreases self.assets@.len() - i,
        {
            proof {
                lemma_filter_push(
                    self.assets@.take(i as int),
                    asset_available_of_type(asset_type),
                    self.assets@[i as int],
                );
                assert(self.assets@.take(i as int + 1) =~= self.assets@.take(i as int).push(
                    self.assets@[i as int],
                ));
            }
            if self.assets[i].is_available && self.assets[i].asset_type == asset_type {
                result.push(self.assets[i].clone());
            }
            i = i + 1;
        }
        proof {
            assert(self.assets@.take(self.assets@.len() as int) =~= self.assets@);
        }
        result
    }

    /// The aggregate statistics.
    pub fn get_asset_stats(&self) -> (s: AssetStats)
        ensures
            s == self.stats,
    {
        self.stats
    }

    /// The asset with the given id, or `NotFound` if the id was never issued.
    pub fn get_asset(&self, asset_id: u64) -> (result: Result<Asset, Error>)
        ensures
            self.has_asset(asset_id) ==> result == Ok::<Asset, Error>(self.asset_at(asset_id)),
            !self.has_asset(asset_id) ==> result == Err::<Asset, Error>(Error::NotFound),
    {
        if 1 <= asset_id && asset_id <= self.assets.len() as u64 {
            Ok(self.assets[(asset_id - 1) as usize].clone())
        } else {
            Err(Error::NotFound)
        }
    }

    /// The lease with the given id, or `NotFound` if the id was never issued.
    pub fn get_lease(&self, lease_id: u64) -> (result: Result<Lease, Error>)
        ensures
            self.has_lease(lease_id) ==> result == Ok::<Lease, Error>(self.lease_at(lease_id)),
            !self.has_lease(lease_id) ==> result == Err::<Lease, Error>(Error::NotFound),
    {
        if 1 <= lease_id && lease_id <= self.leases.len() as u64 {
            Ok(self.leases[(lease_id - 1) as usize].clone())
        } else {
            Err(Error::NotFound)
        }
    }

    /// The review with the given id, or `NotFound` if the id was never
    /// issued.
    pub fn get_review(&self, review_id: u64) -> (result: Result<Review, Error>)
        ensures
            self.has_review(review_id) ==> result == Ok::<Review, Error>(self.review_at(review_id)),
            !self.has_review(review_id) ==> result == Err::<Review, Error>(Error::NotFound),
    {
        if 1 <= review_id && review_id <= self.reviews.len() as u64 {
            Ok(self.reviews[(review_id - 1) as usize].clone())
        } else {
            Err(Error::NotFound)
        }
    }
}

/// While an active lease holds an asset, the asset is not open for a new
/// lease: `create_lease` is bound to fail with `UnavailableAsset` on it until
/// `end_lease` or `resolve_dispute` has made the asset available again.
pub proof fn lemma_leased_asset_not_leasable(m: IoTMarketplace, asset_id: u64)
    requires
        m.wf(),
        m.asset_has_active_lease(asset_id),
    ensures
        !m.lease_allowed(asset_id),
{
    let j = choose|j: int|
        0 <= j < m.leases@.len() && (#[trigger] m.leases@[j]).is_active && m.leases@[j].asset_id
            == asset_id;
    assert(m.leases@[j].is_active);
}

/// In every well-formed state the assets counted available and the leases
/// counted active together never exceed the assets registered: an active
/// lease always holds a distinct asset that is marked unavailable.
pub proof fn lemma_stats_inequality(m: IoTMarketplace)
    requires
        m.wf(),
    ensures
        m.stats.available + m.stats.leased <= m.stats.registered,
{
    lemma_active_le_unavailable(m.assets@, m.leases@);
}

} // verus!
