//! Tests for the linear-scan query operations.

use iot_marketplace::IoTMarketplace;
use iot_marketplace::PaymentModel;

fn register_typed(m: &mut IoTMarketplace, owner: &str, asset_type: &str, title: &str) -> u64 {
    m.register_asset(
        owner.to_string(),
        title.to_string(),
        "A sensor".to_string(),
        asset_type.to_string(),
        "Lagos".to_string(),
        10,
        PaymentModel::Hourly,
        "None".to_string(),
        1,
    )
}

#[test]
fn queries_on_a_fresh_marketplace_are_empty() {
    let m = IoTMarketplace::initialize();
    assert!(m.get_assets_by_owner("alice".to_string()).is_empty());
    assert!(m.get_leases_by_lessee("carol".to_string()).is_empty());
    assert!(m.get_available_assets_by_type("Physical".to_string()).is_empty());
}

#[test]
fn assets_by_owner_returns_exactly_that_owner_in_id_order() {
    let mut m = IoTMarketplace::initialize();
    let a1 = register_typed(&mut m, "alice", "Physical", "first");
    let _b1 = register_typed(&mut m, "bob", "Physical", "other");
    let a2 = register_typed(&mut m, "alice", "Digital", "second");
    let _b2 = register_typed(&mut m, "bob", "Digital", "other two");
    let a3 = register_typed(&mut m, "alice", "Physical", "third");

    let owned = m.get_assets_by_owner("alice".to_string());
    assert_eq!(owned.len(), 3);
    assert_eq!(owned[0].asset_id, a1);
    assert_eq!(owned[1].asset_id, a2);
    assert_eq!(owned[2].asset_id, a3);
    assert!(owned.iter().all(|a| a.owner == "alice"));
    assert_eq!(owned[0].title, "first");

    assert!(m.get_assets_by_owner("nobody".to_string()).is_empty());
}

#[test]
fn assets_by_owner_is_unaffected_by_other_owners_changes() {
    let mut m = IoTMarketplace::initialize();
    let _b = register_typed(&mut m, "bob", "Physical", "bobs");
    let a = register_typed(&mut m, "alice", "Physical", "alices");
    let lease = m
        .create_lease(1, "carol".to_string(), 3600, "k".to_string(), 2)
        .unwrap();
    m.end_lease(lease, "carol".to_string()).unwrap();
    let owned = m.get_assets_by_owner("alice".to_string());
    assert_eq!(owned.len(), 1);
    assert_eq!(owned[0].asset_id, a);
}

#[test]
fn leases_by_lessee_returns_active_leases_only() {
    let mut m = IoTMarketplace::initialize();
    let a1 = register_typed(&mut m, "alice", "Physical", "one");
    let a2 = register_typed(&mut m, "alice", "Physical", "two");
    let a3 = register_typed(&mut m, "alice", "Physical", "three");
    let l1 = m.create_lease(a1, "carol".to_string(), 3600, "k".to_string(), 2).unwrap();
    let l2 = m.create_lease(a2, "carol".to_string(), 3600, "k".to_string(), 3).unwrap();
    let l3 = m.create_lease(a3, "dave".to_string(), 3600, "k".to_string(), 4).unwrap();
    m.end_lease(l1, "carol".to_string()).unwrap();

    let mine = m.get_leases_by_lessee("carol".to_string());
    assert_eq!(mine.len(), 1);
    assert_eq!(mine[0].lease_id, l2);
    assert!(mine[0].is_active);

    let theirs = m.get_leases_by_lessee("dave".to_string());
    assert_eq!(theirs.len(), 1);
    assert_eq!(theirs[0].lease_id, l3);
}

#[test]
fn available_assets_by_type_skips_leased_and_other_types() {
    let mut m = IoTMarketplace::initialize();
    let phys_one = register_typed(&mut m, "alice", "Physical", "one");
    let _d1 = register_typed(&mut m, "alice", "Digital", "two");
    let phys_two = register_typed(&mut m, "bob", "Physical", "three");
    let phys_three = register_typed(&mut m, "bob", "Physical", "four");
    m.create_lease(phys_two, "carol".to_string(), 3600, "k".to_string(), 2).unwrap();

    let avail = m.get_available_assets_by_type("Physical".to_string());
    assert_eq!(avail.len(), 2);
    assert_eq!(avail[0].asset_id, phys_one);
    assert_eq!(avail[1].asset_id, phys_three);

    let digital = m.get_available_assets_by_type("Digital".to_string());
    assert_eq!(digital.len(), 1);
    assert!(m.get_available_assets_by_type("Virtual".to_string()).is_empty());
}
