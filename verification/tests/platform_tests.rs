//! End-to-end tests of the platform operations: registration,
//! shipment lifecycle, authorization, returns and analytics.

use shipping_core::platform::Platform;
use shipping_core::types::{
    ActorId, Address, Dimensions, Error, PackageDetails, PaymentStatus, ShipmentStatus, UserType,
    VehicleInfo,
};

fn actor(s: &str) -> ActorId {
    ActorId { text: s.to_string() }
}

fn address(city: &str) -> Address {
    Address {
        street: "1 Main St".to_string(),
        city: city.to_string(),
        state: "CA".to_string(),
        postal_code: "90001".to_string(),
        country: "US".to_string(),
        coordinates: None,
    }
}

fn package(weight_centi: u32, value_centi: u32, fragile: bool) -> PackageDetails {
    PackageDetails {
        description: "books".to_string(),
        weight_centi,
        dimensions: Dimensions { length_centi: 3000, width_centi: 2000, height_centi: 1000 },
        value_centi,
        fragile,
        special_instructions: None,
    }
}

fn vehicle() -> VehicleInfo {
    VehicleInfo {
        vehicle_type: "van".to_string(),
        license_plate: "ABC-123".to_string(),
        capacity_centi: 120000,
    }
}

/// Registers `alice` as a customer and creates one shipment, returning
/// the platform and the shipment id.
fn platform_with_shipment() -> (Platform, String) {
    let mut p = Platform::new();
    p.register_user(
        actor("alice"),
        "Alice".to_string(),
        "alice@example.com".to_string(),
        "555-0100".to_string(),
        UserType::Customer,
        1_000,
    )
    .unwrap();
    let s = p
        .create_shipment(
            actor("alice"),
            "Bob".to_string(),
            "555-0200".to_string(),
            address("Springfield"),
            address("Shelbyville"),
            package(100, 5_000, false),
            1_100,
        )
        .unwrap();
    (p, s.id)
}

#[test]
fn register_user_succeeds_with_initial_fields() {
    let mut p = Platform::new();
    let u = p
        .register_user(
            actor("alice"),
            "Alice".to_string(),
            "alice@example.com".to_string(),
            "555-0100".to_string(),
            UserType::Customer,
            42,
        )
        .unwrap();
    assert_eq!(u.id, actor("alice"));
    assert_eq!(u.name, "Alice");
    assert_eq!(u.email, "alice@example.com");
    assert_eq!(u.phone, "555-0100");
    assert_eq!(u.user_type, UserType::Customer);
    assert_eq!(u.created_at, 42);
    assert!(u.is_active);
}

#[test]
fn register_user_twice_rejected_and_first_record_kept() {
    let mut p = Platform::new();
    let first = p
        .register_user(
            actor("alice"),
            "Alice".to_string(),
            "alice@example.com".to_string(),
            "555-0100".to_string(),
            UserType::Customer,
            42,
        )
        .unwrap();
    let second = p.register_user(
        actor("alice"),
        "Impostor".to_string(),
        "other@example.com".to_string(),
        "555-0999".to_string(),
        UserType::Admin,
        43,
    );
    assert_eq!(second, Err(Error::AlreadyRegistered));
    let stored = p.get_user(&actor("alice")).unwrap();
    assert_eq!(stored, first);
}

#[test]
fn get_user_unknown_is_none() {
    let p = Platform::new();
    assert!(p.get_user(&actor("nobody")).is_none());
}

#[test]
fn get_current_user_returns_own_record() {
    let mut p = Platform::new();
    p.register_user(
        actor("alice"),
        "Alice".to_string(),
        "alice@example.com".to_string(),
        "555-0100".to_string(),
        UserType::StoreOwner,
        7,
    )
    .unwrap();
    let me = p.get_current_user(&actor("alice")).unwrap();
    assert_eq!(me.user_type, UserType::StoreOwner);
    assert!(p.get_current_user(&actor("bob")).is_none());
}

#[test]
fn register_driver_defaults_and_duplicate_rejected() {
    let mut p = Platform::new();
    let d = p
        .register_driver(actor("dan"), "Dan".to_string(), "555-0300".to_string(), vehicle(), 9)
        .unwrap();
    assert_eq!(d.id, actor("dan"));
    assert!(d.is_available);
    assert_eq!(d.rating_centi, 500);
    assert_eq!(d.total_deliveries, 0);
    assert!(d.current_location.is_none());
    assert_eq!(d.joined_at, 9);
    let again = p.register_driver(actor("dan"), "Dan".to_string(), "555-0300".to_string(), vehicle(), 10);
    assert_eq!(again, Err(Error::AlreadyRegistered));
}

#[test]
fn driver_and_user_namespaces_are_independent() {
    let mut p = Platform::new();
    p.register_user(
        actor("dan"),
        "Dan".to_string(),
        "dan@example.com".to_string(),
        "555-0300".to_string(),
        UserType::Driver,
        1,
    )
    .unwrap();
    // The same identity can still get a driver record.
    p.register_driver(actor("dan"), "Dan".to_string(), "555-0300".to_string(), vehicle(), 2)
        .unwrap();
}

#[test]
fn create_shipment_requires_registration() {
    let mut p = Platform::new();
    let r = p.create_shipment(
        actor("ghost"),
        "Bob".to_string(),
        "555-0200".to_string(),
        address("A"),
        address("B"),
        package(100, 5_000, false),
        1,
    );
    assert_eq!(r.unwrap_err(), Error::NotRegistered);
}

#[test]
fn create_shipment_requires_customer_or_store_owner() {
    let mut p = Platform::new();
    p.register_user(
        actor("dan"),
        "Dan".to_string(),
        "dan@example.com".to_string(),
        "555-0300".to_string(),
        UserType::Driver,
        1,
    )
    .unwrap();
    let r = p.create_shipment(
        actor("dan"),
        "Bob".to_string(),
        "555-0200".to_string(),
        address("A"),
        address("B"),
        package(100, 5_000, false),
        2,
    );
    assert_eq!(r.unwrap_err(), Error::Unauthorized);
}

#[test]
fn create_shipment_seeds_record() {
    let mut p = Platform::new();
    p.register_user(
        actor("alice"),
        "Alice".to_string(),
        "alice@example.com".to_string(),
        "555-0100".to_string(),
        UserType::Customer,
        1_000,
    )
    .unwrap();
    let s = p
        .create_shipment(
            actor("alice"),
            "Bob".to_string(),
            "555-0200".to_string(),
            address("Springfield"),
            address("Shelbyville"),
            package(100, 5_000, false),
            1_100,
        )
        .unwrap();
    assert_eq!(s.id, "SH000001");
    assert_eq!(s.sender_id, actor("alice"));
    assert_eq!(s.status, ShipmentStatus::Created);
    assert_eq!(s.payment_status, PaymentStatus::Pending);
    assert!(s.driver_id.is_none());
    assert!(s.estimated_delivery.is_none());
    assert!(s.actual_delivery.is_none());
    assert_eq!(s.created_at, 1_100);
    assert_eq!(s.updated_at, 1_100);
    // 10.00 base + 2.00 * 1.00 weight + 1% of 50.00 = 12.50
    assert_eq!(s.cost_centi, 1_250);
    assert_eq!(s.tracking_history.len(), 1);
    let ev = &s.tracking_history[0];
    assert_eq!(ev.timestamp, 1_100);
    assert_eq!(ev.status, ShipmentStatus::Created);
    assert!(ev.location.is_none());
    assert_eq!(ev.description, "Shipment created");
    assert_eq!(ev.updated_by, actor("alice"));
    // The stored record equals the returned one.
    let stored = p.get_shipment(&"SH000001".to_string()).unwrap();
    assert_eq!(stored, s);
}

#[test]
fn shipment_ids_are_sequential_and_distinct() {
    let mut p = Platform::new();
    p.register_user(
        actor("alice"),
        "Alice".to_string(),
        "alice@example.com".to_string(),
        "555-0100".to_string(),
        UserType::Customer,
        1,
    )
    .unwrap();
    let mut ids = Vec::new();
    for k in 0..3 {
        let s = p
            .create_shipment(
                actor("alice"),
                "Bob".to_string(),
                "555-0200".to_string(),
                address("A"),
                address("B"),
                package(100, 5_000, false),
                10 + k,
            )
            .unwrap();
        ids.push(s.id);
    }
    assert_eq!(ids, vec!["SH000001", "SH000002", "SH000003"]);
    assert!(ids[0] < ids[1] && ids[1] < ids[2]);
}

#[test]
fn get_shipment_unknown_is_none() {
    let p = Platform::new();
    assert!(p.get_shipment(&"SH000001".to_string()).is_none());
}

#[test]
fn update_status_unknown_shipment_is_not_found() {
    let mut p = Platform::new();
    let r = p.update_shipment_status(
        actor("alice"),
        &"SH000009".to_string(),
        ShipmentStatus::InTransit,
        None,
        "moving".to_string(),
        5,
    );
    assert_eq!(r.unwrap_err(), Error::NotFound);
}

#[test]
fn update_status_by_sender_appends_event() {
    let (mut p, id) = platform_with_shipment();
    let s = p
        .update_shipment_status(
            actor("alice"),
            &id,
            ShipmentStatus::InTransit,
            Some("on highway".to_string()),
            "moving".to_string(),
            2_000,
        )
        .unwrap();
    assert_eq!(s.status, ShipmentStatus::InTransit);
    assert_eq!(s.updated_at, 2_000);
    assert!(s.actual_delivery.is_none());
    assert_eq!(s.tracking_history.len(), 2);
    let ev = &s.tracking_history[1];
    assert_eq!(ev.status, ShipmentStatus::InTransit);
    assert_eq!(ev.location.as_deref(), Some("on highway"));
    assert_eq!(ev.description, "moving");
    assert_eq!(ev.updated_by, actor("alice"));
    assert_eq!(ev.timestamp, 2_000);
}

#[test]
fn update_status_delivered_sets_actual_delivery() {
    let (mut p, id) = platform_with_shipment();
    let s = p
        .update_shipment_status(
            actor("alice"),
            &id,
            ShipmentStatus::Delivered,
            None,
            "arrived".to_string(),
            3_000,
        )
        .unwrap();
    assert_eq!(s.status, ShipmentStatus::Delivered);
    assert_eq!(s.actual_delivery, Some(3_000));
}

#[test]
fn update_status_stranger_errors_depend_on_registration() {
    let (mut p, id) = platform_with_shipment();
    // A registered user who is neither sender, driver nor admin.
    p.register_user(
        actor("carol"),
        "Carol".to_string(),
        "carol@example.com".to_string(),
        "555-0400".to_string(),
        UserType::Customer,
        1_500,
    )
    .unwrap();
    let r1 = p.update_shipment_status(
        actor("carol"),
        &id,
        ShipmentStatus::Cancelled,
        None,
        "no".to_string(),
        1_600,
    );
    assert_eq!(r1.unwrap_err(), Error::Unauthorized);
    // An identity with no user record at all.
    let r2 = p.update_shipment_status(
        actor("ghost"),
        &id,
        ShipmentStatus::Cancelled,
        None,
        "no".to_string(),
        1_700,
    );
    assert_eq!(r2.unwrap_err(), Error::NotRegistered);
    // The failed calls left the shipment unchanged.
    let s = p.get_shipment(&id).unwrap();
    assert_eq!(s.status, ShipmentStatus::Created);
    assert_eq!(s.tracking_history.len(), 1);
}

#[test]
fn update_status_by_admin_and_by_assigned_driver() {
    let (mut p, id) = platform_with_shipment();
    p.register_user(
        actor("root"),
        "Root".to_string(),
        "root@example.com".to_string(),
        "555-0500".to_string(),
        UserType::Admin,
        1_500,
    )
    .unwrap();
    let s = p
        .update_shipment_status(
            actor("root"),
            &id,
            ShipmentStatus::PickedUp,
            None,
            "picked up".to_string(),
            1_600,
        )
        .unwrap();
    assert_eq!(s.status, ShipmentStatus::PickedUp);
    // Assign dan, then dan may update too.
    p.assign_driver_to_shipment(actor("dan"), &id, actor("dan"), 1_700).unwrap();
    let s = p
        .update_shipment_status(
            actor("dan"),
            &id,
            ShipmentStatus::OutForDelivery,
            None,
            "almost there".to_string(),
            1_800,
        )
        .unwrap();
    assert_eq!(s.status, ShipmentStatus::OutForDelivery);
}

#[test]
fn assign_driver_unauthorized_for_third_party() {
    let (mut p, id) = platform_with_shipment();
    // carol is registered but is neither the assigned identity nor an admin.
    p.register_user(
        actor("carol"),
        "Carol".to_string(),
        "carol@example.com".to_string(),
        "555-0400".to_string(),
        UserType::Customer,
        1_500,
    )
    .unwrap();
    let r = p.assign_driver_to_shipment(actor("carol"), &id, actor("dan"), 1_600);
    assert_eq!(r.unwrap_err(), Error::Unauthorized);
}

#[test]
fn assign_driver_self_assignment_forces_pickup_scheduled() {
    let (mut p, id) = platform_with_shipment();
    // Move the shipment well past pickup first.
    p.update_shipment_status(
        actor("alice"),
        &id,
        ShipmentStatus::InTransit,
        None,
        "moving".to_string(),
        2_000,
    )
    .unwrap();
    // Self-assignment by the driver identity itself.
    let s = p.assign_driver_to_shipment(actor("dan"), &id, actor("dan"), 2_100).unwrap();
    assert_eq!(s.driver_id, Some(actor("dan")));
    assert_eq!(s.status, ShipmentStatus::PickupScheduled);
    assert_eq!(s.updated_at, 2_100);
    let last = s.tracking_history.last().unwrap();
    assert_eq!(last.status, ShipmentStatus::PickupScheduled);
    assert_eq!(last.description, "Driver assigned and pickup scheduled");
    assert!(last.location.is_none());
    assert_eq!(last.updated_by, actor("dan"));
}

#[test]
fn assign_driver_unknown_shipment_is_not_found() {
    let mut p = Platform::new();
    p.register_user(
        actor("root"),
        "Root".to_string(),
        "root@example.com".to_string(),
        "555-0500".to_string(),
        UserType::Admin,
        1,
    )
    .unwrap();
    let r = p.assign_driver_to_shipment(actor("root"), &"SH000007".to_string(), actor("dan"), 2);
    assert_eq!(r.unwrap_err(), Error::NotFound);
}

#[test]
fn tracking_history_always_ends_with_current_status() {
    let (mut p, id) = platform_with_shipment();
    let s = p.get_shipment(&id).unwrap();
    assert_eq!(s.tracking_history.last().unwrap().status, s.status);
    let s = p.assign_driver_to_shipment(actor("dan"), &id, actor("dan"), 2_000).unwrap();
    assert_eq!(s.tracking_history.last().unwrap().status, s.status);
    let s = p
        .update_shipment_status(
            actor("dan"),
            &id,
            ShipmentStatus::Delivered,
            None,
            "done".to_string(),
            3_000,
        )
        .unwrap();
    assert_eq!(s.tracking_history.last().unwrap().status, s.status);
    assert!(!s.tracking_history.is_empty());
}

#[test]
fn return_request_lifecycle() {
    let (mut p, id) = platform_with_shipment();
    // Against a freshly created shipment: invalid state.
    let r = p.create_return_request(actor("alice"), id.clone(), "damaged".to_string(), 4_000);
    assert_eq!(r.unwrap_err(), Error::InvalidState);
    // Deliver it, then a return request succeeds.
    p.update_shipment_status(
        actor("alice"),
        &id,
        ShipmentStatus::Delivered,
        None,
        "arrived".to_string(),
        4_100,
    )
    .unwrap();
    let q = p
        .create_return_request(actor("alice"), id.clone(), "damaged".to_string(), 4_200)
        .unwrap();
    assert_eq!(q.id, "RT000001");
    assert_eq!(q.shipment_id, id);
    assert_eq!(q.requester_id, actor("alice"));
    assert_eq!(q.reason, "damaged");
    assert_eq!(q.status, shipping_core::types::ReturnStatus::Requested);
    assert_eq!(q.created_at, 4_200);
    assert!(q.processed_at.is_none());
    // The shipment itself was not touched by the return request.
    let s = p.get_shipment(&id).unwrap();
    assert_eq!(s.status, ShipmentStatus::Delivered);
}

#[test]
fn return_request_only_for_sender_and_existing_shipment() {
    let (mut p, id) = platform_with_shipment();
    p.update_shipment_status(
        actor("alice"),
        &id,
        ShipmentStatus::Delivered,
        None,
        "arrived".to_string(),
        4_100,
    )
    .unwrap();
    let r = p.create_return_request(actor("carol"), id.clone(), "mine now".to_string(), 4_200);
    assert_eq!(r.unwrap_err(), Error::Unauthorized);
    let r = p.create_return_request(actor("alice"), "SH000042".to_string(), "x".to_string(), 4_300);
    assert_eq!(r.unwrap_err(), Error::NotFound);
}

#[test]
fn get_user_shipments_filters_by_sender() {
    let mut p = Platform::new();
    for who in ["alice", "bob"] {
        p.register_user(
            actor(who),
            who.to_string(),
            format!("{who}@example.com"),
            "555".to_string(),
            UserType::Customer,
            1,
        )
        .unwrap();
    }
    for (who, n) in [("alice", 2), ("bob", 1)] {
        for k in 0..n {
            p.create_shipment(
                actor(who),
                "R".to_string(),
                "555".to_string(),
                address("A"),
                address("B"),
                package(100, 0, false),
                10 + k,
            )
            .unwrap();
        }
    }
    let alices = p.get_user_shipments(&actor("alice"));
    assert_eq!(alices.len(), 2);
    assert!(alices.iter().all(|s| s.sender_id == actor("alice")));
    assert_eq!(alices[0].id, "SH000001");
    assert_eq!(alices[1].id, "SH000002");
    let bobs = p.get_user_shipments(&actor("bob"));
    assert_eq!(bobs.len(), 1);
    assert_eq!(bobs[0].id, "SH000003");
    assert!(p.get_user_shipments(&actor("carol")).is_empty());
}

#[test]
fn get_return_requests_filters_by_requester() {
    let (mut p, id) = platform_with_shipment();
    p.update_shipment_status(
        actor("alice"),
        &id,
        ShipmentStatus::Delivered,
        None,
        "arrived".to_string(),
        2_000,
    )
    .unwrap();
    p.create_return_request(actor("alice"), id.clone(), "damaged".to_string(), 2_100).unwrap();
    let mine = p.get_return_requests(&actor("alice"));
    assert_eq!(mine.len(), 1);
    assert_eq!(mine[0].id, "RT000001");
    assert!(p.get_return_requests(&actor("bob")).is_empty());
}

#[test]
fn get_available_drivers_lists_registered_drivers() {
    let mut p = Platform::new();
    assert!(p.get_available_drivers().is_empty());
    p.register_driver(actor("dan"), "Dan".to_string(), "555".to_string(), vehicle(), 1).unwrap();
    p.register_driver(actor("eve"), "Eve".to_string(), "556".to_string(), vehicle(), 2).unwrap();
    let avail = p.get_available_drivers();
    assert_eq!(avail.len(), 2);
    assert!(avail.iter().all(|d| d.is_available));
}

#[test]
fn platform_stats_counts_delivered_and_pending() {
    let mut p = Platform::new();
    p.register_user(
        actor("alice"),
        "Alice".to_string(),
        "alice@example.com".to_string(),
        "555-0100".to_string(),
        UserType::Customer,
        1,
    )
    .unwrap();
    p.register_driver(actor("dan"), "Dan".to_string(), "555".to_string(), vehicle(), 2).unwrap();
    let mut ids = Vec::new();
    for k in 0..3 {
        let s = p
            .create_shipment(
                actor("alice"),
                "R".to_string(),
                "555".to_string(),
                address("A"),
                address("B"),
                package(100, 0, false),
                10 + k,
            )
            .unwrap();
        ids.push(s.id);
    }
    p.update_shipment_status(
        actor("alice"),
        &ids[0],
        ShipmentStatus::Delivered,
        None,
        "arrived".to_string(),
        100,
    )
    .unwrap();
    p.update_shipment_status(
        actor("alice"),
        &ids[1],
        ShipmentStatus::Cancelled,
        None,
        "cancelled".to_string(),
        101,
    )
    .unwrap();
    let stats = p.get_platform_stats();
    assert_eq!(stats.total_users, 1);
    assert_eq!(stats.total_drivers, 1);
    assert_eq!(stats.total_shipments, 3);
    assert_eq!(stats.delivered_shipments, 1);
    // The cancelled one is excluded; the remaining `Created` one counts.
    assert_eq!(stats.pending_shipments, 1);
}

#[test]
fn failed_and_returned_count_as_pending() {
    let mut p = Platform::new();
    p.register_user(
        actor("alice"),
        "Alice".to_string(),
        "a@example.com".to_string(),
        "555".to_string(),
        UserType::Customer,
        1,
    )
    .unwrap();
    let mut ids = Vec::new();
    for k in 0..2 {
        ids.push(
            p.create_shipment(
                actor("alice"),
                "R".to_string(),
                "555".to_string(),
                address("A"),
                address("B"),
                package(0, 0, false),
                10 + k,
            )
            .unwrap()
            .id,
        );
    }
    p.update_shipment_status(actor("alice"), &ids[0], ShipmentStatus::Failed, None, "f".to_string(), 20)
        .unwrap();
    p.update_shipment_status(actor("alice"), &ids[1], ShipmentStatus::Returned, None, "r".to_string(), 21)
        .unwrap();
    let stats = p.get_platform_stats();
    assert_eq!(stats.pending_shipments, 2);
    assert_eq!(stats.delivered_shipments, 0);
}
