//! Data records of the platform and their mathematical views.
//!
//! Quantities that the platform measures in decimal units — weights,
//! declared values, costs, ratings, vehicle capacities — are held in
//! hundredths of the unit (`*_centi` fields), and geographic coordinates
//! in millionths of a degree, so that all arithmetic is exact integer
//! arithmetic.
//!
//! Each record with owned strings or nested sequences has a view type
//! (`UserView`, `ShipmentView`, ...) whose fields are the mathematical
//! values (`Seq<char>` for strings); contracts are stated over those.

use vstd::prelude::*;

verus! {

/// Opaque, externally authenticated identity of a caller (customer,
/// driver, store owner or admin). The platform only compares identities
/// for equality and stores them; it never inspects or validates them.
#[derive(Debug, PartialEq, Eq)]
pub struct ActorId {
    pub text: String,
}

impl View for ActorId {
    type V = Seq<char>;

    open spec fn view(&self) -> Seq<char> {
        self.text@
    }
}

impl Clone for ActorId {
    fn clone(&self) -> (r: Self)
        ensures
            r == *self,
    {
        ActorId { text: self.text.clone() }
    }
}

impl ActorId {
    /// Two identities are the same actor exactly when their views agree.
    pub fn eq_id(&self, other: &ActorId) -> (r: bool)
        ensures
            r == (self@ == other@),
    {
        self.text == other.text
    }
}

/// Role a registered user acts under; the operations' authorization
/// rules read it.
#[derive(Clone, Copy, Debug, PartialEq, Eq, Structural)]
pub enum UserType {
    Customer,
    Driver,
    StoreOwner,
    Admin,
}

#[derive(Clone, Copy, Debug, PartialEq, Eq, Structural)]
pub enum ShipmentStatus {
    Created,
    PickupScheduled,
    PickedUp,
    InTransit,
    OutForDelivery,
    Delivered,
    Failed,
    Returned,
    Cancelled,
}

#[derive(Clone, Copy, Debug, PartialEq, Eq, Structural)]
pub enum PaymentStatus {
    Pending,
    Paid,
    Failed,
    Refunded,
}

#[derive(Clone, Copy, Debug, PartialEq, Eq, Structural)]
pub enum ReturnStatus {
    Requested,
    Approved,
    Rejected,
    InProgress,
    Completed,
}

/// The failure kinds an operation can report. Every operation returns
/// either a success value or exactly one of these, and a failed
/// operation leaves the whole state unchanged.
#[derive(Clone, Copy, Debug, PartialEq, Eq, Structural)]
pub enum Error {
    /// Registration attempted for an identity that already has a record
    /// of the same kind.
    AlreadyRegistered,
    /// The operation needs a user record for the caller and none exists.
    NotRegistered,
    /// The caller's role or relationship does not satisfy the
    /// operation's authorization rule.
    Unauthorized,
    /// The referenced shipment does not exist.
    NotFound,
    /// The referenced entity is not in a status the operation accepts.
    InvalidState,
}

#[derive(Clone, Copy, Debug, PartialEq, Eq, Structural)]
pub struct Coordinates {
    /// Latitude in millionths of a degree.
    pub latitude_micro: i64,
    /// Longitude in millionths of a degree.
    pub longitude_micro: i64,
}

#[derive(Clone, Copy, Debug, PartialEq, Eq, Structural)]
pub struct Dimensions {
    pub length_centi: u32,
    pub width_centi: u32,
    pub height_centi: u32,
}

#[derive(Debug, PartialEq, Eq)]
pub struct Address {
    pub street: String,
    pub city: String,
    pub state: String,
    pub postal_code: String,
    pub country: String,
    pub coordinates: Option<Coordinates>,
}

impl Clone for Address {
    fn clone(&self) -> (r: Self)
        ensures
            r == *self,
    {
        Address {
            street: self.street.clone(),
            city: self.city.clone(),
            state: self.state.clone(),
            postal_code: self.postal_code.clone(),
            country: self.country.clone(),
            coordinates: self.coordinates,
        }
    }
}

/// Mathematical view of an `Address`.
pub struct AddressView {
    pub street: Seq<char>,
    pub city: Seq<char>,
    pub state: Seq<char>,
    pub postal_code: Seq<char>,
    pub country: Seq<char>,
    pub coordinates: Option<Coordinates>,
}

impl View for Address {
    type V = AddressView;

    open spec fn view(&self) -> AddressView {
        AddressView {
            street: self.street@,
            city: self.city@,
            state: self.state@,
            postal_code: self.postal_code@,
            country: self.country@,
            coordinates: self.coordinates,
        }
    }
}

#[derive(Debug, PartialEq, Eq)]
pub struct PackageDetails {
    pub description: String,
    /// Weight in hundredths of the weight unit.
    pub weight_centi: u32,
    pub dimensions: Dimensions,
    /// Declared value in hundredths of the currency unit.
    pub value_centi: u32,
    pub fragile: bool,
    pub special_instructions: Option<String>,
}

impl Clone for PackageDetails {
    fn clone(&self) -> (r: Self)
        ensures
            r == *self,
    {
        PackageDetails {
            description: self.description.clone(),
            weight_centi: self.weight_centi,
            dimensions: self.dimensions,
            value_centi: self.value_centi,
            fragile: self.fragile,
            special_instructions: match &self.special_instructions {
                Some(s) => Some(s.clone()),
                None => None,
            },
        }
    }
}

/// Mathematical view of `PackageDetails`.
pub struct PackageDetailsView {
    pub description: Seq<char>,
    pub weight_centi: u32,
    pub dimensions: Dimensions,
    pub value_centi: u32,
    pub fragile: bool,
    pub special_instructions: Option<Seq<char>>,
}

impl View for PackageDetails {
    type V = PackageDetailsView;

    open spec fn view(&self) -> PackageDetailsView {
        PackageDetailsView {
            description: self.description@,
            weight_centi: self.weight_centi,
            dimensions: self.dimensions,
            value_centi: self.value_centi,
            fragile: self.fragile,
            special_instructions: match self.special_instructions {
                Some(s) => Some(s@),
                None => None,
            },
        }
    }
}

#[derive(Debug, PartialEq, Eq)]
pub struct User {
    pub id: ActorId,
    pub name: String,
    pub email: String,
    pub phone: String,
    pub user_type: UserType,
    pub created_at: u64,
    pub is_active: bool,
}

impl Clone for User {
    fn clone(&self) -> (r: Self)
        ensures
            r == *self,
    {
        User {
            id: self.id.clone(),
            name: self.name.clone(),
            email: self.email.clone(),
            phone: self.phone.clone(),
            user_type: self.user_type,
            created_at: self.created_at,
            is_active: self.is_active,
        }
    }
}

/// Mathematical view of a `User`.
pub struct UserView {
    pub id: Seq<char>,
    pub name: Seq<char>,
    pub email: Seq<char>,
    pub phone: Seq<char>,
    pub user_type: UserType,
    pub created_at: u64,
    pub is_active: bool,
}

impl View for User {
    type V = UserView;

    open spec fn view(&self) -> UserView {
        UserView {
            id: self.id@,
            name: self.name@,
            email: self.email@,
            phone: self.phone@,
            user_type: self.user_type,
            created_at: self.created_at,
            is_active: self.is_active,
        }
    }
}

#[derive(Debug, PartialEq, Eq)]
pub struct VehicleInfo {
    pub vehicle_type: String,
    pub license_plate: String,
    /// Capacity in hundredths of the capacity unit.
    pub capacity_centi: u32,
}

impl Clone for VehicleInfo {
    fn clone(&self) -> (r: Self)
        ensures
            r == *self,
    {
        VehicleInfo {
            vehicle_type: self.vehicle_type.clone(),
            license_plate: self.license_plate.clone(),
            capacity_centi: self.capacity_centi,
        }
    }
}

/// Mathematical view of a `VehicleInfo`.
pub struct VehicleInfoView {
    pub vehicle_type: Seq<char>,
    pub license_plate: Seq<char>,
    pub capacity_centi: u32,
}

impl View for VehicleInfo {
    type V = VehicleInfoView;

    open spec fn view(&self) -> VehicleInfoView {
        VehicleInfoView {
            vehicle_type: self.vehicle_type@,
            license_plate: self.license_plate@,
            capacity_centi: self.capacity_centi,
        }
    }
}

#[derive(Debug, PartialEq, Eq)]
pub struct Driver {
    pub id: ActorId,
    pub name: String,
    pub phone: String,
    pub vehicle_info: VehicleInfo,
    pub current_location: Option<Coordinates>,
    pub is_available: bool,
    /// Rating in hundredths of a star.
    pub rating_centi: u32,
    pub total_deliveries: u32,
    pub joined_at: u64,
}

impl Clone for Driver {
    fn clone(&self) -> (r: Self)
        ensures
            r == *self,
    {
        Driver {
            id: self.id.clone(),
            name: self.name.clone(),
            phone: self.phone.clone(),
            vehicle_info: self.vehicle_info.clone(),
            current_location: self.current_location,
            is_available: self.is_available,
            rating_centi: self.rating_centi,
            total_deliveries: self.total_deliveries,
            joined_at: self.joined_at,
        }
    }
}

/// Mathematical view of a `Driver`.
pub struct DriverView {
    pub id: Seq<char>,
    pub name: Seq<char>,
    pub phone: Seq<char>,
    pub vehicle_info: VehicleInfoView,
    pub current_location: Option<Coordinates>,
    pub is_available: bool,
    pub rating_centi: u32,
    pub total_deliveries: u32,
    pub joined_at: u64,
}

impl View for Driver {
    type V = DriverView;

    open spec fn view(&self) -> DriverView {
        DriverView {
            id: self.id@,
            name: self.name@,
            phone: self.phone@,
            vehicle_info: self.vehicle_info@,
            current_location: self.current_location,
            is_available: self.is_available,
            rating_centi: self.rating_centi,
            total_deliveries: self.total_deliveries,
            joined_at: self.joined_at,
        }
    }
}

/// One immutable fact in a shipment's tracking history.
#[derive(Debug, PartialEq, Eq)]
pub struct TrackingEvent {
    pub timestamp: u64,
    pub status: ShipmentStatus,
    pub location: Option<String>,
    pub description: String,
    pub updated_by: ActorId,
}

impl Clone for TrackingEvent {
    fn clone(&self) -> (r: Self)
        ensures
            r == *self,
    {
        TrackingEvent {
            timestamp: self.timestamp,
            status: self.status,
            location: match &self.location {
                Some(s) => Some(s.clone()),
                None => None,
            },
            description: self.description.clone(),
            updated_by: self.updated_by.clone(),
        }
    }
}

/// Mathematical view of a `TrackingEvent`.
pub struct TrackingEventView {
    pub timestamp: u64,
    pub status: ShipmentStatus,
    pub location: Option<Seq<char>>,
    pub description: Seq<char>,
    pub updated_by: Seq<char>,
}

impl View for TrackingEvent {
    type V = TrackingEventView;

    open spec fn view(&self) -> TrackingEventView {
        TrackingEventView {
            timestamp: self.timestamp,
            status: self.status,
            location: match self.location {
                Some(s) => Some(s@),
                None => None,
            },
            description: self.description@,
            updated_by: self.updated_by@,
        }
    }
}

#[derive(Debug, PartialEq, Eq)]
pub struct Shipment {
    pub id: String,
    pub sender_id: ActorId,
    pub recipient_name: String,
    pub recipient_phone: String,
    pub pickup_address: Address,
    pub delivery_address: Address,
    pub package_details: PackageDetails,
    pub status: ShipmentStatus,
    pub driver_id: Option<ActorId>,
    pub created_at: u64,
    pub updated_at: u64,
    pub estimated_delivery: Option<u64>,
    pub actual_delivery: Option<u64>,
    pub tracking_history: Vec<TrackingEvent>,
    pub payment_status: PaymentStatus,
    /// Cost in hundredths of the currency unit.
    pub cost_centi: u64,
}

/// Mathematical view of a `Shipment`; the tracking history becomes a
/// sequence.
pub struct ShipmentView {
    pub id: Seq<char>,
    pub sender_id: Seq<char>,
    pub recipient_name: Seq<char>,
    pub recipient_phone: Seq<char>,
    pub pickup_address: AddressView,
    pub delivery_address: AddressView,
    pub package_details: PackageDetailsView,
    pub status: ShipmentStatus,
    pub driver_id: Option<Seq<char>>,
    pub created_at: u64,
    pub updated_at: u64,
    pub estimated_delivery: Option<u64>,
    pub actual_delivery: Option<u64>,
    pub tracking_history: Seq<TrackingEventView>,
    pub payment_status: PaymentStatus,
    pub cost_centi: u64,
}

impl View for Shipment {
    type V = ShipmentView;

    open spec fn view(&self) -> ShipmentView {
        ShipmentView {
            id: self.id@,
            sender_id: self.sender_id@,
            recipient_name: self.recipient_name@,
            recipient_phone: self.recipient_phone@,
            pickup_address: self.pickup_address@,
            delivery_address: self.delivery_address@,
            package_details: self.package_details@,
            status: self.status,
            driver_id: match self.driver_id {
                Some(d) => Some(d@),
                None => None,
            },
            created_at: self.created_at,
            updated_at: self.updated_at,
            estimated_delivery: self.estimated_delivery,
            actual_delivery: self.actual_delivery,
            tracking_history: Seq::new(
                self.tracking_history@.len(),
                |i: int| self.tracking_history@[i]@,
            ),
            payment_status: self.payment_status,
            cost_centi: self.cost_centi,
        }
    }
}

impl ShipmentView {
    /// Well-formedness of a single shipment record: the tracking history
    /// is never empty and its last entry's status is the record's status.
    pub open spec fn wf(self) -> bool {
        &&& self.tracking_history.len() > 0
        &&& self.tracking_history.last().status == self.status
    }
}

impl Clone for Shipment {
    fn clone(&self) -> (r: Self)
        ensures
            r@ == self@,
    {
        let r = Shipment {
            id: self.id.clone(),
            sender_id: self.sender_id.clone(),
            recipient_name: self.recipient_name.clone(),
            recipient_phone: self.recipient_phone.clone(),
            pickup_address: self.pickup_address.clone(),
            delivery_address: self.delivery_address.clone(),
            package_details: self.package_details.clone(),
            status: self.status,
            driver_id: match &self.driver_id {
                Some(d) => Some(d.clone()),
                None => None,
            },
            created_at: self.created_at,
            updated_at: self.updated_at,
            estimated_delivery: self.estimated_delivery,
            actual_delivery: self.actual_delivery,
            tracking_history: clone_events(&self.tracking_history),
            payment_status: self.payment_status,
            cost_centi: self.cost_centi,
        };
        proof {
            assert(r@.tracking_history =~= self@.tracking_history);
            assert(r@ == self@);
        }
        r
    }
}

/// Copies a tracking history element by element.
fn clone_events(v: &Vec<TrackingEvent>) -> (r: Vec<TrackingEvent>)
    ensures
        r@ == v@,
{
    let mut r: Vec<TrackingEvent> = Vec::new();
    let mut i: usize = 0;
    while i < v.len()
        invariant
            i <= v@.len(),
            r@ == v@.take(i as int),
        decreases v@.len() - i,
    {
        r.push(v[i].clone());
        proof {
            assert(v@.take(i + 1 as int) =~= v@.take(i as int).push(v@[i as int]));
        }
        i = i + 1;
    }
    proof {
        assert(v@.take(v@.len() as int) =~= v@);
    }
    r
}

#[derive(Debug, PartialEq, Eq)]
pub struct ReturnRequest {
    pub id: String,
    pub shipment_id: String,
    pub requester_id: ActorId,
    pub reason: String,
    pub status: ReturnStatus,
    pub created_at: u64,
    pub processed_at: Option<u64>,
}

impl Clone for ReturnRequest {
    fn clone(&self) -> (r: Self)
        ensures
            r == *self,
    {
        ReturnRequest {
            id: self.id.clone(),
            shipment_id: self.shipment_id.clone(),
            requester_id: self.requester_id.clone(),
            reason: self.reason.clone(),
            status: self.status,
            created_at: self.created_at,
            processed_at: self.processed_at,
        }
    }
}

/// Mathematical view of a `ReturnRequest`.
pub struct ReturnRequestView {
    pub id: Seq<char>,
    pub shipment_id: Seq<char>,
    pub requester_id: Seq<char>,
    pub reason: Seq<char>,
    pub status: ReturnStatus,
    pub created_at: u64,
    pub processed_at: Option<u64>,
}

impl View for ReturnRequest {
    type V = ReturnRequestView;

    open spec fn view(&self) -> ReturnRequestView {
        ReturnRequestView {
            id: self.id@,
            shipment_id: self.shipment_id@,
            requester_id: self.requester_id@,
            reason: self.reason@,
            status: self.status,
            created_at: self.created_at,
            processed_at: self.processed_at,
        }
    }
}

/// Aggregate counts over the whole platform, derived on demand.
#[derive(Clone, Copy, Debug, PartialEq, Eq, Structural)]
pub struct PlatformStats {
    pub total_users: u32,
    pub total_shipments: u32,
    pub total_drivers: u32,
    pub delivered_shipments: u32,
    pub pending_shipments: u32,
}

} // verus!
