//! The platform state and its operations.
//!
//! `Platform` owns the four stores (users, drivers, shipments, return
//! requests) and the two identifier counters. Its mathematical model is
//! `PlatformView`: four sequences of record views. Every mutating
//! operation is specified by a transition function on `PlatformView`
//! (`register_user_t`, `create_shipment_t`, ...), and the executable
//! operation's contract says that it performs exactly that transition;
//! the laws at the end of this file are proved from the transitions.
//!
//! Status transitions are deliberately unconstrained: any caller that is
//! authorized to update a shipment may set any status, including moving
//! out of `Delivered`. That permissiveness is part of the observable
//! behaviour and is preserved here rather than tightened.

use vstd::prelude::*;
use crate::cost::{calculate_shipping_cost, spec_shipping_cost};
use crate::ids::{
    format_id, lemma_return_id_injective, lemma_shipment_id_injective, spec_return_id,
    spec_shipment_id,
};
use crate::types::{
    ActorId, Address, AddressView, Driver, DriverView, Error, PackageDetails, PackageDetailsView,
    PaymentStatus, PlatformStats, ReturnRequest, ReturnRequestView, ReturnStatus, Shipment,
    ShipmentStatus, ShipmentView, TrackingEvent, TrackingEventView, User, UserType, UserView,
    VehicleInfo,
};

verus! {

/// Mathematical model of the whole platform state.
pub struct PlatformView {
    pub users: Seq<UserView>,
    pub drivers: Seq<DriverView>,
    pub shipments: Seq<ShipmentView>,
    pub return_requests: Seq<ReturnRequestView>,
}

/// The views of the records in a store, in store order.
pub open spec fn users_view(v: Seq<User>) -> Seq<UserView> {
    v.map_values(|u: User| u@)
}

/// The views of the drivers in a store, in store order.
pub open spec fn drivers_view(v: Seq<Driver>) -> Seq<DriverView> {
    v.map_values(|d: Driver| d@)
}

/// The views of the shipments in a store, in store order.
pub open spec fn shipments_view(v: Seq<Shipment>) -> Seq<ShipmentView> {
    v.map_values(|s: Shipment| s@)
}

/// The views of the return requests in a store, in store order.
pub open spec fn returns_view(v: Seq<ReturnRequest>) -> Seq<ReturnRequestView> {
    v.map_values(|q: ReturnRequest| q@)
}

/// The shipments sent by one identity.
pub open spec fn sent_by(id: Seq<char>) -> spec_fn(ShipmentView) -> bool {
    |s: ShipmentView| s.sender_id == id
}

/// The return requests raised by one identity.
pub open spec fn requested_by(id: Seq<char>) -> spec_fn(ReturnRequestView) -> bool {
    |q: ReturnRequestView| q.requester_id == id
}

/// The drivers currently accepting work.
pub open spec fn available_driver() -> spec_fn(DriverView) -> bool {
    |d: DriverView| d.is_available
}

/// The shipments whose current status is `Delivered`.
pub open spec fn delivered_shipment() -> spec_fn(ShipmentView) -> bool {
    |s: ShipmentView| s.status is Delivered
}

/// The shipments counted as pending: everything that is neither
/// `Delivered` nor `Cancelled` (so `Failed` and `Returned` count as
/// pending under this definition).
pub open spec fn pending_shipment() -> spec_fn(ShipmentView) -> bool {
    |s: ShipmentView| !(s.status is Delivered) && !(s.status is Cancelled)
}

/// Saturation of an unbounded count into a 32-bit statistic.
pub open spec fn clamp_u32(n: nat) -> u32 {
    if n <= u32::MAX {
        n as u32
    } else {
        u32::MAX
    }
}

/// The view of an optional owned string.
pub open spec fn opt_str_view(o: Option<String>) -> Option<Seq<char>> {
    match o {
        Some(s) => Some(s@),
        None => None,
    }
}

/// The view of a user-registration result.
pub open spec fn user_result_view(r: Result<User, Error>) -> Result<UserView, Error> {
    match r {
        Ok(u) => Ok(u@),
        Err(e) => Err(e),
    }
}

/// The view of a driver-registration result.
pub open spec fn driver_result_view(r: Result<Driver, Error>) -> Result<DriverView, Error> {
    match r {
        Ok(d) => Ok(d@),
        Err(e) => Err(e),
    }
}

/// The view of a shipment-operation result.
pub open spec fn shipment_result_view(r: Result<Shipment, Error>) -> Result<ShipmentView, Error> {
    match r {
        Ok(s) => Ok(s@),
        Err(e) => Err(e),
    }
}

/// The view of a return-request result.
pub open spec fn return_result_view(
    r: Result<ReturnRequest, Error>,
) -> Result<ReturnRequestView, Error> {
    match r {
        Ok(q) => Ok(q@),
        Err(e) => Err(e),
    }
}

impl PlatformView {
    /// Some user is registered under this identity.
    pub open spec fn has_user(self, id: Seq<char>) -> bool {
        exists|i: int| 0 <= i < self.users.len() && (#[trigger] self.users[i]).id == id
    }

    /// Some user is registered under this identity with this role.
    pub open spec fn user_has_type(self, id: Seq<char>, t: UserType) -> bool {
        exists|i: int|
            0 <= i < self.users.len() && (#[trigger] self.users[i]).id == id
                && self.users[i].user_type == t
    }

    /// The identity is registered as a user with the `Admin` role.
    pub open spec fn is_admin(self, id: Seq<char>) -> bool {
        self.user_has_type(id, UserType::Admin)
    }

    /// The identity may create shipments: it is registered as a
    /// `Customer` or a `StoreOwner`.
    pub open spec fn may_create_shipments(self, id: Seq<char>) -> bool {
        self.user_has_type(id, UserType::Customer) || self.user_has_type(
            id,
            UserType::StoreOwner,
        )
    }

    /// Some driver is registered under this identity.
    pub open spec fn has_driver(self, id: Seq<char>) -> bool {
        exists|i: int| 0 <= i < self.drivers.len() && (#[trigger] self.drivers[i]).id == id
    }

    /// Some shipment carries this identifier.
    pub open spec fn has_shipment(self, id: Seq<char>) -> bool {
        exists|i: int| 0 <= i < self.shipments.len() && (#[trigger] self.shipments[i]).id == id
    }

    /// Index of the shipment carrying this identifier (meaningful when
    /// `has_shipment(id)`; unique in a well-formed state).
    pub open spec fn shipment_index(self, id: Seq<char>) -> int {
        choose|i: int| 0 <= i < self.shipments.len() && (#[trigger] self.shipments[i]).id == id
    }

    /// Well-formedness of the whole state:
    /// - at most one user and one driver per identity;
    /// - the `i`-th shipment carries the `i+1`-st shipment identifier,
    ///   so identifiers are unique and strictly increasing;
    /// - every shipment's tracking history is non-empty and ends with
    ///   the shipment's current status;
    /// - the `i`-th return request carries the `i+1`-st return
    ///   identifier.
    pub open spec fn wf(self) -> bool {
        &&& forall|i: int, j: int|
            0 <= i < j < self.users.len() ==> (#[trigger] self.users[i]).id != (
            #[trigger] self.users[j]).id
        &&& forall|i: int, j: int|
            0 <= i < j < self.drivers.len() ==> (#[trigger] self.drivers[i]).id != (
            #[trigger] self.drivers[j]).id
        &&& forall|i: int|
            0 <= i < self.shipments.len() ==> (#[trigger] self.shipments[i]).id
                == spec_shipment_id((i + 1) as nat)
        &&& forall|i: int| 0 <= i < self.shipments.len() ==> (#[trigger] self.shipments[i]).wf()
        &&& forall|i: int|
            0 <= i < self.return_requests.len() ==> (#[trigger] self.return_requests[i]).id
                == spec_return_id((i + 1) as nat)
    }

    /// Registration of a user: rejected when the identity already has a
    /// user record, otherwise the new record is appended.
    pub open spec fn register_user_t(
        self,
        caller: Seq<char>,
        name: Seq<char>,
        email: Seq<char>,
        phone: Seq<char>,
        user_type: UserType,
        now: u64,
    ) -> (PlatformView, Result<UserView, Error>) {
        if self.has_user(caller) {
            (self, Err(Error::AlreadyRegistered))
        } else {
            let u = UserView {
                id: caller,
                name,
                email,
                phone,
                user_type,
                created_at: now,
                is_active: true,
            };
            (PlatformView { users: self.users.push(u), ..self }, Ok(u))
        }
    }

    /// Registration of a driver: an independent namespace from users,
    /// with availability, a five-star rating and no deliveries yet.
    pub open spec fn register_driver_t(
        self,
        caller: Seq<char>,
        name: Seq<char>,
        phone: Seq<char>,
        vehicle_info: crate::types::VehicleInfoView,
        now: u64,
    ) -> (PlatformView, Result<DriverView, Error>) {
        if self.has_driver(caller) {
            (self, Err(Error::AlreadyRegistered))
        } else {
            let d = DriverView {
                id: caller,
                name,
                phone,
                vehicle_info,
                current_location: None,
                is_available: true,
                rating_centi: 500,
                total_deliveries: 0,
                joined_at: now,
            };
            (PlatformView { drivers: self.drivers.push(d), ..self }, Ok(d))
        }
    }

    /// Creation of a shipment: the caller must be a registered
    /// `Customer` or `StoreOwner`; the record receives the next
    /// shipment identifier, the estimated cost, status `Created`,
    /// payment `Pending`, and a one-event tracking history.
    pub open spec fn create_shipment_t(
        self,
        caller: Seq<char>,
        recipient_name: Seq<char>,
        recipient_phone: Seq<char>,
        pickup_address: AddressView,
        delivery_address: AddressView,
        package_details: PackageDetailsView,
        now: u64,
    ) -> (PlatformView, Result<ShipmentView, Error>) {
        if !self.has_user(caller) {
            (self, Err(Error::NotRegistered))
        } else if !self.may_create_shipments(caller) {
            (self, Err(Error::Unauthorized))
        } else {
            let s = ShipmentView {
                id: spec_shipment_id((self.shipments.len() + 1) as nat),
                sender_id: caller,
                recipient_name,
                recipient_phone,
                pickup_address,
                delivery_address,
                package_details,
                status: ShipmentStatus::Created,
                driver_id: None,
                created_at: now,
                updated_at: now,
                estimated_delivery: None,
                actual_delivery: None,
                tracking_history: seq![
                    TrackingEventView {
                        timestamp: now,
                        status: ShipmentStatus::Created,
                        location: None,
                        description: "Shipment created"@,
                        updated_by: caller,
                    },
                ],
                payment_status: PaymentStatus::Pending,
                cost_centi: spec_shipping_cost(
                    package_details.weight_centi,
                    package_details.value_centi,
                    package_details.fragile,
                ) as u64,
            };
            (PlatformView { shipments: self.shipments.push(s), ..self }, Ok(s))
        }
    }

    /// Status update of a shipment. The caller must be the sender, the
    /// assigned driver, or an admin; otherwise the error tells whether
    /// the caller has a user record at all. On success the status is
    /// set (any value is accepted, whatever the current status), an
    /// event is appended, and the delivery time is recorded when the
    /// new status is `Delivered`.
    pub open spec fn update_shipment_status_t(
        self,
        caller: Seq<char>,
        shipment_id: Seq<char>,
        new_status: ShipmentStatus,
        location: Option<Seq<char>>,
        description: Seq<char>,
        now: u64,
    ) -> (PlatformView, Result<ShipmentView, Error>) {
        if !self.has_shipment(shipment_id) {
            (self, Err(Error::NotFound))
        } else {
            let i = self.shipment_index(shipment_id);
            let s = self.shipments[i];
            if s.sender_id == caller || s.driver_id == Some(caller) || self.is_admin(caller) {
                let s2 = ShipmentView {
                    status: new_status,
                    updated_at: now,
                    actual_delivery: if new_status is Delivered {
                        Some(now)
                    } else {
                        s.actual_delivery
                    },
                    tracking_history: s.tracking_history.push(
                        TrackingEventView {
                            timestamp: now,
                            status: new_status,
                            location,
                            description,
                            updated_by: caller,
                        },
                    ),
                    ..s
                };
                (PlatformView { shipments: self.shipments.update(i, s2), ..self }, Ok(s2))
            } else if self.has_user(caller) {
                (self, Err(Error::Unauthorized))
            } else {
                (self, Err(Error::NotRegistered))
            }
        }
    }

    /// Driver assignment. Authorization comes first — an admin, or the
    /// assigned identity itself — so an unauthorized caller learns
    /// nothing about the shipment's existence. The assigned identity is
    /// not required to be a registered driver, and the status is forced
    /// to `PickupScheduled` whatever it was before.
    pub open spec fn assign_driver_t(
        self,
        caller: Seq<char>,
        shipment_id: Seq<char>,
        driver_id: Seq<char>,
        now: u64,
    ) -> (PlatformView, Result<ShipmentView, Error>) {
        if !(self.is_admin(caller) || caller == driver_id) {
            (self, Err(Error::Unauthorized))
        } else if !self.has_shipment(shipment_id) {
            (self, Err(Error::NotFound))
        } else {
            let i = self.shipment_index(shipment_id);
            let s = self.shipments[i];
            let s2 = ShipmentView {
                driver_id: Some(driver_id),
                status: ShipmentStatus::PickupScheduled,
                updated_at: now,
                tracking_history: s.tracking_history.push(
                    TrackingEventView {
                        timestamp: now,
                        status: ShipmentStatus::PickupScheduled,
                        location: None,
                        description: "Driver assigned and pickup scheduled"@,
                        updated_by: caller,
                    },
                ),
                ..s
            };
            (PlatformView { shipments: self.shipments.update(i, s2), ..self }, Ok(s2))
        }
    }

    /// Creation of a return request: only the sender of an existing,
    /// currently delivered shipment may request a return; the shipment
    /// itself is not touched.
    pub open spec fn create_return_request_t(
        self,
        caller: Seq<char>,
        shipment_id: Seq<char>,
        reason: Seq<char>,
        now: u64,
    ) -> (PlatformView, Result<ReturnRequestView, Error>) {
        if !self.has_shipment(shipment_id) {
            (self, Err(Error::NotFound))
        } else {
            let s = self.shipments[self.shipment_index(shipment_id)];
            if s.sender_id != caller {
                (self, Err(Error::Unauthorized))
            } else if !(s.status is Delivered) {
                (self, Err(Error::InvalidState))
            } else {
                let q = ReturnRequestView {
                    id: spec_return_id((self.return_requests.len() + 1) as nat),
                    shipment_id,
                    requester_id: caller,
                    reason,
                    status: ReturnStatus::Requested,
                    created_at: now,
                    processed_at: None,
                };
                (PlatformView { return_requests: self.return_requests.push(q), ..self }, Ok(q))
            }
        }
    }
}

/// The platform state: the four stores and the two identifier
/// counters. The stores are private; all access goes through the
/// operations, which preserve `wf()`.
pub struct Platform {
    users: Vec<User>,
    drivers: Vec<Driver>,
    shipments: Vec<Shipment>,
    return_requests: Vec<ReturnRequest>,
    shipment_counter: u64,
    return_counter: u64,
}

impl View for Platform {
    type V = PlatformView;

    closed spec fn view(&self) -> PlatformView {
        PlatformView {
            users: users_view(self.users@),
            drivers: drivers_view(self.drivers@),
            shipments: shipments_view(self.shipments@),
            return_requests: returns_view(self.return_requests@),
        }
    }
}

impl Platform {
    /// Well-formedness: the model is well-formed and each identifier
    /// counter equals the number of records it has numbered.
    pub closed spec fn wf(&self) -> bool {
        &&& self@.wf()
        &&& self.shipment_counter == self@.shipments.len()
        &&& self.return_counter == self@.return_requests.len()
    }

    /// A well-formed platform has a well-formed model.
    pub proof fn lemma_wf_view(&self)
        requires
            self.wf(),
        ensures
            self@.wf(),
    {
    }

    /// The empty platform every process starts from.
    pub fn new() -> (p: Platform)
        ensures
            p.wf(),
            p@.users == Seq::<UserView>::empty(),
            p@.drivers == Seq::<DriverView>::empty(),
            p@.shipments == Seq::<ShipmentView>::empty(),
            p@.return_requests == Seq::<ReturnRequestView>::empty(),
    {
        let p = Platform {
            users: Vec::new(),
            drivers: Vec::new(),
            shipments: Vec::new(),
            return_requests: Vec::new(),
            shipment_counter: 0,
            return_counter: 0,
        };
        proof {
            assert(p@.users =~= Seq::<UserView>::empty());
            assert(p@.drivers =~= Seq::<DriverView>::empty());
            assert(p@.shipments =~= Seq::<ShipmentView>::empty());
            assert(p@.return_requests =~= Seq::<ReturnRequestView>::empty());
        }
        p
    }

    /// Registers a user under the caller's identity; fails with
    /// `AlreadyRegistered` when the identity already has a user record,
    /// in which case nothing changes.
    pub fn register_user(
        &mut self,
        caller: ActorId,
        name: String,
        email: String,
        phone: String,
        user_type: UserType,
        now: u64,
    ) -> (r: Result<User, Error>)
        requires
            old(self).wf(),
        ensures
            final(self).wf(),
            ({
                let (post, res) = old(self)@.register_user_t(
                    caller@,
                    name@,
                    email@,
                    phone@,
                    user_type,
                    now,
                );
                final(self)@ == post && user_result_view(r) == res
            }),
    {
        let n = self.users.len();
        let mut i: usize = 0;
        while i < n
            invariant
                self.wf(),
                i <= n,
                n == self.users@.len(),
                forall|k: int| 0 <= k < i ==> (#[trigger] self.users@[k])@.id != caller@,
            decreases n - i,
        {
            if self.users[i].id.eq_id(&caller) {
                proof {
                    assert(self@.users[i as int].id == caller@);
                    assert(self@.has_user(caller@));
                }
                return Err(Error::AlreadyRegistered);
            }
            i = i + 1;
        }
        assert(!self@.has_user(caller@));
        let u = User { id: caller, name, email, phone, user_type, created_at: now, is_active: true };
        let ret = u.clone();
        self.users.push(u);
        proof {
            let (post, res) = old(self)@.register_user_t(
                ret@.id,
                ret@.name,
                ret@.email,
                ret@.phone,
                user_type,
                now,
            );
            assert(self@.users =~= post.users);
            assert(self@.drivers =~= old(self)@.drivers);
            assert(self@.shipments =~= old(self)@.shipments);
            assert(self@.return_requests =~= old(self)@.return_requests);
            assert(self@ == post);
        }
        Ok(ret)
    }

    /// Looks a user up by identity; `None` exactly when no user record
    /// exists for it.
    pub fn get_user(&self, user_id: &ActorId) -> (r: Option<User>)
        ensures
            match r {
                Some(u) => self@.users.contains(u@) && u@.id == user_id@,
                None => !self@.has_user(user_id@),
            },
    {
        let n = self.users.len();
        let mut i: usize = 0;
        while i < n
            invariant
                i <= n,
                n == self.users@.len(),
                forall|k: int| 0 <= k < i ==> (#[trigger] self.users@[k])@.id != user_id@,
            decreases n - i,
        {
            if self.users[i].id.eq_id(user_id) {
                let u = self.users[i].clone();
                assert(self@.users[i as int] == u@);
                return Some(u);
            }
            i = i + 1;
        }
        None
    }

    /// The caller's own user record, if any.
    pub fn get_current_user(&self, caller: &ActorId) -> (r: Option<User>)
        ensures
            match r {
                Some(u) => self@.users.contains(u@) && u@.id == caller@,
                None => !self@.has_user(caller@),
            },
    {
        self.get_user(caller)
    }

    /// Registers a driver under the caller's identity, independently of
    /// user registration; fails with `AlreadyRegistered` when the
    /// identity already has a driver record, in which case nothing
    /// changes.
    pub fn register_driver(
        &mut self,
        caller: ActorId,
        name: String,
        phone: String,
        vehicle_info: VehicleInfo,
        now: u64,
    ) -> (r: Result<Driver, Error>)
        requires
            old(self).wf(),
        ensures
            final(self).wf(),
            ({
                let (post, res) = old(self)@.register_driver_t(
                    caller@,
                    name@,
                    phone@,
                    vehicle_info@,
                    now,
                );
                final(self)@ == post && driver_result_view(r) == res
            }),
    {
        let n = self.drivers.len();
        let mut i: usize = 0;
        while i < n
            invariant
                self.wf(),
                i <= n,
                n == self.drivers@.len(),
                forall|k: int| 0 <= k < i ==> (#[trigger] self.drivers@[k])@.id != caller@,
            decreases n - i,
        {
            if self.drivers[i].id.eq_id(&caller) {
                proof {
                    assert(self@.drivers[i as int].id == caller@);
                    assert(self@.has_driver(caller@));
                }
                return Err(Error::AlreadyRegistered);
            }
            i = i + 1;
        }
        assert(!self@.has_driver(caller@));
        let d = Driver {
            id: caller,
            name,
            phone,
            vehicle_info,
            current_location: None,
            is_available: true,
            rating_centi: 500,
            total_deliveries: 0,
            joined_at: now,
        };
        let ret = d.clone();
        self.drivers.push(d);
        proof {
            let (post, res) = old(self)@.register_driver_t(
                ret@.id,
                ret@.name,
                ret@.phone,
                ret@.vehicle_info,
                now,
            );
            assert(self@.drivers =~= post.drivers);
            assert(self@.users =~= old(self)@.users);
            assert(self@.shipments =~= old(self)@.shipments);
            assert(self@.return_requests =~= old(self)@.return_requests);
            assert(self@ == post);
        }
        Ok(ret)
    }
}

/// Appending an element filters to the old result, plus the element
/// when the predicate accepts it.
proof fn lemma_filter_push<A>(s: Seq<A>, x: A, p: spec_fn(A) -> bool)
    ensures
        s.push(x).filter(p) == (if p(x) {
            s.filter(p).push(x)
        } else {
            s.filter(p)
        }),
{
    reveal(Seq::filter);
    assert(s.push(x).drop_last() == s) by {
        assert(s.push(x).drop_last() =~= s);
    }
    assert(s.push(x).last() == x);
}

/// In a well-formed state a shipment identifier determines its index:
/// the identifier of position `i` encodes `i + 1`.
pub proof fn lemma_shipment_index_agrees(pv: PlatformView, i: int, id: Seq<char>)
    requires
        pv.wf(),
        0 <= i < pv.shipments.len(),
        pv.shipments[i].id == id,
    ensures
        pv.has_shipment(id),
        pv.shipment_index(id) == i,
{
    assert(pv.has_shipment(id));
    let j = pv.shipment_index(id);
    assert(0 <= j < pv.shipments.len() && pv.shipments[j].id == id);
    if i != j {
        assert(pv.shipments[i].id == spec_shipment_id((i + 1) as nat));
        assert(pv.shipments[j].id == spec_shipment_id((j + 1) as nat));
        lemma_shipment_id_injective((i + 1) as nat, (j + 1) as nat);
    }
}

impl Platform {
    /// Whether any user record exists for this identity.
    fn has_user_exec(&self, id: &ActorId) -> (r: bool)
        ensures
            r == self@.has_user(id@),
    {
        let n = self.users.len();
        let mut i: usize = 0;
        while i < n
            invariant
                i <= n,
                n == self.users@.len(),
                forall|k: int| 0 <= k < i ==> (#[trigger] self.users@[k])@.id != id@,
            decreases n - i,
        {
            if self.users[i].id.eq_id(id) {
                proof {
                    assert(self@.users[i as int].id == id@);
                    assert(self@.has_user(id@));
                }
                return true;
            }
            i = i + 1;
        }
        proof {
            assert forall|k: int| 0 <= k < self@.users.len() implies (#[trigger] self@.users[k]).id
                != id@ by {
                assert(self@.users[k] == self.users@[k]@);
            }
        }
        false
    }

    /// The role of the caller's user record, if one exists. In a
    /// well-formed state the record is unique, so the role is the only
    /// one the identity holds.
    fn user_role(&self, id: &ActorId) -> (r: Option<UserType>)
        requires
            self.wf(),
        ensures
            match r {
                None => !self@.has_user(id@),
                Some(t) => self@.user_has_type(id@, t) && (forall|t2: UserType|
                    self@.user_has_type(id@, t2) ==> t2 == t),
            },
    {
        let n = self.users.len();
        let mut i: usize = 0;
        while i < n
            invariant
                self.wf(),
                i <= n,
                n == self.users@.len(),
                forall|k: int| 0 <= k < i ==> (#[trigger] self.users@[k])@.id != id@,
            decreases n - i,
        {
            if self.users[i].id.eq_id(id) {
                let t = self.users[i].user_type;
                proof {
                    assert(self@.users[i as int].id == id@);
                    assert(self@.user_has_type(id@, t));
                    assert forall|t2: UserType| self@.user_has_type(id@, t2) implies t2 == t by {
                        let j = choose|j: int|
                            0 <= j < self@.users.len() && (#[trigger] self@.users[j]).id == id@
                                && self@.users[j].user_type == t2;
                        assert(self@.users[j].id == self@.users[i as int].id);
                        assert(j == i);
                    }
                }
                return Some(t);
            }
            i = i + 1;
        }
        proof {
            assert forall|k: int| 0 <= k < self@.users.len() implies (#[trigger] self@.users[k]).id
                != id@ by {
                assert(self@.users[k] == self.users@[k]@);
            }
        }
        None
    }

    /// Whether this identity is an admin user.
    fn is_admin_exec(&self, id: &ActorId) -> (r: bool)
        requires
            self.wf(),
        ensures
            r == self@.is_admin(id@),
    {
        let role = self.user_role(id);
        match role {
            Some(UserType::Admin) => true,
            Some(_) => false,
            None => {
                proof {
                    if self@.is_admin(id@) {
                        let j = choose|j: int|
                            0 <= j < self@.users.len() && (#[trigger] self@.users[j]).id == id@
                                && self@.users[j].user_type == UserType::Admin;
                        assert(self@.has_user(id@));
                    }
                }
                false
            },
        }
    }

    /// Position of the shipment carrying this identifier, if any.
    fn find_shipment(&self, id: &String) -> (r: Option<usize>)
        ensures
            match r {
                Some(i) => i < self@.shipments.len() && self@.shipments[i as int].id == id@,
                None => !self@.has_shipment(id@),
            },
    {
        let n = self.shipments.len();
        let mut i: usize = 0;
        while i < n
            invariant
                i <= n,
                n == self.shipments@.len(),
                forall|k: int| 0 <= k < i ==> (#[trigger] self.shipments@[k])@.id != id@,
            decreases n - i,
        {
            if self.shipments[i].id == *id {
                proof {
                    assert(self@.shipments[i as int].id == id@);
                }
                return Some(i);
            }
            i = i + 1;
        }
        proof {
            assert forall|k: int|
                0 <= k < self@.shipments.len() implies (#[trigger] self@.shipments[k]).id != id@ by {
                assert(self@.shipments[k] == self.shipments@[k]@);
            }
        }
        None
    }

    /// Creates a shipment for the caller, who must be registered as a
    /// `Customer` or `StoreOwner`. The record receives the next
    /// shipment identifier, the estimated cost, status `Created` and a
    /// seeded tracking history.
    pub fn create_shipment(
        &mut self,
        caller: ActorId,
        recipient_name: String,
        recipient_phone: String,
        pickup_address: Address,
        delivery_address: Address,
        package_details: PackageDetails,
        now: u64,
    ) -> (r: Result<Shipment, Error>)
        requires
            old(self).wf(),
            old(self)@.shipments.len() < u64::MAX,
        ensures
            final(self).wf(),
            ({
                let (post, res) = old(self)@.create_shipment_t(
                    caller@,
                    recipient_name@,
                    recipient_phone@,
                    pickup_address@,
                    delivery_address@,
                    package_details@,
                    now,
                );
                final(self)@ == post && shipment_result_view(r) == res
            }),
    {
        let ghost (post, res) = self@.create_shipment_t(
            caller@,
            recipient_name@,
            recipient_phone@,
            pickup_address@,
            delivery_address@,
            package_details@,
            now,
        );
        let role = self.user_role(&caller);
        match role {
            None => {
                return Err(Error::NotRegistered);
            },
            Some(UserType::Customer) | Some(UserType::StoreOwner) => {},
            Some(_) => {
                proof {
                    // The caller's only role is neither Customer nor StoreOwner.
                    assert(!self@.may_create_shipments(caller@));
                }
                return Err(Error::Unauthorized);
            },
        }
        let num = self.shipment_counter + 1;
        let sid = format_id("SH", num);
        proof {
            reveal_strlit("SH");
            assert(sid@ =~= spec_shipment_id(num as nat));
        }
        let cost = calculate_shipping_cost(&pickup_address, &delivery_address, &package_details);
        let event = TrackingEvent {
            timestamp: now,
            status: ShipmentStatus::Created,
            location: None,
            description: "Shipment created".to_owned(),
            updated_by: caller.clone(),
        };
        let mut history: Vec<TrackingEvent> = Vec::new();
        history.push(event);
        let s = Shipment {
            id: sid,
            sender_id: caller,
            recipient_name,
            recipient_phone,
            pickup_address,
            delivery_address,
            package_details,
            status: ShipmentStatus::Created,
            driver_id: None,
            created_at: now,
            updated_at: now,
            estimated_delivery: None,
            actual_delivery: None,
            tracking_history: history,
            payment_status: PaymentStatus::Pending,
            cost_centi: cost,
        };
        let ret = s.clone();
        self.shipments.push(s);
        self.shipment_counter = num;
        proof {
            assert(ret@.tracking_history =~= res->Ok_0.tracking_history);
            assert(ret@ == res->Ok_0);
            assert(self@.shipments =~= post.shipments);
            assert(self@.users =~= old(self)@.users);
            assert(self@.drivers =~= old(self)@.drivers);
            assert(self@.return_requests =~= old(self)@.return_requests);
            assert(self@ == post);
        }
        Ok(ret)
    }

    /// Looks a shipment up by identifier — an unauthenticated read with
    /// no ownership filter; `None` exactly when no such shipment
    /// exists.
    pub fn get_shipment(&self, shipment_id: &String) -> (r: Option<Shipment>)
        ensures
            match r {
                Some(s) => self@.shipments.contains(s@) && s@.id == shipment_id@,
                None => !self@.has_shipment(shipment_id@),
            },
    {
        match self.find_shipment(shipment_id) {
            Some(i) => {
                let s = self.shipments[i].clone();
                proof {
                    assert(self@.shipments[i as int] == s@);
                }
                Some(s)
            },
            None => None,
        }
    }
}

impl Platform {
    /// Updates a shipment's status. The caller must be the sender, the
    /// assigned driver, or an admin user; any status value is accepted
    /// whatever the current one. An event is appended to the tracking
    /// history, and the delivery time is recorded when the new status
    /// is `Delivered`.
    pub fn update_shipment_status(
        &mut self,
        caller: ActorId,
        shipment_id: &String,
        new_status: ShipmentStatus,
        location: Option<String>,
        description: String,
        now: u64,
    ) -> (r: Result<Shipment, Error>)
        requires
            old(self).wf(),
        ensures
            final(self).wf(),
            ({
                let (post, res) = old(self)@.update_shipment_status_t(
                    caller@,
                    shipment_id@,
                    new_status,
                    opt_str_view(location),
                    description@,
                    now,
                );
                final(self)@ == post && shipment_result_view(r) == res
            }),
    {
        let ghost (post, res) = self@.update_shipment_status_t(
            caller@,
            shipment_id@,
            new_status,
            opt_str_view(location),
            description@,
            now,
        );
        let idx = match self.find_shipment(shipment_id) {
            None => {
                return Err(Error::NotFound);
            },
            Some(idx) => idx,
        };
        proof {
            lemma_shipment_index_agrees(self@, idx as int, shipment_id@);
        }
        let authorized: bool = if self.shipments[idx].sender_id.eq_id(&caller) {
            true
        } else {
            let is_driver = match &self.shipments[idx].driver_id {
                Some(d) => d.eq_id(&caller),
                None => false,
            };
            if is_driver {
                true
            } else {
                self.is_admin_exec(&caller)
            }
        };
        if !authorized {
            if self.has_user_exec(&caller) {
                return Err(Error::Unauthorized);
            } else {
                return Err(Error::NotRegistered);
            }
        }
        let mut s = self.shipments[idx].clone();
        s.status = new_status;
        s.updated_at = now;
        if matches!(new_status, ShipmentStatus::Delivered) {
            s.actual_delivery = Some(now);
        }
        s.tracking_history.push(
            TrackingEvent {
                timestamp: now,
                status: new_status,
                location,
                description,
                updated_by: caller,
            },
        );
        let ret = s.clone();
        self.shipments[idx] = s;
        proof {
            assert(ret@.tracking_history =~= res->Ok_0.tracking_history);
            assert(ret@ == res->Ok_0);
            assert(self@.shipments =~= post.shipments);
            assert(self@.users =~= old(self)@.users);
            assert(self@.drivers =~= old(self)@.drivers);
            assert(self@.return_requests =~= old(self)@.return_requests);
            assert(self@ == post);
        }
        Ok(ret)
    }

    /// Assigns an identity as a shipment's driver. Only an admin user
    /// or the assigned identity itself may do it; the identity need not
    /// be a registered driver, and the status is forced to
    /// `PickupScheduled` whatever it was before.
    pub fn assign_driver_to_shipment(
        &mut self,
        caller: ActorId,
        shipment_id: &String,
        driver_id: ActorId,
        now: u64,
    ) -> (r: Result<Shipment, Error>)
        requires
            old(self).wf(),
        ensures
            final(self).wf(),
            ({
                let (post, res) = old(self)@.assign_driver_t(
                    caller@,
                    shipment_id@,
                    driver_id@,
                    now,
                );
                final(self)@ == post && shipment_result_view(r) == res
            }),
    {
        let ghost (post, res) = self@.assign_driver_t(caller@, shipment_id@, driver_id@, now);
        let authorized: bool = if self.is_admin_exec(&caller) {
            true
        } else {
            caller.eq_id(&driver_id)
        };
        if !authorized {
            return Err(Error::Unauthorized);
        }
        let idx = match self.find_shipment(shipment_id) {
            None => {
                return Err(Error::NotFound);
            },
            Some(idx) => idx,
        };
        proof {
            lemma_shipment_index_agrees(self@, idx as int, shipment_id@);
        }
        let mut s = self.shipments[idx].clone();
        s.driver_id = Some(driver_id);
        s.status = ShipmentStatus::PickupScheduled;
        s.updated_at = now;
        s.tracking_history.push(
            TrackingEvent {
                timestamp: now,
                status: ShipmentStatus::PickupScheduled,
                location: None,
                description: "Driver assigned and pickup scheduled".to_owned(),
                updated_by: caller,
            },
        );
        let ret = s.clone();
        self.shipments[idx] = s;
        proof {
            assert(ret@.tracking_history =~= res->Ok_0.tracking_history);
            assert(ret@ == res->Ok_0);
            assert(self@.shipments =~= post.shipments);
            assert(self@.users =~= old(self)@.users);
            assert(self@.drivers =~= old(self)@.drivers);
            assert(self@.return_requests =~= old(self)@.return_requests);
            assert(self@ == post);
        }
        Ok(ret)
    }

    /// Creates a return request against a shipment. Only the shipment's
    /// sender may request a return, and only while the shipment's
    /// status is `Delivered`; the shipment itself is left untouched.
    pub fn create_return_request(
        &mut self,
        caller: ActorId,
        shipment_id: String,
        reason: String,
        now: u64,
    ) -> (r: Result<ReturnRequest, Error>)
        requires
            old(self).wf(),
            old(self)@.return_requests.len() < u64::MAX,
        ensures
            final(self).wf(),
            ({
                let (post, res) = old(self)@.create_return_request_t(
                    caller@,
                    shipment_id@,
                    reason@,
                    now,
                );
                final(self)@ == post && return_result_view(r) == res
            }),
    {
        let ghost (post, res) = self@.create_return_request_t(caller@, shipment_id@, reason@, now);
        let idx = match self.find_shipment(&shipment_id) {
            None => {
                return Err(Error::NotFound);
            },
            Some(idx) => idx,
        };
        proof {
            lemma_shipment_index_agrees(self@, idx as int, shipment_id@);
        }
        if !self.shipments[idx].sender_id.eq_id(&caller) {
            return Err(Error::Unauthorized);
        }
        if !matches!(self.shipments[idx].status, ShipmentStatus::Delivered) {
            return Err(Error::InvalidState);
        }
        let num = self.return_counter + 1;
        let rid = format_id("RT", num);
        proof {
            reveal_strlit("RT");
            assert(rid@ =~= spec_return_id(num as nat));
        }
        let q = ReturnRequest {
            id: rid,
            shipment_id,
            requester_id: caller,
            reason,
            status: ReturnStatus::Requested,
            created_at: now,
            processed_at: None,
        };
        let ret = q.clone();
        self.return_requests.push(q);
        self.return_counter = num;
        proof {
            assert(ret@ == res->Ok_0);
            assert(self@.return_requests =~= post.return_requests);
            assert(self@.users =~= old(self)@.users);
            assert(self@.drivers =~= old(self)@.drivers);
            assert(self@.shipments =~= old(self)@.shipments);
            assert(self@ == post);
        }
        Ok(ret)
    }
}

impl Platform {
    /// All shipments sent by the caller, in creation order.
    pub fn get_user_shipments(&self, caller: &ActorId) -> (r: Vec<Shipment>)
        ensures
            shipments_view(r@) == self@.shipments.filter(sent_by(caller@)),
    {
        let mut r: Vec<Shipment> = Vec::new();
        let n = self.shipments.len();
        let mut i: usize = 0;
        while i < n
            invariant
                i <= n,
                n == self.shipments@.len(),
                shipments_view(r@) == self@.shipments.take(i as int).filter(sent_by(caller@)),
            decreases n - i,
        {
            let ghost pre = r@;
            if self.shipments[i].sender_id.eq_id(caller) {
                r.push(self.shipments[i].clone());
            }
            proof {
                let x = self@.shipments[i as int];
                assert(self@.shipments.take(i + 1) =~= self@.shipments.take(i as int).push(x));
                lemma_filter_push(self@.shipments.take(i as int), x, sent_by(caller@));
                if sent_by(caller@)(x) {
                    assert(shipments_view(r@) =~= shipments_view(pre).push(x));
                } else {
                    assert(r@ == pre);
                }
            }
            i = i + 1;
        }
        proof {
            assert(self@.shipments.take(n as int) =~= self@.shipments);
        }
        r
    }

    /// All drivers currently marked available, in registration order.
    pub fn get_available_drivers(&self) -> (r: Vec<Driver>)
        ensures
            drivers_view(r@) == self@.drivers.filter(available_driver()),
    {
        let mut r: Vec<Driver> = Vec::new();
        let n = self.drivers.len();
        let mut i: usize = 0;
        while i < n
            invariant
                i <= n,
                n == self.drivers@.len(),
                drivers_view(r@) == self@.drivers.take(i as int).filter(available_driver()),
            decreases n - i,
        {
            let ghost pre = r@;
            if self.drivers[i].is_available {
                r.push(self.drivers[i].clone());
            }
            proof {
                let x = self@.drivers[i as int];
                assert(self@.drivers.take(i + 1) =~= self@.drivers.take(i as int).push(x));
                lemma_filter_push(self@.drivers.take(i as int), x, available_driver());
                if available_driver()(x) {
                    assert(drivers_view(r@) =~= drivers_view(pre).push(x));
                } else {
                    assert(r@ == pre);
                }
            }
            i = i + 1;
        }
        proof {
            assert(self@.drivers.take(n as int) =~= self@.drivers);
        }
        r
    }

    /// All return requests raised by the caller, in creation order.
    pub fn get_return_requests(&self, caller: &ActorId) -> (r: Vec<ReturnRequest>)
        ensures
            returns_view(r@) == self@.return_requests.filter(requested_by(caller@)),
    {
        let mut r: Vec<ReturnRequest> = Vec::new();
        let n = self.return_requests.len();
        let mut i: usize = 0;
        while i < n
            invariant
                i <= n,
                n == self.return_requests@.len(),
                returns_view(r@) == self@.return_requests.take(i as int).filter(
                    requested_by(caller@),
                ),
            decreases n - i,
        {
            let ghost pre = r@;
            if self.return_requests[i].requester_id.eq_id(caller) {
                r.push(self.return_requests[i].clone());
            }
            proof {
                let x = self@.return_requests[i as int];
                assert(self@.return_requests.take(i + 1) =~= self@.return_requests.take(
                    i as int,
                ).push(x));
                lemma_filter_push(self@.return_requests.take(i as int), x, requested_by(caller@));
                if requested_by(caller@)(x) {
                    assert(returns_view(r@) =~= returns_view(pre).push(x));
                } else {
                    assert(r@ == pre);
                }
            }
            i = i + 1;
        }
        proof {
            assert(self@.return_requests.take(n as int) =~= self@.return_requests);
        }
        r
    }

    /// Saturates a store size into a 32-bit statistic.
    fn clamp_len(n: usize) -> (r: u32)
        ensures
            r == clamp_u32(n as nat),
    {
        if n <= u32::MAX as usize {
            n as u32
        } else {
            u32::MAX
        }
    }

    /// Derives the platform statistics by one full scan: total counts
    /// of users, shipments and drivers, the number of shipments
    /// currently `Delivered`, and the number pending — any status other
    /// than `Delivered` or `Cancelled`.
    pub fn get_platform_stats(&self) -> (r: PlatformStats)
        ensures
            r.total_users == clamp_u32(self@.users.len()),
            r.total_shipments == clamp_u32(self@.shipments.len()),
            r.total_drivers == clamp_u32(self@.drivers.len()),
            r.delivered_shipments == clamp_u32(
                self@.shipments.filter(delivered_shipment()).len(),
            ),
            r.pending_shipments == clamp_u32(self@.shipments.filter(pending_shipment()).len()),
    {
        let n = self.shipments.len();
        let mut delivered: usize = 0;
        let mut pending: usize = 0;
        let mut i: usize = 0;
        while i < n
            invariant
                i <= n,
                n == self.shipments@.len(),
                delivered <= i,
                pending <= i,
                delivered == self@.shipments.take(i as int).filter(delivered_shipment()).len(),
                pending == self@.shipments.take(i as int).filter(pending_shipment()).len(),
            decreases n - i,
        {
            proof {
                let x = self@.shipments[i as int];
                assert(self@.shipments.take(i + 1) =~= self@.shipments.take(i as int).push(x));
                lemma_filter_push(self@.shipments.take(i as int), x, delivered_shipment());
                lemma_filter_push(self@.shipments.take(i as int), x, pending_shipment());
            }
            if matches!(self.shipments[i].status, ShipmentStatus::Delivered) {
                delivered = delivered + 1;
            }
            if !matches!(
                self.shipments[i].status,
                ShipmentStatus::Delivered | ShipmentStatus::Cancelled
            ) {
                pending = pending + 1;
            }
            i = i + 1;
        }
        proof {
            assert(self@.shipments.take(n as int) =~= self@.shipments);
        }
        PlatformStats {
            total_users: Self::clamp_len(self.users.len()),
            total_shipments: Self::clamp_len(n),
            total_drivers: Self::clamp_len(self.drivers.len()),
            delivered_shipments: Self::clamp_len(delivered),
            pending_shipments: Self::clamp_len(pending),
        }
    }
}

/// Law: registering the same identity twice. When the first call
/// succeeds, the second returns `AlreadyRegistered` and changes
/// nothing, and the user stored under that identity after both calls
/// is exactly the one the first call produced.
pub proof fn lemma_register_user_repeat(
    p: PlatformView,
    caller: Seq<char>,
    name1: Seq<char>,
    email1: Seq<char>,
    phone1: Seq<char>,
    type1: UserType,
    now1: u64,
    name2: Seq<char>,
    email2: Seq<char>,
    phone2: Seq<char>,
    type2: UserType,
    now2: u64,
)
    ensures
        ({
            let (p1, r1) = p.register_user_t(caller, name1, email1, phone1, type1, now1);
            let (p2, r2) = p1.register_user_t(caller, name2, email2, phone2, type2, now2);
            r1 is Ok ==> {
                &&& r2 == Err::<UserView, Error>(Error::AlreadyRegistered)
                &&& p2 == p1
                &&& exists|k: int| 0 <= k < p1.users.len() && (#[trigger] p1.users[k]) == r1->Ok_0
                &&& forall|k: int|
                    0 <= k < p1.users.len() && (#[trigger] p1.users[k]).id == caller
                        ==> p1.users[k] == r1->Ok_0
            }
        }),
{
    let (p1, r1) = p.register_user_t(caller, name1, email1, phone1, type1, now1);
    if !p.has_user(caller) {
        let u = r1->Ok_0;
        assert(p1.users == p.users.push(u));
        assert(p1.users[p.users.len() as int] == u);
        assert(p1.has_user(caller));
        assert forall|k: int|
            0 <= k < p1.users.len() && (#[trigger] p1.users[k]).id == caller implies p1.users[k]
            == u by {
            if k < p.users.len() {
                assert(p.users[k] == p1.users[k]);
                assert(p.has_user(caller));
            }
        }
    }
}

/// Law: in every well-formed state, every shipment's tracking history
/// is non-empty and its last event carries the shipment's current
/// status. Every operation preserves well-formedness, so this holds in
/// every reachable state.
pub proof fn lemma_tracking_history_tracks_status(pv: PlatformView, i: int)
    requires
        pv.wf(),
        0 <= i < pv.shipments.len(),
    ensures
        pv.shipments[i].tracking_history.len() > 0,
        pv.shipments[i].tracking_history.last().status == pv.shipments[i].status,
{
    assert(pv.shipments[i].wf());
}

/// Law: shipment identifiers are issued with strictly increasing
/// counters — the shipment at position `i` carries the identifier of
/// counter `i + 1` — and are pairwise distinct.
pub proof fn lemma_shipment_ids_unique(pv: PlatformView)
    requires
        pv.wf(),
    ensures
        forall|i: int|
            0 <= i < pv.shipments.len() ==> (#[trigger] pv.shipments[i]).id == spec_shipment_id(
                (i + 1) as nat,
            ),
        forall|i: int, j: int|
            0 <= i < j < pv.shipments.len() ==> (#[trigger] pv.shipments[i]).id != (
            #[trigger] pv.shipments[j]).id,
{
    assert forall|i: int, j: int|
        0 <= i < j < pv.shipments.len() implies (#[trigger] pv.shipments[i]).id != (
    #[trigger] pv.shipments[j]).id by {
        if pv.shipments[i].id == pv.shipments[j].id {
            lemma_shipment_id_injective((i + 1) as nat, (j + 1) as nat);
        }
    }
}

/// Law: return-request identifiers are issued the same way from their
/// own counter, so they too are pairwise distinct.
pub proof fn lemma_return_ids_unique(pv: PlatformView)
    requires
        pv.wf(),
    ensures
        forall|i: int, j: int|
            0 <= i < j < pv.return_requests.len() ==> (#[trigger] pv.return_requests[i]).id != (
            #[trigger] pv.return_requests[j]).id,
{
    assert forall|i: int, j: int|
        0 <= i < j < pv.return_requests.len() implies (#[trigger] pv.return_requests[i]).id != (
    #[trigger] pv.return_requests[j]).id by {
        if pv.return_requests[i].id == pv.return_requests[j].id {
            lemma_return_id_injective((i + 1) as nat, (j + 1) as nat);
        }
    }
}

impl Platform {
    /// Number of shipments ever created (the value of the shipment
    /// counter).
    pub fn shipment_count(&self) -> (n: usize)
        ensures
            n == self@.shipments.len(),
    {
        self.shipments.len()
    }

    /// Number of return requests ever created (the value of the return
    /// counter).
    pub fn return_request_count(&self) -> (n: usize)
        ensures
            n == self@.return_requests.len(),
    {
        self.return_requests.len()
    }
}

/// Law: there is no partial mutation — an operation that returns an
/// error leaves the whole state exactly as it was.
pub proof fn lemma_failure_leaves_state_unchanged(
    p: PlatformView,
    caller: Seq<char>,
    a: Seq<char>,
    b: Seq<char>,
    c: Seq<char>,
    user_type: UserType,
    vehicle: crate::types::VehicleInfoView,
    pickup: AddressView,
    delivery: AddressView,
    package: PackageDetailsView,
    status: ShipmentStatus,
    location: Option<Seq<char>>,
    now: u64,
)
    ensures
        ({
            let (q, r) = p.register_user_t(caller, a, b, c, user_type, now);
            r is Err ==> q == p
        }),
        ({
            let (q, r) = p.register_driver_t(caller, a, b, vehicle, now);
            r is Err ==> q == p
        }),
        ({
            let (q, r) = p.create_shipment_t(caller, a, b, pickup, delivery, package, now);
            r is Err ==> q == p
        }),
        ({
            let (q, r) = p.update_shipment_status_t(caller, a, status, location, b, now);
            r is Err ==> q == p
        }),
        ({
            let (q, r) = p.assign_driver_t(caller, a, b, now);
            r is Err ==> q == p
        }),
        ({
            let (q, r) = p.create_return_request_t(caller, a, b, now);
            r is Err ==> q == p
        }),
{
}

} // verus!
