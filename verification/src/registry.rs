//! The registry: every store, the identifier counter and the administrator's
//! identity, owned by one value that each operation is called on.
//!
//! An operation runs to its end before the next begins, so what an operation
//! reads, checks and writes is one step for every observer.
use crate::counter::IdentifierCounter;
use crate::error::Error;
use crate::identity::AdminRegistry;
use crate::logs::{
    DocumentDetails, DocumentLogPayload, EmergencyDetails, EmergencyDispatchPayload,
    InspectionDetails, InspectionPayload, MaintenanceDetails, MaintenanceLogPayload,
    PortTrafficReport, PortTrafficReportView, ResourceUpdate, ResourceUpdatePayload,
    TrafficAnalysisPayload,
};
use crate::model;
use crate::model::State;
use crate::record::record_fits;
use crate::stable::regions_open;
use crate::store::{listing, EntityStore};
use crate::text::blank;
use crate::types::{
    lemma_port_fits, lemma_user_fits, port_fields_fit, user_fields_fit, AdminPrincipal, Port,
    PortPayload, PortView, User, UserPayload, UserView,
};
use vstd::prelude::*;
use vstd::utf8::encode_utf8;

verus! {

/// The region of the identifier counter.
pub const COUNTER_REGION: u8 = 0;

/// The region of the ports.
pub const PORT_REGION: u8 = 1;

/// The region of the users.
pub const USER_REGION: u8 = 2;

/// The region of the inspections.
pub const INSPECTION_REGION: u8 = 3;

/// The region of the traffic reports.
pub const TRAFFIC_REGION: u8 = 4;

/// The region of the emergencies.
pub const EMERGENCY_REGION: u8 = 5;

/// The region of the maintenance log.
pub const MAINTENANCE_REGION: u8 = 6;

/// The region of the resource reports.
pub const RESOURCE_REGION: u8 = 7;

/// The region of the customs documents.
pub const DOCUMENT_REGION: u8 = 8;

/// The region of the administrator's identity.
pub const ADMIN_REGION: u8 = 9;

/// A result with the record in it replaced by what the record holds.
pub open spec fn viewed<T: View>(r: Result<T, Error>) -> Result<T::V, Error> {
    match r {
        Ok(record) => Ok(record@),
        Err(e) => Err(e),
    }
}

/// The registry.
pub struct Registry {
    counter: IdentifierCounter,
    admin: AdminRegistry,
    ports: EntityStore<Port>,
    users: EntityStore<User>,
    inspections: EntityStore<InspectionDetails>,
    traffic_reports: EntityStore<PortTrafficReport>,
    emergencies: EntityStore<EmergencyDetails>,
    maintenance: EntityStore<MaintenanceDetails>,
    resources: EntityStore<ResourceUpdate>,
    documents: EntityStore<DocumentDetails>,
    fresh: bool,
}

impl View for Registry {
    type V = State;

    closed spec fn view(&self) -> State {
        State {
            next_id: self.counter@,
            admin: self.admin@,
            ports: self.ports@,
            users: self.users@,
            inspections: self.inspections@,
            traffic_reports: self.traffic_reports@,
            emergencies: self.emergencies@,
            maintenance: self.maintenance@,
            resources: self.resources@,
            documents: self.documents@,
        }
    }
}

/// Whether a port may be reported on. Every port number is accepted: a
/// report may name a port that is not registered.
pub fn check_port_exists(_port_id: u64) -> (exists: bool)
    ensures
        exists,
{
    true
}

impl Registry {
    /// Opens the registry in the default memory. What the memory already
    /// holds is kept. On a first start, when nothing was ever written to the
    /// memory, the registry holds no records, its counter is at 0 and `admin`
    /// is its administrator. On a later start it holds what the start before
    /// left, and `admin` is not looked at. `None` where the counter or the
    /// identity could not be read or written.
    ///
    /// A process opens the registry once: two registries over one memory
    /// would each change what the other holds. The memory is the registry's
    /// own: on a memory that something else has written to, or that was
    /// written under another layout, opening may end the process.
    pub fn init(admin: AdminPrincipal) -> (r: Option<Registry>)
        ensures
            r is Some && r.unwrap().fresh() ==> r.unwrap()@ == model::initial(admin@),
    {
        let regions = regions_open();
        let counter = match IdentifierCounter::init(&regions, COUNTER_REGION) {
            Some(counter) => counter,
            None => {
                return None;
            },
        };
        let identity = match AdminRegistry::initialize(&regions, ADMIN_REGION, admin) {
            Some(identity) => identity,
            None => {
                return None;
            },
        };
        let ports = EntityStore::<Port>::init(&regions, PORT_REGION);
        let users = EntityStore::<User>::init(&regions, USER_REGION);
        let inspections = EntityStore::<InspectionDetails>::init(&regions, INSPECTION_REGION);
        let traffic_reports = EntityStore::<PortTrafficReport>::init(&regions, TRAFFIC_REGION);
        let emergencies = EntityStore::<EmergencyDetails>::init(&regions, EMERGENCY_REGION);
        let maintenance = EntityStore::<MaintenanceDetails>::init(&regions, MAINTENANCE_REGION);
        let resources = EntityStore::<ResourceUpdate>::init(&regions, RESOURCE_REGION);
        let documents = EntityStore::<DocumentDetails>::init(&regions, DOCUMENT_REGION);
        Some(
            Self::assemble(
                counter,
                identity,
                ports,
                users,
                inspections,
                traffic_reports,
                emergencies,
                maintenance,
                resources,
                documents,
            ),
        )
    }

    /// The registry made of its ten parts: it holds what they hold, and it is
    /// fresh where every one of them is.
    pub fn assemble(
        counter: IdentifierCounter,
        admin: AdminRegistry,
        ports: EntityStore<Port>,
        users: EntityStore<User>,
        inspections: EntityStore<InspectionDetails>,
        traffic_reports: EntityStore<PortTrafficReport>,
        emergencies: EntityStore<EmergencyDetails>,
        maintenance: EntityStore<MaintenanceDetails>,
        resources: EntityStore<ResourceUpdate>,
        documents: EntityStore<DocumentDetails>,
    ) -> (r: Registry)
        ensures
            r@ == (State {
                next_id: counter@,
                admin: admin@,
                ports: ports@,
                users: users@,
                inspections: inspections@,
                traffic_reports: traffic_reports@,
                emergencies: emergencies@,
                maintenance: maintenance@,
                resources: resources@,
                documents: documents@,
            }),
            r.fresh() == (counter.fresh() && admin.fresh() && ports.fresh() && users.fresh()
                && inspections.fresh() && traffic_reports.fresh() && emergencies.fresh()
                && maintenance.fresh() && resources.fresh() && documents.fresh()),
    {
        let fresh = counter.is_fresh() && admin.is_fresh() && ports.is_fresh()
            && users.is_fresh() && inspections.is_fresh() && traffic_reports.is_fresh()
            && emergencies.is_fresh() && maintenance.is_fresh() && resources.is_fresh()
            && documents.is_fresh();
        Registry {
            counter,
            admin,
            ports,
            users,
            inspections,
            traffic_reports,
            emergencies,
            maintenance,
            resources,
            documents,
            fresh,
        }
    }

    /// Whether the registry was opened on a memory that nothing was ever
    /// written to: whether this was its first start.
    pub closed spec fn fresh(&self) -> bool {
        self.fresh
    }

    /// Tells whether the registry was opened on a memory that nothing was
    /// ever written to.
    pub fn is_fresh(&self) -> (b: bool)
        ensures
            b == self.fresh(),
    {
        self.fresh
    }

    /// Every port and every user is stored under its own identifier, so no
    /// two of a kind share one.
    pub proof fn lemma_identified(&self)
        ensures
            forall|id: u64| self@.ports.contains_key(id) ==> (#[trigger] self@.ports[id]).id == id,
            forall|id: u64|
                self@.users.contains_key(id) ==> (#[trigger] self@.users[id]).user_id == id,
    {
        self.ports.lemma_keys();
        self.users.lemma_keys();
    }

    /// The administrator's identity.
    pub fn get_admin(&self) -> (admin: AdminPrincipal)
        ensures
            admin@ == self@.admin,
    {
        self.admin.current()
    }

    /// The identifier that the next creation will issue.
    pub fn next_id(&self) -> (id: u64)
        ensures
            id == self@.next_id,
    {
        self.counter.peek()
    }

    /// Passes the administrator and fails with `Unauthorized` for anyone
    /// else.
    pub fn authorize(&self, caller: &[u8]) -> (r: Result<(), Error>)
        ensures
            r is Ok <==> model::is_admin(self@, caller@),
            r is Err ==> r == Err::<(), Error>(Error::Unauthorized),
    {
        self.admin.authorize(caller)
    }

    /// The port stored under `id`, if there is one.
    pub fn _get_port(&self, id: &u64) -> (r: Option<Port>)
        ensures
            r.is_some() == self@.ports.contains_key(*id),
            r is Some ==> r.unwrap()@ == self@.ports[*id],
            r is Some ==> record_fits::<Port>(r.unwrap()@) && r.unwrap().id == *id,
    {
        self.ports.get(*id)
    }

    /// The user stored under `user_id`, if there is one.
    pub fn _get_user(&self, user_id: &u64) -> (r: Option<User>)
        ensures
            r.is_some() == self@.users.contains_key(*user_id),
            r is Some ==> r.unwrap()@ == self@.users[*user_id],
            r is Some ==> record_fits::<User>(r.unwrap()@) && r.unwrap().user_id == *user_id,
    {
        self.users.get(*user_id)
    }

    /// Stores `port` under its identifier, in place of whatever was there.
    /// This is the bare write: it asks for no caller and issues no
    /// identifier.
    pub fn do_insert_port(&mut self, port: &Port)
        requires
            record_fits::<Port>(port@),
        ensures
            final(self)@ == model::with_port(old(self)@, port@),
    {
        self.ports.insert(port);
    }

    /// Stores `user` under its identifier, in place of whatever was there.
    /// This is the bare write: it issues no identifier and looks at no text.
    pub fn do_insert_user(&mut self, user: &User)
        requires
            record_fits::<User>(user@),
        ensures
            final(self)@ == model::with_user(old(self)@, user@),
    {
        self.users.insert(user);
    }

    /// The port stored under `id`, or `NotFound`.
    pub fn get_port(&self, id: u64) -> (r: Result<Port, Error>)
        ensures
            viewed(r) == model::get_port(self@, id),
    {
        match self._get_port(&id) {
            Some(port) => Ok(port),
            None => Err(Error::NotFound),
        }
    }

    /// The user stored under `user_id`, or `NotFound`.
    pub fn get_user(&self, user_id: u64) -> (r: Result<User, Error>)
        ensures
            viewed(r) == model::get_user(self@, user_id),
    {
        match self._get_user(&user_id) {
            Some(user) => Ok(user),
            None => Err(Error::NotFound),
        }
    }

    /// Every port, in ascending order of identifier.
    pub fn get_all_ports(&self) -> (r: Vec<Port>)
        ensures
            listing::<Port>(self@.ports, r@),
    {
        self.ports.list()
    }

    /// Every user, in ascending order of identifier.
    pub fn get_all_users(&self) -> (r: Vec<User>)
        ensures
            listing::<User>(self@.users, r@),
    {
        self.users.list()
    }

    /// Creates a port with no ships under the next identifier. Only the
    /// administrator may. Where the counter cannot be written the call fails
    /// with `StorageFault` and nothing has changed.
    pub fn add_port(&mut self, caller: &[u8], payload: PortPayload) -> (r: Result<Port, Error>)
        requires
            model::is_admin(old(self)@, caller@) ==> old(self)@.next_id < u64::MAX
                && port_fields_fit(payload@),
        ensures
            (final(self)@, viewed(r)) == model::add_port(old(self)@, caller@, payload@) || (
            model::is_admin(old(self)@, caller@) && r == Err::<Port, Error>(Error::StorageFault)
                && final(self)@ == old(self)@),
    {
        if self.admin.authorize(caller).is_err() {
            return Err(Error::Unauthorized);
        }
        let issued = self.counter.next();
        self.store_issued_port(issued, payload)
    }

    /// Finishes the creation of a port, given what the counter answered.
    /// Where it issued an identifier, the port made from `payload` is stored
    /// under it, with no ships, and returned. Where it failed, the failure is
    /// handed on and nothing changes.
    pub fn store_issued_port(&mut self, issued: Result<u64, Error>, payload: PortPayload) -> (r:
        Result<Port, Error>)
        requires
            issued is Ok ==> port_fields_fit(payload@),
        ensures
            match issued {
                Ok(id) => viewed(r) == Ok::<PortView, Error>(model::issued_port(id, payload@))
                    && final(self)@ == model::with_port(
                    old(self)@,
                    model::issued_port(id, payload@),
                ),
                Err(e) => r == Err::<Port, Error>(e) && final(self)@ == old(self)@,
            },
    {
        match issued {
            Ok(id) => {
                let port = Port {
                    id,
                    name: payload.name,
                    location: payload.location,
                    capacity: payload.capacity,
                    current_ships: 0,
                };
                proof {
                    lemma_port_fits(port@);
                }
                self.do_insert_port(&port);
                Ok(port)
            },
            Err(e) => Err(e),
        }
    }

    /// Replaces the name, the location and the capacity of the port stored
    /// under `id`. Only the administrator may.
    pub fn update_port(&mut self, caller: &[u8], id: u64, payload: PortPayload) -> (r: Result<
        Port,
        Error,
    >)
        requires
            model::is_admin(old(self)@, caller@) && old(self)@.ports.contains_key(id)
                ==> port_fields_fit(payload@),
        ensures
            (final(self)@, viewed(r)) == model::update_port(old(self)@, caller@, id, payload@),
    {
        if self.admin.authorize(caller).is_err() {
            return Err(Error::Unauthorized);
        }
        match self._get_port(&id) {
            Some(found) => {
                let port = Port {
                    id: found.id,
                    name: payload.name,
                    location: payload.location,
                    capacity: payload.capacity,
                    current_ships: found.current_ships,
                };
                proof {
                    lemma_port_fits(port@);
                }
                self.do_insert_port(&port);
                Ok(port)
            },
            None => Err(Error::NotFound),
        }
    }

    /// Removes the port stored under `id` and returns it. Only the
    /// administrator may.
    pub fn delete_port(&mut self, caller: &[u8], id: u64) -> (r: Result<Port, Error>)
        ensures
            (final(self)@, viewed(r)) == model::delete_port(old(self)@, caller@, id),
    {
        if self.admin.authorize(caller).is_err() {
            return Err(Error::Unauthorized);
        }
        let removed = self.ports.remove(id);
        proof {
            model::lemma_state_ext(
                self@,
                model::delete_port(old(self)@, caller@, id).0,
            );
        }
        match removed {
            Some(port) => Ok(port),
            None => Err(Error::NotFound),
        }
    }

    /// Counts `num_ships` more ships in the port stored under `port_id`. Only
    /// the administrator may.
    pub fn ships_arrival(&mut self, caller: &[u8], port_id: u64, num_ships: u32) -> (r: Result<
        (),
        Error,
    >)
        requires
            !model::arrival_overflows(old(self)@, caller@, port_id, num_ships),
        ensures
            (final(self)@, r) == model::ships_arrival(old(self)@, caller@, port_id, num_ships),
    {
        if self.admin.authorize(caller).is_err() {
            return Err(Error::Unauthorized);
        }
        match self._get_port(&port_id) {
            Some(found) => {
                let port = Port {
                    id: found.id,
                    name: found.name,
                    location: found.location,
                    capacity: found.capacity,
                    current_ships: found.current_ships + num_ships,
                };
                proof {
                    lemma_port_fits(found@);
                    lemma_port_fits(port@);
                }
                self.do_insert_port(&port);
                Ok(())
            },
            None => Err(Error::NotFound),
        }
    }

    /// Counts one more ship in the port stored under `port_id`. Only the
    /// administrator may.
    pub fn add_ship_to_port(&mut self, caller: &[u8], port_id: u64) -> (r: Result<(), Error>)
        requires
            !model::arrival_overflows(old(self)@, caller@, port_id, 1),
        ensures
            (final(self)@, r) == model::add_ship_to_port(old(self)@, caller@, port_id),
    {
        self.ships_arrival(caller, port_id, 1)
    }

    /// Moves `num_ships` ships from one port to another. Only the
    /// administrator may. Either both ports are written or neither is.
    pub fn transfer_ships_admin(
        &mut self,
        caller: &[u8],
        source_port_id: u64,
        destination_port_id: u64,
        num_ships: u32,
    ) -> (r: Result<(), Error>)
        requires
            !model::transfer_overflows(
                old(self)@,
                caller@,
                source_port_id,
                destination_port_id,
                num_ships,
            ),
        ensures
            (final(self)@, r) == model::transfer_ships(
                old(self)@,
                caller@,
                source_port_id,
                destination_port_id,
                num_ships,
            ),
    {
        if self.admin.authorize(caller).is_err() {
            return Err(Error::Unauthorized);
        }
        let source = match self._get_port(&source_port_id) {
            Some(port) => port,
            None => {
                return Err(Error::NotFound);
            },
        };
        if source.current_ships < num_ships {
            return Err(Error::InsufficientShips);
        }
        let destination = match self._get_port(&destination_port_id) {
            Some(port) => port,
            None => {
                return Err(Error::NotFound);
            },
        };
        let source_after = Port {
            id: source.id,
            name: source.name,
            location: source.location,
            capacity: source.capacity,
            current_ships: source.current_ships - num_ships,
        };
        let destination_after = Port {
            id: destination.id,
            name: destination.name,
            location: destination.location,
            capacity: destination.capacity,
            current_ships: destination.current_ships + num_ships,
        };
        proof {
            lemma_port_fits(source@);
            lemma_port_fits(source_after@);
            lemma_port_fits(destination@);
            lemma_port_fits(destination_after@);
        }
        self.do_insert_port(&source_after);
        self.do_insert_port(&destination_after);
        Ok(())
    }

    /// Creates a user under the next identifier, with its texts stored as
    /// given. Anyone may. Where the counter cannot be written the call fails
    /// with `StorageFault` and nothing has changed.
    pub fn add_user(&mut self, payload: UserPayload) -> (r: Result<User, Error>)
        requires
            model::user_fields_valid(payload@) ==> old(self)@.next_id < u64::MAX
                && user_fields_fit(payload@),
        ensures
            (final(self)@, viewed(r)) == model::add_user(old(self)@, payload@) || (
            model::user_fields_valid(payload@) && r == Err::<User, Error>(Error::StorageFault)
                && final(self)@ == old(self)@),
    {
        if blank(payload.username.as_str()) || blank(payload.email.as_str()) {
            return Err(Error::InvalidPayload);
        }
        let issued = self.counter.next();
        self.store_issued_user(issued, payload)
    }

    /// Finishes the creation of a user, given what the counter answered.
    /// Where it issued an identifier, the user made from `payload` is stored
    /// under it, with its texts as given, and returned. Where it failed, the
    /// failure is handed on and nothing changes.
    pub fn store_issued_user(&mut self, issued: Result<u64, Error>, payload: UserPayload) -> (r:
        Result<User, Error>)
        requires
            issued is Ok ==> user_fields_fit(payload@),
        ensures
            match issued {
                Ok(id) => viewed(r) == Ok::<UserView, Error>(model::issued_user(id, payload@))
                    && final(self)@ == model::with_user(
                    old(self)@,
                    model::issued_user(id, payload@),
                ),
                Err(e) => r == Err::<User, Error>(e) && final(self)@ == old(self)@,
            },
    {
        match issued {
            Ok(id) => {
                let user = User { user_id: id, username: payload.username, email: payload.email };
                proof {
                    lemma_user_fits(user@);
                }
                self.do_insert_user(&user);
                Ok(user)
            },
            Err(e) => Err(e),
        }
    }

    /// Replaces the texts of the user stored under `user_id`. Anyone may.
    pub fn update_user(&mut self, user_id: u64, payload: UserPayload) -> (r: Result<User, Error>)
        requires
            old(self)@.users.contains_key(user_id) && model::user_fields_valid(payload@)
                ==> user_fields_fit(payload@),
        ensures
            (final(self)@, viewed(r)) == model::update_user(old(self)@, user_id, payload@),
    {
        match self._get_user(&user_id) {
            Some(found) => {
                if blank(payload.username.as_str()) || blank(payload.email.as_str()) {
                    return Err(Error::InvalidPayload);
                }
                let user = User {
                    user_id: found.user_id,
                    username: payload.username,
                    email: payload.email,
                };
                proof {
                    lemma_user_fits(user@);
                }
                self.do_insert_user(&user);
                Ok(user)
            },
            None => Err(Error::NotFound),
        }
    }

    /// Removes the user stored under `user_id` and returns it. Anyone may.
    pub fn delete_user(&mut self, user_id: u64) -> (r: Result<User, Error>)
        ensures
            (final(self)@, viewed(r)) == model::delete_user(old(self)@, user_id),
    {
        let removed = self.users.remove(user_id);
        proof {
            model::lemma_state_ext(self@, model::delete_user(old(self)@, user_id).0);
        }
        match removed {
            Some(user) => Ok(user),
            None => Err(Error::NotFound),
        }
    }

    /// Logs an inspection of a ship in the port `port_id`, in place of an
    /// earlier inspection of that ship.
    pub fn log_ship_inspection(&mut self, port_id: u64, payload: InspectionPayload) -> (r: Result<
        (),
        Error,
    >)
        requires
            record_fits::<InspectionDetails>(payload.details(port_id)),
        ensures
            r is Ok,
            final(self)@ == model::log_ship_inspection(old(self)@, payload.details(port_id)),
    {
        let inspection = payload.into_details(port_id);
        self.inspections.insert(&inspection);
        Ok(())
    }

    /// Reports on the traffic of a port over a span of time and keeps the
    /// report, in place of an earlier report on that port.
    pub fn analyze_port_traffic(&mut self, payload: TrafficAnalysisPayload) -> (r: Result<
        PortTrafficReport,
        Error,
    >)
        ensures
            viewed(r) == Ok::<PortTrafficReportView, Error>(
                model::traffic_report(payload.port_id, payload.start_date, payload.end_date),
            ),
            final(self)@ == model::analyze_port_traffic(
                old(self)@,
                model::traffic_report(payload.port_id, payload.start_date, payload.end_date),
            ),
    {
        let report = PortTrafficReport {
            port_id: payload.port_id,
            start_date: payload.start_date,
            end_date: payload.end_date,
            total_arrivals: 0,
            total_departures: 0,
        };
        proof {
            assert(encode_utf8(Seq::<char>::empty()).len() == 0);
        }
        self.traffic_reports.insert(&report);
        Ok(report)
    }

    /// Records an emergency reported at the time `now`, in place of an
    /// earlier emergency at that port.
    pub fn dispatch_emergency_info(&mut self, payload: EmergencyDispatchPayload, now: u64) -> (r:
        Result<(), Error>)
        requires
            record_fits::<EmergencyDetails>(payload.details(now)),
        ensures
            r is Ok,
            final(self)@ == model::dispatch_emergency_info(old(self)@, payload.details(now)),
    {
        if !check_port_exists(payload.port_id) {
            return Err(Error::NotFound);
        }
        let emergency = payload.into_details(now);
        self.emergencies.insert(&emergency);
        Ok(())
    }

    /// Logs a maintenance at the time `now`, which becomes its number.
    pub fn log_maintenance_activity(&mut self, payload: MaintenanceLogPayload, now: u64) -> (r:
        Result<(), Error>)
        requires
            record_fits::<MaintenanceDetails>(payload.details(now)),
        ensures
            r is Ok,
            final(self)@ == model::log_maintenance_activity(old(self)@, payload.details(now)),
    {
        let maintenance = payload.into_details(now);
        self.maintenance.insert(&maintenance);
        Ok(())
    }

    /// Records at the time `now` whether a resource is available, in place
    /// of an earlier report on that resource.
    pub fn update_port_resources(&mut self, payload: ResourceUpdatePayload, now: u64) -> (r:
        Result<(), Error>)
        requires
            record_fits::<ResourceUpdate>(payload.details(now)),
        ensures
            r is Ok,
            final(self)@ == model::update_port_resources(old(self)@, payload.details(now)),
    {
        let update = payload.into_details(now);
        self.resources.insert(&update);
        Ok(())
    }

    /// Logs a customs document at the time `now`, which becomes its number.
    pub fn log_customs_documents(&mut self, payload: DocumentLogPayload, now: u64) -> (r: Result<
        (),
        Error,
    >)
        requires
            record_fits::<DocumentDetails>(payload.details(now)),
        ensures
            r is Ok,
            final(self)@ == model::log_customs_documents(old(self)@, payload.details(now)),
    {
        let document = payload.into_details(now);
        self.documents.insert(&document);
        Ok(())
    }
}

} // verus!
