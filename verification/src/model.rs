//! What the registry holds and what each operation makes of it, as plain
//! mathematics. The operations of the registry are proved to do what is
//! written here.
use crate::error::Error;
use crate::identity::principal_of_text;
use crate::logs::{
    DocumentDetailsView, EmergencyDetailsView, InspectionDetailsView, MaintenanceDetailsView,
    PortTrafficReportView, ResourceUpdateView,
};
use crate::text::is_blank;
use crate::types::{PortFields, PortView, UserFields, UserView};
use vstd::prelude::*;

verus! {

/// Everything that the registry holds.
pub struct State {
    /// The identifier that will be issued next.
    pub next_id: u64,
    /// The administrator's identity, as text.
    pub admin: Seq<char>,
    pub ports: Map<u64, PortView>,
    pub users: Map<u64, UserView>,
    pub inspections: Map<u64, InspectionDetailsView>,
    pub traffic_reports: Map<u64, PortTrafficReportView>,
    pub emergencies: Map<u64, EmergencyDetailsView>,
    pub maintenance: Map<u64, MaintenanceDetailsView>,
    pub resources: Map<u64, ResourceUpdateView>,
    pub documents: Map<u64, DocumentDetailsView>,
}

/// The state of a registry that has just been made for the administrator
/// `admin`: no record of any kind, and 0 as the next identifier.
pub open spec fn initial(admin: Seq<char>) -> State {
    State {
        next_id: 0,
        admin,
        ports: Map::empty(),
        users: Map::empty(),
        inspections: Map::empty(),
        traffic_reports: Map::empty(),
        emergencies: Map::empty(),
        maintenance: Map::empty(),
        resources: Map::empty(),
        documents: Map::empty(),
    }
}

/// Whether every port and every user is stored under an identifier that the
/// counter has passed. It holds of a registry whose ports and users were all
/// made by creations; the bare writes can break it.
pub open spec fn all_issued(s: State) -> bool {
    &&& forall|id: u64| s.ports.contains_key(id) ==> id < s.next_id
    &&& forall|id: u64| s.users.contains_key(id) ==> id < s.next_id
}

/// Two states that hold the same are the same.
pub proof fn lemma_state_ext(a: State, b: State)
    requires
        a.next_id == b.next_id,
        a.admin =~= b.admin,
        a.ports =~= b.ports,
        a.users =~= b.users,
        a.inspections =~= b.inspections,
        a.traffic_reports =~= b.traffic_reports,
        a.emergencies =~= b.emergencies,
        a.maintenance =~= b.maintenance,
        a.resources =~= b.resources,
        a.documents =~= b.documents,
    ensures
        a == b,
{
}

/// Whether the caller with the bytes `caller` is the administrator: whether
/// the stored identity spells a principal and that principal is the caller.
pub open spec fn is_admin(s: State, caller: Seq<u8>) -> bool {
    principal_of_text(s.admin) == Some(caller)
}

/// Whether the fields of a user are acceptable: neither text is blank.
pub open spec fn user_fields_valid(fields: UserFields) -> bool {
    !is_blank(fields.username) && !is_blank(fields.email)
}

pub open spec fn get_port(s: State, id: u64) -> Result<PortView, Error> {
    if s.ports.contains_key(id) {
        Ok(s.ports[id])
    } else {
        Err(Error::NotFound)
    }
}

pub open spec fn get_user(s: State, id: u64) -> Result<UserView, Error> {
    if s.users.contains_key(id) {
        Ok(s.users[id])
    } else {
        Err(Error::NotFound)
    }
}

/// The port that is made from `fields` once the identifier `id` has been
/// issued for it: it has no ships yet.
pub open spec fn issued_port(id: u64, fields: PortFields) -> PortView {
    PortView {
        id,
        name: fields.name,
        location: fields.location,
        capacity: fields.capacity,
        current_ships: 0,
    }
}

/// A state with `port` stored under its identifier, in place of whatever was
/// there.
pub open spec fn with_port(s: State, port: PortView) -> State {
    State { ports: s.ports.insert(port.id, port), ..s }
}

/// A state with `user` stored under its identifier, in place of whatever was
/// there.
pub open spec fn with_user(s: State, user: UserView) -> State {
    State { users: s.users.insert(user.user_id, user), ..s }
}

/// The port that a creation with `fields` makes in state `s`.
pub open spec fn new_port(s: State, fields: PortFields) -> PortView {
    issued_port(s.next_id, fields)
}

/// Creation of a port: the administrator gets a port with the next
/// identifier and no ships; anyone else changes nothing.
pub open spec fn add_port(s: State, caller: Seq<u8>, fields: PortFields) -> (State, Result<
    PortView,
    Error,
>) {
    if !is_admin(s, caller) {
        (s, Err(Error::Unauthorized))
    } else {
        let port = new_port(s, fields);
        (
            State { next_id: (s.next_id + 1) as u64, ports: s.ports.insert(port.id, port), ..s },
            Ok(port),
        )
    }
}

/// A port with its descriptive fields replaced; its identifier and its
/// ships stay.
pub open spec fn revised_port(port: PortView, fields: PortFields) -> PortView {
    PortView {
        name: fields.name,
        location: fields.location,
        capacity: fields.capacity,
        ..port
    }
}

pub open spec fn update_port(s: State, caller: Seq<u8>, id: u64, fields: PortFields) -> (
    State,
    Result<PortView, Error>,
) {
    if !is_admin(s, caller) {
        (s, Err(Error::Unauthorized))
    } else if !s.ports.contains_key(id) {
        (s, Err(Error::NotFound))
    } else {
        let port = revised_port(s.ports[id], fields);
        (State { ports: s.ports.insert(id, port), ..s }, Ok(port))
    }
}

pub open spec fn delete_port(s: State, caller: Seq<u8>, id: u64) -> (State, Result<
    PortView,
    Error,
>) {
    if !is_admin(s, caller) {
        (s, Err(Error::Unauthorized))
    } else if !s.ports.contains_key(id) {
        (s, Err(Error::NotFound))
    } else {
        (State { ports: s.ports.remove(id), ..s }, Ok(s.ports[id]))
    }
}

/// A port with `n` more ships.
pub open spec fn with_arrivals(port: PortView, n: u32) -> PortView {
    PortView { current_ships: (port.current_ships + n) as u32, ..port }
}

/// A port with `n` fewer ships.
pub open spec fn with_departures(port: PortView, n: u32) -> PortView {
    PortView { current_ships: (port.current_ships - n) as u32, ..port }
}

/// Whether `n` ships arriving at port `id` reach the point where the count
/// is raised, and raise it past what a count can hold.
pub open spec fn arrival_overflows(s: State, caller: Seq<u8>, id: u64, n: u32) -> bool {
    is_admin(s, caller) && s.ports.contains_key(id) && s.ports[id].current_ships + n > u32::MAX
}

pub open spec fn ships_arrival(s: State, caller: Seq<u8>, id: u64, n: u32) -> (State, Result<
    (),
    Error,
>) {
    if !is_admin(s, caller) {
        (s, Err(Error::Unauthorized))
    } else if !s.ports.contains_key(id) {
        (s, Err(Error::NotFound))
    } else {
        (State { ports: s.ports.insert(id, with_arrivals(s.ports[id], n)), ..s }, Ok(()))
    }
}

pub open spec fn add_ship_to_port(s: State, caller: Seq<u8>, id: u64) -> (State, Result<
    (),
    Error,
>) {
    ships_arrival(s, caller, id, 1)
}

/// Whether a transfer reaches the point where the destination's count is
/// raised, and raises it past what a count can hold.
pub open spec fn transfer_overflows(
    s: State,
    caller: Seq<u8>,
    source: u64,
    destination: u64,
    n: u32,
) -> bool {
    is_admin(s, caller) && s.ports.contains_key(source) && s.ports[source].current_ships >= n
        && s.ports.contains_key(destination) && s.ports[destination].current_ships + n
        > u32::MAX
}

/// The transfer of `n` ships. The checks come in this order: the caller, the
/// source, the source's ships, the destination. Both ports are read before
/// either is written, and the destination is written last: a transfer from a
/// port to itself leaves that port with `n` more ships.
pub open spec fn transfer_ships(
    s: State,
    caller: Seq<u8>,
    source: u64,
    destination: u64,
    n: u32,
) -> (State, Result<(), Error>) {
    if !is_admin(s, caller) {
        (s, Err(Error::Unauthorized))
    } else if !s.ports.contains_key(source) {
        (s, Err(Error::NotFound))
    } else if s.ports[source].current_ships < n {
        (s, Err(Error::InsufficientShips))
    } else if !s.ports.contains_key(destination) {
        (s, Err(Error::NotFound))
    } else {
        let ports = s.ports.insert(source, with_departures(s.ports[source], n)).insert(
            destination,
            with_arrivals(s.ports[destination], n),
        );
        (State { ports, ..s }, Ok(()))
    }
}

/// The user that is made from `fields` once the identifier `id` has been
/// issued for it.
pub open spec fn issued_user(id: u64, fields: UserFields) -> UserView {
    UserView { user_id: id, username: fields.username, email: fields.email }
}

/// The user that a creation with `fields` makes in state `s`.
pub open spec fn new_user(s: State, fields: UserFields) -> UserView {
    issued_user(s.next_id, fields)
}

/// Creation of a user: stored as given, untrimmed, under the next identifier.
pub open spec fn add_user(s: State, fields: UserFields) -> (State, Result<UserView, Error>) {
    if !user_fields_valid(fields) {
        (s, Err(Error::InvalidPayload))
    } else {
        let user = new_user(s, fields);
        (
            State {
                next_id: (s.next_id + 1) as u64,
                users: s.users.insert(user.user_id, user),
                ..s
            },
            Ok(user),
        )
    }
}

pub open spec fn update_user(s: State, id: u64, fields: UserFields) -> (State, Result<
    UserView,
    Error,
>) {
    if !s.users.contains_key(id) {
        (s, Err(Error::NotFound))
    } else if !user_fields_valid(fields) {
        (s, Err(Error::InvalidPayload))
    } else {
        let user = UserView { user_id: id, username: fields.username, email: fields.email };
        (State { users: s.users.insert(id, user), ..s }, Ok(user))
    }
}

pub open spec fn delete_user(s: State, id: u64) -> (State, Result<UserView, Error>) {
    if !s.users.contains_key(id) {
        (s, Err(Error::NotFound))
    } else {
        (State { users: s.users.remove(id), ..s }, Ok(s.users[id]))
    }
}

/// Logging an inspection: stored under the ship, in place of an earlier one.
pub open spec fn log_ship_inspection(s: State, details: InspectionDetailsView) -> State {
    State { inspections: s.inspections.insert(details.ship_id, details), ..s }
}

/// The traffic report for a port over a span of time. No movements are
/// recorded, so the report counts none.
pub open spec fn traffic_report(port_id: u64, start_date: u64, end_date: u64)
    -> PortTrafficReportView {
    PortTrafficReportView {
        port_id,
        start_date,
        end_date,
        total_arrivals: 0,
        total_departures: 0,
    }
}

/// Analysing a port's traffic: the report is stored under the port, in place
/// of an earlier one.
pub open spec fn analyze_port_traffic(s: State, report: PortTrafficReportView) -> State {
    State { traffic_reports: s.traffic_reports.insert(report.port_id, report), ..s }
}

/// Reporting an emergency: stored under the port, in place of an earlier one.
pub open spec fn dispatch_emergency_info(s: State, details: EmergencyDetailsView) -> State {
    State { emergencies: s.emergencies.insert(details.port_id, details), ..s }
}

/// Logging a maintenance: stored under its own number.
pub open spec fn log_maintenance_activity(s: State, details: MaintenanceDetailsView) -> State {
    State { maintenance: s.maintenance.insert(details.maintenance_id, details), ..s }
}

/// Reporting on a resource: stored under the resource, in place of an
/// earlier report.
pub open spec fn update_port_resources(s: State, update: ResourceUpdateView) -> State {
    State { resources: s.resources.insert(update.resource_id, update), ..s }
}

/// Logging a customs document: stored under its own number.
pub open spec fn log_customs_documents(s: State, details: DocumentDetailsView) -> State {
    State { documents: s.documents.insert(details.document_id, details), ..s }
}

} // verus!
