//! What holds of the registry's operations, whatever state they start from.
use crate::error::Error;
use crate::model::{
    add_port, add_ship_to_port, add_user, all_issued, delete_port, delete_user, get_port,
    get_user, initial, is_admin, ships_arrival, transfer_overflows, transfer_ships, update_port,
    update_user, user_fields_valid, State,
};
use crate::types::{PortFields, PortView, UserFields, UserView};
use vstd::prelude::*;

verus! {

/// A request to create a record.
pub enum Creation {
    Port { caller: Seq<u8>, fields: PortFields },
    User { fields: UserFields },
}

/// The state after one creation, and the identifier it issued, if it issued
/// one.
pub open spec fn create(s: State, request: Creation) -> (State, Option<u64>) {
    match request {
        Creation::Port { caller, fields } => {
            let (after, r) = add_port(s, caller, fields);
            (
                after,
                match r {
                    Ok(port) => Some(port.id),
                    Err(_) => None,
                },
            )
        },
        Creation::User { fields } => {
            let (after, r) = add_user(s, fields);
            (
                after,
                match r {
                    Ok(user) => Some(user.user_id),
                    Err(_) => None,
                },
            )
        },
    }
}

/// The state after a run of creations, and the identifiers they issued, in
/// the order of issue.
pub open spec fn create_all(s: State, requests: Seq<Creation>) -> (State, Seq<u64>)
    decreases requests.len(),
{
    if requests.len() == 0 {
        (s, Seq::empty())
    } else {
        let (before, ids) = create_all(s, requests.drop_last());
        let (after, id) = create(before, requests.last());
        (
            after,
            match id {
                Some(id) => ids.push(id),
                None => ids,
            },
        )
    }
}

/// A port that the administrator creates gets the identifier that was next,
/// the counter moves past it, and the port is found under that identifier
/// as it was returned.
pub proof fn law_created_port_is_found(s: State, caller: Seq<u8>, fields: PortFields)
    requires
        is_admin(s, caller),
        s.next_id < u64::MAX,
    ensures
        ({
            let (after, r) = add_port(s, caller, fields);
            &&& r is Ok
            &&& r.unwrap().id == s.next_id
            &&& after.next_id == s.next_id + 1
            &&& get_port(after, r.unwrap().id) == r
        }),
{
}

/// A user created from acceptable fields gets the identifier that was next,
/// the counter moves past it, and the user is found under that identifier as
/// it was returned, with its texts as they were given.
pub proof fn law_created_user_is_found(s: State, fields: UserFields)
    requires
        user_fields_valid(fields),
        s.next_id < u64::MAX,
    ensures
        ({
            let (after, r) = add_user(s, fields);
            &&& r is Ok
            &&& r.unwrap().user_id == s.next_id
            &&& r.unwrap().username == fields.username
            &&& r.unwrap().email == fields.email
            &&& after.next_id == s.next_id + 1
            &&& get_user(after, r.unwrap().user_id) == r
        }),
{
}

/// A registry that has just been made holds nothing under an identifier
/// that was not issued.
pub proof fn law_initial_all_issued(admin: Seq<char>)
    ensures
        all_issued(initial(admin)),
{
}

/// In a registry whose records all lie under identifiers that the counter
/// has passed, a created port gets an identifier under which neither a port
/// nor a user is stored.
pub proof fn law_created_port_is_new(s: State, caller: Seq<u8>, fields: PortFields)
    requires
        all_issued(s),
        is_admin(s, caller),
        s.next_id < u64::MAX,
    ensures
        ({
            let (after, r) = add_port(s, caller, fields);
            &&& r is Ok
            &&& !s.ports.contains_key(r.unwrap().id)
            &&& !s.users.contains_key(r.unwrap().id)
            &&& after.ports.dom() == s.ports.dom().insert(r.unwrap().id)
            &&& all_issued(after)
        }),
{
    let (after, r) = add_port(s, caller, fields);
    assert(after.ports.dom() =~= s.ports.dom().insert(r.unwrap().id));
}

/// In a registry whose records all lie under identifiers that the counter
/// has passed, a created user gets an identifier under which neither a user
/// nor a port is stored.
pub proof fn law_created_user_is_new(s: State, fields: UserFields)
    requires
        all_issued(s),
        user_fields_valid(fields),
        s.next_id < u64::MAX,
    ensures
        ({
            let (after, r) = add_user(s, fields);
            &&& r is Ok
            &&& !s.users.contains_key(r.unwrap().user_id)
            &&& !s.ports.contains_key(r.unwrap().user_id)
            &&& after.users.dom() == s.users.dom().insert(r.unwrap().user_id)
            &&& all_issued(after)
        }),
{
    let (after, r) = add_user(s, fields);
    assert(after.users.dom() =~= s.users.dom().insert(r.unwrap().user_id));
}

/// No operation on ports or users stores a record under an identifier that
/// the counter has not passed: what holds of a registry just made holds
/// after every one of them.
pub proof fn law_all_issued_stays(
    s: State,
    caller: Seq<u8>,
    id: u64,
    other: u64,
    n: u32,
    port: PortFields,
    user: UserFields,
)
    requires
        all_issued(s),
    ensures
        s.next_id < u64::MAX ==> all_issued(add_port(s, caller, port).0),
        s.next_id < u64::MAX ==> all_issued(add_user(s, user).0),
        all_issued(update_port(s, caller, id, port).0),
        all_issued(delete_port(s, caller, id).0),
        all_issued(add_ship_to_port(s, caller, id).0),
        all_issued(ships_arrival(s, caller, id, n).0),
        all_issued(transfer_ships(s, caller, id, other, n).0),
        all_issued(update_user(s, id, user).0),
        all_issued(delete_user(s, id).0),
{
}

/// A user whose name or whose address is blank is refused, and nothing
/// changes.
pub proof fn law_blank_user_is_refused(s: State, fields: UserFields)
    requires
        !user_fields_valid(fields),
    ensures
        add_user(s, fields) == (s, Err::<UserView, Error>(Error::InvalidPayload)),
{
}

/// The identifiers that a run of creations issues are at or past the counter
/// it started from, below the counter it ends at, and strictly increasing:
/// no identifier is issued twice.
pub proof fn law_identifiers_increase(s: State, requests: Seq<Creation>)
    requires
        s.next_id + requests.len() <= u64::MAX,
    ensures
        ({
            let (after, ids) = create_all(s, requests);
            &&& s.next_id <= after.next_id <= s.next_id + requests.len()
            &&& ids.len() == after.next_id - s.next_id
            &&& forall|i: int| 0 <= i < ids.len() ==> #[trigger] ids[i] == s.next_id + i
            &&& forall|i: int, j: int| 0 <= i < j < ids.len() ==> ids[i] < ids[j]
        }),
    decreases requests.len(),
{
    if requests.len() > 0 {
        law_identifiers_increase(s, requests.drop_last());
    }
}

/// One creation for each request that succeeds: a run of creations that all
/// succeed issues as many identifiers as there are requests.
pub proof fn law_identifiers_count(s: State, requests: Seq<Creation>)
    requires
        s.next_id + requests.len() <= u64::MAX,
        forall|i: int|
            0 <= i < requests.len() ==> match #[trigger] requests[i] {
                Creation::Port { caller, fields } => is_admin(s, caller),
                Creation::User { fields } => user_fields_valid(fields),
            },
    ensures
        create_all(s, requests).1.len() == requests.len(),
        create_all(s, requests).0.admin == s.admin,
    decreases requests.len(),
{
    if requests.len() > 0 {
        let front = requests.drop_last();
        assert forall|i: int| 0 <= i < front.len() implies match #[trigger] front[i] {
            Creation::Port { caller, fields } => is_admin(s, caller),
            Creation::User { fields } => user_fields_valid(fields),
        } by {
            assert(front[i] == requests[i]);
        }
        law_identifiers_count(s, front);
        law_identifiers_increase(s, front);
        assert(requests.last() == requests[requests.len() - 1]);
    }
}

/// Whoever is not the administrator is refused by every gated operation,
/// and nothing changes.
pub proof fn law_gate(
    s: State,
    caller: Seq<u8>,
    id: u64,
    other: u64,
    n: u32,
    fields: PortFields,
)
    requires
        !is_admin(s, caller),
    ensures
        add_port(s, caller, fields) == (s, Err::<PortView, Error>(Error::Unauthorized)),
        update_port(s, caller, id, fields) == (s, Err::<PortView, Error>(Error::Unauthorized)),
        delete_port(s, caller, id) == (s, Err::<PortView, Error>(Error::Unauthorized)),
        add_ship_to_port(s, caller, id) == (s, Err::<(), Error>(Error::Unauthorized)),
        ships_arrival(s, caller, id, n) == (s, Err::<(), Error>(Error::Unauthorized)),
        transfer_ships(s, caller, id, other, n) == (s, Err::<(), Error>(Error::Unauthorized)),
{
}

/// A transfer between two different ports takes the ships from the one
/// and gives them to the other: the two counts together stay what they were,
/// and nothing else changes.
pub proof fn law_transfer_moves_ships(
    s: State,
    caller: Seq<u8>,
    source: u64,
    destination: u64,
    n: u32,
)
    requires
        is_admin(s, caller),
        source != destination,
        s.ports.contains_key(source),
        s.ports.contains_key(destination),
        s.ports[source].current_ships >= n,
        s.ports[destination].current_ships + n <= u32::MAX,
    ensures
        ({
            let (after, r) = transfer_ships(s, caller, source, destination, n);
            &&& r is Ok
            &&& after.ports.dom() == s.ports.dom()
            &&& after.ports[source].current_ships == s.ports[source].current_ships - n
            &&& after.ports[destination].current_ships == s.ports[destination].current_ships
                + n
            &&& after.ports[source].current_ships + after.ports[destination].current_ships
                == s.ports[source].current_ships + s.ports[destination].current_ships
            &&& forall|id: u64|
                id != source && id != destination && s.ports.contains_key(id)
                    ==> #[trigger] after.ports[id] == s.ports[id]
            &&& after == (State { ports: after.ports, ..s })
        }),
{
    let (after, r) = transfer_ships(s, caller, source, destination, n);
    assert(after.ports.dom() =~= s.ports.dom());
}

/// A transfer between two different ports is whole, whatever the state and
/// whoever calls: either it succeeds and then the source has `n` ships fewer,
/// the destination `n` more and no other port has changed, or it fails and
/// then nothing has changed. Left out is only the transfer that would take
/// the destination's count past what a count can hold.
pub proof fn law_transfer_is_whole(
    s: State,
    caller: Seq<u8>,
    source: u64,
    destination: u64,
    n: u32,
)
    requires
        source != destination,
        !transfer_overflows(s, caller, source, destination, n),
    ensures
        ({
            let (after, r) = transfer_ships(s, caller, source, destination, n);
            match r {
                Ok(_) => {
                    &&& s.ports.contains_key(source) && s.ports.contains_key(destination)
                    &&& after.ports.dom() == s.ports.dom()
                    &&& after.ports[source].current_ships == s.ports[source].current_ships - n
                    &&& after.ports[destination].current_ships
                        == s.ports[destination].current_ships + n
                    &&& forall|id: u64|
                        id != source && id != destination && s.ports.contains_key(id)
                            ==> #[trigger] after.ports[id] == s.ports[id]
                    &&& after == (State { ports: after.ports, ..s })
                },
                Err(_) => after == s,
            }
        }),
{
    let (after, r) = transfer_ships(s, caller, source, destination, n);
    if r is Ok {
        assert(after.ports.dom() =~= s.ports.dom());
    }
}

/// A transfer of more ships than the source holds is refused as
/// insufficient, and nothing changes.
pub proof fn law_transfer_insufficient(
    s: State,
    caller: Seq<u8>,
    source: u64,
    destination: u64,
    n: u32,
)
    requires
        is_admin(s, caller),
        s.ports.contains_key(source),
        n > s.ports[source].current_ships,
    ensures
        transfer_ships(s, caller, source, destination, n) == (
            s,
            Err::<(), Error>(Error::InsufficientShips),
        ),
{
}

/// No transfer leaves one port written and the other not: a transfer that
/// fails changes nothing.
pub proof fn law_transfer_all_or_nothing(
    s: State,
    caller: Seq<u8>,
    source: u64,
    destination: u64,
    n: u32,
)
    ensures
        transfer_ships(s, caller, source, destination, n).1 is Err ==> transfer_ships(
            s,
            caller,
            source,
            destination,
            n,
        ).0 == s,
{
}

/// The administrator's update or removal of a port that is not there fails
/// with `NotFound`, and nothing changes.
pub proof fn law_absent_port(s: State, caller: Seq<u8>, id: u64, fields: PortFields)
    requires
        is_admin(s, caller),
        !s.ports.contains_key(id),
    ensures
        update_port(s, caller, id, fields) == (s, Err::<PortView, Error>(Error::NotFound)),
        delete_port(s, caller, id) == (s, Err::<PortView, Error>(Error::NotFound)),
{
}

/// The update or removal of a user that is not there fails with `NotFound`,
/// and nothing changes.
pub proof fn law_absent_user(s: State, id: u64, fields: UserFields)
    requires
        !s.users.contains_key(id),
    ensures
        update_user(s, id, fields) == (s, Err::<UserView, Error>(Error::NotFound)),
        delete_user(s, id) == (s, Err::<UserView, Error>(Error::NotFound)),
{
}

/// After the administrator's update of a port, the port found under the
/// identifier has the fields that were given, and the identifier and the
/// ships that it had before.
pub proof fn law_updated_port_is_found(s: State, caller: Seq<u8>, id: u64, fields: PortFields)
    requires
        is_admin(s, caller),
        s.ports.contains_key(id),
    ensures
        ({
            let (after, r) = update_port(s, caller, id, fields);
            &&& r is Ok
            &&& get_port(after, id) == r
            &&& r.unwrap() == (PortView {
                id: s.ports[id].id,
                name: fields.name,
                location: fields.location,
                capacity: fields.capacity,
                current_ships: s.ports[id].current_ships,
            })
        }),
{
}

/// No operation on ports or users changes the administrator's identity.
pub proof fn law_admin_stays(
    s: State,
    caller: Seq<u8>,
    id: u64,
    other: u64,
    n: u32,
    port: PortFields,
    user: UserFields,
)
    ensures
        add_port(s, caller, port).0.admin == s.admin,
        update_port(s, caller, id, port).0.admin == s.admin,
        delete_port(s, caller, id).0.admin == s.admin,
        add_ship_to_port(s, caller, id).0.admin == s.admin,
        ships_arrival(s, caller, id, n).0.admin == s.admin,
        transfer_ships(s, caller, id, other, n).0.admin == s.admin,
        add_user(s, user).0.admin == s.admin,
        update_user(s, id, user).0.admin == s.admin,
        delete_user(s, id).0.admin == s.admin,
{
}

} // verus!
