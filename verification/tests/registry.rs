use port_registry::error::Error;
use port_registry::registry::{check_port_exists, Registry};
use port_registry::types::{AdminPrincipal, Port, PortPayload, User, UserPayload};

const ADMIN_TEXT: &str = "2vxsx-fae";
const ADMIN: [u8; 1] = [4];
const OTHER: [u8; 2] = [1, 2];

fn fresh() -> Registry {
    Registry::init(AdminPrincipal(ADMIN_TEXT.to_string())).unwrap()
}

fn port_payload(name: &str, location: &str, capacity: u32) -> PortPayload {
    PortPayload { name: name.to_string(), location: location.to_string(), capacity }
}

fn user_payload(username: &str, email: &str) -> UserPayload {
    UserPayload { username: username.to_string(), email: email.to_string() }
}

fn port_with_ships(reg: &mut Registry, name: &str, ships: u32) -> u64 {
    let port = reg.add_port(&ADMIN, port_payload(name, "somewhere", 100)).unwrap();
    if ships > 0 {
        reg.ships_arrival(&ADMIN, port.id, ships).unwrap();
    }
    port.id
}

#[test]
fn a_fresh_registry_is_empty_and_starts_at_zero() {
    let reg = fresh();
    assert!(reg.is_fresh());
    assert_eq!(reg.next_id(), 0);
    assert!(reg.get_all_ports().is_empty());
    assert!(reg.get_all_users().is_empty());
    assert_eq!(reg.get_port(0), Err(Error::NotFound));
    assert_eq!(reg.get_user(0), Err(Error::NotFound));
}

#[test]
fn a_first_start_holds_no_record_of_any_number() {
    let reg = fresh();
    assert!(reg.is_fresh());
    for id in [0, 1, 2, 9, 255, u64::MAX] {
        assert_eq!(reg.get_port(id), Err(Error::NotFound));
        assert_eq!(reg.get_user(id), Err(Error::NotFound));
        assert_eq!(reg._get_port(&id), None);
        assert_eq!(reg._get_user(&id), None);
    }
}

#[test]
fn a_first_start_takes_the_administrator_as_given() {
    for text in ["2vxsx-fae", "aaaaa-aa", "", "no principal at all"] {
        let reg = Registry::init(AdminPrincipal(text.to_string())).unwrap();
        assert!(reg.is_fresh());
        assert_eq!(reg.get_admin(), AdminPrincipal(text.to_string()));
        assert_eq!(reg.next_id(), 0);
    }
}

#[test]
fn get_admin_returns_the_identity_given_at_first_start() {
    let reg = fresh();
    assert_eq!(reg.get_admin(), AdminPrincipal(ADMIN_TEXT.to_string()));
}

#[test]
fn authorize_passes_the_administrator_only() {
    let reg = fresh();
    assert_eq!(reg.authorize(&ADMIN), Ok(()));
    assert_eq!(reg.authorize(&OTHER), Err(Error::Unauthorized));
    assert_eq!(reg.authorize(&[]), Err(Error::Unauthorized));
}

#[test]
fn authorize_compares_the_principal_not_its_text() {
    let reg = fresh();
    assert_eq!(reg.authorize(ADMIN_TEXT.as_bytes()), Err(Error::Unauthorized));
}

#[test]
fn authorize_reads_the_identity_without_regard_to_case() {
    let reg = Registry::init(AdminPrincipal("2VXSX-FAE".to_string())).unwrap();
    assert_eq!(reg.authorize(&ADMIN), Ok(()));
}

#[test]
fn authorize_knows_the_principal_of_no_bytes() {
    let reg = Registry::init(AdminPrincipal("aaaaa-aa".to_string())).unwrap();
    assert_eq!(reg.authorize(&[]), Ok(()));
    assert_eq!(reg.authorize(&ADMIN), Err(Error::Unauthorized));
}

#[test]
fn authorize_agrees_with_the_principal_of_a_text() {
    let principal = candid::Principal::from_slice(&[9, 8, 7, 6, 5, 4, 3, 2, 1]);
    let reg = Registry::init(AdminPrincipal(principal.to_text())).unwrap();
    assert_eq!(reg.authorize(principal.as_slice()), Ok(()));
    assert_eq!(reg.authorize(&[9, 8, 7, 6, 5, 4, 3, 2]), Err(Error::Unauthorized));
}

#[test]
fn nobody_is_administrator_where_the_identity_is_no_principal() {
    for text in ["", "not a principal", "2vxsx-fa", "2vxsxfae", "aaaaa-ab"] {
        let mut reg = Registry::init(AdminPrincipal(text.to_string())).unwrap();
        assert_eq!(reg.authorize(&ADMIN), Err(Error::Unauthorized));
        assert_eq!(reg.authorize(&[]), Err(Error::Unauthorized));
        assert_eq!(reg.authorize(text.as_bytes()), Err(Error::Unauthorized));
        assert_eq!(reg.add_port(&ADMIN, port_payload("a", "b", 1)), Err(Error::Unauthorized));
    }
}

#[test]
fn add_port_returns_a_port_without_ships_that_get_port_finds() {
    let mut reg = fresh();
    let port = reg.add_port(&ADMIN, port_payload("Hamburg", "Elbe", 12)).unwrap();
    assert_eq!(
        port,
        Port {
            id: 0,
            name: "Hamburg".to_string(),
            location: "Elbe".to_string(),
            capacity: 12,
            current_ships: 0,
        }
    );
    assert_eq!(reg.get_port(0), Ok(port));
    assert_eq!(reg.next_id(), 1);
}

#[test]
fn creations_issue_increasing_identifiers_across_kinds() {
    let mut reg = fresh();
    let mut issued: Vec<u64> = Vec::new();
    for i in 0..20u32 {
        if i % 3 == 0 {
            issued.push(reg.add_user(user_payload("u", "u@x")).unwrap().user_id);
        } else {
            issued.push(reg.add_port(&ADMIN, port_payload("p", "l", i)).unwrap().id);
        }
    }
    let expected: Vec<u64> = (0..20).collect();
    assert_eq!(issued, expected);
    assert_eq!(reg.next_id(), 20);
}

#[test]
fn a_refused_creation_issues_no_identifier() {
    let mut reg = fresh();
    assert_eq!(reg.add_port(&OTHER, port_payload("p", "l", 1)), Err(Error::Unauthorized));
    assert_eq!(reg.add_user(user_payload("", "a@b.com")), Err(Error::InvalidPayload));
    assert_eq!(reg.next_id(), 0);
    assert_eq!(reg.add_port(&ADMIN, port_payload("p", "l", 1)).unwrap().id, 0);
}

#[test]
fn a_deleted_identifier_is_not_issued_again() {
    let mut reg = fresh();
    let first = reg.add_port(&ADMIN, port_payload("p", "l", 1)).unwrap();
    reg.delete_port(&ADMIN, first.id).unwrap();
    let second = reg.add_port(&ADMIN, port_payload("q", "l", 1)).unwrap();
    assert_eq!(second.id, 1);
    assert_eq!(reg.get_port(0), Err(Error::NotFound));
}

#[test]
fn every_gated_operation_refuses_a_stranger_and_changes_nothing() {
    let mut reg = fresh();
    let a = port_with_ships(&mut reg, "a", 10);
    let b = port_with_ships(&mut reg, "b", 2);
    let ports = reg.get_all_ports();
    let next = reg.next_id();

    assert_eq!(reg.add_port(&OTHER, port_payload("c", "l", 1)), Err(Error::Unauthorized));
    assert_eq!(reg.update_port(&OTHER, a, port_payload("c", "l", 1)), Err(Error::Unauthorized));
    assert_eq!(reg.delete_port(&OTHER, a), Err(Error::Unauthorized));
    assert_eq!(reg.add_ship_to_port(&OTHER, a), Err(Error::Unauthorized));
    assert_eq!(reg.ships_arrival(&OTHER, a, 5), Err(Error::Unauthorized));
    assert_eq!(reg.transfer_ships_admin(&OTHER, a, b, 4), Err(Error::Unauthorized));
    assert_eq!(reg.update_port(&OTHER, 99, port_payload("c", "l", 1)), Err(Error::Unauthorized));
    assert_eq!(reg.delete_port(&OTHER, 99), Err(Error::Unauthorized));
    assert_eq!(reg.transfer_ships_admin(&OTHER, a, b, 400), Err(Error::Unauthorized));

    assert_eq!(reg.get_all_ports(), ports);
    assert_eq!(reg.next_id(), next);
}

#[test]
fn transfer_of_four_from_ten_to_two_leaves_six_and_six() {
    let mut reg = fresh();
    let source = port_with_ships(&mut reg, "source", 10);
    let destination = port_with_ships(&mut reg, "destination", 2);
    assert_eq!(reg.transfer_ships_admin(&ADMIN, source, destination, 4), Ok(()));
    assert_eq!(reg.get_port(source).unwrap().current_ships, 6);
    assert_eq!(reg.get_port(destination).unwrap().current_ships, 6);
}

#[test]
fn transfer_touches_nothing_but_the_two_counts() {
    let mut reg = fresh();
    let source = port_with_ships(&mut reg, "source", 10);
    let destination = port_with_ships(&mut reg, "destination", 2);
    let bystander = port_with_ships(&mut reg, "bystander", 5);
    let before_source = reg.get_port(source).unwrap();
    let before_destination = reg.get_port(destination).unwrap();
    let before_bystander = reg.get_port(bystander).unwrap();
    reg.transfer_ships_admin(&ADMIN, source, destination, 10).unwrap();
    assert_eq!(reg.get_port(source), Ok(Port { current_ships: 0, ..before_source }));
    assert_eq!(reg.get_port(destination), Ok(Port { current_ships: 12, ..before_destination }));
    assert_eq!(reg.get_port(bystander), Ok(before_bystander));
    assert_eq!(reg.get_all_ports().len(), 3);
}

#[test]
fn transfer_of_more_than_the_source_holds_is_insufficient() {
    let mut reg = fresh();
    let source = port_with_ships(&mut reg, "source", 10);
    let destination = port_with_ships(&mut reg, "destination", 2);
    let ports = reg.get_all_ports();
    assert_eq!(
        reg.transfer_ships_admin(&ADMIN, source, destination, 11),
        Err(Error::InsufficientShips)
    );
    assert_eq!(reg.get_all_ports(), ports);
}

#[test]
fn transfer_checks_the_source_then_its_ships_then_the_destination() {
    let mut reg = fresh();
    let source = port_with_ships(&mut reg, "source", 3);
    let ports = reg.get_all_ports();
    assert_eq!(reg.transfer_ships_admin(&ADMIN, 50, 51, 1), Err(Error::NotFound));
    assert_eq!(reg.transfer_ships_admin(&ADMIN, 50, source, 1), Err(Error::NotFound));
    assert_eq!(reg.transfer_ships_admin(&ADMIN, source, 51, 4), Err(Error::InsufficientShips));
    assert_eq!(reg.transfer_ships_admin(&ADMIN, source, 51, 3), Err(Error::NotFound));
    assert_eq!(reg.get_all_ports(), ports);
}

#[test]
fn transfer_of_no_ships_changes_nothing() {
    let mut reg = fresh();
    let source = port_with_ships(&mut reg, "source", 0);
    let destination = port_with_ships(&mut reg, "destination", 2);
    let ports = reg.get_all_ports();
    assert_eq!(reg.transfer_ships_admin(&ADMIN, source, destination, 0), Ok(()));
    assert_eq!(reg.get_all_ports(), ports);
}

#[test]
fn transfer_from_a_port_to_itself_writes_the_destination_last() {
    let mut reg = fresh();
    let port = port_with_ships(&mut reg, "port", 10);
    assert_eq!(reg.transfer_ships_admin(&ADMIN, port, port, 4), Ok(()));
    assert_eq!(reg.get_port(port).unwrap().current_ships, 14);
}

#[test]
fn update_and_delete_of_an_absent_port_are_not_found() {
    let mut reg = fresh();
    port_with_ships(&mut reg, "a", 1);
    let ports = reg.get_all_ports();
    assert_eq!(reg.update_port(&ADMIN, 7, port_payload("n", "l", 1)), Err(Error::NotFound));
    assert_eq!(reg.delete_port(&ADMIN, 7), Err(Error::NotFound));
    assert_eq!(reg.add_ship_to_port(&ADMIN, 7), Err(Error::NotFound));
    assert_eq!(reg.ships_arrival(&ADMIN, 7, 3), Err(Error::NotFound));
    assert_eq!(reg.get_all_ports(), ports);
    assert_eq!(reg.get_port(7), Err(Error::NotFound));
}

#[test]
fn update_and_delete_of_an_absent_user_are_not_found() {
    let mut reg = fresh();
    reg.add_user(user_payload("ada", "ada@sea.org")).unwrap();
    let users = reg.get_all_users();
    assert_eq!(reg.update_user(7, user_payload("n", "e")), Err(Error::NotFound));
    assert_eq!(reg.update_user(7, user_payload("", "")), Err(Error::NotFound));
    assert_eq!(reg.delete_user(7), Err(Error::NotFound));
    assert_eq!(reg.get_all_users(), users);
}

#[test]
fn add_user_refuses_an_empty_name() {
    let mut reg = fresh();
    assert_eq!(reg.add_user(user_payload("", "a@b.com")), Err(Error::InvalidPayload));
    assert!(reg.get_all_users().is_empty());
}

#[test]
fn add_user_refuses_blank_texts() {
    let mut reg = fresh();
    assert_eq!(reg.add_user(user_payload("  ", "a@b.com")), Err(Error::InvalidPayload));
    assert_eq!(reg.add_user(user_payload("x", "")), Err(Error::InvalidPayload));
    assert_eq!(reg.add_user(user_payload("x", "\t\n")), Err(Error::InvalidPayload));
    assert!(reg.get_all_users().is_empty());
}

#[test]
fn add_user_stores_a_padded_name_as_given() {
    let mut reg = fresh();
    let user = reg.add_user(user_payload(" x ", "a@b.com")).unwrap();
    assert_eq!(
        user,
        User { user_id: 0, username: " x ".to_string(), email: "a@b.com".to_string() }
    );
    assert_eq!(reg.get_user(0), Ok(user));
}

#[test]
fn anyone_may_change_and_remove_a_user() {
    let mut reg = fresh();
    let user = reg.add_user(user_payload("ada", "ada@sea.org")).unwrap();
    let changed = reg.update_user(user.user_id, user_payload("ada l.", "ada@land.org")).unwrap();
    assert_eq!(
        changed,
        User { user_id: 0, username: "ada l.".to_string(), email: "ada@land.org".to_string() }
    );
    assert_eq!(reg.get_user(0), Ok(changed.clone()));
    assert_eq!(reg.update_user(0, user_payload(" ", "e")), Err(Error::InvalidPayload));
    assert_eq!(reg.get_user(0), Ok(changed.clone()));
    assert_eq!(reg.delete_user(0), Ok(changed));
    assert_eq!(reg.get_user(0), Err(Error::NotFound));
    assert_eq!(reg.delete_user(0), Err(Error::NotFound));
}

#[test]
fn update_port_replaces_the_fields_and_keeps_identifier_and_ships() {
    let mut reg = fresh();
    port_with_ships(&mut reg, "other", 1);
    let id = port_with_ships(&mut reg, "old", 7);
    let updated = reg.update_port(&ADMIN, id, port_payload("new", "moved", 55)).unwrap();
    let expected = Port {
        id,
        name: "new".to_string(),
        location: "moved".to_string(),
        capacity: 55,
        current_ships: 7,
    };
    assert_eq!(updated, expected);
    assert_eq!(reg.get_port(id), Ok(expected));
    assert_eq!(reg.get_port(0).unwrap().name, "other");
}

#[test]
fn delete_port_returns_what_was_stored() {
    let mut reg = fresh();
    let id = port_with_ships(&mut reg, "a", 3);
    let stored = reg.get_port(id).unwrap();
    assert_eq!(reg.delete_port(&ADMIN, id), Ok(stored));
    assert_eq!(reg.get_port(id), Err(Error::NotFound));
    assert!(reg.get_all_ports().is_empty());
}

#[test]
fn ships_arrive_one_or_many_at_a_time() {
    let mut reg = fresh();
    let id = port_with_ships(&mut reg, "a", 0);
    assert_eq!(reg.add_ship_to_port(&ADMIN, id), Ok(()));
    assert_eq!(reg.get_port(id).unwrap().current_ships, 1);
    assert_eq!(reg.ships_arrival(&ADMIN, id, 41), Ok(()));
    assert_eq!(reg.get_port(id).unwrap().current_ships, 42);
    assert_eq!(reg.ships_arrival(&ADMIN, id, u32::MAX - 42), Ok(()));
    assert_eq!(reg.get_port(id).unwrap().current_ships, u32::MAX);
}

#[test]
fn ships_may_exceed_the_capacity() {
    let mut reg = fresh();
    let port = reg.add_port(&ADMIN, port_payload("small", "l", 1)).unwrap();
    reg.ships_arrival(&ADMIN, port.id, 5).unwrap();
    let stored = reg.get_port(port.id).unwrap();
    assert_eq!(stored.capacity, 1);
    assert_eq!(stored.current_ships, 5);
}

#[test]
fn ports_are_listed_in_ascending_order_of_identifier() {
    let mut reg = fresh();
    for i in 0..30u32 {
        reg.add_port(&ADMIN, port_payload(&format!("harbour {}", i), "l", i)).unwrap();
    }
    reg.delete_port(&ADMIN, 4).unwrap();
    reg.delete_port(&ADMIN, 17).unwrap();
    reg.update_port(&ADMIN, 9, port_payload("nine", "l", 9)).unwrap();
    let ports = reg.get_all_ports();
    let ids: Vec<u64> = ports.iter().map(|p| p.id).collect();
    let expected: Vec<u64> = (0..30).filter(|i| *i != 4 && *i != 17).collect();
    assert_eq!(ids, expected);
    assert_eq!(ports[8].name, "nine");
    assert_eq!(ports[0].name, "harbour 0");
}

#[test]
fn users_are_listed_in_ascending_order_of_identifier() {
    let mut reg = fresh();
    reg.add_user(user_payload("a", "a@x")).unwrap();
    reg.add_port(&ADMIN, port_payload("p", "l", 1)).unwrap();
    reg.add_user(user_payload("b", "b@x")).unwrap();
    let users = reg.get_all_users();
    assert_eq!(users.len(), 2);
    assert_eq!((users[0].user_id, users[0].username.as_str()), (0, "a"));
    assert_eq!((users[1].user_id, users[1].username.as_str()), (2, "b"));
    assert_eq!(reg.get_all_ports().len(), 1);
}

#[test]
fn do_insert_port_replaces_what_was_under_the_identifier() {
    let mut reg = fresh();
    let first = Port {
        id: 5,
        name: "a".to_string(),
        location: "l".to_string(),
        capacity: 1,
        current_ships: 0,
    };
    let second = Port { name: "b".to_string(), current_ships: 9, ..first.clone() };
    reg.do_insert_port(&first);
    assert_eq!(reg._get_port(&5), Some(first));
    reg.do_insert_port(&second);
    assert_eq!(reg._get_port(&5), Some(second));
    assert_eq!(reg._get_port(&6), None);
    assert_eq!(reg.get_all_ports().len(), 1);
    assert_eq!(reg.next_id(), 0);
}

#[test]
fn do_insert_user_replaces_what_was_under_the_identifier() {
    let mut reg = fresh();
    let first = User { user_id: 3, username: "a".to_string(), email: "a@x".to_string() };
    let second = User { email: "b@x".to_string(), ..first.clone() };
    reg.do_insert_user(&first);
    assert_eq!(reg._get_user(&3), Some(first));
    reg.do_insert_user(&second);
    assert_eq!(reg._get_user(&3), Some(second));
    assert_eq!(reg._get_user(&0), None);
}

#[test]
fn ports_and_users_do_not_share_a_store() {
    let mut reg = fresh();
    let port = reg.add_port(&ADMIN, port_payload("p", "l", 1)).unwrap();
    assert_eq!(reg.get_user(port.id), Err(Error::NotFound));
    let user = reg.add_user(user_payload("u", "u@x")).unwrap();
    assert_eq!(reg.get_port(user.user_id), Err(Error::NotFound));
}

#[test]
fn two_registries_are_apart() {
    let mut one = fresh();
    let two = fresh();
    one.add_port(&ADMIN, port_payload("p", "l", 1)).unwrap();
    assert!(two.get_all_ports().is_empty());
    assert_eq!(two.next_id(), 0);
}

#[test]
fn texts_outside_ascii_come_back_as_they_went_in() {
    let mut reg = fresh();
    let port = reg.add_port(&ADMIN, port_payload("Πειραιάς", "Ελλάδα 🇬🇷", 3)).unwrap();
    let found = reg.get_port(port.id).unwrap();
    assert_eq!(found.name, "Πειραιάς");
    assert_eq!(found.location, "Ελλάδα 🇬🇷");
}

#[test]
fn every_port_number_may_be_reported_on() {
    assert!(check_port_exists(0));
    assert!(check_port_exists(u64::MAX));
}

#[test]
fn an_issued_identifier_gets_the_port_of_the_payload_without_ships() {
    let mut reg = fresh();
    let port = reg.store_issued_port(Ok(42), port_payload("Hamburg", "Elbe", 12)).unwrap();
    assert_eq!(
        port,
        Port {
            id: 42,
            name: "Hamburg".to_string(),
            location: "Elbe".to_string(),
            capacity: 12,
            current_ships: 0,
        }
    );
    assert_eq!(reg.get_port(42), Ok(port));
    assert_eq!(reg.get_all_ports().len(), 1);
    assert!(reg.get_all_users().is_empty());
    assert_eq!(reg.next_id(), 0);
}

#[test]
fn a_failed_counter_stores_no_port() {
    let mut reg = fresh();
    port_with_ships(&mut reg, "a", 1);
    let ports = reg.get_all_ports();
    assert_eq!(
        reg.store_issued_port(Err(Error::StorageFault), port_payload("b", "l", 1)),
        Err(Error::StorageFault)
    );
    assert_eq!(reg.get_all_ports(), ports);
    assert_eq!(reg.next_id(), 1);
}

#[test]
fn an_issued_identifier_gets_the_user_of_the_payload() {
    let mut reg = fresh();
    let user = reg.store_issued_user(Ok(7), user_payload(" ada ", "ada@sea.org")).unwrap();
    assert_eq!(
        user,
        User { user_id: 7, username: " ada ".to_string(), email: "ada@sea.org".to_string() }
    );
    assert_eq!(reg.get_user(7), Ok(user));
    assert!(reg.get_all_ports().is_empty());
    assert_eq!(reg.next_id(), 0);
}

#[test]
fn a_failed_counter_stores_no_user() {
    let mut reg = fresh();
    assert_eq!(
        reg.store_issued_user(Err(Error::StorageFault), user_payload("ada", "ada@sea.org")),
        Err(Error::StorageFault)
    );
    assert!(reg.get_all_users().is_empty());
    assert_eq!(reg.next_id(), 0);
}

#[test]
fn a_created_port_lies_where_nothing_lay() {
    let mut reg = fresh();
    for _ in 0..5 {
        reg.add_user(user_payload("u", "u@x")).unwrap();
        let next = reg.next_id();
        assert_eq!(reg.get_port(next), Err(Error::NotFound));
        assert_eq!(reg.get_user(next), Err(Error::NotFound));
        let port = reg.add_port(&ADMIN, port_payload("p", "l", 1)).unwrap();
        assert_eq!(port.id, next);
    }
}

#[test]
fn a_port_of_exactly_the_bound_comes_back() {
    let mut reg = fresh();
    let payload = port_payload(&"a".repeat(1000), &"b".repeat(3), 9);
    assert!(payload.fits());
    let port = reg.add_port(&ADMIN, payload).unwrap();
    reg.ships_arrival(&ADMIN, port.id, u32::MAX).unwrap();
    let found = reg.get_port(port.id).unwrap();
    assert_eq!(found.name.len(), 1000);
    assert_eq!(found.location, "bbb");
    assert_eq!(found.current_ships, u32::MAX);
    assert_eq!(reg.get_all_ports(), vec![found]);
}
