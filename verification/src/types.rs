//! The records of the registry and the payloads they are made from.
use crate::record::{record_fits, Record, SHORT_RECORD_BYTES};
use crate::row::{Row, RowView};
use vstd::prelude::*;
use vstd::utf8::encode_utf8;

verus! {

/// The identity of the administrator, in its textual form.
#[derive(Clone, Debug, PartialEq, Eq, Default)]
pub struct AdminPrincipal(pub String);

impl View for AdminPrincipal {
    type V = Seq<char>;

    open spec fn view(&self) -> Seq<char> {
        self.0@
    }
}

/// A port and the number of ships that lie in it.
///
/// Nothing keeps `current_ships` at or below `capacity`: the capacity is
/// recorded, not enforced.
#[derive(Clone, Debug, PartialEq, Eq, Default)]
pub struct Port {
    pub id: u64,
    pub name: String,
    pub location: String,
    pub capacity: u32,
    pub current_ships: u32,
}

/// What a port holds.
pub struct PortView {
    pub id: u64,
    pub name: Seq<char>,
    pub location: Seq<char>,
    pub capacity: u32,
    pub current_ships: u32,
}

impl View for Port {
    type V = PortView;

    open spec fn view(&self) -> PortView {
        PortView {
            id: self.id,
            name: self.name@,
            location: self.location@,
            capacity: self.capacity,
            current_ships: self.current_ships,
        }
    }
}

impl Record for Port {
    open spec fn bound() -> nat {
        SHORT_RECORD_BYTES as nat
    }

    proof fn lemma_bound() {
    }

    fn max_bytes() -> usize {
        SHORT_RECORD_BYTES
    }

    open spec fn key_of(v: PortView) -> u64 {
        v.id
    }

    open spec fn row_of(v: PortView) -> RowView {
        RowView {
            nums: seq![v.capacity as u64, v.current_ships as u64],
            first: v.name,
            second: v.location,
        }
    }

    open spec fn of_row(key: u64, row: RowView) -> Option<PortView> {
        if row.nums.len() == 2 && row.nums[0] <= u32::MAX && row.nums[1] <= u32::MAX {
            Some(
                PortView {
                    id: key,
                    name: row.first,
                    location: row.second,
                    capacity: row.nums[0] as u32,
                    current_ships: row.nums[1] as u32,
                },
            )
        } else {
            None
        }
    }

    proof fn lemma_row_round_trip(v: PortView) {
    }

    proof fn lemma_key_kept(key: u64, row: RowView) {
    }

    proof fn lemma_row_kept(key: u64, row: RowView) {
        if Self::of_row(key, row) is Some {
            assert(Self::row_of(Self::of_row(key, row).unwrap()).nums =~= row.nums);
        }
    }

    fn key(&self) -> u64 {
        self.id
    }

    fn to_row(&self) -> Row {
        let mut nums: Vec<u64> = Vec::new();
        nums.push(self.capacity as u64);
        nums.push(self.current_ships as u64);
        let row = Row { nums, first: self.name.clone(), second: self.location.clone() };
        assert(row@.nums =~= Self::row_of(self@).nums);
        row
    }

    fn from_row(key: u64, row: Row) -> Option<Port> {
        let Row { nums, first, second } = row;
        if nums.len() != 2 || nums[0] > 0xffff_ffff || nums[1] > 0xffff_ffff {
            return None;
        }
        Some(
            Port {
                id: key,
                name: first,
                location: second,
                capacity: nums[0] as u32,
                current_ships: nums[1] as u32,
            },
        )
    }
}

/// A user of the registry.
#[derive(Clone, Debug, PartialEq, Eq, Default)]
pub struct User {
    pub user_id: u64,
    pub username: String,
    pub email: String,
}

/// What a user holds.
pub struct UserView {
    pub user_id: u64,
    pub username: Seq<char>,
    pub email: Seq<char>,
}

impl View for User {
    type V = UserView;

    open spec fn view(&self) -> UserView {
        UserView { user_id: self.user_id, username: self.username@, email: self.email@ }
    }
}

impl Record for User {
    open spec fn bound() -> nat {
        SHORT_RECORD_BYTES as nat
    }

    proof fn lemma_bound() {
    }

    fn max_bytes() -> usize {
        SHORT_RECORD_BYTES
    }

    open spec fn key_of(v: UserView) -> u64 {
        v.user_id
    }

    open spec fn row_of(v: UserView) -> RowView {
        RowView { nums: Seq::empty(), first: v.username, second: v.email }
    }

    open spec fn of_row(key: u64, row: RowView) -> Option<UserView> {
        if row.nums.len() == 0 {
            Some(UserView { user_id: key, username: row.first, email: row.second })
        } else {
            None
        }
    }

    proof fn lemma_row_round_trip(v: UserView) {
    }

    proof fn lemma_key_kept(key: u64, row: RowView) {
    }

    proof fn lemma_row_kept(key: u64, row: RowView) {
        if Self::of_row(key, row) is Some {
            assert(Self::row_of(Self::of_row(key, row).unwrap()).nums =~= row.nums);
        }
    }

    fn key(&self) -> u64 {
        self.user_id
    }

    fn to_row(&self) -> Row {
        let row = Row {
            nums: Vec::new(),
            first: self.username.clone(),
            second: self.email.clone(),
        };
        assert(row@.nums =~= Self::row_of(self@).nums);
        row
    }

    fn from_row(key: u64, row: Row) -> Option<User> {
        let Row { nums, first, second } = row;
        if nums.len() != 0 {
            return None;
        }
        Some(User { user_id: key, username: first, email: second })
    }
}

/// The fields that a caller gives for a port.
pub struct PortFields {
    pub name: Seq<char>,
    pub location: Seq<char>,
    pub capacity: u32,
}

/// What a caller supplies to make or to change a port.
#[derive(Clone, Debug, PartialEq, Eq, Default)]
pub struct PortPayload {
    pub name: String,
    pub location: String,
    pub capacity: u32,
}

/// The fields that a caller gives for a user.
pub struct UserFields {
    pub username: Seq<char>,
    pub email: Seq<char>,
}

/// What a caller supplies to make or to change a user.
#[derive(Clone, Debug, PartialEq, Eq, Default)]
pub struct UserPayload {
    pub username: String,
    pub email: String,
}

impl View for PortPayload {
    type V = PortFields;

    open spec fn view(&self) -> PortFields {
        PortFields { name: self.name@, location: self.location@, capacity: self.capacity }
    }
}

impl View for UserPayload {
    type V = UserFields;

    open spec fn view(&self) -> UserFields {
        UserFields { username: self.username@, email: self.email@ }
    }
}

/// Whether a port with these fields can be stored.
pub open spec fn port_fields_fit(fields: PortFields) -> bool {
    21 + encode_utf8(fields.name).len() + encode_utf8(fields.location).len() <= SHORT_RECORD_BYTES
}

/// Whether a user with these fields can be stored.
pub open spec fn user_fields_fit(fields: UserFields) -> bool {
    5 + encode_utf8(fields.username).len() + encode_utf8(fields.email).len() <= SHORT_RECORD_BYTES
}

/// Whether two texts take at most `room` bytes together.
fn texts_within(first: &str, second: &str, room: usize) -> (r: bool)
    ensures
        r == (encode_utf8(first@).len() + encode_utf8(second@).len() <= room),
{
    let a = first.as_bytes().len();
    let b = second.as_bytes().len();
    a <= room && b <= room - a
}

impl PortPayload {
    /// Tells whether a port with this payload can be stored.
    pub fn fits(&self) -> (r: bool)
        ensures
            r == port_fields_fit(self@),
    {
        texts_within(self.name.as_str(), self.location.as_str(), SHORT_RECORD_BYTES - 21)
    }
}

impl UserPayload {
    /// Tells whether a user with this payload can be stored.
    pub fn fits(&self) -> (r: bool)
        ensures
            r == user_fields_fit(self@),
    {
        texts_within(self.username.as_str(), self.email.as_str(), SHORT_RECORD_BYTES - 5)
    }
}

/// Whether a port can be stored depends on its texts alone.
pub proof fn lemma_port_fits(port: PortView)
    ensures
        record_fits::<Port>(port) == port_fields_fit(
            PortFields { name: port.name, location: port.location, capacity: port.capacity },
        ),
{
}

/// Whether a user can be stored depends on its texts alone.
pub proof fn lemma_user_fits(user: UserView)
    ensures
        record_fits::<User>(user) == user_fields_fit(
            UserFields { username: user.username, email: user.email },
        ),
{
}

} // verus!
