//! The administrator's identity and the check that gates mutation.
use crate::error::Error;
use crate::stable::{
    cell_text, region_pages, text_cell_get, text_cell_init, text_cell_new, Regions, TextCell,
    RESERVED_REGION,
};
use crate::types::AdminPrincipal;
use vstd::prelude::*;

verus! {

/// The bytes of the principal that `text` spells, or `None` where `text`
/// spells no principal.
pub uninterp spec fn principal_of_text(text: Seq<char>) -> Option<Seq<u8>>;

/// `candid::Principal::from_text`, with the principal handed back as its
/// bytes: the result is the principal that `text` spells, if it spells one.
#[verifier::external_body]
pub(crate) fn parse_principal(text: &str) -> (r: Option<Vec<u8>>)
    ensures
        r.is_some() == principal_of_text(text@).is_some(),
        r is Some ==> r.unwrap()@ == principal_of_text(text@).unwrap(),
{
    match candid::Principal::from_text(text) {
        Ok(principal) => Some(principal.as_slice().to_vec()),
        Err(_) => None,
    }
}

/// Whether `a` and `b` hold the same bytes.
pub fn same_bytes(a: &[u8], b: &[u8]) -> (same: bool)
    ensures
        same == (a@ == b@),
{
    if a.len() != b.len() {
        return false;
    }
    let mut i: usize = 0;
    while i < a.len()
        invariant
            i <= a@.len() == b@.len(),
            forall|j: int| 0 <= j < i ==> a@[j] == b@[j],
        decreases a@.len() - i,
    {
        if a[i] != b[i] {
            return false;
        }
        i += 1;
    }
    assert(a@ =~= b@);
    true
}

/// Decides on a caller, given what the administrator's identity parsed to:
/// the caller passes only where the identity parsed and its bytes are the
/// caller's.
pub fn decide(admin: Option<Vec<u8>>, caller: &[u8]) -> (r: Result<(), Error>)
    ensures
        r is Ok <==> admin is Some && admin.unwrap()@ == caller@,
        r is Err ==> r == Err::<(), Error>(Error::Unauthorized),
{
    match admin {
        Some(bytes) => {
            if same_bytes(bytes.as_slice(), caller) {
                Ok(())
            } else {
                Err(Error::Unauthorized)
            }
        },
        None => Err(Error::Unauthorized),
    }
}

/// Holds the one identity that may perform gated mutations.
///
/// The identity is written when the registry is first initialized. No
/// operation changes it afterwards.
pub struct AdminRegistry {
    cell: TextCell,
    fresh: bool,
}

impl View for AdminRegistry {
    type V = Seq<char>;

    closed spec fn view(&self) -> Seq<char> {
        cell_text(self.cell)
    }
}

impl AdminRegistry {
    /// Opens the admin identity that lives in region `id`. On a region that
    /// nothing was ever written to, `identity` becomes the stored identity.
    /// On any other region the stored identity is the one that the region
    /// holds, or `identity` where it holds none. `None` where the region
    /// could not be read or written.
    pub(crate) fn initialize(regions: &Regions, id: u8, identity: AdminPrincipal) -> (r: Option<
        Self,
    >)
        requires
            id != RESERVED_REGION,
        ensures
            r is Some && r.unwrap().fresh() ==> r.unwrap()@ == identity@,
    {
        let pages = region_pages(regions, id);
        let cell = if pages == 0 {
            text_cell_new(regions, id, identity.0)
        } else {
            text_cell_init(regions, id, identity.0)
        };
        Self::opened(pages, cell)
    }

    /// The admin identity over a cell that was opened on a region of `pages`
    /// pages: the identity is the text of the cell, and it is fresh where the
    /// region had no page. No identity where no cell could be opened.
    pub fn opened(pages: u64, cell: Option<TextCell>) -> (r: Option<Self>)
        ensures
            r.is_some() == cell.is_some(),
            r is Some ==> r.unwrap()@ == cell_text(cell.unwrap()),
            r is Some ==> r.unwrap().fresh() == (pages == 0),
    {
        match cell {
            Some(cell) => Some(AdminRegistry { cell, fresh: pages == 0 }),
            None => None,
        }
    }

    /// Whether the identity was opened on a region that nothing was ever
    /// written to.
    pub closed spec fn fresh(&self) -> bool {
        self.fresh
    }

    /// Tells whether the identity was opened on a region that nothing was
    /// ever written to.
    pub fn is_fresh(&self) -> (b: bool)
        ensures
            b == self.fresh(),
    {
        self.fresh
    }

    /// The administrator's identity.
    pub fn current(&self) -> (identity: AdminPrincipal)
        ensures
            identity@ == self@,
    {
        AdminPrincipal(text_cell_get(&self.cell))
    }

    /// Whether `caller` may perform gated mutations.
    pub open spec fn allows(&self, caller: Seq<u8>) -> bool {
        principal_of_text(self@) == Some(caller)
    }

    /// Passes the caller whose bytes are those of the stored identity, and
    /// fails with `Unauthorized` for every other caller, and for every caller
    /// where the stored identity spells no principal.
    pub fn authorize(&self, caller: &[u8]) -> (r: Result<(), Error>)
        ensures
            r is Ok <==> self.allows(caller@),
            r is Err ==> r == Err::<(), Error>(Error::Unauthorized),
    {
        let identity = text_cell_get(&self.cell);
        decide(parse_principal(identity.as_str()), caller)
    }
}

} // verus!
