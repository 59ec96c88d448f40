//! The source of record identifiers.
use crate::error::Error;
use crate::stable::{
    cell_word, region_pages, word_cell_get, word_cell_init, word_cell_new, word_cell_set, Regions,
    WordCell, RESERVED_REGION,
};
use vstd::prelude::*;

verus! {

/// Issues identifiers, each one greater than the one before.
///
/// One counter serves every kind of record, so no two records of any kind
/// are issued the same identifier.
pub struct IdentifierCounter {
    cell: WordCell,
    fresh: bool,
}

impl View for IdentifierCounter {
    type V = u64;

    /// The identifier that will be issued next.
    closed spec fn view(&self) -> u64 {
        cell_word(self.cell)
    }
}

impl IdentifierCounter {
    /// Opens the counter that lives in region `id`. On a region that nothing
    /// was ever written to, the counter starts at 0. On any other region the
    /// counter is the one that the region holds, or one at 0 where it holds
    /// none. `None` where the region could not be read or written.
    pub(crate) fn init(regions: &Regions, id: u8) -> (r: Option<Self>)
        requires
            id != RESERVED_REGION,
        ensures
            r is Some && r.unwrap().fresh() ==> r.unwrap()@ == 0,
    {
        let pages = region_pages(regions, id);
        let cell = if pages == 0 {
            word_cell_new(regions, id, 0)
        } else {
            word_cell_init(regions, id, 0)
        };
        Self::opened(pages, cell)
    }

    /// The counter over a cell that was opened on a region of `pages` pages:
    /// it stands where the cell stands, and it is fresh where the region had
    /// no page. No counter where no cell could be opened.
    pub fn opened(pages: u64, cell: Option<WordCell>) -> (r: Option<Self>)
        ensures
            r.is_some() == cell.is_some(),
            r is Some ==> r.unwrap()@ == cell_word(cell.unwrap()),
            r is Some ==> r.unwrap().fresh() == (pages == 0),
    {
        match cell {
            Some(cell) => Some(IdentifierCounter { cell, fresh: pages == 0 }),
            None => None,
        }
    }

    /// Whether the counter was opened on a region that nothing was ever
    /// written to.
    pub closed spec fn fresh(&self) -> bool {
        self.fresh
    }

    /// Tells whether the counter was opened on a region that nothing was ever
    /// written to.
    pub fn is_fresh(&self) -> (b: bool)
        ensures
            b == self.fresh(),
    {
        self.fresh
    }

    /// The identifier that will be issued next.
    pub fn peek(&self) -> (id: u64)
        ensures
            id == self@,
    {
        word_cell_get(&self.cell)
    }

    /// Issues the next identifier and steps the counter past it. Where the
    /// counter cannot be written, nothing is issued and the counter stays as
    /// it was.
    pub fn next(&mut self) -> (r: Result<u64, Error>)
        requires
            old(self)@ < u64::MAX,
        ensures
            match r {
                Ok(id) => id == old(self)@ && final(self)@ == id + 1,
                Err(e) => e == Error::StorageFault && final(self)@ == old(self)@,
            },
    {
        let current = word_cell_get(&self.cell);
        match word_cell_set(&mut self.cell, current + 1) {
            Some(issued) => Ok(issued),
            None => Err(Error::StorageFault),
        }
    }
}

} // verus!
