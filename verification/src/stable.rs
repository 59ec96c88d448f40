//! The durable collections this registry is built on, with what is taken on
//! trust about them.
//!
//! Nothing in this file is proved. Each function here makes one call into
//! `ic_stable_structures` and states what that call does to the collection.
//! The collections are generic over traits that the verifier knows nothing
//! of, so each is kept whole in a type of this file, and what it holds has a
//! name that the contracts speak of.
use ic_stable_structures::memory_manager::{MemoryId, MemoryManager, VirtualMemory};
use ic_stable_structures::storable::Blob;
use ic_stable_structures::{Cell, DefaultMemoryImpl, Memory, StableBTreeMap};
use vstd::prelude::*;

verus! {

/// The largest number of bytes that a table takes under one key.
pub const MAX_RECORD_BYTES: usize = 2048;

/// The one region number that the memory manager keeps for itself.
pub const RESERVED_REGION: u8 = 255;

/// A `MemoryManager` over the default memory: it hands out disjoint regions
/// by number.
#[verifier::external_body]
pub struct Regions {
    inner: MemoryManager<DefaultMemoryImpl>,
}

/// A `StableBTreeMap` from `u64` keys to byte strings of at most
/// `MAX_RECORD_BYTES` bytes, living in one region.
#[verifier::external_body]
pub struct Table {
    inner: StableBTreeMap<u64, Blob<2048>, VirtualMemory<DefaultMemoryImpl>>,
}

/// A `Cell` that holds one `u64` in a region of its own.
#[verifier::external_body]
pub struct WordCell {
    inner: Cell<u64, VirtualMemory<DefaultMemoryImpl>>,
}

/// A `Cell` that holds one `String` in a region of its own.
#[verifier::external_body]
pub struct TextCell {
    inner: Cell<String, VirtualMemory<DefaultMemoryImpl>>,
}

/// The key-value pairs that a table holds.
pub uninterp spec fn table_entries(t: Table) -> Map<u64, Seq<u8>>;

/// The number that a cell holds.
pub uninterp spec fn cell_word(c: WordCell) -> u64;

/// The text that a cell holds.
pub uninterp spec fn cell_text(c: TextCell) -> Seq<char>;

/// `MemoryManager::init` on a default memory. Nothing is claimed of what the
/// regions hold: that depends on what the memory held before.
#[verifier::external_body]
pub(crate) fn regions_open() -> (r: Regions) {
    Regions { inner: MemoryManager::init(DefaultMemoryImpl::default()) }
}

/// `Memory::size` on the region `id`: the number of pages that the region
/// takes, which is 0 for a region that nothing was ever written to. Nothing
/// is claimed of the number: it depends on what the memory held before.
#[verifier::external_body]
pub(crate) fn region_pages(regions: &Regions, id: u8) -> (pages: u64)
    requires
        id != RESERVED_REGION,
{
    regions.inner.get(MemoryId::new(id)).size()
}

/// `StableBTreeMap::new` on the region `id`: an empty map, written over
/// whatever the region held.
#[verifier::external_body]
pub(crate) fn table_new(regions: &Regions, id: u8) -> (t: Table)
    requires
        id != RESERVED_REGION,
    ensures
        forall|k: u64| !table_entries(t).contains_key(k),
{
    Table { inner: StableBTreeMap::new(regions.inner.get(MemoryId::new(id))) }
}

/// `StableBTreeMap::init` on the region `id`: loads the map that the region
/// holds, or makes an empty one there. Nothing is claimed of the entries.
/// `MemoryId::new` refuses the reserved number, which `requires` leaves out.
#[verifier::external_body]
pub(crate) fn table_init(regions: &Regions, id: u8) -> (t: Table)
    requires
        id != RESERVED_REGION,
{
    Table { inner: StableBTreeMap::init(regions.inner.get(MemoryId::new(id))) }
}

/// `StableBTreeMap::get`: the value stored under `key`, if there is one. A
/// stored value is never longer than the bound that the table was made with.
#[verifier::external_body]
pub(crate) fn table_get(t: &Table, key: u64) -> (r: Option<Vec<u8>>)
    ensures
        r.is_some() == table_entries(*t).contains_key(key),
        r is Some ==> r.unwrap()@ == table_entries(*t)[key],
        r is Some ==> r.unwrap()@.len() <= MAX_RECORD_BYTES,
{
    t.inner.get(&key).map(|b| b.as_slice().to_vec())
}

/// `StableBTreeMap::insert`: afterwards `key` maps to `value`, whatever it
/// mapped to before, and no other key has changed. The map refuses a value
/// over its size bound, which `requires` leaves out.
#[verifier::external_body]
pub(crate) fn table_insert(t: &mut Table, key: u64, value: &[u8])
    requires
        value@.len() <= MAX_RECORD_BYTES,
    ensures
        table_entries(*final(t)) == table_entries(*old(t)).insert(key, value@),
{
    if let Ok(blob) = Blob::try_from(value) {
        t.inner.insert(key, blob);
    }
}

/// `StableBTreeMap::remove`: afterwards `key` is absent and no other key has
/// changed; the result is what `key` mapped to before, if anything.
#[verifier::external_body]
pub(crate) fn table_remove(t: &mut Table, key: u64) -> (r: Option<Vec<u8>>)
    ensures
        table_entries(*final(t)) == table_entries(*old(t)).remove(key),
        r.is_some() == table_entries(*old(t)).contains_key(key),
        r is Some ==> r.unwrap()@ == table_entries(*old(t))[key],
{
    t.inner.remove(&key).map(|b| b.as_slice().to_vec())
}

/// `StableBTreeMap::iter`, collected: every entry of the table exactly once,
/// in strictly ascending order of key.
#[verifier::external_body]
pub(crate) fn table_pairs(t: &Table) -> (r: Vec<(u64, Vec<u8>)>)
    ensures
        forall|i: int, j: int| 0 <= i < j < r@.len() ==> r@[i].0 < r@[j].0,
        forall|i: int|
            0 <= i < r@.len() ==> table_entries(*t).contains_key(#[trigger] r@[i].0)
                && table_entries(*t)[r@[i].0] == r@[i].1@,
        forall|k: u64|
            table_entries(*t).contains_key(k) ==> exists|i: int|
                0 <= i < r@.len() && #[trigger] r@[i].0 == k,
{
    t.inner.iter().map(|(k, b)| (k, b.as_slice().to_vec())).collect()
}

/// `Cell::new` on the region `id` with a number: a cell that holds `value`,
/// written over whatever the region held. `None` where the cell could not be
/// written.
#[verifier::external_body]
pub(crate) fn word_cell_new(regions: &Regions, id: u8, value: u64) -> (r: Option<WordCell>)
    requires
        id != RESERVED_REGION,
    ensures
        r is Some ==> cell_word(r.unwrap()) == value,
{
    Cell::new(regions.inner.get(MemoryId::new(id)), value).ok().map(|c| WordCell { inner: c })
}

/// `Cell::init` on the region `id` with a number: the cell holds what the
/// region held, or `initial` where it held no cell. `None` where the cell
/// could not be read or written.
#[verifier::external_body]
pub(crate) fn word_cell_init(regions: &Regions, id: u8, initial: u64) -> (r: Option<WordCell>)
    requires
        id != RESERVED_REGION,
{
    Cell::init(regions.inner.get(MemoryId::new(id)), initial).ok().map(|c| WordCell { inner: c })
}

/// `Cell::get` on a number.
#[verifier::external_body]
pub(crate) fn word_cell_get(c: &WordCell) -> (r: u64)
    ensures
        r == cell_word(*c),
{
    *c.inner.get()
}

/// `Cell::set` on a number: on success the cell holds `value` and the result
/// is what it held before; on failure the cell is as it was.
#[verifier::external_body]
pub(crate) fn word_cell_set(c: &mut WordCell, value: u64) -> (r: Option<u64>)
    ensures
        r is Some ==> r.unwrap() == cell_word(*old(c)) && cell_word(*final(c)) == value,
        r is None ==> cell_word(*final(c)) == cell_word(*old(c)),
{
    c.inner.set(value).ok()
}

/// `Cell::new` on the region `id` with a text: a cell that holds `value`,
/// written over whatever the region held. `None` where the cell could not be
/// written.
#[verifier::external_body]
pub(crate) fn text_cell_new(regions: &Regions, id: u8, value: String) -> (r: Option<TextCell>)
    requires
        id != RESERVED_REGION,
    ensures
        r is Some ==> cell_text(r.unwrap()) == value@,
{
    Cell::new(regions.inner.get(MemoryId::new(id)), value).ok().map(|c| TextCell { inner: c })
}

/// `Cell::init` on the region `id` with a text: the cell holds what the
/// region held, or `initial` where it held no cell. `None` where the cell
/// could not be read or written.
#[verifier::external_body]
pub(crate) fn text_cell_init(regions: &Regions, id: u8, initial: String) -> (r: Option<TextCell>)
    requires
        id != RESERVED_REGION,
{
    Cell::init(regions.inner.get(MemoryId::new(id)), initial).ok().map(|c| TextCell { inner: c })
}

/// `Cell::get` on a text.
#[verifier::external_body]
pub(crate) fn text_cell_get(c: &TextCell) -> (r: String)
    ensures
        r@ == cell_text(*c),
{
    c.inner.get().clone()
}

} // verus!
