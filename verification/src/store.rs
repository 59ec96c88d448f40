//! A durable mapping from keys to records of one kind.
use crate::record::{record_fits, Record};
use crate::row::{
    decode, encode, lemma_row_layout_len, lemma_row_parse_size, lemma_row_round_trip, row_parse,
};
use crate::stable::{
    region_pages, table_entries, table_get, table_init, table_insert, table_new, table_pairs,
    table_remove, Regions, Table, RESERVED_REGION,
};
use core::marker::PhantomData;
use vstd::prelude::*;

verus! {

/// The record that `bytes` stored under `key` stand for, if they stand for one.
pub open spec fn record_parse<R: Record>(key: u64, bytes: Seq<u8>) -> Option<R::V> {
    if bytes.len() <= R::bound() {
        match row_parse(bytes) {
            Some(row) => R::of_row(key, row),
            None => None,
        }
    } else {
        None
    }
}

/// The records that a table of bytes holds: an entry whose bytes stand for no
/// record of the kind, or are more than the kind may take, counts as absent.
pub open spec fn records_of<R: Record>(entries: Map<u64, Seq<u8>>) -> Map<u64, R::V> {
    Map::new(
        |k: u64| entries.contains_key(k) && record_parse::<R>(k, entries[k]) is Some,
        |k: u64| record_parse::<R>(k, entries[k]).unwrap(),
    )
}

/// The key of the `i`-th record of a list.
pub open spec fn key_at<R: Record>(list: Seq<R>, i: int) -> u64 {
    R::key_of(list[i]@)
}

/// Whether `list` holds every record of `records` exactly once, in strictly
/// ascending order of key.
pub open spec fn listing<R: Record>(records: Map<u64, R::V>, list: Seq<R>) -> bool {
    &&& forall|a: int, b: int|
        0 <= a < b < list.len() ==> key_at::<R>(list, a) < key_at::<R>(list, b)
    &&& forall|a: int|
        0 <= a < list.len() ==> records.contains_key(#[trigger] key_at::<R>(list, a))
            && records[key_at::<R>(list, a)] == list[a]@
    &&& forall|k: u64|
        records.contains_key(k) ==> exists|a: int|
            0 <= a < list.len() && key_at::<R>(list, a) == k
}

/// A durable mapping from `u64` keys to records of kind `R`.
pub struct EntityStore<R: Record> {
    table: Table,
    kind: PhantomData<R>,
    fresh: bool,
}

impl<R: Record> View for EntityStore<R> {
    type V = Map<u64, R::V>;

    closed spec fn view(&self) -> Map<u64, R::V> {
        records_of::<R>(table_entries(self.table))
    }
}

impl<R: Record> EntityStore<R> {
    /// Opens the store that lives in region `id`. On a region that nothing
    /// was ever written to, the store is empty. On any other region the store
    /// holds what the region holds. A region is opened once: two stores over
    /// one region would each change what the other holds.
    pub(crate) fn init(regions: &Regions, id: u8) -> (store: Self)
        requires
            id != RESERVED_REGION,
        ensures
            store.fresh() ==> store@ == Map::<u64, R::V>::empty(),
    {
        let pages = region_pages(regions, id);
        let table = if pages == 0 {
            table_new(regions, id)
        } else {
            table_init(regions, id)
        };
        let store = Self::opened(pages, table);
        proof {
            if pages == 0 {
                assert(store@ =~= Map::<u64, R::V>::empty());
            }
        }
        store
    }

    /// The store over a table that was opened on a region of `pages` pages:
    /// it holds the records that the table's entries stand for, and it is
    /// fresh where the region had no page.
    pub fn opened(pages: u64, table: Table) -> (store: Self)
        ensures
            store@ == records_of::<R>(table_entries(table)),
            store.fresh() == (pages == 0),
    {
        EntityStore { table, kind: PhantomData, fresh: pages == 0 }
    }

    /// Whether the store was opened on a region that nothing was ever
    /// written to.
    pub closed spec fn fresh(&self) -> bool {
        self.fresh
    }

    /// Tells whether the store was opened on a region that nothing was ever
    /// written to.
    pub fn is_fresh(&self) -> (b: bool)
        ensures
            b == self.fresh(),
    {
        self.fresh
    }

    /// Every record is stored under its own key.
    pub proof fn lemma_keys(&self)
        ensures
            forall|k: u64| self@.contains_key(k) ==> R::key_of(#[trigger] self@[k]) == k,
    {
        assert forall|k: u64| self@.contains_key(k) implies R::key_of(#[trigger] self@[k])
            == k by {
            R::lemma_key_kept(k, row_parse(table_entries(self.table)[k]).unwrap());
        }
    }

    /// The record stored under `key`, if there is one.
    pub fn get(&self, key: u64) -> (r: Option<R>)
        ensures
            r.is_some() == self@.contains_key(key),
            r is Some ==> r.unwrap()@ == self@[key],
            r is Some ==> record_fits::<R>(r.unwrap()@) && R::key_of(r.unwrap()@) == key,
    {
        match table_get(&self.table, key) {
            Some(bytes) => Self::read(key, bytes.as_slice()),
            None => None,
        }
    }

    /// The record that `bytes` stored under `key` stand for, if they stand
    /// for one. Such a record can be stored again.
    pub fn read(key: u64, bytes: &[u8]) -> (r: Option<R>)
        ensures
            r.is_some() == record_parse::<R>(key, bytes@).is_some(),
            r is Some ==> r.unwrap()@ == record_parse::<R>(key, bytes@).unwrap(),
            r is Some ==> record_fits::<R>(r.unwrap()@) && R::key_of(r.unwrap()@) == key,
    {
        if bytes.len() > R::max_bytes() {
            return None;
        }
        match decode(bytes) {
            Some(row) => {
                proof {
                    R::lemma_bound();
                    lemma_row_parse_size(bytes@);
                    R::lemma_row_kept(key, row@);
                    R::lemma_key_kept(key, row@);
                }
                R::from_row(key, row)
            },
            None => None,
        }
    }

    /// Stores `record` under its key, in place of whatever was there.
    pub fn insert(&mut self, record: &R)
        requires
            record_fits::<R>(record@),
        ensures
            final(self)@ == old(self)@.insert(R::key_of(record@), record@),
    {
        let key = record.key();
        let row = record.to_row();
        match encode(&row) {
            Some(bytes) => {
                proof {
                    lemma_row_layout_len(row@);
                    lemma_row_round_trip(row@);
                    R::lemma_row_round_trip(record@);
                }
                table_insert(&mut self.table, key, bytes.as_slice());
                proof {
                    assert(final(self)@ =~= old(self)@.insert(key, record@));
                }
            },
            None => {},
        }
    }

    /// Every record of the store, in ascending order of key.
    pub fn list(&self) -> (r: Vec<R>)
        ensures
            listing::<R>(self@, r@),
    {
        let pairs = table_pairs(&self.table);
        let mut out: Vec<R> = Vec::new();
        let mut i: usize = 0;
        while i < pairs.len()
            invariant
                i <= pairs@.len(),
                forall|a: int, b: int| 0 <= a < b < pairs@.len() ==> pairs@[a].0 < pairs@[b].0,
                forall|b: int|
                    0 <= b < pairs@.len() ==> table_entries(self.table).contains_key(
                        #[trigger] pairs@[b].0,
                    ) && table_entries(self.table)[pairs@[b].0] == pairs@[b].1@,
                forall|a: int, b: int|
                    0 <= a < b < out@.len() ==> key_at::<R>(out@, a) < key_at::<R>(out@, b),
                forall|a: int, b: int|
                    0 <= a < out@.len() && i <= b < pairs@.len() ==> key_at::<R>(out@, a)
                        < pairs@[b].0,
                forall|a: int|
                    0 <= a < out@.len() ==> self@.contains_key(#[trigger] key_at::<R>(out@, a))
                        && self@[key_at::<R>(out@, a)] == out@[a]@,
                forall|b: int|
                    0 <= b < i && self@.contains_key(#[trigger] pairs@[b].0) ==> exists|a: int|
                        0 <= a < out@.len() && key_at::<R>(out@, a) == pairs@[b].0,
            decreases pairs@.len() - i,
        {
            let key = pairs[i].0;
            let ghost before = out@;
            let found = Self::read(key, pairs[i].1.as_slice());
            if let Some(record) = found {
                out.push(record);
                proof {
                    let last = before.len() as int;
                    assert(key_at::<R>(out@, last) == key);
                    assert forall|a: int| 0 <= a < before.len() implies #[trigger] key_at::<R>(
                        out@,
                        a,
                    ) == key_at::<R>(before, a) && key_at::<R>(before, a) < key by {
                        assert(out@[a] == before[a]);
                        assert(key_at::<R>(before, a) < pairs@[i as int].0);
                    }
                    assert forall|a: int, b: int| 0 <= a < b < out@.len() implies key_at::<R>(
                        out@,
                        a,
                    ) < key_at::<R>(out@, b) by {
                        if b < last {
                            assert(key_at::<R>(before, a) < key_at::<R>(before, b));
                        }
                    }
                    assert forall|a: int, b: int|
                        0 <= a < out@.len() && i + 1 <= b < pairs@.len() implies key_at::<R>(
                        out@,
                        a,
                    ) < pairs@[b].0 by {
                        assert(pairs@[i as int].0 < pairs@[b].0);
                    }
                    assert forall|b: int|
                        0 <= b < i + 1 && self@.contains_key(
                            #[trigger] pairs@[b].0,
                        ) implies exists|a: int|
                        0 <= a < out@.len() && key_at::<R>(out@, a) == pairs@[b].0 by {
                        if b < i {
                            let a = choose|a: int|
                                0 <= a < before.len() && key_at::<R>(before, a) == pairs@[b].0;
                            assert(key_at::<R>(out@, a) == pairs@[b].0);
                        } else {
                            assert(key_at::<R>(out@, last) == pairs@[b].0);
                        }
                    }
                }
            }
            i += 1;
        }
        proof {
            assert forall|k: u64| self@.contains_key(k) implies exists|a: int|
                0 <= a < out@.len() && key_at::<R>(out@, a) == k by {
                let b = choose|b: int| 0 <= b < pairs@.len() && #[trigger] pairs@[b].0 == k;
                assert(self@.contains_key(pairs@[b].0));
            }
        }
        out
    }

    /// Removes the record stored under `key` and returns it, if there is one.
    pub fn remove(&mut self, key: u64) -> (r: Option<R>)
        ensures
            r.is_some() == old(self)@.contains_key(key),
            r is Some ==> r.unwrap()@ == old(self)@[key],
            r is Some ==> record_fits::<R>(r.unwrap()@) && R::key_of(r.unwrap()@) == key,
            final(self)@ == old(self)@.remove(key),
    {
        let found = self.get(key);
        if found.is_some() {
            let _ = table_remove(&mut self.table, key);
        }
        proof {
            assert(final(self)@ =~= old(self)@.remove(key));
        }
        found
    }
}

} // verus!
