//! What a type must offer to be kept in an entity store.
use crate::row::{
    encode, lemma_row_layout_len, row_fits, row_size, Row, RowView, MAX_ROW_BYTES,
};
use vstd::prelude::*;

verus! {

/// A record that is stored as a row under a key of its own.
///
/// The key is not part of the row: a record read back from under a key has
/// that key.
pub trait Record: View + Sized {
    /// The largest number of bytes that a record of this kind may take when
    /// it is laid out.
    spec fn bound() -> nat;

    /// No kind is given more room than a table has under one key.
    proof fn lemma_bound()
        ensures
            Self::bound() <= MAX_ROW_BYTES,
    ;

    fn max_bytes() -> (n: usize)
        ensures
            n == Self::bound(),
    ;

    /// The key that a record is stored under.
    spec fn key_of(v: Self::V) -> u64;

    /// The row that stands for a record.
    spec fn row_of(v: Self::V) -> RowView;

    /// The record that a row stored under `key` stands for, if it stands for
    /// one.
    spec fn of_row(key: u64, row: RowView) -> Option<Self::V>;

    /// Reading a record's row back under its key gives the record.
    proof fn lemma_row_round_trip(v: Self::V)
        ensures
            Self::of_row(Self::key_of(v), Self::row_of(v)) == Some(v),
    ;

    /// A record read back from under a key has that key.
    proof fn lemma_key_kept(key: u64, row: RowView)
        ensures
            Self::of_row(key, row) is Some ==> Self::key_of(Self::of_row(key, row).unwrap())
                == key,
    ;

    /// A record read back from a row is stored as that row again.
    proof fn lemma_row_kept(key: u64, row: RowView)
        ensures
            Self::of_row(key, row) is Some ==> Self::row_of(Self::of_row(key, row).unwrap())
                == row,
    ;

    fn key(&self) -> (k: u64)
        ensures
            k == Self::key_of(self@),
    ;

    fn to_row(&self) -> (row: Row)
        ensures
            row@ == Self::row_of(self@),
    ;

    fn from_row(key: u64, row: Row) -> (r: Option<Self>)
        ensures
            r.is_some() == Self::of_row(key, row@).is_some(),
            r is Some ==> r.unwrap()@ == Self::of_row(key, row@).unwrap(),
    ;
}

/// The bound of the kinds that are given less room.
pub const SHORT_RECORD_BYTES: usize = 1024;

/// The bound of the kinds that are given more room.
pub const LONG_RECORD_BYTES: usize = 2048;

/// Whether a record can be stored: whether its row fits a table and stays
/// within the bound of its kind.
pub open spec fn record_fits<R: Record>(v: R::V) -> bool {
    row_fits(R::row_of(v)) && row_size(R::row_of(v)) <= R::bound()
}

/// Tells whether a record can be stored.
pub fn fits<R: Record>(record: &R) -> (r: bool)
    ensures
        r == record_fits::<R>(record@),
{
    let row = record.to_row();
    proof {
        lemma_row_layout_len(row@);
    }
    match encode(&row) {
        Some(bytes) => bytes.len() <= R::max_bytes(),
        None => false,
    }
}

} // verus!
