//! A durable registry for a small world of ports: the ports themselves with
//! the ships that lie in them, the users, and the logs kept beside them.
//!
//! The registry lives in stable memory. Records get their identifiers from
//! one counter that only moves forward, mutation of ports is reserved to one
//! administrator, and ships move between two ports in one step or not at all.
//!
//! - `model` says what the registry holds and what each operation makes of
//!   it; `laws` states what follows for every state.
//! - `registry` is the registry itself, proved to do what `model` says.
//! - `store`, `counter` and `identity` are its parts: the stores of records,
//!   the identifier counter and the administrator's identity.
//! - `record` and `row` say how a record is laid out in bytes; `types` and
//!   `logs` hold the records.
//! - `stable` holds the collections of stable memory and what is taken on
//!   trust about them.
pub mod counter;
pub mod error;
pub mod identity;
pub mod laws;
pub mod logs;
pub mod model;
pub mod record;
pub mod registry;
pub mod row;
pub mod stable;
pub mod store;
pub mod text;
pub mod types;
