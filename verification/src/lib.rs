//! A key-value store kept in one collection of a partitioned document
//! database.
//!
//! Keys are strings and values are bytes. Each entry is one document of the
//! collection, a [`pair::Pair`]. A collection holds one store, or, where the
//! adapter has a store id, many stores, each in a partition of its own.
//!
//! The adapter, [`store::KeyValueAzureCosmos`], holds no connection. Each of
//! its operations is a function of the replies that the database has given so
//! far, and says what to ask of the database next or what the operation
//! returns ([`protocol`]). The text of the queries is built in [`query`], with
//! keys and store ids as escaped string literals; [`quoting`] proves that the
//! text can be read in one way only.
//! [`laws`] proves, of every database that answers as [`collection`] says,
//! that a store behaves as a map from keys to values does.

pub mod collection;
pub mod credential;
pub mod error;
pub mod laws;
pub mod pair;
pub mod protocol;
pub mod query;
pub mod quoting;
pub mod store;
pub mod views;
