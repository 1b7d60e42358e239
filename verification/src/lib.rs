//! Reconciliation engine for membership metadata held on identity records.
//!
//! Identity records in an external directory carry group / project /
//! organisation membership in one of three metadata namespaces, encoded
//! inconsistently (sometimes a key/value map, sometimes a bare array of
//! numeric ids).  This library normalizes those encodings, computes
//! membership deltas, plans the permission mutations that propagate a
//! change to every identity affected, and decides what to report once a
//! batch of mutations has run.  All network transport lives outside the
//! library; every function here is pure over plain values and verified.

pub mod codec;
pub mod config;
pub mod controller;
pub mod delta;
pub mod error;
pub mod fanout;
pub mod identity;
pub mod membership;
pub mod namespace;
pub mod numeral;
pub mod outcome;
pub mod value;
