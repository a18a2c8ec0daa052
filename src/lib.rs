//! The storage and iterator bridge between an execution module and a host
//! process that owns the key-value state.
//!
//! Every call across the boundary hands byte buffers over exactly once,
//! decodes the untrusted status code that comes back into a typed result, and
//! reports the gas that the host charged for it.
#![allow(non_camel_case_types)]

pub mod memory;
pub mod error;
pub mod iterator;
pub mod db;
pub mod order;
pub mod lex;
pub mod mock;
