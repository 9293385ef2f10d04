//! Execution and result-marshalling engine for a SQL-Server-style tabular
//! wire-protocol driver.
//!
//! The crate holds the pure core of the driver: connection-string parsing,
//! transaction-state decisions, SQL rewriting and placeholder substitution,
//! the multi-result-set buffer behind the cursor, scroll positioning, and the
//! conversion layer between wire-decoded scalars and host values. Transport
//! work (TCP, handshake, wire decoding) is left to the surrounding program,
//! which hands this crate plain values.

pub mod ascii;
pub mod column;
pub mod connection;
pub mod cursor;
pub mod errors;
pub mod info;
pub mod params;
pub mod rewrite;
pub mod runtime;
pub mod statement;
pub mod txn;
pub mod value;
pub mod writer;
