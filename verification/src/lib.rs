//! The broadcast of a leader's shreds.
//!
//! A leader turns the entries of its slots into data shreds, buffers these until they fill
//! erasure-coded sets, and sends data and coding shreds to its peers and to the ledger. A slot
//! that another one interrupts is closed by an empty shred. This crate holds the decisions: what
//! is made, buffered, coded, sent, stored, counted and reported, and in which order. The
//! caller makes shreds, sends them and stores them.
pub mod laws;
pub mod metrics;
pub mod peers;
pub mod process;
pub mod run;
pub mod shred;
pub mod stats;
pub mod trace;
pub mod unfinished;
