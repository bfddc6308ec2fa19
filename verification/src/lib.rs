//! Bidirectional synchronisation between a local directory and an object-storage bucket.
//!
//! The crate holds the decisions of the synchronisation engine: how keys and
//! local names are derived, which remote objects are fetched, in which order the
//! steps of a transfer follow one another and what a failure of each step leads
//! to, and the archive format in which a directory travels as one object.
pub mod archive;
pub mod cli;
pub mod config;
pub mod inbound;
pub mod laws;
pub mod naming;
pub mod outbound;
pub mod report;
pub mod sync;
pub mod text;
