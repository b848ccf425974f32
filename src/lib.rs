//! Read-only decoding of NTFS metadata: update sequence (fixup) verification of
//! records, attribute header decoding, data run decoding into a cluster map, and
//! index record validation. Every function states its result over the bytes it
//! reads, and the contracts are proved.
//!
//! - `fixup`: verifying and repairing the last two bytes of each sector of a record.
//! - `record`: file records, the lookup of their attributes and structured values.
//! - `attribute`: attribute types and the decoding of one attribute header.
//! - `data_runs`: the run list encoding, decoded run by run.
//! - `cluster_map`: VCN to LCN resolution over a decoded run list.
//! - `index_record`: index record and index root header validation.
//! - `bytes`: little-endian fields and sign extension.

pub mod attribute;
pub mod bytes;
pub mod cluster_map;
pub mod data_runs;
pub mod error;
pub mod fixup;
pub mod index_record;
pub mod record;
pub mod types;

pub use error::NtfsError;
