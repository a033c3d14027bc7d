//! On-disk index format: the lookup table (`.skidx`), the postings
//! (`.skpost`), the append-only delta segment and the tombstone set.
//!
//! Every function here works on bytes; reading and writing the files is the
//! caller's part.
pub mod entry;
pub mod tombstones;
pub mod writer;
pub mod reader;
pub mod roundtrip;
pub mod delta;
