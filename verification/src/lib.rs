//! Selective directory synchronization: copy every file from a source
//! directory to a destination directory whose content (identified by a
//! cryptographic checksum, not by name) is not already present anywhere in
//! the destination.
//!
//! The library holds the verified core of the pipeline: digest selection,
//! directory fingerprints (a digest set and a path-to-digest map), the diff
//! that computes the copy set, the order-preserving collection of per-copy
//! outcomes, and the textual report. Listing directories, reading files,
//! running the copies and printing the report are I/O and stay with the
//! caller, which hands plain values in and takes plain values back.

pub mod checksum;
pub mod configuration;
pub mod diff;
pub mod file_copy;
pub mod fingerprint;
pub mod report;
