//! Run configuration: the command-line arguments the run is driven by and
//! the selectable digest algorithm.

use vstd::prelude::*;

verus! {

/// The digest algorithm a run fingerprints files with, chosen once at
/// startup and never branched on per file afterwards.
#[derive(Debug, Clone, Copy, PartialEq, Eq, Hash, Structural)]
pub enum Algorithm {
    SHA2_256,
    SHA2_512,
    SHA3_256,
    SHA3_512,
}

impl Algorithm {
    /// The width in bytes of a digest produced by this algorithm.
    pub open spec fn spec_digest_size(&self) -> usize {
        match self {
            Algorithm::SHA2_256 => 32,
            Algorithm::SHA2_512 => 64,
            Algorithm::SHA3_256 => 32,
            Algorithm::SHA3_512 => 64,
        }
    }

    pub fn digest_size(&self) -> (n: usize)
        ensures
            n == self.spec_digest_size(),
    {
        match self {
            Algorithm::SHA2_256 => 32,
            Algorithm::SHA2_512 => 64,
            Algorithm::SHA3_256 => 32,
            Algorithm::SHA3_512 => 64,
        }
    }
}

/// The arguments of one run: where to copy from, where to copy to, how many
/// worker threads to use and which digest algorithm to fingerprint with.
pub struct Args {
    /// The source directory to copy from.
    pub source: String,
    /// The destination directory to copy to.
    pub destination: String,
    /// The number of worker threads for digesting and copying.
    pub thread_count: usize,
    /// The digest algorithm file contents are compared by.
    pub algorithm: Algorithm,
}

} // verus!
