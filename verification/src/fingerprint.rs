//! The directory fingerprinter: one directory scan materialized as two
//! mutually consistent views, a set of content digests (for membership
//! tests) and a map from file path to digest (for ordering copy
//! candidates).
//!
//! Listing a directory and reading files is I/O and stays outside the
//! library; the caller hands in the listed entries and each file's bytes.
//! A subdirectory among the entries is a fatal error for the whole scan:
//! a silently partial fingerprint would produce wrong copy decisions.

use vstd::prelude::*;

use crate::checksum::{digest_bytes, spec_digest};
use crate::configuration::Algorithm;

verus! {

/// One entry of a directory listing, as handed in by the caller: the entry's
/// path and whether the entry is itself a directory.
#[derive(Debug)]
pub struct DirEntry {
    pub path: String,
    pub is_directory: bool,
}

/// The fatal error of a directory scan: a top-level entry is itself a
/// directory, which the non-recursive design rejects outright.
#[derive(Debug)]
pub enum ScanError {
    Subdirectory { path: String },
}

impl ScanError {
    /// The path of the offending entry.
    pub closed spec fn spec_path(&self) -> Seq<char> {
        match self {
            ScanError::Subdirectory { path } => path@,
        }
    }

    /// A human-readable description of the error.
    pub fn describe(&self) -> (r: String)
        ensures
            r@ == "directory entries are not copied: "@ + self.spec_path(),
    {
        match self {
            ScanError::Subdirectory { path } => {
                let mut s = String::from_str("directory entries are not copied: ");
                s.append(path.as_str());
                s
            },
        }
    }
}

/// Select the files of a directory listing, or fail on the first entry that
/// is itself a directory. Succeeds exactly when no entry is a directory, and
/// then returns every entry's path in listing order.
pub fn select_files(entries: &Vec<DirEntry>) -> (r: Result<Vec<String>, ScanError>)
    ensures
        match r {
            Ok(paths) => {
                &&& forall|i: int| 0 <= i < entries@.len() ==> !entries@[i].is_directory
                &&& paths@.len() == entries@.len()
                &&& forall|i: int| 0 <= i < entries@.len() ==> paths@[i]@ == entries@[i].path@
            },
            Err(e) => exists|i: int|
                {
                    &&& 0 <= i < entries@.len()
                    &&& (#[trigger] entries@[i]).is_directory
                    &&& e.spec_path() == entries@[i].path@
                    &&& forall|j: int| 0 <= j < i ==> !entries@[j].is_directory
                },
        },
{
    let mut paths: Vec<String> = Vec::new();
    let n = entries.len();
    let mut i: usize = 0;
    while i < n
        invariant
            n == entries@.len(),
            i <= n,
            paths@.len() == i,
            forall|j: int| 0 <= j < i ==> !entries@[j].is_directory,
            forall|j: int| 0 <= j < i ==> paths@[j]@ == entries@[j].path@,
        decreases n - i,
    {
        let entry = &entries[i];
        if entry.is_directory {
            return Err(ScanError::Subdirectory { path: entry.path.clone() });
        }
        paths.push(entry.path.clone());
        i = i + 1;
    }
    Ok(paths)
}

/// Two derived views over one directory scan: the set of content digests and
/// the map from file path to digest. Built once per run, read-only
/// thereafter.
pub struct DirectoryFingerprint {
    paths: Vec<String>,
    digests: Vec<Vec<u8>>,
}

impl DirectoryFingerprint {
    /// The scanned files in insertion order, each as its path and digest.
    pub closed spec fn entries(&self) -> Seq<(Seq<char>, Seq<u8>)> {
        Seq::new(self.paths@.len() as nat, |i: int| (self.paths@[i]@, self.digests@[i]@))
    }

    /// Well-formed: one digest per path, and paths are distinct, as the
    /// entries of one directory listing are.
    pub closed spec fn wf(&self) -> bool {
        &&& self.paths@.len() == self.digests@.len()
        &&& forall|i: int, j: int|
            0 <= i < j < self.paths@.len() ==> self.paths@[i]@ != self.paths@[j]@
    }

    /// The set of digests of the scanned files: the membership view.
    pub open spec fn digest_set(&self) -> Set<Seq<u8>> {
        Set::new(
            |d: Seq<u8>|
                exists|i: int| 0 <= i < self.entries().len() && (#[trigger] self.entries()[i]).1 == d,
        )
    }

    /// The map from file path to that file's digest: the ordering view.
    pub open spec fn path_digest_map(&self) -> Map<Seq<char>, Seq<u8>> {
        Map::new(
            |p: Seq<char>|
                exists|i: int| 0 <= i < self.entries().len() && (#[trigger] self.entries()[i]).0 == p,
            |p: Seq<char>|
                {
                    let i = choose|i: int|
                        0 <= i < self.entries().len() && (#[trigger] self.entries()[i]).0 == p;
                    self.entries()[i].1
                },
        )
    }

    /// An empty fingerprint, to be filled entry by entry as a scan's digests
    /// arrive.
    pub fn new() -> (fp: Self)
        ensures
            fp.wf(),
            fp.entries() == Seq::<(Seq<char>, Seq<u8>)>::empty(),
    {
        let fp = DirectoryFingerprint { paths: Vec::new(), digests: Vec::new() };
        proof {
            assert(fp.entries() =~= Seq::<(Seq<char>, Seq<u8>)>::empty());
        }
        fp
    }

    /// How many files the fingerprint covers.
    pub fn len(&self) -> (n: usize)
        ensures
            n == self.entries().len(),
    {
        self.paths.len()
    }

    /// The path of the entry at a position, in insertion order.
    pub fn path_at(&self, i: usize) -> (p: &String)
        requires
            i < self.entries().len(),
        ensures
            p@ == self.entries()[i as int].0,
    {
        &self.paths[i]
    }

    /// The digest of the entry at a position, in insertion order.
    pub fn digest_at(&self, i: usize) -> (d: &Vec<u8>)
        requires
            self.wf(),
            i < self.entries().len(),
        ensures
            d@ == self.entries()[i as int].1,
    {
        &self.digests[i]
    }

    /// Whether some scanned file already has this digest, under any name.
    pub fn contains_digest(&self, d: &Vec<u8>) -> (r: bool)
        requires
            self.wf(),
        ensures
            r == self.digest_set().contains(d@),
    {
        let n = self.digests.len();
        let mut i: usize = 0;
        while i < n
            invariant
                self.wf(),
                n == self.digests@.len(),
                i <= n,
                forall|j: int| 0 <= j < i ==> (#[trigger] self.digests@[j])@ != d@,
            decreases n - i,
        {
            if bytes_eq(&self.digests[i], d) {
                proof {
                    assert(self.entries()[i as int].1 == d@);
                }
                return true;
            }
            i = i + 1;
        }
        proof {
            assert(forall|i: int|
                0 <= i < self.entries().len() ==> (#[trigger] self.entries()[i]).1
                    == self.digests@[i]@);
        }
        false
    }

    /// Whether some scanned file has this path.
    pub fn contains_path(&self, p: &String) -> (r: bool)
        ensures
            r == self.path_digest_map().dom().contains(p@),
    {
        let n = self.paths.len();
        let mut i: usize = 0;
        while i < n
            invariant
                n == self.paths@.len(),
                i <= n,
                forall|j: int| 0 <= j < i ==> (#[trigger] self.paths@[j])@ != p@,
            decreases n - i,
        {
            if self.paths[i].eq(p) {
                proof {
                    assert(self.entries()[i as int].0 == p@);
                }
                return true;
            }
            i = i + 1;
        }
        proof {
            assert(forall|i: int|
                0 <= i < self.entries().len() ==> (#[trigger] self.entries()[i]).0
                    == self.paths@[i]@);
        }
        false
    }

    /// Record one scanned file's digest. This is the single mutually
    /// exclusive accumulation step of a scan; the caller serializes calls.
    pub fn add_digest(&mut self, path: String, digest: Vec<u8>)
        requires
            old(self).wf(),
            !old(self).path_digest_map().dom().contains(path@),
        ensures
            final(self).wf(),
            final(self).entries() == old(self).entries().push((path@, digest@)),
    {
        proof {
            assert(forall|i: int|
                0 <= i < old(self).entries().len() ==> (#[trigger] old(self).entries()[i]).0
                    == old(self).paths@[i]@);
        }
        let ghost prior = self.entries();
        self.paths.push(path);
        self.digests.push(digest);
        proof {
            assert forall|i: int, j: int|
                0 <= i < j < self.paths@.len() implies self.paths@[i]@ != self.paths@[j]@ by {
                if j < self.paths@.len() - 1 {
                    assert(old(self).paths@[i]@ != old(self).paths@[j]@);
                } else {
                    assert(prior[i].0 == old(self).paths@[i]@);
                }
            }
            assert(self.entries() =~= prior.push((self.paths@.last()@, self.digests@.last()@)));
        }
    }

    /// Digest one file's bytes with the configured algorithm and record the
    /// result under the file's path.
    pub fn add_file(&mut self, alg: &Algorithm, path: String, content: &Vec<u8>)
        requires
            old(self).wf(),
            !old(self).path_digest_map().dom().contains(path@),
        ensures
            final(self).wf(),
            final(self).entries() == old(self).entries().push(
                (path@, spec_digest(*alg, content@)),
            ),
    {
        let digest = digest_bytes(alg, content);
        self.add_digest(path, digest);
    }
}

/// Byte-exact equality of two digests (or any two byte vectors).
pub fn bytes_eq(a: &Vec<u8>, b: &Vec<u8>) -> (r: bool)
    ensures
        r == (a@ == b@),
{
    if a.len() != b.len() {
        return false;
    }
    let n = a.len();
    let mut i: usize = 0;
    while i < n
        invariant
            n == a@.len(),
            n == b@.len(),
            i <= n,
            forall|j: int| 0 <= j < i ==> a@[j] == b@[j],
        decreases n - i,
    {
        if a[i] != b[i] {
            return false;
        }
        i = i + 1;
    }
    proof {
        assert(a@ =~= b@);
    }
    true
}

/// Fingerprint a whole directory listing's files at once: digest every
/// file's bytes with the configured algorithm and record them in listing
/// order.
pub fn fingerprint_files(alg: &Algorithm, files: &Vec<(String, Vec<u8>)>) -> (fp:
    DirectoryFingerprint)
    requires
        forall|i: int, j: int|
            0 <= i < j < files@.len() ==> (#[trigger] files@[i]).0@ != (#[trigger] files@[j]).0@,
    ensures
        fp.wf(),
        fp.entries() == files@.map_values(
            |f: (String, Vec<u8>)| (f.0@, spec_digest(*alg, f.1@)),
        ),
{
    let ghost target = files@.map_values(|f: (String, Vec<u8>)| (f.0@, spec_digest(*alg, f.1@)));
    let mut fp = DirectoryFingerprint::new();
    let n = files.len();
    let mut i: usize = 0;
    while i < n
        invariant
            n == files@.len(),
            i <= n,
            fp.wf(),
            target == files@.map_values(
                |f: (String, Vec<u8>)| (f.0@, spec_digest(*alg, f.1@)),
            ),
            forall|k: int, l: int|
                0 <= k < l < files@.len() ==> (#[trigger] files@[k]).0@
                    != (#[trigger] files@[l]).0@,
            fp.entries() == target.take(i as int),
        decreases n - i,
    {
        proof {
            assert forall|k: int|
                0 <= k < fp.entries().len() implies (#[trigger] fp.entries()[k]).0 != files@[i as int].0@ by {
                assert(fp.entries()[k] == target[k]);
                assert(target[k].0 == files@[k].0@);
            }
        }
        let (path, content) = &files[i];
        fp.add_file(alg, path.clone(), content);
        proof {
            assert(fp.entries() =~= target.take(i + 1 as int));
        }
        i = i + 1;
    }
    proof {
        assert(fp.entries() =~= target);
    }
    fp
}

/// Fingerprint consistency: the digest set derived from a fingerprint equals
/// the set of values of its path-to-digest map — both views describe the
/// same scan.
pub proof fn lemma_fingerprint_consistency(fp: DirectoryFingerprint)
    requires
        fp.wf(),
    ensures
        fp.digest_set() =~= fp.path_digest_map().values(),
{
    let m = fp.path_digest_map();
    assert forall|d: Seq<u8>| fp.digest_set().contains(d) implies m.values().contains(d) by {
        let i = choose|i: int|
            0 <= i < fp.entries().len() && (#[trigger] fp.entries()[i]).1 == d;
        let p = fp.entries()[i].0;
        assert(m.dom().contains(p));
        let j = choose|j: int| 0 <= j < fp.entries().len() && (#[trigger] fp.entries()[j]).0 == p;
        assert(j == i) by {
            lemma_entry_paths_distinct(fp, i, j);
        }
        assert(m[p] == d);
        assert(m.contains_value(d));
    }
    assert forall|d: Seq<u8>| m.values().contains(d) implies fp.digest_set().contains(d) by {
        let p = choose|p: Seq<char>| #[trigger] m.dom().contains(p) && m[p] == d;
        let i = choose|i: int| 0 <= i < fp.entries().len() && (#[trigger] fp.entries()[i]).0 == p;
        assert(fp.entries()[i].1 == d);
    }
}

/// Distinct positions of a well-formed fingerprint hold distinct paths.
proof fn lemma_entry_paths_distinct(fp: DirectoryFingerprint, i: int, j: int)
    requires
        fp.wf(),
        0 <= i < fp.entries().len(),
        0 <= j < fp.entries().len(),
        fp.entries()[i].0 == fp.entries()[j].0,
    ensures
        i == j,
{
    assert(fp.entries()[i].0 == fp.paths@[i]@);
    assert(fp.entries()[j].0 == fp.paths@[j]@);
}

} // verus!
