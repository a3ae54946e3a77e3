use vstd::prelude::*;
use crate::path::FsPath;

verus! {

/// What a metadata probe of one path reported.
#[derive(Debug, Clone, Copy, PartialEq, Eq, Structural)]
pub enum PathStatus {
    /// Nothing exists at the path.
    Missing,
    /// The path exists and is a directory.
    Directory,
    /// The path exists but is not a directory.
    Other,
}

/// The set of paths that a round of metadata probes found to be existing
/// regular files.
///
/// The application fills this in by probing exactly the paths the resolver
/// may ask about (see `Cache::probe_paths`); resolution then runs as a pure
/// function of this observation.
pub struct FsView {
    pub files: Vec<FsPath>,
}

impl FsView {
    /// Whether the observation holds a file at path `p`.
    pub open spec fn spec_contains(&self, p: Seq<Seq<char>>) -> bool {
        exists|i: int| 0 <= i < self.files@.len() && self.files@[i]@ == p
    }

    pub fn contains_file(&self, p: &FsPath) -> (r: bool)
        ensures
            r == self.spec_contains(p@),
    {
        let mut i: usize = 0;
        while i < self.files.len()
            invariant
                i <= self.files@.len(),
                forall|j: int| 0 <= j < i ==> self.files@[j]@ != p@,
            decreases self.files@.len() - i,
        {
            if self.files[i].same_as(p) {
                return true;
            }
            i = i + 1;
        }
        false
    }
}

/// One directory entry as observed during enumeration.
#[derive(Debug)]
pub struct DirEntryInfo {
    /// Whether the entry is a regular file.
    pub is_file: bool,
    /// The entry's name, or `None` when the on-disk name is not valid text.
    pub name: Option<String>,
}

/// The observed entries of one directory, together with the directory's path.
///
/// A directory that is missing or cannot be read is represented by an empty
/// entry list: enumeration treats it as holding no pages.
#[derive(Debug)]
pub struct DirListing {
    pub directory: FsPath,
    pub entries: Vec<DirEntryInfo>,
}

/// One page file of a cache tree, with its full contents.
#[derive(Debug)]
pub struct CacheFile {
    pub path: FsPath,
    pub contents: Vec<u8>,
}

/// A whole cache tree as plain data: the files below the cache root.
///
/// The refresh decision works on values of this type, so that the claim
/// "a failed refresh leaves every existing file untouched" can be stated
/// over the tree itself.
#[derive(Debug)]
pub struct CacheTree {
    pub files: Vec<CacheFile>,
}

} // verus!
