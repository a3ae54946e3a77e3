use vstd::prelude::*;
use crate::path::FsPath;

verus! {

/// A failure of a cache operation, carrying the path or message needed for an
/// actionable report.
#[derive(Debug)]
pub enum Error {
    /// The configured root path exists but is not a directory.
    NotADirectory { path: FsPath },
    /// The root's modification time lies in the future of "now".
    ClockSkew,
    /// A directory entry's name is not representable as text.
    InvalidFilename { directory: FsPath },
    /// The remote fetch or the archive extraction failed.
    TransferFailure { message: String },
}

impl Error {
    /// A short, fixed description of the kind of failure.
    pub fn kind_description(&self) -> (r: &'static str)
        ensures
            self is NotADirectory ==> r@ == "exists, but is not a directory"@,
            self is ClockSkew ==> r@ == "cache modification time lies in the future"@,
            self is InvalidFilename ==> r@ == "found a file name that is not valid text"@,
            self is TransferFailure ==> r@ == "could not fetch or extract the archive"@,
    {
        proof {
            reveal_strlit("exists, but is not a directory");
            reveal_strlit("cache modification time lies in the future");
            reveal_strlit("found a file name that is not valid text");
            reveal_strlit("could not fetch or extract the archive");
        }
        match self {
            Error::NotADirectory { .. } => "exists, but is not a directory",
            Error::ClockSkew => "cache modification time lies in the future",
            Error::InvalidFilename { .. } => "found a file name that is not valid text",
            Error::TransferFailure { .. } => "could not fetch or extract the archive",
        }
    }
}

} // verus!
