//! Access to files below a base directory, refusing paths that leave it.
use vstd::prelude::*;
use crate::text::string_from_str;

verus! {

/// What `Path::join` gives for a base and a further path.
pub uninterp spec fn path_join(base: Seq<char>, rel: Seq<char>) -> Seq<char>;

/// What `Path::starts_with` answers: whether `base`'s components begin `path`.
pub uninterp spec fn path_starts_with(path: Seq<char>, base: Seq<char>) -> bool;

/// `base` joined with `rel`; wraps `Path::join`. Path syntax is named, not
/// restated.
#[verifier::external_body]
fn join_path(base: &str, rel: &str) -> (r: String)
    ensures
        r@ == path_join(base@, rel@),
{
    std::path::Path::new(base).join(rel).to_string_lossy().into_owned()
}

/// Whether `path` lies under `base`, component by component; wraps
/// `Path::starts_with`.
#[verifier::external_body]
fn starts_with_path(path: &str, base: &str) -> (r: bool)
    ensures
        r == path_starts_with(path@, base@),
{
    std::path::Path::new(path).starts_with(base)
}

/// A request for a path outside the base directory.
#[derive(Debug, Clone, Copy, PartialEq, Eq, Structural)]
pub enum PathAccessError {
    Unauthorized,
}

impl PathAccessError {
    pub fn message(&self) -> (r: String)
        ensures
            r@ == "Unauthorized path access attempt"@,
    {
        string_from_str("Unauthorized path access attempt")
    }
}

/// Whether `rel`, joined to `base`, stays below `base`.
pub open spec fn inside(base: Seq<char>, rel: Seq<char>) -> bool {
    path_starts_with(path_join(base, rel), base)
}

/// Reads and writes chunks of files below a base directory.
pub struct FileTransferManager {
    base_dir: String,
}

impl FileTransferManager {
    pub closed spec fn base(&self) -> Seq<char> {
        self.base_dir@
    }

    pub fn new(base_dir: &str) -> (r: FileTransferManager)
        ensures
            r.base() == base_dir@,
    {
        FileTransferManager { base_dir: string_from_str(base_dir) }
    }

    fn check(&self, relative_path: &str) -> (r: Result<(), PathAccessError>)
        ensures
            r is Ok <==> inside(self.base(), relative_path@),
    {
        let target = join_path(self.base_dir.as_str(), relative_path);
        if starts_with_path(target.as_str(), self.base_dir.as_str()) {
            Ok(())
        } else {
            Err(PathAccessError::Unauthorized)
        }
    }

    /// Accept a chunk for `relative_path` unless that path leaves the base directory.
    pub fn write_chunk(&self, relative_path: &str, offset: u64, data: &[u8]) -> (r: Result<(), PathAccessError>)
        ensures
            r is Ok <==> inside(self.base(), relative_path@),
    {
        self.check(relative_path)
    }

    /// Read a chunk of `relative_path` (nothing is stored, so it is empty)
    /// unless that path leaves the base directory.
    pub fn read_chunk(&self, relative_path: &str, offset: u64, size: usize) -> (r: Result<Vec<u8>, PathAccessError>)
        ensures
            r is Ok <==> inside(self.base(), relative_path@),
            r matches Ok(v) ==> v@.len() == 0,
    {
        match self.check(relative_path) {
            Ok(()) => Ok(Vec::new()),
            Err(e) => Err(e),
        }
    }
}

} // verus!
