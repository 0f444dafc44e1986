//! Interfaces of the file-transfer subsystem.
use vstd::prelude::*;

verus! {

/// A file transfer in progress.
pub trait TransferSession {
    fn id(&self) -> &str;
    fn file_name(&self) -> &str;
    fn file_size(&self) -> u64;
    fn bytes_transferred(&self) -> u64;
    fn is_completed(&self) -> bool;
}

/// Decides which files may be transferred.
pub trait TransferPolicy {
    /// Whether a file of this name and size may be transferred.
    spec fn allows(&self, file_name: Seq<char>, size: u64) -> bool;

    fn is_allowed(&self, file_name: &str, size: u64) -> (r: bool)
        ensures
            r == self.allows(file_name@, size);

    fn allow_execution(&self) -> bool;
}

/// Computes and checks content digests.
pub trait HashVerifier {
    /// The digest of some content, as text.
    spec fn digest(&self, data: Seq<u8>) -> Seq<char>;

    fn verify(&self, data: &[u8], expected_hash: &str) -> (r: bool)
        ensures
            r == (self.digest(data@) == expected_hash@);

    fn calculate_hash(&self, data: &[u8]) -> (r: String)
        ensures
            r@ == self.digest(data@);
}


/// Why a transfer request failed.
#[derive(Debug, Clone, Copy, PartialEq, Eq, Structural)]
pub enum TransferError {
    /// The policy refuses the file.
    Blocked,
    /// No upload with that id is in progress.
    SessionNotFound,
    /// The chunk would end beyond the announced file size.
    OutOfBounds,
    /// The upload was checked before all of its bytes arrived.
    Incomplete,
}

/// Accepts uploads chunk by chunk and checks them against a digest.
pub trait FileTransferService {
    /// The service's internal consistency.
    spec fn inv(&self) -> bool;

    fn start_upload(&mut self, file_name: &str, file_size: u64) -> (r: Result<String, TransferError>)
        requires
            old(self).inv(),
        ensures
            final(self).inv();

    fn upload_chunk(&mut self, session_id: &str, offset: u64, chunk: &[u8]) -> (r: Result<(), TransferError>)
        requires
            old(self).inv(),
        ensures
            final(self).inv();

    fn verify_upload(&mut self, session_id: &str, expected_hash: &str) -> (r: Result<bool, TransferError>)
        requires
            old(self).inv(),
        ensures
            final(self).inv();
}

}
