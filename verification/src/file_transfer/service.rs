//! The upload service: uploads are announced, filled chunk by chunk in any
//! order, and finally checked against an expected digest.
use vstd::prelude::*;
use std::hash::{Hash, Hasher};
use crate::audit::{AuditLog, AuditRecord};
use crate::clock::{unix_nanos, unix_secs};
use crate::keyed::KeyedStore;
use crate::text::{append_str, bool_string, bool_text, decimal, decimal_string, hex_min, hex_string, string_from_str};
use crate::file_transfer::traits::{FileTransferService, HashVerifier, TransferError, TransferPolicy};

verus! {

/// An upload in progress.
pub struct FileSession {
    pub file_name: String,
    pub file_size: u64,
    pub data: Vec<u8>,
}

/// An upload as plain values: file name, announced size, bytes received.
pub type UploadView = (Seq<char>, u64, Seq<u8>);

pub open spec fn upload_view(s: FileSession) -> UploadView {
    (s.file_name@, s.file_size, s.data@)
}

/// The buffer after writing `chunk` at `offset`: grown with zero bytes to
/// reach the chunk's end if it is shorter, then overwritten there.
pub open spec fn write_chunk(data: Seq<u8>, offset: int, chunk: Seq<u8>) -> Seq<u8> {
    let end = offset + chunk.len();
    let len = if data.len() < end { end } else { data.len() as int };
    Seq::new(len as nat, |i: int|
        if offset <= i < end { chunk[i - offset] } else if i < data.len() { data[i] } else { 0u8 })
}

/// What `DefaultHasher::new()` yields after a `u128` is hashed into it and
/// the hasher finished.
pub uninterp spec fn default_u128_hash(v: u128) -> u64;

/// Hash a `u128` with a fresh `DefaultHasher` (`<u128 as Hash>::hash`, then
/// `Hasher::finish`). The result is named, not described.
#[verifier::external_body]
fn hash_u128(v: u128) -> (r: u64)
    ensures
        r == default_u128_hash(v),
{
    let mut hasher = std::collections::hash_map::DefaultHasher::new();
    v.hash(&mut hasher);
    hasher.finish()
}

/// The upload id issued at a clock reading of `nanos`.
pub open spec fn upload_id(nanos: u128) -> Seq<char> {
    "tx-"@ + hex_min(default_u128_hash(nanos) as nat)
}

pub struct DefaultFileTransferService<P: TransferPolicy, V: HashVerifier> {
    policy: P,
    digests: V,
    audit: AuditLog,
    sessions: KeyedStore<FileSession>,
}

impl<P: TransferPolicy, V: HashVerifier> DefaultFileTransferService<P, V> {
    /// The uploads in progress, by id.
    pub closed spec fn uploads(self) -> Map<Seq<char>, UploadView> {
        self.sessions.view_map().map_values(|s: FileSession| upload_view(s))
    }

    pub closed spec fn policy(self) -> P {
        self.policy
    }

    pub closed spec fn hasher(self) -> V {
        self.digests
    }

    pub closed spec fn journal(self) -> Seq<AuditRecord> {
        self.audit.journal()
    }

    pub fn new(policy: P, verifier: V, audit: AuditLog) -> (r: Self)
        ensures
            r.inv(),
            r.uploads() == Map::<Seq<char>, UploadView>::empty(),
            r.policy() == policy,
            r.hasher() == verifier,
            r.journal() == audit.journal(),
    {
        let r = DefaultFileTransferService { policy, digests: verifier, audit, sessions: KeyedStore::new() };
        assert(r.uploads() =~= Map::<Seq<char>, UploadView>::empty());
        r
    }

    /// The audit journal written by the service.
    pub fn audit(&self) -> (r: &AuditLog)
        ensures
            r.journal() == self.journal(),
    {
        &self.audit
    }

    fn log(&mut self, event_type: &str, action: String, details: String)
        ensures
            final(self).sessions == old(self).sessions,
            final(self).policy == old(self).policy,
            final(self).digests == old(self).digests,
            final(self).journal() == old(self).journal().push(final(self).journal().last()),
            final(self).journal().last().content()
                == (event_type@, "system_operator"@, "127.0.0.1"@, action@, details@),
    {
        let rec = AuditRecord {
            timestamp: unix_secs(),
            event_type: string_from_str(event_type),
            username: string_from_str("system_operator"),
            ip_address: string_from_str("127.0.0.1"),
            action,
            details,
        };
        self.audit.write_record(rec);
    }

    proof fn lemma_uploads_insert(self, other: Self, k: Seq<char>, s: FileSession)
        requires
            other.sessions.view_map() == self.sessions.view_map().insert(k, s),
        ensures
            other.uploads() == self.uploads().insert(k, upload_view(s)),
    {
        assert(other.uploads() =~= self.uploads().insert(k, upload_view(s)));
    }

    proof fn lemma_uploads_remove(self, other: Self, k: Seq<char>)
        requires
            other.sessions.view_map() == self.sessions.view_map().remove(k),
        ensures
            other.uploads() == self.uploads().remove(k),
    {
        assert(other.uploads() =~= self.uploads().remove(k));
    }
}

impl<P: TransferPolicy, V: HashVerifier> FileTransferService for DefaultFileTransferService<P, V> {
    closed spec fn inv(&self) -> bool {
        self.sessions.wf()
    }

    /// Announce an upload. A file the policy refuses is rejected with
    /// `Blocked`; otherwise a fresh id is issued for an empty buffer. Either
    /// way one audit record is written.
    fn start_upload(&mut self, file_name: &str, file_size: u64) -> (r: Result<String, TransferError>)
        ensures
            final(self).policy() == old(self).policy(),
            final(self).hasher() == old(self).hasher(),
            final(self).journal().drop_last() == old(self).journal(),
            final(self).journal().len() == old(self).journal().len() + 1,
            old(self).policy().allows(file_name@, file_size) <==> r is Ok,
            match r {
                Err(e) => e == TransferError::Blocked
                    && final(self).uploads() == old(self).uploads()
                    && final(self).journal().last().content() == ("FILE_TRANSFER_VIOLATION"@, "system_operator"@,
                        "127.0.0.1"@, "upload_blocked"@,
                        "Blocked file upload: "@ + file_name@ + " ("@ + decimal(file_size as nat) + " bytes)"@),
                Ok(id) => (exists|nanos: u128| id@ == upload_id(nanos))
                    && final(self).uploads() == old(self).uploads().insert(id@, (file_name@, file_size, Seq::<u8>::empty()))
                    && final(self).journal().last().content() == ("FILE_TRANSFER"@, "system_operator"@,
                        "127.0.0.1"@, "upload_start"@,
                        "Started upload session: "@ + id@ + " for file "@ + file_name@),
            },
    {
        if !self.policy.is_allowed(file_name, file_size) {
            let mut d = string_from_str("Blocked file upload: ");
            append_str(&mut d, file_name);
            append_str(&mut d, " (");
            let n = decimal_string(file_size);
            append_str(&mut d, n.as_str());
            append_str(&mut d, " bytes)");
            self.log("FILE_TRANSFER_VIOLATION", string_from_str("upload_blocked"), d);
            proof { assert(final(self).journal().drop_last() =~= old(self).journal()); }
            return Err(TransferError::Blocked);
        }
        let nanos = unix_nanos();
        let mut id = string_from_str("tx-");
        let h = hex_string(hash_u128(nanos));
        append_str(&mut id, h.as_str());
        let ghost before = *self;
        let s = FileSession { file_name: string_from_str(file_name), file_size, data: Vec::new() };
        proof { assert(s.data@ =~= Seq::<u8>::empty()); }
        self.sessions.insert(id.clone(), s);
        proof { before.lemma_uploads_insert(*self, id@, s); }
        let mut d = string_from_str("Started upload session: ");
        append_str(&mut d, id.as_str());
        append_str(&mut d, " for file ");
        append_str(&mut d, file_name);
        self.log("FILE_TRANSFER", string_from_str("upload_start"), d);
        proof {
            assert(final(self).journal().drop_last() =~= old(self).journal());
            assert(id@ == upload_id(nanos));
        }
        Ok(id)
    }

    /// Write a chunk into an upload's buffer at `offset`. Chunks may arrive
    /// in any order; the buffer grows with zero bytes as needed.
    fn upload_chunk(&mut self, session_id: &str, offset: u64, chunk: &[u8]) -> (r: Result<(), TransferError>)
        ensures
            final(self).policy() == old(self).policy(),
            final(self).hasher() == old(self).hasher(),
            final(self).journal() == old(self).journal(),
            match r {
                Err(e) => final(self).uploads() == old(self).uploads() && (
                    if !old(self).uploads().contains_key(session_id@) {
                        e == TransferError::SessionNotFound
                    } else {
                        e == TransferError::OutOfBounds && (offset + chunk@.len() > old(self).uploads()[session_id@].1
                            || offset + chunk@.len() > usize::MAX)
                    }),
                Ok(()) => old(self).uploads().contains_key(session_id@)
                    && offset + chunk@.len() <= old(self).uploads()[session_id@].1
                    && final(self).uploads() == old(self).uploads().insert(session_id@, (
                        old(self).uploads()[session_id@].0,
                        old(self).uploads()[session_id@].1,
                        write_chunk(old(self).uploads()[session_id@].2, offset as int, chunk@),
                    )),
            },
            old(self).uploads().contains_key(session_id@) && offset + chunk@.len() <= old(self).uploads()[session_id@].1
                && offset + chunk@.len() <= usize::MAX ==> r is Ok,
    {
        let i = match self.sessions.find(session_id) {
            Some(i) => i,
            None => return Err(TransferError::SessionNotFound),
        };
        let size = self.sessions.value_at(i).file_size;
        let clen = chunk.len();
        if clen as u64 > size || offset > size - clen as u64 {
            return Err(TransferError::OutOfBounds);
        }
        let end64 = offset + clen as u64;
        if end64 > usize::MAX as u64 {
            return Err(TransferError::OutOfBounds);
        }
        let end = end64 as usize;
        let start = offset as usize;
        let ghost before = *self;
        let ghost key = self.sessions.key_seq()[i as int];
        let mut s = self.sessions.remove_at(i);
        let ghost old_data = s.data@;
        let ghost old_s = upload_view(s);
        assert(before.uploads()[session_id@] == old_s);
        if s.data.len() < end {
            s.data.resize(end, 0u8);
        }
        let mut k: usize = 0;
        while k < clen
            invariant
                clen == chunk@.len(),
                s.file_name@ == old_s.0,
                s.file_size == old_s.1,
                start + clen == end,
                end <= s.data@.len(),
                s.data@.len() == (if old_data.len() < end { end as int } else { old_data.len() as int }),
                k <= clen,
                forall|j: int| 0 <= j < s.data@.len() ==> #[trigger] s.data@[j] == (
                    if start <= j < start + k { chunk@[j - start] }
                    else if j < old_data.len() { old_data[j] } else { 0u8 }),
            decreases clen - k,
        {
            s.data.set(start + k, chunk[k]);
            k = k + 1;
        }
        assert(s.data@ =~= write_chunk(old_data, offset as int, chunk@));
        assert(upload_view(s) == (old_s.0, old_s.1, write_chunk(old_s.2, offset as int, chunk@)));
        let ghost mid = *self;
        let key_s = string_from_str(session_id);
        self.sessions.insert(key_s, s);
        proof {
            before.lemma_uploads_remove(mid, key);
            mid.lemma_uploads_insert(*self, key, s);
            assert(self.uploads() =~= before.uploads().insert(session_id@, (
                before.uploads()[session_id@].0,
                before.uploads()[session_id@].1,
                write_chunk(before.uploads()[session_id@].2, offset as int, chunk@),
            )));
        }
        Ok(())
    }

    /// Finish an upload: its buffer is removed, and, when all of its bytes
    /// arrived, checked against `expected_hash` and one audit record written.
    fn verify_upload(&mut self, session_id: &str, expected_hash: &str) -> (r: Result<bool, TransferError>)
        ensures
            final(self).policy() == old(self).policy(),
            final(self).hasher() == old(self).hasher(),
            final(self).uploads() == old(self).uploads().remove(session_id@),
            match r {
                Err(e) => final(self).journal() == old(self).journal() && (
                    if !old(self).uploads().contains_key(session_id@) {
                        e == TransferError::SessionNotFound
                    } else {
                        e == TransferError::Incomplete
                            && old(self).uploads()[session_id@].2.len() != old(self).uploads()[session_id@].1
                    }),
                Ok(ok) => old(self).uploads().contains_key(session_id@)
                    && old(self).uploads()[session_id@].2.len() == old(self).uploads()[session_id@].1
                    && ok == (old(self).hasher().digest(old(self).uploads()[session_id@].2) == expected_hash@)
                    && final(self).journal().drop_last() == old(self).journal()
                    && final(self).journal().last().content() == ("FILE_TRANSFER"@, "system_operator"@,
                        "127.0.0.1"@, if ok { "upload_success"@ } else { "upload_hash_mismatch"@ },
                        "Verify file "@ + old(self).uploads()[session_id@].0 + ": verified="@ + bool_text(ok)
                            + ". Length="@ + decimal(old(self).uploads()[session_id@].2.len())),
            },
    {
        let ghost before = *self;
        let i = match self.sessions.find(session_id) {
            Some(i) => i,
            None => {
                proof { assert(before.uploads().remove(session_id@) =~= before.uploads()); }
                return Err(TransferError::SessionNotFound);
            },
        };
        let s = self.sessions.remove_at(i);
        proof { before.lemma_uploads_remove(*self, session_id@); }
        if s.data.len() as u64 != s.file_size {
            return Err(TransferError::Incomplete);
        }
        let verified = self.digests.verify(s.data.as_slice(), expected_hash);
        let action = if verified { string_from_str("upload_success") } else { string_from_str("upload_hash_mismatch") };
        let mut d = string_from_str("Verify file ");
        append_str(&mut d, s.file_name.as_str());
        append_str(&mut d, ": verified=");
        let b = bool_string(verified);
        append_str(&mut d, b.as_str());
        append_str(&mut d, ". Length=");
        let n = decimal_string(s.data.len() as u64);
        append_str(&mut d, n.as_str());
        self.log("FILE_TRANSFER", action, d);
        proof { assert(final(self).journal().drop_last() =~= old(self).journal()); }
        Ok(verified)
    }
}

/// Writing a chunk sets exactly the chunk's range and keeps every other byte;
/// the buffer grows only as far as the chunk's end.
pub proof fn lemma_write_chunk_frame(data: Seq<u8>, offset: int, chunk: Seq<u8>, i: int)
    requires
        0 <= offset,
    ensures
        write_chunk(data, offset, chunk).len() == if data.len() < offset + chunk.len() { offset + chunk.len() } else { data.len() as int },
        offset <= i < offset + chunk.len() ==> write_chunk(data, offset, chunk)[i] == chunk[i - offset],
        0 <= i < data.len() && !(offset <= i < offset + chunk.len()) ==> write_chunk(data, offset, chunk)[i] == data[i],
{
}

/// Chunks over disjoint ranges can be written in either order.
pub proof fn lemma_disjoint_chunks_commute(data: Seq<u8>, o1: int, c1: Seq<u8>, o2: int, c2: Seq<u8>)
    requires
        0 <= o1,
        0 <= o2,
        o1 + c1.len() <= o2 || o2 + c2.len() <= o1,
    ensures
        write_chunk(write_chunk(data, o1, c1), o2, c2) == write_chunk(write_chunk(data, o2, c2), o1, c1),
{
    assert(write_chunk(write_chunk(data, o1, c1), o2, c2) =~= write_chunk(write_chunk(data, o2, c2), o1, c1));
}

/// Two consecutive chunks written into an empty buffer leave their
/// concatenation.
pub proof fn lemma_consecutive_chunks(a: Seq<u8>, b: Seq<u8>)
    ensures
        write_chunk(write_chunk(Seq::empty(), 0, a), a.len() as int, b) == a + b,
{
    assert(write_chunk(write_chunk(Seq::empty(), 0, a), a.len() as int, b) =~= a + b);
}

}
