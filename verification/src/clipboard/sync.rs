//! Clipboard synchronisation under a policy, with an audit record per sync.
use vstd::prelude::*;
use crate::audit::{AuditLog, AuditRecord};
use crate::clock::unix_secs;
use crate::clipboard::traits::{describe_content, opt_view, ClipboardContent, ClipboardError,
    ClipboardPolicy, ClipboardProvider, ClipboardSyncService, ContentView};
use crate::text::{append_str, string_from_str};

verus! {

pub struct DefaultClipboardSyncService<P: ClipboardPolicy> {
    policy: P,
    audit: AuditLog,
}

/// The audit record content of a successful sync.
pub open spec fn synced_record(direction: Seq<char>, c: ContentView) -> (Seq<char>, Seq<char>, Seq<char>, Seq<char>, Seq<char>) {
    ("CLIPBOARD"@, "system_operator"@, "127.0.0.1"@, "sync_"@ + direction,
        "Synced clipboard content successfully. Type: "@ + describe_content(c))
}

/// The audit record content of a refused sync.
pub open spec fn refused_record(direction: Seq<char>, c: ContentView) -> (Seq<char>, Seq<char>, Seq<char>, Seq<char>, Seq<char>) {
    ("CLIPBOARD_VIOLATION"@, "system_operator"@, "127.0.0.1"@, "sync_rejected_"@ + direction,
        "Blocked clipboard sync due to policy violation. Content type: "@ + describe_content(c))
}

/// What one sync does, given the destination and the audit journal before
/// and after it: a failed read, and a failed write of allowed contents, are
/// handed back and change nothing; an empty source copies nothing; allowed
/// contents are written and audited; refused contents are audited and left
/// uncopied.
pub open spec fn sync_done<P: ClipboardPolicy, S: ClipboardProvider, D: ClipboardProvider>(
    policy: P,
    direction: Seq<char>,
    source: S,
    old_dest: D,
    new_dest: D,
    old_journal: Seq<AuditRecord>,
    new_journal: Seq<AuditRecord>,
    r: Result<(), ClipboardError>,
) -> bool {
    let unchanged = new_dest.contents() == old_dest.contents() && new_journal == old_journal;
    let appended = new_journal.len() == old_journal.len() + 1 && new_journal.drop_last() == old_journal;
    match source.read_outcome() {
        Some(e) => r == Err::<(), ClipboardError>(e) && unchanged,
        None => match source.contents() {
            None => r is Ok && unchanged,
            Some(c) => if policy.permits(c) {
                match old_dest.write_outcome(c) {
                    Some(e) => r == Err::<(), ClipboardError>(e) && unchanged,
                    None => r is Ok && new_dest.contents() == Some(c) && appended
                        && new_journal.last().content() == synced_record(direction, c),
                }
            } else {
                r == Err::<(), ClipboardError>(ClipboardError::PolicyViolation)
                    && new_dest.contents() == old_dest.contents() && appended
                    && new_journal.last().content() == refused_record(direction, c)
            },
        },
    }
}

impl<P: ClipboardPolicy> DefaultClipboardSyncService<P> {
    pub closed spec fn policy(self) -> P {
        self.policy
    }

    pub closed spec fn journal(self) -> Seq<AuditRecord> {
        self.audit.journal()
    }

    pub fn new(policy: P, audit: AuditLog) -> (r: Self)
        ensures
            r.policy() == policy,
            r.journal() == audit.journal(),
    {
        DefaultClipboardSyncService { policy, audit }
    }

    pub fn audit(&self) -> (r: &AuditLog)
        ensures
            r.journal() == self.journal(),
    {
        &self.audit
    }

    fn log(&mut self, event_type: &str, action_prefix: &str, direction: &str, details_prefix: &str, content: &ClipboardContent)
        ensures
            final(self).policy == old(self).policy,
            final(self).journal().drop_last() == old(self).journal(),
            final(self).journal().len() == old(self).journal().len() + 1,
            final(self).journal().last().content() == (event_type@, "system_operator"@, "127.0.0.1"@,
                action_prefix@ + direction@, details_prefix@ + describe_content(content.view())),
    {
        let mut action = string_from_str(action_prefix);
        append_str(&mut action, direction);
        let mut details = string_from_str(details_prefix);
        append_str(&mut details, content.describe().as_str());
        let rec = AuditRecord {
            timestamp: unix_secs(),
            event_type: string_from_str(event_type),
            username: string_from_str("system_operator"),
            ip_address: string_from_str("127.0.0.1"),
            action,
            details,
        };
        self.audit.write_record(rec);
        assert(self.journal().drop_last() =~= old(self).journal());
    }

    /// Copy the source's contents to the destination when the policy allows
    /// them; refuse and audit otherwise. An empty source copies nothing; a
    /// failed read or write is handed back as it came.
    pub fn perform_sync<S: ClipboardProvider, D: ClipboardProvider>(&mut self, direction: &str, source: &S, destination: &mut D)
        -> (r: Result<(), ClipboardError>)
        ensures
            final(self).policy() == old(self).policy(),
            sync_done(old(self).policy(), direction@, *source, *old(destination), *final(destination),
                old(self).journal(), final(self).journal(), r),
    {
        let read = source.read();
        let content = match read {
            Err(e) => return Err(e),
            Ok(None) => return Ok(()),
            Ok(Some(c)) => c,
        };
        if self.policy.is_allowed(&content) {
            let copy = content.clone();
            match destination.write(copy) {
                Ok(()) => {},
                Err(e) => return Err(e),
            }
            self.log("CLIPBOARD", "sync_", direction, "Synced clipboard content successfully. Type: ", &content);
            Ok(())
        } else {
            self.log("CLIPBOARD_VIOLATION", "sync_rejected_", direction,
                "Blocked clipboard sync due to policy violation. Content type: ", &content);
            Err(ClipboardError::PolicyViolation)
        }
    }
}

impl<P: ClipboardPolicy> ClipboardSyncService for DefaultClipboardSyncService<P> {
    fn sync_to_remote<L: ClipboardProvider, R: ClipboardProvider>(&mut self, local: &L, remote: &mut R)
        -> (r: Result<(), ClipboardError>)
        ensures
            final(self).policy() == old(self).policy(),
            sync_done(old(self).policy(), "local_to_remote"@, *local, *old(remote), *final(remote),
                old(self).journal(), final(self).journal(), r),
    {
        self.perform_sync("local_to_remote", local, remote)
    }

    fn sync_to_local<R: ClipboardProvider, L: ClipboardProvider>(&mut self, remote: &R, local: &mut L)
        -> (r: Result<(), ClipboardError>)
        ensures
            final(self).policy() == old(self).policy(),
            sync_done(old(self).policy(), "remote_to_local"@, *remote, *old(local), *final(local),
                old(self).journal(), final(self).journal(), r),
    {
        self.perform_sync("remote_to_local", remote, local)
    }
}

}
