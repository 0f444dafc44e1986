//! Security audit journal. Records are appended in order; persisting them
//! (one JSON object per line) is the caller's job.
use vstd::prelude::*;
use crate::text::{string_from_str, string_from_chars, append_str, chars_of, strings_view, lemma_strings_view_push};
use crate::parse::{lines_spec, lines_chars, views};
use crate::clock::unix_secs;

verus! {

#[derive(Debug, Clone, PartialEq, Eq)]
pub struct AuditRecord {
    pub timestamp: u64,
    pub event_type: String,
    pub username: String,
    pub ip_address: String,
    pub action: String,
    pub details: String,
}

/// A record as plain values, without its timestamp.
pub type RecordView = (Seq<char>, Seq<char>, Seq<char>, Seq<char>, Seq<char>);

impl AuditRecord {
    pub open spec fn content(self) -> RecordView {
        (self.event_type@, self.username@, self.ip_address@, self.action@, self.details@)
    }
}

/// The records of a journal without their timestamps.
pub open spec fn contents(rs: Seq<AuditRecord>) -> Seq<RecordView> {
    rs.map_values(|r: AuditRecord| r.content())
}

/// An append-only audit journal bound to a log file path.
pub struct AuditLog {
    log_file_path: String,
    records: Vec<AuditRecord>,
}

impl AuditLog {
    pub closed spec fn path(self) -> Seq<char> {
        self.log_file_path@
    }

    /// The records written so far, oldest first.
    pub closed spec fn journal(self) -> Seq<AuditRecord> {
        self.records@
    }

    pub fn new(log_file_path: &str) -> (r: AuditLog)
        ensures
            r.path() == log_file_path@,
            r.journal() == Seq::<AuditRecord>::empty(),
    {
        AuditLog { log_file_path: string_from_str(log_file_path), records: Vec::new() }
    }

    pub fn log_file_path(&self) -> (r: &str)
        ensures
            r@ == self.path(),
    {
        self.log_file_path.as_str()
    }

    /// The records written so far, oldest first.
    pub fn records(&self) -> (r: &[AuditRecord])
        ensures
            r@ == self.journal(),
    {
        self.records.as_slice()
    }

    /// Hand out the records written so far and empty the journal.
    pub fn take_records(&mut self) -> (r: Vec<AuditRecord>)
        ensures
            r@ == old(self).journal(),
            final(self).journal() == Seq::<AuditRecord>::empty(),
            final(self).path() == old(self).path(),
    {
        let mut out: Vec<AuditRecord> = Vec::new();
        std::mem::swap(&mut out, &mut self.records);
        out
    }

    /// Append a record.
    pub fn write_record(&mut self, record: AuditRecord)
        ensures
            final(self).journal() == old(self).journal().push(record),
            final(self).path() == old(self).path(),
    {
        self.records.push(record);
    }

    fn write_now(&mut self, event_type: &str, username: &str, ip: &str, action: &str, details: String)
        ensures
            final(self).path() == old(self).path(),
            final(self).journal().len() == old(self).journal().len() + 1,
            final(self).journal().drop_last() == old(self).journal(),
            final(self).journal().last().content() == (event_type@, username@, ip@, action@, details@),
    {
        let rec = AuditRecord {
            timestamp: unix_secs(),
            event_type: string_from_str(event_type),
            username: string_from_str(username),
            ip_address: string_from_str(ip),
            action: string_from_str(action),
            details,
        };
        self.write_record(rec);
        assert(self.journal().drop_last() =~= old(self).journal());
    }

    pub fn log_auth_success(&mut self, username: &str, ip: &str)
        ensures
            final(self).path() == old(self).path(),
            final(self).journal().drop_last() == old(self).journal(),
            final(self).journal().len() == old(self).journal().len() + 1,
            final(self).journal().last().content() == ("AUTHENTICATION"@, username@, ip@, "login_success"@,
                "User "@ + username@ + " successfully authenticated"@),
    {
        let mut d = string_from_str("User ");
        append_str(&mut d, username);
        append_str(&mut d, " successfully authenticated");
        self.write_now("AUTHENTICATION", username, ip, "login_success", d);
    }

    pub fn log_auth_failure(&mut self, username: &str, ip: &str, reason: &str)
        ensures
            final(self).path() == old(self).path(),
            final(self).journal().drop_last() == old(self).journal(),
            final(self).journal().len() == old(self).journal().len() + 1,
            final(self).journal().last().content() == ("AUTHENTICATION"@, username@, ip@, "login_failure"@,
                "Failed authentication for "@ + username@ + ": "@ + reason@),
    {
        let mut d = string_from_str("Failed authentication for ");
        append_str(&mut d, username);
        append_str(&mut d, ": ");
        append_str(&mut d, reason);
        self.write_now("AUTHENTICATION", username, ip, "login_failure", d);
    }

    pub fn log_session_start(&mut self, session_id: &str, username: &str, display: &str)
        ensures
            final(self).path() == old(self).path(),
            final(self).journal().drop_last() == old(self).journal(),
            final(self).journal().len() == old(self).journal().len() + 1,
            final(self).journal().last().content() == ("SESSION"@, username@, ""@, "session_start"@,
                "Session "@ + session_id@ + " started on display "@ + display@),
    {
        let mut d = string_from_str("Session ");
        append_str(&mut d, session_id);
        append_str(&mut d, " started on display ");
        append_str(&mut d, display);
        self.write_now("SESSION", username, "", "session_start", d);
    }

    pub fn log_session_stop(&mut self, session_id: &str, username: &str, reason: &str)
        ensures
            final(self).path() == old(self).path(),
            final(self).journal().drop_last() == old(self).journal(),
            final(self).journal().len() == old(self).journal().len() + 1,
            final(self).journal().last().content() == ("SESSION"@, username@, ""@, "session_stop"@,
                "Session "@ + session_id@ + " stopped. Reason: "@ + reason@),
    {
        let mut d = string_from_str("Session ");
        append_str(&mut d, session_id);
        append_str(&mut d, " stopped. Reason: ");
        append_str(&mut d, reason);
        self.write_now("SESSION", username, "", "session_stop", d);
    }
}

/// The lines of a journal file's text, each of which may hold a record.
pub fn journal_lines(contents: &str) -> (r: Vec<String>)
    ensures
        strings_view(r@) == lines_spec(contents@),
{
    let text = chars_of(contents);
    let lines = lines_chars(&text);
    let ghost ls = lines_spec(contents@);
    let mut out: Vec<String> = Vec::new();
    let mut i: usize = 0;
    assert(strings_view(out@) =~= ls.subrange(0, 0));
    while i < lines.len()
        invariant
            views(lines@) == ls,
            i <= lines@.len(),
            strings_view(out@) == ls.subrange(0, i as int),
        decreases lines.len() - i,
    {
        let line = string_from_chars(lines[i].as_slice());
        proof {
            lemma_strings_view_push(out@, line);
            assert(ls[i as int] == lines@[i as int]@);
        }
        out.push(line);
        i = i + 1;
        assert(strings_view(out@) =~= ls.subrange(0, i as int));
    }
    assert(ls.subrange(0, ls.len() as int) =~= ls);
    out
}

/// The records among the journal's lines, in file order: the lines that
/// parse as a record.
pub open spec fn parsed_records(lines: Seq<Option<AuditRecord>>) -> Seq<AuditRecord>
    decreases lines.len(),
{
    if lines.len() == 0 {
        Seq::empty()
    } else {
        let rest = parsed_records(lines.drop_last());
        match lines.last() {
            Some(r) => rest.push(r),
            None => rest,
        }
    }
}

/// The last `count` of `records`, oldest first (all of them when there are
/// fewer).
pub open spec fn last_n(records: Seq<AuditRecord>, count: nat) -> Seq<AuditRecord> {
    if count >= records.len() { records } else { records.subrange(records.len() - count, records.len() as int) }
}

fn copy_record(r: &AuditRecord) -> (c: AuditRecord)
    ensures
        c == *r,
{
    AuditRecord {
        timestamp: r.timestamp,
        event_type: r.event_type.clone(),
        username: r.username.clone(),
        ip_address: r.ip_address.clone(),
        action: r.action.clone(),
        details: r.details.clone(),
    }
}

fn records_of(lines: &Vec<Option<AuditRecord>>) -> (r: Vec<AuditRecord>)
    ensures
        r@ == parsed_records(lines@),
{
    let mut out: Vec<AuditRecord> = Vec::new();
    let mut i: usize = 0;
    assert(lines@.subrange(0, 0) =~= Seq::<Option<AuditRecord>>::empty());
    while i < lines.len()
        invariant
            i <= lines@.len(),
            out@ == parsed_records(lines@.subrange(0, i as int)),
        decreases lines.len() - i,
    {
        proof {
            assert(lines@.subrange(0, i + 1).drop_last() =~= lines@.subrange(0, i as int));
            assert(lines@.subrange(0, i + 1).last() == lines@[i as int]);
        }
        match &lines[i] {
            Some(rec) => out.push(copy_record(rec)),
            None => {},
        }
        i = i + 1;
    }
    assert(lines@.subrange(0, lines@.len() as int) =~= lines@);
    out
}

/// The last `count` records of the journal, oldest first, given each of its
/// lines as parsed (`None` for a line that is not a record).
pub fn last_records(lines: &Vec<Option<AuditRecord>>, count: usize) -> (r: Vec<AuditRecord>)
    ensures
        r@ == last_n(parsed_records(lines@), count as nat),
{
    let all = records_of(lines);
    let n = all.len();
    let start: usize = if count >= n { 0 } else { n - count };
    let mut out: Vec<AuditRecord> = Vec::new();
    let mut i: usize = start;
    while i < n
        invariant
            n == all@.len(),
            start <= i <= n,
            out@ == all@.subrange(start as int, i as int),
        decreases n - i,
    {
        out.push(copy_record(&all[i]));
        i = i + 1;
        assert(out@ =~= all@.subrange(start as int, i as int));
    }
    assert(last_n(all@, count as nat) =~= all@.subrange(start as int, n as int));
    out
}

/// The number of records in the journal, given each of its lines as parsed.
pub fn record_count(lines: &Vec<Option<AuditRecord>>) -> (r: usize)
    ensures
        r as nat == parsed_records(lines@).len(),
{
    records_of(lines).len()
}

/// A record appended to the journal counts once more, and is what reading
/// the last record then gives back.
pub proof fn lemma_appended_record_is_read_last(lines: Seq<Option<AuditRecord>>, r: AuditRecord)
    ensures
        parsed_records(lines.push(Some(r))).len() == parsed_records(lines).len() + 1,
        last_n(parsed_records(lines.push(Some(r))), 1) == seq![r],
{
    assert(lines.push(Some(r)).drop_last() =~= lines);
    let all = parsed_records(lines.push(Some(r)));
    assert(all == parsed_records(lines).push(r));
    if all.len() > 1 {
        assert(all.subrange(all.len() - 1, all.len() as int) =~= seq![r]);
    } else {
        assert(all =~= seq![r]);
    }
}

} // verus!
